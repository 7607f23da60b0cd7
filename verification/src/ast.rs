//! The document tree.
//!
//! A document is a list of blocks; a paragraph, a table cell, a character
//! style and a note hold inline nodes; a sidebar and a `\periph` division hold
//! blocks of their own. Every node carries the span of the source it was read
//! from, and every style is a [`StyleId`] into the document's own stylesheet.
use vstd::prelude::*;
use std::sync::Arc;
use crate::book::Book;
use crate::number::NumberList;
use crate::span::Span;
use crate::style::{StyleRule, StyleSheet};
use crate::strings::str_eq;

verus! {

/// An index into the document's stylesheet.
#[derive(Clone, Copy, Debug, PartialEq, Eq, Structural)]
pub struct StyleId(pub u32);

impl StyleId {
    pub fn new(index: u32) -> (id: StyleId)
        ensures
            id.0 == index,
    {
        StyleId(index)
    }

    pub fn index(&self) -> (index: usize)
        ensures
            index == self.0,
    {
        self.0 as usize
    }
}

/// A run of text. Its span is the source it was read from, which is not the
/// content verbatim: whitespace is normalised and escapes are resolved.
#[derive(Clone, Debug, PartialEq)]
pub struct Text {
    pub content: String,
    pub span: Span,
}

impl Text {
    pub fn new(content: String, span: Span) -> (text: Text)
        ensures
            text.content@ == content@,
            text.span == span,
    {
        Text { content, span }
    }

    /// Text with no source behind it.
    pub fn synthesized(content: &str) -> (text: Text)
        ensures
            text.content@ == content@,
            text.span == Span::synthesized_spec(),
    {
        Text { content: content.to_owned(), span: Span::synthesized() }
    }
}

/// One `name="value"` pair. The default attribute, written bare, has an
/// empty name.
#[derive(Clone, Debug, PartialEq)]
pub struct Attribute {
    pub name: String,
    pub value: String,
    pub span: Span,
}

/// An attribute list, and the `|` that opened it.
#[derive(Clone, Debug, PartialEq)]
pub struct Attributes {
    pub pairs: Vec<Attribute>,
    pub pipe: Span,
}

#[derive(Debug, PartialEq, Clone)]
pub struct ChapterStart {
    pub number: usize,
    pub alt_number: Option<NumberList>,
    pub pub_number: Option<String>,
    /// Source range of the `\c` marker and its number.
    pub span: Span,
}

#[derive(Debug, PartialEq, Clone)]
pub struct ChapterEnd {
    pub number: usize,
    /// Chapter ends are synthesized.
    pub span: Span,
}

#[derive(Debug, PartialEq, Clone)]
pub struct VerseStart {
    pub number: NumberList,
    pub alt_number: Option<NumberList>,
    pub pub_number: Option<String>,
    /// Source range of the `\v` marker and its number.
    pub span: Span,
}

#[derive(Debug, PartialEq, Clone)]
pub struct VerseEnd {
    pub number: NumberList,
    /// Verse ends are synthesized.
    pub span: Span,
}

/// A note's caller: `+`, `-`, or a custom one.
#[derive(Debug, PartialEq, Clone)]
pub enum Caller {
    Plus,
    Minus,
    Custom(String),
}

/// A character style: `\nd Lord\nd*`.
#[derive(Debug, PartialEq)]
pub struct Char {
    pub style: StyleId,
    pub children: Vec<Inline>,
    pub attributes: Option<Attributes>,
    pub span: Span,
}

/// A footnote, cross reference or other note: `\f + …\f*`.
#[derive(Debug, PartialEq)]
pub struct Note {
    pub style: StyleId,
    pub caller: Caller,
    pub category: Option<Text>,
    pub children: Vec<Inline>,
    pub span: Span,
}

/// A milestone: `\qt-s |who="God"\*`. `attributes` is `None` when there is
/// no `|` at all, and `Some` with no pairs for a bare `|`.
#[derive(Debug, PartialEq)]
pub struct Milestone {
    pub style: StyleId,
    pub attributes: Option<Attributes>,
    pub span: Span,
}

/// An optional line break, `//`.
#[derive(Debug, PartialEq, Clone, Copy)]
pub struct OptBreak {
    pub span: Span,
}

#[derive(Debug, PartialEq)]
pub enum Inline {
    Text(Text),
    VerseStart(VerseStart),
    VerseEnd(VerseEnd),
    Char(Char),
    Note(Note),
    Milestone(Milestone),
    OptBreak(OptBreak),
}

/// A paragraph: `\p`, `\q1`, `\s`.
#[derive(Debug, PartialEq)]
pub struct Para {
    pub style: StyleId,
    pub children: Vec<Inline>,
    pub span: Span,
}

#[derive(Debug, PartialEq, Clone, Copy, Structural)]
pub enum Alignment {
    Start,
    Center,
    End,
}

#[derive(Debug, PartialEq)]
pub struct TableCell {
    pub header: bool,
    pub alignment: Alignment,
    /// The column the marker names: `\tc2` is 2.
    pub column: usize,
    /// How many columns the cell spans: `\tc1-2` is 2.
    pub colspan: usize,
    pub children: Vec<Inline>,
    pub span: Span,
}

#[derive(Debug, PartialEq)]
pub struct TableRow {
    pub cells: Vec<TableCell>,
    pub span: Span,
}

#[derive(Debug, PartialEq)]
pub struct Table {
    pub rows: Vec<TableRow>,
    pub span: Span,
}

/// A study-Bible sidebar: `\esb` … `\esbe`.
#[derive(Debug, PartialEq)]
pub struct Sidebar {
    pub style: StyleId,
    pub category: Option<Text>,
    pub blocks: Vec<Block>,
    pub span: Span,
}

/// A peripheral division: `\periph Title|id="x"` and the blocks up to the next
/// `\periph`.
#[derive(Debug, PartialEq)]
pub struct Periph {
    pub style: StyleId,
    pub title: Option<Text>,
    pub attributes: Option<Attributes>,
    pub blocks: Vec<Block>,
    pub span: Span,
}

#[derive(Debug, PartialEq)]
pub enum Block {
    Book(Book),
    ChapterStart(ChapterStart),
    ChapterEnd(ChapterEnd),
    Para(Para),
    Table(Table),
    Milestone(Milestone),
    Sidebar(Sidebar),
    Periph(Periph),
}

impl Milestone {
    /// The attribute pairs, none when there is no `|`.
    pub fn pairs(&self) -> (pairs: &[Attribute])
        ensures
            pairs@ == match self.attributes {
                Some(a) => a.pairs@,
                None => seq![],
            },
    {
        match &self.attributes {
            Some(attributes) => attributes.pairs.as_slice(),
            None => &[],
        }
    }
}

/// Whether every style in an inline node and its children is an index below
/// `n`.
pub open spec fn inline_styles_below(node: Inline, n: nat) -> bool
    decreases node,
{
    match node {
        Inline::Char(c) => c.style.0 < n && all_inline_styles_below(c.children@, n),
        Inline::Note(x) => x.style.0 < n && all_inline_styles_below(x.children@, n),
        Inline::Milestone(m) => m.style.0 < n,
        _ => true,
    }
}

/// [`inline_styles_below`] of every node of a list, element by element from
/// the back.
pub open spec fn all_inline_styles_below(nodes: Seq<Inline>, n: nat) -> bool
    decreases nodes,
{
    if nodes.len() == 0 {
        true
    } else {
        all_inline_styles_below(nodes.drop_last(), n) && inline_styles_below(nodes.last(), n)
    }
}

/// Whether every style in a list of inline nodes is an index below `n`.
pub open spec fn inlines_styles_below(nodes: Seq<Inline>, n: nat) -> bool {
    forall|k: int| 0 <= k < nodes.len() ==> #[trigger] inline_styles_below(nodes[k], n)
}

/// The two ways of saying that every node of a list has its styles below `n`
/// agree.
pub proof fn lemma_inline_styles(nodes: Seq<Inline>, n: nat)
    ensures
        all_inline_styles_below(nodes, n) == inlines_styles_below(nodes, n),
    decreases nodes.len(),
{
    if nodes.len() > 0 {
        lemma_inline_styles(nodes.drop_last(), n);
        assert forall|k: int| 0 <= k < nodes.len() - 1 implies nodes.drop_last()[k] == nodes[k] by {}
        if inlines_styles_below(nodes, n) {
            assert forall|k: int| 0 <= k < nodes.drop_last().len() implies #[trigger] inline_styles_below(nodes.drop_last()[k], n) by {
                assert(inline_styles_below(nodes[k], n));
            }
            assert(inline_styles_below(nodes[nodes.len() - 1], n));
        }
        if all_inline_styles_below(nodes, n) {
            assert forall|k: int| 0 <= k < nodes.len() implies #[trigger] inline_styles_below(nodes[k], n) by {
                if k < nodes.len() - 1 {
                    assert(inline_styles_below(nodes.drop_last()[k], n));
                }
            }
        }
    }
}

/// Whether every style in a block and everything in it is an index below `n`.
pub open spec fn block_styles_below(block: Block, n: nat) -> bool
    decreases block,
{
    match block {
        Block::Para(p) => p.style.0 < n && inlines_styles_below(p.children@, n),
        Block::Table(t) => forall|r: int|
            0 <= r < t.rows.len() ==> forall|c: int|
                0 <= c < (#[trigger] t.rows[r]).cells.len() ==> inlines_styles_below(
                    (#[trigger] t.rows[r].cells[c]).children@,
                    n,
                ),
        Block::Milestone(m) => m.style.0 < n,
        Block::Sidebar(s) => s.style.0 < n && all_block_styles_below(s.blocks@, n),
        Block::Periph(p) => p.style.0 < n && all_block_styles_below(p.blocks@, n),
        _ => true,
    }
}

/// [`block_styles_below`] of every block of a list, from the back.
pub open spec fn all_block_styles_below(blocks: Seq<Block>, n: nat) -> bool
    decreases blocks,
{
    if blocks.len() == 0 {
        true
    } else {
        all_block_styles_below(blocks.drop_last(), n) && block_styles_below(blocks.last(), n)
    }
}

/// Whether every style in a list of blocks is an index below `n`.
pub open spec fn blocks_styles_below(blocks: Seq<Block>, n: nat) -> bool {
    forall|k: int| 0 <= k < blocks.len() ==> #[trigger] block_styles_below(blocks[k], n)
}

/// The two ways of saying that every block of a list has its styles below
/// `n` agree.
pub proof fn lemma_block_styles(blocks: Seq<Block>, n: nat)
    ensures
        all_block_styles_below(blocks, n) == blocks_styles_below(blocks, n),
    decreases blocks.len(),
{
    if blocks.len() > 0 {
        lemma_block_styles(blocks.drop_last(), n);
        if blocks_styles_below(blocks, n) {
            assert forall|k: int| 0 <= k < blocks.drop_last().len() implies #[trigger] block_styles_below(blocks.drop_last()[k], n) by {
                assert(block_styles_below(blocks[k], n));
            }
            assert(block_styles_below(blocks[blocks.len() - 1], n));
        }
        if all_block_styles_below(blocks, n) {
            assert forall|k: int| 0 <= k < blocks.len() implies #[trigger] block_styles_below(blocks[k], n) by {
                if k < blocks.len() - 1 {
                    assert(block_styles_below(blocks.drop_last()[k], n));
                }
            }
        }
    }
}

/// A span in bounds of a text of `total` bytes, and not inverted.
pub open spec fn span_ok(span: Span, total: nat) -> bool {
    span.start <= span.end && span.end <= total
}

/// Every span an attribute list carries is in bounds.
pub open spec fn attributes_ok(attributes: Option<Attributes>, total: nat) -> bool {
    match attributes {
        Some(a) => span_ok(a.pipe, total) && forall|k: int|
            0 <= k < a.pairs.len() ==> span_ok(#[trigger] a.pairs[k].span, total),
        None => true,
    }
}

/// Every span in an inline node and its children is in bounds, and a verse
/// end, which is never read from the source, carries none.
pub open spec fn inline_spans_ok(node: Inline, total: nat) -> bool
    decreases node,
{
    match node {
        Inline::Text(t) => span_ok(t.span, total),
        Inline::VerseStart(v) => span_ok(v.span, total),
        Inline::VerseEnd(v) => v.span == Span::synthesized_spec(),
        Inline::Char(c) => span_ok(c.span, total) && attributes_ok(c.attributes, total)
            && all_inline_spans_ok(c.children@, total),
        Inline::Note(x) => span_ok(x.span, total) && match x.category {
            Some(cat) => span_ok(cat.span, total),
            None => true,
        } && all_inline_spans_ok(x.children@, total),
        Inline::Milestone(m) => span_ok(m.span, total) && attributes_ok(m.attributes, total),
        Inline::OptBreak(o) => span_ok(o.span, total),
    }
}

/// [`inline_spans_ok`] of every node of a list, from the back.
pub open spec fn all_inline_spans_ok(nodes: Seq<Inline>, total: nat) -> bool
    decreases nodes,
{
    if nodes.len() == 0 {
        true
    } else {
        all_inline_spans_ok(nodes.drop_last(), total) && inline_spans_ok(nodes.last(), total)
    }
}

/// Every span in a list of inline nodes is in bounds.
pub open spec fn inlines_spans_ok(nodes: Seq<Inline>, total: nat) -> bool {
    forall|k: int| 0 <= k < nodes.len() ==> #[trigger] inline_spans_ok(nodes[k], total)
}

/// The two ways of saying that every node of a list has its spans in bounds
/// agree.
pub proof fn lemma_inline_spans(nodes: Seq<Inline>, total: nat)
    ensures
        all_inline_spans_ok(nodes, total) == inlines_spans_ok(nodes, total),
    decreases nodes.len(),
{
    if nodes.len() > 0 {
        lemma_inline_spans(nodes.drop_last(), total);
        if inlines_spans_ok(nodes, total) {
            assert forall|k: int| 0 <= k < nodes.drop_last().len() implies #[trigger] inline_spans_ok(nodes.drop_last()[k], total) by {
                assert(inline_spans_ok(nodes[k], total));
            }
            assert(inline_spans_ok(nodes[nodes.len() - 1], total));
        }
        if all_inline_spans_ok(nodes, total) {
            assert forall|k: int| 0 <= k < nodes.len() implies #[trigger] inline_spans_ok(nodes[k], total) by {
                if k < nodes.len() - 1 {
                    assert(inline_spans_ok(nodes.drop_last()[k], total));
                }
            }
        }
    }
}

/// Every span in a block and everything in it is in bounds.
pub open spec fn block_spans_ok(block: Block, total: nat) -> bool
    decreases block,
{
    match block {
        Block::Book(b) => span_ok(b.span, total),
        Block::ChapterStart(c) => span_ok(c.span, total),
        Block::ChapterEnd(c) => span_ok(c.span, total),
        Block::Para(p) => span_ok(p.span, total) && inlines_spans_ok(p.children@, total),
        Block::Table(t) => span_ok(t.span, total) && forall|r: int|
            0 <= r < t.rows.len() ==> span_ok((#[trigger] t.rows[r]).span, total) && forall|c: int|
                0 <= c < t.rows[r].cells.len() ==> span_ok((#[trigger] t.rows[r].cells[c]).span, total)
                    && inlines_spans_ok(t.rows[r].cells[c].children@, total),
        Block::Milestone(m) => span_ok(m.span, total) && attributes_ok(m.attributes, total),
        Block::Sidebar(s) => span_ok(s.span, total) && match s.category {
            Some(cat) => span_ok(cat.span, total),
            None => true,
        } && all_block_spans_ok(s.blocks@, total),
        Block::Periph(p) => span_ok(p.span, total) && match p.title {
            Some(t) => span_ok(t.span, total),
            None => true,
        } && attributes_ok(p.attributes, total) && all_block_spans_ok(p.blocks@, total),
    }
}

/// [`block_spans_ok`] of every block of a list, from the back.
pub open spec fn all_block_spans_ok(blocks: Seq<Block>, total: nat) -> bool
    decreases blocks,
{
    if blocks.len() == 0 {
        true
    } else {
        all_block_spans_ok(blocks.drop_last(), total) && block_spans_ok(blocks.last(), total)
    }
}

/// Every span in a list of blocks is in bounds.
pub open spec fn blocks_spans_ok(blocks: Seq<Block>, total: nat) -> bool {
    forall|k: int| 0 <= k < blocks.len() ==> #[trigger] block_spans_ok(blocks[k], total)
}

/// The two ways of saying that every block of a list has its spans in
/// bounds agree.
pub proof fn lemma_block_spans(blocks: Seq<Block>, total: nat)
    ensures
        all_block_spans_ok(blocks, total) == blocks_spans_ok(blocks, total),
    decreases blocks.len(),
{
    if blocks.len() > 0 {
        lemma_block_spans(blocks.drop_last(), total);
        if blocks_spans_ok(blocks, total) {
            assert forall|k: int| 0 <= k < blocks.drop_last().len() implies #[trigger] block_spans_ok(blocks.drop_last()[k], total) by {
                assert(block_spans_ok(blocks[k], total));
            }
            assert(block_spans_ok(blocks[blocks.len() - 1], total));
        }
        if all_block_spans_ok(blocks, total) {
            assert forall|k: int| 0 <= k < blocks.len() implies #[trigger] block_spans_ok(blocks[k], total) by {
                if k < blocks.len() - 1 {
                    assert(block_spans_ok(blocks.drop_last()[k], total));
                }
            }
        }
    }
}

/// A list of inline nodes whose styles resolve and whose spans are in bounds.
pub open spec fn inlines_ok(nodes: Seq<Inline>, styles: nat, total: nat) -> bool {
    inlines_styles_below(nodes, styles) && inlines_spans_ok(nodes, total)
}

/// A list of blocks whose styles resolve and whose spans are in bounds.
pub open spec fn blocks_ok(blocks: Seq<Block>, styles: nat, total: nat) -> bool {
    blocks_styles_below(blocks, styles) && blocks_spans_ok(blocks, total)
}

/// A span that is never inverted and ends at `end`: `start..end`, or the
/// empty span at `end` should `start` lie past it.
pub fn ordered_span(start: u32, end: u32) -> (span: Span)
    ensures
        span.end == end,
        span.start <= span.end,
        start <= end ==> span.start == start,
        start > end ==> span.start == end,
{
    if start <= end {
        Span::new(start, end)
    } else {
        Span::new(end, end)
    }
}

/// A parsed document: its blocks, the stylesheet its styles index into, and
/// the source range it covers.
#[derive(Debug)]
pub struct Document {
    pub blocks: Vec<Block>,
    pub style_sheet: Arc<StyleSheet>,
    pub span: Span,
}

impl Document {
    /// Every style the tree holds resolves in the document's sheet.
    pub open spec fn wf(&self) -> bool {
        blocks_styles_below(self.blocks@, self.style_sheet.len())
    }

    /// A document over `style_sheet`, covering no source.
    pub fn new(blocks: Vec<Block>, style_sheet: Arc<StyleSheet>) -> (document: Document)
        ensures
            document.blocks@ == blocks@,
            document.style_sheet == style_sheet,
            document.span == Span::synthesized_spec(),
    {
        Document { blocks, style_sheet, span: Span::synthesized() }
    }

    /// A document with an empty stylesheet, for trees that hold no styles.
    pub fn without_styles(blocks: Vec<Block>) -> (document: Document)
        ensures
            document.blocks@ == blocks@,
            document.style_sheet.rules@.len() == 0,
    {
        Document::new(blocks, Arc::new(StyleSheet::new(Vec::new())))
    }

    /// The sheet every `StyleId` in the tree resolves against.
    pub fn style_sheet(&self) -> (sheet: &Arc<StyleSheet>)
        ensures
            *sheet == self.style_sheet,
    {
        &self.style_sheet
    }

    /// The stylesheet entry of a style.
    pub fn style(&self, style: StyleId) -> (rule: &StyleRule)
        requires
            style.0 < self.style_sheet.len(),
        ensures
            *rule == self.style_sheet.rules@[style.0 as int],
    {
        self.style_sheet.get_rule(style.index())
    }

    /// The marker a style resolves to, e.g. `"p"`.
    pub fn marker(&self, style: StyleId) -> (marker: &str)
        requires
            style.0 < self.style_sheet.len(),
        ensures
            marker@ == self.style_sheet.rules@[style.0 as int].marker@,
    {
        self.style(style).marker.as_str()
    }

    /// Whether a block is a `\usfm` paragraph.
    pub open spec fn is_usfm_para(&self, block: Block) -> bool {
        match block {
            Block::Para(p) => self.style_sheet.rules@[p.style.0 as int].marker@ == "usfm"@,
            _ => false,
        }
    }

    /// The version the `\usfm` marker declares, if the document has one: the
    /// text of the first top-level `\usfm` paragraph.
    pub fn usfm_version(&self) -> (version: Option<String>)
        requires
            self.wf(),
        ensures
            match version {
                Some(v) => exists|k: int|
                    0 <= k < self.blocks@.len() && #[trigger] self.is_usfm_para(self.blocks@[k])
                        && (forall|j: int| 0 <= j < k ==> !self.is_usfm_para(self.blocks@[j]))
                        && v@ == texts_of(para_children(self.blocks@[k])),
                None => forall|k: int|
                    0 <= k < self.blocks@.len() ==> !#[trigger] self.is_usfm_para(self.blocks@[k]),
            },
    {
        let mut k: usize = 0;
        while k < self.blocks.len()
            invariant
                k <= self.blocks@.len(),
                self.wf(),
                forall|j: int| 0 <= j < k ==> !#[trigger] self.is_usfm_para(self.blocks@[j]),
            decreases self.blocks@.len() - k,
        {
            if let Block::Para(p) = &self.blocks[k] {
                proof {
                    assert(block_styles_below(self.blocks@[k as int], self.style_sheet.len()));
                }
                if str_eq(self.marker(p.style), "usfm") {
                    let version = text_children(&p.children);
                    assert(self.is_usfm_para(self.blocks@[k as int]));
                    return Some(version);
                }
            }
            k = k + 1;
        }
        None
    }
}

/// A paragraph's children; nothing for any other block.
pub open spec fn para_children(block: Block) -> Seq<Inline> {
    match block {
        Block::Para(p) => p.children@,
        _ => seq![],
    }
}

/// The contents of the text nodes of a list, concatenated.
pub open spec fn texts_of(nodes: Seq<Inline>) -> Seq<char>
    decreases nodes.len(),
{
    if nodes.len() == 0 {
        seq![]
    } else {
        texts_of(nodes.drop_last()) + match nodes.last() {
            Inline::Text(t) => t.content@,
            _ => seq![],
        }
    }
}

/// The contents of the text nodes of a list, concatenated.
pub fn text_children(nodes: &Vec<Inline>) -> (text: String)
    ensures
        text@ == texts_of(nodes@),
{
    let mut text = String::new();
    let mut i: usize = 0;
    while i < nodes.len()
        invariant
            i <= nodes@.len(),
            text@ == texts_of(nodes@.subrange(0, i as int)),
        decreases nodes@.len() - i,
    {
        proof {
            assert(nodes@.subrange(0, i + 1).drop_last() =~= nodes@.subrange(0, i as int));
        }
        if let Inline::Text(t) = &nodes[i] {
            crate::strings::push_str(&mut text, t.content.as_str());
        }
        i = i + 1;
    }
    assert(nodes@.subrange(0, nodes@.len() as int) =~= nodes@);
    text
}

} // verus!
