//! The span invariants, checked on a parse: in bounds, not inverted, on a
//! character boundary, and — for every node but `Text` — starting at the
//! marker the node was read from, or at its content when the parser opened
//! the node itself to recover.
use vstd::prelude::*;
use std::sync::Arc;
use crate::ast::{
    span_ok, all_block_spans_ok, all_inline_spans_ok, block_spans_ok, inline_spans_ok, inlines_spans_ok, lemma_inline_spans,
    all_block_styles_below, all_inline_styles_below, block_styles_below, blocks_styles_below,
    inline_styles_below, inlines_styles_below, lemma_block_styles, lemma_inline_styles, Block,
    Document, Inline,
};
use crate::diagnostics::{Code, ParseResult};
use crate::parser::{parsed, Parser};
use crate::sheet::default_stylesheet;
use crate::source::{byte_len, SourceText};
use crate::span::Span;
use crate::strings::{push_str, str_chars, str_eq};
use crate::style::StyleSheet;

verus! {

/// What the start of a node's span has to look like in the source.
pub enum Prefix {
    /// Nothing beyond the span itself: a synthesized node, or a `Text`.
    Anything,
    /// The span starts with this marker.
    Marker(String),
    /// The span starts with this marker, unless the parser opened the node
    /// to recover and reported `code`; it then starts at or before its
    /// content, which begins at `content_start` when there is any.
    MarkerOrImplicit { marker: String, code: Code, content_start: Option<u32> },
}

/// One node, as the checker sees it.
pub struct NodeSpan {
    pub label: String,
    pub span: Span,
    pub prefix: Prefix,
}

fn backslash(marker: &str) -> (s: String)
    ensures
        s@ == seq!['\\'] + marker@,
{
    let mut s = String::new();
    proof {
        reveal_strlit("\\");
    }
    push_str(&mut s, "\\");
    push_str(&mut s, marker);
    s
}

fn labelled(kind: &str, marker: &str) -> (s: String)
    ensures
        s@ == kind@ + seq![' '] + marker@,
{
    proof {
        reveal_strlit(" ");
    }
    let mut s = String::new();
    push_str(&mut s, kind);
    push_str(&mut s, " ");
    push_str(&mut s, marker);
    s
}

/// What the start of a node's span has to look like, as plain values.
pub enum PrefixView {
    Anything,
    Marker(Seq<char>),
    MarkerOrImplicit(Seq<char>, Code, Option<u32>),
}

/// One node as the checker sees it, as plain values.
pub struct NodeView {
    pub label: Seq<char>,
    pub span: Span,
    pub prefix: PrefixView,
}

impl Prefix {
    pub open spec fn view(&self) -> PrefixView {
        match self {
            Prefix::Anything => PrefixView::Anything,
            Prefix::Marker(m) => PrefixView::Marker(m@),
            Prefix::MarkerOrImplicit { marker, code, content_start } => PrefixView::MarkerOrImplicit(
                marker@,
                *code,
                *content_start,
            ),
        }
    }
}

impl NodeSpan {
    pub open spec fn view(&self) -> NodeView {
        NodeView { label: self.label@, span: self.span, prefix: self.prefix@ }
    }
}

/// The views of a list of nodes.
pub open spec fn views(nodes: Seq<NodeSpan>) -> Seq<NodeView> {
    nodes.map_values(|n: NodeSpan| n@)
}

/// The marker a style resolves to in `sheet`.
pub open spec fn marker_of(sheet: StyleSheet, style: crate::ast::StyleId) -> Seq<char> {
    sheet.rules@[style.0 as int].marker@
}

pub open spec fn nv(label: Seq<char>, span: Span, prefix: PrefixView) -> NodeView {
    NodeView { label, span, prefix }
}

/// The nodes of one block and everything in it, in document order.
pub open spec fn block_nodes(sheet: StyleSheet, block: Block) -> Seq<NodeView>
    decreases block,
{
    match block {
        Block::Book(b) => seq![nv("Book"@, b.span, PrefixView::Marker("\\id"@))],
        Block::ChapterStart(c) => seq![nv("ChapterStart"@, c.span, PrefixView::Marker("\\c"@))],
        Block::ChapterEnd(c) => seq![nv("ChapterEnd"@, c.span, PrefixView::Anything)],
        Block::Milestone(m) => seq![nv("Milestone"@ + seq![' '] + marker_of(sheet, m.style), m.span,
            PrefixView::Marker(seq!['\\'] + marker_of(sheet, m.style)))],
        Block::Para(p) => seq![nv("Para"@ + seq![' '] + marker_of(sheet, p.style), p.span,
            PrefixView::MarkerOrImplicit(seq!['\\'] + marker_of(sheet, p.style), Code::ContentOutsideParagraph,
            content_start_from(p.children@, 0)))] + inlines_nodes(sheet, p.children@),
        Block::Table(t) => seq![nv("Table"@, t.span, PrefixView::Marker("\\tr"@))] + rows_nodes(sheet, t.rows@),
        Block::Periph(p) => seq![nv("Periph"@ + seq![' '] + marker_of(sheet, p.style), p.span,
            PrefixView::Marker(seq!['\\'] + marker_of(sheet, p.style)))]
            + (match p.title {
                Some(title) => seq![nv("Periph title"@, title.span, PrefixView::Anything)],
                None => seq![],
            }) + blocks_nodes(sheet, p.blocks@),
        Block::Sidebar(sb) => seq![nv("Sidebar"@ + seq![' '] + marker_of(sheet, sb.style), sb.span,
            PrefixView::Marker(seq!['\\'] + marker_of(sheet, sb.style)))]
            + (match sb.category {
                Some(category) => seq![nv("Sidebar category"@, category.span, PrefixView::Marker("\\cat"@))],
                None => seq![],
            }) + blocks_nodes(sheet, sb.blocks@),
    }
}

/// The nodes of a list of blocks.
pub open spec fn blocks_nodes(sheet: StyleSheet, blocks: Seq<Block>) -> Seq<NodeView>
    decreases blocks,
{
    if blocks.len() == 0 {
        seq![]
    } else {
        blocks_nodes(sheet, blocks.drop_last()) + block_nodes(sheet, blocks.last())
    }
}

/// The nodes of table rows: each row, then its cells.
pub open spec fn rows_nodes(sheet: StyleSheet, rows: Seq<crate::ast::TableRow>) -> Seq<NodeView>
    decreases rows,
{
    if rows.len() == 0 {
        seq![]
    } else {
        rows_nodes(sheet, rows.drop_last()) + seq![nv("TableRow"@, rows.last().span, PrefixView::Marker("\\tr"@))]
            + cells_nodes(sheet, rows.last().cells@)
    }
}

/// The nodes of table cells: each cell, then its children.
pub open spec fn cells_nodes(sheet: StyleSheet, cells: Seq<crate::ast::TableCell>) -> Seq<NodeView>
    decreases cells,
{
    if cells.len() == 0 {
        seq![]
    } else {
        cells_nodes(sheet, cells.drop_last()) + seq![nv("TableCell"@, cells.last().span,
            PrefixView::MarkerOrImplicit("\\t"@, Code::ExpectedTableCell, content_start_from(cells.last().children@, 0)))]
            + inlines_nodes(sheet, cells.last().children@)
    }
}

/// The nodes of one inline node and everything in it.
pub open spec fn inline_nodes(sheet: StyleSheet, node: Inline) -> Seq<NodeView>
    decreases node,
{
    match node {
        Inline::Text(t) => seq![nv("Text "@ + t.content@, t.span, PrefixView::Anything)],
        Inline::VerseStart(v) => seq![nv("VerseStart"@, v.span, PrefixView::Marker("\\v"@))],
        Inline::VerseEnd(v) => seq![nv("VerseEnd"@, v.span, PrefixView::Anything)],
        Inline::Char(c) => seq![nv("Char"@ + seq![' '] + marker_of(sheet, c.style), c.span,
            PrefixView::Marker(seq!['\\'] + marker_of(sheet, c.style)))] + inlines_nodes(sheet, c.children@),
        Inline::Note(x) => seq![nv("Note"@ + seq![' '] + marker_of(sheet, x.style), x.span,
            PrefixView::Marker(seq!['\\'] + marker_of(sheet, x.style)))]
            + (match x.category {
                Some(category) => seq![nv("Note category"@, category.span, PrefixView::Marker("\\cat"@))],
                None => seq![],
            }) + inlines_nodes(sheet, x.children@),
        Inline::Milestone(m) => seq![nv("Milestone"@ + seq![' '] + marker_of(sheet, m.style), m.span,
            PrefixView::Marker(seq!['\\'] + marker_of(sheet, m.style)))],
        Inline::OptBreak(o) => seq![nv("OptBreak"@, o.span, PrefixView::Marker("//"@))],
    }
}

/// The nodes of a list of inline nodes.
pub open spec fn inlines_nodes(sheet: StyleSheet, nodes: Seq<Inline>) -> Seq<NodeView>
    decreases nodes,
{
    if nodes.len() == 0 {
        seq![]
    } else {
        inlines_nodes(sheet, nodes.drop_last()) + inline_nodes(sheet, nodes.last())
    }
}

fn node(label: String, span: Span, prefix: Prefix) -> (n: NodeSpan)
    ensures
        n.label == label,
        n.span == span,
        n.prefix == prefix,
{
    NodeSpan { label, span, prefix }
}

/// The span of an inline node.
pub open spec fn inline_span(node: Inline) -> Span {
    match node {
        Inline::Text(t) => t.span,
        Inline::VerseStart(v) => v.span,
        Inline::VerseEnd(v) => v.span,
        Inline::Char(c) => c.span,
        Inline::Note(n) => n.span,
        Inline::Milestone(m) => m.span,
        Inline::OptBreak(o) => o.span,
    }
}

/// Whether a span was read from the source rather than synthesized.
pub open spec fn is_read(span: Span) -> bool {
    !(span.start == 0 && span.end == 0)
}

/// Where the first of `children` from `i` on that was read from the source
/// begins.
pub open spec fn content_start_from(children: Seq<Inline>, i: int) -> Option<u32>
    decreases children.len() - i,
{
    if i < 0 || i >= children.len() {
        None
    } else if is_read(inline_span(children[i])) {
        Some(inline_span(children[i]).start)
    } else {
        content_start_from(children, i + 1)
    }
}

/// Where the first child that was read from the source begins.
fn content_start(children: &Vec<Inline>) -> (r: Option<u32>)
    ensures
        r == content_start_from(children@, 0),
{
    let mut i: usize = 0;
    while i < children.len()
        invariant
            i <= children@.len(),
            content_start_from(children@, i as int) == content_start_from(children@, 0),
        decreases children@.len() - i,
    {
        let span = match &children[i] {
            Inline::Text(t) => t.span,
            Inline::VerseStart(v) => v.span,
            Inline::VerseEnd(v) => v.span,
            Inline::Char(c) => c.span,
            Inline::Note(n) => n.span,
            Inline::Milestone(m) => m.span,
            Inline::OptBreak(o) => o.span,
        };
        if !span.is_synthesized() {
            return Some(span.start);
        }
        i = i + 1;
    }
    None
}

/// Push one node onto the list.
fn push_node(out: &mut Vec<NodeSpan>, n: NodeSpan)
    ensures
        views(final(out)@) == views(old(out)@).push(n@),
{
    out.push(n);
    assert(views(out@) =~= views(old(out)@).push(n@));
}

/// Every node of `document`, in document order.
pub fn nodes(document: &Document) -> (out: Vec<NodeSpan>)
    requires
        document.wf(),
    ensures
        views(out@) == blocks_nodes(*document.style_sheet, document.blocks@),
{
    let mut out = Vec::new();
    blocks(document, &document.blocks, &mut out);
    assert(views(Seq::<NodeSpan>::empty()) =~= Seq::<NodeView>::empty());
    assert(views(out@) =~= blocks_nodes(*document.style_sheet, document.blocks@));
    out
}

fn blocks(document: &Document, list: &Vec<Block>, out: &mut Vec<NodeSpan>)
    requires
        blocks_styles_below(list@, document.style_sheet.len()),
    ensures
        views(final(out)@) == views(old(out)@) + blocks_nodes(*document.style_sheet, list@),
    decreases list@,
{
    let ghost sheet = crate::eq::sheet_of(*document);
    let ghost base = views(out@);
    let n = Ghost(document.style_sheet.len());
    let mut i: usize = 0;
    assert(list@.take(0) =~= Seq::<Block>::empty());
    assert(base + blocks_nodes(sheet, list@.take(0)) =~= base);
    while i < list.len()
        invariant
            blocks_styles_below(list@, document.style_sheet.len()),
            sheet == crate::eq::sheet_of(*document),
            i <= list@.len(),
            views(out@) == base + blocks_nodes(sheet, list@.take(i as int)),
        decreases list@.len() - i,
    {
        let block = &list[i];
        let ghost before = views(out@);
        assert(block_styles_below(list@[i as int], document.style_sheet.len()));
        match block {
            Block::Book(b) => push_node(out, node("Book".to_owned(), b.span, Prefix::Marker("\\id".to_owned()))),
            Block::ChapterStart(c) => push_node(out, node("ChapterStart".to_owned(), c.span, Prefix::Marker("\\c".to_owned()))),
            Block::ChapterEnd(c) => push_node(out, node("ChapterEnd".to_owned(), c.span, Prefix::Anything)),
            Block::Milestone(m) => {
                let name = document.marker(m.style);
                push_node(out, node(labelled("Milestone", name), m.span, Prefix::Marker(backslash(name))));
            },
            Block::Para(p) => {
                let name = document.marker(p.style);
                let prefix = Prefix::MarkerOrImplicit {
                    marker: backslash(name),
                    code: Code::ContentOutsideParagraph,
                    content_start: content_start(&p.children),
                };
                push_node(out, node(labelled("Para", name), p.span, prefix));
                proof {
                    lemma_inline_styles(p.children@, document.style_sheet.len());
                }
                inlines(document, &p.children, out);
            },
            Block::Table(t) => {
                push_node(out, node("Table".to_owned(), t.span, Prefix::Marker("\\tr".to_owned())));
                let ghost head = views(out@);
                let mut r: usize = 0;
                assert(t.rows@.take(0) =~= Seq::<crate::ast::TableRow>::empty());
                assert(head + rows_nodes(sheet, t.rows@.take(0)) =~= head);
                while r < t.rows.len()
                    invariant
                        block_styles_below(Block::Table(*t), document.style_sheet.len()),
                        sheet == crate::eq::sheet_of(*document),
                        r <= t.rows@.len(),
                        views(out@) == head + rows_nodes(sheet, t.rows@.take(r as int)),
                    decreases t.rows@.len() - r,
                {
                    let row = &t.rows[r];
                    push_node(out, node("TableRow".to_owned(), row.span, Prefix::Marker("\\tr".to_owned())));
                    let ghost rowhead = views(out@);
                    let mut c: usize = 0;
                    assert(row.cells@.take(0) =~= Seq::<crate::ast::TableCell>::empty());
                    assert(rowhead + cells_nodes(sheet, row.cells@.take(0)) =~= rowhead);
                    while c < row.cells.len()
                        invariant
                            block_styles_below(Block::Table(*t), document.style_sheet.len()),
                            sheet == crate::eq::sheet_of(*document),
                            r < t.rows@.len(),
                            *row == t.rows@[r as int],
                            c <= row.cells@.len(),
                            views(out@) == rowhead + cells_nodes(sheet, row.cells@.take(c as int)),
                        decreases row.cells@.len() - c,
                    {
                        let cell = &row.cells[c];
                        let ghost cellbefore = views(out@);
                        let prefix = Prefix::MarkerOrImplicit {
                            marker: "\\t".to_owned(),
                            code: Code::ExpectedTableCell,
                            content_start: content_start(&cell.children),
                        };
                        push_node(out, node("TableCell".to_owned(), cell.span, prefix));
                        assert(inlines_styles_below(t.rows@[r as int].cells@[c as int].children@, document.style_sheet.len()));
                        proof {
                            lemma_inline_styles(cell.children@, document.style_sheet.len());
                        }
                        inlines(document, &cell.children, out);
                        proof {
                            assert(row.cells@.take(c + 1).drop_last() =~= row.cells@.take(c as int));
                            assert(views(out@) =~= rowhead + cells_nodes(sheet, row.cells@.take(c + 1)));
                        }
                        c = c + 1;
                    }
                    proof {
                        assert(row.cells@.take(row.cells@.len() as int) =~= row.cells@);
                        assert(t.rows@.take(r + 1).drop_last() =~= t.rows@.take(r as int));
                        assert(views(out@) =~= head + rows_nodes(sheet, t.rows@.take(r + 1)));
                    }
                    r = r + 1;
                }
                assert(t.rows@.take(t.rows@.len() as int) =~= t.rows@);
            },
            Block::Periph(p) => {
                let name = document.marker(p.style);
                push_node(out, node(labelled("Periph", name), p.span, Prefix::Marker(backslash(name))));
                match &p.title {
                    Some(title) => push_node(out, node("Periph title".to_owned(), title.span, Prefix::Anything)),
                    None => {},
                }
                proof {
                    lemma_block_styles(p.blocks@, document.style_sheet.len());
                    assert(decreases_to!(list@ => list@[i as int]));
                }
                blocks(document, &p.blocks, out);
            },
            Block::Sidebar(sb) => {
                let name = document.marker(sb.style);
                push_node(out, node(labelled("Sidebar", name), sb.span, Prefix::Marker(backslash(name))));
                match &sb.category {
                    Some(category) => push_node(out, node("Sidebar category".to_owned(), category.span, Prefix::Marker("\\cat".to_owned()))),
                    None => {},
                }
                proof {
                    lemma_block_styles(sb.blocks@, document.style_sheet.len());
                }
                blocks(document, &sb.blocks, out);
            },
        }
        proof {
            assert(list@.take(i + 1).drop_last() =~= list@.take(i as int));
            assert(views(out@) =~= before + block_nodes(sheet, list@[i as int]));
            assert(views(out@) =~= base + blocks_nodes(sheet, list@.take(i + 1)));
        }
        i = i + 1;
    }
    assert(list@.take(list@.len() as int) =~= list@);
}

fn inlines(document: &Document, list: &Vec<Inline>, out: &mut Vec<NodeSpan>)
    requires
        inlines_styles_below(list@, document.style_sheet.len()),
    ensures
        views(final(out)@) == views(old(out)@) + inlines_nodes(*document.style_sheet, list@),
    decreases list@,
{
    let ghost sheet = crate::eq::sheet_of(*document);
    let ghost base = views(out@);
    let mut i: usize = 0;
    assert(list@.take(0) =~= Seq::<Inline>::empty());
    assert(base + inlines_nodes(sheet, list@.take(0)) =~= base);
    while i < list.len()
        invariant
            inlines_styles_below(list@, document.style_sheet.len()),
            sheet == crate::eq::sheet_of(*document),
            i <= list@.len(),
            views(out@) == base + inlines_nodes(sheet, list@.take(i as int)),
        decreases list@.len() - i,
    {
        let ghost before = views(out@);
        assert(inline_styles_below(list@[i as int], document.style_sheet.len()));
        match &list[i] {
            Inline::Text(t) => {
                let mut label = String::new();
                proof {
                    reveal_strlit("Text ");
                }
                push_str(&mut label, "Text ");
                push_str(&mut label, t.content.as_str());
                push_node(out, node(label, t.span, Prefix::Anything));
            },
            Inline::VerseStart(v) => push_node(out, node("VerseStart".to_owned(), v.span, Prefix::Marker("\\v".to_owned()))),
            Inline::VerseEnd(v) => push_node(out, node("VerseEnd".to_owned(), v.span, Prefix::Anything)),
            Inline::Char(c) => {
                let name = document.marker(c.style);
                push_node(out, node(labelled("Char", name), c.span, Prefix::Marker(backslash(name))));
                proof {
                    lemma_inline_styles(c.children@, document.style_sheet.len());
                }
                inlines(document, &c.children, out);
            },
            Inline::Note(x) => {
                let name = document.marker(x.style);
                push_node(out, node(labelled("Note", name), x.span, Prefix::Marker(backslash(name))));
                match &x.category {
                    Some(category) => push_node(out, node("Note category".to_owned(), category.span, Prefix::Marker("\\cat".to_owned()))),
                    None => {},
                }
                proof {
                    lemma_inline_styles(x.children@, document.style_sheet.len());
                }
                inlines(document, &x.children, out);
            },
            Inline::Milestone(m) => {
                let name = document.marker(m.style);
                push_node(out, node(labelled("Milestone", name), m.span, Prefix::Marker(backslash(name))));
            },
            Inline::OptBreak(o) => push_node(out, node("OptBreak".to_owned(), o.span, Prefix::Marker("//".to_owned()))),
        }
        proof {
            assert(list@.take(i + 1).drop_last() =~= list@.take(i as int));
            assert(views(out@) =~= before + inline_nodes(sheet, list@[i as int]));
            assert(views(out@) =~= base + inlines_nodes(sheet, list@.take(i + 1)));
        }
        i = i + 1;
    }
    assert(list@.take(list@.len() as int) =~= list@);
}

/// The character index that starts at byte offset `offset`, if one does.
fn char_index(text: &SourceText, offset: u32) -> (r: Option<usize>)
    ensures
        match r {
            Some(i) => i < text.offsets@.len() && text.offsets@[i as int] == offset
                && forall|j: int| 0 <= j < i ==> text.offsets@[j] != offset,
            None => forall|j: int| 0 <= j < text.offsets@.len() ==> text.offsets@[j] != offset,
        },
{
    let mut i: usize = 0;
    while i < text.offsets.len()
        invariant
            i <= text.offsets@.len(),
            forall|j: int| 0 <= j < i ==> text.offsets@[j] != offset,
        decreases text.offsets@.len() - i,
    {
        if text.offsets[i] == offset {
            return Some(i);
        }
        i = i + 1;
    }
    None
}

/// Whether the characters from index `at` on start with `prefix`.
fn starts_with_at(text: &SourceText, at: usize, prefix: &str) -> (b: bool)
    ensures
        b == starts_at(text.chars@, at as int, prefix@),
{
    let p = str_chars(prefix);
    let mut k: usize = 0;
    while k < p.len()
        invariant
            p@ == prefix@,
            k <= p@.len(),
            k > 0 ==> at < text.chars@.len() && k <= text.chars@.len() - at,
            forall|m: int| 0 <= m < k ==> text.chars@[at + m] == p@[m],
        decreases p@.len() - k,
    {
        if at >= text.chars.len() || k >= text.chars.len() - at || text.chars[at + k] != p[k] {
            return false;
        }
        k = k + 1;
    }
    proof {
        if p@.len() > 0 {
            assert(text.chars@.subrange(at as int, at + p@.len()) =~= p@);
        }
    }
    true
}

/// Whether the characters of `chars` from index `at` on start with `prefix`.
pub open spec fn starts_at(chars: Seq<char>, at: int, prefix: Seq<char>) -> bool {
    prefix.len() == 0 || (0 <= at && at + prefix.len() <= chars.len() && chars.subrange(at, at + prefix.len()) == prefix)
}

/// A marker with a `+` after its backslash, the spelling of a nested style.
pub open spec fn nested_spec(marker: Seq<char>) -> Seq<char> {
    if marker.len() > 0 && marker[0] == '\\' {
        seq!['\\', '+'] + marker.drop_first()
    } else {
        marker
    }
}

/// `marker` with a `+` after its backslash, the spelling of a nested style.
fn nested_spelling(marker: &str) -> (s: String)
    ensures
        s@ == nested_spec(marker@),
{
    let chars = str_chars(marker);
    let mut s = String::new();
    let mut k: usize = 0;
    while k < chars.len()
        invariant
            chars@ == marker@,
            k <= chars@.len(),
            k == 0 ==> s@ == Seq::<char>::empty(),
            k > 0 ==> s@ == nested_spec(chars@.take(k as int)),
        decreases chars@.len() - k,
    {
        crate::strings::push_char(&mut s, chars[k]);
        if k == 0 && chars[0] == '\\' {
            crate::strings::push_char(&mut s, '+');
        }
        k = k + 1;
        assert(s@ =~= nested_spec(chars@.take(k as int)));
    }
    proof {
        if chars@.len() == 0 {
            assert(nested_spec(marker@) =~= Seq::<char>::empty());
        } else {
            assert(chars@.take(chars@.len() as int) =~= chars@);
        }
    }
    s
}

fn failure(label: &str, message: &str) -> (s: String)
    ensures
        s@ == label@ + seq![':', ' '] + message@,
{
    proof {
        reveal_strlit(": ");
    }
    let mut s = String::new();
    push_str(&mut s, label);
    push_str(&mut s, ": ");
    push_str(&mut s, message);
    s
}

/// The first character index from `i` on whose prefix of `chars` is
/// `off` bytes long: the character that starts at byte `off`, or the end.
pub open spec fn index_at_offset(chars: Seq<char>, off: nat, i: int) -> Option<int>
    decreases chars.len() + 1 - i,
{
    if i < 0 || i > chars.len() {
        None
    } else if byte_len(chars.take(i)) == off {
        Some(i)
    } else {
        index_at_offset(chars, off, i + 1)
    }
}

proof fn lemma_index_at_offset(chars: Seq<char>, off: nat, i: int, f: Option<int>)
    requires
        0 <= i <= chars.len() + 1,
        match f {
            Some(m) => i <= m <= chars.len() && byte_len(chars.take(m)) == off
                && forall|j: int| i <= j < m ==> byte_len(chars.take(j)) != off,
            None => forall|j: int| i <= j <= chars.len() ==> byte_len(chars.take(j)) != off,
        },
    ensures
        index_at_offset(chars, off, i) == f,
    decreases chars.len() + 1 - i,
{
    if i <= chars.len() {
        match f {
            Some(m) => {
                if m != i {
                    lemma_index_at_offset(chars, off, i + 1, f);
                }
            },
            None => lemma_index_at_offset(chars, off, i + 1, f),
        }
    }
}

/// What is wrong with one node's span in a parse of `chars` that reported
/// `diags`, if anything.
pub open spec fn node_failure(chars: Seq<char>, diags: Seq<crate::diagnostics::Diagnostic>, n: NodeView) -> Option<Seq<char>> {
    let span = n.span;
    if span.start > span.end {
        Some("span is inverted"@)
    } else if span.end > byte_len(chars) {
        Some("span runs past the end of the source"@)
    } else if !is_read(span) {
        None
    } else {
        match (index_at_offset(chars, span.start as nat, 0), index_at_offset(chars, span.end as nat, 0)) {
            (Some(at), Some(_)) => match n.prefix {
                PrefixView::Anything => None,
                PrefixView::Marker(m) => if !starts_at(chars, at, m) && !starts_at(chars, at, nested_spec(m)) {
                    Some("span does not start with its marker"@)
                } else {
                    None
                },
                PrefixView::MarkerOrImplicit(m, code, cs) => if !starts_at(chars, at, m) && !starts_at(chars, at, nested_spec(m)) {
                    if !(exists|k: int| 0 <= k < diags.len() && (#[trigger] diags[k]).code == code) {
                        Some("span has no marker and no repair was reported"@)
                    } else if cs matches Some(c) && span.start > c {
                        Some("span starts after its content"@)
                    } else {
                        None
                    }
                } else {
                    None
                },
            },
            _ => Some("span splits a character"@),
        }
    }
}

/// The first failure among `nodes` from `i` on, as `label: message`.
pub open spec fn nodes_failure(chars: Seq<char>, diags: Seq<crate::diagnostics::Diagnostic>, nodes: Seq<NodeView>, i: int) -> Option<Seq<char>>
    decreases nodes.len() - i,
{
    if i < 0 || i >= nodes.len() {
        None
    } else {
        match node_failure(chars, diags, nodes[i]) {
            Some(m) => Some(nodes[i].label + seq![':', ' '] + m),
            None => nodes_failure(chars, diags, nodes, i + 1),
        }
    }
}

/// Whether a node is a verse end, which is never read from the source,
/// carrying a span that was.
pub open spec fn wrongly_read(n: NodeView) -> bool {
    n.label == "VerseEnd"@ && is_read(n.span)
}

/// Whether some node from `i` on is [`wrongly_read`].
pub open spec fn any_wrongly_read(nodes: Seq<NodeView>) -> bool {
    exists|k: int| 0 <= k < nodes.len() && wrongly_read(#[trigger] nodes[k])
}

/// The first violation of the span invariants in `result`, a parse of
/// `source`; none for a source too long for byte offsets to fit a `u32`.
pub open spec fn check_result(source: Seq<char>, result: ParseResult) -> Option<Seq<char>> {
    if any_wrongly_read(blocks_nodes(crate::eq::sheet_of(result.document), result.document.blocks@)) {
        Some("VerseEnd: verse ends are synthesized"@)
    } else if byte_len(source) > u32::MAX {
        None
    } else {
        nodes_failure(
            source,
            result.diagnostics@,
            blocks_nodes(crate::eq::sheet_of(result.document), result.document.blocks@),
            0,
        )
    }
}

/// An optional string as plain values.
pub open spec fn opt_view(r: Option<String>) -> Option<Seq<char>> {
    match r {
        Some(m) => Some(m@),
        None => None,
    }
}

/// The character index that starts at byte offset `offset`, if one does,
/// as [`index_at_offset`] says.
fn boundary(text: &SourceText, offset: u32) -> (r: Option<usize>)
    requires
        text.wf(),
    ensures
        match r {
            Some(i) => index_at_offset(text.chars@, offset as nat, 0) == Some(i as int),
            None => index_at_offset(text.chars@, offset as nat, 0) is None,
        },
{
    let r = char_index(text, offset);
    proof {
        match r {
            Some(i) => {
                assert forall|j: int| 0 <= j < i implies byte_len(text.chars@.take(j)) != offset by {
                    assert(text.offsets@[j] == byte_len(text.chars@.take(j)));
                }
                assert(text.offsets@[i as int] == byte_len(text.chars@.take(i as int)));
                lemma_index_at_offset(text.chars@, offset as nat, 0, Some(i as int));
            },
            None => {
                assert forall|j: int| 0 <= j <= text.chars@.len() implies byte_len(text.chars@.take(j)) != offset by {
                    assert(text.offsets@[j] == byte_len(text.chars@.take(j)));
                }
                lemma_index_at_offset(text.chars@, offset as nat, 0, None);
            },
        }
    }
    r
}

/// The first violation of the span invariants in `result`, the parse of
/// `source`, or `None` when there is none.
pub fn check_parse(source: &str, result: &ParseResult) -> (r: Option<String>)
    requires
        result.document.wf(),
    ensures
        opt_view(r) == check_result(source@, *result),
{
    let all = nodes(&result.document);
    let ghost vs = views(all@);
    let mut w: usize = 0;
    while w < all.len()
        invariant
            vs == views(all@),
            vs == blocks_nodes(crate::eq::sheet_of(result.document), result.document.blocks@),
            w <= all@.len(),
            forall|k: int| 0 <= k < w ==> !wrongly_read(#[trigger] vs[k]),
        decreases all@.len() - w,
    {
        assert(vs[w as int] == all@[w as int]@);
        if str_eq(all[w].label.as_str(), "VerseEnd") && !all[w].span.is_synthesized() {
            proof {
                reveal_strlit("VerseEnd: verse ends are synthesized");
                assert(wrongly_read(vs[w as int]));
            }
            return Some("VerseEnd: verse ends are synthesized".to_owned());
        }
        w = w + 1;
    }
    assert(!any_wrongly_read(vs));
    let text = match SourceText::new(source) {
        Some(text) => text,
        None => return None,
    };
    let ghost chars = text.chars@;
    let ghost diags = result.diagnostics@;
    let total = text.offsets[text.chars.len()];
    assert(text.chars@.take(text.chars@.len() as int) =~= text.chars@);
    assert(total == byte_len(chars));
    assert(byte_len(source@) <= u32::MAX);
    assert(vs == blocks_nodes(crate::eq::sheet_of(result.document), result.document.blocks@));
    let mut i: usize = 0;
    while i < all.len()
        invariant
            text.wf(),
            chars == text.chars@,
            chars == source@,
            diags == result.diagnostics@,
            total == byte_len(chars),
            vs == views(all@),
            vs == blocks_nodes(crate::eq::sheet_of(result.document), result.document.blocks@),
            byte_len(source@) <= u32::MAX,
            !any_wrongly_read(vs),
            i <= all@.len(),
            nodes_failure(chars, diags, vs, i as int) == nodes_failure(chars, diags, vs, 0),
        decreases all@.len() - i,
    {
        let n = &all[i];
        let span = n.span;
        assert(vs[i as int] == n@);
        if span.start > span.end {
            return Some(failure(n.label.as_str(), "span is inverted"));
        }
        if span.end > total {
            return Some(failure(n.label.as_str(), "span runs past the end of the source"));
        }
        if !span.is_synthesized() {
            let start = boundary(&text, span.start);
            if start.is_none() || boundary(&text, span.end).is_none() {
                return Some(failure(n.label.as_str(), "span splits a character"));
            }
            let at = start.unwrap();
            match &n.prefix {
                Prefix::Anything => {},
                Prefix::Marker(marker) => {
                    let nested = nested_spelling(marker.as_str());
                    if !starts_with_at(&text, at, marker.as_str()) && !starts_with_at(&text, at, nested.as_str()) {
                        return Some(failure(n.label.as_str(), "span does not start with its marker"));
                    }
                },
                Prefix::MarkerOrImplicit { marker, code, content_start } => {
                    let nested = nested_spelling(marker.as_str());
                    if !starts_with_at(&text, at, marker.as_str()) && !starts_with_at(&text, at, nested.as_str()) {
                        let mut reported = false;
                        let mut k: usize = 0;
                        while k < result.diagnostics.len()
                            invariant
                                k <= result.diagnostics@.len(),
                                diags == result.diagnostics@,
                                reported == exists|j: int| 0 <= j < k && (#[trigger] diags[j]).code == *code,
                            decreases result.diagnostics@.len() - k,
                        {
                            if result.diagnostics[k].code == *code {
                                reported = true;
                            }
                            k = k + 1;
                        }
                        if !reported {
                            return Some(failure(n.label.as_str(), "span has no marker and no repair was reported"));
                        }
                        match content_start {
                            Some(c) => {
                                if span.start > *c {
                                    return Some(failure(n.label.as_str(), "span starts after its content"));
                                }
                            },
                            None => {},
                        }
                    }
                },
            }
        }
        i = i + 1;
    }
    None
}

/// Parse `source` with `style_sheet` and check the span invariants.
pub fn check_with(source: &str, style_sheet: &Arc<StyleSheet>) -> (r: Option<String>)
    ensures
        exists|result: ParseResult| parsed(source@, **style_sheet, result) && opt_view(r) == check_result(source@, result),
{
    let result = Parser::new(source).parse(style_sheet);
    let r = check_parse(source, &result);
    assert(parsed(source@, **style_sheet, result) && opt_view(r) == check_result(source@, result));
    r
}

/// Parse `source` with the default stylesheet and check the span invariants.
pub fn check(source: &str) -> (r: Option<String>)
    ensures
        exists|sheet: StyleSheet, result: ParseResult| sheet.rules@.len() > 0 && sheet.rules@[0].marker@ == "p"@
            && parsed(source@, sheet, result) && opt_view(r) == check_result(source@, result),
{
    let sheet = default_stylesheet();
    let r = check_with(source, &sheet);
    assert(sheet.rules@.len() > 0 && sheet.rules@[0].marker@ == "p"@);
    r
}

/// Whether every node of a list has its span in bounds.
pub open spec fn nodes_in_bounds(nodes: Seq<NodeView>, total: nat) -> bool {
    forall|k: int| 0 <= k < nodes.len() ==> span_ok((#[trigger] nodes[k]).span, total)
}

/// Two lists with no wrongly read node and no span out of bounds make a list
/// with none.
proof fn lemma_none_read_concat(a: Seq<NodeView>, b: Seq<NodeView>, total: nat)
    requires
        !any_wrongly_read(a),
        !any_wrongly_read(b),
        nodes_in_bounds(a, total),
        nodes_in_bounds(b, total),
    ensures
        !any_wrongly_read(a + b),
        nodes_in_bounds(a + b, total),
{
    assert forall|k: int| 0 <= k < (a + b).len() implies !wrongly_read(#[trigger] (a + b)[k]) && span_ok((a + b)[k].span, total) by {
        if k < a.len() {
            assert((a + b)[k] == a[k]);
        } else {
            assert((a + b)[k] == b[k - a.len()]);
        }
    }
}

/// A node whose label does not start as a verse end's does is not wrongly
/// read.
proof fn lemma_other_label(n: NodeView, total: nat)
    requires
        n.label.len() > 0,
        n.label[0] != 'V',
        span_ok(n.span, total),
    ensures
        !any_wrongly_read(seq![n]),
        nodes_in_bounds(seq![n], total),
{
    reveal_strlit("VerseEnd");
    assert(seq![n][0] == n);
}

proof fn lemma_inline_not_read(sheet: StyleSheet, node: Inline, total: nat)
    requires
        inline_spans_ok(node, total),
    ensures
        !any_wrongly_read(inline_nodes(sheet, node)),
        nodes_in_bounds(inline_nodes(sheet, node), total),
    decreases node,
{
    reveal_strlit("VerseEnd");
    match node {
        Inline::Text(t) => {
            reveal_strlit("Text ");
            lemma_other_label(nv("Text "@ + t.content@, t.span, PrefixView::Anything), total);
        },
        Inline::VerseStart(v) => {
            reveal_strlit("VerseStart");
            let n = nv("VerseStart"@, v.span, PrefixView::Marker("\\v"@));
            assert(n.label[5] != "VerseEnd"@[5]);
            assert(seq![n][0] == n);
        },
        Inline::VerseEnd(v) => {
            let n = nv("VerseEnd"@, v.span, PrefixView::Anything);
            assert(seq![n][0] == n);
        },
        Inline::Char(c) => {
            reveal_strlit("Char");
            lemma_other_label(nv("Char"@ + seq![' '] + marker_of(sheet, c.style), c.span,
                PrefixView::Marker(seq!['\\'] + marker_of(sheet, c.style))), total);
            lemma_inlines_not_read(sheet, c.children@, total);
            lemma_none_read_concat(seq![nv("Char"@ + seq![' '] + marker_of(sheet, c.style), c.span,
                PrefixView::Marker(seq!['\\'] + marker_of(sheet, c.style)))], inlines_nodes(sheet, c.children@), total);
        },
        Inline::Note(x) => {
            reveal_strlit("Note");
            reveal_strlit("Note category");
            let head = seq![nv("Note"@ + seq![' '] + marker_of(sheet, x.style), x.span,
                PrefixView::Marker(seq!['\\'] + marker_of(sheet, x.style)))];
            let cat: Seq<NodeView> = match x.category {
                Some(category) => seq![nv("Note category"@, category.span, PrefixView::Marker("\\cat"@))],
                None => seq![],
            };
            lemma_other_label(head[0], total);
            assert(head =~= seq![head[0]]);
            if cat.len() > 0 {
                lemma_other_label(cat[0], total);
                assert(cat =~= seq![cat[0]]);
            }
            lemma_inlines_not_read(sheet, x.children@, total);
            lemma_none_read_concat(head, cat, total);
            lemma_none_read_concat(head + cat, inlines_nodes(sheet, x.children@), total);
        },
        Inline::Milestone(m) => {
            reveal_strlit("Milestone");
            lemma_other_label(nv("Milestone"@ + seq![' '] + marker_of(sheet, m.style), m.span,
                PrefixView::Marker(seq!['\\'] + marker_of(sheet, m.style))), total);
        },
        Inline::OptBreak(o) => {
            reveal_strlit("OptBreak");
            lemma_other_label(nv("OptBreak"@, o.span, PrefixView::Marker("//"@)), total);
        },
    }
}

proof fn lemma_inlines_not_read(sheet: StyleSheet, nodes: Seq<Inline>, total: nat)
    requires
        all_inline_spans_ok(nodes, total),
    ensures
        !any_wrongly_read(inlines_nodes(sheet, nodes)),
        nodes_in_bounds(inlines_nodes(sheet, nodes), total),
    decreases nodes,
{
    if nodes.len() > 0 {
        lemma_inlines_not_read(sheet, nodes.drop_last(), total);
        lemma_inline_not_read(sheet, nodes.last(), total);
        lemma_none_read_concat(inlines_nodes(sheet, nodes.drop_last()), inline_nodes(sheet, nodes.last()), total);
    }
}

proof fn lemma_cells_not_read(sheet: StyleSheet, cells: Seq<crate::ast::TableCell>, total: nat)
    requires
        forall|c: int| 0 <= c < cells.len() ==> inlines_spans_ok((#[trigger] cells[c]).children@, total)
            && span_ok(cells[c].span, total),
    ensures
        !any_wrongly_read(cells_nodes(sheet, cells)),
        nodes_in_bounds(cells_nodes(sheet, cells), total),
    decreases cells.len(),
{
    if cells.len() > 0 {
        reveal_strlit("TableCell");
        let last = cells.last();
        assert(inlines_spans_ok(cells[cells.len() - 1].children@, total) && span_ok(cells[cells.len() - 1].span, total));
        lemma_inline_spans(last.children@, total);
        lemma_cells_not_read(sheet, cells.drop_last(), total);
        let cell = seq![nv("TableCell"@, last.span,
            PrefixView::MarkerOrImplicit("\\t"@, Code::ExpectedTableCell, content_start_from(last.children@, 0)))];
        lemma_other_label(cell[0], total);
        assert(cell =~= seq![cell[0]]);
        lemma_inlines_not_read(sheet, last.children@, total);
        lemma_none_read_concat(cells_nodes(sheet, cells.drop_last()), cell, total);
        lemma_none_read_concat(cells_nodes(sheet, cells.drop_last()) + cell, inlines_nodes(sheet, last.children@), total);
    }
}

proof fn lemma_rows_not_read(sheet: StyleSheet, rows: Seq<crate::ast::TableRow>, total: nat)
    requires
        forall|r: int| 0 <= r < rows.len() ==> span_ok((#[trigger] rows[r]).span, total) && forall|c: int|
            0 <= c < rows[r].cells.len() ==> inlines_spans_ok((#[trigger] rows[r].cells[c]).children@, total)
                && span_ok(rows[r].cells[c].span, total),
    ensures
        !any_wrongly_read(rows_nodes(sheet, rows)),
        nodes_in_bounds(rows_nodes(sheet, rows), total),
    decreases rows.len(),
{
    if rows.len() > 0 {
        reveal_strlit("TableRow");
        let last = rows.last();
        assert(span_ok(rows[rows.len() - 1].span, total));
        assert forall|c: int| 0 <= c < last.cells@.len() implies inlines_spans_ok((#[trigger] last.cells@[c]).children@, total)
            && span_ok(last.cells@[c].span, total) by {
            assert(inlines_spans_ok(rows[rows.len() - 1].cells[c].children@, total));
        }
        lemma_rows_not_read(sheet, rows.drop_last(), total);
        lemma_cells_not_read(sheet, last.cells@, total);
        let row = seq![nv("TableRow"@, last.span, PrefixView::Marker("\\tr"@))];
        lemma_other_label(row[0], total);
        assert(row =~= seq![row[0]]);
        lemma_none_read_concat(rows_nodes(sheet, rows.drop_last()), row, total);
        lemma_none_read_concat(rows_nodes(sheet, rows.drop_last()) + row, cells_nodes(sheet, last.cells@), total);
    }
}

proof fn lemma_block_not_read(sheet: StyleSheet, block: Block, total: nat)
    requires
        block_spans_ok(block, total),
    ensures
        !any_wrongly_read(block_nodes(sheet, block)),
        nodes_in_bounds(block_nodes(sheet, block), total),
    decreases block,
{
    match block {
        Block::Book(b) => {
            reveal_strlit("Book");
            lemma_other_label(nv("Book"@, b.span, PrefixView::Marker("\\id"@)), total);
        },
        Block::ChapterStart(c) => {
            reveal_strlit("ChapterStart");
            lemma_other_label(nv("ChapterStart"@, c.span, PrefixView::Marker("\\c"@)), total);
        },
        Block::ChapterEnd(c) => {
            reveal_strlit("ChapterEnd");
            lemma_other_label(nv("ChapterEnd"@, c.span, PrefixView::Anything), total);
        },
        Block::Milestone(m) => {
            reveal_strlit("Milestone");
            lemma_other_label(nv("Milestone"@ + seq![' '] + marker_of(sheet, m.style), m.span,
                PrefixView::Marker(seq!['\\'] + marker_of(sheet, m.style))), total);
        },
        Block::Para(p) => {
            reveal_strlit("Para");
            let head = seq![nv("Para"@ + seq![' '] + marker_of(sheet, p.style), p.span,
                PrefixView::MarkerOrImplicit(seq!['\\'] + marker_of(sheet, p.style), Code::ContentOutsideParagraph,
                content_start_from(p.children@, 0)))];
            lemma_other_label(head[0], total);
            assert(head =~= seq![head[0]]);
            lemma_inline_spans(p.children@, total);
            lemma_inlines_not_read(sheet, p.children@, total);
            lemma_none_read_concat(head, inlines_nodes(sheet, p.children@), total);
        },
        Block::Table(t) => {
            reveal_strlit("Table");
            let head = seq![nv("Table"@, t.span, PrefixView::Marker("\\tr"@))];
            lemma_other_label(head[0], total);
            assert(head =~= seq![head[0]]);
            assert forall|r: int| 0 <= r < t.rows@.len() implies span_ok((#[trigger] t.rows@[r]).span, total) && forall|c: int|
                0 <= c < t.rows@[r].cells.len() ==> inlines_spans_ok((#[trigger] t.rows@[r].cells[c]).children@, total)
                    && span_ok(t.rows@[r].cells[c].span, total) by {
                assert(span_ok(t.rows[r].span, total));
                assert forall|c: int| 0 <= c < t.rows@[r].cells.len() implies inlines_spans_ok((#[trigger] t.rows@[r].cells[c]).children@, total)
                    && span_ok(t.rows@[r].cells[c].span, total) by {
                    assert(inlines_spans_ok(t.rows[r].cells[c].children@, total));
                }
            }
            lemma_rows_not_read(sheet, t.rows@, total);
            lemma_none_read_concat(head, rows_nodes(sheet, t.rows@), total);
        },
        Block::Periph(p) => {
            reveal_strlit("Periph");
            reveal_strlit("Periph title");
            let head = seq![nv("Periph"@ + seq![' '] + marker_of(sheet, p.style), p.span,
                PrefixView::Marker(seq!['\\'] + marker_of(sheet, p.style)))];
            let title: Seq<NodeView> = match p.title {
                Some(title) => seq![nv("Periph title"@, title.span, PrefixView::Anything)],
                None => seq![],
            };
            lemma_other_label(head[0], total);
            assert(head =~= seq![head[0]]);
            if title.len() > 0 {
                lemma_other_label(title[0], total);
                assert(title =~= seq![title[0]]);
            }
            lemma_blocks_not_read(sheet, p.blocks@, total);
            lemma_none_read_concat(head, title, total);
            lemma_none_read_concat(head + title, blocks_nodes(sheet, p.blocks@), total);
        },
        Block::Sidebar(sb) => {
            reveal_strlit("Sidebar");
            reveal_strlit("Sidebar category");
            let head = seq![nv("Sidebar"@ + seq![' '] + marker_of(sheet, sb.style), sb.span,
                PrefixView::Marker(seq!['\\'] + marker_of(sheet, sb.style)))];
            let cat: Seq<NodeView> = match sb.category {
                Some(category) => seq![nv("Sidebar category"@, category.span, PrefixView::Marker("\\cat"@))],
                None => seq![],
            };
            lemma_other_label(head[0], total);
            assert(head =~= seq![head[0]]);
            if cat.len() > 0 {
                lemma_other_label(cat[0], total);
                assert(cat =~= seq![cat[0]]);
            }
            lemma_blocks_not_read(sheet, sb.blocks@, total);
            lemma_none_read_concat(head, cat, total);
            lemma_none_read_concat(head + cat, blocks_nodes(sheet, sb.blocks@), total);
        },
    }
}

proof fn lemma_blocks_not_read(sheet: StyleSheet, blocks: Seq<Block>, total: nat)
    requires
        all_block_spans_ok(blocks, total),
    ensures
        !any_wrongly_read(blocks_nodes(sheet, blocks)),
        nodes_in_bounds(blocks_nodes(sheet, blocks), total),
    decreases blocks,
{
    if blocks.len() > 0 {
        lemma_blocks_not_read(sheet, blocks.drop_last(), total);
        lemma_block_not_read(sheet, blocks.last(), total);
        lemma_none_read_concat(blocks_nodes(sheet, blocks.drop_last()), block_nodes(sheet, blocks.last()), total);
    }
}

/// A parse gives no verse end a span read from the source and no node a span
/// that is inverted or runs past the end of the source: of the failures
/// [`check_parse`] looks for, only a span that splits a character or does not
/// start at its marker is left to find.
pub proof fn law_verse_ends_unread_and_spans_in_bounds(source: Seq<char>, sheet: StyleSheet, document: Document)
    requires
        crate::parser::parsed_document(source, sheet, document),
    ensures
        !any_wrongly_read(blocks_nodes(crate::eq::sheet_of(document), document.blocks@)),
        nodes_in_bounds(blocks_nodes(crate::eq::sheet_of(document), document.blocks@), byte_len(source)),
{
    crate::ast::lemma_block_spans(document.blocks@, byte_len(source));
    lemma_blocks_not_read(crate::eq::sheet_of(document), document.blocks@, byte_len(source));
}

} // verus!
