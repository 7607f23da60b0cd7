//! Verse and chapter end milestones.
//!
//! The parser reads where verses and chapters start; this pass adds where
//! they end, over the finished blocks:
//!
//! * a verse ends where the next one starts, inline, when that is in the
//!   middle of a paragraph that is verse text (or the verse's own paragraph)
//!   or of a table cell — the whitespace before the next verse moves after
//!   the end;
//! * otherwise, and at a chapter or at the end of the text, it ends at the
//!   end of the last verse-text paragraph or cell it ran through;
//! * a verse that starts a character style ends before the style;
//! * a chapter ends right before the next `\c`, or at the end of the text;
//! * sidebars and peripheral divisions are passed over: they neither end nor
//!   hold a tracked verse.
use vstd::prelude::*;
use std::sync::Arc;
use crate::ast::{
    block_spans_ok, block_styles_below, blocks_ok, inline_spans_ok, inline_styles_below,
    inlines_spans_ok, inlines_styles_below, lemma_inline_spans, lemma_inline_styles, span_ok,
    Block, ChapterEnd, Char, Inline, Para, Table, TableCell, TableRow, Text, VerseEnd,
};
use crate::container::{children_ok, ends_with_space, trim_trailing_whitespace};
use crate::number::NumberList;
use crate::span::Span;
use crate::style::{StyleSheet, TextType};

verus! {

/// Where an open verse ends if nothing closer ends it: at the end of a
/// paragraph, or of a table cell, of the blocks already passed.
#[derive(Clone, Copy)]
enum Place {
    Para(usize),
    Cell(usize, usize, usize),
}

/// The block a place is in.
spec fn place_block(p: Place) -> int {
    match p {
        Place::Para(k) => k as int,
        Place::Cell(k, _, _) => k as int,
    }
}

struct Ends {
    out: Vec<Block>,
    verse: Option<NumberList>,
    /// The block the open verse started in.
    verse_block: usize,
    place: Option<Place>,
    chapter: Option<usize>,
}

/// Push onto a list of inline nodes that stays well formed.
fn push_inline(list: &mut Vec<Inline>, node: Inline, Ghost(n): Ghost<nat>, Ghost(t): Ghost<nat>)
    requires
        children_ok(old(list)@, n, t),
        inline_styles_below(node, n),
        inline_spans_ok(node, t),
    ensures
        children_ok(final(list)@, n, t),
        final(list)@ == old(list)@.push(node),
{
    let ghost before = list@;
    list.push(node);
    proof {
        assert forall|k: int| 0 <= k < list@.len() implies #[trigger] inline_styles_below(list@[k], n) by {
            if k < before.len() {
                assert(list@[k] == before[k]);
            }
        }
        assert forall|k: int| 0 <= k < list@.len() implies #[trigger] inline_spans_ok(list@[k], t) by {
            if k < before.len() {
                assert(list@[k] == before[k]);
            }
        }
    }
}

/// Push onto a list of blocks that stays well formed.
fn push_block(list: &mut Vec<Block>, block: Block, Ghost(n): Ghost<nat>, Ghost(t): Ghost<nat>)
    requires
        blocks_ok(old(list)@, n, t),
        block_styles_below(block, n),
        block_spans_ok(block, t),
    ensures
        blocks_ok(final(list)@, n, t),
        final(list)@ == old(list)@.push(block),
{
    let ghost before = list@;
    list.push(block);
    proof {
        assert forall|k: int| 0 <= k < list@.len() implies #[trigger] block_styles_below(list@[k], n) by {
            if k < before.len() {
                assert(list@[k] == before[k]);
            }
        }
        assert forall|k: int| 0 <= k < list@.len() implies #[trigger] block_spans_ok(list@[k], t) by {
            if k < before.len() {
                assert(list@[k] == before[k]);
            }
        }
    }
}

/// A verse end, which has no source of its own.
fn verse_end(number: &NumberList) -> (node: Inline)
    ensures
        node is VerseEnd,
        inline_styles_below(node, 0),
        forall|t: nat| inline_spans_ok(node, t),
        node matches Inline::VerseEnd(v) && v.number.ranges@ == number.ranges@
            && v.number.guard_rtl == number.guard_rtl && v.span == Span::synthesized_spec(),
{
    Inline::VerseEnd(VerseEnd { number: number.duplicate(), span: Span::synthesized() })
}

/// Whether a character style's first descendant is a verse start.
pub open spec fn char_starts_with_verse(c: Char) -> bool
    decreases c,
{
    if c.children@.len() == 0 {
        false
    } else {
        match c.children@[0] {
            Inline::VerseStart(_) => true,
            Inline::Char(inner) => char_starts_with_verse(inner),
            _ => false,
        }
    }
}

/// Whether a character style's first descendant is a verse start.
fn starts_with_verse(c: &Char) -> (b: bool)
    ensures
        b == char_starts_with_verse(*c),
    decreases c,
{
    if c.children.len() == 0 {
        return false;
    }
    match &c.children[0] {
        Inline::VerseStart(_) => true,
        Inline::Char(inner) => starts_with_verse(inner),
        _ => false,
    }
}

impl Ends {
    spec fn ok(&self, n: nat, t: nat) -> bool {
        blocks_ok(self.out@, n, t)
    }

    /// End the open verse at the end of the place it ran through last.
    fn end_at_place(&mut self, Ghost(n): Ghost<nat>, Ghost(t): Ghost<nat>)
        requires
            old(self).ok(n, t),
        ensures
            final(self).ok(n, t),
            final(self).out@.len() == old(self).out@.len(),
            final(self).verse is None,
            shapes_kept(old(self).out@, final(self).out@),
            final(self).chapter == old(self).chapter,
            old(self).verse is None ==> final(self).out@ == old(self).out@,
            forall|j: int| 0 <= j < old(self).out@.len() && !(old(self).place matches Some(p) && place_block(p) == j)
                ==> final(self).out@[j] == old(self).out@[j],
            old(self).verse matches Some(number) ==> (old(self).place matches Some(Place::Para(k))
                ==> (k < old(self).out@.len() && old(self).out@[k as int] is Para ==> {
                    let before = old(self).out@[k as int]->Para_0.children@;
                    let after = final(self).out@[k as int]->Para_0.children@;
                    &&& after.drop_last() == before
                    &&& after.last() matches Inline::VerseEnd(v) && v.number.ranges@ == number.ranges@
                        && v.number.guard_rtl == number.guard_rtl
                })),
            old(self).verse matches Some(number) ==> (old(self).place matches Some(Place::Cell(k, r, c))
                ==> (k < old(self).out@.len() && old(self).out@[k as int] is Table ==> exists|e: Inline|
                    end_added_in_cell(old(self).out@[k as int]->Table_0, final(self).out@[k as int]->Table_0, r as int, c as int, e)
                    && (e matches Inline::VerseEnd(v) && v.number.ranges@ == number.ranges@
                        && v.number.guard_rtl == number.guard_rtl))),
    {
        let number = match self.verse.take() {
            Some(v) => v,
            None => return,
        };
        let end = verse_end(&number);
        match self.place {
            Some(Place::Para(k)) => {
                if k < self.out.len() {
                    let ghost before = self.out@;
                    let block = self.out.remove(k);
                    proof {
                        assert(block == before[k as int]);
                        assert(block_styles_below(before[k as int], n));
                        assert(block_spans_ok(before[k as int], t));
                    }
                    let block = match block {
                        Block::Para(p) => {
                            let mut children = p.children;
                            push_inline(&mut children, end, Ghost(n), Ghost(t));
                            Block::Para(Para { style: p.style, children, span: p.span })
                        },
                        other => other,
                    };
                    self.out.insert(k, block);
                    proof {
                        assert forall|j: int| 0 <= j < self.out@.len() implies #[trigger] block_styles_below(self.out@[j], n) by {
                            if j != k {
                                assert(self.out@[j] == before[j]);
                            }
                        }
                        assert forall|j: int| 0 <= j < self.out@.len() implies #[trigger] block_spans_ok(self.out@[j], t) by {
                            if j != k {
                                assert(self.out@[j] == before[j]);
                            }
                        }
                    }
                }
            },
            Some(Place::Cell(k, r, c)) => {
                if k < self.out.len() {
                    let ghost before = self.out@;
                    let block = self.out.remove(k);
                    proof {
                        assert(block == before[k as int]);
                        assert(block_styles_below(before[k as int], n));
                        assert(block_spans_ok(before[k as int], t));
                    }
                    let block = match block {
                        Block::Table(table) => Block::Table(end_in_cell(table, r, c, end, Ghost(n), Ghost(t))),
                        other => other,
                    };
                    self.out.insert(k, block);
                    proof {
                        assert forall|j: int| 0 <= j < self.out@.len() implies #[trigger] block_styles_below(self.out@[j], n) by {
                            if j != k {
                                assert(self.out@[j] == before[j]);
                            }
                        }
                        assert forall|j: int| 0 <= j < self.out@.len() implies #[trigger] block_spans_ok(self.out@[j], t) by {
                            if j != k {
                                assert(self.out@[j] == before[j]);
                            }
                        }
                    }
                }
            },
            None => {},
        }
    }

    /// End the open verse at the end of `list`, where the next verse starts:
    /// the whitespace that ended the list moves after the end.
    fn end_inline(&mut self, list: &mut Vec<Inline>, Ghost(n): Ghost<nat>, Ghost(t): Ghost<nat>)
        requires
            children_ok(old(list)@, n, t),
        ensures
            children_ok(final(list)@, n, t),
            final(self).out@ == old(self).out@,
            final(self).verse is None,
            final(self).chapter == old(self).chapter,
            old(self).verse is None ==> final(list)@ == old(list)@,
            old(self).verse matches Some(number) ==> {
                let spaced = old(list)@.len() > 0 && old(list)@.last() is Text
                    && old(list)@.last()->Text_0.content@.len() > 0 && crate::lexer::is_space(old(list)@.last()->Text_0.content@.last());
                &&& final(list)@.len() >= 1
                &&& final(list)@[final(list)@.len() - 1 - (if spaced { 1int } else { 0 })] matches Inline::VerseEnd(v)
                    && v.number.ranges@ == number.ranges@ && v.number.guard_rtl == number.guard_rtl
                &&& spaced ==> (final(list)@.last() matches Inline::Text(sp) && sp.content@ == seq![' '])
            },
    {
        let number = match self.verse.take() {
            Some(v) => v,
            None => return,
        };
        let len = list.len();
        let spaced = len > 0 && match &list[len - 1] {
            Inline::Text(text) => ends_with_space(text.content.as_str()),
            _ => false,
        };
        trim_trailing_whitespace(list, Ghost(n), Ghost(t));
        let end = verse_end(&number);
        push_inline(list, end, Ghost(n), Ghost(t));
        let ghost with_end = list@;
        assert(with_end.last() == end);
        if spaced {
            proof {
                reveal_strlit(" ");
            }
            let space = Inline::Text(Text { content: " ".to_owned(), span: Span::synthesized() });
            push_inline(list, space, Ghost(n), Ghost(t));
            assert(list@[list@.len() - 2] == end);
        }
    }

    /// The children of a paragraph, a cell or a character style, with the
    /// ends of the verses that start among them. `inline` says whether a
    /// verse may end in the middle of this container.
    #[verifier::loop_isolation(false)]
    fn children(&mut self, children: Vec<Inline>, inline: bool, block: usize, Ghost(n): Ghost<nat>, Ghost(t): Ghost<nat>) -> (out: Vec<Inline>)
        requires
            old(self).ok(n, t),
            children_ok(children@, n, t),
        ensures
            final(self).ok(n, t),
            final(self).out@.len() == old(self).out@.len(),
            children_ok(out@, n, t),
            shapes_kept(old(self).out@, final(self).out@),
            final(self).chapter == old(self).chapter,
        decreases children,
    {
        let ghost all = children@;
        let ghost whole = children;
        let total = children.len();
        let mut rest = children;
        let mut out: Vec<Inline> = Vec::new();
        let mut i: usize = 0;
        while rest.len() > 0
            invariant
                all.len() == total,
                whole@ == all,
                self.ok(n, t),
                self.out@.len() == old(self).out@.len(),
                shapes_kept(old(self).out@, self.out@),
                self.chapter == old(self).chapter,
                children_ok(out@, n, t),
                i <= all.len(),
                rest@ == all.subrange(i as int, all.len() as int),
                children_ok(all, n, t),
            decreases rest@.len(),
        {
            let child = rest.remove(0);
            proof {
                assert(child == all[i as int]);
                assert(inline_styles_below(all[i as int], n));
                assert(inline_spans_ok(all[i as int], t));
                assert(rest@ =~= all.subrange(i + 1, all.len() as int));
            }
            match child {
                Inline::VerseStart(v) => {
                    let ghost o = self.out@;
                    if self.verse.is_some() {
                        if out.len() > 0 && (inline || self.verse_block == block) {
                            self.end_inline(&mut out, Ghost(n), Ghost(t));
                        } else {
                            self.end_at_place(Ghost(n), Ghost(t));
                        }
                    }
                    proof {
                        if self.out@ != o {
                            lemma_shapes_trans(old(self).out@, o, self.out@);
                        }
                    }
                    self.verse = Some(v.number.clone());
                    self.verse_block = block;
                    if self.place.is_none() {
                        self.place = Some(Place::Para(block));
                    }
                    push_inline(&mut out, Inline::VerseStart(v), Ghost(n), Ghost(t));
                },
                Inline::Char(c) => {
                    let ghost o = self.out@;
                    if self.verse.is_some() && starts_with_verse(&c) {
                        if out.len() > 0 && (inline || self.verse_block == block) {
                            self.end_inline(&mut out, Ghost(n), Ghost(t));
                        } else {
                            self.end_at_place(Ghost(n), Ghost(t));
                        }
                    }
                    proof {
                        lemma_inline_styles(c.children@, n);
                        lemma_inline_spans(c.children@, t);
                        assert(decreases_to!(all => all[i as int]));
                        assert(all[i as int] == Inline::Char(c));
                        assert(decreases_to!(Inline::Char(c) => c));
                        assert(decreases_to!(c => c.children));
                        assert(decreases_to!(c.children => c.children@));
                        assert(decreases_to!(all => c.children@));
                        assert(decreases_to!(whole => whole@));
                        assert(whole@ == all);
                        assert(decreases_to!(whole => c.children));
                    }
                    proof {
                        if self.out@ != o {
                            lemma_shapes_trans(old(self).out@, o, self.out@);
                        }
                    }
                    let ghost o2 = self.out@;
                    let inner = self.children(c.children, inline, block, Ghost(n), Ghost(t));
                    proof {
                        lemma_shapes_trans(old(self).out@, o2, self.out@);
                    }
                    proof {
                        lemma_inline_styles(inner@, n);
                        lemma_inline_spans(inner@, t);
                    }
                    let node = Inline::Char(Char { style: c.style, children: inner, attributes: c.attributes, span: c.span });
                    push_inline(&mut out, node, Ghost(n), Ghost(t));
                },
                other => {
                    push_inline(&mut out, other, Ghost(n), Ghost(t));
                },
            }
            i = i + 1;
        }
        out
    }
}

/// The table with `end` added at the end of cell `c` of row `r`.
fn end_in_cell(table: Table, r: usize, c: usize, end: Inline, Ghost(n): Ghost<nat>, Ghost(t): Ghost<nat>) -> (out: Table)
    requires
        block_styles_below(Block::Table(table), n),
        block_spans_ok(Block::Table(table), t),
        inline_styles_below(end, n),
        inline_spans_ok(end, t),
    ensures
        block_styles_below(Block::Table(out), n),
        block_spans_ok(Block::Table(out), t),
        end_added_in_cell(table, out, r as int, c as int, end),
{
    let mut rows = table.rows;
    if r >= rows.len() {
        return Table { rows, span: table.span };
    }
    let ghost rows0 = rows@;
    let row = rows.remove(r);
    assert(row == rows0[r as int]);
    let mut cells = row.cells;
    if c < cells.len() {
        let ghost cells0 = cells@;
        let cell = cells.remove(c);
        assert(cell == cells0[c as int]);
        let mut children = cell.children;
        push_inline(&mut children, end, Ghost(n), Ghost(t));
        let cell = TableCell {
            header: cell.header,
            alignment: cell.alignment,
            column: cell.column,
            colspan: cell.colspan,
            children,
            span: cell.span,
        };
        cells.insert(c, cell);
        proof {
            assert forall|j: int| 0 <= j < cells@.len() && j != c implies cells@[j] == cells0[j] by {}
        }
    }
    let row = TableRow { cells, span: row.span };
    rows.insert(r, row);
    proof {
        assert forall|j: int| 0 <= j < rows@.len() && j != r implies rows@[j] == rows0[j] by {}
    }
    Table { rows, span: table.span }
}

/// Whether a paragraph style is verse text.
fn verse_text(style_sheet: &StyleSheet, style: u32) -> bool
    requires
        style < style_sheet.rules@.len(),
{
    style_sheet.get_rule(style as usize).text_type == TextType::VerseText
}

/// The blocks with a `VerseEnd` where each verse ends and a `ChapterEnd`
/// where each chapter does.
pub fn insert_end_milestones(blocks: Vec<Block>, style_sheet: &Arc<StyleSheet>, Ghost(t): Ghost<nat>) -> (out: Vec<Block>)
    requires
        blocks_ok(blocks@, style_sheet.rules@.len(), t),
    ensures
        blocks_ok(out@, style_sheet.rules@.len(), t),
        shapes_kept(chapters_ended(blocks@), out@),
{
    let ghost n = style_sheet.rules@.len();
    let mut ends = Ends { out: Vec::new(), verse: None, verse_block: 0, place: None, chapter: None };
    let ghost all = blocks@;
    let total = blocks.len();
    let mut rest = blocks;
    let mut i: usize = 0;
    while rest.len() > 0
        invariant
            all.len() == total,
            ends.ok(n, t),
            n == style_sheet.rules@.len(),
            i <= all.len(),
            rest@ == all.subrange(i as int, all.len() as int),
            blocks_ok(all, n, t),
            shapes_kept(with_chapter_ends(all.take(i as int)), ends.out@),
            ends.chapter == last_chapter(all.take(i as int)),
        decreases rest@.len(),
    {
        let ghost o = ends.out@;
        let block = rest.remove(0);
        proof {
            assert(block == all[i as int]);
            assert(block_styles_below(all[i as int], n));
            assert(block_spans_ok(all[i as int], t));
            assert(rest@ =~= all.subrange(i + 1, all.len() as int));
        }
        let index = ends.out.len();
        proof {
            assert(all.take(i + 1).drop_last() =~= all.take(i as int));
            assert(all.take(i + 1).last() == all[i as int]);
        }
        match block {
            Block::ChapterStart(c) => {
                ends.end_at_place(Ghost(n), Ghost(t));
                proof {
                    lemma_shapes_trans(with_chapter_ends(all.take(i as int)), o, ends.out@);
                }
                ends.place = None;
                match ends.chapter {
                    Some(number) => {
                        let end = Block::ChapterEnd(ChapterEnd { number, span: Span::synthesized() });
                        push_block(&mut ends.out, end, Ghost(n), Ghost(t));
                    },
                    None => {},
                }
                ends.chapter = Some(c.number);
                push_block(&mut ends.out, Block::ChapterStart(c), Ghost(n), Ghost(t));
            },
            Block::Para(p) => {
                let is_verse_text = verse_text(style_sheet, p.style.0);
                proof {
                    lemma_inline_styles(p.children@, n);
                }
                let children = ends.children(p.children, is_verse_text, index, Ghost(n), Ghost(t));
                proof {
                    lemma_shapes_trans(with_chapter_ends(all.take(i as int)), o, ends.out@);
                }
                let holds_verse = ends.verse.is_some() && (is_verse_text || ends.verse_block == index);
                push_block(&mut ends.out, Block::Para(Para { style: p.style, children, span: p.span }), Ghost(n), Ghost(t));
                if holds_verse {
                    ends.place = Some(Place::Para(index));
                }
            },
            Block::Table(table) => {
                let empty = Block::Table(Table { rows: Vec::new(), span: table.span });
                push_block(&mut ends.out, empty, Ghost(n), Ghost(t));
                let ghost o2 = ends.out@;
                ends.table_rows(table.rows, index, Ghost(n), Ghost(t));
                proof {
                    assert(shapes_kept(with_chapter_ends(all.take(i + 1)), o2));
                    lemma_shapes_trans(with_chapter_ends(all.take(i + 1)), o2, ends.out@);
                }
            },
            other => {
                push_block(&mut ends.out, other, Ghost(n), Ghost(t));
            },
        }
        proof {
            assert(shapes_kept(with_chapter_ends(all.take(i + 1)), ends.out@));
        }
        i = i + 1;
    }
    assert(all.take(all.len() as int) =~= all);
    let ghost o3 = ends.out@;
    ends.end_at_place(Ghost(n), Ghost(t));
    proof {
        lemma_shapes_trans(with_chapter_ends(all), o3, ends.out@);
    }
    match ends.chapter {
        Some(number) => {
            let end = Block::ChapterEnd(ChapterEnd { number, span: Span::synthesized() });
            push_block(&mut ends.out, end, Ghost(n), Ghost(t));
        },
        None => {},
    }
    ends.out
}

/// Whether block `y` is block `x` as this pass may leave it: a paragraph
/// with its style and span, a table with its span, anything else as it is.
pub open spec fn same_shape(y: Block, x: Block) -> bool {
    match x {
        Block::Para(p) => y is Para && y->Para_0.style == p.style && y->Para_0.span == p.span,
        Block::Table(a) => y is Table && y->Table_0.span == a.span,
        _ => y == x,
    }
}

/// Whether `new` holds the blocks of `old`, each as [`same_shape`] allows.
pub open spec fn shapes_kept(old: Seq<Block>, new: Seq<Block>) -> bool {
    &&& new.len() == old.len()
    &&& forall|k: int| 0 <= k < old.len() ==> same_shape(#[trigger] new[k], old[k])
}

proof fn lemma_shapes_trans(a: Seq<Block>, b: Seq<Block>, c: Seq<Block>)
    requires
        shapes_kept(a, b),
        shapes_kept(b, c),
    ensures
        shapes_kept(a, c),
{
    assert forall|k: int| 0 <= k < a.len() implies same_shape(#[trigger] c[k], a[k]) by {
        assert(same_shape(c[k], b[k]));
        assert(same_shape(b[k], a[k]));
    }
}

/// The number of the last chapter that starts among `blocks`.
pub open spec fn last_chapter(blocks: Seq<Block>) -> Option<usize>
    decreases blocks.len(),
{
    if blocks.len() == 0 {
        None
    } else if blocks.last() is ChapterStart {
        Some(blocks.last()->ChapterStart_0.number)
    } else {
        last_chapter(blocks.drop_last())
    }
}

/// The end of chapter `number`.
pub open spec fn chapter_end(number: usize) -> Block {
    Block::ChapterEnd(ChapterEnd { number, span: Span::synthesized_spec() })
}

/// `blocks` with the end of each chapter before the start of the next.
pub open spec fn with_chapter_ends(blocks: Seq<Block>) -> Seq<Block>
    decreases blocks.len(),
{
    if blocks.len() == 0 {
        seq![]
    } else {
        let prev = with_chapter_ends(blocks.drop_last());
        if blocks.last() is ChapterStart {
            match last_chapter(blocks.drop_last()) {
                Some(m) => prev.push(chapter_end(m)).push(blocks.last()),
                None => prev.push(blocks.last()),
            }
        } else {
            prev.push(blocks.last())
        }
    }
}

/// `blocks` with every chapter ended: before the next chapter, and the
/// last at the end of the text.
pub open spec fn chapters_ended(blocks: Seq<Block>) -> Seq<Block> {
    match last_chapter(blocks) {
        Some(m) => with_chapter_ends(blocks).push(chapter_end(m)),
        None => with_chapter_ends(blocks),
    }
}

/// Ending chapters loses no block.
pub proof fn lemma_chapters_ended_len(blocks: Seq<Block>)
    ensures
        chapters_ended(blocks).len() >= blocks.len(),
        with_chapter_ends(blocks).len() >= blocks.len(),
    decreases blocks.len(),
{
    if blocks.len() > 0 {
        lemma_chapters_ended_len(blocks.drop_last());
    }
}

/// Whether `out` is `table` with an empty row of span `span` added.
pub open spec fn row_added(table: Table, out: Table, span: Span) -> bool {
    &&& out.span == table.span
    &&& out.rows@.len() == table.rows@.len() + 1
    &&& out.rows@.drop_last() == table.rows@
    &&& out.rows@.last().cells@.len() == 0
    &&& out.rows@.last().span == span
}

/// Whether `out` is `table` with `cell` added to its last row, if it has one.
pub open spec fn cell_added(table: Table, out: Table, cell: TableCell) -> bool {
    &&& out.span == table.span
    &&& out.rows@.len() == table.rows@.len()
    &&& table.rows@.len() == 0 ==> out.rows@ == table.rows@
    &&& table.rows@.len() > 0 ==> {
        &&& out.rows@.drop_last() == table.rows@.drop_last()
        &&& out.rows@.last().cells@ == table.rows@.last().cells@.push(cell)
        &&& out.rows@.last().span == table.rows@.last().span
    }
}

/// Whether `out` is `table` with `end` added at the end of cell `c` of row
/// `r`, where there is such a cell.
pub open spec fn end_added_in_cell(table: Table, out: Table, r: int, c: int, end: Inline) -> bool {
    &&& out.span == table.span
    &&& out.rows@.len() == table.rows@.len()
    &&& forall|j: int| 0 <= j < table.rows@.len() && j != r ==> out.rows@[j] == table.rows@[j]
    &&& 0 <= r < table.rows@.len() ==> {
        let row = table.rows@[r];
        let orow = out.rows@[r];
        &&& orow.span == row.span
        &&& orow.cells@.len() == row.cells@.len()
        &&& forall|j: int| 0 <= j < row.cells@.len() && j != c ==> orow.cells@[j] == row.cells@[j]
        &&& 0 <= c < row.cells@.len() ==> {
            let cell = row.cells@[c];
            let ocell = orow.cells@[c];
            &&& ocell.header == cell.header
            &&& ocell.alignment == cell.alignment
            &&& ocell.column == cell.column
            &&& ocell.colspan == cell.colspan
            &&& ocell.span == cell.span
            &&& ocell.children@ == cell.children@.push(end)
        }
    }
}

/// The table with an empty row added.
fn with_row(table: Table, span: Span, Ghost(n): Ghost<nat>, Ghost(t): Ghost<nat>) -> (out: Table)
    requires
        block_styles_below(Block::Table(table), n),
        block_spans_ok(Block::Table(table), t),
        span_ok(span, t),
    ensures
        block_styles_below(Block::Table(out), n),
        block_spans_ok(Block::Table(out), t),
        row_added(table, out, span),
{
    let mut rows = table.rows;
    let ghost before = rows@;
    rows.push(TableRow { cells: Vec::new(), span });
    proof {
        assert forall|j: int| 0 <= j < before.len() implies rows@[j] == before[j] by {}
        assert(rows@.drop_last() =~= before);
    }
    Table { rows, span: table.span }
}

/// The table with `cell` added to its last row.
fn with_cell(table: Table, cell: TableCell, Ghost(n): Ghost<nat>, Ghost(t): Ghost<nat>) -> (out: Table)
    requires
        block_styles_below(Block::Table(table), n),
        block_spans_ok(Block::Table(table), t),
        span_ok(cell.span, t),
        children_ok(cell.children@, n, t),
    ensures
        block_styles_below(Block::Table(out), n),
        block_spans_ok(Block::Table(out), t),
        cell_added(table, out, cell),
{
    let mut rows = table.rows;
    let len = rows.len();
    if len == 0 {
        return Table { rows, span: table.span };
    }
    let ghost before = rows@;
    let row = rows.pop().unwrap();
    assert(row == before[len - 1]);
    let mut cells = row.cells;
    let ghost cells0 = cells@;
    cells.push(cell);
    proof {
        assert forall|j: int| 0 <= j < cells0.len() implies cells@[j] == cells0[j] by {}
    }
    rows.push(TableRow { cells, span: row.span });
    proof {
        assert forall|j: int| 0 <= j < len - 1 implies rows@[j] == before[j] by {}
        assert(rows@.drop_last() =~= before.drop_last());
        assert(cells0 == before.last().cells@);
        assert(rows@.last().cells@ =~= cells0.push(cell));
    }
    Table { rows, span: table.span }
}

impl Ends {
    /// Apply `add` to the table that is block `k` of the output.
    fn add_row(&mut self, k: usize, span: Span, Ghost(n): Ghost<nat>, Ghost(t): Ghost<nat>)
        requires
            old(self).ok(n, t),
            span_ok(span, t),
        ensures
            final(self).ok(n, t),
            final(self).out@.len() == old(self).out@.len(),
            forall|j: int| 0 <= j < old(self).out@.len() && j != k ==> final(self).out@[j] == old(self).out@[j],
            k < old(self).out@.len() && !(old(self).out@[k as int] is Table) ==> final(self).out@ == old(self).out@,
            k < old(self).out@.len() && old(self).out@[k as int] is Table ==> (final(self).out@[k as int] is Table
                && row_added(old(self).out@[k as int]->Table_0, final(self).out@[k as int]->Table_0, span)),
            shapes_kept(old(self).out@, final(self).out@),
            final(self).verse == old(self).verse,
            final(self).verse_block == old(self).verse_block,
            final(self).place == old(self).place,
            final(self).chapter == old(self).chapter,
    {
        if k >= self.out.len() {
            return;
        }
        let ghost before = self.out@;
        let block = self.out.remove(k);
        proof {
            assert(block == before[k as int]);
            assert(block_styles_below(before[k as int], n));
            assert(block_spans_ok(before[k as int], t));
        }
        let block = match block {
            Block::Table(table) => Block::Table(with_row(table, span, Ghost(n), Ghost(t))),
            other => other,
        };
        self.out.insert(k, block);
        proof {
            assert forall|j: int| 0 <= j < self.out@.len() implies #[trigger] block_styles_below(self.out@[j], n) by {
                if j != k {
                    assert(self.out@[j] == before[j]);
                }
            }
            assert forall|j: int| 0 <= j < self.out@.len() implies #[trigger] block_spans_ok(self.out@[j], t) by {
                if j != k {
                    assert(self.out@[j] == before[j]);
                }
            }
        }
    }

    /// Add `cell` to the last row of the table that is block `k`.
    fn add_cell(&mut self, k: usize, cell: TableCell, Ghost(n): Ghost<nat>, Ghost(t): Ghost<nat>)
        requires
            old(self).ok(n, t),
            span_ok(cell.span, t),
            children_ok(cell.children@, n, t),
        ensures
            final(self).ok(n, t),
            final(self).out@.len() == old(self).out@.len(),
            forall|j: int| 0 <= j < old(self).out@.len() && j != k ==> final(self).out@[j] == old(self).out@[j],
            k < old(self).out@.len() && !(old(self).out@[k as int] is Table) ==> final(self).out@ == old(self).out@,
            k < old(self).out@.len() && old(self).out@[k as int] is Table ==> (final(self).out@[k as int] is Table
                && cell_added(old(self).out@[k as int]->Table_0, final(self).out@[k as int]->Table_0, cell)),
            shapes_kept(old(self).out@, final(self).out@),
            final(self).verse == old(self).verse,
            final(self).verse_block == old(self).verse_block,
            final(self).place == old(self).place,
            final(self).chapter == old(self).chapter,
    {
        if k >= self.out.len() {
            return;
        }
        let ghost before = self.out@;
        let block = self.out.remove(k);
        proof {
            assert(block == before[k as int]);
            assert(block_styles_below(before[k as int], n));
            assert(block_spans_ok(before[k as int], t));
        }
        let block = match block {
            Block::Table(table) => Block::Table(with_cell(table, cell, Ghost(n), Ghost(t))),
            other => other,
        };
        self.out.insert(k, block);
        proof {
            assert forall|j: int| 0 <= j < self.out@.len() implies #[trigger] block_styles_below(self.out@[j], n) by {
                if j != k {
                    assert(self.out@[j] == before[j]);
                }
            }
            assert forall|j: int| 0 <= j < self.out@.len() implies #[trigger] block_spans_ok(self.out@[j], t) by {
                if j != k {
                    assert(self.out@[j] == before[j]);
                }
            }
        }
    }

    /// The rows of a table, cell by cell, into the table that is block
    /// `index` of the output, with the ends of the verses that start in them.
    fn table_rows(&mut self, rows: Vec<TableRow>, index: usize, Ghost(n): Ghost<nat>, Ghost(t): Ghost<nat>)
        requires
            old(self).ok(n, t),
            forall|x: int| 0 <= x < rows@.len() ==> span_ok((#[trigger] rows@[x]).span, t) && forall|c: int|
                0 <= c < rows@[x].cells.len() ==> span_ok((#[trigger] rows@[x].cells[c]).span, t)
                    && children_ok(rows@[x].cells[c].children@, n, t),
        ensures
            final(self).ok(n, t),
            final(self).out@.len() == old(self).out@.len(),
            shapes_kept(old(self).out@, final(self).out@),
            final(self).chapter == old(self).chapter,
    {
        let ghost rows0 = rows@;
        let total = rows.len();
        let mut rest = rows;
        let mut r: usize = 0;
        while rest.len() > 0
            invariant
                rows0.len() == total,
                self.ok(n, t),
                self.out@.len() == old(self).out@.len(),
                shapes_kept(old(self).out@, self.out@),
                self.chapter == old(self).chapter,
                r <= rows0.len(),
                rest@ == rows0.subrange(r as int, rows0.len() as int),
                forall|x: int| 0 <= x < rows0.len() ==> span_ok((#[trigger] rows0[x]).span, t) && forall|c: int|
                    0 <= c < rows0[x].cells.len() ==> span_ok((#[trigger] rows0[x].cells[c]).span, t)
                        && children_ok(rows0[x].cells[c].children@, n, t),
            decreases rest@.len(),
        {
            let row = rest.remove(0);
            proof {
                assert(row == rows0[r as int]);
                assert(rest@ =~= rows0.subrange(r + 1, rows0.len() as int));
            }
            let ghost o = self.out@;
            self.add_row(index, row.span, Ghost(n), Ghost(t));
            proof {
                lemma_shapes_trans(old(self).out@, o, self.out@);
            }
            let ghost cells0 = row.cells@;
            let ctotal = row.cells.len();
            let mut crest = row.cells;
            let mut c: usize = 0;
            while crest.len() > 0
                invariant
                    cells0.len() == ctotal,
                    self.ok(n, t),
                    self.out@.len() == old(self).out@.len(),
                    shapes_kept(old(self).out@, self.out@),
                    self.chapter == old(self).chapter,
                    c <= cells0.len(),
                    crest@ == cells0.subrange(c as int, cells0.len() as int),
                    forall|y: int| 0 <= y < cells0.len() ==> span_ok((#[trigger] cells0[y]).span, t) && children_ok(cells0[y].children@, n, t),
                decreases crest@.len(),
            {
                let cell = crest.remove(0);
                proof {
                    assert(cell == cells0[c as int]);
                    assert(crest@ =~= cells0.subrange(c + 1, cells0.len() as int));
                }
                let ghost o1 = self.out@;
                let children = self.children(cell.children, true, index, Ghost(n), Ghost(t));
                proof {
                    lemma_shapes_trans(old(self).out@, o1, self.out@);
                }
                let done = TableCell {
                    header: cell.header,
                    alignment: cell.alignment,
                    column: cell.column,
                    colspan: cell.colspan,
                    children,
                    span: cell.span,
                };
                let ghost o2 = self.out@;
                self.add_cell(index, done, Ghost(n), Ghost(t));
                proof {
                    lemma_shapes_trans(old(self).out@, o2, self.out@);
                }
                if self.verse.is_some() {
                    self.place = Some(Place::Cell(index, r, c));
                }
                c = c + 1;
            }
            r = r + 1;
        }
    }
}

} // verus!
