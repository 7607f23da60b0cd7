//! Which node is under a cursor, and which verse the cursor is in.
//!
//! One walk answers both. [`locate`] goes through the tree in document order
//! keeping the innermost node whose span holds the offset, and on the way
//! records the `\id`, `\c` and `\v` it passed, which is the reference the
//! cursor is inside. A span holds the offsets from its start up to, not
//! including, its end, so an empty span (a synthesized node) holds none, and
//! a hand-built tree locates nothing at all.
use vstd::prelude::*;
use crate::ast::{
    block_spans_ok, blocks_spans_ok, inline_spans_ok, inlines_spans_ok, lemma_block_spans,
    lemma_inline_spans, span_ok, Block, Document, Inline, TableCell, TableRow,
};
use crate::book::BookCode;
use crate::codegen::{code_spelling, number_spelling, push_code, push_number};
use crate::cursor::{
    block_ref, child_count, child_spec, descend_spec, inline_ref, lemma_descend_push, nth_child_spec,
    NodeRef,
};
use crate::number::{decimal, push_decimal, NumberList, NumberRange};
use crate::span::Span;
use crate::strings::{push_char, push_str};

verus! {

/// A node with its path from the document root.
pub struct Located<'a> {
    pub node: NodeRef<'a>,
    pub path: Vec<usize>,
}

/// Where in the document an offset falls: the innermost node, and the book,
/// chapter and verse in force there.
pub struct Location<'a> {
    /// The innermost node whose span holds the offset, with its path; `None`
    /// when no node holds it.
    pub node: Option<Located<'a>>,
    /// The book of the first `\id` line.
    pub book: Option<BookCode>,
    /// The chapter of the last `\c` at or before the offset.
    pub chapter: Option<usize>,
    /// The verse of the last `\v` at or before the offset, when it comes
    /// after that `\c`.
    pub verse: Option<NumberList>,
}

/// The state of the walk, as values: the node found so far with its path,
/// the book, chapter and verse, and where the chapter in force started.
pub struct Walk<'a> {
    pub found: Option<(Seq<usize>, NodeRef<'a>)>,
    pub book: Option<BookCode>,
    pub chapter: Option<usize>,
    pub verse: Option<(Seq<NumberRange>, bool)>,
    pub chapter_at: u32,
}

/// The walk before it has seen anything.
pub open spec fn walk_start<'a>() -> Walk<'a> {
    Walk { found: None, book: None, chapter: None, verse: None, chapter_at: 0 }
}

/// A node's source range.
pub open spec fn span_of_spec(node: NodeRef) -> Span {
    match node {
        NodeRef::Document(d) => d.span,
        NodeRef::Book(b) => b.span,
        NodeRef::ChapterStart(c) => c.span,
        NodeRef::ChapterEnd(c) => c.span,
        NodeRef::Para(p) => p.span,
        NodeRef::Table(t) => t.span,
        NodeRef::TableRow(r) => r.span,
        NodeRef::TableCell(c) => c.span,
        NodeRef::Text(t) => t.span,
        NodeRef::VerseStart(v) => v.span,
        NodeRef::VerseEnd(v) => v.span,
        NodeRef::Char(c) => c.span,
        NodeRef::Note(n) => n.span,
        NodeRef::Milestone(m) => m.span,
        NodeRef::OptBreak(b) => b.span,
        NodeRef::Sidebar(s) => s.span,
        NodeRef::Periph(p) => p.span,
    }
}

/// A node's source range.
pub fn span_of(node: NodeRef) -> (span: Span)
    ensures
        span == span_of_spec(node),
{
    match node {
        NodeRef::Document(d) => d.span,
        NodeRef::Book(b) => b.span,
        NodeRef::ChapterStart(c) => c.span,
        NodeRef::ChapterEnd(c) => c.span,
        NodeRef::Para(p) => p.span,
        NodeRef::Table(t) => t.span,
        NodeRef::TableRow(r) => r.span,
        NodeRef::TableCell(c) => c.span,
        NodeRef::Text(t) => t.span,
        NodeRef::VerseStart(v) => v.span,
        NodeRef::VerseEnd(v) => v.span,
        NodeRef::Char(c) => c.span,
        NodeRef::Note(n) => n.span,
        NodeRef::Milestone(m) => m.span,
        NodeRef::OptBreak(b) => b.span,
        NodeRef::Sidebar(s) => s.span,
        NodeRef::Periph(p) => p.span,
    }
}

/// Whether a span holds an offset: its start counts, its end does not.
pub open spec fn holds(span: Span, offset: u32) -> bool {
    span.start <= offset && offset < span.end
}

/// Whether a node with `span` is further in than what was found so far: it
/// lies within the found node's span (an equal span goes to the later node,
/// which is the deeper one).
pub open spec fn further_in(found: Option<(Seq<usize>, NodeRef)>, span: Span) -> bool {
    match found {
        None => true,
        Some(f) => span.start >= span_of_spec(f.1).start && span.end <= span_of_spec(f.1).end,
    }
}

/// One node of the walk, at `path`.
pub open spec fn step<'a>(s: Walk<'a>, path: Seq<usize>, node: NodeRef<'a>, offset: u32) -> Walk<'a> {
    let span = span_of_spec(node);
    let found = if holds(span, offset) && further_in(s.found, span) {
        Some((path, node))
    } else {
        s.found
    };
    match node {
        NodeRef::Book(b) => Walk {
            found,
            book: if s.book is None {
                Some(b.code)
            } else {
                s.book
            },
            chapter: s.chapter,
            verse: s.verse,
            chapter_at: s.chapter_at,
        },
        NodeRef::ChapterStart(c) => if span.start <= offset {
            Walk { found, book: s.book, chapter: Some(c.number), verse: None, chapter_at: span.start }
        } else {
            Walk { found, book: s.book, chapter: s.chapter, verse: s.verse, chapter_at: s.chapter_at }
        },
        NodeRef::VerseStart(v) => if span.start <= offset && span.start >= s.chapter_at {
            Walk {
                found,
                book: s.book,
                chapter: s.chapter,
                verse: Some((v.number.ranges@, v.number.guard_rtl)),
                chapter_at: s.chapter_at,
            }
        } else {
            Walk { found, book: s.book, chapter: s.chapter, verse: s.verse, chapter_at: s.chapter_at }
        },
        _ => Walk { found, book: s.book, chapter: s.chapter, verse: s.verse, chapter_at: s.chapter_at },
    }
}

/// An inline node at `path` and everything in it.
pub open spec fn walk_inline<'a>(s: Walk<'a>, node: &'a Inline, path: Seq<usize>, offset: u32) -> Walk<'a>
    decreases *node, 0nat,
{
    let here = step(s, path, inline_ref(node), offset);
    match node {
        Inline::Char(c) => walk_inlines(here, &c.children, path, offset, c.children@.len()),
        Inline::Note(n) => walk_inlines(here, &n.children, path, offset, n.children@.len()),
        _ => here,
    }
}

/// The first `k` children in `nodes` of the node at `path`.
pub open spec fn walk_inlines<'a>(
    s: Walk<'a>,
    nodes: &'a Vec<Inline>,
    path: Seq<usize>,
    offset: u32,
    k: nat,
) -> Walk<'a>
    decreases *nodes, k,
{
    if k == 0 || k > nodes@.len() {
        s
    } else {
        proof {
            assert(decreases_to!(*nodes => nodes@));
        }
        walk_inline(
            walk_inlines(s, nodes, path, offset, (k - 1) as nat),
            &nodes@[k - 1],
            path.push((k - 1) as usize),
            offset,
        )
    }
}

/// A table cell at `path` and its children.
pub open spec fn walk_cell<'a>(s: Walk<'a>, cell: &'a TableCell, path: Seq<usize>, offset: u32) -> Walk<'a> {
    walk_inlines(
        step(s, path, NodeRef::TableCell(cell), offset),
        &cell.children,
        path,
        offset,
        cell.children@.len(),
    )
}

/// The first `k` cells of a row at `path`.
pub open spec fn walk_cells<'a>(s: Walk<'a>, row: &'a TableRow, path: Seq<usize>, offset: u32, k: nat) -> Walk<'a>
    decreases k,
{
    if k == 0 || k > row.cells@.len() {
        s
    } else {
        walk_cell(
            walk_cells(s, row, path, offset, (k - 1) as nat),
            &row.cells@[k - 1],
            path.push((k - 1) as usize),
            offset,
        )
    }
}

/// The first `k` rows of a table's `rows`, below the table at `path`.
pub open spec fn walk_rows<'a>(
    s: Walk<'a>,
    rows: &'a Vec<TableRow>,
    path: Seq<usize>,
    offset: u32,
    k: nat,
) -> Walk<'a>
    decreases k,
{
    if k == 0 || k > rows@.len() {
        s
    } else {
        let row = &rows@[k - 1];
        let p = path.push((k - 1) as usize);
        walk_cells(
            step(walk_rows(s, rows, path, offset, (k - 1) as nat), p, NodeRef::TableRow(row), offset),
            row,
            p,
            offset,
            row.cells@.len(),
        )
    }
}

/// A block at `path` and everything in it.
pub open spec fn walk_block<'a>(s: Walk<'a>, block: &'a Block, path: Seq<usize>, offset: u32) -> Walk<'a>
    decreases *block, 0nat,
{
    let here = step(s, path, block_ref(block), offset);
    match block {
        Block::Para(p) => walk_inlines(here, &p.children, path, offset, p.children@.len()),
        Block::Table(t) => walk_rows(here, &t.rows, path, offset, t.rows@.len()),
        Block::Sidebar(sb) => walk_blocks(here, &sb.blocks, path, offset, sb.blocks@.len()),
        Block::Periph(pb) => walk_blocks(here, &pb.blocks, path, offset, pb.blocks@.len()),
        _ => here,
    }
}

/// The first `k` blocks in `blocks` below the node at `path`.
pub open spec fn walk_blocks<'a>(
    s: Walk<'a>,
    blocks: &'a Vec<Block>,
    path: Seq<usize>,
    offset: u32,
    k: nat,
) -> Walk<'a>
    decreases *blocks, k,
{
    if k == 0 || k > blocks@.len() {
        s
    } else {
        proof {
            assert(decreases_to!(*blocks => blocks@));
        }
        walk_block(
            walk_blocks(s, blocks, path, offset, (k - 1) as nat),
            &blocks@[k - 1],
            path.push((k - 1) as usize),
            offset,
        )
    }
}

/// The walk over a whole document, in document order.
pub open spec fn locate_spec<'a>(document: &'a Document, offset: u32) -> Walk<'a> {
    walk_blocks(walk_start(), &document.blocks, seq![], offset, document.blocks@.len())
}

/// The walk state a location and a chapter start stand for.
pub open spec fn walk_of<'a>(location: Location<'a>, chapter_at: u32) -> Walk<'a> {
    Walk {
        found: match location.node {
            Some(l) => Some((l.path@, l.node)),
            None => None,
        },
        book: location.book,
        chapter: location.chapter,
        verse: match location.verse {
            Some(v) => Some((v.ranges@, v.guard_rtl)),
            None => None,
        },
        chapter_at,
    }
}

/// Copy a path.
fn copy_path(path: &Vec<usize>) -> (copy: Vec<usize>)
    ensures
        copy@ == path@,
{
    let mut copy: Vec<usize> = Vec::new();
    let mut i: usize = 0;
    while i < path.len()
        invariant
            i <= path@.len(),
            copy@ == path@.take(i as int),
        decreases path@.len() - i,
    {
        copy.push(path[i]);
        i = i + 1;
        assert(copy@ =~= path@.take(i as int));
    }
    assert(copy@ =~= path@);
    copy
}

/// One node of the walk.
fn visit<'a>(location: &mut Location<'a>, chapter_at: &mut u32, path: &Vec<usize>, node: NodeRef<'a>, offset: u32)
    ensures
        walk_of(*final(location), *final(chapter_at)) == step(
            walk_of(*old(location), *old(chapter_at)),
            path@,
            node,
            offset,
        ),
{
    let span = span_of(node);
    if span.start <= offset && offset < span.end {
        let inner = match &location.node {
            None => true,
            Some(found) => {
                let best = span_of(found.node);
                span.start >= best.start && span.end <= best.end
            },
        };
        if inner {
            location.node = Some(Located { node, path: copy_path(path) });
        }
    }
    match node {
        NodeRef::Book(book) => {
            if location.book.is_none() {
                location.book = Some(book.code);
            }
        },
        NodeRef::ChapterStart(chapter) => {
            if span.start <= offset {
                location.chapter = Some(chapter.number);
                location.verse = None;
                *chapter_at = span.start;
            }
        },
        NodeRef::VerseStart(verse) => {
            if span.start <= offset && span.start >= *chapter_at {
                location.verse = Some(verse.number.duplicate());
            }
        },
        _ => {},
    }
}

fn locate_inline<'a>(
    location: &mut Location<'a>,
    chapter_at: &mut u32,
    path: &mut Vec<usize>,
    node: &'a Inline,
    offset: u32,
)
    ensures
        final(path)@ == old(path)@,
        walk_of(*final(location), *final(chapter_at)) == walk_inline(
            walk_of(*old(location), *old(chapter_at)),
            node,
            old(path)@,
            offset,
        ),
    decreases node,
{
    visit(location, chapter_at, path, NodeRef::from_inline(node), offset);
    match node {
        Inline::Char(c) => locate_inlines(location, chapter_at, path, &c.children, offset),
        Inline::Note(n) => locate_inlines(location, chapter_at, path, &n.children, offset),
        _ => {},
    }
}

fn locate_inlines<'a>(
    location: &mut Location<'a>,
    chapter_at: &mut u32,
    path: &mut Vec<usize>,
    nodes: &'a Vec<Inline>,
    offset: u32,
)
    ensures
        final(path)@ == old(path)@,
        walk_of(*final(location), *final(chapter_at)) == walk_inlines(
            walk_of(*old(location), *old(chapter_at)),
            nodes,
            old(path)@,
            offset,
            nodes@.len(),
        ),
    decreases nodes,
{
    let ghost start = walk_of(*location, *chapter_at);
    let ghost base = path@;
    let mut k: usize = 0;
    while k < nodes.len()
        invariant
            k <= nodes@.len(),
            path@ == base,
            walk_of(*location, *chapter_at) == walk_inlines(start, nodes, base, offset, k as nat),
        decreases nodes@.len() - k,
    {
        proof {
            assert(decreases_to!(nodes => nodes@));
            assert(decreases_to!(nodes@ => nodes@[k as int]));
        }
        path.push(k);
        locate_inline(location, chapter_at, path, &nodes[k], offset);
        path.pop();
        assert(path@ =~= base);
        k = k + 1;
    }
}

fn locate_rows<'a>(
    location: &mut Location<'a>,
    chapter_at: &mut u32,
    path: &mut Vec<usize>,
    rows: &'a Vec<TableRow>,
    offset: u32,
)
    ensures
        final(path)@ == old(path)@,
        walk_of(*final(location), *final(chapter_at)) == walk_rows(
            walk_of(*old(location), *old(chapter_at)),
            rows,
            old(path)@,
            offset,
            rows@.len(),
        ),
{
    let ghost start = walk_of(*location, *chapter_at);
    let ghost base = path@;
    let mut k: usize = 0;
    while k < rows.len()
        invariant
            k <= rows@.len(),
            path@ == base,
            walk_of(*location, *chapter_at) == walk_rows(start, rows, base, offset, k as nat),
        decreases rows@.len() - k,
    {
        let row = &rows[k];
        path.push(k);
        let ghost row_path = path@;
        visit(location, chapter_at, path, NodeRef::TableRow(row), offset);
        let ghost after_row = walk_of(*location, *chapter_at);
        let mut c: usize = 0;
        while c < row.cells.len()
            invariant
                c <= row.cells@.len(),
                path@ == row_path,
                walk_of(*location, *chapter_at) == walk_cells(after_row, row, row_path, offset, c as nat),
            decreases row.cells@.len() - c,
        {
            let cell = &row.cells[c];
            path.push(c);
            visit(location, chapter_at, path, NodeRef::TableCell(cell), offset);
            locate_inlines(location, chapter_at, path, &cell.children, offset);
            path.pop();
            assert(path@ =~= row_path);
            c = c + 1;
        }
        path.pop();
        assert(path@ =~= base);
        k = k + 1;
    }
}

fn locate_block<'a>(
    location: &mut Location<'a>,
    chapter_at: &mut u32,
    path: &mut Vec<usize>,
    block: &'a Block,
    offset: u32,
)
    ensures
        final(path)@ == old(path)@,
        walk_of(*final(location), *final(chapter_at)) == walk_block(
            walk_of(*old(location), *old(chapter_at)),
            block,
            old(path)@,
            offset,
        ),
    decreases block,
{
    visit(location, chapter_at, path, NodeRef::from_block(block), offset);
    match block {
        Block::Para(p) => locate_inlines(location, chapter_at, path, &p.children, offset),
        Block::Table(t) => locate_rows(location, chapter_at, path, &t.rows, offset),
        Block::Sidebar(sb) => locate_blocks(location, chapter_at, path, &sb.blocks, offset),
        Block::Periph(pb) => locate_blocks(location, chapter_at, path, &pb.blocks, offset),
        _ => {},
    }
}

fn locate_blocks<'a>(
    location: &mut Location<'a>,
    chapter_at: &mut u32,
    path: &mut Vec<usize>,
    blocks: &'a Vec<Block>,
    offset: u32,
)
    ensures
        final(path)@ == old(path)@,
        walk_of(*final(location), *final(chapter_at)) == walk_blocks(
            walk_of(*old(location), *old(chapter_at)),
            blocks,
            old(path)@,
            offset,
            blocks@.len(),
        ),
    decreases blocks,
{
    let ghost start = walk_of(*location, *chapter_at);
    let ghost base = path@;
    let mut k: usize = 0;
    while k < blocks.len()
        invariant
            k <= blocks@.len(),
            path@ == base,
            walk_of(*location, *chapter_at) == walk_blocks(start, blocks, base, offset, k as nat),
        decreases blocks@.len() - k,
    {
        proof {
            assert(decreases_to!(blocks => blocks@));
            assert(decreases_to!(blocks@ => blocks@[k as int]));
        }
        path.push(k);
        locate_block(location, chapter_at, path, &blocks[k], offset);
        path.pop();
        assert(path@ =~= base);
        k = k + 1;
    }
}

/// Where `offset` falls in `document`: the innermost node that holds it,
/// and the book, chapter and verse in force there, by one walk of the tree in
/// document order.
pub fn locate<'a>(document: &'a Document, offset: u32) -> (location: Location<'a>)
    ensures
        exists|chapter_at: u32| walk_of(location, chapter_at) == locate_spec(document, offset),
{
    let mut location = Location { node: None, book: None, chapter: None, verse: None };
    let mut chapter_at: u32 = 0;
    let mut path: Vec<usize> = Vec::new();
    assert(walk_of(location, chapter_at) == walk_start::<'a>());
    locate_blocks(&mut location, &mut chapter_at, &mut path, &document.blocks, offset);
    location
}

/// The reference as a cross-reference writes it: `GEN 1:1`, `GEN 1` in a
/// chapter with no verse yet, `1:1` with no book; `None` with no chapter.
pub open spec fn reference_spec(book: Option<BookCode>, chapter: Option<usize>, verse: Option<NumberList>) -> Option<Seq<char>> {
    match chapter {
        None => None,
        Some(c) => Some(
            match book {
                Some(b) => code_spelling(b) + " "@,
                None => seq![],
            } + decimal(c as nat) + match verse {
                Some(v) => seq![':'] + number_spelling(v),
                None => seq![],
            },
        ),
    }
}

impl<'a> Location<'a> {
    /// The reference in force: `GEN 1:1`, `GEN 1`, `1:1`, or `None` when
    /// there is not even a chapter to name.
    pub fn reference(&self) -> (text: Option<String>)
        ensures
            text matches Some(t) ==> reference_spec(self.book, self.chapter, self.verse) == Some(t@),
            text is None <==> reference_spec(self.book, self.chapter, self.verse) is None,
    {
        let chapter = match self.chapter {
            Some(c) => c,
            None => return None,
        };
        let mut text = String::new();
        match self.book {
            Some(code) => {
                push_code(&mut text, code);
                push_str(&mut text, " ");
            },
            None => {},
        }
        push_decimal(&mut text, chapter);
        match &self.verse {
            Some(v) => {
                push_char(&mut text, ':');
                push_number(&mut text, v);
            },
            None => {},
        }
        Some(text)
    }
}

/// What the walk keeps true of what it found: the node holds the offset and
/// is the node at its path from `root`.
pub open spec fn found_ok<'a>(root: NodeRef<'a>, s: Walk<'a>, offset: u32) -> bool {
    match s.found {
        Some(f) => holds(span_of_spec(f.1), offset) && descend_spec(root, f.0) == Some(f.1),
        None => true,
    }
}

proof fn lemma_step<'a>(root: NodeRef<'a>, s: Walk<'a>, path: Seq<usize>, node: NodeRef<'a>, offset: u32)
    requires
        found_ok(root, s, offset),
        descend_spec(root, path) == Some(node),
    ensures
        found_ok(root, step(s, path, node, offset), offset),
{
}

proof fn lemma_walk_inline<'a>(root: NodeRef<'a>, s: Walk<'a>, node: &'a Inline, path: Seq<usize>, offset: u32)
    requires
        found_ok(root, s, offset),
        descend_spec(root, path) == Some(inline_ref(node)),
    ensures
        found_ok(root, walk_inline(s, node, path, offset), offset),
    decreases *node, 0nat,
{
    lemma_step(root, s, path, inline_ref(node), offset);
    let here = step(s, path, inline_ref(node), offset);
    match node {
        Inline::Char(c) => lemma_walk_inlines(root, here, NodeRef::Char(c), &c.children, path, offset, c.children@.len()),
        Inline::Note(n) => lemma_walk_inlines(root, here, NodeRef::Note(n), &n.children, path, offset, n.children@.len()),
        _ => {},
    }
}

proof fn lemma_walk_inlines<'a>(
    root: NodeRef<'a>,
    s: Walk<'a>,
    parent: NodeRef<'a>,
    nodes: &'a Vec<Inline>,
    path: Seq<usize>,
    offset: u32,
    k: nat,
)
    requires
        found_ok(root, s, offset),
        descend_spec(root, path) == Some(parent),
        crate::cursor::child_count(parent) == nodes@.len(),
        forall|i: int| 0 <= i < nodes@.len() ==> crate::cursor::nth_child_spec(parent, i) == inline_ref(&nodes@[i]),
    ensures
        found_ok(root, walk_inlines(s, nodes, path, offset, k), offset),
    decreases *nodes, k,
{
    if k > 0 && k <= nodes@.len() {
        lemma_walk_inlines(root, s, parent, nodes, path, offset, (k - 1) as nat);
        lemma_descend_push(root, path, (k - 1) as usize);
        assert(decreases_to!(*nodes => nodes@));
        assert(nodes@.len() == nodes.len());
        lemma_walk_inline(
            root,
            walk_inlines(s, nodes, path, offset, (k - 1) as nat),
            &nodes@[k - 1],
            path.push((k - 1) as usize),
            offset,
        );
    }
}

proof fn lemma_walk_rows<'a>(
    root: NodeRef<'a>,
    s: Walk<'a>,
    table: &'a crate::ast::Table,
    path: Seq<usize>,
    offset: u32,
    k: nat,
)
    requires
        found_ok(root, s, offset),
        descend_spec(root, path) == Some(NodeRef::Table(table)),
    ensures
        found_ok(root, walk_rows(s, &table.rows, path, offset, k), offset),
    decreases k,
{
    if k > 0 && k <= table.rows@.len() {
        lemma_walk_rows(root, s, table, path, offset, (k - 1) as nat);
        assert(table.rows@.len() == table.rows.len());
        let row = &table.rows@[k - 1];
        let p = path.push((k - 1) as usize);
        lemma_descend_push(root, path, (k - 1) as usize);
        let before = walk_rows(s, &table.rows, path, offset, (k - 1) as nat);
        lemma_step(root, before, p, NodeRef::TableRow(row), offset);
        lemma_walk_cells(root, step(before, p, NodeRef::TableRow(row), offset), row, p, offset, row.cells@.len());
    }
}

proof fn lemma_walk_cells<'a>(
    root: NodeRef<'a>,
    s: Walk<'a>,
    row: &'a TableRow,
    path: Seq<usize>,
    offset: u32,
    k: nat,
)
    requires
        found_ok(root, s, offset),
        descend_spec(root, path) == Some(NodeRef::TableRow(row)),
    ensures
        found_ok(root, walk_cells(s, row, path, offset, k), offset),
    decreases k,
{
    if k > 0 && k <= row.cells@.len() {
        lemma_walk_cells(root, s, row, path, offset, (k - 1) as nat);
        assert(row.cells@.len() == row.cells.len());
        let cell = &row.cells@[k - 1];
        let p = path.push((k - 1) as usize);
        lemma_descend_push(root, path, (k - 1) as usize);
        let before = walk_cells(s, row, path, offset, (k - 1) as nat);
        lemma_step(root, before, p, NodeRef::TableCell(cell), offset);
        lemma_walk_inlines(
            root,
            step(before, p, NodeRef::TableCell(cell), offset),
            NodeRef::TableCell(cell),
            &cell.children,
            p,
            offset,
            cell.children@.len(),
        );
    }
}

proof fn lemma_walk_block<'a>(root: NodeRef<'a>, s: Walk<'a>, block: &'a Block, path: Seq<usize>, offset: u32)
    requires
        found_ok(root, s, offset),
        descend_spec(root, path) == Some(block_ref(block)),
    ensures
        found_ok(root, walk_block(s, block, path, offset), offset),
    decreases *block, 0nat,
{
    lemma_step(root, s, path, block_ref(block), offset);
    let here = step(s, path, block_ref(block), offset);
    match block {
        Block::Para(p) => lemma_walk_inlines(root, here, NodeRef::Para(p), &p.children, path, offset, p.children@.len()),
        Block::Table(t) => lemma_walk_rows(root, here, t, path, offset, t.rows@.len()),
        Block::Sidebar(sb) => lemma_walk_blocks(root, here, NodeRef::Sidebar(sb), &sb.blocks, path, offset, sb.blocks@.len()),
        Block::Periph(pb) => lemma_walk_blocks(root, here, NodeRef::Periph(pb), &pb.blocks, path, offset, pb.blocks@.len()),
        _ => {},
    }
}

proof fn lemma_walk_blocks<'a>(
    root: NodeRef<'a>,
    s: Walk<'a>,
    parent: NodeRef<'a>,
    blocks: &'a Vec<Block>,
    path: Seq<usize>,
    offset: u32,
    k: nat,
)
    requires
        found_ok(root, s, offset),
        descend_spec(root, path) == Some(parent),
        crate::cursor::child_count(parent) == blocks@.len(),
        forall|i: int| 0 <= i < blocks@.len() ==> crate::cursor::nth_child_spec(parent, i) == block_ref(&blocks@[i]),
    ensures
        found_ok(root, walk_blocks(s, blocks, path, offset, k), offset),
    decreases *blocks, k,
{
    if k > 0 && k <= blocks@.len() {
        lemma_walk_blocks(root, s, parent, blocks, path, offset, (k - 1) as nat);
        assert(blocks@.len() == blocks.len());
        lemma_descend_push(root, path, (k - 1) as usize);
        assert(decreases_to!(*blocks => blocks@));
        lemma_walk_block(
            root,
            walk_blocks(s, blocks, path, offset, (k - 1) as nat),
            &blocks@[k - 1],
            path.push((k - 1) as usize),
            offset,
        );
    }
}

/// The node a location finds holds the offset, and it is the node at the
/// path it was found with.
pub proof fn law_the_located_node_holds_the_offset<'a>(document: &'a Document, offset: u32)
    ensures
        match locate_spec(document, offset).found {
            Some(f) => holds(span_of_spec(f.1), offset) && descend_spec(NodeRef::Document(document), f.0)
                == Some(f.1),
            None => true,
        },
{
    let root = NodeRef::Document(document);
    lemma_walk_blocks(root, walk_start(), root, &document.blocks, seq![], offset, document.blocks@.len());
}

/// Every span in a node, and in everything below it, lies in a source of
/// `total` bytes.
pub open spec fn node_spans_ok(node: NodeRef, total: nat) -> bool {
    match node {
        NodeRef::Document(d) => blocks_spans_ok(d.blocks@, total),
        NodeRef::Book(b) => block_spans_ok(Block::Book(*b), total),
        NodeRef::ChapterStart(c) => block_spans_ok(Block::ChapterStart(*c), total),
        NodeRef::ChapterEnd(c) => block_spans_ok(Block::ChapterEnd(*c), total),
        NodeRef::Para(p) => block_spans_ok(Block::Para(*p), total),
        NodeRef::Table(t) => block_spans_ok(Block::Table(*t), total),
        NodeRef::TableRow(r) => span_ok(r.span, total) && forall|c: int|
            0 <= c < r.cells.len() ==> span_ok((#[trigger] r.cells[c]).span, total)
                && inlines_spans_ok(r.cells[c].children@, total),
        NodeRef::TableCell(c) => span_ok(c.span, total) && inlines_spans_ok(c.children@, total),
        NodeRef::Text(t) => inline_spans_ok(Inline::Text(*t), total),
        NodeRef::VerseStart(v) => inline_spans_ok(Inline::VerseStart(*v), total),
        NodeRef::VerseEnd(v) => inline_spans_ok(Inline::VerseEnd(*v), total),
        NodeRef::Char(c) => inline_spans_ok(Inline::Char(*c), total),
        NodeRef::Note(n) => inline_spans_ok(Inline::Note(*n), total),
        NodeRef::Milestone(m) => inline_spans_ok(Inline::Milestone(*m), total),
        NodeRef::OptBreak(o) => inline_spans_ok(Inline::OptBreak(*o), total),
        NodeRef::Sidebar(sb) => block_spans_ok(Block::Sidebar(*sb), total),
        NodeRef::Periph(pb) => block_spans_ok(Block::Periph(*pb), total),
    }
}

proof fn lemma_block_node(block: &Block, total: nat)
    requires
        block_spans_ok(*block, total),
    ensures
        node_spans_ok(block_ref(block), total),
{
}

pub proof fn lemma_inline_node(node: &Inline, total: nat)
    requires
        inline_spans_ok(*node, total),
    ensures
        node_spans_ok(inline_ref(node), total),
        span_ok(span_of_spec(inline_ref(node)), total),
{
}

/// A node's children keep its spans in bounds.
proof fn lemma_child_spans<'a>(node: NodeRef<'a>, index: int, total: nat)
    requires
        node_spans_ok(node, total),
        0 <= index < child_count(node),
    ensures
        node_spans_ok(nth_child_spec(node, index), total),
{
    match node {
        NodeRef::Document(d) => lemma_block_node(&d.blocks@[index], total),
        NodeRef::Para(p) => lemma_inline_node(&p.children@[index], total),
        NodeRef::Char(c) => {
            lemma_inline_spans(c.children@, total);
            lemma_inline_node(&c.children@[index], total);
        },
        NodeRef::Note(n) => {
            lemma_inline_spans(n.children@, total);
            lemma_inline_node(&n.children@[index], total);
        },
        NodeRef::Table(t) => {
            assert(span_ok(t.rows[index].span, total));
        },
        NodeRef::TableRow(r) => {
            assert(span_ok(r.cells[index].span, total));
        },
        NodeRef::TableCell(c) => lemma_inline_node(&c.children@[index], total),
        NodeRef::Sidebar(sb) => {
            lemma_block_spans(sb.blocks@, total);
            lemma_block_node(&sb.blocks@[index], total);
        },
        NodeRef::Periph(pb) => {
            lemma_block_spans(pb.blocks@, total);
            lemma_block_node(&pb.blocks@[index], total);
        },
        _ => {},
    }
}

/// Every node below a node whose spans lie in the source has its spans
/// there too.
pub proof fn lemma_descend_spans<'a>(node: NodeRef<'a>, path: Seq<usize>, total: nat)
    requires
        node_spans_ok(node, total),
    ensures
        descend_spec(node, path) matches Some(n) ==> node_spans_ok(n, total),
    decreases path.len(),
{
    if path.len() > 0 {
        match child_spec(node, path[0] as int) {
            Some(child) => {
                lemma_child_spans(node, path[0] as int, total);
                lemma_descend_spans(child, path.drop_first(), total);
            },
            None => {},
        }
    }
}

} // verus!
