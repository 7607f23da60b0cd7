//! The document's outline: the book, its chapters and their verses, and the
//! sidebars and peripheral divisions they stand among.
//!
//! Entries are found flat, in one walk of the tree in document order, each
//! with the source range it covers, and then nested by containment: an
//! entry becomes the child of the innermost open entry whose range covers it
//! whole. A chapter runs to the next chapter's start, a verse to the next
//! verse's start or the end of its chapter, and either stops at the end of
//! the sidebar or `\periph` it is written in. A node with an empty range is
//! left out.
use vstd::prelude::*;
use crate::ast::{
    block_styles_below, blocks_styles_below, lemma_block_styles, Block, Document, Inline, TableCell,
    TableRow, VerseStart,
};
use crate::codegen::{code_spelling, marker_of, number_spelling, push_code, push_number};
use crate::hover::{trim, trimmed};
use crate::number::{decimal, push_decimal};
use crate::source::byte_len;
use crate::span::Span;
use crate::strings::push_str;
use crate::style::StyleSheet;

verus! {

/// What an outline entry is, in the editor's terms: a book is a module, a
/// chapter a namespace, a verse a key, a sidebar or a `\periph` an object.
#[derive(Debug, Clone, Copy, PartialEq, Eq, Structural)]
pub enum SymbolKind {
    Module,
    Namespace,
    Key,
    Object,
}

/// One outline entry: its name, an optional detail, its kind, the content
/// it covers, the marker that opens it, and the entries inside it.
#[derive(Debug, PartialEq)]
pub struct Entry {
    pub name: String,
    pub detail: Option<String>,
    pub kind: SymbolKind,
    pub range: Span,
    pub selection: Span,
    pub children: Vec<Entry>,
}

/// An entry as values.
pub struct Outline {
    pub name: Seq<char>,
    pub detail: Option<Seq<char>>,
    pub kind: SymbolKind,
    pub range: Span,
    pub selection: Span,
    pub children: Seq<Outline>,
}

/// An entry as values, its children included.
pub open spec fn outline_of(entry: Entry) -> Outline
    decreases entry, 0nat,
{
    Outline {
        name: entry.name@,
        detail: match entry.detail {
            Some(d) => Some(d@),
            None => None,
        },
        kind: entry.kind,
        range: entry.range,
        selection: entry.selection,
        children: outlines_of(entry.children@, entry.children@.len()),
    }
}

/// The first `k` entries of a list as values.
pub open spec fn outlines_of(entries: Seq<Entry>, k: nat) -> Seq<Outline>
    decreases entries, k,
{
    if k == 0 || k > entries.len() {
        seq![]
    } else {
        outlines_of(entries, (k - 1) as nat).push(outline_of(entries[k - 1]))
    }
}

/// All the entries of a list as values.
pub open spec fn outlines(entries: Seq<Entry>) -> Seq<Outline> {
    outlines_of(entries, entries.len())
}

/// Whether one range holds another whole.
pub open spec fn covers(outer: Span, inner: Span) -> bool {
    outer.start <= inner.start && inner.end <= outer.end
}

/// A forest with one more entry: under the last root when that root covers
/// it, and there, recursively, under its own last child; otherwise as a new
/// last root. Since a child lies inside its parent, this is the innermost
/// entry on the last branch that covers it.
pub open spec fn insert(forest: Seq<Outline>, entry: Outline) -> Seq<Outline>
    decreases forest,
{
    if forest.len() > 0 && covers(forest.last().range, entry.range) {
        let last = forest.last();
        forest.update(
            forest.len() - 1,
            Outline { children: insert(last.children, entry), ..last },
        )
    } else {
        forest.push(entry)
    }
}

/// The first `k` entries, nested.
pub open spec fn nested(entries: Seq<Outline>, k: nat) -> Seq<Outline>
    decreases k,
{
    if k == 0 || k > entries.len() {
        seq![]
    } else {
        insert(nested(entries, (k - 1) as nat), entries[k - 1])
    }
}

proof fn lemma_outlines_push(entries: Seq<Entry>, entry: Entry)
    ensures
        outlines(entries.push(entry)) == outlines(entries).push(outline_of(entry)),
{
    lemma_outlines_prefix(entries.push(entry), entries, entries.len());
}

proof fn lemma_outlines_prefix(longer: Seq<Entry>, shorter: Seq<Entry>, k: nat)
    requires
        k <= shorter.len(),
        k <= longer.len(),
        forall|i: int| 0 <= i < k ==> longer[i] == shorter[i],
    ensures
        outlines_of(longer, k) == outlines_of(shorter, k),
    decreases k,
{
    if k > 0 {
        lemma_outlines_prefix(longer, shorter, (k - 1) as nat);
    }
}

proof fn lemma_outlines_len(entries: Seq<Entry>, k: nat)
    requires
        k <= entries.len(),
    ensures
        outlines_of(entries, k).len() == k,
        forall|i: int| 0 <= i < k ==> #[trigger] outlines_of(entries, k)[i] == outline_of(entries[i]),
    decreases k,
{
    if k > 0 {
        lemma_outlines_len(entries, (k - 1) as nat);
    }
}

/// `entry` placed in `forest` as [`insert`] places it.
fn insert_into(forest: &mut Vec<Entry>, entry: Entry)
    ensures
        outlines(final(forest)@) == insert(outlines(old(forest)@), outline_of(entry)),
    decreases *old(forest),
{
    let ghost before = outlines(forest@);
    proof {
        lemma_outlines_len(forest@, forest@.len());
    }
    let n = forest.len();
    if n > 0 && forest[n - 1].range.start <= entry.range.start && entry.range.end <= forest[n - 1].range.end {
        let mut last = forest.pop().unwrap();
        let ghost rest = forest@;
        proof {
            assert(old(forest)@ =~= rest.push(last));
            lemma_outlines_push(rest, last);
            assert(before.last() == outline_of(last));
        }
        let ghost last_before = outline_of(last);
        proof {
            let v = *old(forest);
            assert(decreases_to!(v => v@));
            assert(decreases_to!(v@ => v@[v@.len() - 1]));
            assert(v@[v@.len() - 1] == last);
            assert(decreases_to!(last => last.children));
        }
        insert_into(&mut last.children, entry);
        let ghost last_after = outline_of(last);
        assert(last_after == Outline { children: insert(last_before.children, outline_of(entry)), ..last_before });
        forest.push(last);
        proof {
            lemma_outlines_push(rest, last);
            assert(outlines(forest@) =~= before.update(before.len() - 1, last_after));
        }
    } else {
        forest.push(entry);
        proof {
            lemma_outlines_push(old(forest)@, entry);
        }
    }
}

/// Nest entries by containment: each becomes a child of the innermost
/// entry that covers it on the branch most recently added to, and the rest
/// stay roots. Given in document order with the widest first where two
/// start together, a parent always comes before its children.
pub fn nest(entries: Vec<Entry>) -> (roots: Vec<Entry>)
    ensures
        outlines(roots@) == nested(outlines(entries@), entries@.len()),
{
    let ghost all = entries@;
    let ghost views = outlines(all);
    proof {
        lemma_outlines_len(all, all.len());
    }
    let n = entries.len();
    let mut entries = entries;
    // The entries, last first.
    let mut reversed: Vec<Entry> = Vec::new();
    while entries.len() > 0
        invariant
            entries@.len() + reversed@.len() == all.len(),
            forall|i: int| 0 <= i < entries@.len() ==> entries@[i] == all[i],
            forall|i: int| 0 <= i < reversed@.len() ==> reversed@[i] == all[all.len() - 1 - i],
        decreases entries@.len(),
    {
        let e = entries.pop().unwrap();
        reversed.push(e);
    }
    let mut roots: Vec<Entry> = Vec::new();
    let mut k: usize = 0;
    while reversed.len() > 0
        invariant
            k + reversed@.len() == all.len(),
            all.len() == n,
            forall|i: int| 0 <= i < reversed@.len() ==> reversed@[i] == all[all.len() - 1 - i],
            views == outlines(all),
            views.len() == all.len(),
            forall|i: int| 0 <= i < all.len() ==> #[trigger] views[i] == outline_of(all[i]),
            outlines(roots@) == nested(views, k as nat),
        decreases reversed@.len(),
    {
        let e = reversed.pop().unwrap();
        assert(e == all[k as int]);
        insert_into(&mut roots, e);
        k = k + 1;
    }
    roots
}

/// How an entry found by the walk gets its end: a chapter and a verse run
/// until something else starts; a book, a sidebar and a `\periph` carry
/// their own extent.
#[derive(Debug, Clone, Copy, PartialEq, Eq, Structural)]
pub enum FoundKind {
    Chapter,
    Verse,
    Extent,
}

/// An entry as the walk finds it, before its end is known, with the end of
/// the block container it is written in.
pub struct Found {
    pub entry: Entry,
    pub kind: FoundKind,
    pub container_end: u32,
}

/// A found entry as values.
pub struct FoundView {
    pub entry: Outline,
    pub kind: FoundKind,
    pub container_end: u32,
}

pub open spec fn found_view(f: Found) -> FoundView {
    FoundView { entry: outline_of(f.entry), kind: f.kind, container_end: f.container_end }
}

/// A list of found entries as values.
pub open spec fn found_views(found: Seq<Found>) -> Seq<FoundView> {
    Seq::new(found.len(), |i: int| found_view(found[i]))
}

/// A leaf entry.
pub open spec fn leaf(name: Seq<char>, detail: Option<Seq<char>>, kind: SymbolKind, range: Span, selection: Span) -> Outline {
    Outline { name, detail, kind, range, selection, children: seq![] }
}

/// A detail, unless it is empty.
pub open spec fn non_empty(text: Seq<char>) -> Option<Seq<char>> {
    if text.len() > 0 {
        Some(text)
    } else {
        None
    }
}

/// Where a block container's own marker ends: its backslash and its name,
/// but never past the node.
pub open spec fn marker_span(marker: Seq<char>, span: Span) -> Span {
    let end = span.start + 1 + byte_len(marker);
    Span { start: span.start, end: if end < span.end { end as u32 } else { span.end } }
}

/// A verse's entry.
pub open spec fn verse_found(v: VerseStart, container_end: u32) -> FoundView {
    FoundView {
        entry: leaf(number_spelling(v.number), None, SymbolKind::Key, v.span, v.span),
        kind: FoundKind::Verse,
        container_end,
    }
}

/// The entries in an inline node: its verses, at any depth.
pub open spec fn inline_found(node: Inline, container_end: u32) -> Seq<FoundView>
    decreases node, 0nat,
{
    match node {
        Inline::VerseStart(v) => seq![verse_found(v, container_end)],
        Inline::Char(c) => inlines_found(c.children@, c.children@.len(), container_end),
        Inline::Note(n) => inlines_found(n.children@, n.children@.len(), container_end),
        _ => seq![],
    }
}

/// The entries in the first `k` nodes of a list.
pub open spec fn inlines_found(nodes: Seq<Inline>, k: nat, container_end: u32) -> Seq<FoundView>
    decreases nodes, k,
{
    if k == 0 || k > nodes.len() {
        seq![]
    } else {
        inlines_found(nodes, (k - 1) as nat, container_end) + inline_found(nodes[k - 1], container_end)
    }
}

/// The entries in the first `k` cells of a row.
pub open spec fn cells_found(cells: Seq<TableCell>, k: nat, container_end: u32) -> Seq<FoundView>
    decreases k,
{
    if k == 0 || k > cells.len() {
        seq![]
    } else {
        cells_found(cells, (k - 1) as nat, container_end) + inlines_found(
            cells[k - 1].children@,
            cells[k - 1].children@.len(),
            container_end,
        )
    }
}

/// The entries in the first `k` rows of a table.
pub open spec fn rows_found(rows: Seq<TableRow>, k: nat, container_end: u32) -> Seq<FoundView>
    decreases k,
{
    if k == 0 || k > rows.len() {
        seq![]
    } else {
        rows_found(rows, (k - 1) as nat, container_end) + cells_found(
            rows[k - 1].cells@,
            rows[k - 1].cells@.len(),
            container_end,
        )
    }
}

/// The entries in a block; `book` when a book line here is the outline's
/// book: the first one, at the top of the document.
pub open spec fn block_found(sheet: StyleSheet, block: Block, container_end: u32, document_end: u32, book: bool) -> Seq<FoundView>
    decreases block, 0nat,
{
    match block {
        Block::Book(b) => if book {
            seq![
                FoundView {
                    entry: leaf(
                        code_spelling(b.code),
                        non_empty(trimmed(b.description@)),
                        SymbolKind::Module,
                        Span { start: b.span.start, end: if document_end < b.span.end { b.span.end } else { document_end } },
                        b.span,
                    ),
                    kind: FoundKind::Extent,
                    container_end,
                },
            ]
        } else {
            seq![]
        },
        Block::ChapterStart(c) => seq![
            FoundView {
                entry: leaf("Chapter "@ + decimal(c.number as nat), None, SymbolKind::Namespace, c.span, c.span),
                kind: FoundKind::Chapter,
                container_end,
            },
        ],
        Block::Para(p) => inlines_found(p.children@, p.children@.len(), container_end),
        Block::Table(t) => rows_found(t.rows@, t.rows@.len(), container_end),
        Block::Sidebar(sb) => seq![
            FoundView {
                entry: leaf(
                    "Sidebar"@,
                    match sb.category {
                        Some(c) => non_empty(trimmed(c.content@)),
                        None => None,
                    },
                    SymbolKind::Object,
                    sb.span,
                    marker_span(marker_of(sheet, sb.style.0), sb.span),
                ),
                kind: FoundKind::Extent,
                container_end,
            },
        ] + blocks_found(sheet, sb.blocks@, sb.blocks@.len(), sb.span.end, document_end),
        Block::Periph(pb) => {
            let title = match pb.title {
                Some(t) => trimmed(t.content@),
                None => seq![],
            };
            seq![
                FoundView {
                    entry: leaf(
                        if title.len() == 0 {
                            "Periph"@
                        } else {
                            "Periph "@ + title
                        },
                        None,
                        SymbolKind::Object,
                        pb.span,
                        marker_span(marker_of(sheet, pb.style.0), pb.span),
                    ),
                    kind: FoundKind::Extent,
                    container_end,
                },
            ] + blocks_found(sheet, pb.blocks@, pb.blocks@.len(), pb.span.end, document_end)
        },
        _ => seq![],
    }
}

/// The entries in the first `k` blocks of a container's list, where no
/// book line is the outline's book.
pub open spec fn blocks_found(sheet: StyleSheet, blocks: Seq<Block>, k: nat, container_end: u32, document_end: u32) -> Seq<FoundView>
    decreases blocks, k,
{
    if k == 0 || k > blocks.len() {
        seq![]
    } else {
        blocks_found(sheet, blocks, (k - 1) as nat, container_end, document_end) + block_found(
            sheet,
            blocks[k - 1],
            container_end,
            document_end,
            false,
        )
    }
}

/// Whether one of the first `k` blocks is a book line.
pub open spec fn book_before(blocks: Seq<Block>, k: int) -> bool {
    exists|i: int| 0 <= i < k && blocks[i] is Book
}

/// The entries in the first `k` blocks of the document.
pub open spec fn top_found(sheet: StyleSheet, blocks: Seq<Block>, k: nat, document_end: u32) -> Seq<FoundView>
    decreases k,
{
    if k == 0 || k > blocks.len() {
        seq![]
    } else {
        top_found(sheet, blocks, (k - 1) as nat, document_end) + block_found(
            sheet,
            blocks[k - 1],
            document_end,
            document_end,
            !book_before(blocks, k - 1),
        )
    }
}

/// Every entry the document has, flat and in document order, each with
/// the end of the container it is written in.
pub open spec fn document_found(document: Document) -> Seq<FoundView> {
    top_found(*document.style_sheet, document.blocks@, document.blocks@.len(), document.span.end)
}

proof fn lemma_found_push(found: Seq<Found>, f: Found)
    ensures
        found_views(found.push(f)) == found_views(found).push(found_view(f)),
{
    assert(found_views(found.push(f)) =~= found_views(found).push(found_view(f)));
}

/// A leaf entry.
fn make_leaf(name: String, detail: Option<String>, kind: SymbolKind, range: Span, selection: Span) -> (entry: Entry)
    ensures
        outline_of(entry) == leaf(
            name@,
            match detail {
                Some(d) => Some(d@),
                None => None,
            },
            kind,
            range,
            selection,
        ),
{
    let entry = Entry { name, detail, kind, range, selection, children: Vec::new() };
    assert(outline_of(entry).children =~= seq![]);
    entry
}

/// A string holding `text`.
fn owned(text: &str) -> (s: String)
    ensures
        s@ == text@,
{
    let mut s = String::new();
    push_str(&mut s, text);
    assert(s@ =~= text@);
    s
}

/// A detail from a text: the text trimmed, unless that leaves nothing.
fn detail_of(text: &str) -> (detail: Option<String>)
    ensures
        match detail {
            Some(d) => non_empty(trimmed(text@)) == Some(d@),
            None => non_empty(trimmed(text@)) is None,
        },
{
    let t = trim(text);
    if t.is_empty() {
        None
    } else {
        Some(owned(t))
    }
}

/// Where a container's marker ends, as [`marker_span`] says.
fn marker_span_of(marker: &str, span: Span) -> (s: Span)
    ensures
        s == marker_span(marker@, span),
{
    proof {
        crate::actions::lemma_encoded_len(marker@);
    }
    let m = marker.as_bytes().len();
    if (m as u64) < (span.end as u64) && (span.start as u64) + 1 + (m as u64) < (span.end as u64) {
        Span { start: span.start, end: span.start + 1 + m as u32 }
    } else {
        Span { start: span.start, end: span.end }
    }
}

fn push_entry(out: &mut Vec<Found>, entry: Entry, kind: FoundKind, container_end: u32)
    ensures
        found_views(final(out)@) == found_views(old(out)@).push(FoundView { entry: outline_of(entry), kind, container_end }),
{
    let f = Found { entry, kind, container_end };
    proof {
        lemma_found_push(out@, f);
    }
    out.push(f);
}

fn found_inline(node: &Inline, container_end: u32, out: &mut Vec<Found>)
    ensures
        found_views(final(out)@) == found_views(old(out)@) + inline_found(*node, container_end),
    decreases node,
{
    let ghost start = found_views(out@);
    match node {
        Inline::VerseStart(v) => {
            let mut name = String::new();
            push_number(&mut name, &v.number);
            push_entry(out, make_leaf(name, None, SymbolKind::Key, v.span, v.span), FoundKind::Verse, container_end);
        },
        Inline::Char(c) => found_inlines(&c.children, container_end, out),
        Inline::Note(n) => found_inlines(&n.children, container_end, out),
        _ => {},
    }
    assert(found_views(out@) =~= start + inline_found(*node, container_end));
}

fn found_inlines(nodes: &Vec<Inline>, container_end: u32, out: &mut Vec<Found>)
    ensures
        found_views(final(out)@) == found_views(old(out)@) + inlines_found(nodes@, nodes@.len(), container_end),
    decreases nodes,
{
    let ghost start = found_views(out@);
    let mut k: usize = 0;
    while k < nodes.len()
        invariant
            k <= nodes@.len(),
            found_views(out@) == start + inlines_found(nodes@, k as nat, container_end),
        decreases nodes@.len() - k,
    {
        proof {
            assert(decreases_to!(nodes => nodes@));
            assert(decreases_to!(nodes@ => nodes@[k as int]));
        }
        found_inline(&nodes[k], container_end, out);
        assert(found_views(out@) =~= start + inlines_found(nodes@, (k + 1) as nat, container_end));
        k = k + 1;
    }
}

fn found_table(rows: &Vec<TableRow>, container_end: u32, out: &mut Vec<Found>)
    ensures
        found_views(final(out)@) == found_views(old(out)@) + rows_found(rows@, rows@.len(), container_end),
{
    let ghost start = found_views(out@);
    let mut k: usize = 0;
    while k < rows.len()
        invariant
            k <= rows@.len(),
            found_views(out@) == start + rows_found(rows@, k as nat, container_end),
        decreases rows@.len() - k,
    {
        let cells = &rows[k].cells;
        let ghost row_start = found_views(out@);
        let mut c: usize = 0;
        while c < cells.len()
            invariant
                c <= cells@.len(),
                found_views(out@) == row_start + cells_found(cells@, c as nat, container_end),
            decreases cells@.len() - c,
        {
            found_inlines(&cells[c].children, container_end, out);
            assert(found_views(out@) =~= row_start + cells_found(cells@, (c + 1) as nat, container_end));
            c = c + 1;
        }
        assert(rows@[k as int].cells@ == cells@);
        assert(found_views(out@) =~= start + rows_found(rows@, (k + 1) as nat, container_end));
        k = k + 1;
    }
}

#[verifier::spinoff_prover]
fn found_block(sheet: &StyleSheet, block: &Block, container_end: u32, document_end: u32, book: bool, out: &mut Vec<Found>)
    requires
        block_styles_below(*block, sheet.rules@.len()),
    ensures
        found_views(final(out)@) == found_views(old(out)@) + block_found(*sheet, *block, container_end, document_end, book),
    decreases block,
{
    let ghost start = found_views(out@);
    match block {
        Block::Book(b) => {
            if book {
                let mut name = String::new();
                push_code(&mut name, b.code);
                let detail = detail_of(b.description.as_str());
                let end = if document_end < b.span.end {
                    b.span.end
                } else {
                    document_end
                };
                let entry = make_leaf(name, detail, SymbolKind::Module, Span { start: b.span.start, end }, b.span);
                push_entry(out, entry, FoundKind::Extent, container_end);
            }
        },
        Block::ChapterStart(c) => {
            let mut name = String::new();
            push_str(&mut name, "Chapter ");
            push_decimal(&mut name, c.number);
            push_entry(out, make_leaf(name, None, SymbolKind::Namespace, c.span, c.span), FoundKind::Chapter, container_end);
        },
        Block::Para(p) => found_inlines(&p.children, container_end, out),
        Block::Table(t) => found_table(&t.rows, container_end, out),
        Block::Sidebar(sb) => {
            let mut name = String::new();
            push_str(&mut name, "Sidebar");
            let detail = match &sb.category {
                Some(c) => detail_of(c.content.as_str()),
                None => None,
            };
            let selection = marker_span_of(sheet.rules[sb.style.0 as usize].marker.as_str(), sb.span);
            push_entry(out, make_leaf(name, detail, SymbolKind::Object, sb.span, selection), FoundKind::Extent, container_end);
            proof {
                lemma_block_styles(sb.blocks@, sheet.rules@.len());
            }
            found_blocks(sheet, &sb.blocks, sb.span.end, document_end, out);
        },
        Block::Periph(pb) => {
            let mut name = String::new();
            let title = match &pb.title {
                Some(t) => trim(t.content.as_str()),
                None => "",
            };
            proof {
                reveal_strlit("");
            }
            if title.is_empty() {
                push_str(&mut name, "Periph");
            } else {
                push_str(&mut name, "Periph ");
                push_str(&mut name, title);
            }
            assert(name@ =~= if title@.len() == 0 {
                "Periph"@
            } else {
                "Periph "@ + title@
            });
            let selection = marker_span_of(sheet.rules[pb.style.0 as usize].marker.as_str(), pb.span);
            push_entry(out, make_leaf(name, None, SymbolKind::Object, pb.span, selection), FoundKind::Extent, container_end);
            proof {
                lemma_block_styles(pb.blocks@, sheet.rules@.len());
            }
            found_blocks(sheet, &pb.blocks, pb.span.end, document_end, out);
        },
        _ => {},
    }
    assert(found_views(out@) =~= start + block_found(*sheet, *block, container_end, document_end, book));
}

fn found_blocks(sheet: &StyleSheet, blocks: &Vec<Block>, container_end: u32, document_end: u32, out: &mut Vec<Found>)
    requires
        blocks_styles_below(blocks@, sheet.rules@.len()),
    ensures
        found_views(final(out)@) == found_views(old(out)@) + blocks_found(*sheet, blocks@, blocks@.len(), container_end, document_end),
    decreases blocks,
{
    let ghost start = found_views(out@);
    let mut k: usize = 0;
    while k < blocks.len()
        invariant
            k <= blocks@.len(),
            blocks_styles_below(blocks@, sheet.rules@.len()),
            found_views(out@) == start + blocks_found(*sheet, blocks@, k as nat, container_end, document_end),
        decreases blocks@.len() - k,
    {
        assert(block_styles_below(blocks@[k as int], sheet.rules@.len()));
        proof {
            assert(decreases_to!(blocks => blocks@));
            assert(decreases_to!(blocks@ => blocks@[k as int]));
        }
        found_block(sheet, &blocks[k], container_end, document_end, false, out);
        assert(found_views(out@) =~= start + blocks_found(*sheet, blocks@, (k + 1) as nat, container_end, document_end));
        k = k + 1;
    }
}

/// Every entry the document has, flat and in document order, each with the
/// end of the container it is written in.
pub fn found(document: &Document) -> (found: Vec<Found>)
    requires
        document.wf(),
    ensures
        found_views(found@) == document_found(*document),
{
    let sheet: &StyleSheet = &document.style_sheet;
    let blocks = &document.blocks;
    let end = document.span.end;
    let mut out: Vec<Found> = Vec::new();
    let mut book_seen = false;
    let mut k: usize = 0;
    assert(found_views(out@) =~= seq![]);
    while k < blocks.len()
        invariant
            k <= blocks@.len(),
            blocks == &document.blocks,
            sheet == &*document.style_sheet,
            blocks_styles_below(blocks@, sheet.rules@.len()),
            book_seen == book_before(blocks@, k as int),
            found_views(out@) == top_found(*sheet, blocks@, k as nat, end),
        decreases blocks@.len() - k,
    {
        assert(block_styles_below(blocks@[k as int], sheet.rules@.len()));
        let is_book = matches!(blocks[k], Block::Book(_));
        found_block(sheet, &blocks[k], end, end, !book_seen, &mut out);
        if is_book {
            book_seen = true;
        }
        assert(book_seen == book_before(blocks@, (k + 1) as int)) by {
            if book_before(blocks@, k as int) {
                let i = choose|i: int| 0 <= i < k && blocks@[i] is Book;
                assert(0 <= i < k + 1 && blocks@[i] is Book);
            }
            if is_book {
                assert(blocks@[k as int] is Book);
            }
        }
        k = k + 1;
    }
    out
}

/// Where the next entry of `kind` after `i` starts, or `u32::MAX` when none
/// follows.
pub open spec fn next_after(found: Seq<FoundView>, kind: FoundKind, i: int) -> u32
    decreases found.len() - i,
{
    if i + 1 >= found.len() {
        u32::MAX
    } else if found[i + 1].kind == kind {
        found[i + 1].entry.range.start
    } else {
        next_after(found, kind, i + 1)
    }
}

/// Where the last chapter before `i` ends, or `u32::MAX` before any.
pub open spec fn chapter_end_before(found: Seq<FoundView>, i: int) -> u32
    decreases i,
{
    if i <= 0 || i > found.len() {
        u32::MAX
    } else if found[i - 1].kind == FoundKind::Chapter {
        found[i - 1].entry.range.end
    } else {
        chapter_end_before(found, i - 1)
    }
}

/// The smaller of two offsets.
pub open spec fn min_u32(a: u32, b: u32) -> u32 {
    if a < b {
        a
    } else {
        b
    }
}

/// Entry `i` with its end found, if it is of `kind`: it runs to the next
/// entry of its kind, stopped by the end of its container and, for a verse,
/// by the end of the last chapter before it; never shorter than its own
/// span.
pub open spec fn ended(found: Seq<FoundView>, kind: FoundKind, i: int) -> FoundView {
    let f = found[i];
    if f.kind != kind {
        f
    } else {
        let chapter_end = if kind == FoundKind::Verse {
            chapter_end_before(found, i)
        } else {
            u32::MAX
        };
        let limit = min_u32(min_u32(next_after(found, kind, i), f.container_end), chapter_end);
        let end = if limit < f.entry.range.end {
            f.entry.range.end
        } else {
            limit
        };
        FoundView { entry: Outline { range: Span { start: f.entry.range.start, end }, ..f.entry }, ..f }
    }
}

/// Every entry of `kind` with its end found.
pub open spec fn ends_found(found: Seq<FoundView>, kind: FoundKind) -> Seq<FoundView> {
    Seq::new(found.len(), |i: int| ended(found, kind, i))
}

/// The entries of the first `k` found with a range that is not empty.
pub open spec fn kept(found: Seq<FoundView>, k: nat) -> Seq<Outline>
    decreases k,
{
    if k == 0 || k > found.len() {
        seq![]
    } else {
        kept(found, (k - 1) as nat) + if found[k - 1].entry.range.start < found[k - 1].entry.range.end {
            seq![found[k - 1].entry]
        } else {
            seq![]
        }
    }
}

/// Whether `a` comes no later than `b`: it starts earlier, or at the same
/// place and ends no earlier, so that a parent comes before its children.
pub open spec fn comes_first(a: Outline, b: Outline) -> bool {
    a.range.start < b.range.start || (a.range.start == b.range.start && a.range.end >= b.range.end)
}

/// `sorted` with `e` placed after every entry that comes no later: one step
/// of a stable sort.
pub open spec fn insert_in_order(sorted: Seq<Outline>, e: Outline) -> Seq<Outline>
    decreases sorted.len(),
{
    if sorted.len() == 0 {
        seq![e]
    } else if comes_first(sorted.last(), e) {
        sorted.push(e)
    } else {
        insert_in_order(sorted.drop_last(), e).push(sorted.last())
    }
}

/// A list in document order, the widest first where two start together,
/// keeping the order of entries with the same range.
pub open spec fn in_order(list: Seq<Outline>) -> Seq<Outline>
    decreases list.len(),
{
    if list.len() == 0 {
        seq![]
    } else {
        insert_in_order(in_order(list.drop_last()), list.last())
    }
}

/// Every entry of the document, flat: ends found for chapters, then for
/// verses, the empty ones left out, in document order with the widest
/// first.
pub open spec fn document_entries(document: Document) -> Seq<Outline> {
    let found = ends_found(ends_found(document_found(document), FoundKind::Chapter), FoundKind::Verse);
    in_order(kept(found, found.len()))
}

/// The document's outline.
pub open spec fn document_outline(document: Document) -> Seq<Outline> {
    let entries = document_entries(document);
    nested(entries, entries.len())
}

fn smaller(a: u32, b: u32) -> (m: u32)
    ensures
        m == min_u32(a, b),
{
    if a < b {
        a
    } else {
        b
    }
}

/// Every entry of `kind` with its end found, as [`ends_found`] says.
fn find_ends(found: Vec<Found>, kind: FoundKind) -> (result: Vec<Found>)
    ensures
        found_views(result@) == ends_found(found_views(found@), kind),
{
    let ghost views = found_views(found@);
    let n = found.len();
    // `nexts[n - 1 - i]` is where the next entry of `kind` after `i` starts.
    let mut nexts: Vec<u32> = Vec::new();
    let mut next: u32 = u32::MAX;
    let mut i: usize = n;
    while i > 0
        invariant
            i <= n,
            n == found@.len(),
            views == found_views(found@),
            nexts@.len() == n - i,
            next == next_after(views, kind, i - 1),
            forall|j: int| i <= j < n ==> #[trigger] nexts@[n - 1 - j] == next_after(views, kind, j),
        decreases i,
    {
        i = i - 1;
        nexts.push(next);
        if found[i].kind == kind {
            next = found[i].entry.range.start;
        }
        assert(nexts@[n - 1 - i as int] == next_after(views, kind, i as int));
    }
    let mut rest = found;
    let mut reversed: Vec<Found> = Vec::new();
    while rest.len() > 0
        invariant
            rest@.len() + reversed@.len() == n,
            n == found@.len(),
            forall|j: int| 0 <= j < rest@.len() ==> rest@[j] == found@[j],
            forall|j: int| 0 <= j < reversed@.len() ==> reversed@[j] == found@[n - 1 - j],
        decreases rest@.len(),
    {
        let f = rest.pop().unwrap();
        reversed.push(f);
    }
    let mut result: Vec<Found> = Vec::new();
    let mut chapter_end: u32 = u32::MAX;
    let mut k: usize = 0;
    while reversed.len() > 0
        invariant
            k + reversed@.len() == n,
            n == found@.len(),
            views == found_views(found@),
            nexts@.len() == n,
            forall|j: int| 0 <= j < n ==> #[trigger] nexts@[n - 1 - j] == next_after(views, kind, j),
            forall|j: int| 0 <= j < reversed@.len() ==> reversed@[j] == found@[n - 1 - j],
            kind == FoundKind::Verse ==> chapter_end == chapter_end_before(views, k as int),
            found_views(result@) == ends_found(views, kind).take(k as int),
        decreases reversed@.len(),
    {
        let mut f = reversed.pop().unwrap();
        assert(f == found@[k as int]);
        let ghost fv = views[k as int];
        if matches!(f.kind, FoundKind::Chapter) && matches!(kind, FoundKind::Verse) {
            chapter_end = f.entry.range.end;
        }
        if f.kind == kind {
            let limit_chapter = if matches!(kind, FoundKind::Verse) {
                chapter_end
            } else {
                u32::MAX
            };
            let limit = smaller(smaller(nexts[n - 1 - k], f.container_end), limit_chapter);
            let end = if limit < f.entry.range.end {
                f.entry.range.end
            } else {
                limit
            };
            f.entry.range = Span { start: f.entry.range.start, end };
        }
        proof {
            lemma_found_push(result@, f);
        }
        result.push(f);
        assert(found_views(result@) =~= ends_found(views, kind).take(k + 1));
        k = k + 1;
    }
    assert(ends_found(views, kind).take(n as int) =~= ends_found(views, kind));
    result
}

/// The entries of a list as values, element by element.
proof fn lemma_outlines(entries: Seq<Entry>)
    ensures
        outlines(entries) =~= Seq::new(entries.len(), |i: int| outline_of(entries[i])),
{
    lemma_outlines_len(entries, entries.len());
}

/// The entries of the found list with a range that is not empty.
fn keep_nonempty(found: Vec<Found>) -> (entries: Vec<Entry>)
    ensures
        outlines(entries@) == kept(found_views(found@), found@.len()),
{
    let ghost views = found_views(found@);
    let n = found.len();
    let mut rest = found;
    let mut reversed: Vec<Found> = Vec::new();
    while rest.len() > 0
        invariant
            rest@.len() + reversed@.len() == n,
            n == found@.len(),
            forall|j: int| 0 <= j < rest@.len() ==> rest@[j] == found@[j],
            forall|j: int| 0 <= j < reversed@.len() ==> reversed@[j] == found@[n - 1 - j],
        decreases rest@.len(),
    {
        let f = rest.pop().unwrap();
        reversed.push(f);
    }
    let mut entries: Vec<Entry> = Vec::new();
    let mut k: usize = 0;
    while reversed.len() > 0
        invariant
            k + reversed@.len() == n,
            n == found@.len(),
            views == found_views(found@),
            forall|j: int| 0 <= j < reversed@.len() ==> reversed@[j] == found@[n - 1 - j],
            outlines(entries@) == kept(views, k as nat),
        decreases reversed@.len(),
    {
        let f = reversed.pop().unwrap();
        assert(f == found@[k as int]);
        assert(views[k as int] == found_view(f));
        if f.entry.range.start < f.entry.range.end {
            proof {
                lemma_outlines_push(entries@, f.entry);
            }
            entries.push(f.entry);
        }
        assert(outlines(entries@) =~= kept(views, (k + 1) as nat));
        k = k + 1;
    }
    entries
}

/// Placing `e` at `j`, after everything that comes no later and before the
/// rest, is the step of [`insert_in_order`].
proof fn lemma_insert_in_order_at(sorted: Seq<Outline>, e: Outline, j: int)
    requires
        0 <= j <= sorted.len(),
        forall|i: int| j <= i < sorted.len() ==> !comes_first(#[trigger] sorted[i], e),
        j == 0 || comes_first(sorted[j - 1], e),
    ensures
        insert_in_order(sorted, e) == sorted.take(j).push(e) + sorted.skip(j),
    decreases sorted.len(),
{
    if sorted.len() == j {
        assert(sorted.take(j) =~= sorted);
        assert(sorted.take(j).push(e) + sorted.skip(j) =~= sorted.push(e));
    } else {
        let shorter = sorted.drop_last();
        lemma_insert_in_order_at(shorter, e, j);
        assert(shorter.take(j) =~= sorted.take(j));
        assert(sorted.take(j).push(e) + sorted.skip(j) =~= (shorter.take(j).push(e) + shorter.skip(j)).push(
            sorted.last(),
        ));
    }
}

/// A stable sort into document order, the widest first where two start
/// together.
fn sort_in_order(list: Vec<Entry>) -> (sorted: Vec<Entry>)
    ensures
        outlines(sorted@) == in_order(outlines(list@)),
{
    let ghost all = outlines(list@);
    proof {
        lemma_outlines(list@);
    }
    let n = list.len();
    let mut rest = list;
    let mut sorted: Vec<Entry> = Vec::new();
    let mut k: usize = 0;
    assert(all.take(0) =~= Seq::<Outline>::empty());
    while rest.len() > 0
        invariant
            n == all.len(),
            k + rest@.len() == n,
            forall|i: int| 0 <= i < rest@.len() ==> outline_of(rest@[i]) == all[k + i],
            outlines(sorted@) == in_order(all.take(k as int)),
        decreases rest@.len(),
    {
        let e = rest.remove(0);
        assert(outline_of(e) == all[k as int]);
        proof {
            lemma_outlines(sorted@);
        }
        let mut j = sorted.len();
        while j > 0 && !(sorted[j - 1].range.start < e.range.start || (sorted[j - 1].range.start
            == e.range.start && sorted[j - 1].range.end >= e.range.end))
            invariant
                j <= sorted@.len(),
                outlines(sorted@) =~= Seq::new(sorted@.len(), |i: int| outline_of(sorted@[i])),
                forall|i: int| j <= i < sorted@.len() ==> !comes_first(#[trigger] outlines(sorted@)[i], outline_of(e)),
            decreases j,
        {
            j = j - 1;
        }
        let ghost before = outlines(sorted@);
        proof {
            lemma_insert_in_order_at(before, outline_of(e), j as int);
            assert(all.take(k + 1).drop_last() =~= all.take(k as int));
            assert(all.take(k + 1).last() == outline_of(e));
        }
        let ghost before_entries = sorted@;
        sorted.insert(j, e);
        proof {
            lemma_outlines(sorted@);
            assert(outlines(sorted@) =~= before.take(j as int).push(outline_of(e)) + before.skip(j as int));
        }
        k = k + 1;
    }
    assert(all.take(k as int) =~= all);
    sorted
}

/// Every entry of the document, flat, in document order with the widest
/// first where two start together: chapters run to the next chapter,
/// verses to the next verse or the end of their chapter, both stopped by
/// the end of their container; the empty ones are left out.
pub fn entries(document: &Document) -> (entries: Vec<Entry>)
    requires
        document.wf(),
    ensures
        outlines(entries@) == document_entries(*document),
{
    let found = found(document);
    let found = find_ends(found, FoundKind::Chapter);
    let found = find_ends(found, FoundKind::Verse);
    let kept = keep_nonempty(found);
    sort_in_order(kept)
}

/// The outline of `document`: its entries nested by containment.
pub fn symbols(document: &Document) -> (outline: Vec<Entry>)
    requires
        document.wf(),
    ensures
        outlines(outline@) == document_outline(*document),
{
    let flat = entries(document);
    proof {
        lemma_outlines_len(flat@, flat@.len());
    }
    nest(flat)
}

/// An entry without its children.
pub open spec fn alone(o: Outline) -> Outline {
    Outline { children: seq![], ..o }
}

/// A forest in pre-order: each entry, without its children, followed by
/// what is under it.
pub open spec fn flattened(forest: Seq<Outline>) -> Seq<Outline>
    decreases forest,
{
    if forest.len() == 0 {
        seq![]
    } else {
        let last = forest.last();
        proof {
            assert(decreases_to!(forest => forest[forest.len() - 1]));
        }
        flattened(forest.subrange(0, forest.len() - 1)) + seq![alone(last)] + flattened(last.children)
    }
}

/// Every entry of a forest lies inside its parent, at every depth.
pub open spec fn well_nested(forest: Seq<Outline>) -> bool
    decreases forest,
{
    if forest.len() == 0 {
        true
    } else {
        let last = forest.last();
        proof {
            assert(decreases_to!(forest => forest[forest.len() - 1]));
        }
        &&& well_nested(forest.subrange(0, forest.len() - 1))
        &&& (forall|j: int| 0 <= j < last.children.len() ==> covers(last.range, #[trigger] last.children[j].range))
        &&& well_nested(last.children)
    }
}

/// Inserting keeps the ranges of the roots, and adds at most the entry
/// itself as a new last root.
proof fn lemma_insert_roots(forest: Seq<Outline>, e: Outline)
    ensures
        ({
            let r = insert(forest, e);
            ||| (r.len() == forest.len() && forall|i: int| 0 <= i < forest.len() ==> #[trigger] r[i].range == forest[i].range)
            ||| (r == forest.push(e))
        }),
{
}

proof fn lemma_flattened_push(forest: Seq<Outline>, o: Outline)
    ensures
        flattened(forest.push(o)) == flattened(forest) + seq![alone(o)] + flattened(o.children),
{
    assert(forest.push(o).subrange(0, forest.len() as int) =~= forest);
}

/// Inserting a leaf puts it last in pre-order.
proof fn lemma_insert_flattened(forest: Seq<Outline>, e: Outline)
    requires
        e.children == Seq::<Outline>::empty(),
    ensures
        flattened(insert(forest, e)) == flattened(forest).push(e),
    decreases forest,
{
    if forest.len() > 0 && covers(forest.last().range, e.range) {
        let last = forest.last();
        let init = forest.subrange(0, forest.len() - 1);
        assert(decreases_to!(forest => forest[forest.len() - 1]));
        lemma_insert_flattened(last.children, e);
        let updated = Outline { children: insert(last.children, e), ..last };
        assert(insert(forest, e) =~= init.push(updated));
        lemma_flattened_push(init, updated);
        assert(forest =~= init.push(last));
        lemma_flattened_push(init, last);
        assert(alone(updated) == alone(last));
        assert(flattened(insert(forest, e)) =~= flattened(forest).push(e));
    } else {
        lemma_flattened_push(forest, e);
        assert(flattened(e.children) =~= seq![]);
        assert(alone(e) == e);
        assert(flattened(forest.push(e)) =~= flattened(forest).push(e));
    }
}

proof fn lemma_well_nested_push(forest: Seq<Outline>, o: Outline)
    ensures
        well_nested(forest.push(o)) == (well_nested(forest) && (forall|j: int|
            0 <= j < o.children.len() ==> covers(o.range, #[trigger] o.children[j].range)) && well_nested(o.children)),
{
    assert(forest.push(o).subrange(0, forest.len() as int) =~= forest);
}

/// Inserting a leaf keeps every entry inside its parent.
proof fn lemma_insert_well_nested(forest: Seq<Outline>, e: Outline)
    requires
        e.children == Seq::<Outline>::empty(),
        well_nested(forest),
    ensures
        well_nested(insert(forest, e)),
    decreases forest,
{
    if forest.len() > 0 && covers(forest.last().range, e.range) {
        let last = forest.last();
        let init = forest.subrange(0, forest.len() - 1);
        assert(decreases_to!(forest => forest[forest.len() - 1]));
        assert(forest =~= init.push(last));
        lemma_well_nested_push(init, last);
        lemma_insert_well_nested(last.children, e);
        lemma_insert_roots(last.children, e);
        let updated = Outline { children: insert(last.children, e), ..last };
        assert forall|j: int| 0 <= j < updated.children.len() implies covers(updated.range, #[trigger] updated.children[j].range) by {
            if updated.children == last.children.push(e) {
                if j < last.children.len() {
                    assert(updated.children[j] == last.children[j]);
                }
            } else {
                assert(updated.children[j].range == last.children[j].range);
            }
        }
        assert(insert(forest, e) =~= init.push(updated));
        lemma_well_nested_push(init, updated);
    } else {
        lemma_well_nested_push(forest, e);
        assert(well_nested(e.children));
    }
}

/// Nesting loses nothing and reorders nothing: read back in pre-order, the
/// outline is the flat list of leaf entries it was built from.
pub proof fn law_nesting_keeps_the_entries_in_order(entries: Seq<Outline>, k: nat)
    requires
        k <= entries.len(),
        forall|i: int| 0 <= i < entries.len() ==> (#[trigger] entries[i]).children == Seq::<Outline>::empty(),
    ensures
        flattened(nested(entries, k)) == entries.take(k as int),
    decreases k,
{
    if k == 0 {
        assert(entries.take(0) =~= Seq::<Outline>::empty());
    } else {
        law_nesting_keeps_the_entries_in_order(entries, (k - 1) as nat);
        lemma_insert_flattened(nested(entries, (k - 1) as nat), entries[k - 1]);
        assert(entries.take(k as int) =~= entries.take(k - 1).push(entries[k - 1]));
    }
}

/// Every entry of a nested outline lies inside its parent, which is what
/// the protocol asks of a child's range.
pub proof fn law_a_child_lies_inside_its_parent(entries: Seq<Outline>, k: nat)
    requires
        k <= entries.len(),
        forall|i: int| 0 <= i < entries.len() ==> (#[trigger] entries[i]).children == Seq::<Outline>::empty(),
    ensures
        well_nested(nested(entries, k)),
    decreases k,
{
    if k > 0 {
        law_a_child_lies_inside_its_parent(entries, (k - 1) as nat);
        lemma_insert_well_nested(nested(entries, (k - 1) as nat), entries[k - 1]);
    }
}

/// Whether every entry found is a leaf.
pub open spec fn leaves(found: Seq<FoundView>) -> bool {
    forall|i: int| 0 <= i < found.len() ==> (#[trigger] found[i]).entry.children == Seq::<Outline>::empty()
}

proof fn lemma_leaves_concat(a: Seq<FoundView>, b: Seq<FoundView>)
    requires
        leaves(a),
        leaves(b),
    ensures
        leaves(a + b),
{
    assert forall|i: int| 0 <= i < (a + b).len() implies (#[trigger] (a + b)[i]).entry.children == Seq::<Outline>::empty() by {
        if i < a.len() {
            assert((a + b)[i] == a[i]);
        } else {
            assert((a + b)[i] == b[i - a.len()]);
        }
    }
}

proof fn lemma_inline_leaves(node: Inline, container_end: u32)
    ensures
        leaves(inline_found(node, container_end)),
    decreases node, 0nat,
{
    match node {
        Inline::Char(c) => lemma_inlines_leaves(c.children@, c.children@.len(), container_end),
        Inline::Note(n) => lemma_inlines_leaves(n.children@, n.children@.len(), container_end),
        _ => {},
    }
}

proof fn lemma_inlines_leaves(nodes: Seq<Inline>, k: nat, container_end: u32)
    ensures
        leaves(inlines_found(nodes, k, container_end)),
    decreases nodes, k,
{
    if k > 0 && k <= nodes.len() {
        lemma_inlines_leaves(nodes, (k - 1) as nat, container_end);
        lemma_inline_leaves(nodes[k - 1], container_end);
        lemma_leaves_concat(inlines_found(nodes, (k - 1) as nat, container_end), inline_found(nodes[k - 1], container_end));
    }
}

proof fn lemma_cells_leaves(cells: Seq<TableCell>, k: nat, container_end: u32)
    ensures
        leaves(cells_found(cells, k, container_end)),
    decreases k,
{
    if k > 0 && k <= cells.len() {
        lemma_cells_leaves(cells, (k - 1) as nat, container_end);
        lemma_inlines_leaves(cells[k - 1].children@, cells[k - 1].children@.len(), container_end);
        lemma_leaves_concat(
            cells_found(cells, (k - 1) as nat, container_end),
            inlines_found(cells[k - 1].children@, cells[k - 1].children@.len(), container_end),
        );
    }
}

proof fn lemma_rows_leaves(rows: Seq<TableRow>, k: nat, container_end: u32)
    ensures
        leaves(rows_found(rows, k, container_end)),
    decreases k,
{
    if k > 0 && k <= rows.len() {
        lemma_rows_leaves(rows, (k - 1) as nat, container_end);
        lemma_cells_leaves(rows[k - 1].cells@, rows[k - 1].cells@.len(), container_end);
        lemma_leaves_concat(
            rows_found(rows, (k - 1) as nat, container_end),
            cells_found(rows[k - 1].cells@, rows[k - 1].cells@.len(), container_end),
        );
    }
}

proof fn lemma_block_leaves(sheet: StyleSheet, block: Block, container_end: u32, document_end: u32, book: bool)
    ensures
        leaves(block_found(sheet, block, container_end, document_end, book)),
    decreases block, 0nat,
{
    match block {
        Block::Para(p) => lemma_inlines_leaves(p.children@, p.children@.len(), container_end),
        Block::Table(t) => lemma_rows_leaves(t.rows@, t.rows@.len(), container_end),
        Block::Sidebar(sb) => {
            lemma_blocks_leaves(sheet, sb.blocks@, sb.blocks@.len(), sb.span.end, document_end);
            lemma_leaves_concat(
                seq![block_found(sheet, block, container_end, document_end, book)[0]],
                blocks_found(sheet, sb.blocks@, sb.blocks@.len(), sb.span.end, document_end),
            );
        },
        Block::Periph(pb) => {
            lemma_blocks_leaves(sheet, pb.blocks@, pb.blocks@.len(), pb.span.end, document_end);
            lemma_leaves_concat(
                seq![block_found(sheet, block, container_end, document_end, book)[0]],
                blocks_found(sheet, pb.blocks@, pb.blocks@.len(), pb.span.end, document_end),
            );
        },
        _ => {},
    }
}

proof fn lemma_blocks_leaves(sheet: StyleSheet, blocks: Seq<Block>, k: nat, container_end: u32, document_end: u32)
    ensures
        leaves(blocks_found(sheet, blocks, k, container_end, document_end)),
    decreases blocks, k,
{
    if k > 0 && k <= blocks.len() {
        lemma_blocks_leaves(sheet, blocks, (k - 1) as nat, container_end, document_end);
        lemma_block_leaves(sheet, blocks[k - 1], container_end, document_end, false);
        lemma_leaves_concat(
            blocks_found(sheet, blocks, (k - 1) as nat, container_end, document_end),
            block_found(sheet, blocks[k - 1], container_end, document_end, false),
        );
    }
}

proof fn lemma_top_leaves(sheet: StyleSheet, blocks: Seq<Block>, k: nat, document_end: u32)
    ensures
        leaves(top_found(sheet, blocks, k, document_end)),
    decreases k,
{
    if k > 0 && k <= blocks.len() {
        lemma_top_leaves(sheet, blocks, (k - 1) as nat, document_end);
        lemma_block_leaves(sheet, blocks[k - 1], document_end, document_end, !book_before(blocks, k - 1));
        lemma_leaves_concat(
            top_found(sheet, blocks, (k - 1) as nat, document_end),
            block_found(sheet, blocks[k - 1], document_end, document_end, !book_before(blocks, k - 1)),
        );
    }
}

proof fn lemma_kept_leaves(found: Seq<FoundView>, k: nat)
    requires
        leaves(found),
    ensures
        forall|i: int| 0 <= i < kept(found, k).len() ==> (#[trigger] kept(found, k)[i]).children == Seq::<Outline>::empty(),
    decreases k,
{
    if k > 0 && k <= found.len() {
        lemma_kept_leaves(found, (k - 1) as nat);
        assert(found[k - 1].entry.children == Seq::<Outline>::empty());
    }
}

proof fn lemma_in_order_leaves(list: Seq<Outline>)
    requires
        forall|i: int| 0 <= i < list.len() ==> (#[trigger] list[i]).children == Seq::<Outline>::empty(),
    ensures
        forall|i: int| 0 <= i < in_order(list).len() ==> (#[trigger] in_order(list)[i]).children == Seq::<Outline>::empty(),
    decreases list.len(),
{
    if list.len() > 0 {
        lemma_in_order_leaves(list.drop_last());
        lemma_insert_in_order_leaves(in_order(list.drop_last()), list.last());
    }
}

proof fn lemma_insert_in_order_leaves(sorted: Seq<Outline>, e: Outline)
    requires
        forall|i: int| 0 <= i < sorted.len() ==> (#[trigger] sorted[i]).children == Seq::<Outline>::empty(),
        e.children == Seq::<Outline>::empty(),
    ensures
        forall|i: int| 0 <= i < insert_in_order(sorted, e).len() ==> (#[trigger] insert_in_order(sorted, e)[i]).children == Seq::<Outline>::empty(),
    decreases sorted.len(),
{
    if sorted.len() > 0 && !comes_first(sorted.last(), e) {
        lemma_insert_in_order_leaves(sorted.drop_last(), e);
    }
}

/// A document's outline holds every entry of the document, in document
/// order read in pre-order, and every entry in it lies inside its parent.
pub proof fn law_the_outline_nests_the_entries(document: Document)
    ensures
        flattened(document_outline(document)) == document_entries(document),
        well_nested(document_outline(document)),
{
    let found = document_found(document);
    lemma_top_leaves(crate::eq::sheet_of(document), document.blocks@, document.blocks@.len(), document.span.end);
    let chapters = ends_found(found, FoundKind::Chapter);
    let verses = ends_found(chapters, FoundKind::Verse);
    assert(leaves(chapters));
    assert(leaves(verses));
    lemma_kept_leaves(verses, verses.len());
    lemma_in_order_leaves(kept(verses, verses.len()));
    let entries = document_entries(document);
    law_nesting_keeps_the_entries_in_order(entries, entries.len());
    law_a_child_lies_inside_its_parent(entries, entries.len());
    assert(entries.take(entries.len() as int) =~= entries);
}

} // verus!
