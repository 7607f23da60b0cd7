//! Every node below a node, in document order, each with its path.
use vstd::prelude::*;
use crate::ast::{Block, Inline, TableRow};
use crate::cursor::{block_ref, inline_ref, NodeRef};

verus! {

/// One node and the path to it.
pub type Entry<'a> = (Vec<usize>, NodeRef<'a>);

/// Entries as plain values.
pub open spec fn entries_view<'a>(entries: Seq<Entry<'a>>) -> Seq<(Seq<usize>, NodeRef<'a>)> {
    entries.map_values(|e: Entry<'a>| (e.0@, e.1))
}

/// An inline node at `path`, then everything in it.
pub open spec fn inline_below<'a>(node: &'a Inline, path: Seq<usize>) -> Seq<(Seq<usize>, NodeRef<'a>)>
    decreases *node, 0nat,
{
    seq![(path, inline_ref(node))] + match node {
        Inline::Char(c) => inlines_below(&c.children, path, c.children@.len()),
        Inline::Note(n) => inlines_below(&n.children, path, n.children@.len()),
        _ => seq![],
    }
}

/// The first `k` of `nodes`, the children of the node at `path`.
pub open spec fn inlines_below<'a>(nodes: &'a Vec<Inline>, path: Seq<usize>, k: nat) -> Seq<(Seq<usize>, NodeRef<'a>)>
    decreases *nodes, k,
{
    if k == 0 || k > nodes@.len() {
        seq![]
    } else {
        proof {
            assert(decreases_to!(*nodes => nodes@));
        }
        inlines_below(nodes, path, (k - 1) as nat) + inline_below(&nodes@[k - 1], path.push((k - 1) as usize))
    }
}

/// The first `k` cells of a row at `path`, each followed by its children.
pub open spec fn cells_below<'a>(row: &'a TableRow, path: Seq<usize>, k: nat) -> Seq<(Seq<usize>, NodeRef<'a>)>
    decreases k,
{
    if k == 0 || k > row.cells@.len() {
        seq![]
    } else {
        let cell = &row.cells@[k - 1];
        let p = path.push((k - 1) as usize);
        cells_below(row, path, (k - 1) as nat) + seq![(p, NodeRef::TableCell(cell))] + inlines_below(
            &cell.children,
            p,
            cell.children@.len(),
        )
    }
}

/// The first `k` rows of a table at `path`, each followed by its cells.
pub open spec fn rows_below<'a>(rows: &'a Vec<TableRow>, path: Seq<usize>, k: nat) -> Seq<(Seq<usize>, NodeRef<'a>)>
    decreases k,
{
    if k == 0 || k > rows@.len() {
        seq![]
    } else {
        let row = &rows@[k - 1];
        let p = path.push((k - 1) as usize);
        rows_below(rows, path, (k - 1) as nat) + seq![(p, NodeRef::TableRow(row))] + cells_below(
            row,
            p,
            row.cells@.len(),
        )
    }
}

/// A block at `path`, then everything in it.
pub open spec fn block_below<'a>(block: &'a Block, path: Seq<usize>) -> Seq<(Seq<usize>, NodeRef<'a>)>
    decreases *block, 0nat,
{
    seq![(path, block_ref(block))] + match block {
        Block::Para(p) => inlines_below(&p.children, path, p.children@.len()),
        Block::Table(t) => rows_below(&t.rows, path, t.rows@.len()),
        Block::Sidebar(sb) => blocks_below(&sb.blocks, path, sb.blocks@.len()),
        Block::Periph(pb) => blocks_below(&pb.blocks, path, pb.blocks@.len()),
        _ => seq![],
    }
}

/// The first `k` of `blocks`, the children of the node at `path`.
pub open spec fn blocks_below<'a>(blocks: &'a Vec<Block>, path: Seq<usize>, k: nat) -> Seq<(Seq<usize>, NodeRef<'a>)>
    decreases *blocks, k,
{
    if k == 0 || k > blocks@.len() {
        seq![]
    } else {
        proof {
            assert(decreases_to!(*blocks => blocks@));
        }
        blocks_below(blocks, path, (k - 1) as nat) + block_below(&blocks@[k - 1], path.push((k - 1) as usize))
    }
}

/// Every node below `node`, in document order (a node before its children,
/// children in order), each with its path from `node` after `path`.
pub open spec fn descendants_spec<'a>(node: NodeRef<'a>, path: Seq<usize>) -> Seq<(Seq<usize>, NodeRef<'a>)> {
    match node {
        NodeRef::Document(d) => blocks_below(&d.blocks, path, d.blocks@.len()),
        NodeRef::Para(p) => inlines_below(&p.children, path, p.children@.len()),
        NodeRef::Char(c) => inlines_below(&c.children, path, c.children@.len()),
        NodeRef::Note(n) => inlines_below(&n.children, path, n.children@.len()),
        NodeRef::Table(t) => rows_below(&t.rows, path, t.rows@.len()),
        NodeRef::TableRow(r) => cells_below(r, path, r.cells@.len()),
        NodeRef::TableCell(c) => inlines_below(&c.children, path, c.children@.len()),
        NodeRef::Sidebar(s) => blocks_below(&s.blocks, path, s.blocks@.len()),
        NodeRef::Periph(p) => blocks_below(&p.blocks, path, p.blocks@.len()),
        _ => seq![],
    }
}

/// A copy of a path.
fn copy_path(path: &Vec<usize>) -> (copy: Vec<usize>)
    ensures
        copy@ == path@,
{
    let mut copy: Vec<usize> = Vec::new();
    let mut i: usize = 0;
    while i < path.len()
        invariant
            i <= path@.len(),
            copy@ == path@.take(i as int),
        decreases path@.len() - i,
    {
        copy.push(path[i]);
        i = i + 1;
        assert(copy@ =~= path@.take(i as int));
    }
    assert(copy@ =~= path@);
    copy
}

/// Record one node at the current path.
fn record<'a>(out: &mut Vec<Entry<'a>>, path: &Vec<usize>, node: NodeRef<'a>)
    ensures
        entries_view(final(out)@) == entries_view(old(out)@).push((path@, node)),
{
    out.push((copy_path(path), node));
    assert(entries_view(out@) =~= entries_view(old(out)@).push((path@, node)));
}

fn inline_entries<'a>(node: &'a Inline, path: &mut Vec<usize>, out: &mut Vec<Entry<'a>>)
    ensures
        final(path)@ == old(path)@,
        entries_view(final(out)@) == entries_view(old(out)@) + inline_below(node, old(path)@),
    decreases node,
{
    let ghost before = entries_view(out@);
    record(out, path, NodeRef::from_inline(node));
    let ghost mid = entries_view(out@);
    match node {
        Inline::Char(c) => inlines_entries(&c.children, path, out),
        Inline::Note(n) => inlines_entries(&n.children, path, out),
        _ => {
            assert(entries_view(out@) =~= mid + Seq::<(Seq<usize>, NodeRef<'a>)>::empty());
        },
    }
    assert(entries_view(out@) =~= before + inline_below(node, old(path)@));
}

fn inlines_entries<'a>(nodes: &'a Vec<Inline>, path: &mut Vec<usize>, out: &mut Vec<Entry<'a>>)
    ensures
        final(path)@ == old(path)@,
        entries_view(final(out)@) == entries_view(old(out)@) + inlines_below(nodes, old(path)@, nodes@.len()),
    decreases nodes,
{
    let ghost start = entries_view(out@);
    let ghost base = path@;
    let mut k: usize = 0;
    assert(start + inlines_below(nodes, base, 0) =~= start);
    while k < nodes.len()
        invariant
            k <= nodes@.len(),
            path@ == base,
            entries_view(out@) == start + inlines_below(nodes, base, k as nat),
        decreases nodes@.len() - k,
    {
        proof {
            assert(decreases_to!(nodes => nodes@));
            assert(decreases_to!(nodes@ => nodes@[k as int]));
        }
        path.push(k);
        inline_entries(&nodes[k], path, out);
        path.pop();
        assert(path@ =~= base);
        k = k + 1;
        assert(entries_view(out@) =~= start + inlines_below(nodes, base, k as nat));
    }
}

fn rows_entries<'a>(rows: &'a Vec<TableRow>, path: &mut Vec<usize>, out: &mut Vec<Entry<'a>>)
    ensures
        final(path)@ == old(path)@,
        entries_view(final(out)@) == entries_view(old(out)@) + rows_below(rows, old(path)@, rows@.len()),
{
    let ghost start = entries_view(out@);
    let ghost base = path@;
    let mut k: usize = 0;
    assert(start + rows_below(rows, base, 0) =~= start);
    while k < rows.len()
        invariant
            k <= rows@.len(),
            path@ == base,
            entries_view(out@) == start + rows_below(rows, base, k as nat),
        decreases rows@.len() - k,
    {
        let row = &rows[k];
        path.push(k);
        let ghost row_path = path@;
        record(out, path, NodeRef::TableRow(row));
        let ghost after_row = entries_view(out@);
        let mut c: usize = 0;
        assert(after_row + cells_below(row, row_path, 0) =~= after_row);
        while c < row.cells.len()
            invariant
                c <= row.cells@.len(),
                path@ == row_path,
                entries_view(out@) == after_row + cells_below(row, row_path, c as nat),
            decreases row.cells@.len() - c,
        {
            let cell = &row.cells[c];
            path.push(c);
            record(out, path, NodeRef::TableCell(cell));
            inlines_entries(&cell.children, path, out);
            path.pop();
            assert(path@ =~= row_path);
            c = c + 1;
            assert(entries_view(out@) =~= after_row + cells_below(row, row_path, c as nat));
        }
        path.pop();
        assert(path@ =~= base);
        k = k + 1;
        assert(entries_view(out@) =~= start + rows_below(rows, base, k as nat));
    }
}

fn block_entries<'a>(block: &'a Block, path: &mut Vec<usize>, out: &mut Vec<Entry<'a>>)
    ensures
        final(path)@ == old(path)@,
        entries_view(final(out)@) == entries_view(old(out)@) + block_below(block, old(path)@),
    decreases block,
{
    let ghost before = entries_view(out@);
    record(out, path, NodeRef::from_block(block));
    let ghost mid = entries_view(out@);
    match block {
        Block::Para(p) => inlines_entries(&p.children, path, out),
        Block::Table(t) => rows_entries(&t.rows, path, out),
        Block::Sidebar(sb) => blocks_entries(&sb.blocks, path, out),
        Block::Periph(pb) => blocks_entries(&pb.blocks, path, out),
        _ => {
            assert(entries_view(out@) =~= mid + Seq::<(Seq<usize>, NodeRef<'a>)>::empty());
        },
    }
    assert(entries_view(out@) =~= before + block_below(block, old(path)@));
}

fn blocks_entries<'a>(blocks: &'a Vec<Block>, path: &mut Vec<usize>, out: &mut Vec<Entry<'a>>)
    ensures
        final(path)@ == old(path)@,
        entries_view(final(out)@) == entries_view(old(out)@) + blocks_below(blocks, old(path)@, blocks@.len()),
    decreases blocks,
{
    let ghost start = entries_view(out@);
    let ghost base = path@;
    let mut k: usize = 0;
    assert(start + blocks_below(blocks, base, 0) =~= start);
    while k < blocks.len()
        invariant
            k <= blocks@.len(),
            path@ == base,
            entries_view(out@) == start + blocks_below(blocks, base, k as nat),
        decreases blocks@.len() - k,
    {
        proof {
            assert(decreases_to!(blocks => blocks@));
            assert(decreases_to!(blocks@ => blocks@[k as int]));
        }
        path.push(k);
        block_entries(&blocks[k], path, out);
        path.pop();
        assert(path@ =~= base);
        k = k + 1;
        assert(entries_view(out@) =~= start + blocks_below(blocks, base, k as nat));
    }
}

impl<'a> NodeRef<'a> {
    /// Every descendant in document order (pre-order), with its path from
    /// this node after the prefix `path`, which is borrowed for the walk and
    /// left as it was.
    pub fn descendants(&self, path: &mut Vec<usize>) -> (out: Vec<Entry<'a>>)
        ensures
            final(path)@ == old(path)@,
            entries_view(out@) == descendants_spec(*self, old(path)@),
    {
        let mut out: Vec<Entry<'a>> = Vec::new();
        let ghost empty = entries_view(out@);
        assert(empty =~= Seq::<(Seq<usize>, NodeRef<'a>)>::empty());
        match *self {
            NodeRef::Document(d) => blocks_entries(&d.blocks, path, &mut out),
            NodeRef::Para(p) => inlines_entries(&p.children, path, &mut out),
            NodeRef::Char(c) => inlines_entries(&c.children, path, &mut out),
            NodeRef::Note(n) => inlines_entries(&n.children, path, &mut out),
            NodeRef::Table(t) => rows_entries(&t.rows, path, &mut out),
            NodeRef::TableRow(r) => {
                let ghost base = path@;
                let mut c: usize = 0;
                assert(empty + cells_below(r, base, 0) =~= empty);
                while c < r.cells.len()
                    invariant
                        c <= r.cells@.len(),
                        path@ == base,
                        entries_view(out@) == empty + cells_below(r, base, c as nat),
                    decreases r.cells@.len() - c,
                {
                    let cell = &r.cells[c];
                    path.push(c);
                    record(&mut out, path, NodeRef::TableCell(cell));
                    inlines_entries(&cell.children, path, &mut out);
                    path.pop();
                    assert(path@ =~= base);
                    c = c + 1;
                    assert(entries_view(out@) =~= empty + cells_below(r, base, c as nat));
                }
            },
            NodeRef::TableCell(c) => inlines_entries(&c.children, path, &mut out),
            NodeRef::Sidebar(s) => blocks_entries(&s.blocks, path, &mut out),
            NodeRef::Periph(p) => blocks_entries(&p.blocks, path, &mut out),
            _ => {},
        }
        assert(entries_view(out@) =~= descendants_spec(*self, old(path)@));
        out
    }
}

} // verus!
