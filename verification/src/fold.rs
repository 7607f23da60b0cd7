//! Bottom-up transformation of a [`Document`] into a tree of the caller's
//! own types: [`Fold`].
//!
//! The driver ([`fold_document`]) folds a node's children first and hands
//! the results to the `fold_*` method for the node, so a method sees the node
//! and its already-transformed children and returns the transformed node:
//! one method per node type, and no mutable state threaded through the walk:
//! a method leaves the folder as it found it. What each method returns is
//! the folder's own business, named by one spec function per method, and
//! the driver's results are stated over those.
//! Every method is required; the associated types say what each kind of node
//! folds to.
use vstd::prelude::*;
use crate::ast::{
    Block, ChapterEnd, ChapterStart, Char, Document, Inline, Milestone, Note, OptBreak, Para,
    Periph, Sidebar, Table, TableCell, TableRow, Text, VerseEnd, VerseStart,
};
use crate::book::Book;

verus! {

/// One method per node type; each gets the node and its children already
/// folded, in the order they stand in the tree.
/// One method per node type; each gets the node and its children already
/// folded, in the order they stand in the tree, and returns what its spec
/// function names, leaving the folder unchanged. Each spec function stands
/// for an unspecified value unless the folder defines it: a folder written
/// outside Verus need not, and is then trusted to keep its methods'
/// promises as stated.
pub trait Fold: Sized {
    /// What a whole document folds to.
    type Output;
    /// What a block folds to.
    type Block;
    /// What a table row folds to.
    type Row;
    /// What a table cell folds to.
    type Cell;
    /// What an inline node folds to.
    type Inline;

    open spec fn document_spec(&self, document: Document, blocks: Seq<Self::Block>) -> Self::Output {
        arbitrary()
    }

    fn fold_document(&mut self, document: &Document, blocks: Vec<Self::Block>) -> (r: Self::Output)
        ensures
            *final(self) == *old(self),
            r == old(self).document_spec(*document, blocks@),
    ;

    open spec fn book_spec(&self, book: Book) -> Self::Block {
        arbitrary()
    }

    fn fold_book(&mut self, book: &Book) -> (r: Self::Block)
        ensures
            *final(self) == *old(self),
            r == old(self).book_spec(*book),
    ;

    open spec fn chapter_start_spec(&self, chapter: ChapterStart) -> Self::Block {
        arbitrary()
    }

    fn fold_chapter_start(&mut self, chapter: &ChapterStart) -> (r: Self::Block)
        ensures
            *final(self) == *old(self),
            r == old(self).chapter_start_spec(*chapter),
    ;

    open spec fn chapter_end_spec(&self, chapter: ChapterEnd) -> Self::Block {
        arbitrary()
    }

    fn fold_chapter_end(&mut self, chapter: &ChapterEnd) -> (r: Self::Block)
        ensures
            *final(self) == *old(self),
            r == old(self).chapter_end_spec(*chapter),
    ;

    open spec fn para_spec(&self, para: Para, children: Seq<Self::Inline>) -> Self::Block {
        arbitrary()
    }

    fn fold_para(&mut self, para: &Para, children: Vec<Self::Inline>) -> (r: Self::Block)
        ensures
            *final(self) == *old(self),
            r == old(self).para_spec(*para, children@),
    ;

    open spec fn table_spec(&self, table: Table, rows: Seq<Self::Row>) -> Self::Block {
        arbitrary()
    }

    fn fold_table(&mut self, table: &Table, rows: Vec<Self::Row>) -> (r: Self::Block)
        ensures
            *final(self) == *old(self),
            r == old(self).table_spec(*table, rows@),
    ;

    open spec fn table_row_spec(&self, row: TableRow, cells: Seq<Self::Cell>) -> Self::Row {
        arbitrary()
    }

    fn fold_table_row(&mut self, row: &TableRow, cells: Vec<Self::Cell>) -> (r: Self::Row)
        ensures
            *final(self) == *old(self),
            r == old(self).table_row_spec(*row, cells@),
    ;

    open spec fn table_cell_spec(&self, cell: TableCell, children: Seq<Self::Inline>) -> Self::Cell {
        arbitrary()
    }

    fn fold_table_cell(&mut self, cell: &TableCell, children: Vec<Self::Inline>) -> (r: Self::Cell)
        ensures
            *final(self) == *old(self),
            r == old(self).table_cell_spec(*cell, children@),
    ;

    open spec fn block_milestone_spec(&self, milestone: Milestone) -> Self::Block {
        arbitrary()
    }

    fn fold_block_milestone(&mut self, milestone: &Milestone) -> (r: Self::Block)
        ensures
            *final(self) == *old(self),
            r == old(self).block_milestone_spec(*milestone),
    ;

    open spec fn sidebar_spec(&self, sidebar: Sidebar, blocks: Seq<Self::Block>) -> Self::Block {
        arbitrary()
    }

    fn fold_sidebar(&mut self, sidebar: &Sidebar, blocks: Vec<Self::Block>) -> (r: Self::Block)
        ensures
            *final(self) == *old(self),
            r == old(self).sidebar_spec(*sidebar, blocks@),
    ;

    open spec fn periph_spec(&self, periph: Periph, blocks: Seq<Self::Block>) -> Self::Block {
        arbitrary()
    }

    fn fold_periph(&mut self, periph: &Periph, blocks: Vec<Self::Block>) -> (r: Self::Block)
        ensures
            *final(self) == *old(self),
            r == old(self).periph_spec(*periph, blocks@),
    ;

    open spec fn text_spec(&self, text: Text) -> Self::Inline {
        arbitrary()
    }

    fn fold_text(&mut self, text: &Text) -> (r: Self::Inline)
        ensures
            *final(self) == *old(self),
            r == old(self).text_spec(*text),
    ;

    open spec fn verse_start_spec(&self, verse: VerseStart) -> Self::Inline {
        arbitrary()
    }

    fn fold_verse_start(&mut self, verse: &VerseStart) -> (r: Self::Inline)
        ensures
            *final(self) == *old(self),
            r == old(self).verse_start_spec(*verse),
    ;

    open spec fn verse_end_spec(&self, verse: VerseEnd) -> Self::Inline {
        arbitrary()
    }

    fn fold_verse_end(&mut self, verse: &VerseEnd) -> (r: Self::Inline)
        ensures
            *final(self) == *old(self),
            r == old(self).verse_end_spec(*verse),
    ;

    open spec fn char_spec(&self, char: Char, children: Seq<Self::Inline>) -> Self::Inline {
        arbitrary()
    }

    fn fold_char(&mut self, char: &Char, children: Vec<Self::Inline>) -> (r: Self::Inline)
        ensures
            *final(self) == *old(self),
            r == old(self).char_spec(*char, children@),
    ;

    open spec fn note_spec(&self, note: Note, children: Seq<Self::Inline>) -> Self::Inline {
        arbitrary()
    }

    fn fold_note(&mut self, note: &Note, children: Vec<Self::Inline>) -> (r: Self::Inline)
        ensures
            *final(self) == *old(self),
            r == old(self).note_spec(*note, children@),
    ;

    open spec fn milestone_spec(&self, milestone: Milestone) -> Self::Inline {
        arbitrary()
    }

    fn fold_milestone(&mut self, milestone: &Milestone) -> (r: Self::Inline)
        ensures
            *final(self) == *old(self),
            r == old(self).milestone_spec(*milestone),
    ;

    open spec fn opt_break_spec(&self, opt_break: OptBreak) -> Self::Inline {
        arbitrary()
    }

    fn fold_opt_break(&mut self, opt_break: &OptBreak) -> (r: Self::Inline)
        ensures
            *final(self) == *old(self),
            r == old(self).opt_break_spec(*opt_break),
    ;

}

/// What the blocks of a list fold to, in order.
pub open spec fn blocks_folded<F: Fold>(f: F, blocks: Seq<Block>) -> Seq<F::Block>
    decreases blocks,
{
    if blocks.len() == 0 {
        seq![]
    } else {
        blocks_folded(f, blocks.drop_last()).push(block_folded(f, blocks.last()))
    }
}

/// What the cells of a row fold to, each after its children.
pub open spec fn cells_folded<F: Fold>(f: F, cells: Seq<TableCell>) -> Seq<F::Cell>
    decreases cells,
{
    if cells.len() == 0 {
        seq![]
    } else {
        cells_folded(f, cells.drop_last()).push(
            f.table_cell_spec(cells.last(), inlines_folded(f, cells.last().children@)),
        )
    }
}

/// What the rows of a table fold to, each after its cells.
pub open spec fn rows_folded<F: Fold>(f: F, rows: Seq<TableRow>) -> Seq<F::Row>
    decreases rows,
{
    if rows.len() == 0 {
        seq![]
    } else {
        rows_folded(f, rows.drop_last()).push(f.table_row_spec(rows.last(), cells_folded(f, rows.last().cells@)))
    }
}

/// What one block folds to, after its children.
pub open spec fn block_folded<F: Fold>(f: F, block: Block) -> F::Block
    decreases block,
{
    match block {
        Block::Book(book) => f.book_spec(book),
        Block::ChapterStart(chapter) => f.chapter_start_spec(chapter),
        Block::ChapterEnd(chapter) => f.chapter_end_spec(chapter),
        Block::Para(para) => f.para_spec(para, inlines_folded(f, para.children@)),
        Block::Table(table) => f.table_spec(table, rows_folded(f, table.rows@)),
        Block::Milestone(milestone) => f.block_milestone_spec(milestone),
        Block::Sidebar(sidebar) => f.sidebar_spec(sidebar, blocks_folded(f, sidebar.blocks@)),
        Block::Periph(periph) => f.periph_spec(periph, blocks_folded(f, periph.blocks@)),
    }
}

/// What the inline nodes of a list fold to, in order.
pub open spec fn inlines_folded<F: Fold>(f: F, inlines: Seq<Inline>) -> Seq<F::Inline>
    decreases inlines,
{
    if inlines.len() == 0 {
        seq![]
    } else {
        inlines_folded(f, inlines.drop_last()).push(inline_folded(f, inlines.last()))
    }
}

/// What one inline node folds to, after its children.
pub open spec fn inline_folded<F: Fold>(f: F, inline: Inline) -> F::Inline
    decreases inline,
{
    match inline {
        Inline::Text(text) => f.text_spec(text),
        Inline::VerseStart(verse) => f.verse_start_spec(verse),
        Inline::VerseEnd(verse) => f.verse_end_spec(verse),
        Inline::Char(char) => f.char_spec(char, inlines_folded(f, char.children@)),
        Inline::Note(note) => f.note_spec(note, inlines_folded(f, note.children@)),
        Inline::Milestone(milestone) => f.milestone_spec(milestone),
        Inline::OptBreak(opt_break) => f.opt_break_spec(opt_break),
    }
}

/// Fold a whole document: its blocks, then the document.
pub fn fold_document<F: Fold>(folder: &mut F, document: &Document) -> (r: F::Output)
    ensures
        *final(folder) == *old(folder),
        r == old(folder).document_spec(*document, blocks_folded(*old(folder), document.blocks@)),
{
    let blocks = fold_blocks(folder, &document.blocks);
    folder.fold_document(document, blocks)
}

/// Fold each block of a list, in order: one result per block.
pub fn fold_blocks<F: Fold>(folder: &mut F, blocks: &Vec<Block>) -> (folded: Vec<F::Block>)
    ensures
        folded@.len() == blocks@.len(),
        *final(folder) == *old(folder),
        folded@ == blocks_folded(*old(folder), blocks@),
    decreases blocks,
{
    let mut folded: Vec<F::Block> = Vec::new();
    let mut k: usize = 0;
    assert(blocks@.take(0) =~= Seq::<Block>::empty());
    while k < blocks.len()
        invariant
            k <= blocks@.len(),
            folded@.len() == k,
            *folder == *old(folder),
            folded@ == blocks_folded(*old(folder), blocks@.take(k as int)),
        decreases blocks@.len() - k,
    {
        proof {
            assert(decreases_to!(blocks => blocks@));
            assert(decreases_to!(blocks@ => blocks@[k as int]));
        }
        let block = fold_block(folder, &blocks[k]);
        folded.push(block);
        proof {
            assert(blocks@.take(k + 1).drop_last() =~= blocks@.take(k as int));
        }
        k = k + 1;
    }
    assert(blocks@.take(blocks@.len() as int) =~= blocks@);
    folded
}

/// Fold the rows of a table, each after its cells, each cell after its
/// children: one result per row, and per cell of a row.
fn fold_rows<F: Fold>(folder: &mut F, table: &Table) -> (rows: Vec<F::Row>)
    ensures
        rows@.len() == table.rows@.len(),
        *final(folder) == *old(folder),
        rows@ == rows_folded(*old(folder), table.rows@),
{
    let mut rows: Vec<F::Row> = Vec::new();
    let mut r: usize = 0;
    assert(table.rows@.take(0) =~= Seq::<TableRow>::empty());
    while r < table.rows.len()
        invariant
            r <= table.rows@.len(),
            rows@.len() == r,
            *folder == *old(folder),
            rows@ == rows_folded(*old(folder), table.rows@.take(r as int)),
        decreases table.rows@.len() - r,
    {
        let row = &table.rows[r];
        let mut cells: Vec<F::Cell> = Vec::new();
        let mut c: usize = 0;
        assert(row.cells@.take(0) =~= Seq::<TableCell>::empty());
        while c < row.cells.len()
            invariant
                c <= row.cells@.len(),
                cells@.len() == c,
                *folder == *old(folder),
                cells@ == cells_folded(*old(folder), row.cells@.take(c as int)),
            decreases row.cells@.len() - c,
        {
            let cell = &row.cells[c];
            let children = fold_inlines(folder, &cell.children);
            cells.push(folder.fold_table_cell(cell, children));
            proof {
                assert(row.cells@.take(c + 1).drop_last() =~= row.cells@.take(c as int));
            }
            c = c + 1;
        }
        assert(row.cells@.take(row.cells@.len() as int) =~= row.cells@);
        rows.push(folder.fold_table_row(row, cells));
        proof {
            assert(table.rows@.take(r + 1).drop_last() =~= table.rows@.take(r as int));
        }
        r = r + 1;
    }
    assert(table.rows@.take(table.rows@.len() as int) =~= table.rows@);
    rows
}

/// Fold one block, after its children.
pub fn fold_block<F: Fold>(folder: &mut F, block: &Block) -> (r: F::Block)
    ensures
        *final(folder) == *old(folder),
        r == block_folded(*old(folder), *block),
    decreases block,
{
    match block {
        Block::Book(book) => folder.fold_book(book),
        Block::ChapterStart(chapter) => folder.fold_chapter_start(chapter),
        Block::ChapterEnd(chapter) => folder.fold_chapter_end(chapter),
        Block::Para(para) => {
            let children = fold_inlines(folder, &para.children);
            folder.fold_para(para, children)
        },
        Block::Table(table) => {
            let rows = fold_rows(folder, table);
            folder.fold_table(table, rows)
        },
        Block::Milestone(milestone) => folder.fold_block_milestone(milestone),
        Block::Sidebar(sidebar) => {
            let blocks = fold_blocks(folder, &sidebar.blocks);
            folder.fold_sidebar(sidebar, blocks)
        },
        Block::Periph(periph) => {
            let blocks = fold_blocks(folder, &periph.blocks);
            folder.fold_periph(periph, blocks)
        },
    }
}

/// Fold each inline node of a list, in order: one result per node.
pub fn fold_inlines<F: Fold>(folder: &mut F, inlines: &Vec<Inline>) -> (folded: Vec<F::Inline>)
    ensures
        folded@.len() == inlines@.len(),
        *final(folder) == *old(folder),
        folded@ == inlines_folded(*old(folder), inlines@),
    decreases inlines,
{
    let mut folded: Vec<F::Inline> = Vec::new();
    let mut k: usize = 0;
    assert(inlines@.take(0) =~= Seq::<Inline>::empty());
    while k < inlines.len()
        invariant
            k <= inlines@.len(),
            folded@.len() == k,
            *folder == *old(folder),
            folded@ == inlines_folded(*old(folder), inlines@.take(k as int)),
        decreases inlines@.len() - k,
    {
        proof {
            assert(decreases_to!(inlines => inlines@));
            assert(decreases_to!(inlines@ => inlines@[k as int]));
        }
        let node = fold_inline(folder, &inlines[k]);
        folded.push(node);
        proof {
            assert(inlines@.take(k + 1).drop_last() =~= inlines@.take(k as int));
        }
        k = k + 1;
    }
    assert(inlines@.take(inlines@.len() as int) =~= inlines@);
    folded
}

/// Fold one inline node, after its children.
pub fn fold_inline<F: Fold>(folder: &mut F, inline: &Inline) -> (r: F::Inline)
    ensures
        *final(folder) == *old(folder),
        r == inline_folded(*old(folder), *inline),
    decreases inline,
{
    match inline {
        Inline::Text(text) => folder.fold_text(text),
        Inline::VerseStart(verse) => folder.fold_verse_start(verse),
        Inline::VerseEnd(verse) => folder.fold_verse_end(verse),
        Inline::Char(char) => {
            let children = fold_inlines(folder, &char.children);
            folder.fold_char(char, children)
        },
        Inline::Note(note) => {
            let children = fold_inlines(folder, &note.children);
            folder.fold_note(note, children)
        },
        Inline::Milestone(milestone) => folder.fold_milestone(milestone),
        Inline::OptBreak(opt_break) => folder.fold_opt_break(opt_break),
    }
}

} // verus!
