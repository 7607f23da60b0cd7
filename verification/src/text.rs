//! Plain-text extraction: the words of a document, a node, or a list of
//! nodes, without markup.
//!
//! [`PlainText`] has a few knobs: whether note text is included (off by
//! default: a footnote is not the verse), which character styles contribute
//! their text (all by default; a style that does not is skipped with
//! everything inside it), which paragraphs do (all by default), and what
//! separates blocks — paragraphs, table cells, included notes (a space by
//! default).
//!
//! Attributes, verse and chapter numbers, callers and categories are never
//! text. Trailing whitespace at a block boundary is dropped, so a separator
//! never follows a space; and where a dropped style leaves whitespace on
//! both sides, one side of it is kept.
use vstd::prelude::*;
use crate::ast::{Block, Document, Inline, TableCell, TableRow};
use crate::container::trim_start_ws;
use crate::cursor::NodeRef;
use crate::lexer::{is_space, is_space_char};
use crate::strings::{push_char, str_chars};
use crate::style::{StyleRule, StyleSheet};

verus! {

/// The knobs, as values: notes included or not, which styles of character
/// and of paragraph contribute (by style index; a style past the end of a
/// list contributes), and the block separator.
pub struct TextConfig {
    pub notes: bool,
    pub keep_char: Seq<bool>,
    pub keep_para: Seq<bool>,
    pub separator: Seq<char>,
}

/// The text so far, and whether a block boundary was crossed since the
/// last text.
pub struct TextState {
    pub out: Seq<char>,
    pub at_boundary: bool,
}

/// Whether a style contributes, by its entry in a list of choices.
pub open spec fn kept(keep: Seq<bool>, style: u32) -> bool {
    style >= keep.len() || keep[style as int]
}

/// `s` without its trailing ASCII whitespace.
pub open spec fn trim_end_ws(s: Seq<char>) -> Seq<char>
    decreases s.len(),
{
    if s.len() > 0 && is_space(s.last()) {
        trim_end_ws(s.drop_last())
    } else {
        s
    }
}

/// A block boundary: noted only once there is text.
pub open spec fn boundary(st: TextState) -> TextState {
    if st.out.len() > 0 {
        TextState { at_boundary: true, ..st }
    } else {
        st
    }
}

/// Text added: after a boundary, the trailing whitespace goes and the
/// separator comes; a text that meets whitespace loses its own leading
/// whitespace.
pub open spec fn pushed(cfg: TextConfig, st: TextState, text: Seq<char>) -> TextState {
    let out = if st.at_boundary {
        trim_end_ws(st.out) + cfg.separator
    } else {
        st.out
    };
    let text = if out.len() > 0 && is_space(out.last()) {
        trim_start_ws(text)
    } else {
        text
    };
    TextState { out: out + text, at_boundary: false }
}

/// The text of an inline node.
pub open spec fn inline_text(cfg: TextConfig, st: TextState, node: Inline) -> TextState
    decreases node, 0nat,
{
    match node {
        Inline::Text(t) => pushed(cfg, st, t.content@),
        Inline::Char(c) => if kept(cfg.keep_char, c.style.0) {
            inlines_text(cfg, st, c.children@, c.children@.len())
        } else {
            st
        },
        Inline::Note(n) => if cfg.notes {
            boundary(inlines_text(cfg, boundary(st), n.children@, n.children@.len()))
        } else {
            st
        },
        _ => st,
    }
}

/// The text of the first `k` nodes of a list.
pub open spec fn inlines_text(cfg: TextConfig, st: TextState, nodes: Seq<Inline>, k: nat) -> TextState
    decreases nodes, k,
{
    if k == 0 || k > nodes.len() {
        st
    } else {
        inline_text(cfg, inlines_text(cfg, st, nodes, (k - 1) as nat), nodes[k - 1])
    }
}

/// The text of a table cell: a block of its own.
pub open spec fn cell_text(cfg: TextConfig, st: TextState, cell: TableCell) -> TextState {
    boundary(inlines_text(cfg, boundary(st), cell.children@, cell.children@.len()))
}

/// The text of the first `k` cells of a row.
pub open spec fn cells_text(cfg: TextConfig, st: TextState, cells: Seq<TableCell>, k: nat) -> TextState
    decreases k,
{
    if k == 0 || k > cells.len() {
        st
    } else {
        cell_text(cfg, cells_text(cfg, st, cells, (k - 1) as nat), cells[k - 1])
    }
}

/// The text of the first `k` rows of a table.
pub open spec fn rows_text(cfg: TextConfig, st: TextState, rows: Seq<TableRow>, k: nat) -> TextState
    decreases k,
{
    if k == 0 || k > rows.len() {
        st
    } else {
        let row = rows[k - 1];
        cells_text(cfg, rows_text(cfg, st, rows, (k - 1) as nat), row.cells@, row.cells@.len())
    }
}

/// The text of a block.
pub open spec fn block_text(cfg: TextConfig, st: TextState, block: Block) -> TextState
    decreases block, 0nat,
{
    match block {
        Block::Para(p) => if kept(cfg.keep_para, p.style.0) {
            boundary(inlines_text(cfg, boundary(st), p.children@, p.children@.len()))
        } else {
            st
        },
        Block::Table(t) => rows_text(cfg, st, t.rows@, t.rows@.len()),
        Block::Sidebar(sb) => blocks_text(cfg, st, sb.blocks@, sb.blocks@.len()),
        Block::Periph(pb) => blocks_text(cfg, st, pb.blocks@, pb.blocks@.len()),
        _ => st,
    }
}

/// The text of the first `k` blocks of a list.
pub open spec fn blocks_text(cfg: TextConfig, st: TextState, blocks: Seq<Block>, k: nat) -> TextState
    decreases blocks, k,
{
    if k == 0 || k > blocks.len() {
        st
    } else {
        block_text(cfg, blocks_text(cfg, st, blocks, (k - 1) as nat), blocks[k - 1])
    }
}

/// The text of any node.
pub open spec fn node_text(cfg: TextConfig, st: TextState, node: NodeRef) -> TextState {
    match node {
        NodeRef::Document(d) => blocks_text(cfg, st, d.blocks@, d.blocks@.len()),
        NodeRef::Para(p) => block_text(cfg, st, Block::Para(*p)),
        NodeRef::Table(t) => block_text(cfg, st, Block::Table(*t)),
        NodeRef::TableRow(r) => cells_text(cfg, st, r.cells@, r.cells@.len()),
        NodeRef::TableCell(c) => cell_text(cfg, st, *c),
        NodeRef::Text(t) => inline_text(cfg, st, Inline::Text(*t)),
        NodeRef::Char(c) => inline_text(cfg, st, Inline::Char(*c)),
        NodeRef::Note(n) => inline_text(cfg, st, Inline::Note(*n)),
        NodeRef::Sidebar(sb) => block_text(cfg, st, Block::Sidebar(*sb)),
        NodeRef::Periph(pb) => block_text(cfg, st, Block::Periph(*pb)),
        _ => st,
    }
}

/// The text a walk has gathered, with its trailing whitespace dropped.
pub open spec fn finished(st: TextState) -> Seq<char> {
    trim_end_ws(st.out)
}

/// The empty start of a walk.
pub open spec fn fresh() -> TextState {
    TextState { out: seq![], at_boundary: false }
}

/// The text of nodes with their paths: a change of block, the first element
/// of the path, is a boundary. `block` is the block of the node before.
pub open spec fn located_text(cfg: TextConfig, st: TextState, nodes: Seq<(Seq<usize>, NodeRef)>, k: nat) -> (TextState, Option<usize>)
    decreases k,
{
    if k == 0 || k > nodes.len() {
        (st, None)
    } else {
        let before = located_text(cfg, st, nodes, (k - 1) as nat);
        let (path, node) = nodes[k - 1];
        let first = if path.len() > 0 {
            Some(path[0])
        } else {
            None
        };
        let crossed = if before.1 is Some && before.1 != first {
            boundary(before.0)
        } else {
            before.0
        };
        (node_text(cfg, crossed, node), first)
    }
}

/// A plain-text extractor: its knobs, and the text of the walk it is on.
pub struct PlainText<'s> {
    style_sheet: &'s StyleSheet,
    notes: bool,
    keep_char: Vec<bool>,
    keep_para: Vec<bool>,
    separator: String,
    out: Vec<char>,
    at_boundary: bool,
}

impl<'s> PlainText<'s> {
    /// The knobs, as values.
    pub closed spec fn config(&self) -> TextConfig {
        TextConfig {
            notes: self.notes,
            keep_char: self.keep_char@,
            keep_para: self.keep_para@,
            separator: self.separator@,
        }
    }

    /// The sheet the styles resolve in.
    pub closed spec fn sheet(&self) -> StyleSheet {
        *self.style_sheet
    }

    closed spec fn state(&self) -> TextState {
        TextState { out: self.out@, at_boundary: self.at_boundary }
    }

    /// An extractor with the defaults: no notes, every style and paragraph,
    /// a space between blocks. The sheet should be the document's own.
    pub fn new(style_sheet: &'s StyleSheet) -> (p: PlainText<'s>)
        ensures
            p.config() == (TextConfig {
                notes: false,
                keep_char: seq![],
                keep_para: seq![],
                separator: seq![' '],
            }),
            p.sheet() == *style_sheet,
    {
        let mut separator = String::new();
        push_char(&mut separator, ' ');
        let p = PlainText {
            style_sheet,
            notes: false,
            keep_char: Vec::new(),
            keep_para: Vec::new(),
            separator,
            out: Vec::new(),
            at_boundary: false,
        };
        assert(p.config().separator =~= seq![' ']);
        p
    }

    /// Include the text of notes, set off by the block separator.
    pub fn with_notes(self, notes: bool) -> (p: PlainText<'s>)
        ensures
            p.config() == (TextConfig { notes, ..self.config() }),
            p.sheet() == self.sheet(),
    {
        PlainText { notes, ..self }
    }

    /// Which character styles contribute their text: `keep` is asked of
    /// every rule of the sheet, once, now.
    pub fn keep_char<F: Fn(&StyleRule) -> bool>(self, keep: F) -> (p: PlainText<'s>)
        requires
            forall|r: &StyleRule| keep.requires((r,)),
        ensures
            p.config().notes == self.config().notes,
            p.config().keep_para == self.config().keep_para,
            p.config().separator == self.config().separator,
            p.config().keep_char.len() == self.sheet().rules@.len(),
            forall|i: int|
                0 <= i < self.sheet().rules@.len() ==> keep.ensures(
                    (&self.sheet().rules@[i],),
                    #[trigger] p.config().keep_char[i],
                ),
            p.sheet() == self.sheet(),
    {
        let choices = choose_rules(self.style_sheet, &keep);
        PlainText { keep_char: choices, ..self }
    }

    /// Which paragraphs contribute their text: `keep` is asked of every
    /// rule of the sheet, once, now.
    pub fn keep_para<F: Fn(&StyleRule) -> bool>(self, keep: F) -> (p: PlainText<'s>)
        requires
            forall|r: &StyleRule| keep.requires((r,)),
        ensures
            p.config().notes == self.config().notes,
            p.config().keep_char == self.config().keep_char,
            p.config().separator == self.config().separator,
            p.config().keep_para.len() == self.sheet().rules@.len(),
            forall|i: int|
                0 <= i < self.sheet().rules@.len() ==> keep.ensures(
                    (&self.sheet().rules@[i],),
                    #[trigger] p.config().keep_para[i],
                ),
            p.sheet() == self.sheet(),
    {
        let choices = choose_rules(self.style_sheet, &keep);
        PlainText { keep_para: choices, ..self }
    }

    /// What goes between blocks.
    pub fn block_separator(self, separator: &str) -> (p: PlainText<'s>)
        ensures
            p.config() == (TextConfig { separator: separator@, ..self.config() }),
            p.sheet() == self.sheet(),
    {
        let mut s = String::new();
        crate::strings::push_str(&mut s, separator);
        assert(s@ =~= separator@);
        PlainText { separator: s, ..self }
    }
}

/// `keep` asked of every rule of the sheet.
fn choose_rules<F: Fn(&StyleRule) -> bool>(sheet: &StyleSheet, keep: &F) -> (choices: Vec<bool>)
    requires
        forall|r: &StyleRule| keep.requires((r,)),
    ensures
        choices@.len() == sheet.rules@.len(),
        forall|i: int| 0 <= i < sheet.rules@.len() ==> keep.ensures((&sheet.rules@[i],), #[trigger] choices@[i]),
{
    let mut choices: Vec<bool> = Vec::new();
    let mut i: usize = 0;
    while i < sheet.rules.len()
        invariant
            i <= sheet.rules@.len(),
            choices@.len() == i,
            forall|r: &StyleRule| keep.requires((r,)),
            forall|j: int| 0 <= j < i ==> keep.ensures((&sheet.rules@[j],), #[trigger] choices@[j]),
        decreases sheet.rules@.len() - i,
    {
        let b = keep(&sheet.rules[i]);
        choices.push(b);
        i = i + 1;
    }
    choices
}

impl<'s> PlainText<'s> {
    /// The trailing whitespace of the text dropped.
    fn trim_end(&mut self)
        ensures
            final(self).out@ == trim_end_ws(old(self).out@),
            final(self).at_boundary == old(self).at_boundary,
            final(self).config() == old(self).config(),
            final(self).sheet() == old(self).sheet(),
    {
        while self.out.len() > 0 && is_space_char(self.out[self.out.len() - 1])
            invariant
                trim_end_ws(old(self).out@) == trim_end_ws(self.out@),
                self.at_boundary == old(self).at_boundary,
                self.config() == old(self).config(),
                self.sheet() == old(self).sheet(),
            decreases self.out@.len(),
        {
            self.out.pop();
        }
    }

    fn boundary(&mut self)
        ensures
            final(self).state() == boundary(old(self).state()),
            final(self).config() == old(self).config(),
            final(self).sheet() == old(self).sheet(),
    {
        if self.out.len() > 0 {
            self.at_boundary = true;
        }
    }

    fn push(&mut self, text: &str)
        ensures
            final(self).state() == pushed(old(self).config(), old(self).state(), text@),
            final(self).config() == old(self).config(),
            final(self).sheet() == old(self).sheet(),
    {
        if self.at_boundary {
            self.trim_end();
            let sep = str_chars(self.separator.as_str());
            let mut i: usize = 0;
            let ghost base = self.out@;
            while i < sep.len()
                invariant
                    i <= sep@.len(),
                    sep@ == self.separator@,
                    self.out@ == base + sep@.take(i as int),
                    self.at_boundary == old(self).at_boundary,
                    self.config() == old(self).config(),
                    self.sheet() == old(self).sheet(),
                decreases sep@.len() - i,
            {
                self.out.push(sep[i]);
                assert(sep@.take(i + 1) =~= sep@.take(i as int).push(sep@[i as int]));
                i = i + 1;
            }
            assert(sep@.take(sep@.len() as int) =~= sep@);
            self.at_boundary = false;
        }
        let ghost out = self.out@;
        let chars = str_chars(text);
        let n = chars.len();
        let mut i: usize = 0;
        assert(chars@.subrange(0, n as int) =~= chars@);
        if self.out.len() > 0 && is_space_char(self.out[self.out.len() - 1]) {
            while i < n && is_space_char(chars[i])
                invariant
                    i <= n,
                    n == chars@.len(),
                    trim_start_ws(chars@) == trim_start_ws(chars@.subrange(i as int, n as int)),
                decreases n - i,
            {
                assert(chars@.subrange(i as int, n as int).drop_first() =~= chars@.subrange(i + 1, n as int));
                i = i + 1;
            }
        }
        assert(chars@.subrange(0, n as int) =~= chars@);
        let ghost start = i;
        while i < n
            invariant
                start <= i <= n,
                n == chars@.len(),
                self.out@ == out + chars@.subrange(start as int, i as int),
                self.at_boundary == false,
                self.config() == old(self).config(),
                self.sheet() == old(self).sheet(),
            decreases n - i,
        {
            self.out.push(chars[i]);
            assert(chars@.subrange(start as int, i + 1) =~= chars@.subrange(start as int, i as int).push(chars@[i as int]));
            i = i + 1;
        }
        proof {
            let o = pushed(old(self).config(), old(self).state(), text@);
            if out.len() > 0 && is_space(out.last()) {
                assert(trim_start_ws(chars@) == chars@.subrange(start as int, n as int)) by {
                    lemma_trim_start_rest(chars@.subrange(start as int, n as int));
                }
                assert(o.out =~= out + trim_start_ws(text@));
            } else {
                assert(chars@.subrange(0, n as int) =~= chars@);
            }
            assert(self.out@ =~= o.out);
        }
    }
}

/// A text with no leading whitespace trims to itself.
proof fn lemma_trim_start_rest(s: Seq<char>)
    requires
        s.len() == 0 || !is_space(s[0]),
    ensures
        trim_start_ws(s) == s,
{
}

impl<'s> PlainText<'s> {
    fn visit_inline(&mut self, node: &Inline)
        ensures
            final(self).state() == inline_text(old(self).config(), old(self).state(), *node),
            final(self).config() == old(self).config(),
            final(self).sheet() == old(self).sheet(),
        decreases node,
    {
        match node {
            Inline::Text(t) => self.push(t.content.as_str()),
            Inline::Char(c) => {
                let keep = (c.style.0 as usize) >= self.keep_char.len() || self.keep_char[c.style.0 as usize];
                if keep {
                    self.visit_inlines(&c.children);
                }
            },
            Inline::Note(n) => {
                if self.notes {
                    self.boundary();
                    self.visit_inlines(&n.children);
                    self.boundary();
                }
            },
            _ => {},
        }
    }

    fn visit_inlines(&mut self, nodes: &Vec<Inline>)
        ensures
            final(self).state() == inlines_text(old(self).config(), old(self).state(), nodes@, nodes@.len()),
            final(self).config() == old(self).config(),
            final(self).sheet() == old(self).sheet(),
        decreases nodes,
    {
        let ghost st = self.state();
        let mut k: usize = 0;
        while k < nodes.len()
            invariant
                k <= nodes@.len(),
                self.config() == old(self).config(),
                self.sheet() == old(self).sheet(),
                self.state() == inlines_text(old(self).config(), st, nodes@, k as nat),
            decreases nodes@.len() - k,
        {
            proof {
                assert(decreases_to!(nodes => nodes@));
                assert(decreases_to!(nodes@ => nodes@[k as int]));
            }
            self.visit_inline(&nodes[k]);
            k = k + 1;
        }
    }

    fn visit_cell(&mut self, cell: &TableCell)
        ensures
            final(self).state() == cell_text(old(self).config(), old(self).state(), *cell),
            final(self).config() == old(self).config(),
            final(self).sheet() == old(self).sheet(),
    {
        self.boundary();
        self.visit_inlines(&cell.children);
        self.boundary();
    }

    fn visit_row(&mut self, row: &TableRow)
        ensures
            final(self).state() == cells_text(old(self).config(), old(self).state(), row.cells@, row.cells@.len()),
            final(self).config() == old(self).config(),
            final(self).sheet() == old(self).sheet(),
    {
        let ghost st = self.state();
        let mut k: usize = 0;
        while k < row.cells.len()
            invariant
                k <= row.cells@.len(),
                self.config() == old(self).config(),
                self.sheet() == old(self).sheet(),
                self.state() == cells_text(old(self).config(), st, row.cells@, k as nat),
            decreases row.cells@.len() - k,
        {
            self.visit_cell(&row.cells[k]);
            k = k + 1;
        }
    }

    fn visit_rows(&mut self, rows: &Vec<TableRow>)
        ensures
            final(self).state() == rows_text(old(self).config(), old(self).state(), rows@, rows@.len()),
            final(self).config() == old(self).config(),
            final(self).sheet() == old(self).sheet(),
    {
        let ghost st = self.state();
        let mut k: usize = 0;
        while k < rows.len()
            invariant
                k <= rows@.len(),
                self.config() == old(self).config(),
                self.sheet() == old(self).sheet(),
                self.state() == rows_text(old(self).config(), st, rows@, k as nat),
            decreases rows@.len() - k,
        {
            self.visit_row(&rows[k]);
            k = k + 1;
        }
    }

    fn visit_block(&mut self, block: &Block)
        ensures
            final(self).state() == block_text(old(self).config(), old(self).state(), *block),
            final(self).config() == old(self).config(),
            final(self).sheet() == old(self).sheet(),
        decreases block,
    {
        match block {
            Block::Para(p) => {
                let keep = (p.style.0 as usize) >= self.keep_para.len() || self.keep_para[p.style.0 as usize];
                if keep {
                    self.boundary();
                    self.visit_inlines(&p.children);
                    self.boundary();
                }
            },
            Block::Table(t) => self.visit_rows(&t.rows),
            Block::Sidebar(sb) => self.visit_blocks(&sb.blocks),
            Block::Periph(pb) => self.visit_blocks(&pb.blocks),
            _ => {},
        }
    }

    fn visit_blocks(&mut self, blocks: &Vec<Block>)
        ensures
            final(self).state() == blocks_text(old(self).config(), old(self).state(), blocks@, blocks@.len()),
            final(self).config() == old(self).config(),
            final(self).sheet() == old(self).sheet(),
        decreases blocks,
    {
        let ghost st = self.state();
        let mut k: usize = 0;
        while k < blocks.len()
            invariant
                k <= blocks@.len(),
                self.config() == old(self).config(),
                self.sheet() == old(self).sheet(),
                self.state() == blocks_text(old(self).config(), st, blocks@, k as nat),
            decreases blocks@.len() - k,
        {
            proof {
                assert(decreases_to!(blocks => blocks@));
                assert(decreases_to!(blocks@ => blocks@[k as int]));
            }
            self.visit_block(&blocks[k]);
            k = k + 1;
        }
    }

    fn visit_node(&mut self, node: NodeRef)
        ensures
            final(self).state() == node_text(old(self).config(), old(self).state(), node),
            final(self).config() == old(self).config(),
            final(self).sheet() == old(self).sheet(),
    {
        match node {
            NodeRef::Document(d) => self.visit_blocks(&d.blocks),
            NodeRef::Para(p) => {
                let keep = (p.style.0 as usize) >= self.keep_para.len() || self.keep_para[p.style.0 as usize];
                if keep {
                    self.boundary();
                    self.visit_inlines(&p.children);
                    self.boundary();
                }
            },
            NodeRef::Table(t) => self.visit_rows(&t.rows),
            NodeRef::TableRow(r) => self.visit_row(r),
            NodeRef::TableCell(c) => self.visit_cell(c),
            NodeRef::Text(t) => self.push(t.content.as_str()),
            NodeRef::Char(c) => {
                let keep = (c.style.0 as usize) >= self.keep_char.len() || self.keep_char[c.style.0 as usize];
                if keep {
                    self.visit_inlines(&c.children);
                }
            },
            NodeRef::Note(n) => {
                if self.notes {
                    self.boundary();
                    self.visit_inlines(&n.children);
                    self.boundary();
                }
            },
            NodeRef::Sidebar(sb) => self.visit_blocks(&sb.blocks),
            NodeRef::Periph(pb) => self.visit_blocks(&pb.blocks),
            _ => {},
        }
    }

    fn reset(&mut self)
        ensures
            final(self).state() == fresh(),
            final(self).config() == old(self).config(),
            final(self).sheet() == old(self).sheet(),
    {
        self.out = Vec::new();
        self.at_boundary = false;
        assert(self.state() =~= fresh());
    }

    fn finish(&mut self) -> (text: String)
        ensures
            text@ == finished(old(self).state()),
            final(self).config() == old(self).config(),
            final(self).sheet() == old(self).sheet(),
    {
        self.trim_end();
        let mut text = String::new();
        let mut i: usize = 0;
        while i < self.out.len()
            invariant
                i <= self.out@.len(),
                self.out@ == trim_end_ws(old(self).out@),
                text@ == self.out@.take(i as int),
            decreases self.out@.len() - i,
        {
            push_char(&mut text, self.out[i]);
            assert(self.out@.take(i + 1) =~= self.out@.take(i as int).push(self.out@[i as int]));
            i = i + 1;
        }
        assert(self.out@.take(self.out@.len() as int) =~= self.out@);
        self.out = Vec::new();
        text
    }

    /// The text of a whole document.
    pub fn of_document(&mut self, document: &Document) -> (text: String)
        ensures
            text@ == finished(blocks_text(old(self).config(), fresh(), document.blocks@, document.blocks@.len())),
            final(self).config() == old(self).config(),
            final(self).sheet() == old(self).sheet(),
    {
        self.reset();
        self.visit_blocks(&document.blocks);
        self.finish()
    }

    /// The text of one node and everything in it.
    pub fn of_node(&mut self, node: NodeRef) -> (text: String)
        ensures
            text@ == finished(node_text(old(self).config(), fresh(), node)),
            final(self).config() == old(self).config(),
            final(self).sheet() == old(self).sheet(),
    {
        self.reset();
        self.visit_node(node);
        self.finish()
    }

    /// The text of nodes with their paths: a change of block, the first
    /// element of the path, is a boundary.
    pub fn of_located(&mut self, nodes: Vec<(Vec<usize>, NodeRef)>) -> (text: String)
        ensures
            text@ == finished(located_text(old(self).config(), fresh(), located_views(nodes@), nodes@.len()).0),
            final(self).config() == old(self).config(),
            final(self).sheet() == old(self).sheet(),
    {
        self.reset();
        let ghost views = located_views(nodes@);
        let mut block: Option<usize> = None;
        let mut k: usize = 0;
        while k < nodes.len()
            invariant
                k <= nodes@.len(),
                views == located_views(nodes@),
                self.config() == old(self).config(),
                self.sheet() == old(self).sheet(),
                (self.state(), block) == located_text(old(self).config(), fresh(), views, k as nat),
            decreases nodes@.len() - k,
        {
            let (path, node) = &nodes[k];
            let first = if path.len() > 0 {
                Some(path[0])
            } else {
                None
            };
            let crossed = match block {
                Some(b) => match first {
                    Some(f) => b != f,
                    None => true,
                },
                None => false,
            };
            if crossed {
                self.boundary();
            }
            block = first;
            self.visit_node(*node);
            k = k + 1;
        }
        self.finish()
    }
}

/// Nodes with their paths, the paths as values.
pub open spec fn located_views<'a>(nodes: Seq<(Vec<usize>, NodeRef<'a>)>) -> Seq<(Seq<usize>, NodeRef<'a>)> {
    Seq::new(nodes.len(), |i: int| (nodes[i].0@, nodes[i].1))
}


/// Table cells are blocks of their own: two cells of one word each come out
/// as the two words with the block separator between them, whatever the
/// separator and the knobs.
pub proof fn law_cells_are_set_apart(cfg: TextConfig, first: TableCell, second: TableCell, a: Seq<char>, b: Seq<char>)
    requires
        first.children@.len() == 1,
        first.children@[0] matches Inline::Text(t) && t.content@ == a,
        second.children@.len() == 1,
        second.children@[0] matches Inline::Text(t) && t.content@ == b,
        a.len() > 0,
        b.len() > 0,
        !is_space(a.last()),
        !is_space(b[0]),
        !is_space(b.last()),
    ensures
        finished(cells_text(cfg, fresh(), seq![first, second], 2)) == a + cfg.separator + b,
{
    let cells = seq![first, second];
    assert(cells[0] == first && cells[1] == second);
    let s0 = fresh();
    assert(cells_text(cfg, s0, cells, 0) == s0);
    assert(boundary(s0) == s0);
    assert(inlines_text(cfg, s0, first.children@, 0) == s0);
    let p1 = pushed(cfg, s0, a);
    assert(p1.out =~= a);
    assert(inline_text(cfg, s0, first.children@[0]) == p1);
    assert(inlines_text(cfg, s0, first.children@, 1) == p1);
    let s1 = boundary(p1);
    assert(s1.at_boundary && s1.out == a);
    assert(cells_text(cfg, s0, cells, 1) == s1);
    assert(boundary(s1) == s1);
    assert(inlines_text(cfg, s1, second.children@, 0) == s1);
    assert(trim_end_ws(a) == a);
    assert(trim_start_ws(b) == b);
    let p2 = pushed(cfg, s1, b);
    assert(p2.out =~= a + cfg.separator + b);
    assert(inline_text(cfg, s1, second.children@[0]) == p2);
    assert(inlines_text(cfg, s1, second.children@, 1) == p2);
    let s2 = boundary(p2);
    assert(cells_text(cfg, s0, cells, 2) == s2);
    assert((a + cfg.separator + b).last() == b.last());
    assert(trim_end_ws(s2.out) == s2.out);
}

} // verus!
