//! The parser: tokens to a document tree, with a diagnostic for everything it
//! had to repair.
//!
//! Parsing never fails. Whatever the input, the result is a document whose
//! every style resolves in the document's own stylesheet and whose every span
//! lies inside the source, together with the list of repairs.
use vstd::prelude::*;
use std::sync::Arc;
use crate::ast::{
    lemma_inline_styles, lemma_inline_spans, lemma_block_styles, lemma_block_spans, inlines_spans_ok, inlines_styles_below, attributes_ok, block_spans_ok, block_styles_below, blocks_ok, blocks_spans_ok,
    blocks_styles_below, inline_spans_ok, inline_styles_below, ordered_span, span_ok, Alignment,
    Attribute, Attributes, Block, Caller, ChapterStart, Char, Document, Inline, Milestone, Note,
    OptBreak, Para, Periph, Sidebar, StyleId, Table, TableCell, TableRow, Text, VerseStart,
};
use crate::book::{Book, BookCode};
use crate::container::{add_child, children_ok, trim_trailing_whitespace, ends_with_space};
use crate::diagnostics::{code_is_semantic, code_severity, Code, Diagnostic, ParseResult};
use crate::lexer::{first_char, is_space, lemma_tiles_cover, lex, spaces_are_blank, tiles, Token, TokenKind};
use crate::number::NumberList;
use crate::source::{byte_len, SourceText};
use crate::span::Span;
use crate::style::{StyleRule, StyleSheet, StyleType};
use crate::strings::{push_char, push_str, share, str_chars, str_eq};

verus! {

/// An open character style or note.
struct Frame {
    note: bool,
    style: u32,
    start: u32,
    /// The opening marker as the source spells it.
    opener: Span,
    children: Vec<Inline>,
    attributes: Option<Attributes>,
    caller: Caller,
    category: Option<Text>,
}

/// An open paragraph.
struct ParaB {
    style: u32,
    start: u32,
    children: Vec<Inline>,
}

/// An open table cell.
struct CellB {
    header: bool,
    alignment: Alignment,
    column: usize,
    colspan: usize,
    start: u32,
    children: Vec<Inline>,
}

/// An open table row.
struct RowB {
    start: u32,
    cells: Vec<TableCell>,
    cell: Option<CellB>,
}

/// An open table.
struct TableB {
    start: u32,
    rows: Vec<TableRow>,
    row: Option<RowB>,
}

/// An open sidebar.
struct SidebarB {
    style: u32,
    start: u32,
    category: Option<Text>,
    blocks: Vec<Block>,
}

/// An open peripheral division.
struct PeriphB {
    style: u32,
    start: u32,
    title: Option<Text>,
    attributes: Option<Attributes>,
    blocks: Vec<Block>,
}

spec fn text_ok(t: Option<Text>, total: nat) -> bool {
    match t {
        Some(x) => span_ok(x.span, total),
        None => true,
    }
}

spec fn frame_ok(f: Frame, n: nat, total: nat) -> bool {
    &&& f.style < n
    &&& f.start <= total
    &&& span_ok(f.opener, total)
    &&& children_ok(f.children@, n, total)
    &&& attributes_ok(f.attributes, total)
    &&& text_ok(f.category, total)
}

spec fn frames_ok(frames: Seq<Frame>, n: nat, total: nat) -> bool {
    forall|k: int| 0 <= k < frames.len() ==> #[trigger] frame_ok(frames[k], n, total)
}

spec fn cell_ok(c: TableCell, n: nat, total: nat) -> bool {
    span_ok(c.span, total) && children_ok(c.children@, n, total)
}

spec fn cells_ok(cells: Seq<TableCell>, n: nat, total: nat) -> bool {
    forall|k: int| 0 <= k < cells.len() ==> #[trigger] cell_ok(cells[k], n, total)
}

spec fn row_ok(r: TableRow, n: nat, total: nat) -> bool {
    span_ok(r.span, total) && cells_ok(r.cells@, n, total)
}

spec fn rows_ok(rows: Seq<TableRow>, n: nat, total: nat) -> bool {
    forall|k: int| 0 <= k < rows.len() ==> #[trigger] row_ok(rows[k], n, total)
}

spec fn table_ok(t: Option<TableB>, n: nat, total: nat) -> bool {
    match t {
        Some(t) => t.start <= total && rows_ok(t.rows@, n, total) && match t.row {
            Some(r) => r.start <= total && cells_ok(r.cells@, n, total) && match r.cell {
                Some(c) => c.start <= total && children_ok(c.children@, n, total),
                None => true,
            },
            None => true,
        },
        None => true,
    }
}

spec fn para_ok(p: Option<ParaB>, n: nat, total: nat) -> bool {
    match p {
        Some(p) => p.style < n && p.start <= total && children_ok(p.children@, n, total),
        None => true,
    }
}

spec fn sidebar_ok(s: Option<SidebarB>, n: nat, total: nat) -> bool {
    match s {
        Some(s) => s.style < n && s.start <= total && text_ok(s.category, total) && blocks_ok(
            s.blocks@,
            n,
            total,
        ),
        None => true,
    }
}

spec fn periph_ok(p: Option<PeriphB>, n: nat, total: nat) -> bool {
    match p {
        Some(p) => p.style < n && p.start <= total && text_ok(p.title, total) && attributes_ok(
            p.attributes,
            total,
        ) && blocks_ok(p.blocks@, n, total),
        None => true,
    }
}

spec fn diags_ok(diags: Seq<Diagnostic>, total: nat) -> bool {
    forall|k: int| 0 <= k < diags.len() ==> repair_ok(#[trigger] diags[k], total)
}

/// A repair the parser reports: in bounds, with its code's severity, and a
/// code of the parser's own rather than of the checks over a finished tree.
pub open spec fn repair_ok(diagnostic: Diagnostic, total: nat) -> bool {
    &&& span_ok(diagnostic.span, total)
    &&& diagnostic.severity == code_severity(diagnostic.code)
    &&& !code_is_semantic(diagnostic.code)
}

/// The parser's state: the input, the position in it, and everything built
/// so far, from the innermost open node out.
struct State {
    src: SourceText,
    tokens: Vec<Token>,
    pos: usize,
    base: Arc<StyleSheet>,
    extra: Vec<StyleRule>,
    diags: Vec<Diagnostic>,
    blocks: Vec<Block>,
    sidebar: Option<SidebarB>,
    periph: Option<PeriphB>,
    para: Option<ParaB>,
    table: Option<TableB>,
    frames: Vec<Frame>,
    after_chapter: bool,
}

impl State {
    /// The character where token `i` starts, or the end of the text.
    spec fn start_char(&self, i: int) -> int {
        if 0 <= i < self.tokens@.len() {
            self.tokens@[i].start as int
        } else {
            self.src.chars@.len() as int
        }
    }

    /// The character where token `i` ends, or the end of the text.
    spec fn end_char(&self, i: int) -> int {
        if 0 <= i < self.tokens@.len() {
            self.tokens@[i].end as int
        } else {
            self.src.chars@.len() as int
        }
    }

    /// The style `name` resolves to: the base sheet's first rule of that
    /// marker, else the first derived one.
    spec fn named_style(&self, name: Seq<char>) -> Option<nat> {
        style_in(self.base.rules@, names_of(self.extra@), name)
    }

    /// Whether a marker named `name` starts a block.
    spec fn block_marker_spec(&self, name: Seq<char>) -> bool {
        name == "c"@ || name == "id"@ || name == "esb"@ || name == "esbe"@
            || name == "periph"@ || name == "tr"@ || cell_marker_spec(name) is Some
            || (self.named_style(name) matches Some(id)
                && self.rule_spec(id).style_type == StyleType::Paragraph)
    }

    /// The marker of the innermost open note among the first `k` frames.
    spec fn note_below(&self, k: int) -> Option<Seq<char>>
        decreases k,
    {
        if k <= 0 {
            None
        } else if self.frames@[k - 1].note {
            Some(self.rule_spec(self.frames@[k - 1].style as nat).marker@)
        } else {
            self.note_below(k - 1)
        }
    }

    /// Whether, from token `j` on, the closing marker `name` comes before a
    /// closer of `enclosing` or of `note`, or a block marker.
    spec fn closer_from(&self, name: Seq<char>, enclosing: Seq<char>, note: Option<Seq<char>>, j: int) -> bool
        decreases self.tokens@.len() - j,
    {
        if j < 0 || j >= self.tokens@.len() {
            false
        } else {
            let t = self.tokens@[j];
            if t.kind == TokenKind::EndMarker {
                if t.text@ == name {
                    true
                } else if t.text@ == enclosing {
                    false
                } else if note == Some(t.text@) {
                    false
                } else {
                    self.closer_from(name, enclosing, note, j + 1)
                }
            } else if t.kind == TokenKind::Marker && self.block_marker_spec(t.text@) {
                false
            } else {
                self.closer_from(name, enclosing, note, j + 1)
            }
        }
    }

    /// The children of the innermost open node that holds inline content:
    /// the innermost character style or note, else the paragraph, else the
    /// open table cell.
    spec fn innermost_children(&self) -> Seq<Inline> {
        if self.frames@.len() > 0 {
            self.frames@.last().children@
        } else if self.para is Some {
            self.para->Some_0.children@
        } else {
            self.table->Some_0.row->Some_0.cell->Some_0.children@
        }
    }

    /// Whether nothing is open: no style, paragraph, table, sidebar or
    /// peripheral division.
    spec fn idle(&self) -> bool {
        self.frames@.len() == 0 && self.para is None && self.table is None && self.sidebar is None
            && self.periph is None
    }

    spec fn styles(&self) -> nat {
        self.base.rules@.len() + self.extra@.len()
    }

    spec fn total(&self) -> nat {
        self.src.byte_total()
    }

    spec fn has_container(&self) -> bool {
        self.para is Some || (self.table matches Some(t) && (t.row matches Some(r) && r.cell is Some))
    }

    spec fn shape(&self) -> (bool, bool, bool, bool) {
        (self.sidebar is Some, self.periph is Some, self.para is Some, self.table is Some)
    }

    spec fn input(&self) -> (Seq<char>, Seq<Token>, StyleSheet, Seq<StyleRule>) {
        (self.src.chars@, self.tokens@, *self.base, self.extra@)
    }

    /// The input is well formed, and everything built from it resolves its
    /// styles and stays inside it.
    spec fn inv(&self) -> bool {
        let n = self.styles();
        let t = self.total();
        &&& self.src.wf()
        &&& tiles(self.tokens@, first_char(self.src.chars@), self.src.chars@.len() as int)
        &&& self.pos <= self.tokens@.len()
        &&& t <= u32::MAX
        &&& n < u32::MAX
        &&& blocks_ok(self.blocks@, n, t)
        &&& sidebar_ok(self.sidebar, n, t)
        &&& periph_ok(self.periph, n, t)
        &&& para_ok(self.para, n, t)
        &&& table_ok(self.table, n, t)
        &&& frames_ok(self.frames@, n, t)
        &&& (self.frames@.len() > 0 ==> self.has_container())
        &&& diags_ok(self.diags@, t)
        &&& (self.after_chapter ==> self.blocks@.len() > 0 || self.sidebar is Some || self.periph is Some)
    }

    /// Whether anything has come of the input so far: a block, a repair, or
    /// something still open.
    spec fn produced(&self) -> bool {
        !self.idle() || self.blocks@.len() > 0 || self.diags@.len() > 0
    }

    /// The state moved on and kept its input.
    spec fn advanced(&self, old: &State) -> bool {
        &&& self.inv()
        &&& self.input() == old.input()
        &&& self.pos >= old.pos
        &&& (old.produced() ==> self.produced())
    }

    // ----- reading the input -----

    fn len(&self) -> (n: usize)
        ensures
            n == self.tokens@.len(),
    {
        self.tokens.len()
    }

    fn kind(&self, i: usize) -> (k: TokenKind)
        requires
            i < self.tokens@.len(),
        ensures
            k == self.tokens@[i as int].kind,
    {
        self.tokens[i].kind
    }

    /// Whether token `i` is a marker of kind `kind` named `name`.
    fn is(&self, i: usize, kind: TokenKind, name: &str) -> (b: bool)
        ensures
            b ==> i < self.tokens@.len() && self.tokens@[i as int].kind == kind,
            b == (i < self.tokens@.len() && self.tokens@[i as int].kind == kind
                && self.tokens@[i as int].text@ == name@),
    {
        i < self.tokens.len() && self.tokens[i].kind == kind && str_eq(self.tokens[i].text.as_str(), name)
    }

    /// The byte offset of the start of token `i`, or the end of the text.
    fn start_off(&self, i: usize) -> (off: u32)
        requires
            self.inv(),
        ensures
            off <= self.total(),
            off == byte_len(self.src.chars@.take(self.start_char(i as int))),
    {
        if i < self.tokens.len() {
            let c = self.tokens[i].start;
            assert(c < self.tokens@[i as int].end <= self.src.chars@.len());
            self.src.offset(c)
        } else {
            self.src.offset(self.src.chars.len())
        }
    }

    /// The byte offset of the end of token `i`, or the end of the text.
    fn end_off(&self, i: usize) -> (off: u32)
        requires
            self.inv(),
        ensures
            off <= self.total(),
            off == byte_len(self.src.chars@.take(self.end_char(i as int))),
    {
        if i < self.tokens.len() {
            let c = self.tokens[i].end;
            assert(self.tokens@[i as int].end <= self.src.chars@.len());
            self.src.offset(c)
        } else {
            self.src.offset(self.src.chars.len())
        }
    }

    /// The byte offset of the current position.
    fn here(&self) -> (off: u32)
        requires
            self.inv(),
        ensures
            off <= self.total(),
    {
        self.start_off(self.pos)
    }

    /// The span `start..end`, never inverted.
    fn span(&self, start: u32, end: u32) -> (span: Span)
        requires
            self.inv(),
            end <= self.total(),
        ensures
            span_ok(span, self.total()),
            span.end == end,
            start <= end ==> span.start == start,
    {
        ordered_span(start, end)
    }

    /// The span of token `i`.
    fn token_span(&self, i: usize) -> (span: Span)
        requires
            self.inv(),
        ensures
            span_ok(span, self.total()),
            span.start == byte_len(self.src.chars@.take(self.start_char(i as int))),
            span.end == byte_len(self.src.chars@.take(self.end_char(i as int))),
    {
        let end = self.end_off(i);
        let start = self.start_off(i);
        proof {
            if i < self.tokens@.len() {
                assert(self.tokens@[i as int].start < self.tokens@[i as int].end <= self.src.chars@.len());
            }
            self.src.lemma_offsets_monotone(self.start_char(i as int), self.end_char(i as int));
            assert(self.src.offsets@[self.start_char(i as int)] == byte_len(self.src.chars@.take(self.start_char(i as int))));
            assert(self.src.offsets@[self.end_char(i as int)] == byte_len(self.src.chars@.take(self.end_char(i as int))));
        }
        self.span(start, end)
    }

    /// The characters of tokens `from..to`, as they stand in the source.
    fn raw(&self, i: usize) -> (text: String)
        requires
            self.inv(),
            i < self.tokens@.len(),
        ensures
            text@ == self.src.chars@.subrange(self.tokens@[i as int].start as int, self.tokens@[i as int].end as int),
    {
        let mut text = String::new();
        let start = self.tokens[i].start;
        let mut c = start;
        let end = self.tokens[i].end;
        assert(start < end <= self.src.chars@.len());
        while c < end
            invariant
                start <= c <= end,
                end <= self.src.chars@.len(),
                text@ == self.src.chars@.subrange(start as int, c as int),
            decreases end - c,
        {
            push_char(&mut text, self.src.chars[c]);
            c = c + 1;
            assert(text@ =~= self.src.chars@.subrange(start as int, c as int));
        }
        text
    }

    /// The first token at or after `from` that is not whitespace, or, when
    /// `lines` is false, that is not whitespace on the same line.
    fn skip_space_from(&self, from: usize, lines: bool) -> (j: usize)
        ensures
            from <= j,
            from <= self.tokens@.len() ==> j <= self.tokens@.len(),
            from >= self.tokens@.len() ==> j == from,
            forall|k: int| from <= k < j ==> skippable(#[trigger] self.tokens@[k], lines),
            j < self.tokens@.len() ==> !skippable(self.tokens@[j as int], lines),
    {
        let n = self.tokens.len();
        let mut j = from;
        while j < n && self.tokens[j].kind == TokenKind::Space && (lines || !self.tokens[j].newline)
            invariant
                n == self.tokens@.len(),
                from <= j,
                from <= n ==> j <= n,
                from >= n ==> j == from,
                forall|k: int| from <= k < j ==> skippable(#[trigger] self.tokens@[k], lines),
            decreases n - j,
        {
            j = j + 1;
        }
        j
    }

    // ----- the stylesheet -----

    spec fn rule_spec(&self, id: nat) -> StyleRule {
        if id < self.base.rules@.len() {
            self.base.rules@[id as int]
        } else {
            self.extra@[id - self.base.rules@.len()]
        }
    }

    fn rule(&self, id: u32) -> (rule: &StyleRule)
        requires
            id < self.styles(),
        ensures
            *rule == self.rule_spec(id as nat),
    {
        let b = self.base.rules.len();
        if (id as usize) < b {
            &self.base.rules[id as usize]
        } else {
            &self.extra[id as usize - b]
        }
    }

    /// The style named `name`: the base sheet's first, else a derived one.
    fn find_style(&self, name: &str) -> (id: Option<u32>)
        requires
            self.inv(),
        ensures
            id matches Some(i) ==> i < self.styles(),
            id is Some <==> self.named_style(name@) is Some,
            id matches Some(i) ==> self.named_style(name@) == Some(i as nat),
    {
        let b = self.base.rules.len();
        match self.base.get_marker_index(name) {
            Some(i) => {
                proof {
                    lemma_first_marker(self.base.rules@, name@, 0, Some(i as nat));
                }
                return Some(i as u32);
            },
            None => {},
        }
        proof {
            lemma_first_marker(self.base.rules@, name@, 0, None);
        }
        let mut k: usize = 0;
        while k < self.extra.len()
            invariant
                b == self.base.rules@.len(),
                b + self.extra@.len() < u32::MAX,
                k <= self.extra@.len(),
                forall|j: int| 0 <= j < k ==> self.extra@[j].marker@ != name@,
                first_marker(self.base.rules@, name@, 0) is None,
            decreases self.extra@.len() - k,
        {
            if str_eq(self.extra[k].marker.as_str(), name) {
                proof {
                    lemma_first_name(names_of(self.extra@), name@, Some(k as nat));
                }
                return Some((b + k) as u32);
            }
            k = k + 1;
        }
        proof {
            lemma_first_name(names_of(self.extra@), name@, None);
        }
        None
    }


    // ----- the open nodes -----

    fn has_container_exec(&self) -> (b: bool)
        ensures
            b == self.has_container(),
    {
        if self.para.is_some() {
            return true;
        }
        match &self.table {
            Some(t) => match &t.row {
                Some(r) => r.cell.is_some(),
                None => false,
            },
            None => false,
        }
    }

    /// Whether a note is open.
    fn in_note(&self) -> (b: bool)
        ensures
            b == exists|k: int| 0 <= k < self.frames@.len() && (#[trigger] self.frames@[k]).note,
    {
        let mut k: usize = 0;
        while k < self.frames.len()
            invariant
                k <= self.frames@.len(),
                forall|j: int| 0 <= j < k ==> !(#[trigger] self.frames@[j]).note,
            decreases self.frames@.len() - k,
        {
            if self.frames[k].note {
                return true;
            }
            k = k + 1;
        }
        false
    }

    /// Add an inline node to the innermost open node.
    fn add_inline(&mut self, node: Inline)
        requires
            old(self).inv(),
            old(self).has_container(),
            inline_styles_below(node, old(self).styles()),
            inline_spans_ok(node, old(self).total()),
        ensures
            final(self).shape() == old(self).shape(),
            final(self).inv(),
            old(self).produced() ==> final(self).produced(),
            final(self).input() == old(self).input(),
            final(self).pos == old(self).pos,
            final(self).has_container(),
            final(self).frames@.len() == old(self).frames@.len(),
            forall|k: int| 0 <= k < old(self).frames@.len() ==> (#[trigger] final(self).frames@[k]).note == old(self).frames@[k].note,
            !(node is Text) ==> final(self).innermost_children() == old(self).innermost_children().push(node),
            node is Text ==> old(self).innermost_children().len() <= final(self).innermost_children().len()
                <= old(self).innermost_children().len() + 1,
            node is Text ==> forall|k: int| 0 <= k < old(self).innermost_children().len() - 1
                ==> final(self).innermost_children()[k] == old(self).innermost_children()[k],
            final(self).blocks@ == old(self).blocks@,
            final(self).diags@ == old(self).diags@,
            old(self).frames@.len() > 0 ==> final(self).frames@.drop_last() == old(self).frames@.drop_last()
                && final(self).para == old(self).para && final(self).table == old(self).table
                && final(self).frames@.last().style == old(self).frames@.last().style
                && final(self).frames@.last().start == old(self).frames@.last().start
                && final(self).frames@.last().opener == old(self).frames@.last().opener
                && final(self).frames@.last().attributes == old(self).frames@.last().attributes
                && final(self).frames@.last().caller == old(self).frames@.last().caller
                && final(self).frames@.last().category == old(self).frames@.last().category,
            old(self).frames@.len() == 0 && old(self).para is Some ==> final(self).frames@ == old(self).frames@
                && final(self).table == old(self).table
                && final(self).para->Some_0.style == old(self).para->Some_0.style
                && final(self).para->Some_0.start == old(self).para->Some_0.start,
            old(self).frames@.len() == 0 && old(self).para is None ==> final(self).frames@ == old(self).frames@
                && final(self).para == old(self).para,
    {
        let ghost n = self.styles();
        let ghost t = self.total();
        if self.frames.len() > 0 {
            let ghost before = self.frames@;
            let mut f = self.frames.pop().unwrap();
            proof {
                assert(self.frames@ =~= before.drop_last());
                assert(frame_ok(before[before.len() - 1], n, t));
            }
            add_child(&mut f.children, node, Ghost(n), Ghost(t));
            self.frames.push(f);
            proof {
                assert forall|k: int| 0 <= k < self.frames@.len() implies #[trigger] frame_ok(self.frames@[k], n, t) by {
                    if k < before.len() - 1 {
                        assert(self.frames@[k] == before[k]);
                    }
                }
                assert forall|k: int| 0 <= k < before.len() implies (#[trigger] self.frames@[k]).note == before[k].note by {
                    if k < before.len() - 1 {
                        assert(self.frames@[k] == before[k]);
                    }
                }
            }
        } else if self.para.is_some() {
            let mut p = self.para.take().unwrap();
            add_child(&mut p.children, node, Ghost(n), Ghost(t));
            self.para = Some(p);
        } else {
            let mut tb = self.table.take().unwrap();
            let mut row = tb.row.take().unwrap();
            let mut cell = row.cell.take().unwrap();
            add_child(&mut cell.children, node, Ghost(n), Ghost(t));
            row.cell = Some(cell);
            tb.row = Some(row);
            self.table = Some(tb);
        }
    }

    /// Add a text run to the innermost open node.
    fn add_text(&mut self, content: String, span: Span)
        requires
            old(self).inv(),
            old(self).has_container(),
            span_ok(span, old(self).total()),
        ensures
            final(self).shape() == old(self).shape(),
            final(self).inv(),
            old(self).produced() ==> final(self).produced(),
            final(self).input() == old(self).input(),
            final(self).pos == old(self).pos,
            final(self).has_container(),
            final(self).frames@.len() == old(self).frames@.len(),
            forall|k: int| 0 <= k < old(self).frames@.len() ==> (#[trigger] final(self).frames@[k]).note == old(self).frames@[k].note,
    {
        self.add_inline(Inline::Text(Text { content, span }));
    }

    /// Close the innermost open character style or note at `end`.
    fn close_top_frame(&mut self, end: u32)
        requires
            old(self).inv(),
            old(self).frames@.len() > 0,
            end <= old(self).total(),
        ensures
            final(self).shape() == old(self).shape(),
            final(self).inv(),
            old(self).produced() ==> final(self).produced(),
            final(self).input() == old(self).input(),
            final(self).pos == old(self).pos,
            final(self).frames@.len() == old(self).frames@.len() - 1,
            final(self).has_container(),
            forall|k: int| 0 <= k < final(self).frames@.len() ==> (#[trigger] final(self).frames@[k]).note == old(self).frames@[k].note,
    {
        let ghost n = self.styles();
        let ghost t = self.total();
        let ghost before = self.frames@;
        let f = self.frames.pop().unwrap();
        proof {
            assert(self.frames@ =~= before.drop_last());
            assert(frame_ok(before[before.len() - 1], n, t));
            assert forall|k: int| 0 <= k < self.frames@.len() implies #[trigger] frame_ok(self.frames@[k], n, t) by {
                assert(self.frames@[k] == before[k]);
            }
        }
        assert(f == before[before.len() - 1]);
        let span = self.span(f.start, end);
        let ghost fc = f.children@;
        assert(f.style < n);
        assert(attributes_ok(f.attributes, t));
        assert(text_ok(f.category, t));
        assert(span_ok(span, t));
        proof {
            lemma_inline_styles(fc, n);
            lemma_inline_spans(fc, t);
        }
        let node = if f.note {
            let x = Note {
                style: StyleId(f.style),
                caller: f.caller,
                category: f.category,
                children: f.children,
                span,
            };
            assert(x.children@ == fc);
            assert(inline_styles_below(Inline::Note(x), n));
            assert(inline_spans_ok(Inline::Note(x), t));
            Inline::Note(x)
        } else {
            let c = Char { style: StyleId(f.style), children: f.children, attributes: f.attributes, span };
            assert(c.children@ == fc);
            assert(inline_styles_below(Inline::Char(c), n));
            assert(inline_spans_ok(Inline::Char(c), t));
            Inline::Char(c)
        };
        assert(inline_styles_below(node, n));
        assert(inline_spans_ok(node, t));
        self.add_inline(node);
        proof {
            assert forall|k: int| 0 <= k < self.frames@.len() implies (#[trigger] self.frames@[k]).note == before[k].note by {
                assert(self.frames@[k].note == before.drop_last()[k].note);
            }
        }
    }

    /// Close every open character style and note at `end`, reporting each
    /// one a closing marker should have closed.
    fn close_frames(&mut self, end: u32, report: bool)
        requires
            old(self).inv(),
            end <= old(self).total(),
        ensures
            final(self).shape() == old(self).shape(),
            final(self).inv(),
            old(self).produced() ==> final(self).produced(),
            final(self).input() == old(self).input(),
            final(self).pos == old(self).pos,
            final(self).frames@.len() == 0,
            old(self).has_container() ==> final(self).has_container(),
            old(self).idle() ==> final(self).blocks@ == old(self).blocks@ && final(self).diags@ == old(self).diags@
                && final(self).idle(),
    {
        if self.frames.len() == 0 {
            return;
        }
        while self.frames.len() > 0
            invariant
                self.inv(),
                self.input() == old(self).input(),
                self.pos == old(self).pos,
                self.shape() == old(self).shape(),
                end <= self.total(),
                old(self).has_container() ==> self.has_container(),
            decreases self.frames@.len(),
        {
            let last = self.frames.len() - 1;
            assert(frame_ok(self.frames@[last as int], self.styles(), self.total()));
            if report {
                let start = self.frames[last].start;
                let span = self.span(start, end);
                if self.frames[last].note {
                    self.report(Code::NoteNotClosed, span, "note not closed");
                } else if !self.in_note() {
                    let style = self.frames[last].style;
                    let fig = str_eq(self.rule(style).marker.as_str(), "fig");
                    if fig {
                        self.report(Code::FigureNotClosed, span, "figure not closed");
                    } else {
                        let opener = self.frames[last].opener;
                        self.report(Code::CharacterStyleNotClosed, opener, "character style not closed");
                    }
                }
            }
            self.close_top_frame(end);
        }
    }

    /// Put a finished block into the innermost open block container.
    fn push_out(&mut self, block: Block)
        requires
            old(self).inv(),
            block_styles_below(block, old(self).styles()),
            block_spans_ok(block, old(self).total()),
        ensures
            final(self).inv(),
            old(self).produced() ==> final(self).produced(),
            final(self).input() == old(self).input(),
            final(self).pos == old(self).pos,
            final(self).has_container() == old(self).has_container(),
            final(self).frames@ == old(self).frames@,
            final(self).sidebar is Some == old(self).sidebar is Some,
            final(self).periph is Some == old(self).periph is Some,
            final(self).table is Some == old(self).table is Some,
            final(self).para is Some == old(self).para is Some,
            !final(self).after_chapter,
            old(self).sidebar matches Some(sb) ==> final(self).sidebar matches Some(fsb)
                && fsb.blocks@ == sb.blocks@.push(block) && final(self).blocks@ == old(self).blocks@,
            old(self).sidebar is None ==> (old(self).periph matches Some(pb) ==> final(self).periph matches Some(fpb)
                && fpb.blocks@ == pb.blocks@.push(block) && final(self).blocks@ == old(self).blocks@),
            old(self).sidebar is None && old(self).periph is None ==> final(self).blocks@
                == old(self).blocks@.push(block),
    {
        let ghost n = self.styles();
        let ghost t = self.total();
        if self.sidebar.is_some() {
            let mut sb = self.sidebar.take().unwrap();
            push_block(&mut sb.blocks, block, Ghost(n), Ghost(t));
            self.sidebar = Some(sb);
        } else if self.periph.is_some() {
            let mut pb = self.periph.take().unwrap();
            push_block(&mut pb.blocks, block, Ghost(n), Ghost(t));
            self.periph = Some(pb);
        } else {
            push_block(&mut self.blocks, block, Ghost(n), Ghost(t));
        }
        self.after_chapter = false;
    }

    /// Close the open paragraph at `end`.
    fn close_para(&mut self, end: u32)
        requires
            old(self).inv(),
            old(self).frames@.len() == 0,
            end <= old(self).total(),
        ensures
            final(self).inv(),
            old(self).produced() ==> final(self).produced(),
            final(self).input() == old(self).input(),
            final(self).pos == old(self).pos,
            final(self).para is None,
            final(self).frames@.len() == 0,
            final(self).table is Some == old(self).table is Some,
            final(self).sidebar is Some == old(self).sidebar is Some,
            final(self).periph is Some == old(self).periph is Some,
            old(self).idle() ==> final(self).blocks@ == old(self).blocks@ && final(self).diags@ == old(self).diags@
                && final(self).idle(),
    {
        if self.para.is_none() {
            return;
        }
        let ghost n = self.styles();
        let ghost t = self.total();
        let mut p = self.para.take().unwrap();
        trim_trailing_whitespace(&mut p.children, Ghost(n), Ghost(t));
        let span = self.span(p.start, end);
        let block = Block::Para(Para { style: StyleId(p.style), children: p.children, span });
        self.push_out(block);
    }

    /// Close the open table cell at `end`.
    fn close_cell(&mut self, end: u32)
        requires
            old(self).inv(),
            old(self).frames@.len() == 0,
            end <= old(self).total(),
        ensures
            final(self).inv(),
            old(self).produced() ==> final(self).produced(),
            final(self).input() == old(self).input(),
            final(self).pos == old(self).pos,
            final(self).frames@.len() == 0,
            final(self).para == old(self).para,
            final(self).table is Some == old(self).table is Some,
            old(self).table matches Some(tb) ==> (final(self).table matches Some(tb2) && (tb.row is Some == tb2.row is Some) && (tb2.row matches Some(r) ==> r.cell is None)),
            final(self).sidebar is Some == old(self).sidebar is Some,
            final(self).periph is Some == old(self).periph is Some,
    {
        if self.table.is_none() {
            return;
        }
        let ghost n = self.styles();
        let ghost t = self.total();
        let mut tb = self.table.take().unwrap();
        if tb.row.is_none() {
            self.table = Some(tb);
            return;
        }
        let mut row = tb.row.take().unwrap();
        if row.cell.is_none() {
            tb.row = Some(row);
            self.table = Some(tb);
            return;
        }
        let mut cell = row.cell.take().unwrap();
        trim_trailing_whitespace(&mut cell.children, Ghost(n), Ghost(t));
        let span = self.span(cell.start, end);
        let done = TableCell {
            header: cell.header,
            alignment: cell.alignment,
            column: cell.column,
            colspan: cell.colspan,
            children: cell.children,
            span,
        };
        let ghost before = row.cells@;
        row.cells.push(done);
        proof {
            assert forall|k: int| 0 <= k < row.cells@.len() implies #[trigger] cell_ok(row.cells@[k], n, t) by {
                if k < before.len() {
                    assert(row.cells@[k] == before[k]);
                }
            }
        }
        tb.row = Some(row);
        self.table = Some(tb);
    }

    /// Close the open table row at `end`.
    fn close_row(&mut self, end: u32)
        requires
            old(self).inv(),
            old(self).frames@.len() == 0,
            end <= old(self).total(),
        ensures
            final(self).inv(),
            old(self).produced() ==> final(self).produced(),
            final(self).input() == old(self).input(),
            final(self).pos == old(self).pos,
            final(self).frames@.len() == 0,
            final(self).para == old(self).para,
            final(self).table is Some == old(self).table is Some,
            final(self).table matches Some(tb) ==> tb.row is None,
            final(self).sidebar is Some == old(self).sidebar is Some,
            final(self).periph is Some == old(self).periph is Some,
    {
        self.close_cell(end);
        if self.table.is_none() {
            return;
        }
        let ghost n = self.styles();
        let ghost t = self.total();
        let mut tb = self.table.take().unwrap();
        if tb.row.is_none() {
            self.table = Some(tb);
            return;
        }
        let row = tb.row.take().unwrap();
        let span = self.span(row.start, end);
        let done = TableRow { cells: row.cells, span };
        let ghost before = tb.rows@;
        tb.rows.push(done);
        proof {
            assert forall|k: int| 0 <= k < tb.rows@.len() implies #[trigger] row_ok(tb.rows@[k], n, t) by {
                if k < before.len() {
                    assert(tb.rows@[k] == before[k]);
                }
            }
        }
        self.table = Some(tb);
    }

    /// Close the open table at `end`.
    fn close_table(&mut self, end: u32)
        requires
            old(self).inv(),
            old(self).frames@.len() == 0,
            end <= old(self).total(),
        ensures
            final(self).inv(),
            old(self).produced() ==> final(self).produced(),
            final(self).input() == old(self).input(),
            final(self).pos == old(self).pos,
            final(self).frames@.len() == 0,
            final(self).para is Some == old(self).para is Some,
            final(self).table is None,
            final(self).sidebar is Some == old(self).sidebar is Some,
            final(self).periph is Some == old(self).periph is Some,
            old(self).idle() ==> final(self).blocks@ == old(self).blocks@ && final(self).diags@ == old(self).diags@
                && final(self).idle(),
    {
        if self.table.is_none() {
            return;
        }
        self.close_row(end);
        if self.table.is_none() {
            return;
        }
        let ghost n = self.styles();
        let ghost t = self.total();
        let tb = self.table.take().unwrap();
        let span = self.span(tb.start, end);
        let block = Block::Table(Table { rows: tb.rows, span });
        proof {
            assert(block_styles_below(block, n)) by {
                assert forall|r: int| 0 <= r < tb.rows@.len() implies forall|c: int|
                    0 <= c < (#[trigger] tb.rows@[r]).cells.len() ==> inlines_styles_below(
                        (#[trigger] tb.rows@[r].cells[c]).children@,
                        n,
                    ) by {
                    assert(row_ok(tb.rows@[r], n, t));
                    assert forall|c: int| 0 <= c < tb.rows@[r].cells.len() implies inlines_styles_below(
                        (#[trigger] tb.rows@[r].cells[c]).children@,
                        n,
                    ) by {
                        assert(cell_ok(tb.rows@[r].cells@[c], n, t));
                    }
                }
            }
            assert(block_spans_ok(block, t)) by {
                assert forall|r: int| 0 <= r < tb.rows@.len() implies span_ok((#[trigger] tb.rows@[r]).span, t) && forall|c: int|
                    0 <= c < tb.rows@[r].cells.len() ==> span_ok((#[trigger] tb.rows@[r].cells[c]).span, t)
                        && inlines_spans_ok(tb.rows@[r].cells[c].children@, t) by {
                    assert(row_ok(tb.rows@[r], n, t));
                    assert forall|c: int| 0 <= c < tb.rows@[r].cells.len() implies span_ok((#[trigger] tb.rows@[r].cells[c]).span, t)
                        && inlines_spans_ok(tb.rows@[r].cells[c].children@, t) by {
                        assert(cell_ok(tb.rows@[r].cells@[c], n, t));
                    }
                }
            }
        }
        self.push_out(block);
    }

    /// Close whatever holds inline content, and any table, at `end`.
    fn close_block_level(&mut self, end: u32)
        requires
            old(self).inv(),
            end <= old(self).total(),
        ensures
            final(self).inv(),
            old(self).produced() ==> final(self).produced(),
            final(self).input() == old(self).input(),
            final(self).pos == old(self).pos,
            final(self).frames@.len() == 0,
            final(self).para is None,
            final(self).table is None,
            !final(self).has_container(),
            final(self).sidebar is Some == old(self).sidebar is Some,
            final(self).periph is Some == old(self).periph is Some,
            old(self).idle() ==> final(self).blocks@ == old(self).blocks@ && final(self).diags@ == old(self).diags@
                && final(self).idle(),
    {
        self.close_frames(end, true);
        self.close_para(end);
        self.close_table(end);
    }


    /// Make sure something holds inline content: open an implicit `\p`, or
    /// an implicit first cell in a table row, and report it. `false` when the
    /// stylesheet has no `p` to open, and the content is dropped.
    fn ensure_container(&mut self, at: u32) -> (b: bool)
        requires
            old(self).inv(),
            at <= old(self).total(),
        ensures
            final(self).produced(),
            final(self).inv(),
            old(self).produced() ==> final(self).produced(),
            final(self).input() == old(self).input(),
            final(self).pos == old(self).pos,
            b == final(self).has_container(),
            old(self).has_container() ==> final(self).frames@ == old(self).frames@,
            final(self).sidebar is Some == old(self).sidebar is Some,
            final(self).periph is Some == old(self).periph is Some,
    {
        if self.has_container_exec() {
            return true;
        }
        let sp = self.span(at, at);
        if self.table.is_some() {
            let mut tb = self.table.take().unwrap();
            if tb.row.is_some() {
                let mut row = tb.row.take().unwrap();
                row.cell = Some(CellB {
                    header: false,
                    alignment: Alignment::Start,
                    column: 1,
                    colspan: 1,
                    start: at,
                    children: Vec::new(),
                });
                tb.row = Some(row);
                self.table = Some(tb);
                self.report(Code::ExpectedTableCell, sp, "expected a table cell marker after \\tr");
                return true;
            }
            self.table = Some(tb);
            self.close_table(at);
        }
        match self.find_style("p") {
            Some(id) => {
                self.report(Code::ContentOutsideParagraph, sp, "content outside a paragraph");
                self.para = Some(ParaB { style: id, start: at, children: Vec::new() });
                self.after_chapter = false;
                true
            },
            None => {
                self.report(Code::ContentDropped, sp, "content dropped: the stylesheet has no \\p");
                false
            },
        }
    }

    /// The first token after `i` that is a marker, a closing marker or `\*`,
    /// or the end.
    fn next_marker(&self, i: usize) -> (m: usize)
        requires
            i < self.tokens@.len(),
        ensures
            i < m <= self.tokens@.len(),
    {
        let n = self.tokens.len();
        let mut m = i + 1;
        while m < n
            invariant
                n == self.tokens@.len(),
                i < m <= n,
            decreases n - m,
        {
            let k = self.tokens[m].kind;
            if k == TokenKind::Marker || k == TokenKind::EndMarker || k == TokenKind::MilestoneEnd {
                return m;
            }
            m = m + 1;
        }
        m
    }

    /// The character index where token `i` starts, or the end of the text.
    fn char_at(&self, i: usize) -> (c: usize)
        requires
            self.inv(),
        ensures
            c <= self.src.chars@.len(),
            c == self.start_char(i as int),
    {
        if i < self.tokens.len() {
            assert(self.tokens@[i as int].start < self.tokens@[i as int].end <= self.src.chars@.len());
            self.tokens[i].start
        } else {
            self.src.chars.len()
        }
    }

    /// The first line break in characters `a..b`, or `b`.
    fn find_newline(&self, a: usize, b: usize) -> (c: usize)
        requires
            a <= b <= self.src.chars@.len(),
        ensures
            a <= c <= b,
            forall|k: int| a <= k < c ==> !is_line_break(#[trigger] self.src.chars@[k]),
            c < b ==> is_line_break(self.src.chars@[c as int]),
    {
        let mut c = a;
        while c < b
            invariant
                a <= c <= b,
                b <= self.src.chars@.len(),
                forall|k: int| a <= k < c ==> !is_line_break(#[trigger] self.src.chars@[k]),
            decreases b - c,
        {
            let ch = self.src.chars[c];
            if ch == '\n' || ch == '\r' {
                return c;
            }
            c = c + 1;
        }
        c
    }

    /// The token holding character `c`, searching from token `from`.
    fn token_holding(&self, from: usize, c: usize) -> (t: usize)
        requires
            from < self.tokens@.len(),
        ensures
            from < t <= self.tokens@.len() || t == from,
            from <= t <= self.tokens@.len(),
            forall|k: int| from <= k < t ==> (#[trigger] self.tokens@[k]).end <= c,
            t < self.tokens@.len() ==> self.tokens@[t as int].end > c,
    {
        let n = self.tokens.len();
        let mut t = from;
        while t < n && self.tokens[t].end <= c
            invariant
                n == self.tokens@.len(),
                from <= t <= n,
                forall|k: int| from <= k < t ==> (#[trigger] self.tokens@[k]).end <= c,
            decreases n - t,
        {
            t = t + 1;
        }
        t
    }

    /// Whether characters `k..b` start with an attribute name followed by `=`.
    fn name_eq_at(&self, k: usize, b: usize) -> (r: bool)
        requires
            k <= b <= self.src.chars@.len(),
        ensures
            r == name_eq_from(self.src.chars@, k as int, k as int, b as int),
    {
        let mut j = k;
        while j < b
            invariant
                k <= j <= b,
                b <= self.src.chars@.len(),
                name_eq_from(self.src.chars@, k as int, j as int, b as int) == name_eq_from(self.src.chars@, k as int, k as int, b as int),
            decreases b - j,
        {
            let c = self.src.chars[j];
            if c == '=' {
                return j > k;
            }
            if crate::lexer::is_space_char(c) || c == '"' {
                return false;
            }
            j = j + 1;
        }
        false
    }

    /// The characters `a..b` as a string.
    fn chars_between(&self, a: usize, b: usize) -> (text: String)
        requires
            a <= b <= self.src.chars@.len(),
        ensures
            text@ == self.src.chars@.subrange(a as int, b as int),
    {
        let mut text = String::new();
        let mut c = a;
        while c < b
            invariant
                a <= c <= b,
                b <= self.src.chars@.len(),
                text@ == self.src.chars@.subrange(a as int, c as int),
            decreases b - c,
        {
            push_char(&mut text, self.src.chars[c]);
            c = c + 1;
            assert(text@ =~= self.src.chars@.subrange(a as int, c as int));
        }
        text
    }

    /// The attribute pairs written in characters `a..b`, the text after a `|`.
    #[verifier::rlimit(80)]
    fn parse_pairs(&mut self, a: usize, b: usize) -> (pairs: Vec<Attribute>)
        requires
            old(self).inv(),
            a <= b <= old(self).src.chars@.len(),
        ensures
            final(self).inv(),
            old(self).produced() ==> final(self).produced(),
            final(self).input() == old(self).input(),
            final(self).pos == old(self).pos,
            final(self).shape() == old(self).shape(),
            final(self).frames@ == old(self).frames@,
            final(self).has_container() == old(self).has_container(),
            forall|k: int| 0 <= k < pairs@.len() ==> span_ok(#[trigger] pairs@[k].span, final(self).total()),
            pairs_match(pairs@, pairs_from(old(self).src.chars@, a as int, b as int), old(self).src.chars@),
            final(self).diags@.take(old(self).diags@.len() as int) == old(self).diags@,
            reports_match(final(self).diags@, old(self).diags@.len() as int,
                pair_reports_from(old(self).src.chars@, a as int, b as int, false), old(self).src.chars@),
    {
        let mut pairs: Vec<Attribute> = Vec::new();
        let mut j = a;
        let mut newline_reported = false;
        let ghost chars = self.src.chars@;
        let ghost mut done: Seq<(Seq<char>, Seq<char>, int, int)> = seq![];
        let ghost mut reported: Seq<(Code, int, int)> = seq![];
        let ghost d = self.diags@.len();
        assert(done + pairs_from(chars, a as int, b as int) =~= pairs_from(chars, a as int, b as int));
        assert(reported + pair_reports_from(chars, a as int, b as int, false) =~= pair_reports_from(chars, a as int, b as int, false));
        assert(self.diags@.take(d as int) =~= old(self).diags@);
        while j < b
            invariant
                self.inv(),
                self.input() == old(self).input(),
                self.pos == old(self).pos,
                self.shape() == old(self).shape(),
                self.frames@ == old(self).frames@,
                self.has_container() == old(self).has_container(),
                chars == self.src.chars@,
                chars == old(self).src.chars@,
                a <= j <= b,
                b <= self.src.chars@.len(),
                forall|k: int| 0 <= k < pairs@.len() ==> span_ok(#[trigger] pairs@[k].span, self.total()),
                pairs_match(pairs@, done, chars),
                done + pairs_from(chars, j as int, b as int) == pairs_from(chars, a as int, b as int),
                d == old(self).diags@.len(),
                self.diags@.len() >= d,
                self.blocks@ == old(self).blocks@,
                self.diags@.take(d as int) == old(self).diags@,
                reports_match(self.diags@, d as int, reported, chars),
                reported + pair_reports_from(chars, j as int, b as int, newline_reported)
                    == pair_reports_from(chars, a as int, b as int, false),
            decreases b - j,
        {
            let ghost before = pairs@;
            let ghost dbefore = self.diags@;
            let ghost step = pair_step(chars, j as int, b as int);
            let ghost nl0 = newline_reported;
            let ghost sr = pair_step_reports(chars, j as int, b as int, newline_reported);
            let ghost mut this: Seq<(Code, int, int)> = seq![];
            let j0 = j;
            let c = self.src.chars[j];
            if crate::lexer::is_space_char(c) {
                if (c == '\n' || c == '\r') && !newline_reported {
                    proof {
                        self.src.lemma_offsets_monotone(j as int, j + 1);
                        assert(self.src.offsets@[j as int] == byte_len(chars.take(j as int)));
                        assert(self.src.offsets@[j + 1] == byte_len(chars.take(j + 1)));
                    }
                    let sp = self.span(self.src.offset(j), self.src.offset(j + 1));
                    self.report(Code::NewlineInAttributes, sp, "line break in an attribute list");
                    newline_reported = true;
                    proof {
                        lemma_one_report(dbefore, self.diags@, Code::NewlineInAttributes, j as int, j + 1, chars);
                        this = seq![(Code::NewlineInAttributes, j as int, j + 1)];
                    }
                } else {
                    proof {
                        assert(self.diags@.take(dbefore.len() as int) =~= dbefore);
                    }
                }
                assert(this == sr.0 && newline_reported == sr.1);
                j = j + 1;
                assert(step == (None::<(Seq<char>, Seq<char>, int, int)>, j as int));
            } else if self.name_eq_at(j, b) {
                let mut e = j;
                while e < b && self.src.chars[e] != '='
                    invariant
                        j <= e <= b,
                        b <= self.src.chars@.len(),
                        chars == self.src.chars@,
                        eq_index(chars, e as int, b as int) == eq_index(chars, j as int, b as int),
                    decreases b - e,
                {
                    e = e + 1;
                }
                let name = self.chars_between(j, e);
                proof {
                    self.src.lemma_offsets_monotone(j as int, e as int);
                    assert(self.src.offsets@[j as int] == byte_len(chars.take(j as int)));
                    assert(self.src.offsets@[e as int] == byte_len(chars.take(e as int)));
                }
                let name_span = self.span(self.src.offset(j), self.src.offset(e));
                let v = if e < b { e + 1 } else { e };
                let mut value = String::new();
                if v < b && self.src.chars[v] == '"' {
                    let mut k = v + 1;
                    let mut closed = false;
                    while k < b && !closed
                        invariant
                            v < k <= b,
                            b <= self.src.chars@.len(),
                            chars == self.src.chars@,
                            !closed ==> quoted_value(chars, k as int, b as int, value@) == quoted_value(chars, v + 1, b as int, seq![]),
                            !closed ==> quote_closed(chars, k as int, b as int) == quote_closed(chars, v + 1, b as int),
                            closed ==> (value@, k as int) == quoted_value(chars, v + 1, b as int, seq![]),
                            closed ==> quote_closed(chars, v + 1, b as int),
                        decreases b - k,
                    {
                        let ch = self.src.chars[k];
                        if ch == '\\' && k + 1 < b && (self.src.chars[k + 1] == '"' || self.src.chars[k + 1] == '\\') {
                            push_char(&mut value, self.src.chars[k + 1]);
                            k = k + 2;
                        } else if ch == '"' {
                            closed = true;
                            k = k + 1;
                        } else {
                            push_char(&mut value, ch);
                            k = k + 1;
                        }
                    }
                    if !closed {
                        proof {
                            self.src.lemma_offsets_monotone(v as int, b as int);
                            assert(self.src.offsets@[v as int] == byte_len(chars.take(v as int)));
                            assert(self.src.offsets@[b as int] == byte_len(chars.take(b as int)));
                        }
                        let sp = self.span(self.src.offset(v), self.src.offset(b));
                        self.report(Code::UnterminatedAttributeValue, sp, "attribute value not terminated");
                        proof {
                            lemma_one_report(dbefore, self.diags@, Code::UnterminatedAttributeValue, v as int, b as int, chars);
                            this = seq![(Code::UnterminatedAttributeValue, v as int, b as int)];
                        }
                    } else {
                        proof {
                            assert(self.diags@.take(dbefore.len() as int) =~= dbefore);
                        }
                    }
                    assert(this == sr.0 && newline_reported == sr.1);
                    j = k;
                } else if v >= b || crate::lexer::is_space_char(self.src.chars[v]) {
                    self.report(Code::MissingAttributeValue, name_span, "attribute has no value");
                    proof {
                        lemma_one_report(dbefore, self.diags@, Code::MissingAttributeValue, j as int, e as int, chars);
                        this = seq![(Code::MissingAttributeValue, j as int, e as int)];
                    }
                    assert(this == sr.0 && newline_reported == sr.1);
                    j = v;
                } else {
                    let mut k = v;
                    while k < b && !crate::lexer::is_space_char(self.src.chars[k])
                        invariant
                            v <= k <= b,
                            b <= self.src.chars@.len(),
                            chars == self.src.chars@,
                            value@ == chars.subrange(v as int, k as int),
                            space_index(chars, k as int, b as int) == space_index(chars, v as int, b as int),
                        decreases b - k,
                    {
                        push_char(&mut value, self.src.chars[k]);
                        k = k + 1;
                        assert(value@ =~= chars.subrange(v as int, k as int));
                    }
                    proof {
                        self.src.lemma_offsets_monotone(v as int, k as int);
                        assert(self.src.offsets@[v as int] == byte_len(chars.take(v as int)));
                        assert(self.src.offsets@[k as int] == byte_len(chars.take(k as int)));
                    }
                    let value_span = self.span(self.src.offset(v), self.src.offset(k));
                    self.report(Code::AttributeValueNotQuoted, value_span, "attribute value not quoted");
                    proof {
                        lemma_one_report(dbefore, self.diags@, Code::AttributeValueNotQuoted, v as int, k as int, chars);
                        this = seq![(Code::AttributeValueNotQuoted, v as int, k as int)];
                    }
                    assert(this == sr.0 && newline_reported == sr.1);
                    j = k;
                }
                if j <= j0 {
                    j = j0 + 1;
                }
                let ghost pair = (name@, value@, j0 as int, e as int);
                assert(step == (Some(pair), j as int));
                pairs.push(Attribute { name, value, span: name_span });
            } else {
                let start = j;
                let mut k = j + 1;
                while k < b && !((crate::lexer::is_space_char(self.src.chars[k - 1]) || self.src.chars[k - 1] == '"')
                    && self.name_eq_at(k, b))
                    invariant
                        start < k <= b,
                        b <= self.src.chars@.len(),
                        chars == self.src.chars@,
                        bare_end(chars, k as int, b as int) == bare_end(chars, start + 1, b as int),
                    decreases b - k,
                {
                    k = k + 1;
                }
                let value = self.chars_between(start, k);
                proof {
                    self.src.lemma_offsets_monotone(start as int, k as int);
                    assert(self.src.offsets@[start as int] == byte_len(chars.take(start as int)));
                    assert(self.src.offsets@[k as int] == byte_len(chars.take(k as int)));
                }
                let sp = self.span(self.src.offset(start), self.src.offset(k));
                pairs.push(Attribute { name: String::new(), value, span: sp });
                proof {
                    assert(self.diags@.take(dbefore.len() as int) =~= dbefore);
                }
                assert(this == sr.0 && newline_reported == sr.1);
                j = k;
                assert(step == (Some((Seq::<char>::empty(), chars.subrange(start as int, k as int), start as int, k as int)), j as int));
            }
            proof {
                assert(pair_reports_from(chars, j0 as int, b as int, nl0) == sr.0 + pair_reports_from(chars, j as int, b as int, newline_reported));
                lemma_reports_extend(dbefore, self.diags@, d as int, reported, this, chars);
                assert((reported + sr.0) + pair_reports_from(chars, j as int, b as int, newline_reported) =~= reported + (sr.0 + pair_reports_from(chars, j as int, b as int, newline_reported)));
                reported = reported + sr.0;
                assert forall|k: int| 0 <= k < pairs@.len() implies span_ok(#[trigger] pairs@[k].span, self.total()) by {
                    if k < before.len() {
                        assert(pairs@[k] == before[k]);
                    }
                }
                assert(pairs_from(chars, j0 as int, b as int) == match step.0 {
                    Some(p) => seq![p] + pairs_from(chars, j as int, b as int),
                    None => pairs_from(chars, j as int, b as int),
                });
                let ghost nd = match step.0 {
                    Some(p) => done.push(p),
                    None => done,
                };
                match step.0 {
                    Some(p) => {
                        assert(nd + pairs_from(chars, j as int, b as int) =~= done + (seq![p] + pairs_from(chars, j as int, b as int)));
                        assert forall|k: int| 0 <= k < pairs@.len() implies {
                            &&& (#[trigger] pairs@[k]).name@ == nd[k].0
                            &&& pairs@[k].value@ == nd[k].1
                            &&& pairs@[k].span.start == byte_len(chars.take(nd[k].2))
                            &&& pairs@[k].span.end == byte_len(chars.take(nd[k].3))
                        } by {
                            if k < before.len() {
                                assert(pairs@[k] == before[k]);
                            }
                        }
                    },
                    None => {},
                }
                done = nd;
            }
        }
        assert(pairs_from(chars, j as int, b as int) =~= seq![]);
        assert(done =~= pairs_from(chars, a as int, b as int));
        pairs
    }


    /// The text of tokens from `from` on that are words, stray backslashes
    /// or whitespace, stopping at a line break when `lines` is false, or at
    /// any other token: the text with its whitespace collapsed and trimmed,
    /// the token it stopped at, and the last token that held text.
    fn read_text_run(&self, from: usize, lines: bool) -> (r: (String, usize, Option<usize>))
        requires
            from <= self.tokens@.len(),
        ensures
            from <= r.1 <= self.tokens@.len(),
            r.2 matches Some(l) ==> from <= l < r.1,
    {
        let n = self.tokens.len();
        let mut text = String::new();
        let mut j = from;
        let mut last: Option<usize> = None;
        while j < n
            invariant
                n == self.tokens@.len(),
                from <= j <= n,
                last matches Some(l) ==> from <= l < j,
            decreases n - j,
        {
            let k = self.tokens[j].kind;
            if k == TokenKind::Space {
                if self.tokens[j].newline && !lines {
                    break;
                }
                if last.is_some() && !ends_with_space(text.as_str()) {
                    push_char(&mut text, ' ');
                }
            } else if k == TokenKind::Word {
                push_str(&mut text, self.tokens[j].text.as_str());
                last = Some(j);
            } else if k == TokenKind::Stray {
                push_char(&mut text, '\\');
                last = Some(j);
            } else {
                break;
            }
            j = j + 1;
        }
        (crate::container::trim_end(text.as_str()), j, last)
    }

    /// The first token from `from` on that is a line break, or the end.
    fn line_end(&self, from: usize) -> (j: usize)
        requires
            from <= self.tokens@.len(),
        ensures
            from <= j <= self.tokens@.len(),
            forall|k: int| from <= k < j ==> !is_break_token(#[trigger] self.tokens@[k]),
            j < self.tokens@.len() ==> is_break_token(self.tokens@[j as int]),
    {
        let n = self.tokens.len();
        let mut j = from;
        while j < n && !(self.tokens[j].kind == TokenKind::Space && self.tokens[j].newline)
            invariant
                n == self.tokens@.len(),
                from <= j <= n,
                forall|k: int| from <= k < j ==> !is_break_token(#[trigger] self.tokens@[k]),
            decreases n - j,
        {
            j = j + 1;
        }
        j
    }

    /// `\cat …\cat*` starting at token `k`: the category and the token after
    /// it.
    fn read_category(&self, k: usize) -> (r: (Text, usize))
        requires
            self.inv(),
            k < self.tokens@.len(),
        ensures
            span_ok(r.0.span, self.total()),
            k < r.1 <= self.tokens@.len(),
    {
        let n = self.tokens.len();
        let (content, stop, last) = self.read_text_run(k + 1, true);
        let start = self.start_off(k);
        if self.is(stop, TokenKind::EndMarker, "cat") {
            let end = self.end_off(stop);
            (Text { content, span: self.span(start, end) }, stop + 1)
        } else {
            let end = match last {
                Some(l) => self.end_off(l),
                None => self.end_off(k),
            };
            (Text { content, span: self.span(start, end) }, stop)
        }
    }

    /// Close the open sidebar at `end` and put it where it belongs.
    fn finish_sidebar(&mut self, end: u32)
        requires
            old(self).inv(),
            old(self).frames@.len() == 0,
            end <= old(self).total(),
        ensures
            final(self).inv(),
            old(self).produced() ==> final(self).produced(),
            final(self).input() == old(self).input(),
            final(self).pos == old(self).pos,
            final(self).sidebar is None,
            final(self).frames@.len() == 0,
            final(self).para is Some == old(self).para is Some,
            final(self).table is Some == old(self).table is Some,
            final(self).periph is Some == old(self).periph is Some,
            final(self).has_container() == old(self).has_container(),
            old(self).idle() ==> final(self).blocks@ == old(self).blocks@ && final(self).diags@ == old(self).diags@
                && final(self).idle(),
    {
        if self.sidebar.is_none() {
            return;
        }
        let ghost n = self.styles();
        let ghost t = self.total();
        self.after_chapter = false;
        let sb = self.sidebar.take().unwrap();
        let span = self.span(sb.start, end);
        proof {
            lemma_block_styles(sb.blocks@, n);
            lemma_block_spans(sb.blocks@, t);
        }
        let block = Block::Sidebar(Sidebar { style: StyleId(sb.style), category: sb.category, blocks: sb.blocks, span });
        self.push_out(block);
    }

    /// Close the open peripheral division at `end`.
    fn finish_periph(&mut self, end: u32)
        requires
            old(self).inv(),
            old(self).sidebar is None,
            old(self).frames@.len() == 0,
            end <= old(self).total(),
        ensures
            final(self).inv(),
            old(self).produced() ==> final(self).produced(),
            final(self).input() == old(self).input(),
            final(self).pos == old(self).pos,
            final(self).periph is None,
            final(self).sidebar is None,
            final(self).frames@.len() == 0,
            final(self).para is Some == old(self).para is Some,
            final(self).table is Some == old(self).table is Some,
            final(self).has_container() == old(self).has_container(),
            old(self).idle() ==> final(self).blocks@ == old(self).blocks@ && final(self).diags@ == old(self).diags@
                && final(self).idle(),
    {
        if self.periph.is_none() {
            return;
        }
        let ghost n = self.styles();
        let ghost t = self.total();
        self.after_chapter = false;
        let pb = self.periph.take().unwrap();
        let span = self.span(pb.start, end);
        proof {
            lemma_block_styles(pb.blocks@, n);
            lemma_block_spans(pb.blocks@, t);
        }
        let block = Block::Periph(Periph {
            style: StyleId(pb.style),
            title: pb.title,
            attributes: pb.attributes,
            blocks: pb.blocks,
            span,
        });
        self.push_out(block);
    }

    /// Give the chapter that is the last block of the innermost open block
    /// container its published number.
    fn set_chapter_published(&mut self, published: String)
        requires
            old(self).inv(),
        ensures
            old(self).sidebar matches Some(sb) ==> final(self).sidebar matches Some(fsb)
                && fsb.blocks@ == with_last_chapter_published(sb.blocks@, published)
                && final(self).blocks@ == old(self).blocks@,
            old(self).sidebar is None ==> (old(self).periph matches Some(pb) ==> final(self).periph matches Some(fpb)
                && fpb.blocks@ == with_last_chapter_published(pb.blocks@, published)
                && final(self).blocks@ == old(self).blocks@),
            old(self).sidebar is None && old(self).periph is None ==> final(self).blocks@
                == with_last_chapter_published(old(self).blocks@, published),
            final(self).inv(),
            old(self).produced() ==> final(self).produced(),
            final(self).input() == old(self).input(),
            final(self).pos == old(self).pos,
            final(self).shape() == old(self).shape(),
            final(self).frames@ == old(self).frames@,
            final(self).has_container() == old(self).has_container(),
    {
        let ghost n = self.styles();
        let ghost t = self.total();
        if self.sidebar.is_some() {
            let mut sb = self.sidebar.take().unwrap();
            set_last_chapter_published(&mut sb.blocks, published, Ghost(n), Ghost(t));
            self.sidebar = Some(sb);
        } else if self.periph.is_some() {
            let mut pb = self.periph.take().unwrap();
            set_last_chapter_published(&mut pb.blocks, published, Ghost(n), Ghost(t));
            self.periph = Some(pb);
        } else {
            set_last_chapter_published(&mut self.blocks, published, Ghost(n), Ghost(t));
        }
    }


    // ----- the tokens, one kind at a time -----

    /// The index after token `i`.
    fn next_after(&self, i: usize) -> (j: usize)
        requires
            i < self.tokens@.len(),
        ensures
            j == i + 1,
    {
        let n = self.tokens.len();
        i + 1
    }

    /// A word, a stray backslash or whitespace.
    fn on_text(&mut self, i: usize)
        requires
            old(self).inv(),
            i == old(self).pos,
            i < old(self).tokens@.len(),
        ensures
            old(self).tokens@[i as int].kind != TokenKind::Space ==> final(self).produced(),
            old(self).tokens@[i as int].kind == TokenKind::Space ==> final(self).pos == i + 1,
            final(self).advanced(old(self)),
            final(self).pos > old(self).pos,
    {
        let kind = self.kind(i);
        let sp = self.token_span(i);
        if kind == TokenKind::Space {
            if self.has_container_exec() {
                self.add_text(" ".to_owned(), sp);
            }
        } else {
            let start = self.start_off(i);
            if self.ensure_container(start) {
                if kind == TokenKind::Stray {
                    self.report(Code::StrayBackslash, sp, "stray backslash");
                    self.add_text("\\".to_owned(), sp);
                } else {
                    let content = self.tokens[i].text.clone();
                    self.add_text(content, sp);
                }
            }
        }
        self.pos = self.next_after(i);
    }

    /// `//`.
    fn on_opt_break(&mut self, i: usize)
        requires
            old(self).inv(),
            i == old(self).pos,
            i < old(self).tokens@.len(),
        ensures
            final(self).produced(),
            final(self).advanced(old(self)),
            final(self).pos > old(self).pos,
    {
        let sp = self.token_span(i);
        let start = self.start_off(i);
        if self.ensure_container(start) {
            self.add_inline(Inline::OptBreak(OptBreak { span: sp }));
        }
        self.pos = self.next_after(i);
    }

    /// `|`: an attribute list on the character style it ends, or text.
    fn on_pipe(&mut self, i: usize)
        requires
            old(self).inv(),
            i == old(self).pos,
            i < old(self).tokens@.len(),
        ensures
            final(self).produced(),
            final(self).advanced(old(self)),
            final(self).pos > old(self).pos,
    {
        let sp = self.token_span(i);
        let nf = self.frames.len();
        if nf > 0 && !self.frames[nf - 1].note && self.frames[nf - 1].attributes.is_none() {
            let m = self.next_marker(i);
            let a = self.tokens[i].end;
            let b = self.char_at(m);
            assert(self.tokens@[i as int].end <= self.src.chars@.len());
            let pairs = if a <= b {
                self.parse_pairs(a, b)
            } else {
                Vec::new()
            };
            let ghost n = self.styles();
            let ghost t = self.total();
            let ghost before = self.frames@;
            let mut f = self.frames.pop().unwrap();
            proof {
                assert(self.frames@ =~= before.drop_last());
                assert(frame_ok(before[before.len() - 1], n, t));
            }
            f.attributes = Some(Attributes { pairs, pipe: sp });
            self.frames.push(f);
            proof {
                assert forall|k: int| 0 <= k < self.frames@.len() implies #[trigger] frame_ok(self.frames@[k], n, t) by {
                    if k < before.len() - 1 {
                        assert(self.frames@[k] == before[k]);
                    }
                }
            }
            self.pos = m;
        } else {
            let start = self.start_off(i);
            if self.ensure_container(start) {
                self.report(Code::UnexpectedPipe, sp, "`|` outside an attribute list");
                self.add_text("|".to_owned(), sp);
            }
            self.pos = self.next_after(i);
        }
    }

    /// Whether a marker ends the paragraph or cell it appears in.
    fn is_block_marker(&self, name: &str) -> (b: bool)
        requires
            self.inv(),
        ensures
            b == self.block_marker_spec(name@),
    {
        if str_eq(name, "c") || str_eq(name, "id") || str_eq(name, "esb") || str_eq(name, "esbe")
            || str_eq(name, "periph") || str_eq(name, "tr") || parse_cell_marker(name).is_some() {
            return true;
        }
        match self.find_style(name) {
            Some(id) => self.rule(id).style_type == StyleType::Paragraph,
            None => false,
        }
    }

    /// Whether the closing marker of the style opened at token `i` lies
    /// ahead, before whatever would close the style it would nest in.
    fn closer_ahead(&self, i: usize) -> (b: bool)
        requires
            self.inv(),
            i < self.tokens@.len(),
            self.frames@.len() > 0,
        ensures
            b == self.closer_from(
                self.tokens@[i as int].text@,
                self.rule_spec(self.frames@.last().style as nat).marker@,
                self.note_below(self.frames@.len() as int),
                i + 1,
            ),
    {
        let nf = self.frames.len();
        assert(frame_ok(self.frames@[nf - 1], self.styles(), self.total()));
        let enclosing = self.rule(self.frames[nf - 1].style).marker.as_str();
        let mut note: Option<&str> = None;
        let mut k = nf;
        while k > 0 && note.is_none()
            invariant
                self.inv(),
                k <= nf,
                nf == self.frames@.len(),
                note is None ==> self.note_below(nf as int) == self.note_below(k as int),
                note matches Some(m) ==> self.note_below(nf as int) == Some(m@),
            decreases k,
        {
            k = k - 1;
            assert(frame_ok(self.frames@[k as int], self.styles(), self.total()));
            if self.frames[k].note {
                note = Some(self.rule(self.frames[k].style).marker.as_str());
            }
        }
        let ghost note_spec: Option<Seq<char>> = match note {
            Some(m) => Some(m@),
            None => None,
        };
        assert(note_spec == self.note_below(nf as int));
        let name = self.tokens[i].text.as_str();
        let n = self.tokens.len();
        let mut j = i + 1;
        while j < n
            invariant
                self.inv(),
                n == self.tokens@.len(),
                i < j <= n,
                name@ == self.tokens@[i as int].text@,
                enclosing@ == self.rule_spec(self.frames@.last().style as nat).marker@,
                note_spec == self.note_below(nf as int),
                nf == self.frames@.len(),
                note matches Some(m) ==> note_spec == Some(m@),
                note is None ==> note_spec is None,
                self.closer_from(name@, enclosing@, note_spec, j as int) == self.closer_from(name@, enclosing@, note_spec, i + 1),
            decreases n - j,
        {
            let kind = self.tokens[j].kind;
            let text = self.tokens[j].text.as_str();
            if kind == TokenKind::EndMarker {
                if str_eq(text, name) {
                    return true;
                }
                if str_eq(text, enclosing) {
                    return false;
                }
                match note {
                    Some(m) => {
                        if str_eq(text, m) {
                            return false;
                        }
                    },
                    None => {},
                }
            } else if kind == TokenKind::Marker && self.is_block_marker(text) {
                return false;
            }
            j = j + 1;
        }
        false
    }

    /// A character style's opening marker.
    fn on_char(&mut self, i: usize, id: u32, nested: bool)
        requires
            old(self).inv(),
            i == old(self).pos,
            i < old(self).tokens@.len(),
            id < old(self).styles(),
        ensures
            final(self).produced(),
            final(self).advanced(old(self)),
            final(self).pos > old(self).pos,
    {
        let start = self.start_off(i);
        let sp = self.token_span(i);
        if !self.ensure_container(start) {
            self.pos = self.next_after(i);
            return;
        }
        let nf = self.frames.len();
        let top_char = nf > 0 && !self.frames[nf - 1].note;
        if nested && !top_char {
            self.report(Code::NestedMarkerNotNested, sp, "nested marker with no character style to nest in");
        }
        if !nested && top_char {
            let nest = self.rule(id).nest;
            if nest && self.closer_ahead(i) {
                self.report(Code::CharacterStyleNestedWithoutPlus, sp, "character style nested without `+`");
            } else {
                if !self.in_note() {
                    let fsp = self.span(self.frames[nf - 1].start, start);
                    self.report(Code::CharacterStyleImplicitlyClosed, fsp, "character style closed by the next one");
                }
                self.close_top_frame(start);
            }
        }
        self.push_frame(Frame {
            note: false,
            style: id,
            start,
            opener: sp,
            children: Vec::new(),
            attributes: None,
            caller: Caller::Plus,
            category: None,
        });
        self.pos = self.next_after(i);
    }

    /// Open a character style or note.
    fn push_frame(&mut self, f: Frame)
        requires
            old(self).inv(),
            old(self).has_container(),
            frame_ok(f, old(self).styles(), old(self).total()),
        ensures
            final(self).inv(),
            old(self).produced() ==> final(self).produced(),
            final(self).input() == old(self).input(),
            final(self).pos == old(self).pos,
            final(self).frames@ == old(self).frames@.push(f),
            final(self).blocks@ == old(self).blocks@,
            final(self).diags@ == old(self).diags@,
            final(self).shape() == old(self).shape(),
            final(self).has_container() == old(self).has_container(),
    {
        let ghost before = self.frames@;
        let ghost n = self.styles();
        let ghost t = self.total();
        self.frames.push(f);
        proof {
            assert forall|k: int| 0 <= k < self.frames@.len() implies #[trigger] frame_ok(self.frames@[k], n, t) by {
                if k < before.len() {
                    assert(self.frames@[k] == before[k]);
                }
            }
        }
    }

    /// A note's opening marker, its caller and its category.
    fn on_note(&mut self, i: usize, id: u32)
        requires
            old(self).inv(),
            i == old(self).pos,
            i < old(self).tokens@.len(),
            id < old(self).styles(),
        ensures
            final(self).produced(),
            final(self).advanced(old(self)),
            final(self).pos > old(self).pos,
    {
        let start = self.start_off(i);
        let sp = self.token_span(i);
        if !self.ensure_container(start) {
            self.pos = self.next_after(i);
            return;
        }
        let n = self.tokens.len();
        let mut j = self.skip_space_from(i + 1, false);
        let mut caller = Caller::Plus;
        if j < n && self.tokens[j].kind == TokenKind::Word {
            let text = self.tokens[j].text.as_str();
            caller = if str_eq(text, "+") {
                Caller::Plus
            } else if str_eq(text, "-") {
                Caller::Minus
            } else {
                Caller::Custom(text.to_owned())
            };
            j = j + 1;
        } else {
            self.report(Code::MissingNoteCaller, sp, "note has no caller");
        }
        let mut category: Option<Text> = None;
        let k = self.skip_space_from(j, false);
        if self.is(k, TokenKind::Marker, "cat") {
            let (cat, next) = self.read_category(k);
            category = Some(cat);
            j = next;
        }
        self.push_frame(Frame {
            note: true,
            style: id,
            start,
            opener: sp,
            children: Vec::new(),
            attributes: None,
            caller,
            category,
        });
        self.pos = j;
    }

    /// A milestone: `\name`, an optional `|` and attributes, and `\*`.
    fn on_milestone(&mut self, i: usize, id: u32)
        requires
            old(self).inv(),
            i == old(self).pos,
            i < old(self).tokens@.len(),
            id < old(self).styles(),
        ensures
            final(self).produced(),
            final(self).advanced(old(self)),
            final(self).pos > old(self).pos,
    {
        let n = self.tokens.len();
        let start = self.start_off(i);
        let mut end = self.end_off(i);
        let mut attributes: Option<Attributes> = None;
        let mut next = i + 1;
        let j = self.skip_space_from(i + 1, false);
        if j < n && self.tokens[j].kind == TokenKind::Pipe {
            let m = self.next_marker(j);
            let a = self.tokens[j].end;
            let b = self.char_at(m);
            let pipe = self.token_span(j);
            assert(self.tokens@[j as int].end <= self.src.chars@.len());
            if m < n && self.tokens[m].kind == TokenKind::MilestoneEnd {
                let pairs = if a <= b { self.parse_pairs(a, b) } else { Vec::new() };
                attributes = Some(Attributes { pairs, pipe });
                end = self.end_off(m);
                next = m + 1;
            } else {
                let msp = self.span(start, end);
                self.report(Code::MilestoneNotClosed, msp, "milestone not closed with `\\*`");
                if a <= b {
                    let nl = self.find_newline(a, b);
                    if nl < b {
                        let pairs = self.parse_pairs(a, nl);
                        attributes = Some(Attributes { pairs, pipe });
                        next = self.token_holding(j, nl);
                        if next <= i {
                            next = i + 1;
                        }
                    } else {
                        let pairs = self.parse_pairs(a, b);
                        attributes = Some(Attributes { pairs, pipe });
                        next = m;
                    }
                } else {
                    next = m;
                }
            }
        } else if j < n && self.tokens[j].kind == TokenKind::MilestoneEnd {
            end = self.end_off(j);
            next = j + 1;
        } else {
            let msp = self.span(start, end);
            self.report(Code::MilestoneNotClosed, msp, "milestone not closed with `\\*`");
        }
        let span = self.span(start, end);
        let milestone = Milestone { style: StyleId(id), attributes, span };
        if self.has_container_exec() {
            self.add_inline(Inline::Milestone(milestone));
        } else {
            self.close_table(start);
            self.push_out(Block::Milestone(milestone));
        }
        self.pos = next;
    }

    /// A closing marker.
    fn on_end_marker(&mut self, i: usize)
        requires
            old(self).inv(),
            i == old(self).pos,
            i < old(self).tokens@.len(),
        ensures
            final(self).produced(),
            final(self).advanced(old(self)),
            final(self).pos > old(self).pos,
    {
        let sp = self.token_span(i);
        let name = self.tokens[i].text.clone();
        match self.find_style(name.as_str()) {
            None => {
                let message = marker_message(name.as_str(), true);
                if is_custom(name.as_str()) {
                    self.report(Code::UnknownCustomMarker, sp, message.as_str());
                } else {
                    self.report(Code::UnknownMarker, sp, message.as_str());
                }
            },
            Some(id) => {
                if self.rule(id).style_type == StyleType::Paragraph {
                    self.report(Code::ParagraphMarkerClosed, sp, "paragraph marker used as a closing marker");
                } else {
                    let nf = self.frames.len();
                    let mut k = nf;
                    let mut found: Option<usize> = None;
                    while k > 0
                        invariant
                            self.inv(),
                            k <= nf,
                            nf == self.frames@.len(),
                            found matches Some(x) ==> x < nf,
                        decreases k,
                    {
                        k = k - 1;
                        assert(frame_ok(self.frames@[k as int], self.styles(), self.total()));
                        if str_eq(self.rule(self.frames[k].style).marker.as_str(), name.as_str()) {
                            found = Some(k);
                            break;
                        }
                        if self.frames[k].note {
                            break;
                        }
                    }
                    match found {
                        Some(k) => {
                            let at = self.start_off(i);
                            let end = self.end_off(i);
                            let closing_note = self.frames[k].note;
                            while self.frames.len() > k + 1
                                invariant
                                    self.inv(),
                                    self.input() == old(self).input(),
                                    self.pos == old(self).pos,
                                    k < self.frames@.len(),
                                    at <= self.total(),
                                decreases self.frames@.len(),
                            {
                                if !closing_note {
                                    let last = self.frames.len() - 1;
                                    assert(frame_ok(self.frames@[last as int], self.styles(), self.total()));
                                    let opener = self.frames[last].opener;
                                    self.report(Code::CharacterStyleNotClosed, opener, "character style not closed");
                                }
                                self.close_top_frame(at);
                            }
                            self.close_top_frame(end);
                        },
                        None => {
                            self.report(Code::UnmatchedClosingMarker, sp, "closing marker with nothing open to close");
                        },
                    }
                }
            },
        }
        self.pos = self.next_after(i);
    }


    /// A paragraph marker.
    fn on_para(&mut self, i: usize, id: u32)
        requires
            old(self).inv(),
            i == old(self).pos,
            i < old(self).tokens@.len(),
            id < old(self).styles(),
        ensures
            final(self).produced(),
            final(self).advanced(old(self)),
            final(self).pos > old(self).pos,
    {
        let start = self.start_off(i);
        self.close_block_level(start);
        self.para = Some(ParaB { style: id, start, children: Vec::new() });
        self.after_chapter = false;
        self.pos = self.next_after(i);
    }

    /// The alternate or published verse number after `\va` or `\vp` at token
    /// `k`: the text before its closing marker, or, when there is none, the
    /// first word after it, reported. `None` when `\vp` holds formatting and
    /// is left to be read as a character style.
    fn read_verse_number_text(&mut self, k: usize, closer: &str) -> (r: Option<(String, usize)>)
        requires
            old(self).inv(),
            k < old(self).tokens@.len(),
        ensures
            final(self).inv(),
            old(self).produced() ==> final(self).produced(),
            final(self).input() == old(self).input(),
            final(self).pos == old(self).pos,
            final(self).shape() == old(self).shape(),
            final(self).frames@ == old(self).frames@,
            final(self).has_container() == old(self).has_container(),
            r matches Some((_, next)) ==> k < next <= final(self).tokens@.len(),
            ({
                let ts = old(self).tokens@;
                let j = number_run_end(ts, k + 1);
                let f = first_number_word(ts, k + 1, j);
                let closed = f is Some && j < ts.len() && ts[j].kind == TokenKind::EndMarker && ts[j].text@ == closer@;
                &&& closed ==> (r matches Some((t, next)) && t@ == crate::container::trim_end_ws(number_run_text(ts, k + 1, j)) && next == j + 1)
                &&& !closed && f is None && j < ts.len() && ts[j].kind == TokenKind::Marker ==> r is None
                &&& !closed && f is None && !(j < ts.len() && ts[j].kind == TokenKind::Marker) ==> (r matches Some((t, next)) && t@.len() == 0 && next == k + 1)
                &&& !closed && f is Some ==> (r matches Some((t, next)) && next == f.unwrap() + 1
                    && t@ == (if ts[f.unwrap() as int].kind == TokenKind::Stray { seq!['\\'] } else { ts[f.unwrap() as int].text@ }))
                &&& r is Some && !closed ==> final(self).diags@.len() == old(self).diags@.len() + 1
                    && final(self).diags@.drop_last() == old(self).diags@
                    && final(self).diags@.last().code == Code::AlternateVerseNotClosed
                &&& (closed || r is None) ==> final(self).diags@ == old(self).diags@
            }),
    {
        let n = self.tokens.len();
        let mut j = k + 1;
        let mut text = String::new();
        let mut first: Option<usize> = None;
        let ghost ts = self.tokens@;
        while j < n && (self.tokens[j].kind == TokenKind::Word || self.tokens[j].kind == TokenKind::Stray
            || self.tokens[j].kind == TokenKind::Space)
            invariant
                n == self.tokens@.len(),
                ts == self.tokens@,
                k < j <= n,
                first matches Some(f) ==> k < f < j,
                number_run_end(ts, k + 1) == number_run_end(ts, j as int),
                forall|m: int| k < m < j ==> is_number_token(#[trigger] ts[m]),
                first == first_number_word(ts, k + 1, j as int),
                text@ == number_run_text(ts, k + 1, j as int),
            decreases n - j,
        {
            let kind = self.tokens[j].kind;
            if kind == TokenKind::Word {
                push_str(&mut text, self.tokens[j].text.as_str());
                if first.is_none() {
                    first = Some(j);
                }
            } else if kind == TokenKind::Stray {
                push_char(&mut text, '\\');
                if first.is_none() {
                    first = Some(j);
                }
            } else {
                if first.is_some() {
                    push_char(&mut text, ' ');
                }
            }
            j = j + 1;
        }
        assert(number_run_end(ts, k + 1) == j);
        if first.is_some() && self.is(j, TokenKind::EndMarker, closer) {
            return Some((crate::container::trim_end(text.as_str()), j + 1));
        }
        match first {
            None => {
                if j < n && self.tokens[j].kind == TokenKind::Marker {
                    return None;
                }
                let sp = self.token_span(k);
                self.report(Code::AlternateVerseNotClosed, sp, "alternate or published number not closed");
                Some((String::new(), k + 1))
            },
            Some(f) => {
                let sp = self.token_span(k);
                self.report(Code::AlternateVerseNotClosed, sp, "alternate or published number not closed");
                let word = if self.tokens[f].kind == TokenKind::Stray {
                    proof {
                        reveal_strlit("\\");
                    }
                    "\\".to_owned()
                } else {
                    self.tokens[f].text.clone()
                };
                Some((word, f + 1))
            },
        }
    }

    /// `\v` and its number, and the `\va` and `\vp` after it.
    fn on_verse(&mut self, i: usize)
        requires
            old(self).inv(),
            i == old(self).pos,
            i < old(self).tokens@.len(),
        ensures
            final(self).produced(),
            final(self).advanced(old(self)),
            final(self).pos > old(self).pos,
    {
        let n = self.tokens.len();
        let start = self.start_off(i);
        let sp = self.token_span(i);
        self.after_chapter = false;
        if self.in_note() {
            self.report(Code::VerseInNote, sp, "verse marker inside a note");
            let j = self.skip_space_from(i + 1, false);
            self.pos = if j < n && self.tokens[j].kind == TokenKind::Word {
                j + 1
            } else {
                i + 1
            };
            return;
        }
        if !self.ensure_container(start) {
            self.pos = i + 1;
            return;
        }
        let j = self.skip_space_from(i + 1, true);
        if !(j < n && self.tokens[j].kind == TokenKind::Word) {
            self.report(Code::MissingVerseNumber, sp, "verse marker with no number");
            self.pos = i + 1;
            return;
        }
        let end = self.end_off(j);
        let vsp = self.span(start, end);
        let word = self.tokens[j].text.clone();
        let number = match NumberList::parse_str(word.as_str()) {
            Ok(number) => number,
            Err(_) => {
                self.report(Code::MalformedVerseNumber, vsp, "malformed verse number");
                self.pos = j + 1;
                return;
            },
        };
        if has_leading_zero(word.as_str()) {
            let wsp = self.token_span(j);
            self.report(Code::NumberHasLeadingZero, wsp, "number written with a leading zero");
        }
        let mut next = j + 1;
        let mut alt_number: Option<NumberList> = None;
        let mut pub_number: Option<String> = None;
        let k = self.skip_space_from(next, false);
        if self.is(k, TokenKind::Marker, "va") {
            match self.read_verse_number_text(k, "va") {
                Some((text, after)) => {
                    match NumberList::parse_str(text.as_str()) {
                        Ok(alt) => {
                            alt_number = Some(alt);
                        },
                        Err(_) => {
                            let ksp = self.token_span(k);
                            self.report(Code::MalformedVerseNumber, ksp, "malformed alternate verse number");
                        },
                    }
                    next = after;
                },
                None => {},
            }
        }
        let k2 = self.skip_space_from(next, false);
        if self.is(k2, TokenKind::Marker, "vp") {
            match self.read_verse_number_text(k2, "vp") {
                Some((text, after)) => {
                    pub_number = Some(text);
                    next = after;
                },
                None => {},
            }
        }
        self.add_inline(Inline::VerseStart(VerseStart { number, alt_number, pub_number, span: vsp }));
        self.pos = next;
    }

    /// `\ca` after a chapter number at token `k`: the alternate number and
    /// the token after it.
    fn read_alt_chapter(&mut self, k: usize) -> (r: (Option<NumberList>, usize))
        requires
            old(self).inv(),
            k < old(self).tokens@.len(),
        ensures
            final(self).inv(),
            old(self).produced() ==> final(self).produced(),
            final(self).input() == old(self).input(),
            final(self).pos == old(self).pos,
            final(self).shape() == old(self).shape(),
            final(self).frames@ == old(self).frames@,
            final(self).has_container() == old(self).has_container(),
            k < r.1 <= final(self).tokens@.len(),
    {
        let n = self.tokens.len();
        let sp = self.token_span(k);
        let w = self.skip_space_from(k + 1, false);
        if !(w < n && self.tokens[w].kind == TokenKind::Word) {
            self.report(Code::MalformedChapterNumber, sp, "alternate chapter marker with no number");
            return (None, k + 1);
        }
        let alt = match NumberList::parse_str(self.tokens[w].text.as_str()) {
            Ok(alt) => Some(alt),
            Err(_) => {
                self.report(Code::MalformedChapterNumber, sp, "malformed alternate chapter number");
                None
            },
        };
        if self.is(w + 1, TokenKind::EndMarker, "ca") {
            (alt, w + 2)
        } else {
            if alt.is_some() {
                self.report(Code::AlternateChapterNotClosed, sp, "alternate chapter number not closed");
            }
            (alt, w + 1)
        }
    }

    /// `\c` and its number, and the `\ca` and `\cp` after it.
    fn on_chapter(&mut self, i: usize)
        requires
            old(self).inv(),
            i == old(self).pos,
            i < old(self).tokens@.len(),
        ensures
            final(self).produced(),
            final(self).advanced(old(self)),
            final(self).pos > old(self).pos,
    {
        let n = self.tokens.len();
        let start = self.start_off(i);
        let sp = self.token_span(i);
        self.close_block_level(start);
        if self.sidebar.is_some() {
            self.report(Code::SidebarNotClosed, sp, "sidebar not closed before a chapter");
            self.finish_sidebar(start);
        }
        let j = self.skip_space_from(i + 1, false);
        if !(j < n && self.tokens[j].kind == TokenKind::Word) {
            self.report(Code::MissingChapterNumber, sp, "chapter marker with no number");
            self.pos = i + 1;
            return;
        }
        let csp = self.span(start, self.end_off(j));
        let word = self.tokens[j].text.clone();
        let number = match parse_chapter_number(word.as_str()) {
            Some(number) => number,
            None => {
                self.report(Code::MalformedChapterNumber, csp, "malformed chapter number");
                self.pos = j + 1;
                return;
            },
        };
        if has_leading_zero(word.as_str()) {
            let wsp = self.token_span(j);
            self.report(Code::NumberHasLeadingZero, wsp, "number written with a leading zero");
        }
        let mut next = j + 1;
        let mut alt_number: Option<NumberList> = None;
        let mut pub_number: Option<String> = None;
        let k = self.skip_space_from(next, true);
        if self.is(k, TokenKind::Marker, "ca") {
            let (alt, after) = self.read_alt_chapter(k);
            alt_number = alt;
            next = after;
        }
        let k2 = self.skip_space_from(next, true);
        if self.is(k2, TokenKind::Marker, "cp") {
            let w = self.skip_space_from(k2 + 1, false);
            if w < n && self.tokens[w].kind == TokenKind::Word {
                pub_number = Some(self.raw(w));
                next = w + 1;
            } else {
                next = k2 + 1;
            }
        }
        self.push_out(Block::ChapterStart(ChapterStart { number, alt_number, pub_number, span: csp }));
        self.after_chapter = true;
        self.pos = next;
    }

    /// `\cp` standing after a chapter whose own reader did not see it: its
    /// first word is the chapter's published number.
    fn on_chapter_published(&mut self, i: usize)
        requires
            old(self).inv(),
            old(self).after_chapter,
            i == old(self).pos,
            i < old(self).tokens@.len(),
        ensures
            final(self).produced(),
            final(self).advanced(old(self)),
            final(self).pos > old(self).pos,
    {
        let n = self.tokens.len();
        let w = self.skip_space_from(i + 1, false);
        if w < n && self.tokens[w].kind == TokenKind::Word {
            let published = self.tokens[w].text.clone();
            self.set_chapter_published(published);
            self.pos = w + 1;
        } else {
            self.pos = i + 1;
        }
        self.after_chapter = false;
    }

    /// `\id`, its book code and the description on the rest of its line.
    fn on_id(&mut self, i: usize)
        requires
            old(self).inv(),
            i == old(self).pos,
            i < old(self).tokens@.len(),
        ensures
            final(self).produced(),
            final(self).advanced(old(self)),
            final(self).pos > old(self).pos,
    {
        let n = self.tokens.len();
        let start = self.start_off(i);
        let sp = self.token_span(i);
        self.close_block_level(start);
        let j = self.skip_space_from(i + 1, false);
        if !(j < n && self.tokens[j].kind == TokenKind::Word) {
            self.report(Code::MissingBookCode, sp, "\\id with no book code");
            self.pos = self.line_end(i + 1);
            if self.pos <= i {
                self.pos = i + 1;
            }
            return;
        }
        match BookCode::from_str(self.tokens[j].text.as_str()) {
            Ok(code) => {
                let (description, stop, last) = self.read_text_run(j + 1, false);
                let end = match last {
                    Some(l) => self.end_off(l),
                    None => self.end_off(j),
                };
                let bsp = self.span(start, end);
                self.push_out(Block::Book(Book { code, description, span: bsp }));
                self.pos = stop;
            },
            Err(_) => {
                let bsp = self.span(start, self.end_off(j));
                self.report(Code::UnknownBookCode, bsp, "not a book code");
                self.pos = self.line_end(j + 1);
            },
        }
    }

    /// `\esb`, and the `\cat` that may follow it.
    fn on_sidebar(&mut self, i: usize, id: u32)
        requires
            old(self).inv(),
            i == old(self).pos,
            i < old(self).tokens@.len(),
            id < old(self).styles(),
        ensures
            final(self).produced(),
            final(self).advanced(old(self)),
            final(self).pos > old(self).pos,
    {
        let start = self.start_off(i);
        let sp = self.token_span(i);
        self.close_block_level(start);
        if self.sidebar.is_some() {
            self.report(Code::SidebarNotClosed, sp, "sidebar not closed before the next one");
            self.finish_sidebar(start);
        }
        let mut next = self.next_after(i);
        let mut category: Option<Text> = None;
        let j = self.skip_space_from(i + 1, false);
        if self.is(j, TokenKind::Marker, "cat") {
            let (cat, after) = self.read_category(j);
            category = Some(cat);
            next = after;
        }
        self.sidebar = Some(SidebarB { style: id, start, category, blocks: Vec::new() });
        self.pos = next;
    }

    /// `\esbe`.
    fn on_sidebar_end(&mut self, i: usize)
        requires
            old(self).inv(),
            i == old(self).pos,
            i < old(self).tokens@.len(),
        ensures
            final(self).produced(),
            final(self).advanced(old(self)),
            final(self).pos > old(self).pos,
    {
        let start = self.start_off(i);
        let end = self.end_off(i);
        let sp = self.token_span(i);
        self.close_block_level(start);
        if self.sidebar.is_some() {
            self.finish_sidebar(end);
        } else {
            self.report(Code::UnmatchedSidebarEnd, sp, "\\esbe with no sidebar open");
            match self.find_style("esbe") {
                Some(id) => {
                    self.push_out(Block::Para(Para { style: StyleId(id), children: Vec::new(), span: sp }));
                },
                None => {},
            }
        }
        self.pos = self.next_after(i);
    }

    /// `\periph`, its title and its attributes.
    fn on_periph(&mut self, i: usize, id: u32)
        requires
            old(self).inv(),
            i == old(self).pos,
            i < old(self).tokens@.len(),
            id < old(self).styles(),
        ensures
            final(self).produced(),
            final(self).advanced(old(self)),
            final(self).pos > old(self).pos,
    {
        let n = self.tokens.len();
        let start = self.start_off(i);
        let sp = self.token_span(i);
        self.close_block_level(start);
        if self.sidebar.is_some() {
            self.report(Code::SidebarNotClosed, sp, "sidebar not closed before \\periph");
            self.finish_sidebar(start);
        }
        self.finish_periph(start);
        let mut title = String::new();
        let mut first: Option<usize> = None;
        let mut last: Option<usize> = None;
        let mut attributes: Option<Attributes> = None;
        let mut j = i + 1;
        while j < n
            invariant
                self.inv(),
                self.input() == old(self).input(),
                self.pos == old(self).pos,
                self.frames@.len() == 0,
                !self.has_container(),
                self.sidebar is None,
                self.periph is None,
                n == self.tokens@.len(),
                i < j <= n,
                first matches Some(f) ==> f < n,
                last matches Some(l) ==> l < n,
                attributes_ok(attributes, self.total()),
            decreases n - j,
        {
            let kind = self.tokens[j].kind;
            if kind == TokenKind::Space {
                if self.tokens[j].newline {
                    break;
                }
                if !title.as_str().is_empty() && !ends_with_space(title.as_str()) {
                    push_char(&mut title, ' ');
                }
                if first.is_none() {
                    first = Some(j);
                }
            } else if kind == TokenKind::Word || kind == TokenKind::Stray {
                if kind == TokenKind::Word {
                    push_str(&mut title, self.tokens[j].text.as_str());
                } else {
                    push_char(&mut title, '\\');
                }
                if first.is_none() {
                    first = Some(j);
                }
                last = Some(j);
            } else if kind == TokenKind::MilestoneEnd {
                let msp = self.token_span(j);
                self.report(Code::UnmatchedMilestoneEnd, msp, "`\\*` with no milestone open");
            } else if kind == TokenKind::Pipe {
                let pipe = self.token_span(j);
                let m = self.next_marker(j);
                let a = self.tokens[j].end;
                assert(self.tokens@[j as int].end <= self.src.chars@.len());
                let b = self.char_at(m);
                if a <= b {
                    let nl = self.find_newline(a, b);
                    let pairs = self.parse_pairs(a, nl);
                    attributes = Some(Attributes { pairs, pipe });
                    j = self.token_holding(j, nl);
                    if j <= i {
                        j = i + 1;
                    }
                } else {
                    attributes = Some(Attributes { pairs: Vec::new(), pipe });
                    j = j + 1;
                }
                break;
            } else {
                break;
            }
            j = j + 1;
        }
        let trimmed = crate::container::trim_end(title.as_str());
        let title_text = if trimmed.as_str().is_empty() {
            None
        } else {
            let a = match first {
                Some(f) => self.start_off(f),
                None => self.end_off(i),
            };
            let b = match last {
                Some(l) => self.end_off(l),
                None => a,
            };
            Some(Text { content: trimmed, span: self.span(a, b) })
        };
        self.periph = Some(PeriphB { style: id, start, title: title_text, attributes, blocks: Vec::new() });
        self.pos = j;
    }

    /// `\tr`.
    fn on_row(&mut self, i: usize)
        requires
            old(self).inv(),
            i == old(self).pos,
            i < old(self).tokens@.len(),
        ensures
            final(self).produced(),
            final(self).advanced(old(self)),
            final(self).pos > old(self).pos,
    {
        let start = self.start_off(i);
        self.close_frames(start, true);
        self.close_para(start);
        if self.table.is_some() {
            self.close_row(start);
        }
        let mut tb = match self.table.take() {
            Some(tb) => tb,
            None => TableB { start, rows: Vec::new(), row: None },
        };
        tb.row = Some(RowB { start, cells: Vec::new(), cell: None });
        self.table = Some(tb);
        self.after_chapter = false;
        self.pos = self.next_after(i);
    }

    /// A table cell marker.
    fn on_cell(&mut self, i: usize, header: bool, alignment: Alignment, column: usize, colspan: usize)
        requires
            old(self).inv(),
            i == old(self).pos,
            i < old(self).tokens@.len(),
        ensures
            final(self).produced(),
            final(self).advanced(old(self)),
            final(self).pos > old(self).pos,
    {
        let start = self.start_off(i);
        self.close_frames(start, true);
        self.close_para(start);
        self.close_cell(start);
        let mut tb = match self.table.take() {
            Some(tb) => tb,
            None => TableB { start, rows: Vec::new(), row: None },
        };
        let mut row = match tb.row.take() {
            Some(row) => row,
            None => RowB { start, cells: Vec::new(), cell: None },
        };
        row.cell = Some(CellB { header, alignment, column, colspan, start, children: Vec::new() });
        tb.row = Some(row);
        self.table = Some(tb);
        self.after_chapter = false;
        self.pos = self.next_after(i);
    }

    /// An opening marker.
    fn on_marker(&mut self, i: usize)
        requires
            old(self).inv(),
            i == old(self).pos,
            i < old(self).tokens@.len(),
        ensures
            final(self).produced(),
            final(self).advanced(old(self)),
            final(self).pos > old(self).pos,
    {
        let sp = self.token_span(i);
        let name = self.tokens[i].text.clone();
        let nested = self.tokens[i].nested;
        let name = name.as_str();
        if !nested {
            if str_eq(name, "id") {
                return self.on_id(i);
            } else if str_eq(name, "c") {
                return self.on_chapter(i);
            } else if str_eq(name, "v") {
                return self.on_verse(i);
            } else if str_eq(name, "cp") && self.after_chapter {
                return self.on_chapter_published(i);
            } else if str_eq(name, "esbe") {
                return self.on_sidebar_end(i);
            } else if str_eq(name, "tr") {
                return self.on_row(i);
            }
            match parse_cell_marker(name) {
                Some((header, alignment, column, colspan)) => {
                    return self.on_cell(i, header, alignment, column, colspan);
                },
                None => {},
            }
        }
        match self.find_style(name) {
            None => {
                let message = marker_message(name, false);
                if is_custom(name) {
                    self.report(Code::UnknownCustomMarker, sp, message.as_str());
                } else {
                    self.report(Code::UnknownMarker, sp, message.as_str());
                }
                self.pos = self.next_after(i);
            },
            Some(id) => {
                if !nested && str_eq(name, "esb") {
                    return self.on_sidebar(i, id);
                } else if !nested && str_eq(name, "periph") {
                    return self.on_periph(i, id);
                }
                let style_type = self.rule(id).style_type;
                match style_type {
                    StyleType::Paragraph => self.on_para(i, id),
                    StyleType::Character => self.on_char(i, id, nested),
                    StyleType::Note => self.on_note(i, id),
                    StyleType::Milestone => self.on_milestone(i, id),
                }
            },
        }
    }

    /// The token at the current position.
    fn step(&mut self)
        requires
            old(self).inv(),
            old(self).pos < old(self).tokens@.len(),
        ensures
            old(self).tokens@[old(self).pos as int].kind != TokenKind::Space ==> final(self).produced(),
            old(self).tokens@[old(self).pos as int].kind == TokenKind::Space ==> final(self).pos == old(self).pos + 1,
            final(self).advanced(old(self)),
            final(self).pos > old(self).pos,
    {
        let i = self.pos;
        match self.kind(i) {
            TokenKind::Space | TokenKind::Word | TokenKind::Stray => self.on_text(i),
            TokenKind::Pipe => self.on_pipe(i),
            TokenKind::OptBreak => self.on_opt_break(i),
            TokenKind::MilestoneEnd => {
                let sp = self.token_span(i);
                self.report(Code::UnmatchedMilestoneEnd, sp, "`\\*` with no milestone open");
                self.pos = self.next_after(i);
            },
            TokenKind::EndMarker => self.on_end_marker(i),
            TokenKind::Marker => self.on_marker(i),
        }
    }

    /// Close everything still open at the end of the text.
    fn finish(&mut self)
        requires
            old(self).inv(),
        ensures
            final(self).inv(),
            old(self).produced() ==> final(self).produced(),
            final(self).input() == old(self).input(),
            final(self).frames@.len() == 0,
            final(self).para is None,
            final(self).table is None,
            final(self).sidebar is None,
            final(self).periph is None,
            old(self).idle() ==> final(self).blocks@ == old(self).blocks@ && final(self).diags@ == old(self).diags@
                && final(self).idle(),
    {
        let end = self.start_off(self.tokens.len());
        self.close_block_level(end);
        if self.sidebar.is_some() {
            let sp = self.span(end, end);
            self.report(Code::SidebarNotClosed, sp, "sidebar not closed at the end of the text");
            self.finish_sidebar(end);
        }
        self.finish_periph(end);
    }


    /// Whether an unknown marker at token `i` is a milestone: written
    /// `\name\*` or `\name |…`, or the `-s`/`-e` form of a known style.
    fn milestone_shaped(&self, i: usize) -> (b: bool)
        requires
            self.inv(),
            i < self.tokens@.len(),
        ensures
            b == ((i + 1 < self.tokens@.len() && (self.tokens@[i + 1].kind == TokenKind::MilestoneEnd
                || self.tokens@[i + 1].kind == TokenKind::Pipe))
                || (i + 2 < self.tokens@.len() && self.tokens@[i + 1].kind == TokenKind::Space
                    && !self.tokens@[i + 1].newline && self.tokens@[i + 2].kind == TokenKind::Pipe)
                || (milestone_named(self.tokens@[i as int].text@) && self.named_style(
                    self.tokens@[i as int].text@.take(self.tokens@[i as int].text@.len() - 2),
                ) is Some)),
    {
        let n = self.tokens.len();
        if i + 1 < n {
            let k = self.tokens[i + 1].kind;
            if k == TokenKind::MilestoneEnd || k == TokenKind::Pipe {
                return true;
            }
            if k == TokenKind::Space && !self.tokens[i + 1].newline && i + 2 < n
                && self.tokens[i + 2].kind == TokenKind::Pipe {
                return true;
            }
        }
        match milestone_base(self.tokens[i].text.as_str()) {
            Some(base) => self.find_style(base.as_str()).is_some(),
            None => false,
        }
    }

    /// Give every milestone the stylesheet lacks a style of its own, before
    /// any node is built, and report the ones a sheet should have named.
    fn register_milestones(&mut self)
        requires
            old(self).inv(),
            old(self).blocks@.len() == 0,
            old(self).frames@.len() == 0,
            old(self).shape() == (false, false, false, false),
            old(self).extra@.len() == 0,
            old(self).base.rules@.len() + old(self).tokens@.len() < u32::MAX,
        ensures
            final(self).inv(),
            old(self).produced() ==> final(self).produced(),
            final(self).src.chars@ == old(self).src.chars@,
            final(self).tokens@ == old(self).tokens@,
            final(self).base == old(self).base,
            final(self).pos == old(self).pos,
            final(self).blocks@.len() == 0,
            final(self).frames@.len() == 0,
            final(self).shape() == (false, false, false, false),
            names_of(final(self).extra@) == derived_names(old(self).tokens@, old(self).base.rules@, old(self).tokens@.len() as int),
            forall|k: int| 0 <= k < final(self).extra@.len() ==> (#[trigger] final(self).extra@[k]).style_type == StyleType::Milestone
                && final(self).extra@[k].text_type == crate::style::TextType::Other,
            ({
                let reports = milestone_reports(old(self).tokens@, old(self).base.rules@, old(self).tokens@.len() as int);
                let d = old(self).diags@.len();
                &&& final(self).diags@.len() == d + reports.len()
                &&& final(self).diags@.take(d as int) == old(self).diags@
                &&& forall|k: int| 0 <= k < reports.len() ==> {
                    &&& (#[trigger] final(self).diags@[d + k]).code == reports[k].0
                    &&& final(self).diags@[d + k].span.start == byte_len(old(self).src.chars@.take(reports[k].1))
                    &&& final(self).diags@[d + k].span.end == byte_len(old(self).src.chars@.take(reports[k].2))
                }
            }),
    {
        let n = self.tokens.len();
        let mut i: usize = 0;
        let ghost ts = self.tokens@;
        let ghost base = self.base.rules@;
        let ghost d = self.diags@.len();
        let ghost chars = self.src.chars@;
        assert(names_of(self.extra@) =~= Seq::<Seq<char>>::empty());
        assert(self.diags@.take(d as int) =~= old(self).diags@);
        while i < n
            invariant
                ts == old(self).tokens@,
                base == old(self).base.rules@,
                chars == old(self).src.chars@,
                d == old(self).diags@.len(),
                names_of(self.extra@) == derived_names(ts, base, i as int),
                forall|k: int| 0 <= k < self.extra@.len() ==> (#[trigger] self.extra@[k]).style_type == StyleType::Milestone
                    && self.extra@[k].text_type == crate::style::TextType::Other,
                self.diags@.len() == d + milestone_reports(ts, base, i as int).len(),
                self.diags@.take(d as int) == old(self).diags@,
                forall|k: int| 0 <= k < milestone_reports(ts, base, i as int).len() ==> {
                    &&& (#[trigger] self.diags@[d + k]).code == milestone_reports(ts, base, i as int)[k].0
                    &&& self.diags@[d + k].span.start == byte_len(chars.take(milestone_reports(ts, base, i as int)[k].1))
                    &&& self.diags@[d + k].span.end == byte_len(chars.take(milestone_reports(ts, base, i as int)[k].2))
                },
                self.inv(),
                self.src.chars@ == old(self).src.chars@,
                self.tokens@ == old(self).tokens@,
                self.base == old(self).base,
                self.pos == old(self).pos,
                self.blocks@.len() == 0,
                self.frames@.len() == 0,
                self.shape() == (false, false, false, false),
                n == self.tokens@.len(),
                i <= n,
                self.extra@.len() <= i,
                self.base.rules@.len() + n < u32::MAX,
            decreases n - i,
        {
            let ghost before = self.diags@;
            let ghost names = names_of(self.extra@);
            let ghost reports = milestone_reports(ts, base, i as int);
            if self.tokens[i].kind == TokenKind::Marker && !self.tokens[i].nested {
                let name = self.tokens[i].text.clone();
                assert(name@ == ts[i as int].text@);
                if self.find_style(name.as_str()).is_none() && self.milestone_shaped(i) {
                    assert(needs_style(ts, i as int, base, names));
                    let sp = self.token_span(i);
                    let derived = match milestone_base(name.as_str()) {
                        Some(b) => self.find_style(b.as_str()).is_some(),
                        None => false,
                    };
                    assert(derived == (milestone_named(ts[i as int].text@)
                        && style_in(base, names, ts[i as int].text@.take(ts[i as int].text@.len() - 2)) is Some));
                    if !derived {
                        if is_custom(name.as_str()) {
                            self.report(Code::UnknownCustomMilestone, sp, "custom milestone not in the stylesheet");
                        } else {
                            self.report(Code::UnknownMilestone, sp, "milestone not in the stylesheet");
                        }
                        proof {
                            let r2 = milestone_reports(ts, base, i + 1);
                            assert(r2 == reports.push(r2.last()));
                            assert forall|k: int| 0 <= k < r2.len() implies {
                                &&& (#[trigger] self.diags@[d + k]).code == r2[k].0
                                &&& self.diags@[d + k].span.start == byte_len(chars.take(r2[k].1))
                                &&& self.diags@[d + k].span.end == byte_len(chars.take(r2[k].2))
                            } by {
                                if k < reports.len() {
                                    assert(self.diags@[d + k] == before[d + k]);
                                }
                            }
                            assert(self.diags@.take(d as int) =~= before.take(d as int));
                        }
                    } else {
                        assert(milestone_reports(ts, base, i + 1) == reports);
                    }
                    let rule = StyleRule::bare(name.as_str(), StyleType::Milestone, crate::style::TextType::Other);
                    let ghost extra0 = self.extra@;
                    self.extra.push(rule);
                    proof {
                        assert(names_of(self.extra@) =~= names.push(name@));
                        assert forall|k: int| 0 <= k < self.extra@.len() implies (#[trigger] self.extra@[k]).style_type == StyleType::Milestone
                            && self.extra@[k].text_type == crate::style::TextType::Other by {
                            if k < extra0.len() {
                                assert(self.extra@[k] == extra0[k]);
                            }
                        }
                    }
                } else {
                    assert(!needs_style(ts, i as int, base, names));
                }
            } else {
                assert(!needs_style(ts, i as int, base, names));
            }
            i = i + 1;
        }
    }

    /// Parse every token.
    fn run(&mut self)
        requires
            old(self).inv(),
        ensures
            final(self).inv(),
            old(self).produced() ==> final(self).produced(),
            final(self).input() == old(self).input(),
            final(self).frames@.len() == 0,
            final(self).shape() == (false, false, false, false),
            old(self).pos >= old(self).tokens@.len() && old(self).idle() ==> final(self).blocks@ == old(self).blocks@
                && final(self).diags@ == old(self).diags@,
            (exists|k: int| old(self).pos <= k < old(self).tokens@.len() && (#[trigger] old(self).tokens@[k]).kind
                != TokenKind::Space) ==> final(self).blocks@.len() > 0 || final(self).diags@.len() > 0,
    {
        if self.pos >= self.tokens.len() {
            self.finish();
            return;
        }
        while self.pos < self.tokens.len()
            invariant
                self.inv(),
                self.input() == old(self).input(),
                old(self).produced() ==> self.produced(),
                old(self).pos <= self.pos,
                forall|k: int| old(self).pos <= k < self.pos && k < self.tokens@.len() && (#[trigger] self.tokens@[k]).kind
                    != TokenKind::Space ==> self.produced(),
            decreases self.tokens@.len() - self.pos,
        {
            let ghost before = self.pos;
            self.step();
            proof {
                assert forall|k: int| old(self).pos <= k < self.pos && k < self.tokens@.len() && (#[trigger] self.tokens@[k]).kind
                    != TokenKind::Space implies self.produced() by {
                    if k >= before {
                        if self.tokens@[before as int].kind == TokenKind::Space {
                            assert(k == before);
                        }
                    }
                }
            }
        }
        self.finish();
    }

    // ----- reporting -----

    fn report(&mut self, code: Code, span: Span, message: &str)
        requires
            old(self).inv(),
            span_ok(span, old(self).total()),
            !code_is_semantic(code),
        ensures
            final(self).diags@.len() == old(self).diags@.len() + 1,
            final(self).diags@.drop_last() == old(self).diags@,
            final(self).diags@.last().code == code,
            final(self).diags@.last().span == span,
            final(self).diags@.last().message@ == message@,
            final(self).blocks@ == old(self).blocks@,
            final(self).shape() == old(self).shape(),
            final(self).inv(),
            old(self).produced() ==> final(self).produced(),
            final(self).input() == old(self).input(),
            final(self).pos == old(self).pos,
            final(self).has_container() == old(self).has_container(),
            final(self).frames@ == old(self).frames@,
    {
        let ghost before = self.diags@;
        self.diags.push(Diagnostic::new(code, span, message.to_owned()));
        proof {
            assert forall|k: int| 0 <= k < self.diags@.len() implies repair_ok(
                #[trigger] self.diags@[k],
                self.total(),
            ) by {
                if k < before.len() {
                    assert(self.diags@[k] == before[k]);
                }
            }
        }
    }
}



/// Whether the first `base.len()` rules of `sheet` are those of `base`.
pub open spec fn extends(sheet: Seq<StyleRule>, base: Seq<StyleRule>) -> bool {
    &&& base.len() <= sheet.len()
    &&& forall|k: int|
        0 <= k < base.len() ==> {
            &&& (#[trigger] sheet[k]).marker@ == base[k].marker@
            &&& sheet[k].style_type == base[k].style_type
            &&& sheet[k].text_type == base[k].text_type
            &&& sheet[k].nest == base[k].nest
        }
}

/// What a parse of `source` against `sheet` promises: the document's sheet
/// extends `sheet`, every style resolves in it, every span lies in the
/// source, and so does every diagnostic.
pub open spec fn parsed(source: Seq<char>, sheet: StyleSheet, result: ParseResult) -> bool {
    &&& parsed_document(source, sheet, result.document)
    &&& repairs_ok(result.diagnostics@, byte_len(source))
}

/// What a parse promises of its document: its sheet extends `sheet`, every
/// style resolves in it, every span lies in the source, and no verse end
/// carries a span, verse ends being inserted rather than read.
pub open spec fn parsed_document(source: Seq<char>, sheet: StyleSheet, document: Document) -> bool {
    &&& extends(document.style_sheet.rules@, sheet.rules@)
    &&& document.wf()
    &&& blocks_spans_ok(document.blocks@, byte_len(source))
    &&& span_ok(document.span, byte_len(source))
}

/// The span of a whole parse of `source`: from its first character after a
/// byte-order mark to its end, or empty for a text too long for byte offsets
/// to fit a `u32`.
pub open spec fn source_span(source: Seq<char>) -> Span {
    if byte_len(source) > u32::MAX {
        Span { start: 0, end: 0 }
    } else {
        Span { start: byte_len(source.take(first_char(source))) as u32, end: byte_len(source) as u32 }
    }
}

/// Whether `source` holds anything but whitespace after its byte-order mark.
pub open spec fn has_content(source: Seq<char>) -> bool {
    exists|m: int| first_char(source) <= m < source.len() && !is_space(#[trigger] source[m])
}

/// Every diagnostic of a list is a repair as the parser reports one.
pub open spec fn repairs_ok(diagnostics: Seq<Diagnostic>, total: nat) -> bool {
    forall|k: int| 0 <= k < diagnostics.len() ==> repair_ok(#[trigger] diagnostics[k], total)
}

/// `unknown marker `\name``, or `\name*` for a closing marker.
fn marker_message(name: &str, closing: bool) -> (message: String)
    ensures
        message@ == "unknown marker `\\"@ + name@ + (if closing {
            "*"@
        } else {
            seq![]
        }) + "`"@,
{
    let mut text = String::new();
    crate::strings::push_str(&mut text, "unknown marker `\\");
    crate::strings::push_str(&mut text, name);
    if closing {
        crate::strings::push_str(&mut text, "*");
    }
    crate::strings::push_str(&mut text, "`");
    assert(text@ =~= "unknown marker `\\"@ + name@ + (if closing {
        "*"@
    } else {
        seq![]
    }) + "`"@);
    text
}

/// A parser over one source text.
pub struct Parser<'a> {
    source: &'a str,
}

impl<'a> Parser<'a> {
    pub closed spec fn source(&self) -> Seq<char> {
        self.source@
    }

    pub fn new(source: &'a str) -> (parser: Parser<'a>)
        ensures
            parser.source() == source@,
    {
        Parser { source }
    }

    /// Parse against `style_sheet`, with verse and chapter ends.
    pub fn parse(&self, style_sheet: &Arc<StyleSheet>) -> (result: ParseResult)
        ensures
            parsed(self.source(), **style_sheet, result),
            result.document.span == source_span(self.source()),
            has_content(self.source()) ==> result.document.blocks@.len() > 0 || result.diagnostics@.len() > 0,
            self.source().len() == 0 && style_sheet.rules@.len() < 0x7fff_ffff ==> result.document.blocks@.len() == 0
                && result.diagnostics@.len() == 0,
    {
        self.parse_with_options(style_sheet, true)
    }

    /// Parse against `style_sheet`; `insert_end_milestones` says whether the
    /// verse and chapter ends go into the tree.
    pub fn parse_with_options(&self, style_sheet: &Arc<StyleSheet>, insert_end_milestones: bool) -> (result: ParseResult)
        ensures
            parsed(self.source(), **style_sheet, result),
            result.document.span == source_span(self.source()),
            has_content(self.source()) ==> result.document.blocks@.len() > 0 || result.diagnostics@.len() > 0,
            self.source().len() == 0 && style_sheet.rules@.len() < 0x7fff_ffff ==> result.document.blocks@.len() == 0
                && result.diagnostics@.len() == 0,
    {
        let (blocks, sheet, diagnostics, span) = parse_blocks(self.source, style_sheet);
        let blocks = if insert_end_milestones {
            let out = crate::verse_ends::insert_end_milestones(blocks, &sheet, Ghost(byte_len(self.source@)));
            proof {
                crate::verse_ends::lemma_chapters_ended_len(blocks@);
                if blocks@.len() == 0 {
                    assert(crate::verse_ends::with_chapter_ends(blocks@).len() == 0);
                    assert(crate::verse_ends::last_chapter(blocks@) is None);
                }
            }
            out
        } else {
            blocks
        };
        ParseResult { document: Document { blocks, style_sheet: sheet, span }, diagnostics }
    }
}

/// The blocks of `source`, the sheet they resolve against, the repairs, and
/// the span of the whole text.
fn parse_blocks(source: &str, style_sheet: &Arc<StyleSheet>) -> (r: (Vec<Block>, Arc<StyleSheet>, Vec<Diagnostic>, Span))
    ensures
        extends(r.1.rules@, style_sheet.rules@),
        blocks_ok(r.0@, r.1.rules@.len(), byte_len(source@)),
        span_ok(r.3, byte_len(source@)),
        r.3 == source_span(source@),
        has_content(source@) ==> r.0@.len() > 0 || r.2@.len() > 0,
        forall|k: int| 0 <= k < r.2@.len() ==> repair_ok(#[trigger] r.2@[k], byte_len(source@)),
        source@.len() == 0 && style_sheet.rules@.len() < 0x7fff_ffff ==> r.0@.len() == 0 && r.2@.len() == 0
            && r.1.rules@ == style_sheet.rules@,
{
    let src = match SourceText::new(source) {
        Some(src) => src,
        None => {
            let mut diagnostics = Vec::new();
            diagnostics.push(Diagnostic::new(Code::Internal, Span::new(0, 0), "the text is too long to parse".to_owned()));
            return (Vec::new(), share(style_sheet), diagnostics, Span::new(0, 0));
        },
    };
    let tokens = lex(&src);
    let base = share(style_sheet);
    let first = if src.chars.len() > 0 && src.chars[0] == '\u{feff}' {
        1
    } else {
        0
    };
    let n = src.chars.len();
    proof {
        src.lemma_offsets_monotone(first as int, n as int);
        src.lemma_offsets_monotone(n as int, n as int);
        assert(src.chars@.take(n as int) =~= src.chars@);
    }
    let span = ordered_span(src.offsets[first], src.offsets[n]);
    if base.rules.len() >= 0x7fff_ffff || tokens.len() >= 0x7fff_ffff {
        let mut diagnostics = Vec::new();
        diagnostics.push(Diagnostic::new(Code::Internal, Span::new(0, 0), "the text is too long to parse".to_owned()));
        return (Vec::new(), base, diagnostics, span);
    }
    let mut state = State {
        src,
        tokens,
        pos: 0,
        base,
        extra: Vec::new(),
        diags: Vec::new(),
        blocks: Vec::new(),
        sidebar: None,
        periph: None,
        para: None,
        table: None,
        frames: Vec::new(),
        after_chapter: false,
    };
    state.register_milestones();
    proof {
        if source@.len() == 0 {
            assert(state.tokens@.len() == 0);
            assert(derived_names(state.tokens@, state.base.rules@, 0) =~= Seq::<Seq<char>>::empty());
            assert(milestone_reports(state.tokens@, state.base.rules@, 0).len() == 0);
            assert(state.extra@.len() == 0);
            assert(state.diags@.len() == 0);
        }
    }
    proof {
        if has_content(source@) {
            let m = choose|m: int| first_char(source@) <= m < source@.len() && !is_space(#[trigger] source@[m]);
            lemma_tiles_cover(state.tokens@, first_char(source@), source@.len() as int, m);
            let k = choose|k: int| 0 <= k < state.tokens@.len() && (#[trigger] state.tokens@[k]).start <= m
                < state.tokens@[k].end;
            assert(state.tokens@[k].kind != TokenKind::Space);
        }
    }
    state.run();
    let ghost n_styles = state.styles();
    let State { src, tokens, pos, base, extra, diags, blocks, sidebar, periph, para, table, frames, after_chapter } = state;
    let sheet = if extra.len() == 0 {
        base
    } else {
        let mut rules: Vec<StyleRule> = Vec::new();
        let mut k: usize = 0;
        while k < base.rules.len()
            invariant
                k <= base.rules@.len(),
                rules@.len() == k,
                forall|j: int| 0 <= j < k ==> {
                    &&& (#[trigger] rules@[j]).marker@ == base.rules@[j].marker@
                    &&& rules@[j].style_type == base.rules@[j].style_type
                    &&& rules@[j].text_type == base.rules@[j].text_type
                    &&& rules@[j].nest == base.rules@[j].nest
                },
            decreases base.rules@.len() - k,
        {
            rules.push(base.rules[k].duplicate());
            k = k + 1;
        }
        let mut extra = extra;
        let ghost before = rules@;
        rules.append(&mut extra);
        proof {
            assert forall|j: int| 0 <= j < base.rules@.len() implies {
                &&& (#[trigger] rules@[j]).marker@ == base.rules@[j].marker@
                &&& rules@[j].style_type == base.rules@[j].style_type
                &&& rules@[j].text_type == base.rules@[j].text_type
                &&& rules@[j].nest == base.rules@[j].nest
            } by {
                assert(rules@[j] == before[j]);
            }
        }
        Arc::new(StyleSheet::new(rules))
    };
    (blocks, sheet, diags, span)
}

/// `blocks` with the chapter that ends it, if one does, published as
/// `published`.
pub open spec fn with_last_chapter_published(blocks: Seq<Block>, published: String) -> Seq<Block> {
    if blocks.len() > 0 && blocks.last() is ChapterStart {
        let c = blocks.last()->ChapterStart_0;
        blocks.update(
            blocks.len() - 1,
            Block::ChapterStart(ChapterStart {
                number: c.number,
                alt_number: c.alt_number,
                pub_number: Some(published),
                span: c.span,
            }),
        )
    } else {
        blocks
    }
}

/// Set the published number of the chapter that ends `blocks`, if one does.
fn set_last_chapter_published(blocks: &mut Vec<Block>, published: String, Ghost(n): Ghost<nat>, Ghost(total): Ghost<nat>)
    requires
        blocks_ok(old(blocks)@, n, total),
    ensures
        blocks_ok(final(blocks)@, n, total),
        final(blocks)@ == with_last_chapter_published(old(blocks)@, published),
{
    let len = blocks.len();
    if len == 0 {
        return;
    }
    let ghost before = blocks@;
    let last = blocks.pop().unwrap();
    proof {
        assert(blocks@ =~= before.drop_last());
        assert(block_styles_below(before[len - 1], n));
        assert(block_spans_ok(before[len - 1], total));
        assert forall|k: int| 0 <= k < blocks@.len() implies #[trigger] block_styles_below(blocks@[k], n) by {
            assert(blocks@[k] == before[k]);
        }
        assert forall|k: int| 0 <= k < blocks@.len() implies #[trigger] block_spans_ok(blocks@[k], total) by {
            assert(blocks@[k] == before[k]);
        }
    }
    let block = match last {
        Block::ChapterStart(c) => Block::ChapterStart(ChapterStart {
            number: c.number,
            alt_number: c.alt_number,
            pub_number: Some(published),
            span: c.span,
        }),
        other => other,
    };
    push_block(blocks, block, Ghost(n), Ghost(total));
}

/// Whether a token is whitespace that a skip passes over: any, or, unless
/// `lines`, only whitespace without a line break.
pub open spec fn skippable(t: Token, lines: bool) -> bool {
    t.kind == TokenKind::Space && (lines || !t.newline)
}

/// Whether a token is whitespace holding a line break.
pub open spec fn is_break_token(t: Token) -> bool {
    t.kind == TokenKind::Space && t.newline
}

/// Whether `c` ends a line.
pub open spec fn is_line_break(c: char) -> bool {
    c == '\n' || c == '\r'
}

/// Whether characters `j..b` of `s`, the rest of a run begun at `k`, reach an
/// `=` after at least one name character, with no whitespace or quote first.
pub open spec fn name_eq_from(s: Seq<char>, k: int, j: int, b: int) -> bool
    decreases b - j,
{
    if j >= b || j < 0 || j >= s.len() {
        false
    } else if s[j] == '=' {
        j > k
    } else if crate::lexer::is_space(s[j]) || s[j] == '"' {
        false
    } else {
        name_eq_from(s, k, j + 1, b)
    }
}

/// The first rule from `i` on whose marker is `name`.
pub open spec fn first_marker(rules: Seq<StyleRule>, name: Seq<char>, i: int) -> Option<nat>
    decreases rules.len() - i,
{
    if i < 0 || i >= rules.len() {
        None
    } else if rules[i].marker@ == name {
        Some(i as nat)
    } else {
        first_marker(rules, name, i + 1)
    }
}

proof fn lemma_first_marker(rules: Seq<StyleRule>, name: Seq<char>, i: int, f: Option<nat>)
    requires
        0 <= i <= rules.len(),
        forall|j: int| 0 <= j < i ==> rules[j].marker@ != name,
        match f {
            Some(m) => i <= m < rules.len() && rules[m as int].marker@ == name
                && forall|j: int| i <= j < m ==> rules[j].marker@ != name,
            None => forall|j: int| i <= j < rules.len() ==> rules[j].marker@ != name,
        },
    ensures
        first_marker(rules, name, 0) == f,
{
    lemma_first_marker_from(rules, name, 0, f);
}

proof fn lemma_first_marker_from(rules: Seq<StyleRule>, name: Seq<char>, i: int, f: Option<nat>)
    requires
        0 <= i <= rules.len(),
        match f {
            Some(m) => i <= m < rules.len() && rules[m as int].marker@ == name
                && forall|j: int| i <= j < m ==> rules[j].marker@ != name,
            None => forall|j: int| i <= j < rules.len() ==> rules[j].marker@ != name,
        },
    ensures
        first_marker(rules, name, i) == f,
    decreases rules.len() - i,
{
    if i < rules.len() {
        match f {
            Some(m) => {
                if m != i {
                    lemma_first_marker_from(rules, name, i + 1, f);
                }
            },
            None => lemma_first_marker_from(rules, name, i + 1, f),
        }
    }
}

/// Whether a token can be part of an alternate or published verse number:
/// a word, a stray backslash or whitespace.
pub open spec fn is_number_token(t: Token) -> bool {
    t.kind == TokenKind::Word || t.kind == TokenKind::Stray || t.kind == TokenKind::Space
}

/// The first token from `j` on that cannot be part of such a number.
pub open spec fn number_run_end(ts: Seq<Token>, j: int) -> int
    decreases ts.len() - j,
{
    if j < 0 || j >= ts.len() || !is_number_token(ts[j]) {
        j
    } else {
        number_run_end(ts, j + 1)
    }
}

/// The first word or stray backslash among tokens `a..b`.
pub open spec fn first_number_word(ts: Seq<Token>, a: int, b: int) -> Option<usize>
    decreases b - a,
{
    if a >= b {
        None
    } else {
        match first_number_word(ts, a, b - 1) {
            Some(f) => Some(f),
            None => if ts[b - 1].kind == TokenKind::Word || ts[b - 1].kind == TokenKind::Stray {
                Some((b - 1) as usize)
            } else {
                None
            },
        }
    }
}

/// The text of tokens `a..b`: words as they read, a stray backslash as
/// itself, and whitespace after the first word as one space.
pub open spec fn number_run_text(ts: Seq<Token>, a: int, b: int) -> Seq<char>
    decreases b - a,
{
    if a >= b {
        seq![]
    } else {
        let prev = number_run_text(ts, a, b - 1);
        let t = ts[b - 1];
        if t.kind == TokenKind::Word {
            prev + t.text@
        } else if t.kind == TokenKind::Stray {
            prev.push('\\')
        } else if t.kind == TokenKind::Space && first_number_word(ts, a, b - 1) is Some {
            prev.push(' ')
        } else {
            prev
        }
    }
}

/// The markers of a list of rules.
pub open spec fn names_of(rules: Seq<StyleRule>) -> Seq<Seq<char>> {
    rules.map_values(|r: StyleRule| r.marker@)
}

/// The first of `names` from `i` on that is `name`.
pub open spec fn first_name(names: Seq<Seq<char>>, name: Seq<char>, i: int) -> Option<nat>
    decreases names.len() - i,
{
    if i < 0 || i >= names.len() {
        None
    } else if names[i] == name {
        Some(i as nat)
    } else {
        first_name(names, name, i + 1)
    }
}

proof fn lemma_first_name_from(names: Seq<Seq<char>>, name: Seq<char>, i: int, f: Option<nat>)
    requires
        0 <= i <= names.len(),
        match f {
            Some(m) => i <= m < names.len() && names[m as int] == name
                && forall|j: int| i <= j < m ==> names[j] != name,
            None => forall|j: int| i <= j < names.len() ==> names[j] != name,
        },
    ensures
        first_name(names, name, i) == f,
    decreases names.len() - i,
{
    if i < names.len() {
        match f {
            Some(m) => {
                if m != i {
                    lemma_first_name_from(names, name, i + 1, f);
                }
            },
            None => lemma_first_name_from(names, name, i + 1, f),
        }
    }
}

proof fn lemma_first_name(names: Seq<Seq<char>>, name: Seq<char>, f: Option<nat>)
    requires
        match f {
            Some(m) => m < names.len() && names[m as int] == name
                && forall|j: int| 0 <= j < m ==> names[j] != name,
            None => forall|j: int| 0 <= j < names.len() ==> names[j] != name,
        },
    ensures
        first_name(names, name, 0) == f,
{
    lemma_first_name_from(names, name, 0, f);
}

/// The style `name` resolves to over `base` and the derived markers
/// `extra`: the base sheet's first, else the first derived one.
pub open spec fn style_in(base: Seq<StyleRule>, extra: Seq<Seq<char>>, name: Seq<char>) -> Option<nat> {
    match first_marker(base, name, 0) {
        Some(i) => Some(i),
        None => match first_name(extra, name, 0) {
            Some(k) => Some(base.len() + k),
            None => None,
        },
    }
}

/// Whether the unknown marker at token `i` is written as a milestone, or
/// its name derives from a milestone that `base` and `extra` know.
pub open spec fn shaped_in(ts: Seq<Token>, i: int, base: Seq<StyleRule>, extra: Seq<Seq<char>>) -> bool {
    (i + 1 < ts.len() && (ts[i + 1].kind == TokenKind::MilestoneEnd || ts[i + 1].kind == TokenKind::Pipe))
        || (i + 2 < ts.len() && ts[i + 1].kind == TokenKind::Space && !ts[i + 1].newline && ts[i + 2].kind == TokenKind::Pipe)
        || (milestone_named(ts[i].text@) && style_in(base, extra, ts[i].text@.take(ts[i].text@.len() - 2)) is Some)
}

/// Whether token `i` is a milestone marker that needs a style of its own,
/// the derived markers so far being `extra`.
pub open spec fn needs_style(ts: Seq<Token>, i: int, base: Seq<StyleRule>, extra: Seq<Seq<char>>) -> bool {
    &&& ts[i].kind == TokenKind::Marker
    &&& !ts[i].nested
    &&& style_in(base, extra, ts[i].text@) is None
    &&& shaped_in(ts, i, base, extra)
}

/// The markers given a derived milestone style by the first `i` tokens.
pub open spec fn derived_names(ts: Seq<Token>, base: Seq<StyleRule>, i: int) -> Seq<Seq<char>>
    decreases i,
{
    if i <= 0 {
        seq![]
    } else {
        let prev = derived_names(ts, base, i - 1);
        if needs_style(ts, i - 1, base, prev) {
            prev.push(ts[i - 1].text@)
        } else {
            prev
        }
    }
}

/// The repairs reported for the first `i` tokens: a derived milestone whose
/// name does not come from a known milestone, with its code and the
/// character range of its token.
pub open spec fn milestone_reports(ts: Seq<Token>, base: Seq<StyleRule>, i: int) -> Seq<(Code, int, int)>
    decreases i,
{
    if i <= 0 {
        seq![]
    } else {
        let prev = milestone_reports(ts, base, i - 1);
        let names = derived_names(ts, base, i - 1);
        let t = ts[i - 1];
        if needs_style(ts, i - 1, base, names) && !(milestone_named(t.text@)
            && style_in(base, names, t.text@.take(t.text@.len() - 2)) is Some) {
            prev.push((
                if t.text@.len() > 0 && t.text@[0] == 'z' { Code::UnknownCustomMilestone } else { Code::UnknownMilestone },
                t.start as int,
                t.end as int,
            ))
        } else {
            prev
        }
    }
}

/// The first `=` from `e` on before `b`, or `b`.
pub open spec fn eq_index(s: Seq<char>, e: int, b: int) -> int
    decreases b - e,
{
    if e >= b || e < 0 || e >= s.len() || s[e] == '=' {
        e
    } else {
        eq_index(s, e + 1, b)
    }
}

/// The first whitespace from `k` on before `b`, or `b`.
pub open spec fn space_index(s: Seq<char>, k: int, b: int) -> int
    decreases b - k,
{
    if k >= b || k < 0 || k >= s.len() || crate::lexer::is_space(s[k]) {
        k
    } else {
        space_index(s, k + 1, b)
    }
}

/// A quoted value read from `k` on, after its opening quote, onto `acc`:
/// `\"` and `\\` stand for the character escaped. The value and where
/// reading stopped, past the closing quote if there is one before `b`.
pub open spec fn quoted_value(s: Seq<char>, k: int, b: int, acc: Seq<char>) -> (Seq<char>, int)
    decreases b - k,
{
    if k >= b || k < 0 || k >= s.len() {
        (acc, k)
    } else if s[k] == '\\' && k + 1 < b && k + 1 < s.len() && (s[k + 1] == '"' || s[k + 1] == '\\') {
        quoted_value(s, k + 2, b, acc.push(s[k + 1]))
    } else if s[k] == '"' {
        (acc, k + 1)
    } else {
        quoted_value(s, k + 1, b, acc.push(s[k]))
    }
}

/// Whether a quoted value from `k` on finds its closing quote before `b`.
pub open spec fn quote_closed(s: Seq<char>, k: int, b: int) -> bool
    decreases b - k,
{
    if k >= b || k < 0 || k >= s.len() {
        false
    } else if s[k] == '\\' && k + 1 < b && k + 1 < s.len() && (s[k + 1] == '"' || s[k + 1] == '\\') {
        quote_closed(s, k + 2, b)
    } else if s[k] == '"' {
        true
    } else {
        quote_closed(s, k + 1, b)
    }
}

/// Where a bare value that starts at `j` ends: before the first attribute
/// name that follows whitespace or a quote, or at `b`.
pub open spec fn bare_end(s: Seq<char>, k: int, b: int) -> int
    decreases b - k,
{
    if k >= b || k <= 0 || k > s.len() {
        k
    } else if (crate::lexer::is_space(s[k - 1]) || s[k - 1] == '"') && name_eq_from(s, k, k, b) {
        k
    } else {
        bare_end(s, k + 1, b)
    }
}

/// One step of reading an attribute list at `j`: the pair read there, if
/// any, as its name, its value and the characters its span covers, and
/// where the next step starts.
pub open spec fn pair_step(s: Seq<char>, j: int, b: int) -> (Option<(Seq<char>, Seq<char>, int, int)>, int) {
    if crate::lexer::is_space(s[j]) {
        (None, j + 1)
    } else if name_eq_from(s, j, j, b) {
        let e = eq_index(s, j, b);
        let v = if e < b { e + 1 } else { e };
        let (value, next) = if v < b && s[v] == '"' {
            quoted_value(s, v + 1, b, seq![])
        } else if v >= b || crate::lexer::is_space(s[v]) {
            (Seq::<char>::empty(), v)
        } else {
            (s.subrange(v, space_index(s, v, b)), space_index(s, v, b))
        };
        (Some((s.subrange(j, e), value, j, e)), if next <= j { j + 1 } else { next })
    } else {
        let k = bare_end(s, j + 1, b);
        (Some((Seq::<char>::empty(), s.subrange(j, k), j, k)), k)
    }
}

/// The pairs of the attribute list in characters `j..b`.
pub open spec fn pairs_from(s: Seq<char>, j: int, b: int) -> Seq<(Seq<char>, Seq<char>, int, int)>
    decreases b - j,
{
    if j < 0 || j >= b || b > s.len() {
        seq![]
    } else {
        let (pair, next) = pair_step(s, j, b);
        if next <= j || next > b {
            seq![]
        } else {
            match pair {
                Some(p) => seq![p] + pairs_from(s, next, b),
                None => pairs_from(s, next, b),
            }
        }
    }
}

/// The repairs one step of reading an attribute list at `j` reports, as a
/// code and the characters its span covers, and whether a line break has
/// been reported once `nl` says whether one had been before.
pub open spec fn pair_step_reports(s: Seq<char>, j: int, b: int, nl: bool) -> (Seq<(Code, int, int)>, bool) {
    if crate::lexer::is_space(s[j]) {
        if is_line_break(s[j]) && !nl {
            (seq![(Code::NewlineInAttributes, j, j + 1)], true)
        } else {
            (seq![], nl)
        }
    } else if name_eq_from(s, j, j, b) {
        let e = eq_index(s, j, b);
        let v = if e < b { e + 1 } else { e };
        if v < b && s[v] == '"' {
            if quote_closed(s, v + 1, b) {
                (seq![], nl)
            } else {
                (seq![(Code::UnterminatedAttributeValue, v, b)], nl)
            }
        } else if v >= b || crate::lexer::is_space(s[v]) {
            (seq![(Code::MissingAttributeValue, j, e)], nl)
        } else {
            (seq![(Code::AttributeValueNotQuoted, v, space_index(s, v, b))], nl)
        }
    } else {
        (seq![], nl)
    }
}

/// The repairs reading the attribute list in characters `j..b` reports.
pub open spec fn pair_reports_from(s: Seq<char>, j: int, b: int, nl: bool) -> Seq<(Code, int, int)>
    decreases b - j,
{
    if j < 0 || j >= b || b > s.len() {
        seq![]
    } else {
        let next = pair_step(s, j, b).1;
        if next <= j || next > b {
            seq![]
        } else {
            let (r, nl2) = pair_step_reports(s, j, b, nl);
            r + pair_reports_from(s, next, b, nl2)
        }
    }
}

/// Whether the diagnostics after the first `d` of `diags` are the repairs
/// `reports` describes over `chars`.
pub open spec fn reports_match(diags: Seq<Diagnostic>, d: int, reports: Seq<(Code, int, int)>, chars: Seq<char>) -> bool {
    &&& diags.len() == d + reports.len()
    &&& forall|k: int| 0 <= k < reports.len() ==> {
        &&& (#[trigger] diags[d + k]).code == reports[k].0
        &&& diags[d + k].span.start == byte_len(chars.take(reports[k].1))
        &&& diags[d + k].span.end == byte_len(chars.take(reports[k].2))
    }
}

proof fn lemma_one_report(before: Seq<Diagnostic>, after: Seq<Diagnostic>, code: Code, x: int, y: int, chars: Seq<char>)
    requires
        after.len() == before.len() + 1,
        after.drop_last() == before,
        after.last().code == code,
        after.last().span.start == byte_len(chars.take(x)),
        after.last().span.end == byte_len(chars.take(y)),
    ensures
        reports_match(after, before.len() as int, seq![(code, x, y)], chars),
        after.take(before.len() as int) == before,
{
    assert(after.take(before.len() as int) =~= after.drop_last());
}

proof fn lemma_reports_extend(
    before: Seq<Diagnostic>,
    after: Seq<Diagnostic>,
    d: int,
    reported: Seq<(Code, int, int)>,
    this: Seq<(Code, int, int)>,
    chars: Seq<char>,
)
    requires
        0 <= d <= before.len(),
        reports_match(before, d, reported, chars),
        after.take(before.len() as int) == before,
        reports_match(after, before.len() as int, this, chars),
    ensures
        reports_match(after, d, reported + this, chars),
        after.take(d) == before.take(d),
{
    let nr = reported + this;
    assert forall|k: int| 0 <= k < nr.len() implies {
        &&& (#[trigger] after[d + k]).code == nr[k].0
        &&& after[d + k].span.start == byte_len(chars.take(nr[k].1))
        &&& after[d + k].span.end == byte_len(chars.take(nr[k].2))
    } by {
        if k < reported.len() {
            assert(after[d + k] == after.take(before.len() as int)[d + k]);
        } else {
            assert(d + k == before.len() + (k - reported.len()));
        }
    }
    assert(after.take(d) =~= before.take(d));
}

/// Whether `pairs` are the attributes `spec` describes over `chars`.
pub open spec fn pairs_match(pairs: Seq<Attribute>, spec: Seq<(Seq<char>, Seq<char>, int, int)>, chars: Seq<char>) -> bool {
    &&& pairs.len() == spec.len()
    &&& forall|k: int| 0 <= k < pairs.len() ==> {
        &&& (#[trigger] pairs[k]).name@ == spec[k].0
        &&& pairs[k].value@ == spec[k].1
        &&& pairs[k].span.start == byte_len(chars.take(spec[k].2))
        &&& pairs[k].span.end == byte_len(chars.take(spec[k].3))
    }
}

/// Whether `c` is an ASCII digit.
pub open spec fn is_digit(c: char) -> bool {
    '0' <= c && c <= '9'
}

/// The value of the ASCII digit `c`.
pub open spec fn digit_value(c: char) -> nat {
    (c as u32 - '0' as u32) as nat
}

/// Whether every character of `s` is an ASCII digit.
pub open spec fn all_digits(s: Seq<char>) -> bool {
    forall|k: int| 0 <= k < s.len() ==> is_digit(#[trigger] s[k])
}

/// The decimal value of a run of digits.
pub open spec fn decimal(s: Seq<char>) -> nat
    decreases s.len(),
{
    if s.len() == 0 {
        0
    } else {
        decimal(s.drop_last()) * 10 + digit_value(s.last())
    }
}

/// Ten to the `n`th.
pub open spec fn pow10(n: nat) -> nat
    decreases n,
{
    if n == 0 {
        1
    } else {
        10 * pow10((n - 1) as nat)
    }
}

proof fn lemma_pow10_monotone(i: nat, j: nat)
    requires
        i <= j,
    ensures
        pow10(i) <= pow10(j),
    decreases j,
{
    if i < j {
        lemma_pow10_monotone(i, (j - 1) as nat);
    }
}

/// What a chapter number's text reads as: ASCII digits only, at most nine
/// of them.
pub open spec fn chapter_number_spec(s: Seq<char>) -> Option<usize> {
    if 1 <= s.len() <= 9 && all_digits(s) {
        Some(decimal(s) as usize)
    } else {
        None
    }
}

/// A chapter number: ASCII digits only, at most nine of them.
fn parse_chapter_number(s: &str) -> (n: Option<usize>)
    ensures
        n == chapter_number_spec(s@),
        n matches Some(v) ==> v == decimal(s@),
{
    let chars = str_chars(s);
    let len = chars.len();
    if len == 0 || len > 9 {
        return None;
    }
    let mut value: usize = 0;
    let mut i: usize = 0;
    proof {
        assert(chars@.take(0) =~= Seq::<char>::empty());
        reveal_with_fuel(pow10, 10);
        assert(pow10(8) == 100_000_000);
    }
    while i < len
        invariant
            len == chars@.len(),
            chars@ == s@,
            1 <= len <= 9,
            i <= len,
            value == decimal(chars@.take(i as int)),
            value < pow10(i as nat),
            all_digits(chars@.take(i as int)),
            pow10(8) == 100_000_000,
        decreases len - i,
    {
        let c = chars[i];
        proof {
            if i <= 8 {
                lemma_pow10_monotone(i as nat, 8);
            }
        }
        if !('0' <= c && c <= '9') || value >= 100_000_000 {
            proof {
                assert(!is_digit(chars@[i as int]));
                assert(!all_digits(s@));
            }
            return None;
        }
        assert(chars@.take(i + 1).drop_last() =~= chars@.take(i as int));
        value = value * 10 + (c as u32 - '0' as u32) as usize;
        i = i + 1;
        assert(all_digits(chars@.take(i as int))) by {
            assert forall|k: int| 0 <= k < i implies is_digit(#[trigger] chars@.take(i as int)[k]) by {
                if k < i - 1 {
                    assert(chars@.take(i as int)[k] == chars@.take(i - 1)[k]);
                }
            }
        }
    }
    assert(chars@.take(len as int) =~= chars@);
    Some(value)
}

/// Whether a number is written with a leading zero: `01`, `091`.
fn has_leading_zero(s: &str) -> (b: bool)
    ensures
        b == (s@.len() > 1 && s@[0] == '0' && is_digit(s@[1])),
{
    let chars = str_chars(s);
    chars.len() > 1 && chars[0] == '0' && '0' <= chars[1] && chars[1] <= '9'
}

/// A table cell marker: `t`, `h` or `c`, an optional alignment letter, the
/// column, and an optional `-` and last column for a span.
fn parse_cell_marker(name: &str) -> (r: Option<(bool, Alignment, usize, usize)>)
    ensures
        r == cell_marker_spec(name@),
{
    let chars = str_chars(name);
    let len = chars.len();
    if len < 3 || chars[0] != 't' || (chars[1] != 'h' && chars[1] != 'c') {
        return None;
    }
    let header = chars[1] == 'h';
    let mut i: usize = 2;
    let alignment = if chars[2] == 'r' {
        i = 3;
        Alignment::End
    } else if chars[2] == 'c' {
        i = 3;
        Alignment::Center
    } else {
        Alignment::Start
    };
    let (column, j) = read_small_number(&chars, i);
    if column == 0 {
        return None;
    }
    if j == len {
        return Some((header, alignment, column, 1));
    }
    if chars[j] != '-' {
        return None;
    }
    let (last, k) = read_small_number(&chars, j + 1);
    if k != len || last < column {
        return None;
    }
    Some((header, alignment, column, last - column + 1))
}

/// The digits of `s` from `j` on, read onto `value` while it stays under
/// a thousand: the number read and where it ends.
pub open spec fn small_number_from(s: Seq<char>, j: int, value: nat) -> (nat, int)
    decreases s.len() - j,
{
    if 0 <= j < s.len() && is_digit(s[j]) && value < 1000 {
        small_number_from(s, j + 1, value * 10 + digit_value(s[j]))
    } else {
        (value, j)
    }
}

/// The table cell a marker name spells: header or not, alignment, first
/// column and the number of columns it spans.
pub open spec fn cell_marker_spec(s: Seq<char>) -> Option<(bool, Alignment, usize, usize)> {
    if s.len() < 3 || s[0] != 't' || (s[1] != 'h' && s[1] != 'c') {
        None
    } else {
        let header = s[1] == 'h';
        let (alignment, i) = if s[2] == 'r' {
            (Alignment::End, 3int)
        } else if s[2] == 'c' {
            (Alignment::Center, 3int)
        } else {
            (Alignment::Start, 2int)
        };
        let (column, j) = small_number_from(s, i, 0);
        if column == 0 {
            None
        } else if j == s.len() {
            Some((header, alignment, column as usize, 1usize))
        } else if s[j] != '-' {
            None
        } else {
            let (last, k) = small_number_from(s, j + 1, 0);
            if k != s.len() || last < column {
                None
            } else {
                Some((header, alignment, column as usize, (last - column + 1) as usize))
            }
        }
    }
}

proof fn lemma_small_number_bounds(s: Seq<char>, j: int, value: nat)
    requires
        0 <= j <= s.len(),
        value < 10000,
    ensures
        j <= small_number_from(s, j, value).1 <= s.len(),
        small_number_from(s, j, value).0 < 10000,
    decreases s.len() - j,
{
    if 0 <= j < s.len() && is_digit(s[j]) && value < 1000 {
        lemma_small_number_bounds(s, j + 1, value * 10 + digit_value(s[j]));
    }
}

/// The number of at most four digits at `i`, and where it ends; 0 when there
/// is none.
fn read_small_number(chars: &Vec<char>, i: usize) -> (r: (usize, usize))
    requires
        i <= chars@.len(),
    ensures
        i <= r.1 <= chars@.len(),
        r.0 < 10000,
        (r.0 as nat, r.1 as int) == small_number_from(chars@, i as int, 0),
{
    let n = chars.len();
    let mut value: usize = 0;
    let mut j = i;
    proof { lemma_small_number_bounds(chars@, i as int, 0); }
    while j < n && '0' <= chars[j] && chars[j] <= '9' && value < 1000
        invariant
            n == chars@.len(),
            i <= j <= n,
            value < 10000,
            small_number_from(chars@, j as int, value as nat) == small_number_from(chars@, i as int, 0),
        decreases n - j,
    {
        value = value * 10 + (chars[j] as u32 - '0' as u32) as usize;
        j = j + 1;
    }
    (value, j)
}

/// Whether a marker name is in the `\z` namespace USFM reserves for
/// custom markers.
fn is_custom(name: &str) -> (b: bool)
    ensures
        b == (name@.len() > 0 && name@[0] == 'z'),
{
    let chars = str_chars(name);
    chars.len() > 0 && chars[0] == 'z'
}

/// The base of a derived milestone name: `k` for `k-s` and `k-e`.
fn milestone_base(name: &str) -> (base: Option<String>)
    ensures
        base is Some <==> milestone_named(name@),
        base matches Some(b) ==> b@ == name@.take(name@.len() - 2),
{
    let chars = str_chars(name);
    let len = chars.len();
    if len < 3 || chars[len - 2] != '-' || (chars[len - 1] != 's' && chars[len - 1] != 'e') {
        return None;
    }
    let mut base = String::new();
    let mut i: usize = 0;
    while i < len - 2
        invariant
            len == chars@.len(),
            chars@ == name@,
            len >= 3,
            i <= len - 2,
            base@ == chars@.take(i as int),
        decreases len - 2 - i,
    {
        push_char(&mut base, chars[i]);
        i = i + 1;
        assert(base@ =~= chars@.take(i as int));
    }
    Some(base)
}

/// Whether a marker name is that of a milestone's start or end: a base of
/// at least one character, then `-s` or `-e`.
pub open spec fn milestone_named(s: Seq<char>) -> bool {
    s.len() >= 3 && s[s.len() - 2] == '-' && (s[s.len() - 1] == 's' || s[s.len() - 1] == 'e')
}

/// Push a block onto a list that stays well formed.
fn push_block(blocks: &mut Vec<Block>, block: Block, Ghost(n): Ghost<nat>, Ghost(total): Ghost<nat>)
    requires
        blocks_ok(old(blocks)@, n, total),
        block_styles_below(block, n),
        block_spans_ok(block, total),
    ensures
        blocks_ok(final(blocks)@, n, total),
        final(blocks)@ == old(blocks)@.push(block),
{
    let ghost before = blocks@;
    blocks.push(block);
    proof {
        assert forall|k: int| 0 <= k < blocks@.len() implies #[trigger] block_styles_below(
            blocks@[k],
            n,
        ) by {
            if k < before.len() {
                assert(blocks@[k] == before[k]);
            }
        }
        assert forall|k: int| 0 <= k < blocks@.len() implies #[trigger] block_spans_ok(
            blocks@[k],
            total,
        ) by {
            if k < before.len() {
                assert(blocks@[k] == before[k]);
            }
        }
    }
}

} // verus!
