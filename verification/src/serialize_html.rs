//! HTML output, node by node.
//!
//! Everything that comes from the document is written escaped, as character
//! data or as the body of a quoted attribute, so text holding `&`, `<`, `>`
//! or `"` reads back as itself and a character HTML cannot carry becomes
//! U+FFFD. What is not escaped cannot need it: a marker name, a book code, a
//! chapter or verse number, and the ids and tag names made up here.
//!
//! The walk carries a [`Context`]: the book, chapter and verse it is in, the
//! two note sequences behind footnote markers (`\f + …` notes count 1, 2, 3 …
//! over the whole document; every other caller shares a second sequence), the
//! sequence behind generated ids, and the number a `\c` (or its `\cp`) hands
//! to the next scripture paragraph, which prints it.
use vstd::prelude::*;
use crate::ast::{
    Table, block_styles_below, blocks_styles_below,
    inline_styles_below, inlines_styles_below, lemma_block_styles, lemma_inline_styles, Alignment,
    Attribute, Block, Caller, StyleId, Char, Document, Inline, Milestone, Note, Para, Periph, Sidebar,
    TableCell, TableRow,
};
use crate::book::BookCode;
use crate::codegen::{code_spelling, last_column, marker_of, number_spelling, push_code, push_number};
use crate::html::{escaped, push_escaped};
use crate::json::alignment_name;
use crate::number::{decimal, push_decimal, NumberList, NumberRange};
use crate::strings::{push_str, str_chars, str_eq};
use crate::style::{StyleRule, StyleSheet, TextType};

verus! {

/// The state of the walk, as values.
pub struct HtmlState {
    pub book: Option<BookCode>,
    pub chapter: Option<usize>,
    pub verse: Option<(Seq<NumberRange>, bool)>,
    pub notes: nat,
    pub custom_notes: nat,
    pub ids: nat,
    pub chapter_to_output: Option<Seq<char>>,
}

/// The walk before it has seen anything.
pub open spec fn html_start() -> HtmlState {
    HtmlState {
        book: None,
        chapter: None,
        verse: None,
        notes: 0,
        custom_notes: 0,
        ids: 0,
        chapter_to_output: None,
    }
}

/// The state a serializer carries while it walks a document.
pub struct Context<'a> {
    pub book_code: Option<BookCode>,
    pub chapter_number: Option<usize>,
    pub verse_number: Option<NumberList>,
    pub style_sheet: &'a StyleSheet,
    /// The last number of the `+` note sequence.
    pub note_counter: usize,
    /// The last number of the sequence every other caller shares.
    pub custom_note_counter: usize,
    /// How many ids have been generated.
    pub ids_issued: usize,
    /// What the next scripture paragraph prints as its chapter number.
    pub chapter_to_output: Option<String>,
}

/// The walk state a context stands for.
pub open spec fn state_of(context: Context) -> HtmlState {
    HtmlState {
        book: context.book_code,
        chapter: context.chapter_number,
        verse: match context.verse_number {
            Some(v) => Some((v.ranges@, v.guard_rtl)),
            None => None,
        },
        notes: context.note_counter as nat,
        custom_notes: context.custom_note_counter as nat,
        ids: context.ids_issued as nat,
        chapter_to_output: match context.chapter_to_output {
            Some(t) => Some(t@),
            None => None,
        },
    }
}

/// A counter that only ever goes up.
pub open spec fn grows(before: HtmlState, after: HtmlState) -> bool {
    before.notes <= after.notes && before.custom_notes <= after.custom_notes && before.ids <= after.ids
}

/// Every counter still fits a `usize`.
pub open spec fn fits(s: HtmlState) -> bool {
    s.notes <= usize::MAX && s.custom_notes <= usize::MAX && s.ids <= usize::MAX
}

/// Whether `c` may start an XML name.
pub open spec fn name_start(c: char) -> bool {
    let n = c as u32;
    c == ':' || ('A' <= c && c <= 'Z') || c == '_' || ('a' <= c && c <= 'z') || (0xC0 <= n && n
        <= 0xD6) || (0xD8 <= n && n <= 0xF6) || (0xF8 <= n && n <= 0x2FF) || (0x370 <= n && n
        <= 0x37D) || (0x37F <= n && n <= 0x1FFF) || (0x200C <= n && n <= 0x200D) || (0x2070 <= n
        && n <= 0x218F) || (0x2C00 <= n && n <= 0x2FEF) || (0x3001 <= n && n <= 0xD7FF) || (0xF900
        <= n && n <= 0xFDCF) || (0xFDF0 <= n && n <= 0xFFFD) || (0x10000 <= n && n <= 0xEFFFF)
}

/// Whether `c` may stand in an XML name after its first character.
pub open spec fn name_char(c: char) -> bool {
    let n = c as u32;
    name_start(c) || c == '-' || c == '.' || ('0' <= c && c <= '9') || n == 0xB7 || (0x300 <= n
        && n <= 0x36F) || (0x203F <= n && n <= 0x2040)
}

/// Whether `name` is an XML name, and so can be written as an attribute.
pub open spec fn valid_attribute_name(name: Seq<char>) -> bool {
    name.len() > 0 && name_start(name[0]) && forall|i: int| 1 <= i < name.len() ==> name_char(#[trigger] name[i])
}

fn is_name_start(c: char) -> (b: bool)
    ensures
        b == name_start(c),
{
    let n = c as u32;
    c == ':' || ('A' <= c && c <= 'Z') || c == '_' || ('a' <= c && c <= 'z') || (0xC0 <= n && n
        <= 0xD6) || (0xD8 <= n && n <= 0xF6) || (0xF8 <= n && n <= 0x2FF) || (0x370 <= n && n
        <= 0x37D) || (0x37F <= n && n <= 0x1FFF) || (0x200C <= n && n <= 0x200D) || (0x2070 <= n
        && n <= 0x218F) || (0x2C00 <= n && n <= 0x2FEF) || (0x3001 <= n && n <= 0xD7FF) || (0xF900
        <= n && n <= 0xFDCF) || (0xFDF0 <= n && n <= 0xFFFD) || (0x10000 <= n && n <= 0xEFFFF)
}

fn is_name_char(c: char) -> (b: bool)
    ensures
        b == name_char(c),
{
    let n = c as u32;
    is_name_start(c) || c == '-' || c == '.' || ('0' <= c && c <= '9') || n == 0xB7 || (0x300 <= n
        && n <= 0x36F) || (0x203F <= n && n <= 0x2040)
}

/// Whether `name` is an XML name, and so can be written as an attribute.
pub fn is_valid_attribute_name(name: &str) -> (b: bool)
    ensures
        b == valid_attribute_name(name@),
{
    let chars = str_chars(name);
    if chars.len() == 0 || !is_name_start(chars[0]) {
        return false;
    }
    let mut i: usize = 1;
    while i < chars.len()
        invariant
            1 <= i <= chars@.len(),
            chars@ == name@,
            forall|j: int| 1 <= j < i ==> name_char(#[trigger] chars@[j]),
        decreases chars@.len() - i,
    {
        if !is_name_char(chars[i]) {
            return false;
        }
        i = i + 1;
    }
    true
}

/// A milestone's attributes as `data-` attributes, the pairs whose name
/// cannot be one left out.
pub open spec fn data_attributes(pairs: Seq<Attribute>, k: nat) -> Seq<char>
    decreases k,
{
    if k == 0 || k > pairs.len() {
        seq![]
    } else {
        data_attributes(pairs, (k - 1) as nat) + if valid_attribute_name(pairs[k - 1].name@) {
            " data-"@ + pairs[k - 1].name@ + "=\""@ + escaped(pairs[k - 1].value@, true) + "\""@
        } else {
            seq![]
        }
    }
}

/// A milestone: an empty span with its marker and its attributes.
pub open spec fn milestone_html(sheet: StyleSheet, m: Milestone) -> Seq<char> {
    let pairs = match m.attributes {
        Some(a) => a.pairs@,
        None => seq![],
    };
    "<span class=\"ms "@ + marker_of(sheet, m.style.0) + "\""@ + data_attributes(pairs, pairs.len())
        + "></span>"@
}

/// A note's id: `note-` and its number, with a `c` before the number for a
/// note outside the `+` sequence.
pub open spec fn note_id(plus: bool, number: nat) -> Seq<char> {
    "note-"@ + (if plus {
        seq![]
    } else {
        "c"@
    }) + decimal(number)
}

/// What a note's marker shows: its number for `+`, nothing for `-`, the
/// caller's own text otherwise.
pub open spec fn note_content(caller: Caller, number: nat) -> Seq<char> {
    match caller {
        Caller::Plus => decimal(number),
        Caller::Minus => seq![],
        Caller::Custom(c) => c@,
    }
}

/// An inline node as HTML, and the state after it.
pub open spec fn inline_html(sheet: StyleSheet, s: HtmlState, node: Inline) -> (Seq<char>, HtmlState)
    decreases node, 0nat,
{
    match node {
        Inline::Text(t) => (escaped(t.content@, false), s),
        Inline::VerseStart(v) => (
            "<span class=\"v start\">"@ + number_spelling(v.number) + "</span>"@,
            HtmlState { verse: Some((v.number.ranges@, v.number.guard_rtl)), ..s },
        ),
        Inline::VerseEnd(v) => (
            "<span class=\"v end\">"@ + number_spelling(v.number) + "</span>"@,
            HtmlState { verse: None, ..s },
        ),
        Inline::Char(c) => {
            let m = marker_of(sheet, c.style.0);
            if m == "flag"@ {
                let id = "id-"@ + decimal(s.ids);
                let inner = inlines_html(
                    sheet,
                    HtmlState { ids: s.ids + 1, ..s },
                    c.children@,
                    c.children@.len(),
                );
                (
                    "<button popovertarget=\""@ + id + "\" class=\""@ + m + "\"></button>"@
                        + "<span popover id=\""@ + id + "\" class=\""@ + m + "-content\">"@
                        + inner.0 + "</span>"@,
                    inner.1,
                )
            } else {
                let inner = inlines_html(sheet, s, c.children@, c.children@.len());
                ("<span class=\""@ + m + "\">"@ + inner.0 + "</span>"@, inner.1)
            }
        },
        Inline::Note(x) => {
            let plus = x.caller is Plus;
            let number = if plus {
                s.notes + 1
            } else {
                s.custom_notes + 1
            };
            let counted = if plus {
                HtmlState { notes: number, ..s }
            } else {
                HtmlState { custom_notes: number, ..s }
            };
            let id = note_id(plus, number);
            let content = note_content(x.caller, number);
            let m = marker_of(sheet, x.style.0);
            let inner = inlines_html(sheet, counted, x.children@, x.children@.len());
            (
                "<button class=\"note "@ + m + "-trigger\" popovertarget=\""@ + id + "\">"@
                    + escaped(content, false) + "</button>"@ + "<span id=\""@ + id + "\" class=\""@
                    + m + "\" popover>"@ + inner.0 + "</span>"@,
                inner.1,
            )
        },
        Inline::Milestone(m) => (milestone_html(sheet, m), s),
        Inline::OptBreak(_) => ("<wbr>"@, s),
    }
}

/// The first `k` nodes of a list as HTML, and the state after them.
pub open spec fn inlines_html(sheet: StyleSheet, s: HtmlState, nodes: Seq<Inline>, k: nat) -> (Seq<char>, HtmlState)
    decreases nodes, k,
{
    if k == 0 || k > nodes.len() {
        (seq![], s)
    } else {
        let before = inlines_html(sheet, s, nodes, (k - 1) as nat);
        let last = inline_html(sheet, before.1, nodes[k - 1]);
        (before.0 + last.0, last.1)
    }
}

/// The cell's class-like style: `t`, `h` or `c`, the alignment letter, and
/// the column or the range of columns it spans.
pub open spec fn cell_style(cell: TableCell) -> Seq<char> {
    "t"@ + (if cell.header {
        "h"@
    } else {
        "c"@
    }) + match cell.alignment {
        Alignment::Start => seq![],
        Alignment::Center => "c"@,
        Alignment::End => "r"@,
    } + (if cell.colspan > 1 {
        decimal(cell.column as nat) + "-"@ + decimal(last_column(cell))
    } else {
        decimal(cell.column as nat)
    })
}

/// A table cell's opening tag: its style, its alignment and its span.
pub open spec fn cell_open(cell: TableCell) -> Seq<char> {
    "    <td style=\""@ + cell_style(cell) + "\" align=\""@ + alignment_name(cell.alignment) + "\""@ + (if cell.colspan > 1 {
        " colspan=\""@ + decimal(cell.colspan as nat) + "\""@
    } else {
        seq![]
    }) + ">"@
}

/// The first `k` cells of a row as HTML, and the state after them.
pub open spec fn cells_html(sheet: StyleSheet, s: HtmlState, cells: Seq<TableCell>, k: nat) -> (Seq<char>, HtmlState)
    decreases k,
{
    if k == 0 || k > cells.len() {
        (seq![], s)
    } else {
        let before = cells_html(sheet, s, cells, (k - 1) as nat);
        let cell = cells[k - 1];
        let inner = inlines_html(sheet, before.1, cell.children@, cell.children@.len());
        (before.0 + cell_open(cell) + inner.0 + "</td>\n"@, inner.1)
    }
}

/// The first `k` rows of a table as HTML, and the state after them.
pub open spec fn rows_html(sheet: StyleSheet, s: HtmlState, rows: Seq<TableRow>, k: nat) -> (Seq<char>, HtmlState)
    decreases k,
{
    if k == 0 || k > rows.len() {
        (seq![], s)
    } else {
        let before = rows_html(sheet, s, rows, (k - 1) as nat);
        let row = rows[k - 1];
        let inner = cells_html(sheet, before.1, row.cells@, row.cells@.len());
        (before.0 + "  <tr>\n"@ + inner.0 + "  </tr>\n"@, inner.1)
    }
}

/// The tag a paragraph is written as: a heading for the section and title
/// levels 1 to 6, `p` for everything else.
pub open spec fn para_tag(marker: Seq<char>) -> Seq<char> {
    if marker == "s"@ || marker == "s1"@ || marker == "mt1"@ {
        "h1"@
    } else if marker == "s2"@ || marker == "mt2"@ {
        "h2"@
    } else if marker == "s3"@ || marker == "mt3"@ {
        "h3"@
    } else if marker == "s4"@ || marker == "mt4"@ {
        "h4"@
    } else if marker == "s5"@ || marker == "mt5"@ {
        "h5"@
    } else if marker == "s6"@ || marker == "mt6"@ {
        "h6"@
    } else {
        "p"@
    }
}

/// A periph's ids: the default attribute and any `id`, each as ` id="…"`.
pub open spec fn periph_ids(pairs: Seq<Attribute>, k: nat) -> Seq<char>
    decreases k,
{
    if k == 0 || k > pairs.len() {
        seq![]
    } else {
        periph_ids(pairs, (k - 1) as nat) + if pairs[k - 1].name@.len() == 0 || pairs[k - 1].name@
            == "id"@ {
            " id=\""@ + escaped(pairs[k - 1].value@, true) + "\""@
        } else {
            seq![]
        }
    }
}

/// A block as HTML, and the state after it.
pub open spec fn block_html(sheet: StyleSheet, s: HtmlState, block: Block) -> (Seq<char>, HtmlState)
    decreases block, 0nat,
{
    match block {
        Block::Book(b) => (
            "<div class=\"id\" data-code=\""@ + code_spelling(b.code) + "\">"@ + escaped(
                b.description@,
                false,
            ) + "</div>"@,
            HtmlState { book: Some(b.code), ..s },
        ),
        Block::ChapterStart(c) => (
            seq![],
            HtmlState {
                chapter: Some(c.number),
                chapter_to_output: Some(
                    match c.pub_number {
                        Some(p) => p@,
                        None => decimal(c.number as nat),
                    },
                ),
                ..s
            },
        ),
        Block::ChapterEnd(_) => (seq![], HtmlState { chapter: None, ..s }),
        Block::Para(p) => {
            let rule = sheet.rules@[p.style.0 as int];
            let takes = rule.text_type == TextType::VerseText;
            let number = if takes {
                s.chapter_to_output
            } else {
                None
            };
            let start = if takes {
                HtmlState { chapter_to_output: None, ..s }
            } else {
                s
            };
            let tag = para_tag(rule.marker@);
            let inner = inlines_html(sheet, start, p.children@, p.children@.len());
            (
                "<"@ + tag + " class=\""@ + rule.marker@ + "\">"@ + (if p.children@.len() > 0
                    || number is Some {
                    "\n  "@ + match number {
                        Some(t) => "<span class=\"c\">"@ + escaped(t, false) + "</span>"@,
                        None => seq![],
                    } + inner.0 + "\n"@
                } else {
                    seq![]
                }) + "</"@ + tag + ">\n"@,
                inner.1,
            )
        },
        Block::Table(t) => {
            let inner = rows_html(sheet, s, t.rows@, t.rows@.len());
            ("<table>\n  <tbody>\n"@ + inner.0 + "  </tbody>\n</table>\n"@, inner.1)
        },
        Block::Milestone(m) => (milestone_html(sheet, m), s),
        Block::Sidebar(sb) => {
            let inner = blocks_html(sheet, s, sb.blocks@, sb.blocks@.len());
            (
                "<aside class=\""@ + marker_of(sheet, sb.style.0) + "\""@ + match sb.category {
                    Some(c) => " data-category=\""@ + escaped(c.content@, true) + "\""@,
                    None => seq![],
                } + ">\n"@ + inner.0 + "</aside>\n"@,
                inner.1,
            )
        },
        Block::Periph(pb) => {
            let pairs = match pb.attributes {
                Some(a) => a.pairs@,
                None => seq![],
            };
            let inner = blocks_html(sheet, s, pb.blocks@, pb.blocks@.len());
            (
                "<section class=\""@ + marker_of(sheet, pb.style.0) + "\""@ + periph_ids(
                    pairs,
                    pairs.len(),
                ) + ">\n"@ + match pb.title {
                    Some(t) => "<h1>"@ + escaped(t.content@, false) + "</h1>\n"@,
                    None => seq![],
                } + inner.0 + "</section>\n"@,
                inner.1,
            )
        },
    }
}

/// The first `k` blocks of a list as HTML, and the state after them.
pub open spec fn blocks_html(sheet: StyleSheet, s: HtmlState, blocks: Seq<Block>, k: nat) -> (Seq<char>, HtmlState)
    decreases blocks, k,
{
    if k == 0 || k > blocks.len() {
        (seq![], s)
    } else {
        let before = blocks_html(sheet, s, blocks, (k - 1) as nat);
        let last = block_html(sheet, before.1, blocks[k - 1]);
        (before.0 + last.0, last.1)
    }
}


proof fn lemma_inline_grows(sheet: StyleSheet, s: HtmlState, node: Inline)
    ensures
        grows(s, inline_html(sheet, s, node).1),
    decreases node, 0nat,
{
    match node {
        Inline::Char(c) => {
            if marker_of(sheet, c.style.0) == "flag"@ {
                lemma_inlines_grow(sheet, HtmlState { ids: s.ids + 1, ..s }, c.children@, c.children@.len());
            } else {
                lemma_inlines_grow(sheet, s, c.children@, c.children@.len());
            }
        },
        Inline::Note(x) => {
            let plus = x.caller is Plus;
            let counted = if plus {
                HtmlState { notes: s.notes + 1, ..s }
            } else {
                HtmlState { custom_notes: s.custom_notes + 1, ..s }
            };
            lemma_inlines_grow(sheet, counted, x.children@, x.children@.len());
        },
        _ => {},
    }
}

proof fn lemma_inlines_grow(sheet: StyleSheet, s: HtmlState, nodes: Seq<Inline>, k: nat)
    ensures
        grows(s, inlines_html(sheet, s, nodes, k).1),
    decreases nodes, k,
{
    if k > 0 && k <= nodes.len() {
        lemma_inlines_grow(sheet, s, nodes, (k - 1) as nat);
        lemma_inline_grows(sheet, inlines_html(sheet, s, nodes, (k - 1) as nat).1, nodes[k - 1]);
    }
}

proof fn lemma_inlines_prefix(sheet: StyleSheet, s: HtmlState, nodes: Seq<Inline>, j: nat, k: nat)
    requires
        j <= k <= nodes.len(),
    ensures
        grows(inlines_html(sheet, s, nodes, j).1, inlines_html(sheet, s, nodes, k).1),
    decreases k,
{
    if j < k {
        lemma_inlines_prefix(sheet, s, nodes, j, (k - 1) as nat);
        lemma_inline_grows(sheet, inlines_html(sheet, s, nodes, (k - 1) as nat).1, nodes[k - 1]);
    }
}

proof fn lemma_cells_prefix(sheet: StyleSheet, s: HtmlState, cells: Seq<TableCell>, j: nat, k: nat)
    requires
        j <= k <= cells.len(),
    ensures
        grows(cells_html(sheet, s, cells, j).1, cells_html(sheet, s, cells, k).1),
    decreases k,
{
    if j < k {
        lemma_cells_prefix(sheet, s, cells, j, (k - 1) as nat);
        let cell = cells[k - 1];
        lemma_inlines_grow(sheet, cells_html(sheet, s, cells, (k - 1) as nat).1, cell.children@, cell.children@.len());
    }
}

proof fn lemma_rows_prefix(sheet: StyleSheet, s: HtmlState, rows: Seq<TableRow>, j: nat, k: nat)
    requires
        j <= k <= rows.len(),
    ensures
        grows(rows_html(sheet, s, rows, j).1, rows_html(sheet, s, rows, k).1),
    decreases k,
{
    if j < k {
        lemma_rows_prefix(sheet, s, rows, j, (k - 1) as nat);
        let row = rows[k - 1];
        lemma_cells_prefix(sheet, rows_html(sheet, s, rows, (k - 1) as nat).1, row.cells@, 0, row.cells@.len());
    }
}

proof fn lemma_block_grows(sheet: StyleSheet, s: HtmlState, block: Block)
    ensures
        grows(s, block_html(sheet, s, block).1),
    decreases block, 0nat,
{
    match block {
        Block::Para(p) => {
            let takes = sheet.rules@[p.style.0 as int].text_type == TextType::VerseText;
            let start = if takes {
                HtmlState { chapter_to_output: None, ..s }
            } else {
                s
            };
            lemma_inlines_grow(sheet, start, p.children@, p.children@.len());
        },
        Block::Table(t) => {
            lemma_rows_prefix(sheet, s, t.rows@, 0, t.rows@.len());
        },
        Block::Sidebar(sb) => {
            lemma_blocks_grow(sheet, s, sb.blocks@, sb.blocks@.len());
        },
        Block::Periph(pb) => {
            lemma_blocks_grow(sheet, s, pb.blocks@, pb.blocks@.len());
        },
        _ => {},
    }
}

proof fn lemma_blocks_grow(sheet: StyleSheet, s: HtmlState, blocks: Seq<Block>, k: nat)
    ensures
        grows(s, blocks_html(sheet, s, blocks, k).1),
    decreases blocks, k,
{
    if k > 0 && k <= blocks.len() {
        lemma_blocks_grow(sheet, s, blocks, (k - 1) as nat);
        lemma_block_grows(sheet, blocks_html(sheet, s, blocks, (k - 1) as nat).1, blocks[k - 1]);
    }
}

proof fn lemma_blocks_prefix(sheet: StyleSheet, s: HtmlState, blocks: Seq<Block>, j: nat, k: nat)
    requires
        j <= k <= blocks.len(),
    ensures
        grows(blocks_html(sheet, s, blocks, j).1, blocks_html(sheet, s, blocks, k).1),
    decreases k,
{
    if j < k {
        lemma_blocks_prefix(sheet, s, blocks, j, (k - 1) as nat);
        lemma_block_grows(sheet, blocks_html(sheet, s, blocks, (k - 1) as nat).1, blocks[k - 1]);
    }
}

impl<'a> Context<'a> {
    /// A context at the start of a document whose styles resolve in
    /// `style_sheet`.
    pub fn new(style_sheet: &'a StyleSheet) -> (context: Context<'a>)
        ensures
            state_of(context) == html_start(),
            context.style_sheet == style_sheet,
    {
        Context {
            book_code: None,
            chapter_number: None,
            verse_number: None,
            style_sheet,
            note_counter: 0,
            custom_note_counter: 0,
            ids_issued: 0,
            chapter_to_output: None,
        }
    }

    /// The rule a style resolves to in the context's sheet.
    pub fn rule(&self, style: StyleId) -> (rule: &StyleRule)
        requires
            style.0 < self.style_sheet.rules@.len(),
        ensures
            *rule == self.style_sheet.rules@[style.0 as int],
    {
        &self.style_sheet.rules[style.0 as usize]
    }

    /// The number a note's marker carries: the next of the `+` sequence for
    /// a `+` caller, the next of the other sequence for any other.
    pub fn get_and_increment_note_number(&mut self, caller: &Caller) -> (number: usize)
        requires
            caller is Plus ==> old(self).note_counter < usize::MAX,
            !(caller is Plus) ==> old(self).custom_note_counter < usize::MAX,
        ensures
            caller is Plus ==> number == old(self).note_counter + 1 && final(self).note_counter == number
                && final(self).custom_note_counter == old(self).custom_note_counter,
            !(caller is Plus) ==> number == old(self).custom_note_counter + 1
                && final(self).custom_note_counter == number && final(self).note_counter == old(
                self,
            ).note_counter,
            final(self).book_code == old(self).book_code,
            final(self).chapter_number == old(self).chapter_number,
            final(self).verse_number == old(self).verse_number,
            final(self).style_sheet == old(self).style_sheet,
            final(self).ids_issued == old(self).ids_issued,
            final(self).chapter_to_output == old(self).chapter_to_output,
    {
        match caller {
            Caller::Plus => {
                self.note_counter = self.note_counter + 1;
                self.note_counter
            },
            _ => {
                self.custom_note_counter = self.custom_note_counter + 1;
                self.custom_note_counter
            },
        }
    }

    /// The next generated id's number: 0, then 1, 2 …
    pub fn next_counter(&mut self) -> (number: usize)
        requires
            old(self).ids_issued < usize::MAX,
        ensures
            number == old(self).ids_issued,
            final(self).ids_issued == old(self).ids_issued + 1,
            final(self).book_code == old(self).book_code,
            final(self).chapter_number == old(self).chapter_number,
            final(self).verse_number == old(self).verse_number,
            final(self).style_sheet == old(self).style_sheet,
            final(self).note_counter == old(self).note_counter,
            final(self).custom_note_counter == old(self).custom_note_counter,
            final(self).chapter_to_output == old(self).chapter_to_output,
    {
        let number = self.ids_issued;
        self.ids_issued = self.ids_issued + 1;
        number
    }
}

fn write_milestone(sheet: &StyleSheet, m: &Milestone, out: &mut String)
    requires
        m.style.0 < sheet.rules@.len(),
    ensures
        final(out)@ == old(out)@ + milestone_html(*sheet, *m),
{
    let ghost start = out@;
    push_str(out, "<span class=\"ms ");
    push_str(out, sheet.rules[m.style.0 as usize].marker.as_str());
    push_str(out, "\"");
    let ghost head = out@;
    match &m.attributes {
        Some(a) => {
            let pairs = &a.pairs;
            let mut k: usize = 0;
            while k < pairs.len()
                invariant
                    k <= pairs@.len(),
                    out@ == head + data_attributes(pairs@, k as nat),
                decreases pairs@.len() - k,
            {
                let pair = &pairs[k];
                if is_valid_attribute_name(pair.name.as_str()) {
                    push_str(out, " data-");
                    push_str(out, pair.name.as_str());
                    push_str(out, "=\"");
                    push_escaped(out, pair.value.as_str(), true);
                    push_str(out, "\"");
                }
                assert(out@ =~= head + data_attributes(pairs@, (k + 1) as nat));
                k = k + 1;
            }
        },
        None => {
            assert(out@ =~= head + data_attributes(seq![], 0));
        },
    }
    push_str(out, "></span>");
    assert(out@ =~= start + milestone_html(*sheet, *m));
}

/// The walk state with the context's fields, for the exec side.
fn write_inline(context: &mut Context, node: &Inline, out: &mut String)
    requires
        inline_styles_below(*node, old(context).style_sheet.rules@.len()),
        fits(inline_html(*old(context).style_sheet, state_of(*old(context)), *node).1),
    ensures
        final(context).style_sheet == old(context).style_sheet,
        final(out)@ == old(out)@ + inline_html(*old(context).style_sheet, state_of(*old(context)), *node).0,
        state_of(*final(context)) == inline_html(*old(context).style_sheet, state_of(*old(context)), *node).1,
    decreases node,
{
    let ghost start = out@;
    let ghost s = state_of(*context);
    let sheet = context.style_sheet;
    match node {
        Inline::Text(t) => push_escaped(out, t.content.as_str(), false),
        Inline::VerseStart(v) => {
            context.verse_number = Some(v.number.duplicate());
            push_str(out, "<span class=\"v start\">");
            push_number(out, &v.number);
            push_str(out, "</span>");
            assert(out@ =~= start + inline_html(*sheet, s, *node).0);
        },
        Inline::VerseEnd(v) => {
            push_str(out, "<span class=\"v end\">");
            push_number(out, &v.number);
            push_str(out, "</span>");
            context.verse_number = None;
            assert(out@ =~= start + inline_html(*sheet, s, *node).0);
        },
        Inline::Char(c) => write_char(context, c, out),
        Inline::Note(x) => write_note(context, x, out),
        Inline::Milestone(m) => write_milestone(sheet, m, out),
        Inline::OptBreak(_) => push_str(out, "<wbr>"),
    }
}

fn write_char(context: &mut Context, c: &Char, out: &mut String)
    requires
        inline_styles_below(Inline::Char(*c), old(context).style_sheet.rules@.len()),
        fits(inline_html(*old(context).style_sheet, state_of(*old(context)), Inline::Char(*c)).1),
    ensures
        final(context).style_sheet == old(context).style_sheet,
        final(out)@ == old(out)@ + inline_html(*old(context).style_sheet, state_of(*old(context)), Inline::Char(*c)).0,
        state_of(*final(context)) == inline_html(*old(context).style_sheet, state_of(*old(context)), Inline::Char(*c)).1,
    decreases c,
{
    let ghost start = out@;
    let ghost s = state_of(*context);
    let sheet = context.style_sheet;
    let ghost n = sheet.rules@.len();
    let marker = sheet.rules[c.style.0 as usize].marker.as_str();
    proof {
        lemma_inline_styles(c.children@, n);
    }
    if str_eq(marker, "flag") {
        proof {
            lemma_inlines_grow(*sheet, HtmlState { ids: s.ids + 1, ..s }, c.children@, c.children@.len());
        }
        let id_number = context.next_counter();
        let mut id = String::new();
        push_str(&mut id, "id-");
        push_decimal(&mut id, id_number);
        push_str(out, "<button popovertarget=\"");
        push_str(out, id.as_str());
        push_str(out, "\" class=\"");
        push_str(out, marker);
        push_str(out, "\"></button>");
        push_str(out, "<span popover id=\"");
        push_str(out, id.as_str());
        push_str(out, "\" class=\"");
        push_str(out, marker);
        push_str(out, "-content\">");
        assert(state_of(*context) == HtmlState { ids: s.ids + 1, ..s });
        write_inlines(context, &c.children, out);
        push_str(out, "</span>");
        assert(out@ =~= start + inline_html(*sheet, s, Inline::Char(*c)).0);
    } else {
        push_str(out, "<span class=\"");
        push_str(out, marker);
        push_str(out, "\">");
        write_inlines(context, &c.children, out);
        push_str(out, "</span>");
        assert(out@ =~= start + inline_html(*sheet, s, Inline::Char(*c)).0);
    }
}

#[verifier::spinoff_prover]
#[verifier::rlimit(60)]
fn write_note(context: &mut Context, x: &Note, out: &mut String)
    requires
        inline_styles_below(Inline::Note(*x), old(context).style_sheet.rules@.len()),
        fits(inline_html(*old(context).style_sheet, state_of(*old(context)), Inline::Note(*x)).1),
    ensures
        final(context).style_sheet == old(context).style_sheet,
        final(out)@ == old(out)@ + inline_html(*old(context).style_sheet, state_of(*old(context)), Inline::Note(*x)).0,
        state_of(*final(context)) == inline_html(*old(context).style_sheet, state_of(*old(context)), Inline::Note(*x)).1,
    decreases x,
{
    let ghost start = out@;
    let ghost s = state_of(*context);
    let sheet = context.style_sheet;
    let ghost n = sheet.rules@.len();
    proof {
        lemma_inline_styles(x.children@, n);
        let plus = x.caller is Plus;
        let counted = if plus {
            HtmlState { notes: s.notes + 1, ..s }
        } else {
            HtmlState { custom_notes: s.custom_notes + 1, ..s }
        };
        lemma_inlines_grow(*sheet, counted, x.children@, x.children@.len());
    }
    let number = context.get_and_increment_note_number(&x.caller);
    let plus = matches!(x.caller, Caller::Plus);
    let id = make_note_id(plus, number);
    let content = make_note_content(&x.caller, number);
    let ghost counted = state_of(*context);
    let marker = sheet.rules[x.style.0 as usize].marker.as_str();
    push_str(out, "<button class=\"note ");
    push_str(out, marker);
    push_str(out, "-trigger\" popovertarget=\"");
    push_str(out, id.as_str());
    push_str(out, "\">");
    push_escaped(out, content.as_str(), false);
    push_str(out, "</button>");
    push_str(out, "<span id=\"");
    push_str(out, id.as_str());
    push_str(out, "\" class=\"");
    push_str(out, marker);
    push_str(out, "\" popover>");
    let ghost head = out@;
    write_inlines(context, &x.children, out);
    let ghost body = inlines_html(*sheet, counted, x.children@, x.children@.len()).0;
    assert(out@ == head + body);
    push_str(out, "</span>");
    assert(out@ =~= start + inline_html(*sheet, s, Inline::Note(*x)).0);
}

fn make_note_id(plus: bool, number: usize) -> (id: String)
    ensures
        id@ == note_id(plus, number as nat),
{
    let mut id = String::new();
    push_str(&mut id, "note-");
    if !plus {
        push_str(&mut id, "c");
    }
    push_decimal(&mut id, number);
    assert(id@ =~= note_id(plus, number as nat));
    id
}

fn make_note_content(caller: &Caller, number: usize) -> (content: String)
    ensures
        content@ == note_content(*caller, number as nat),
{
    let mut content = String::new();
    match caller {
        Caller::Plus => push_decimal(&mut content, number),
        Caller::Minus => {},
        Caller::Custom(c) => push_str(&mut content, c.as_str()),
    }
    assert(content@ =~= note_content(*caller, number as nat));
    content
}

fn write_inlines(context: &mut Context, nodes: &Vec<Inline>, out: &mut String)
    requires
        inlines_styles_below(nodes@, old(context).style_sheet.rules@.len()),
        fits(inlines_html(*old(context).style_sheet, state_of(*old(context)), nodes@, nodes@.len()).1),
    ensures
        final(context).style_sheet == old(context).style_sheet,
        final(out)@ == old(out)@ + inlines_html(*old(context).style_sheet, state_of(*old(context)), nodes@, nodes@.len()).0,
        state_of(*final(context)) == inlines_html(*old(context).style_sheet, state_of(*old(context)), nodes@, nodes@.len()).1,
    decreases nodes,
{
    let ghost start = out@;
    let ghost s = state_of(*context);
    let ghost sheet = *context.style_sheet;
    let mut k: usize = 0;
    while k < nodes.len()
        invariant
            k <= nodes@.len(),
            *context.style_sheet == sheet,
            inlines_styles_below(nodes@, sheet.rules@.len()),
            fits(inlines_html(sheet, s, nodes@, nodes@.len()).1),
            out@ == start + inlines_html(sheet, s, nodes@, k as nat).0,
            state_of(*context) == inlines_html(sheet, s, nodes@, k as nat).1,
        decreases nodes@.len() - k,
    {
        assert(inline_styles_below(nodes@[k as int], sheet.rules@.len()));
        proof {
            assert(decreases_to!(nodes => nodes@));
            assert(decreases_to!(nodes@ => nodes@[k as int]));
            lemma_inlines_prefix(sheet, s, nodes@, (k + 1) as nat, nodes@.len());
        }
        write_inline(context, &nodes[k], out);
        assert(out@ =~= start + inlines_html(sheet, s, nodes@, (k + 1) as nat).0);
        k = k + 1;
    }
}

fn push_cell_style(out: &mut String, cell: &TableCell)
    ensures
        final(out)@ == old(out)@ + cell_style(*cell),
{
    let ghost start = out@;
    push_str(out, "t");
    if cell.header {
        push_str(out, "h");
    } else {
        push_str(out, "c");
    }
    match cell.alignment {
        Alignment::Start => {},
        Alignment::Center => push_str(out, "c"),
        Alignment::End => push_str(out, "r"),
    }
    let ghost head = out@;
    push_decimal(out, cell.column);
    if cell.colspan > 1 {
        push_str(out, "-");
        let last = match cell.column.checked_add(cell.colspan - 1) {
            Some(last) => last,
            None => usize::MAX,
        };
        push_decimal(out, last);
        assert(out@ =~= head + decimal(cell.column as nat) + "-"@ + decimal(last_column(*cell)));
    }
    assert(out@ =~= start + cell_style(*cell));
}

fn push_cell_open(out: &mut String, cell: &TableCell)
    ensures
        final(out)@ == old(out)@ + cell_open(*cell),
{
    let ghost start = out@;
    push_str(out, "    <td style=\"");
    push_cell_style(out, cell);
    push_str(out, "\" align=\"");
    match cell.alignment {
        Alignment::Start => push_str(out, "start"),
        Alignment::Center => push_str(out, "center"),
        Alignment::End => push_str(out, "end"),
    }
    push_str(out, "\"");
    let ghost head = out@;
    if cell.colspan > 1 {
        push_str(out, " colspan=\"");
        push_decimal(out, cell.colspan);
        push_str(out, "\"");
    }
    push_str(out, ">");
    assert(out@ =~= start + cell_open(*cell));
}

#[verifier::spinoff_prover]
fn write_row(context: &mut Context, row: &TableRow, out: &mut String)
    requires
        forall|c: int|
            0 <= c < row.cells.len() ==> inlines_styles_below(
                (#[trigger] row.cells[c]).children@,
                old(context).style_sheet.rules@.len(),
            ),
        fits(cells_html(*old(context).style_sheet, state_of(*old(context)), row.cells@, row.cells@.len()).1),
    ensures
        final(context).style_sheet == old(context).style_sheet,
        final(out)@ == old(out)@ + "  <tr>\n"@ + cells_html(*old(context).style_sheet, state_of(*old(context)), row.cells@, row.cells@.len()).0 + "  </tr>\n"@,
        state_of(*final(context)) == cells_html(*old(context).style_sheet, state_of(*old(context)), row.cells@, row.cells@.len()).1,
{
    let ghost start = out@;
    let ghost s = state_of(*context);
    let ghost sheet = *context.style_sheet;
    push_str(out, "  <tr>\n");
    let cells = &row.cells;
    let mut k: usize = 0;
    while k < cells.len()
        invariant
            k <= cells@.len(),
            cells == &row.cells,
            *context.style_sheet == sheet,
            forall|c: int|
                0 <= c < row.cells.len() ==> inlines_styles_below(
                    (#[trigger] row.cells[c]).children@,
                    sheet.rules@.len(),
                ),
            fits(cells_html(sheet, s, cells@, cells@.len()).1),
            out@ == start + "  <tr>\n"@ + cells_html(sheet, s, cells@, k as nat).0,
            state_of(*context) == cells_html(sheet, s, cells@, k as nat).1,
        decreases cells@.len() - k,
    {
        let cell = &cells[k];
        assert(inlines_styles_below(row.cells[k as int].children@, sheet.rules@.len()));
        proof {
            lemma_cells_prefix(sheet, s, cells@, (k + 1) as nat, cells@.len());
        }
        push_cell_open(out, cell);
        write_inlines(context, &cell.children, out);
        push_str(out, "</td>\n");
        assert(out@ =~= start + "  <tr>\n"@ + cells_html(sheet, s, cells@, (k + 1) as nat).0);
        k = k + 1;
    }
    push_str(out, "  </tr>\n");
}

#[verifier::spinoff_prover]
fn write_table(context: &mut Context, t: &Table, out: &mut String)
    requires
        block_styles_below(Block::Table(*t), old(context).style_sheet.rules@.len()),
        fits(block_html(*old(context).style_sheet, state_of(*old(context)), Block::Table(*t)).1),
    ensures
        final(context).style_sheet == old(context).style_sheet,
        final(out)@ == old(out)@ + block_html(*old(context).style_sheet, state_of(*old(context)), Block::Table(*t)).0,
        state_of(*final(context)) == block_html(*old(context).style_sheet, state_of(*old(context)), Block::Table(*t)).1,
{
    let ghost start = out@;
    let ghost s = state_of(*context);
    let ghost sheet = *context.style_sheet;
    push_str(out, "<table>\n  <tbody>\n");
    let rows = &t.rows;
    let mut k: usize = 0;
    while k < rows.len()
        invariant
            k <= rows@.len(),
            rows == &t.rows,
            *context.style_sheet == sheet,
            block_styles_below(Block::Table(*t), sheet.rules@.len()),
            fits(rows_html(sheet, s, rows@, rows@.len()).1),
            out@ == start + "<table>\n  <tbody>\n"@ + rows_html(sheet, s, rows@, k as nat).0,
            state_of(*context) == rows_html(sheet, s, rows@, k as nat).1,
        decreases rows@.len() - k,
    {
        let row = &rows[k];
        proof {
            lemma_rows_prefix(sheet, s, rows@, (k + 1) as nat, rows@.len());
            lemma_cells_prefix(sheet, rows_html(sheet, s, rows@, k as nat).1, row.cells@, row.cells@.len(), row.cells@.len());
            assert forall|c: int| 0 <= c < row.cells.len() implies inlines_styles_below(
                (#[trigger] row.cells[c]).children@,
                sheet.rules@.len(),
            ) by {
                assert(t.rows[k as int] == *row);
            }
        }
        write_row(context, row, out);
        assert(out@ =~= start + "<table>\n  <tbody>\n"@ + rows_html(sheet, s, rows@, (k + 1) as nat).0);
        k = k + 1;
    }
    push_str(out, "  </tbody>\n</table>\n");
    assert(out@ =~= start + block_html(sheet, s, Block::Table(*t)).0);
}

fn tag_of(marker: &str) -> (tag: &'static str)
    ensures
        tag@ == para_tag(marker@),
{
    if str_eq(marker, "s") || str_eq(marker, "s1") || str_eq(marker, "mt1") {
        "h1"
    } else if str_eq(marker, "s2") || str_eq(marker, "mt2") {
        "h2"
    } else if str_eq(marker, "s3") || str_eq(marker, "mt3") {
        "h3"
    } else if str_eq(marker, "s4") || str_eq(marker, "mt4") {
        "h4"
    } else if str_eq(marker, "s5") || str_eq(marker, "mt5") {
        "h5"
    } else if str_eq(marker, "s6") || str_eq(marker, "mt6") {
        "h6"
    } else {
        "p"
    }
}

/// A copy of a string, character for character.
fn copy_text(text: &str) -> (copy: String)
    ensures
        copy@ == text@,
{
    let mut copy = String::new();
    push_str(&mut copy, text);
    assert(copy@ =~= text@);
    copy
}

#[verifier::spinoff_prover]
#[verifier::rlimit(40)]
fn write_para(context: &mut Context, p: &Para, out: &mut String)
    requires
        block_styles_below(Block::Para(*p), old(context).style_sheet.rules@.len()),
        fits(block_html(*old(context).style_sheet, state_of(*old(context)), Block::Para(*p)).1),
    ensures
        final(context).style_sheet == old(context).style_sheet,
        final(out)@ == old(out)@ + block_html(*old(context).style_sheet, state_of(*old(context)), Block::Para(*p)).0,
        state_of(*final(context)) == block_html(*old(context).style_sheet, state_of(*old(context)), Block::Para(*p)).1,
{
    let ghost start = out@;
    let ghost s = state_of(*context);
    let sheet = context.style_sheet;
    let rule = &sheet.rules[p.style.0 as usize];
    let takes = rule.text_type == TextType::VerseText;
    let number: Option<String> = if takes {
        let taken = context.chapter_to_output.take();
        taken
    } else {
        None
    };
    let ghost begun = state_of(*context);
    assert(begun == if takes {
        HtmlState { chapter_to_output: None, ..s }
    } else {
        s
    });
    let tag = tag_of(rule.marker.as_str());
    push_str(out, "<");
    push_str(out, tag);
    push_str(out, " class=\"");
    push_str(out, rule.marker.as_str());
    push_str(out, "\">");
    let ghost head = out@;
    if p.children.len() > 0 || number.is_some() {
        push_str(out, "\n  ");
        match &number {
            Some(t) => {
                push_str(out, "<span class=\"c\">");
                push_escaped(out, t.as_str(), false);
                push_str(out, "</span>");
            },
            None => {},
        }
        write_inlines(context, &p.children, out);
        push_str(out, "\n");
    } else {
        assert(p.children@.len() == 0);
    }
    push_str(out, "</");
    push_str(out, tag);
    push_str(out, ">\n");
    assert(out@ =~= start + block_html(*sheet, s, Block::Para(*p)).0);
}

#[verifier::spinoff_prover]
fn write_sidebar(context: &mut Context, sb: &Sidebar, out: &mut String)
    requires
        block_styles_below(Block::Sidebar(*sb), old(context).style_sheet.rules@.len()),
        fits(block_html(*old(context).style_sheet, state_of(*old(context)), Block::Sidebar(*sb)).1),
    ensures
        final(context).style_sheet == old(context).style_sheet,
        final(out)@ == old(out)@ + block_html(*old(context).style_sheet, state_of(*old(context)), Block::Sidebar(*sb)).0,
        state_of(*final(context)) == block_html(*old(context).style_sheet, state_of(*old(context)), Block::Sidebar(*sb)).1,
    decreases sb,
{
    let ghost start = out@;
    let ghost s = state_of(*context);
    let sheet = context.style_sheet;
    push_str(out, "<aside class=\"");
    push_str(out, sheet.rules[sb.style.0 as usize].marker.as_str());
    push_str(out, "\"");
    match &sb.category {
        Some(c) => {
            push_str(out, " data-category=\"");
            push_escaped(out, c.content.as_str(), true);
            push_str(out, "\"");
        },
        None => {},
    }
    push_str(out, ">\n");
    proof {
        lemma_block_styles(sb.blocks@, sheet.rules@.len());
    }
    write_blocks(context, &sb.blocks, out);
    push_str(out, "</aside>\n");
    assert(out@ =~= start + block_html(*sheet, s, Block::Sidebar(*sb)).0);
}

#[verifier::spinoff_prover]
fn write_periph(context: &mut Context, pb: &Periph, out: &mut String)
    requires
        block_styles_below(Block::Periph(*pb), old(context).style_sheet.rules@.len()),
        fits(block_html(*old(context).style_sheet, state_of(*old(context)), Block::Periph(*pb)).1),
    ensures
        final(context).style_sheet == old(context).style_sheet,
        final(out)@ == old(out)@ + block_html(*old(context).style_sheet, state_of(*old(context)), Block::Periph(*pb)).0,
        state_of(*final(context)) == block_html(*old(context).style_sheet, state_of(*old(context)), Block::Periph(*pb)).1,
    decreases pb,
{
    let ghost start = out@;
    let ghost s = state_of(*context);
    let sheet = context.style_sheet;
    push_str(out, "<section class=\"");
    push_str(out, sheet.rules[pb.style.0 as usize].marker.as_str());
    push_str(out, "\"");
    let ghost head = out@;
    match &pb.attributes {
        Some(a) => {
            let pairs = &a.pairs;
            let mut k: usize = 0;
            while k < pairs.len()
                invariant
                    k <= pairs@.len(),
                    out@ == head + periph_ids(pairs@, k as nat),
                decreases pairs@.len() - k,
            {
                let pair = &pairs[k];
                if pair.name.as_str().is_empty() || str_eq(pair.name.as_str(), "id") {
                    push_str(out, " id=\"");
                    push_escaped(out, pair.value.as_str(), true);
                    push_str(out, "\"");
                }
                assert(out@ =~= head + periph_ids(pairs@, (k + 1) as nat));
                k = k + 1;
            }
        },
        None => {
            assert(out@ =~= head + periph_ids(seq![], 0));
        },
    }
    push_str(out, ">\n");
    match &pb.title {
        Some(t) => {
            push_str(out, "<h1>");
            push_escaped(out, t.content.as_str(), false);
            push_str(out, "</h1>\n");
        },
        None => {},
    }
    proof {
        lemma_block_styles(pb.blocks@, sheet.rules@.len());
    }
    write_blocks(context, &pb.blocks, out);
    push_str(out, "</section>\n");
    assert(out@ =~= start + block_html(*sheet, s, Block::Periph(*pb)).0);
}

#[verifier::spinoff_prover]
fn write_block(context: &mut Context, block: &Block, out: &mut String)
    requires
        block_styles_below(*block, old(context).style_sheet.rules@.len()),
        fits(block_html(*old(context).style_sheet, state_of(*old(context)), *block).1),
    ensures
        final(context).style_sheet == old(context).style_sheet,
        final(out)@ == old(out)@ + block_html(*old(context).style_sheet, state_of(*old(context)), *block).0,
        state_of(*final(context)) == block_html(*old(context).style_sheet, state_of(*old(context)), *block).1,
    decreases block,
{
    let ghost start = out@;
    let ghost s = state_of(*context);
    let sheet = context.style_sheet;
    match block {
        Block::Book(b) => {
            context.book_code = Some(b.code);
            push_str(out, "<div class=\"id\" data-code=\"");
            push_code(out, b.code);
            push_str(out, "\">");
            push_escaped(out, b.description.as_str(), false);
            push_str(out, "</div>");
            assert(out@ =~= start + block_html(*sheet, s, *block).0);
        },
        Block::ChapterStart(c) => {
            context.chapter_number = Some(c.number);
            let text = match &c.pub_number {
                Some(p) => copy_text(p.as_str()),
                None => {
                    let mut t = String::new();
                    push_decimal(&mut t, c.number);
                    assert(t@ =~= decimal(c.number as nat));
                    t
                },
            };
            context.chapter_to_output = Some(text);
            assert(out@ =~= start + block_html(*sheet, s, *block).0);
        },
        Block::ChapterEnd(_) => {
            context.chapter_number = None;
            assert(out@ =~= start + block_html(*sheet, s, *block).0);
        },
        Block::Para(p) => write_para(context, p, out),
        Block::Table(t) => write_table(context, t, out),
        Block::Milestone(m) => write_milestone(sheet, m, out),
        Block::Sidebar(sb) => write_sidebar(context, sb, out),
        Block::Periph(pb) => write_periph(context, pb, out),
    }
}

fn write_blocks(context: &mut Context, blocks: &Vec<Block>, out: &mut String)
    requires
        blocks_styles_below(blocks@, old(context).style_sheet.rules@.len()),
        fits(blocks_html(*old(context).style_sheet, state_of(*old(context)), blocks@, blocks@.len()).1),
    ensures
        final(context).style_sheet == old(context).style_sheet,
        final(out)@ == old(out)@ + blocks_html(*old(context).style_sheet, state_of(*old(context)), blocks@, blocks@.len()).0,
        state_of(*final(context)) == blocks_html(*old(context).style_sheet, state_of(*old(context)), blocks@, blocks@.len()).1,
    decreases blocks,
{
    let ghost start = out@;
    let ghost s = state_of(*context);
    let ghost sheet = *context.style_sheet;
    let mut k: usize = 0;
    while k < blocks.len()
        invariant
            k <= blocks@.len(),
            *context.style_sheet == sheet,
            blocks_styles_below(blocks@, sheet.rules@.len()),
            fits(blocks_html(sheet, s, blocks@, blocks@.len()).1),
            out@ == start + blocks_html(sheet, s, blocks@, k as nat).0,
            state_of(*context) == blocks_html(sheet, s, blocks@, k as nat).1,
        decreases blocks@.len() - k,
    {
        assert(block_styles_below(blocks@[k as int], sheet.rules@.len()));
        proof {
            assert(decreases_to!(blocks => blocks@));
            assert(decreases_to!(blocks@ => blocks@[k as int]));
            lemma_blocks_prefix(sheet, s, blocks@, (k + 1) as nat, blocks@.len());
        }
        write_block(context, &blocks[k], out);
        assert(out@ =~= start + blocks_html(sheet, s, blocks@, (k + 1) as nat).0);
        k = k + 1;
    }
}

/// The document as HTML, each node written as the walk reaches it, with a
/// fresh context whose styles resolve in `style_sheet` (the document's own,
/// for a document read by the parser).
pub fn to_html_string(document: &Document, style_sheet: &StyleSheet) -> (html: String)
    requires
        blocks_styles_below(document.blocks@, style_sheet.rules@.len()),
        fits(blocks_html(*style_sheet, html_start(), document.blocks@, document.blocks@.len()).1),
    ensures
        html@ == blocks_html(*style_sheet, html_start(), document.blocks@, document.blocks@.len()).0,
{
    let mut context = Context::new(style_sheet);
    let mut out = String::new();
    write_blocks(&mut context, &document.blocks, &mut out);
    assert(out@ =~= blocks_html(*style_sheet, html_start(), document.blocks@, document.blocks@.len()).0);
    out
}


/// The tag of a paragraph by its marker: `h1` for `\s`, `\s1` and `\mt1`,
/// `hN` for `\sN` and `\mtN` up to six, `p` for every other marker.
pub proof fn law_heading_tags(m: Seq<char>)
    ensures
        (m == "s"@ || m == "s1"@ || m == "mt1"@) ==> para_tag(m) == "h1"@,
        (m == "s2"@ || m == "mt2"@) ==> para_tag(m) == "h2"@,
        (m == "s3"@ || m == "mt3"@) ==> para_tag(m) == "h3"@,
        (m == "s4"@ || m == "mt4"@) ==> para_tag(m) == "h4"@,
        (m == "s5"@ || m == "mt5"@) ==> para_tag(m) == "h5"@,
        (m == "s6"@ || m == "mt6"@) ==> para_tag(m) == "h6"@,
        (m != "s"@ && m != "s1"@ && m != "mt1"@ && m != "s2"@ && m != "mt2"@ && m != "s3"@ && m != "mt3"@ && m != "s4"@ && m != "mt4"@ && m != "s5"@ && m != "mt5"@ && m != "s6"@ && m != "mt6"@) ==> para_tag(m) == "p"@,
{
    reveal_strlit("s");
    reveal_strlit("s1");
    reveal_strlit("mt1");
    reveal_strlit("s2");
    reveal_strlit("mt2");
    reveal_strlit("s3");
    reveal_strlit("mt3");
    reveal_strlit("s4");
    reveal_strlit("mt4");
    reveal_strlit("s5");
    reveal_strlit("mt5");
    reveal_strlit("s6");
    reveal_strlit("mt6");
    reveal_strlit("h1");
    reveal_strlit("h2");
    reveal_strlit("h3");
    reveal_strlit("h4");
    reveal_strlit("h5");
    reveal_strlit("h6");
    reveal_strlit("p");
    assert("s"@ != "s1"@) by { assert("s"@.len() != "s1"@.len()); }
    assert("s"@ != "mt1"@) by { assert("s"@.len() != "mt1"@.len()); }
    assert("s"@ != "s2"@) by { assert("s"@.len() != "s2"@.len()); }
    assert("s"@ != "mt2"@) by { assert("s"@.len() != "mt2"@.len()); }
    assert("s"@ != "s3"@) by { assert("s"@.len() != "s3"@.len()); }
    assert("s"@ != "mt3"@) by { assert("s"@.len() != "mt3"@.len()); }
    assert("s"@ != "s4"@) by { assert("s"@.len() != "s4"@.len()); }
    assert("s"@ != "mt4"@) by { assert("s"@.len() != "mt4"@.len()); }
    assert("s"@ != "s5"@) by { assert("s"@.len() != "s5"@.len()); }
    assert("s"@ != "mt5"@) by { assert("s"@.len() != "mt5"@.len()); }
    assert("s"@ != "s6"@) by { assert("s"@.len() != "s6"@.len()); }
    assert("s"@ != "mt6"@) by { assert("s"@.len() != "mt6"@.len()); }
    assert("s1"@ != "mt1"@) by { assert("s1"@.len() != "mt1"@.len()); }
    assert("s1"@ != "mt2"@) by { assert("s1"@.len() != "mt2"@.len()); }
    assert("s1"@ != "mt3"@) by { assert("s1"@.len() != "mt3"@.len()); }
    assert("s1"@ != "mt4"@) by { assert("s1"@.len() != "mt4"@.len()); }
    assert("s1"@ != "mt5"@) by { assert("s1"@.len() != "mt5"@.len()); }
    assert("s1"@ != "mt6"@) by { assert("s1"@.len() != "mt6"@.len()); }
    assert("mt1"@ != "s2"@) by { assert("mt1"@.len() != "s2"@.len()); }
    assert("mt1"@ != "s3"@) by { assert("mt1"@.len() != "s3"@.len()); }
    assert("mt1"@ != "s4"@) by { assert("mt1"@.len() != "s4"@.len()); }
    assert("mt1"@ != "s5"@) by { assert("mt1"@.len() != "s5"@.len()); }
    assert("mt1"@ != "s6"@) by { assert("mt1"@.len() != "s6"@.len()); }
    assert("s2"@ != "mt2"@) by { assert("s2"@.len() != "mt2"@.len()); }
    assert("s2"@ != "mt3"@) by { assert("s2"@.len() != "mt3"@.len()); }
    assert("s2"@ != "mt4"@) by { assert("s2"@.len() != "mt4"@.len()); }
    assert("s2"@ != "mt5"@) by { assert("s2"@.len() != "mt5"@.len()); }
    assert("s2"@ != "mt6"@) by { assert("s2"@.len() != "mt6"@.len()); }
    assert("mt2"@ != "s3"@) by { assert("mt2"@.len() != "s3"@.len()); }
    assert("mt2"@ != "s4"@) by { assert("mt2"@.len() != "s4"@.len()); }
    assert("mt2"@ != "s5"@) by { assert("mt2"@.len() != "s5"@.len()); }
    assert("mt2"@ != "s6"@) by { assert("mt2"@.len() != "s6"@.len()); }
    assert("s3"@ != "mt3"@) by { assert("s3"@.len() != "mt3"@.len()); }
    assert("s3"@ != "mt4"@) by { assert("s3"@.len() != "mt4"@.len()); }
    assert("s3"@ != "mt5"@) by { assert("s3"@.len() != "mt5"@.len()); }
    assert("s3"@ != "mt6"@) by { assert("s3"@.len() != "mt6"@.len()); }
    assert("mt3"@ != "s4"@) by { assert("mt3"@.len() != "s4"@.len()); }
    assert("mt3"@ != "s5"@) by { assert("mt3"@.len() != "s5"@.len()); }
    assert("mt3"@ != "s6"@) by { assert("mt3"@.len() != "s6"@.len()); }
    assert("s4"@ != "mt4"@) by { assert("s4"@.len() != "mt4"@.len()); }
    assert("s4"@ != "mt5"@) by { assert("s4"@.len() != "mt5"@.len()); }
    assert("s4"@ != "mt6"@) by { assert("s4"@.len() != "mt6"@.len()); }
    assert("mt4"@ != "s5"@) by { assert("mt4"@.len() != "s5"@.len()); }
    assert("mt4"@ != "s6"@) by { assert("mt4"@.len() != "s6"@.len()); }
    assert("s5"@ != "mt5"@) by { assert("s5"@.len() != "mt5"@.len()); }
    assert("s5"@ != "mt6"@) by { assert("s5"@.len() != "mt6"@.len()); }
    assert("mt5"@ != "s6"@) by { assert("mt5"@.len() != "s6"@.len()); }
    assert("s6"@ != "mt6"@) by { assert("s6"@.len() != "mt6"@.len()); }
    assert("s1"@ != "s2"@) by { assert("s1"@[1] != "s2"@[1]); }
    assert("s1"@ != "s3"@) by { assert("s1"@[1] != "s3"@[1]); }
    assert("s1"@ != "s4"@) by { assert("s1"@[1] != "s4"@[1]); }
    assert("s1"@ != "s5"@) by { assert("s1"@[1] != "s5"@[1]); }
    assert("s1"@ != "s6"@) by { assert("s1"@[1] != "s6"@[1]); }
    assert("mt1"@ != "mt2"@) by { assert("mt1"@[2] != "mt2"@[2]); }
    assert("mt1"@ != "mt3"@) by { assert("mt1"@[2] != "mt3"@[2]); }
    assert("mt1"@ != "mt4"@) by { assert("mt1"@[2] != "mt4"@[2]); }
    assert("mt1"@ != "mt5"@) by { assert("mt1"@[2] != "mt5"@[2]); }
    assert("mt1"@ != "mt6"@) by { assert("mt1"@[2] != "mt6"@[2]); }
    assert("s2"@ != "s3"@) by { assert("s2"@[1] != "s3"@[1]); }
    assert("s2"@ != "s4"@) by { assert("s2"@[1] != "s4"@[1]); }
    assert("s2"@ != "s5"@) by { assert("s2"@[1] != "s5"@[1]); }
    assert("s2"@ != "s6"@) by { assert("s2"@[1] != "s6"@[1]); }
    assert("mt2"@ != "mt3"@) by { assert("mt2"@[2] != "mt3"@[2]); }
    assert("mt2"@ != "mt4"@) by { assert("mt2"@[2] != "mt4"@[2]); }
    assert("mt2"@ != "mt5"@) by { assert("mt2"@[2] != "mt5"@[2]); }
    assert("mt2"@ != "mt6"@) by { assert("mt2"@[2] != "mt6"@[2]); }
    assert("s3"@ != "s4"@) by { assert("s3"@[1] != "s4"@[1]); }
    assert("s3"@ != "s5"@) by { assert("s3"@[1] != "s5"@[1]); }
    assert("s3"@ != "s6"@) by { assert("s3"@[1] != "s6"@[1]); }
    assert("mt3"@ != "mt4"@) by { assert("mt3"@[2] != "mt4"@[2]); }
    assert("mt3"@ != "mt5"@) by { assert("mt3"@[2] != "mt5"@[2]); }
    assert("mt3"@ != "mt6"@) by { assert("mt3"@[2] != "mt6"@[2]); }
    assert("s4"@ != "s5"@) by { assert("s4"@[1] != "s5"@[1]); }
    assert("s4"@ != "s6"@) by { assert("s4"@[1] != "s6"@[1]); }
    assert("mt4"@ != "mt5"@) by { assert("mt4"@[2] != "mt5"@[2]); }
    assert("mt4"@ != "mt6"@) by { assert("mt4"@[2] != "mt6"@[2]); }
    assert("s5"@ != "s6"@) by { assert("s5"@[1] != "s6"@[1]); }
    assert("mt5"@ != "mt6"@) by { assert("mt5"@[2] != "mt6"@[2]); }
}

/// The HTML of a paragraph opens and closes with its tag.
proof fn lemma_para_opens_with_its_tag(sheet: StyleSheet, s: HtmlState, p: Para)
    requires
        p.style.0 < sheet.rules@.len(),
    ensures
        ({
            let m = sheet.rules@[p.style.0 as int].marker@;
            let html = block_html(sheet, s, Block::Para(p)).0;
            &&& ("<"@ + para_tag(m) + " class=\""@).is_prefix_of(html)
            &&& ("</"@ + para_tag(m) + ">\n"@).is_suffix_of(html)
        }),
{
    reveal_strlit("<");
    reveal_strlit("</");
    reveal_strlit(" class=\"");
    reveal_strlit(">\n");
    let rule = sheet.rules@[p.style.0 as int];
    let tag = para_tag(rule.marker@);
    let html = block_html(sheet, s, Block::Para(p)).0;
    let opening = "<"@ + tag + " class=\""@;
    let closing = "</"@ + tag + ">\n"@;
    let takes = rule.text_type == TextType::VerseText;
    let number = if takes { s.chapter_to_output } else { None };
    let start = if takes { HtmlState { chapter_to_output: None, ..s } } else { s };
    let inner = inlines_html(sheet, start, p.children@, p.children@.len());
    let middle = " class=\""@ + rule.marker@ + "\">"@ + (if p.children@.len() > 0 || number is Some {
        "\n  "@ + match number {
            Some(t) => "<span class=\"c\">"@ + escaped(t, false) + "</span>"@,
            None => seq![],
        } + inner.0 + "\n"@
    } else {
        seq![]
    });
    assert(html =~= "<"@ + tag + middle + closing);
    assert(html.subrange(0, opening.len() as int) =~= opening);
    assert(html.subrange(html.len() - closing.len(), html.len() as int) =~= closing);
}

/// A paragraph is written as a heading for the section and main title
/// levels — `h1` for `\s`, `\s1` and `\mt1`, `hN` for `\sN` and `\mtN` up to
/// six — and as `p` for every other marker; the element opens and closes
/// with that tag.
pub proof fn law_headings_by_marker(sheet: StyleSheet, s: HtmlState, p: Para)
    requires
        p.style.0 < sheet.rules@.len(),
    ensures
        ({
            let m = sheet.rules@[p.style.0 as int].marker@;
            let html = block_html(sheet, s, Block::Para(p)).0;
            &&& (m == "s"@ || m == "s1"@ || m == "mt1"@) ==> "<h1 class=\""@.is_prefix_of(html) && "</h1>\n"@.is_suffix_of(html)
            &&& (m == "s2"@ || m == "mt2"@) ==> "<h2 class=\""@.is_prefix_of(html) && "</h2>\n"@.is_suffix_of(html)
            &&& (m == "s3"@ || m == "mt3"@) ==> "<h3 class=\""@.is_prefix_of(html) && "</h3>\n"@.is_suffix_of(html)
            &&& (m == "s4"@ || m == "mt4"@) ==> "<h4 class=\""@.is_prefix_of(html) && "</h4>\n"@.is_suffix_of(html)
            &&& (m == "s5"@ || m == "mt5"@) ==> "<h5 class=\""@.is_prefix_of(html) && "</h5>\n"@.is_suffix_of(html)
            &&& (m == "s6"@ || m == "mt6"@) ==> "<h6 class=\""@.is_prefix_of(html) && "</h6>\n"@.is_suffix_of(html)
            &&& (m != "s"@ && m != "s1"@ && m != "mt1"@ && m != "s2"@ && m != "mt2"@ && m != "s3"@ && m != "mt3"@ && m != "s4"@ && m != "mt4"@ && m != "s5"@ && m != "mt5"@ && m != "s6"@ && m != "mt6"@) ==> "<p class=\""@.is_prefix_of(html) && "</p>\n"@.is_suffix_of(html)
        }),
{
    let m = sheet.rules@[p.style.0 as int].marker@;
    law_heading_tags(m);
    lemma_para_opens_with_its_tag(sheet, s, p);
    reveal_strlit("<");
    reveal_strlit("</");
    reveal_strlit(" class=\"");
    reveal_strlit(">\n");
    reveal_strlit("h1");
    reveal_strlit("h2");
    reveal_strlit("h3");
    reveal_strlit("h4");
    reveal_strlit("h5");
    reveal_strlit("h6");
    reveal_strlit("p");
    reveal_strlit("<p class=\"");
    reveal_strlit("</p>\n");
    reveal_strlit("<h1 class=\"");
    reveal_strlit("</h1>\n");
    reveal_strlit("<h2 class=\"");
    reveal_strlit("</h2>\n");
    reveal_strlit("<h3 class=\"");
    reveal_strlit("</h3>\n");
    reveal_strlit("<h4 class=\"");
    reveal_strlit("</h4>\n");
    reveal_strlit("<h5 class=\"");
    reveal_strlit("</h5>\n");
    reveal_strlit("<h6 class=\"");
    reveal_strlit("</h6>\n");
    if para_tag(m) == "h1"@ {
        assert("<"@ + para_tag(m) + " class=\""@ =~= "<h1 class=\""@);
        assert("</"@ + para_tag(m) + ">\n"@ =~= "</h1>\n"@);
    }
    if para_tag(m) == "h2"@ {
        assert("<"@ + para_tag(m) + " class=\""@ =~= "<h2 class=\""@);
        assert("</"@ + para_tag(m) + ">\n"@ =~= "</h2>\n"@);
    }
    if para_tag(m) == "h3"@ {
        assert("<"@ + para_tag(m) + " class=\""@ =~= "<h3 class=\""@);
        assert("</"@ + para_tag(m) + ">\n"@ =~= "</h3>\n"@);
    }
    if para_tag(m) == "h4"@ {
        assert("<"@ + para_tag(m) + " class=\""@ =~= "<h4 class=\""@);
        assert("</"@ + para_tag(m) + ">\n"@ =~= "</h4>\n"@);
    }
    if para_tag(m) == "h5"@ {
        assert("<"@ + para_tag(m) + " class=\""@ =~= "<h5 class=\""@);
        assert("</"@ + para_tag(m) + ">\n"@ =~= "</h5>\n"@);
    }
    if para_tag(m) == "h6"@ {
        assert("<"@ + para_tag(m) + " class=\""@ =~= "<h6 class=\""@);
        assert("</"@ + para_tag(m) + ">\n"@ =~= "</h6>\n"@);
    }
    if para_tag(m) == "p"@ {
        assert("<"@ + para_tag(m) + " class=\""@ =~= "<p class=\""@);
        assert("</"@ + para_tag(m) + ">\n"@ =~= "</p>\n"@);
    }
}

} // verus!
