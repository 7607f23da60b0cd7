//! The checks that read a finished tree and repair nothing.
//!
//! The parser reports what it had to repair; these report what is worth
//! saying about a document that parsed exactly as written:
//!
//! - `missing-id`: the document's first block is not a `Book` (at offset 0);
//! - `empty-book`: the document's only block is a `Book` (at the end of the
//!   source, which is where `Document::span` ends);
//! - `id-not-first`: a `Book` that is not the first block of its list;
//! - `unlisted-book-code`: a `Book` whose code is not one of the listed
//!   books;
//! - `duplicate-chapter-number` and `chapter-out-of-order`, per book, over
//!   the document's own blocks;
//! - `empty-word`: a `\w` with an attribute list and no children;
//! - `empty-attribute-list` and `empty-milestone-attribute-list`: a `|`
//!   with no pairs after it, reported at the `|`;
//! - `default-attribute-with-others`: a bare value beside other pairs,
//!   reported at the `|`;
//! - `malformed-attribute-name`: a named pair whose name is not ASCII
//!   letters, digits, `-`, `_` and `.` starting with a letter or `_`;
//! - `duplicate-attribute`: a pair whose name an earlier pair of the same
//!   list already has (two bare values both name the default attribute);
//! - `unexpected-table-column`: a cell naming a column other than the one
//!   after the cell before it (the first cell of a row names column 1);
//! - on one walk over the verses, book by book: `verse-in-character-style`
//!   (a verse inside a character style), `verse-in-heading` (in a title or
//!   heading paragraph other than the `\s5` chunk marker),
//!   `verse-outside-chapter` (before the book's first `\c`),
//!   `verse-text-before-chapter` (a verse-text paragraph of a book of
//!   scripture before its first `\c`), `duplicate-verse-number` (a verse
//!   covering part of one the chapter already has: `\v 4` covers `4a` and
//!   `4b`, which do not cover each other) and, where it is not that,
//!   `verse-out-of-order` (a verse starting lower than the one before it
//!   ended);
//! - `marker-not-allowed-here` and `marker-not-listed-here`: a character
//!   style or note opened under a marker its `OccursUnder` list does not
//!   name — an error when the list names notes only, an information
//!   otherwise. A character style is checked against its paragraph, or the
//!   note it stands in; one inside another character style is not checked
//!   (nesting decides that), nor is anything in a table cell; a note is
//!   checked against its paragraph.
use vstd::prelude::*;
use crate::ast::{
    all_block_styles_below, all_inline_styles_below, block_styles_below, blocks_styles_below,
    inline_styles_below, inlines_styles_below, lemma_block_styles, lemma_inline_styles, Attribute,
    Attributes, Block, Document, Inline, TableCell,
};
use crate::ast::{Table, TableRow, VerseStart};
use crate::book::{spec_category, BookCategory, BookCode};
use crate::number::NumberRange;
use crate::codegen::marker_of;
use crate::style::{first_index_of, StyleRule, StyleType, TextType};
use crate::diagnostics::{Code, Diagnostic};
use crate::eq::sheet_of;
use crate::span::Span;
use crate::strings::{str_chars, str_eq};
use crate::style::StyleSheet;

verus! {

/// A finding: a code and the span it is reported at.
pub type Finding = (Code, Span);

/// Whether pair `i` repeats the name of an earlier pair of the list. Two
/// bare values repeat each other: both are the marker's default attribute.
pub open spec fn repeats_earlier(pairs: Seq<Attribute>, i: int) -> bool {
    exists|j: int| 0 <= j < i && pairs[j].name@ == pairs[i].name@
}

/// Whether `c` may start an attribute name: an ASCII letter or `_`.
pub open spec fn name_start(c: char) -> bool {
    ('A' <= c && c <= 'Z') || ('a' <= c && c <= 'z') || c == '_'
}

/// Whether `c` may stand in an attribute name after its first character:
/// an ASCII letter or digit, `-`, `_` or `.`.
pub open spec fn name_char(c: char) -> bool {
    name_start(c) || ('0' <= c && c <= '9') || c == '-' || c == '.'
}

/// Whether a written name is an attribute name as USFM spells one.
pub open spec fn well_formed_name(name: Seq<char>) -> bool {
    name.len() > 0 && name_start(name[0]) && forall|i: int| 1 <= i < name.len() ==> name_char(#[trigger] name[i])
}

/// What pair `i` of a list has to say: a name that is not an attribute
/// name, then a name an earlier pair already has.
pub open spec fn pair_findings(pairs: Seq<Attribute>, i: int) -> Seq<Finding> {
    (if pairs[i].name@.len() > 0 && !well_formed_name(pairs[i].name@) {
        seq![(Code::MalformedAttributeName, pairs[i].span)]
    } else {
        seq![]
    }) + if repeats_earlier(pairs, i) {
        seq![(Code::DuplicateAttribute, pairs[i].span)]
    } else {
        seq![]
    }
}

/// The findings of the first `k` pairs, in order.
pub open spec fn pairs_findings(pairs: Seq<Attribute>, k: nat) -> Seq<Finding>
    decreases k,
{
    if k == 0 || k > pairs.len() {
        seq![]
    } else {
        pairs_findings(pairs, (k - 1) as nat) + pair_findings(pairs, k - 1)
    }
}

/// Whether a list holds a bare value.
pub open spec fn has_bare_value(pairs: Seq<Attribute>) -> bool {
    exists|i: int| 0 <= i < pairs.len() && pairs[i].name@.len() == 0
}

/// What an attribute list has to say: an empty one is reported at its `|`,
/// as a milestone's when `milestone`; a bare value beside other pairs is
/// reported at the `|` too; then what each pair has to say.
pub open spec fn attribute_findings(attributes: Option<Attributes>, milestone: bool) -> Seq<Finding> {
    match attributes {
        None => seq![],
        Some(a) => if a.pairs@.len() == 0 {
            seq![
                (if milestone {
                    Code::EmptyMilestoneAttributeList
                } else {
                    Code::EmptyAttributeList
                }, a.pipe),
            ]
        } else {
            (if a.pairs@.len() > 1 && has_bare_value(a.pairs@) {
                seq![(Code::DefaultAttributeWithOthers, a.pipe)]
            } else {
                seq![]
            }) + pairs_findings(a.pairs@, a.pairs@.len())
        },
    }
}

/// Whether a style is `\w`.
pub open spec fn is_word_style(sheet: StyleSheet, style: u32) -> bool {
    sheet.rules@[style as int].marker@ == "w"@
}

/// The findings in an inline node and its children, in document order.
pub open spec fn inline_findings(sheet: StyleSheet, node: Inline) -> Seq<Finding>
    decreases node, 0nat,
{
    match node {
        Inline::Char(c) => (if is_word_style(sheet, c.style.0) && c.attributes is Some
            && c.children@.len() == 0 {
            seq![(Code::EmptyWord, c.span)]
        } else {
            seq![]
        }) + attribute_findings(c.attributes, false) + inlines_findings(
            sheet,
            c.children@,
            c.children@.len(),
        ),
        Inline::Note(x) => inlines_findings(sheet, x.children@, x.children@.len()),
        Inline::Milestone(m) => attribute_findings(m.attributes, true),
        _ => seq![],
    }
}

/// The findings in the first `k` nodes of a list.
pub open spec fn inlines_findings(sheet: StyleSheet, nodes: Seq<Inline>, k: nat) -> Seq<Finding>
    decreases nodes, k,
{
    if k == 0 || k > nodes.len() {
        seq![]
    } else {
        inlines_findings(sheet, nodes, (k - 1) as nat) + inline_findings(sheet, nodes[k - 1])
    }
}

/// The column the cell at `k` is expected to name: 1 for the first cell of
/// a row, and the one after the columns the cell before it spans otherwise.
pub open spec fn expected_column(cells: Seq<TableCell>, k: int) -> int {
    if k <= 0 {
        1
    } else {
        cells[k - 1].column + cells[k - 1].colspan
    }
}

/// The findings in the first `k` cells of a row.
pub open spec fn cells_findings(sheet: StyleSheet, cells: Seq<TableCell>, k: nat) -> Seq<Finding>
    decreases k,
{
    if k == 0 || k > cells.len() {
        seq![]
    } else {
        cells_findings(sheet, cells, (k - 1) as nat) + (if cells[k - 1].column != expected_column(
            cells,
            k - 1,
        ) {
            seq![(Code::UnexpectedTableColumn, cells[k - 1].span)]
        } else {
            seq![]
        }) + inlines_findings(sheet, cells[k - 1].children@, cells[k - 1].children@.len())
    }
}

/// The findings in a block, everything in it included.
pub open spec fn block_findings(sheet: StyleSheet, block: Block) -> Seq<Finding>
    decreases block, 0nat,
{
    match block {
        Block::Para(p) => inlines_findings(sheet, p.children@, p.children@.len()),
        Block::Table(t) => rows_findings(sheet, t.rows@.map_values(|r: crate::ast::TableRow| r.cells@), t.rows@.len()),
        Block::Milestone(m) => attribute_findings(m.attributes, true),
        Block::Sidebar(s) => blocks_findings(sheet, s.blocks@, s.blocks@.len()),
        Block::Periph(p) => attribute_findings(p.attributes, false) + blocks_findings(
            sheet,
            p.blocks@,
            p.blocks@.len(),
        ),
        _ => seq![],
    }
}

/// The findings in the first `k` rows of a table, given by their cells.
pub open spec fn rows_findings(sheet: StyleSheet, rows: Seq<Seq<TableCell>>, k: nat) -> Seq<Finding>
    decreases k,
{
    if k == 0 || k > rows.len() {
        seq![]
    } else {
        rows_findings(sheet, rows, (k - 1) as nat) + cells_findings(sheet, rows[k - 1], rows[k - 1].len())
    }
}

/// What a book line has to say in its place in a list.
pub open spec fn book_findings(block: Block, index: int) -> Seq<Finding> {
    match block {
        Block::Book(b) => (if index > 0 {
            seq![(Code::IdNotFirst, b.span)]
        } else {
            seq![]
        }) + (if b.code is Other {
            seq![(Code::UnlistedBookCode, b.span)]
        } else {
            seq![]
        }),
        _ => seq![],
    }
}

/// The findings in the first `k` blocks of a list.
pub open spec fn blocks_findings(sheet: StyleSheet, blocks: Seq<Block>, k: nat) -> Seq<Finding>
    decreases blocks, k,
{
    if k == 0 || k > blocks.len() {
        seq![]
    } else {
        blocks_findings(sheet, blocks, (k - 1) as nat) + book_findings(blocks[k - 1], k - 1)
            + block_findings(sheet, blocks[k - 1])
    }
}

/// The chapter numbers seen in the current book, and the last one, after the
/// first `k` blocks.
pub open spec fn chapter_state(blocks: Seq<Block>, k: nat) -> (Seq<usize>, Option<usize>)
    decreases k,
{
    if k == 0 || k > blocks.len() {
        (seq![], None)
    } else {
        let before = chapter_state(blocks, (k - 1) as nat);
        match blocks[k - 1] {
            Block::Book(_) => (seq![], None),
            Block::ChapterStart(c) => (before.0.push(c.number), Some(c.number)),
            _ => before,
        }
    }
}

/// What a chapter says against the chapters before it in its book.
pub open spec fn chapter_finding(state: (Seq<usize>, Option<usize>), block: Block) -> Seq<Finding> {
    match block {
        Block::ChapterStart(c) => if state.0.contains(c.number) {
            seq![(Code::DuplicateChapterNumber, c.span)]
        } else if state.1 is Some && c.number < state.1->0 {
            seq![(Code::ChapterOutOfOrder, c.span)]
        } else {
            seq![]
        },
        _ => seq![],
    }
}

/// The chapter findings over the first `k` blocks.
pub open spec fn chapters_findings(blocks: Seq<Block>, k: nat) -> Seq<Finding>
    decreases k,
{
    if k == 0 || k > blocks.len() {
        seq![]
    } else {
        chapters_findings(blocks, (k - 1) as nat) + chapter_finding(
            chapter_state(blocks, (k - 1) as nat),
            blocks[k - 1],
        )
    }
}

/// Where the verse walk is: in a book of scripture or not, past a `\c` of
/// the book or not, the ranges of the chapter's verses so far, and where the
/// chapter's previous verse ended.
pub struct VerseState {
    pub scripture: bool,
    pub in_chapter: bool,
    pub covered: Seq<NumberRange>,
    pub last_end: Option<usize>,
}

/// The walk before any book.
pub open spec fn verse_start() -> VerseState {
    VerseState { scripture: false, in_chapter: false, covered: seq![], last_end: None }
}

/// Whether a book is one of scripture: of the Old or New Testament or the
/// Deuterocanon.
pub open spec fn scripture_code(code: BookCode) -> bool {
    let category = spec_category(code);
    category == BookCategory::OldTestament || category == BookCategory::NewTestament || category
        == BookCategory::Deuterocanon
}

/// Two segment marks can name a common part of a verse: a verse without a
/// segment is all of its segments.
pub open spec fn segments_meet(a: Option<char>, b: Option<char>) -> bool {
    a is None || b is None || a == b
}

/// Whether range `r` covers part of verse `n` in segment `segment` (all of
/// the verse when `None`). A range from a number to itself is that one
/// verse, with its segment; a longer one covers its first and last verse
/// from and to their segments and every verse between whole.
pub open spec fn range_meets(r: NumberRange, n: usize, segment: Option<char>) -> bool {
    if r.start == r.end {
        n == r.start && segments_meet(r.start_modifier, segment)
    } else {
        (n == r.start && segments_meet(r.start_modifier, segment)) || (r.start < n && n < r.end) || (
        n == r.end && segments_meet(r.end_modifier, segment))
    }
}

/// Whether two ranges cover a common part of a verse.
pub open spec fn ranges_meet(a: NumberRange, b: NumberRange) -> bool {
    if b.start == b.end {
        range_meets(a, b.start, b.start_modifier)
    } else {
        range_meets(a, b.start, b.start_modifier) || range_meets(a, b.end, b.end_modifier) || (b.start
            < b.end && b.end - b.start >= 2 && a.start <= a.end && a.start < b.end && b.start < a.end)
    }
}

/// Whether a verse repeats part of one already covered.
pub open spec fn repeats_verse(covered: Seq<NumberRange>, ranges: Seq<NumberRange>) -> bool {
    exists|i: int, j: int|
        0 <= i < covered.len() && 0 <= j < ranges.len() && ranges_meet(#[trigger] covered[i], #[trigger] ranges[j])
}

/// Whether a verse starts lower than the previous one ended.
pub open spec fn before_previous(last_end: Option<usize>, ranges: Seq<NumberRange>) -> bool {
    last_end is Some && ranges.len() > 0 && ranges[0].start < last_end->0
}

/// What a verse has to say where the walk meets it.
pub open spec fn verse_findings(st: VerseState, v: VerseStart, in_char: bool, heading: bool) -> Seq<Finding> {
    let ranges = v.number.ranges@;
    (if in_char {
        seq![(Code::VerseInCharacterStyle, v.span)]
    } else {
        seq![]
    }) + (if heading {
        seq![(Code::VerseInHeading, v.span)]
    } else {
        seq![]
    }) + (if !st.in_chapter {
        seq![(Code::VerseOutsideChapter, v.span)]
    } else {
        seq![]
    }) + if repeats_verse(st.covered, ranges) {
        seq![(Code::DuplicateVerseNumber, v.span)]
    } else if before_previous(st.last_end, ranges) {
        seq![(Code::VerseOutOfOrder, v.span)]
    } else {
        seq![]
    }
}

/// The walk after a verse.
pub open spec fn verse_next(st: VerseState, v: VerseStart) -> VerseState {
    let ranges = v.number.ranges@;
    VerseState {
        covered: st.covered + ranges,
        last_end: if ranges.len() > 0 {
            Some(ranges.last().end)
        } else {
            st.last_end
        },
        ..st
    }
}

/// The verse findings in an inline node, and the walk after it; `in_char`
/// when it is inside a character style, `heading` when its paragraph is a
/// title or a heading.
pub open spec fn inline_verses(st: VerseState, node: Inline, in_char: bool, heading: bool) -> (Seq<Finding>, VerseState)
    decreases node, 0nat,
{
    match node {
        Inline::VerseStart(v) => (verse_findings(st, v, in_char, heading), verse_next(st, v)),
        Inline::Char(c) => inlines_verses(st, c.children@, c.children@.len(), true, heading),
        Inline::Note(x) => inlines_verses(st, x.children@, x.children@.len(), in_char, heading),
        _ => (seq![], st),
    }
}

/// The verse findings in the first `k` nodes of a list, and the walk after
/// them.
pub open spec fn inlines_verses(st: VerseState, nodes: Seq<Inline>, k: nat, in_char: bool, heading: bool) -> (Seq<Finding>, VerseState)
    decreases nodes, k,
{
    if k == 0 || k > nodes.len() {
        (seq![], st)
    } else {
        let before = inlines_verses(st, nodes, (k - 1) as nat, in_char, heading);
        let last = inline_verses(before.1, nodes[k - 1], in_char, heading);
        (before.0 + last.0, last.1)
    }
}

/// The verse findings in the first `k` cells of a row.
pub open spec fn cells_verses(st: VerseState, cells: Seq<TableCell>, k: nat) -> (Seq<Finding>, VerseState)
    decreases k,
{
    if k == 0 || k > cells.len() {
        (seq![], st)
    } else {
        let before = cells_verses(st, cells, (k - 1) as nat);
        let last = inlines_verses(before.1, cells[k - 1].children@, cells[k - 1].children@.len(), false, false);
        (before.0 + last.0, last.1)
    }
}

/// The verse findings in the first `k` rows of a table.
pub open spec fn rows_verses(st: VerseState, rows: Seq<TableRow>, k: nat) -> (Seq<Finding>, VerseState)
    decreases k,
{
    if k == 0 || k > rows.len() {
        (seq![], st)
    } else {
        let before = rows_verses(st, rows, (k - 1) as nat);
        let last = cells_verses(before.1, rows[k - 1].cells@, rows[k - 1].cells@.len());
        (before.0 + last.0, last.1)
    }
}

/// Whether a paragraph style is a title or a heading, the `\s5` chunk
/// marker excepted.
pub open spec fn heading_style(rule: StyleRule) -> bool {
    (rule.text_type == TextType::Title || rule.text_type == TextType::Section) && rule.marker@ != "s5"@
}

/// The verse findings in a block, and the walk after it.
pub open spec fn block_verses(sheet: StyleSheet, st: VerseState, block: Block) -> (Seq<Finding>, VerseState)
    decreases block, 0nat,
{
    match block {
        Block::Book(b) => (
            seq![],
            VerseState {
                scripture: scripture_code(b.code),
                in_chapter: false,
                covered: seq![],
                last_end: None,
            },
        ),
        Block::ChapterStart(_) => (seq![], VerseState { in_chapter: true, covered: seq![], last_end: None, ..st }),
        Block::Para(p) => {
            let rule = sheet.rules@[p.style.0 as int];
            let early = if st.scripture && !st.in_chapter && rule.text_type == TextType::VerseText {
                seq![(Code::VerseTextBeforeChapter, p.span)]
            } else {
                seq![]
            };
            let inner = inlines_verses(st, p.children@, p.children@.len(), false, heading_style(rule));
            (early + inner.0, inner.1)
        },
        Block::Table(t) => rows_verses(st, t.rows@, t.rows@.len()),
        Block::Sidebar(sb) => blocks_verses(sheet, st, sb.blocks@, sb.blocks@.len()),
        Block::Periph(pb) => blocks_verses(sheet, st, pb.blocks@, pb.blocks@.len()),
        _ => (seq![], st),
    }
}

/// The verse findings in the first `k` blocks of a list, and the walk after
/// them.
pub open spec fn blocks_verses(sheet: StyleSheet, st: VerseState, blocks: Seq<Block>, k: nat) -> (Seq<Finding>, VerseState)
    decreases blocks, k,
{
    if k == 0 || k > blocks.len() {
        (seq![], st)
    } else {
        let before = blocks_verses(sheet, st, blocks, (k - 1) as nat);
        let last = block_verses(sheet, before.1, blocks[k - 1]);
        (before.0 + last.0, last.1)
    }
}

/// Where a style may be opened, by its `OccursUnder` list: anywhere when
/// the list is empty or names the parent; otherwise not at all when the list
/// names notes only, and with a note when it names anything else.
#[derive(Debug, Clone, Copy, PartialEq, Eq, Structural)]
pub enum Placement {
    Allowed,
    NotListed,
    NotAllowed,
}

impl Placement {
    /// Whether the style may stand there, listed or not.
    pub fn is_allowed(self) -> (b: bool)
        ensures
            b == !(self is NotAllowed),
    {
        !matches!(self, Placement::NotAllowed)
    }
}

/// Whether the sheet's rule for `marker` is a note.
pub open spec fn is_note_marker(sheet: StyleSheet, marker: Seq<char>) -> bool {
    match first_index_of(sheet.rules@, marker) {
        Some(i) => sheet.rules@[i].style_type == StyleType::Note,
        None => false,
    }
}

/// Whether a list names `parent`.
pub open spec fn lists(under: Seq<String>, parent: Seq<char>) -> bool {
    exists|i: int| 0 <= i < under.len() && under[i]@ == parent
}

/// Whether every marker of a list is a note.
pub open spec fn notes_only(sheet: StyleSheet, under: Seq<String>) -> bool {
    forall|i: int| 0 <= i < under.len() ==> is_note_marker(sheet, #[trigger] under[i]@)
}

/// Where `rule` may be opened under the marker `parent`.
pub open spec fn placement_of(sheet: StyleSheet, rule: StyleRule, parent: Seq<char>) -> Placement {
    let under = rule.occurs_under@;
    if under.len() == 0 || lists(under, parent) {
        Placement::Allowed
    } else if notes_only(sheet, under) {
        Placement::NotAllowed
    } else {
        Placement::NotListed
    }
}

/// What a style opened at `span` under `parent` has to say; `None` is a
/// place the rule does not check.
pub open spec fn placed(sheet: StyleSheet, style: u32, span: Span, parent: Option<Seq<char>>) -> Seq<Finding> {
    match parent {
        None => seq![],
        Some(p) => match placement_of(sheet, sheet.rules@[style as int], p) {
            Placement::NotAllowed => seq![(Code::MarkerNotAllowedHere, span)],
            Placement::NotListed => seq![(Code::MarkerNotListedHere, span)],
            Placement::Allowed => seq![],
        },
    }
}

/// The placement findings in an inline node: `para` is the paragraph's
/// marker (`None` in a table cell), `direct` the parent a character style
/// opened here is checked against (`None` inside another character style,
/// where nesting decides, or in a cell).
pub open spec fn inline_placement(sheet: StyleSheet, node: Inline, para: Option<Seq<char>>, direct: Option<Seq<char>>) -> Seq<Finding>
    decreases node, 0nat,
{
    match node {
        Inline::Char(c) => placed(sheet, c.style.0, c.span, direct) + inlines_placement(
            sheet,
            c.children@,
            c.children@.len(),
            para,
            None,
        ),
        Inline::Note(n) => placed(sheet, n.style.0, n.span, para) + inlines_placement(
            sheet,
            n.children@,
            n.children@.len(),
            para,
            Some(marker_of(sheet, n.style.0)),
        ),
        _ => seq![],
    }
}

/// The placement findings in the first `k` nodes of a list.
pub open spec fn inlines_placement(sheet: StyleSheet, nodes: Seq<Inline>, k: nat, para: Option<Seq<char>>, direct: Option<Seq<char>>) -> Seq<Finding>
    decreases nodes, k,
{
    if k == 0 || k > nodes.len() {
        seq![]
    } else {
        inlines_placement(sheet, nodes, (k - 1) as nat, para, direct) + inline_placement(sheet, nodes[k - 1], para, direct)
    }
}

/// The placement findings in the first `k` cells of a row.
pub open spec fn cells_placement(sheet: StyleSheet, cells: Seq<TableCell>, k: nat) -> Seq<Finding>
    decreases k,
{
    if k == 0 || k > cells.len() {
        seq![]
    } else {
        cells_placement(sheet, cells, (k - 1) as nat) + inlines_placement(
            sheet,
            cells[k - 1].children@,
            cells[k - 1].children@.len(),
            None,
            None,
        )
    }
}

/// The placement findings in the first `k` rows of a table.
pub open spec fn rows_placement(sheet: StyleSheet, rows: Seq<TableRow>, k: nat) -> Seq<Finding>
    decreases k,
{
    if k == 0 || k > rows.len() {
        seq![]
    } else {
        rows_placement(sheet, rows, (k - 1) as nat) + cells_placement(sheet, rows[k - 1].cells@, rows[k - 1].cells@.len())
    }
}

/// The placement findings in a block.
pub open spec fn block_placement(sheet: StyleSheet, block: Block) -> Seq<Finding>
    decreases block, 0nat,
{
    match block {
        Block::Para(p) => {
            let m = marker_of(sheet, p.style.0);
            inlines_placement(sheet, p.children@, p.children@.len(), Some(m), Some(m))
        },
        Block::Table(t) => rows_placement(sheet, t.rows@, t.rows@.len()),
        Block::Sidebar(sb) => blocks_placement(sheet, sb.blocks@, sb.blocks@.len()),
        Block::Periph(pb) => blocks_placement(sheet, pb.blocks@, pb.blocks@.len()),
        _ => seq![],
    }
}

/// The placement findings in the first `k` blocks of a list.
pub open spec fn blocks_placement(sheet: StyleSheet, blocks: Seq<Block>, k: nat) -> Seq<Finding>
    decreases blocks, k,
{
    if k == 0 || k > blocks.len() {
        seq![]
    } else {
        blocks_placement(sheet, blocks, (k - 1) as nat) + block_placement(sheet, blocks[k - 1])
    }
}

/// Everything the checks report on a document, in the order they report it.
pub open spec fn document_findings(document: Document) -> Seq<Finding> {
    let blocks = document.blocks@;
    (if blocks.len() == 0 || !(blocks[0] is Book) {
        seq![(Code::MissingId, Span { start: 0, end: 0 })]
    } else {
        seq![]
    }) + blocks_findings(sheet_of(document), blocks, blocks.len()) + chapters_findings(
        blocks,
        blocks.len(),
    ) + blocks_verses(sheet_of(document), verse_start(), blocks, blocks.len()).0 + blocks_placement(
        sheet_of(document),
        blocks,
        blocks.len(),
    ) + (if blocks.len() == 1 && blocks[0] is Book {
        seq![(Code::EmptyBook, Span { start: document.span.end, end: document.span.end })]
    } else {
        seq![]
    })
}

/// The code and span of each diagnostic.
pub open spec fn findings_of(diagnostics: Seq<Diagnostic>) -> Seq<Finding> {
    diagnostics.map_values(|d: Diagnostic| (d.code, d.span))
}

/// The checks over a finished tree: one diagnostic per finding of
/// [`document_findings`], in that order, each with its code's severity.
pub fn analyze(document: &Document) -> (diagnostics: Vec<Diagnostic>)
    requires
        document.wf(),
    ensures
        findings_of(diagnostics@) == document_findings(*document),
        severities_match(diagnostics@),
{
    let mut out: Vec<Diagnostic> = Vec::new();
    let blocks = &document.blocks;
    let sheet: &StyleSheet = &document.style_sheet;
    let missing = blocks.len() == 0 || !matches!(blocks[0], Block::Book(_));
    if missing {
        report(&mut out, Code::MissingId, Span::synthesized(), "the document does not start with `\\id`");
    }
    proof {
        assert(findings_of(out@) =~= if blocks@.len() == 0 || !(blocks@[0] is Book) {
            seq![(Code::MissingId, Span { start: 0, end: 0 })]
        } else {
            seq![]
        });
    }
    check_blocks(sheet, blocks, &mut out);
    check_chapters(blocks, &mut out);
    let mut walk = VerseWalk { scripture: false, in_chapter: false, covered: Vec::new(), last_end: None };
    check_blocks_verses(sheet, &mut walk, blocks, &mut out);
    check_blocks_placement(sheet, blocks, &mut out);
    if blocks.len() == 1 && matches!(blocks[0], Block::Book(_)) {
        report(&mut out, Code::EmptyBook, Span::empty(document.span.end), "the book has nothing after its `\\id` line");
    }
    assert(findings_of(out@) =~= document_findings(*document));
    out
}

/// Append one diagnostic.
fn report(out: &mut Vec<Diagnostic>, code: Code, span: Span, message: &str)
    requires
        severities_match(old(out)@),
    ensures
        findings_of(final(out)@) == findings_of(old(out)@).push((code, span)),
        severities_match(final(out)@),
{
    out.push(Diagnostic::new(code, span, message.to_owned()));
    assert(findings_of(out@) =~= findings_of(old(out)@).push((code, span)));
}

/// The severities of a list match their codes.
pub open spec fn severities_match(diagnostics: Seq<Diagnostic>) -> bool {
    forall|i: int|
        0 <= i < diagnostics.len() ==> (#[trigger] diagnostics[i]).severity
            == crate::diagnostics::code_severity(diagnostics[i].code)
}

fn is_name_start(c: char) -> (b: bool)
    ensures
        b == name_start(c),
{
    ('A' <= c && c <= 'Z') || ('a' <= c && c <= 'z') || c == '_'
}

fn is_name_char(c: char) -> (b: bool)
    ensures
        b == name_char(c),
{
    is_name_start(c) || ('0' <= c && c <= '9') || c == '-' || c == '.'
}

/// Whether `name` is an attribute name as USFM spells one.
pub fn is_well_formed_name(name: &str) -> (b: bool)
    ensures
        b == well_formed_name(name@),
{
    let chars = str_chars(name);
    if chars.len() == 0 || !is_name_start(chars[0]) {
        return false;
    }
    let mut i: usize = 1;
    while i < chars.len()
        invariant
            1 <= i <= chars@.len(),
            chars@ == name@,
            forall|j: int| 1 <= j < i ==> name_char(#[trigger] chars@[j]),
        decreases chars@.len() - i,
    {
        if !is_name_char(chars[i]) {
            return false;
        }
        i = i + 1;
    }
    true
}

/// Whether pair `k` repeats the name of an earlier pair.
fn repeats(pairs: &Vec<Attribute>, k: usize) -> (b: bool)
    requires
        k < pairs@.len(),
    ensures
        b == repeats_earlier(pairs@, k as int),
{
    let name = pairs[k].name.as_str();
    let mut j: usize = 0;
    while j < k
        invariant
            j <= k,
            k < pairs@.len(),
            name@ == pairs@[k as int].name@,
            forall|i: int| 0 <= i < j ==> pairs@[i].name@ != name@,
        decreases k - j,
    {
        if str_eq(pairs[j].name.as_str(), name) {
            return true;
        }
        j = j + 1;
    }
    false
}

/// Whether a list holds a bare value.
fn holds_bare_value(pairs: &Vec<Attribute>) -> (b: bool)
    ensures
        b == has_bare_value(pairs@),
{
    let mut i: usize = 0;
    while i < pairs.len()
        invariant
            i <= pairs@.len(),
            forall|j: int| 0 <= j < i ==> pairs@[j].name@.len() != 0,
        decreases pairs@.len() - i,
    {
        if pairs[i].name.as_str().is_empty() {
            return true;
        }
        i = i + 1;
    }
    false
}

fn check_attributes(attributes: &Option<Attributes>, milestone: bool, out: &mut Vec<Diagnostic>)
    requires
        severities_match(old(out)@),
    ensures
        severities_match(final(out)@),
        findings_of(final(out)@) == findings_of(old(out)@) + attribute_findings(*attributes, milestone),
{
    let ghost start = findings_of(out@);
    match attributes {
        None => {},
        Some(a) => {
            if a.pairs.len() == 0 {
                if milestone {
                    report(out, Code::EmptyMilestoneAttributeList, a.pipe, "a milestone's attribute list is empty");
                } else {
                    report(out, Code::EmptyAttributeList, a.pipe, "the attribute list is empty");
                }
            } else {
                let pairs = &a.pairs;
                if pairs.len() > 1 && holds_bare_value(pairs) {
                    report(out, Code::DefaultAttributeWithOthers, a.pipe, "a bare value stands beside named attributes");
                }
                let ghost head = findings_of(out@);
                let mut k: usize = 0;
                while k < pairs.len()
                    invariant
                        k <= pairs@.len(),
                        severities_match(out@),
                        findings_of(out@) == head + pairs_findings(pairs@, k as nat),
                    decreases pairs@.len() - k,
                {
                    let name = pairs[k].name.as_str();
                    if !name.is_empty() && !is_well_formed_name(name) {
                        report(out, Code::MalformedAttributeName, pairs[k].span, "the attribute name is not a name");
                    }
                    if repeats(pairs, k) {
                        report(out, Code::DuplicateAttribute, pairs[k].span, "an attribute is given twice");
                    }
                    assert(findings_of(out@) =~= head + pairs_findings(pairs@, (k + 1) as nat));
                    k = k + 1;
                }
            }
        },
    }
    assert(findings_of(out@) =~= start + attribute_findings(*attributes, milestone));
}

fn check_inline(sheet: &StyleSheet, node: &Inline, out: &mut Vec<Diagnostic>)
    requires
        inline_styles_below(*node, sheet.rules@.len()),
        severities_match(old(out)@),
    ensures
        severities_match(final(out)@),
        findings_of(final(out)@) == findings_of(old(out)@) + inline_findings(*sheet, *node),
    decreases node,
{
    let ghost start = findings_of(out@);
    match node {
        Inline::Char(c) => {
            let word = str_eq(sheet.rules[c.style.0 as usize].marker.as_str(), "w");
            if word && c.attributes.is_some() && c.children.len() == 0 {
                report(out, Code::EmptyWord, c.span, "`\\w` has attributes but no word");
            }
            let ghost mid = findings_of(out@);
            check_attributes(&c.attributes, false, out);
            proof {
                lemma_inline_styles(c.children@, sheet.rules@.len());
            }
            check_inlines(sheet, &c.children, out);
        },
        Inline::Note(x) => {
            proof {
                lemma_inline_styles(x.children@, sheet.rules@.len());
            }
            check_inlines(sheet, &x.children, out);
        },
        Inline::Milestone(m) => check_attributes(&m.attributes, true, out),
        _ => {},
    }
    assert(findings_of(out@) =~= start + inline_findings(*sheet, *node));
}

fn check_inlines(sheet: &StyleSheet, nodes: &Vec<Inline>, out: &mut Vec<Diagnostic>)
    requires
        inlines_styles_below(nodes@, sheet.rules@.len()),
        severities_match(old(out)@),
    ensures
        severities_match(final(out)@),
        findings_of(final(out)@) == findings_of(old(out)@) + inlines_findings(*sheet, nodes@, nodes@.len()),
    decreases nodes,
{
    let ghost start = findings_of(out@);
    let mut k: usize = 0;
    while k < nodes.len()
        invariant
            k <= nodes@.len(),
            inlines_styles_below(nodes@, sheet.rules@.len()),
            severities_match(out@),
            findings_of(out@) == start + inlines_findings(*sheet, nodes@, k as nat),
        decreases nodes@.len() - k,
    {
        assert(inline_styles_below(nodes@[k as int], sheet.rules@.len()));
        proof {
            assert(decreases_to!(nodes => nodes@));
            assert(decreases_to!(nodes@ => nodes@[k as int]));
        }
        check_inline(sheet, &nodes[k], out);
        assert(findings_of(out@) =~= start + inlines_findings(*sheet, nodes@, (k + 1) as nat));
        k = k + 1;
    }
}

fn check_cells(sheet: &StyleSheet, cells: &Vec<TableCell>, out: &mut Vec<Diagnostic>)
    requires
        forall|c: int|
            0 <= c < cells@.len() ==> inlines_styles_below(
                (#[trigger] cells@[c]).children@,
                sheet.rules@.len(),
            ),
        severities_match(old(out)@),
    ensures
        severities_match(final(out)@),
        findings_of(final(out)@) == findings_of(old(out)@) + cells_findings(*sheet, cells@, cells@.len()),
{
    let ghost start = findings_of(out@);
    let mut k: usize = 0;
    while k < cells.len()
        invariant
            k <= cells@.len(),
            forall|c: int|
                0 <= c < cells@.len() ==> inlines_styles_below(
                    (#[trigger] cells@[c]).children@,
                    sheet.rules@.len(),
                ),
            severities_match(out@),
            findings_of(out@) == start + cells_findings(*sheet, cells@, k as nat),
        decreases cells@.len() - k,
    {
        let cell = &cells[k];
        let expected_ok = if k == 0 {
            cell.column == 1
        } else {
            let before = &cells[k - 1];
            match before.column.checked_add(before.colspan) {
                Some(expected) => cell.column == expected,
                None => false,
            }
        };
        if !expected_ok {
            report(out, Code::UnexpectedTableColumn, cell.span, "the cell names an unexpected column");
        }
        assert(inlines_styles_below(cells@[k as int].children@, sheet.rules@.len()));
        check_inlines(sheet, &cell.children, out);
        assert(findings_of(out@) =~= start + cells_findings(*sheet, cells@, (k + 1) as nat));
        k = k + 1;
    }
}

fn check_block(sheet: &StyleSheet, block: &Block, out: &mut Vec<Diagnostic>)
    requires
        block_styles_below(*block, sheet.rules@.len()),
        severities_match(old(out)@),
    ensures
        severities_match(final(out)@),
        findings_of(final(out)@) == findings_of(old(out)@) + block_findings(*sheet, *block),
    decreases block,
{
    let ghost start = findings_of(out@);
    match block {
        Block::Para(p) => check_inlines(sheet, &p.children, out),
        Block::Table(t) => {
            let ghost rows = t.rows@.map_values(|r: crate::ast::TableRow| r.cells@);
            let mut k: usize = 0;
            while k < t.rows.len()
                invariant
                    k <= t.rows@.len(),
                    rows == t.rows@.map_values(|r: crate::ast::TableRow| r.cells@),
                    block_styles_below(Block::Table(*t), sheet.rules@.len()),
                    severities_match(out@),
                    findings_of(out@) == start + rows_findings(*sheet, rows, k as nat),
                decreases t.rows@.len() - k,
            {
                let row = &t.rows[k];
                assert(t.rows[k as int] == *row);
                assert(forall|c: int|
                    0 <= c < row.cells@.len() ==> inlines_styles_below(
                        (#[trigger] row.cells@[c]).children@,
                        sheet.rules@.len(),
                    )) by {
                    assert forall|c: int| 0 <= c < row.cells@.len() implies inlines_styles_below(
                        (#[trigger] row.cells@[c]).children@,
                        sheet.rules@.len(),
                    ) by {
                        assert(row.cells[c] == row.cells@[c]);
                    }
                }
                check_cells(sheet, &row.cells, out);
                assert(rows[k as int] == row.cells@);
                assert(findings_of(out@) =~= start + rows_findings(*sheet, rows, (k + 1) as nat));
                k = k + 1;
            }
        },
        Block::Milestone(m) => check_attributes(&m.attributes, true, out),
        Block::Sidebar(sb) => {
            proof {
                lemma_block_styles(sb.blocks@, sheet.rules@.len());
            }
            check_blocks(sheet, &sb.blocks, out);
        },
        Block::Periph(pb) => {
            check_attributes(&pb.attributes, false, out);
            proof {
                lemma_block_styles(pb.blocks@, sheet.rules@.len());
            }
            check_blocks(sheet, &pb.blocks, out);
        },
        _ => {},
    }
    assert(findings_of(out@) =~= start + block_findings(*sheet, *block));
}

fn check_blocks(sheet: &StyleSheet, blocks: &Vec<Block>, out: &mut Vec<Diagnostic>)
    requires
        blocks_styles_below(blocks@, sheet.rules@.len()),
        severities_match(old(out)@),
    ensures
        severities_match(final(out)@),
        findings_of(final(out)@) == findings_of(old(out)@) + blocks_findings(*sheet, blocks@, blocks@.len()),
    decreases blocks,
{
    let ghost start = findings_of(out@);
    let mut k: usize = 0;
    while k < blocks.len()
        invariant
            k <= blocks@.len(),
            blocks_styles_below(blocks@, sheet.rules@.len()),
            severities_match(out@),
            findings_of(out@) == start + blocks_findings(*sheet, blocks@, k as nat),
        decreases blocks@.len() - k,
    {
        let ghost before = findings_of(out@);
        match &blocks[k] {
            Block::Book(b) => {
                if k > 0 {
                    report(out, Code::IdNotFirst, b.span, "`\\id` is not the first line");
                }
                if matches!(b.code, BookCode::Other(_)) {
                    report(out, Code::UnlistedBookCode, b.span, "the book code is not one of the listed books");
                }
            },
            _ => {},
        }
        assert(findings_of(out@) =~= before + book_findings(blocks@[k as int], k as int));
        assert(block_styles_below(blocks@[k as int], sheet.rules@.len()));
        proof {
            assert(decreases_to!(blocks => blocks@));
            assert(decreases_to!(blocks@ => blocks@[k as int]));
        }
        check_block(sheet, &blocks[k], out);
        assert(findings_of(out@) =~= start + blocks_findings(*sheet, blocks@, (k + 1) as nat));
        k = k + 1;
    }
}

fn check_chapters(blocks: &Vec<Block>, out: &mut Vec<Diagnostic>)
    requires
        severities_match(old(out)@),
    ensures
        severities_match(final(out)@),
        findings_of(final(out)@) == findings_of(old(out)@) + chapters_findings(blocks@, blocks@.len()),
{
    let ghost start = findings_of(out@);
    let mut seen: Vec<usize> = Vec::new();
    let mut last: Option<usize> = None;
    let mut k: usize = 0;
    while k < blocks.len()
        invariant
            k <= blocks@.len(),
            severities_match(out@),
            (seen@, last) == chapter_state(blocks@, k as nat),
            findings_of(out@) == start + chapters_findings(blocks@, k as nat),
        decreases blocks@.len() - k,
    {
        let ghost before = findings_of(out@);
        match &blocks[k] {
            Block::Book(_) => {
                seen = Vec::new();
                last = None;
            },
            Block::ChapterStart(c) => {
                let mut repeated = false;
                let mut j: usize = 0;
                while j < seen.len()
                    invariant
                        j <= seen@.len(),
                        repeated == exists|i: int| 0 <= i < j && seen@[i] == c.number,
                    decreases seen@.len() - j,
                {
                    if seen[j] == c.number {
                        repeated = true;
                    }
                    j = j + 1;
                }
                assert(repeated == seen@.contains(c.number));
                if repeated {
                    report(out, Code::DuplicateChapterNumber, c.span, "the chapter number is used twice in the book");
                } else {
                    match last {
                        Some(previous) => {
                            if c.number < previous {
                                report(out, Code::ChapterOutOfOrder, c.span, "the chapter is numbered lower than the one before it");
                            }
                        },
                        None => {},
                    }
                }
                seen.push(c.number);
                last = Some(c.number);
            },
            _ => {},
        }
        assert(findings_of(out@) =~= start + chapters_findings(blocks@, (k + 1) as nat));
        k = k + 1;
    }
}

/// The verse walk's state, as the checks carry it.
pub struct VerseWalk {
    pub scripture: bool,
    pub in_chapter: bool,
    pub covered: Vec<NumberRange>,
    pub last_end: Option<usize>,
}

/// The state a walk stands for.
pub open spec fn walk_state(w: VerseWalk) -> VerseState {
    VerseState { scripture: w.scripture, in_chapter: w.in_chapter, covered: w.covered@, last_end: w.last_end }
}

fn meets_range(r: &NumberRange, n: usize, segment: Option<char>) -> (b: bool)
    ensures
        b == range_meets(*r, n, segment),
{
    let start_meets = n == r.start && (r.start_modifier.is_none() || segment.is_none() || r.start_modifier == segment);
    if r.start == r.end {
        start_meets
    } else {
        start_meets || (r.start < n && n < r.end) || (n == r.end && (r.end_modifier.is_none()
            || segment.is_none() || r.end_modifier == segment))
    }
}

fn meet(a: &NumberRange, b: &NumberRange) -> (m: bool)
    ensures
        m == ranges_meet(*a, *b),
{
    if b.start == b.end {
        meets_range(a, b.start, b.start_modifier)
    } else {
        meets_range(a, b.start, b.start_modifier) || meets_range(a, b.end, b.end_modifier) || (b.start
            < b.end && b.end - b.start >= 2 && a.start <= a.end && a.start < b.end && b.start < a.end)
    }
}

/// Whether a verse repeats part of one the chapter already covers.
fn repeats_covered(covered: &Vec<NumberRange>, ranges: &Vec<NumberRange>) -> (b: bool)
    ensures
        b == repeats_verse(covered@, ranges@),
{
    let mut i: usize = 0;
    while i < covered.len()
        invariant
            i <= covered@.len(),
            forall|x: int, y: int|
                0 <= x < i && 0 <= y < ranges@.len() ==> !ranges_meet(#[trigger] covered@[x], #[trigger] ranges@[y]),
        decreases covered@.len() - i,
    {
        let mut j: usize = 0;
        while j < ranges.len()
            invariant
                i < covered@.len(),
                j <= ranges@.len(),
                forall|x: int, y: int|
                    0 <= x < i && 0 <= y < ranges@.len() ==> !ranges_meet(#[trigger] covered@[x], #[trigger] ranges@[y]),
                forall|y: int| 0 <= y < j ==> !ranges_meet(covered@[i as int], #[trigger] ranges@[y]),
            decreases ranges@.len() - j,
        {
            if meet(&covered[i], &ranges[j]) {
                assert(ranges_meet(covered@[i as int], ranges@[j as int]));
                return true;
            }
            j = j + 1;
        }
        i = i + 1;
    }
    false
}

fn check_verse(w: &mut VerseWalk, v: &VerseStart, in_char: bool, heading: bool, out: &mut Vec<Diagnostic>)
    requires
        severities_match(old(out)@),
    ensures
        severities_match(final(out)@),
        findings_of(final(out)@) == findings_of(old(out)@) + verse_findings(walk_state(*old(w)), *v, in_char, heading),
        walk_state(*final(w)) == verse_next(walk_state(*old(w)), *v),
{
    let ghost start = findings_of(out@);
    let ghost st = walk_state(*w);
    let ranges = &v.number.ranges;
    if in_char {
        report(out, Code::VerseInCharacterStyle, v.span, "a verse starts inside a character style");
    }
    if heading {
        report(out, Code::VerseInHeading, v.span, "a verse starts in a title or heading");
    }
    if !w.in_chapter {
        report(out, Code::VerseOutsideChapter, v.span, "a verse comes before any chapter");
    }
    if repeats_covered(&w.covered, ranges) {
        report(out, Code::DuplicateVerseNumber, v.span, "the verse number is already used in the chapter");
    } else {
        match w.last_end {
            Some(end) => {
                if ranges.len() > 0 && ranges[0].start < end {
                    report(out, Code::VerseOutOfOrder, v.span, "the verse is numbered lower than the one before it");
                }
            },
            None => {},
        }
    }
    assert(findings_of(out@) =~= start + verse_findings(st, *v, in_char, heading));
    let mut k: usize = 0;
    let ghost covered = w.covered@;
    while k < ranges.len()
        invariant
            k <= ranges@.len(),
            w.scripture == st.scripture,
            w.in_chapter == st.in_chapter,
            w.last_end == st.last_end,
            w.covered@ == st.covered + ranges@.subrange(0, k as int),
        decreases ranges@.len() - k,
    {
        w.covered.push(ranges[k]);
        assert(ranges@.subrange(0, (k + 1) as int) =~= ranges@.subrange(0, k as int).push(ranges@[k as int]));
        k = k + 1;
    }
    assert(ranges@.subrange(0, ranges@.len() as int) =~= ranges@);
    if ranges.len() > 0 {
        w.last_end = Some(ranges[ranges.len() - 1].end);
    }
    assert(walk_state(*w) =~= verse_next(st, *v));
}

fn check_inline_verses(w: &mut VerseWalk, node: &Inline, in_char: bool, heading: bool, out: &mut Vec<Diagnostic>)
    requires
        severities_match(old(out)@),
    ensures
        severities_match(final(out)@),
        findings_of(final(out)@) == findings_of(old(out)@) + inline_verses(walk_state(*old(w)), *node, in_char, heading).0,
        walk_state(*final(w)) == inline_verses(walk_state(*old(w)), *node, in_char, heading).1,
    decreases node,
{
    let ghost start = findings_of(out@);
    match node {
        Inline::VerseStart(v) => check_verse(w, v, in_char, heading, out),
        Inline::Char(c) => check_inlines_verses(w, &c.children, true, heading, out),
        Inline::Note(x) => check_inlines_verses(w, &x.children, in_char, heading, out),
        _ => {},
    }
    assert(findings_of(out@) =~= start + inline_verses(walk_state(*old(w)), *node, in_char, heading).0);
}

fn check_inlines_verses(w: &mut VerseWalk, nodes: &Vec<Inline>, in_char: bool, heading: bool, out: &mut Vec<Diagnostic>)
    requires
        severities_match(old(out)@),
    ensures
        severities_match(final(out)@),
        findings_of(final(out)@) == findings_of(old(out)@) + inlines_verses(walk_state(*old(w)), nodes@, nodes@.len(), in_char, heading).0,
        walk_state(*final(w)) == inlines_verses(walk_state(*old(w)), nodes@, nodes@.len(), in_char, heading).1,
    decreases nodes,
{
    let ghost start = findings_of(out@);
    let ghost st = walk_state(*w);
    let mut k: usize = 0;
    while k < nodes.len()
        invariant
            k <= nodes@.len(),
            severities_match(out@),
            findings_of(out@) == start + inlines_verses(st, nodes@, k as nat, in_char, heading).0,
            walk_state(*w) == inlines_verses(st, nodes@, k as nat, in_char, heading).1,
        decreases nodes@.len() - k,
    {
        proof {
            assert(decreases_to!(nodes => nodes@));
            assert(decreases_to!(nodes@ => nodes@[k as int]));
        }
        check_inline_verses(w, &nodes[k], in_char, heading, out);
        assert(findings_of(out@) =~= start + inlines_verses(st, nodes@, (k + 1) as nat, in_char, heading).0);
        k = k + 1;
    }
}

fn check_table_verses(w: &mut VerseWalk, rows: &Vec<TableRow>, out: &mut Vec<Diagnostic>)
    requires
        severities_match(old(out)@),
    ensures
        severities_match(final(out)@),
        findings_of(final(out)@) == findings_of(old(out)@) + rows_verses(walk_state(*old(w)), rows@, rows@.len()).0,
        walk_state(*final(w)) == rows_verses(walk_state(*old(w)), rows@, rows@.len()).1,
{
    let ghost start = findings_of(out@);
    let ghost st = walk_state(*w);
    let mut k: usize = 0;
    while k < rows.len()
        invariant
            k <= rows@.len(),
            severities_match(out@),
            findings_of(out@) == start + rows_verses(st, rows@, k as nat).0,
            walk_state(*w) == rows_verses(st, rows@, k as nat).1,
        decreases rows@.len() - k,
    {
        let cells = &rows[k].cells;
        let ghost row_start = findings_of(out@);
        let ghost row_st = walk_state(*w);
        let mut c: usize = 0;
        while c < cells.len()
            invariant
                c <= cells@.len(),
                severities_match(out@),
                findings_of(out@) == row_start + cells_verses(row_st, cells@, c as nat).0,
                walk_state(*w) == cells_verses(row_st, cells@, c as nat).1,
            decreases cells@.len() - c,
        {
            check_inlines_verses(w, &cells[c].children, false, false, out);
            assert(findings_of(out@) =~= row_start + cells_verses(row_st, cells@, (c + 1) as nat).0);
            c = c + 1;
        }
        assert(rows@[k as int].cells@ == cells@);
        assert(findings_of(out@) =~= start + rows_verses(st, rows@, (k + 1) as nat).0);
        k = k + 1;
    }
}

fn check_block_verses(sheet: &StyleSheet, w: &mut VerseWalk, block: &Block, out: &mut Vec<Diagnostic>)
    requires
        block_styles_below(*block, sheet.rules@.len()),
        severities_match(old(out)@),
    ensures
        severities_match(final(out)@),
        findings_of(final(out)@) == findings_of(old(out)@) + block_verses(*sheet, walk_state(*old(w)), *block).0,
        walk_state(*final(w)) == block_verses(*sheet, walk_state(*old(w)), *block).1,
    decreases block,
{
    let ghost start = findings_of(out@);
    let ghost st = walk_state(*w);
    match block {
        Block::Book(b) => {
            w.scripture = b.code.is_old_testament() || b.code.is_new_testament() || b.code.is_deuterocanon();
            w.in_chapter = false;
            w.covered = Vec::new();
            w.last_end = None;
            assert(walk_state(*w) =~= block_verses(*sheet, st, *block).1);
        },
        Block::ChapterStart(_) => {
            w.in_chapter = true;
            w.covered = Vec::new();
            w.last_end = None;
            assert(walk_state(*w) =~= block_verses(*sheet, st, *block).1);
        },
        Block::Para(p) => {
            let rule = &sheet.rules[p.style.0 as usize];
            if w.scripture && !w.in_chapter && rule.text_type == TextType::VerseText {
                report(out, Code::VerseTextBeforeChapter, p.span, "a verse-text paragraph comes before the first chapter");
            }
            let heading = (rule.text_type == TextType::Title || rule.text_type == TextType::Section) && !str_eq(rule.marker.as_str(), "s5");
            check_inlines_verses(w, &p.children, false, heading, out);
        },
        Block::Table(t) => check_table_verses(w, &t.rows, out),
        Block::Sidebar(sb) => {
            proof {
                lemma_block_styles(sb.blocks@, sheet.rules@.len());
            }
            check_blocks_verses(sheet, w, &sb.blocks, out);
        },
        Block::Periph(pb) => {
            proof {
                lemma_block_styles(pb.blocks@, sheet.rules@.len());
            }
            check_blocks_verses(sheet, w, &pb.blocks, out);
        },
        _ => {},
    }
    assert(findings_of(out@) =~= start + block_verses(*sheet, st, *block).0);
}

fn check_blocks_verses(sheet: &StyleSheet, w: &mut VerseWalk, blocks: &Vec<Block>, out: &mut Vec<Diagnostic>)
    requires
        blocks_styles_below(blocks@, sheet.rules@.len()),
        severities_match(old(out)@),
    ensures
        severities_match(final(out)@),
        findings_of(final(out)@) == findings_of(old(out)@) + blocks_verses(*sheet, walk_state(*old(w)), blocks@, blocks@.len()).0,
        walk_state(*final(w)) == blocks_verses(*sheet, walk_state(*old(w)), blocks@, blocks@.len()).1,
    decreases blocks,
{
    let ghost start = findings_of(out@);
    let ghost st = walk_state(*w);
    let mut k: usize = 0;
    while k < blocks.len()
        invariant
            k <= blocks@.len(),
            blocks_styles_below(blocks@, sheet.rules@.len()),
            severities_match(out@),
            findings_of(out@) == start + blocks_verses(*sheet, st, blocks@, k as nat).0,
            walk_state(*w) == blocks_verses(*sheet, st, blocks@, k as nat).1,
        decreases blocks@.len() - k,
    {
        assert(block_styles_below(blocks@[k as int], sheet.rules@.len()));
        proof {
            assert(decreases_to!(blocks => blocks@));
            assert(decreases_to!(blocks@ => blocks@[k as int]));
        }
        check_block_verses(sheet, w, &blocks[k], out);
        assert(findings_of(out@) =~= start + blocks_verses(*sheet, st, blocks@, (k + 1) as nat).0);
        k = k + 1;
    }
}

/// Whether the sheet's rule for `marker` is a note.
fn note_marker(sheet: &StyleSheet, marker: &str) -> (b: bool)
    ensures
        b == is_note_marker(*sheet, marker@),
{
    match sheet.get_marker_index(marker) {
        Some(i) => {
            proof {
                lemma_first_index(sheet.rules@, marker@, i as int);
            }
            matches!(sheet.rules[i].style_type, StyleType::Note)
        },
        None => false,
    }
}

/// The first rule with a marker is the one [`first_index_of`] names.
pub proof fn lemma_first_index(rules: Seq<StyleRule>, m: Seq<char>, i: int)
    requires
        0 <= i < rules.len(),
        rules[i].marker@ == m,
        forall|j: int| 0 <= j < i ==> rules[j].marker@ != m,
    ensures
        first_index_of(rules, m) == Some(i),
{
    let c = choose|k: int|
        0 <= k < rules.len() && rules[k].marker@ == m && forall|j: int| 0 <= j < k ==> rules[j].marker@ != m;
    assert(0 <= c < rules.len() && rules[c].marker@ == m);
    if c < i {
        assert(rules[c].marker@ != m);
    } else if i < c {
        assert(rules[i].marker@ != m);
    }
}

/// Where `rule` may be opened under the marker `parent`.
pub fn placement(sheet: &StyleSheet, rule: &StyleRule, parent: &str) -> (p: Placement)
    ensures
        p == placement_of(*sheet, *rule, parent@),
{
    let under = &rule.occurs_under;
    if under.len() == 0 {
        return Placement::Allowed;
    }
    let mut i: usize = 0;
    while i < under.len()
        invariant
            i <= under@.len(),
            under == &rule.occurs_under,
            forall|j: int| 0 <= j < i ==> under@[j]@ != parent@,
        decreases under@.len() - i,
    {
        if str_eq(under[i].as_str(), parent) {
            assert(0 <= i < under@.len() && under@[i as int]@ == parent@);
            assert(lists(under@, parent@));
            return Placement::Allowed;
        }
        i = i + 1;
    }
    let mut k: usize = 0;
    while k < under.len()
        invariant
            k <= under@.len(),
            under == &rule.occurs_under,
            under@.len() > 0,
            !lists(under@, parent@),
            forall|j: int| 0 <= j < k ==> is_note_marker(*sheet, #[trigger] under@[j]@),
        decreases under@.len() - k,
    {
        if !note_marker(sheet, under[k].as_str()) {
            assert(!is_note_marker(*sheet, under@[k as int]@));
            assert(!notes_only(*sheet, under@));
            return Placement::NotListed;
        }
        k = k + 1;
    }
    Placement::NotAllowed
}

/// Report where a style opened at `span` stands, if `parent` is checked.
fn check_placed(sheet: &StyleSheet, style: u32, span: Span, parent: Option<&str>, out: &mut Vec<Diagnostic>)
    requires
        style < sheet.rules@.len(),
        severities_match(old(out)@),
    ensures
        severities_match(final(out)@),
        findings_of(final(out)@) == findings_of(old(out)@) + placed(
            *sheet,
            style,
            span,
            match parent {
                Some(p) => Some(p@),
                None => None,
            },
        ),
{
    let ghost start = findings_of(out@);
    match parent {
        None => {},
        Some(p) => match placement(sheet, &sheet.rules[style as usize], p) {
            Placement::NotAllowed => report(out, Code::MarkerNotAllowedHere, span, "the marker may not stand here"),
            Placement::NotListed => report(out, Code::MarkerNotListedHere, span, "the marker is not listed under its parent"),
            Placement::Allowed => {},
        },
    }
    assert(findings_of(out@) =~= start + placed(
        *sheet,
        style,
        span,
        match parent {
            Some(p) => Some(p@),
            None => None,
        },
    ));
}

/// An optional string as an optional text.
pub open spec fn opt_view(o: Option<&str>) -> Option<Seq<char>> {
    match o {
        Some(p) => Some(p@),
        None => None,
    }
}

fn check_inline_placement(sheet: &StyleSheet, node: &Inline, para: Option<&str>, direct: Option<&str>, out: &mut Vec<Diagnostic>)
    requires
        inline_styles_below(*node, sheet.rules@.len()),
        severities_match(old(out)@),
    ensures
        severities_match(final(out)@),
        findings_of(final(out)@) == findings_of(old(out)@) + inline_placement(*sheet, *node, opt_view(para), opt_view(direct)),
    decreases node,
{
    let ghost start = findings_of(out@);
    match node {
        Inline::Char(c) => {
            check_placed(sheet, c.style.0, c.span, direct, out);
            proof {
                lemma_inline_styles(c.children@, sheet.rules@.len());
            }
            check_inlines_placement(sheet, &c.children, para, None, out);
        },
        Inline::Note(n) => {
            check_placed(sheet, n.style.0, n.span, para, out);
            proof {
                lemma_inline_styles(n.children@, sheet.rules@.len());
            }
            let m = sheet.rules[n.style.0 as usize].marker.as_str();
            check_inlines_placement(sheet, &n.children, para, Some(m), out);
        },
        _ => {},
    }
    assert(findings_of(out@) =~= start + inline_placement(*sheet, *node, opt_view(para), opt_view(direct)));
}

fn check_inlines_placement(sheet: &StyleSheet, nodes: &Vec<Inline>, para: Option<&str>, direct: Option<&str>, out: &mut Vec<Diagnostic>)
    requires
        inlines_styles_below(nodes@, sheet.rules@.len()),
        severities_match(old(out)@),
    ensures
        severities_match(final(out)@),
        findings_of(final(out)@) == findings_of(old(out)@) + inlines_placement(*sheet, nodes@, nodes@.len(), opt_view(para), opt_view(direct)),
    decreases nodes,
{
    let ghost start = findings_of(out@);
    let mut k: usize = 0;
    while k < nodes.len()
        invariant
            k <= nodes@.len(),
            inlines_styles_below(nodes@, sheet.rules@.len()),
            severities_match(out@),
            findings_of(out@) == start + inlines_placement(*sheet, nodes@, k as nat, opt_view(para), opt_view(direct)),
        decreases nodes@.len() - k,
    {
        assert(inline_styles_below(nodes@[k as int], sheet.rules@.len()));
        proof {
            assert(decreases_to!(nodes => nodes@));
            assert(decreases_to!(nodes@ => nodes@[k as int]));
        }
        check_inline_placement(sheet, &nodes[k], para, direct, out);
        assert(findings_of(out@) =~= start + inlines_placement(*sheet, nodes@, (k + 1) as nat, opt_view(para), opt_view(direct)));
        k = k + 1;
    }
}

fn check_table_placement(sheet: &StyleSheet, t: &Table, out: &mut Vec<Diagnostic>)
    requires
        block_styles_below(Block::Table(*t), sheet.rules@.len()),
        severities_match(old(out)@),
    ensures
        severities_match(final(out)@),
        findings_of(final(out)@) == findings_of(old(out)@) + rows_placement(*sheet, t.rows@, t.rows@.len()),
{
    let ghost start = findings_of(out@);
    let rows = &t.rows;
    let mut k: usize = 0;
    while k < rows.len()
        invariant
            k <= rows@.len(),
            rows == &t.rows,
            block_styles_below(Block::Table(*t), sheet.rules@.len()),
            severities_match(out@),
            findings_of(out@) == start + rows_placement(*sheet, rows@, k as nat),
        decreases rows@.len() - k,
    {
        let cells = &rows[k].cells;
        assert(t.rows[k as int].cells@ == cells@);
        let ghost row_start = findings_of(out@);
        let mut c: usize = 0;
        while c < cells.len()
            invariant
                c <= cells@.len(),
                k < rows@.len(),
                rows == &t.rows,
                cells == &rows@[k as int].cells,
                block_styles_below(Block::Table(*t), sheet.rules@.len()),
                severities_match(out@),
                findings_of(out@) == row_start + cells_placement(*sheet, cells@, c as nat),
            decreases cells@.len() - c,
        {
            assert(inlines_styles_below(t.rows[k as int].cells[c as int].children@, sheet.rules@.len()));
            check_inlines_placement(sheet, &cells[c].children, None, None, out);
            assert(findings_of(out@) =~= row_start + cells_placement(*sheet, cells@, (c + 1) as nat));
            c = c + 1;
        }
        assert(findings_of(out@) =~= start + rows_placement(*sheet, rows@, (k + 1) as nat));
        k = k + 1;
    }
}

fn check_block_placement(sheet: &StyleSheet, block: &Block, out: &mut Vec<Diagnostic>)
    requires
        block_styles_below(*block, sheet.rules@.len()),
        severities_match(old(out)@),
    ensures
        severities_match(final(out)@),
        findings_of(final(out)@) == findings_of(old(out)@) + block_placement(*sheet, *block),
    decreases block,
{
    let ghost start = findings_of(out@);
    match block {
        Block::Para(p) => {
            let m = sheet.rules[p.style.0 as usize].marker.as_str();
            check_inlines_placement(sheet, &p.children, Some(m), Some(m), out);
        },
        Block::Table(t) => check_table_placement(sheet, t, out),
        Block::Sidebar(sb) => {
            proof {
                lemma_block_styles(sb.blocks@, sheet.rules@.len());
            }
            check_blocks_placement(sheet, &sb.blocks, out);
        },
        Block::Periph(pb) => {
            proof {
                lemma_block_styles(pb.blocks@, sheet.rules@.len());
            }
            check_blocks_placement(sheet, &pb.blocks, out);
        },
        _ => {},
    }
    assert(findings_of(out@) =~= start + block_placement(*sheet, *block));
}

fn check_blocks_placement(sheet: &StyleSheet, blocks: &Vec<Block>, out: &mut Vec<Diagnostic>)
    requires
        blocks_styles_below(blocks@, sheet.rules@.len()),
        severities_match(old(out)@),
    ensures
        severities_match(final(out)@),
        findings_of(final(out)@) == findings_of(old(out)@) + blocks_placement(*sheet, blocks@, blocks@.len()),
    decreases blocks,
{
    let ghost start = findings_of(out@);
    let mut k: usize = 0;
    while k < blocks.len()
        invariant
            k <= blocks@.len(),
            blocks_styles_below(blocks@, sheet.rules@.len()),
            severities_match(out@),
            findings_of(out@) == start + blocks_placement(*sheet, blocks@, k as nat),
        decreases blocks@.len() - k,
    {
        assert(block_styles_below(blocks@[k as int], sheet.rules@.len()));
        proof {
            assert(decreases_to!(blocks => blocks@));
            assert(decreases_to!(blocks@ => blocks@[k as int]));
        }
        check_block_placement(sheet, &blocks[k], out);
        assert(findings_of(out@) =~= start + blocks_placement(*sheet, blocks@, (k + 1) as nat));
        k = k + 1;
    }
}

} // verus!
