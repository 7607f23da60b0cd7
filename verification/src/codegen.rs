//! The tree as USFM text.
//!
//! One line per block and one spelling per construct: the spelling the
//! parser reads back to the same tree. A marker is written from the
//! document's own stylesheet. A character style inside another is written
//! with `\+`; a verse or chapter end is written as nothing, since the parser
//! puts it back. Inside a note the closing marker of a note-internal style is
//! left out where the next style of the note, or the note's own end, closes
//! it, which is how every USFM writer spells a note.
//!
//! Text is written as it is but for three rewrites, the ones the parser
//! undoes: `\` as `\\`, `|` as `\|`, and a no-break space as `~`. A quoted
//! attribute value escapes `\` and `"`. The default (unnamed) attribute is
//! written bare, and nothing separates it from the pair after it: any
//! separator is already in its value.
use vstd::prelude::*;
use crate::ast::{
    all_block_styles_below, all_inline_styles_below, block_styles_below, blocks_styles_below,
    inline_styles_below, inlines_styles_below, lemma_block_styles, lemma_inline_styles, Alignment,
    Attribute, Attributes, Block, Caller, Char, ChapterStart, Document, Inline, Milestone, Note,
    Para, Periph, Sidebar, Table, TableCell, TableRow, Text, VerseStart,
};
use crate::book::{code_text, Book, BookCode};
use crate::eq::sheet_of;
use crate::number::{decimal, push_decimal, NumberList};
use crate::strings::{push_char, push_str, str_chars};
use crate::style::{StyleSheet, StyleType, TextType};

verus! {

/// One character of running text as the writer spells it.
pub open spec fn text_char(c: char) -> Seq<char> {
    if c == '\\' {
        "\\\\"@
    } else if c == '|' {
        "\\|"@
    } else if c == '\u{a0}' {
        "~"@
    } else {
        seq![c]
    }
}

/// Running text as the writer spells it.
pub open spec fn text_spelling(s: Seq<char>) -> Seq<char>
    decreases s.len(),
{
    if s.len() == 0 {
        seq![]
    } else {
        text_spelling(s.drop_last()) + text_char(s.last())
    }
}

/// One character of a quoted attribute value as the writer spells it.
pub open spec fn value_char(c: char) -> Seq<char> {
    if c == '\\' {
        "\\\\"@
    } else if c == '"' {
        "\\\""@
    } else {
        seq![c]
    }
}

/// A quoted attribute value's content as the writer spells it.
pub open spec fn value_spelling(s: Seq<char>) -> Seq<char>
    decreases s.len(),
{
    if s.len() == 0 {
        seq![]
    } else {
        value_spelling(s.drop_last()) + value_char(s.last())
    }
}

/// One attribute: bare for the default one, `name="value"` otherwise.
pub open spec fn pair_spelling(pair: Attribute) -> Seq<char> {
    if pair.name@.len() == 0 {
        pair.value@
    } else {
        pair.name@ + "=\""@ + value_spelling(pair.value@) + "\""@
    }
}

/// The first `k` attributes, a space after each named one that another
/// follows.
pub open spec fn pairs_spelling(pairs: Seq<Attribute>, k: nat) -> Seq<char>
    decreases k,
{
    if k == 0 {
        seq![]
    } else {
        pairs_spelling(pairs, (k - 1) as nat) + (if k >= 2 && pairs[k - 2].name@.len() > 0 {
            seq![' ']
        } else {
            seq![]
        }) + pair_spelling(pairs[k - 1])
    }
}

/// An attribute list: `|` and its pairs.
pub open spec fn attributes_spelling(attributes: Attributes) -> Seq<char> {
    seq!['|'] + pairs_spelling(attributes.pairs@, attributes.pairs@.len())
}

/// A number list, or nothing for an empty one.
pub open spec fn number_spelling(number: NumberList) -> Seq<char> {
    if number.ranges@.len() > 0 {
        number.text()
    } else {
        seq![]
    }
}

/// A book code's three characters.
pub open spec fn code_spelling(code: BookCode) -> Seq<char> {
    match code {
        BookCode::Other(b) => seq![b[0] as char, b[1] as char, b[2] as char],
        _ => code_text(code),
    }
}

/// `+`, `-` or the custom caller.
pub open spec fn caller_spelling(caller: Caller) -> Seq<char> {
    match caller {
        Caller::Plus => "+"@,
        Caller::Minus => "-"@,
        Caller::Custom(c) => c@,
    }
}

/// The marker a style resolves to.
pub open spec fn marker_of(sheet: StyleSheet, style: u32) -> Seq<char> {
    sheet.rules@[style as int].marker@
}

/// `\marker`, or `\+marker` for a nested one.
pub open spec fn opening(marker: Seq<char>, nested: bool) -> Seq<char> {
    (if nested {
        "\\+"@
    } else {
        "\\"@
    }) + marker
}

/// `\marker*`, or `\+marker*`.
pub open spec fn closing(marker: Seq<char>, nested: bool) -> Seq<char> {
    opening(marker, nested) + "*"@
}

/// Whether a style is one of the note-internal character styles.
pub open spec fn note_text_style(sheet: StyleSheet, style: u32) -> bool {
    sheet.rules@[style as int].style_type == StyleType::Character && sheet.rules@[style as int].text_type
        == TextType::NoteText
}

/// Whether child `i` of a note is written without its closing marker: a
/// note-internal style with no attribute list, followed by nothing, or by
/// another note-internal style that may not nest or is itself written
/// without one.
pub open spec fn omitted(sheet: StyleSheet, nodes: Seq<Inline>, i: int) -> bool
    decreases nodes.len() - i,
{
    if 0 <= i < nodes.len() {
        match nodes[i] {
            Inline::Char(c) => c.attributes is None && note_text_style(sheet, c.style.0) && (i + 1
                == nodes.len() || match nodes[i + 1] {
                Inline::Char(next) => note_text_style(sheet, next.style.0) && (
                !sheet.rules@[next.style.0 as int].nest || omitted(sheet, nodes, i + 1)),
                _ => false,
            }),
            _ => false,
        }
    } else {
        false
    }
}

/// A verse start: `\\v 1 \\va 2\\va* \\vp 1b\\vp* `, with the space that
/// belongs to the marker.
pub open spec fn verse_spelling(v: VerseStart) -> Seq<char> {
    "\\v "@ + number_spelling(v.number) + match v.alt_number {
        Some(a) => " \\va "@ + number_spelling(a) + "\\va*"@,
        None => seq![],
    } + match v.pub_number {
        Some(p) => " \\vp "@ + text_spelling(p@) + "\\vp*"@,
        None => seq![],
    } + " "@
}

/// An inline node as USFM; `in_char` says whether it stands directly in a
/// character style.
pub open spec fn inline_spelling(sheet: StyleSheet, node: Inline, in_char: bool) -> Seq<char>
    decreases node, 0nat,
{
    match node {
        Inline::Text(t) => text_spelling(t.content@),
        Inline::VerseStart(v) => verse_spelling(v),
        Inline::VerseEnd(_) => seq![],
        Inline::Char(c) => opening(marker_of(sheet, c.style.0), in_char) + " "@ + inlines_spelling(
            sheet,
            c.children@,
            true,
            c.children@.len(),
        ) + match c.attributes {
            Some(a) => attributes_spelling(a),
            None => seq![],
        } + closing(marker_of(sheet, c.style.0), in_char),
        Inline::Note(x) => opening(marker_of(sheet, x.style.0), false) + " "@ + caller_spelling(
            x.caller,
        ) + " "@ + match x.category {
            Some(cat) => "\\cat "@ + text_spelling(cat.content@) + "\\cat*"@,
            None => seq![],
        } + note_children_spelling(sheet, x.children@, x.children@.len()) + closing(
            marker_of(sheet, x.style.0),
            false,
        ),
        Inline::Milestone(m) => opening(marker_of(sheet, m.style.0), false) + match m.attributes {
            Some(a) => " "@ + attributes_spelling(a),
            None => seq![],
        } + "\\*"@,
        Inline::OptBreak(_) => "//"@,
    }
}

/// The first `k` nodes of a list.
pub open spec fn inlines_spelling(sheet: StyleSheet, nodes: Seq<Inline>, in_char: bool, k: nat) -> Seq<char>
    decreases nodes, k,
{
    if k == 0 || k > nodes.len() {
        seq![]
    } else {
        inlines_spelling(sheet, nodes, in_char, (k - 1) as nat) + inline_spelling(
            sheet,
            nodes[k - 1],
            in_char,
        )
    }
}

/// A note-internal style written without its closing marker.
pub open spec fn open_char_spelling(sheet: StyleSheet, node: Inline) -> Seq<char>
    decreases node, 1nat,
{
    match node {
        Inline::Char(c) => opening(marker_of(sheet, c.style.0), false) + " "@ + inlines_spelling(
            sheet,
            c.children@,
            true,
            c.children@.len(),
        ) + match c.attributes {
            Some(a) => attributes_spelling(a),
            None => seq![],
        },
        _ => seq![],
    }
}

/// The first `k` children of a note.
pub open spec fn note_children_spelling(sheet: StyleSheet, nodes: Seq<Inline>, k: nat) -> Seq<char>
    decreases nodes, k,
{
    if k == 0 || k > nodes.len() {
        seq![]
    } else {
        note_children_spelling(sheet, nodes, (k - 1) as nat) + if omitted(sheet, nodes, k - 1) {
            open_char_spelling(sheet, nodes[k - 1])
        } else {
            inline_spelling(sheet, nodes[k - 1], false)
        }
    }
}

/// The last column a cell spans, at most `usize::MAX`.
pub open spec fn last_column(cell: TableCell) -> nat {
    if cell.column + cell.colspan - 1 <= usize::MAX {
        (cell.column + cell.colspan - 1) as nat
    } else {
        usize::MAX as nat
    }
}

/// A cell's marker: `\tc1`, `\thr2`, `\tc1-2`.
pub open spec fn cell_marker_spelling(cell: TableCell) -> Seq<char> {
    "\\t"@ + (if cell.header {
        "h"@
    } else {
        "c"@
    }) + match cell.alignment {
        Alignment::Start => seq![],
        Alignment::Center => "c"@,
        Alignment::End => "r"@,
    } + decimal(cell.column as nat) + if cell.colspan > 1 {
        "-"@ + decimal(last_column(cell))
    } else {
        seq![]
    }
}

/// The first `k` cells of a row.
pub open spec fn cells_spelling(sheet: StyleSheet, cells: Seq<TableCell>, k: nat) -> Seq<char>
    decreases cells, k,
{
    if k == 0 || k > cells.len() {
        seq![]
    } else {
        cells_spelling(sheet, cells, (k - 1) as nat) + " "@ + cell_marker_spelling(cells[k - 1]) + if cells[k
            - 1].children@.len() > 0 {
            " "@ + inlines_spelling(sheet, cells[k - 1].children@, false, cells[k - 1].children@.len())
        } else {
            seq![]
        }
    }
}

/// The first `k` rows of a table, one line each.
pub open spec fn rows_spelling(sheet: StyleSheet, rows: Seq<TableRow>, k: nat) -> Seq<char>
    decreases rows, k,
{
    if k == 0 || k > rows.len() {
        seq![]
    } else {
        rows_spelling(sheet, rows, (k - 1) as nat) + "\\tr"@ + cells_spelling(
            sheet,
            rows[k - 1].cells@,
            rows[k - 1].cells@.len(),
        ) + "\n"@
    }
}

/// A book line.
pub open spec fn block_spelling_of_book(b: Book) -> Seq<char> {
    "\\id "@ + code_spelling(b.code) + (if b.description@.len() > 0 {
        " "@ + text_spelling(b.description@)
    } else {
        seq![]
    }) + "\n"@
}

/// A chapter's lines: `\\c`, then `\\ca` and `\\cp` where there are any.
pub open spec fn chapter_spelling(c: ChapterStart) -> Seq<char> {
    "\\c "@ + decimal(c.number as nat) + "\n"@ + match c.alt_number {
        Some(a) => "\\ca "@ + number_spelling(a) + "\\ca*"@ + "\n"@,
        None => seq![],
    } + match c.pub_number {
        Some(p) => "\\cp "@ + p@ + "\n"@,
        None => seq![],
    }
}

/// A block as USFM: its line or lines.
pub open spec fn block_spelling(sheet: StyleSheet, block: Block) -> Seq<char>
    decreases block, 0nat,
{
    match block {
        Block::Book(b) => block_spelling_of_book(b),
        Block::ChapterStart(c) => chapter_spelling(c),
        Block::ChapterEnd(_) => seq![],
        Block::Para(p) => opening(marker_of(sheet, p.style.0), false) + (if p.children@.len() > 0 {
            " "@ + inlines_spelling(sheet, p.children@, false, p.children@.len())
        } else {
            seq![]
        }) + "\n"@,
        Block::Table(t) => rows_spelling(sheet, t.rows@, t.rows@.len()),
        Block::Milestone(m) => inline_spelling(sheet, Inline::Milestone(m), false) + "\n"@,
        Block::Sidebar(sb) => opening(marker_of(sheet, sb.style.0), false) + match sb.category {
            Some(cat) => " "@ + "\\cat "@ + text_spelling(cat.content@) + "\\cat*"@,
            None => seq![],
        } + "\n"@ + blocks_spelling(sheet, sb.blocks@, sb.blocks@.len()) + "\\esbe"@ + "\n"@,
        Block::Periph(pb) => opening(marker_of(sheet, pb.style.0), false) + match pb.title {
            Some(t) => " "@ + text_spelling(t.content@),
            None => seq![],
        } + match pb.attributes {
            Some(a) => attributes_spelling(a),
            None => seq![],
        } + "\n"@ + blocks_spelling(sheet, pb.blocks@, pb.blocks@.len()),
    }
}

/// The first `k` blocks of a list.
pub open spec fn blocks_spelling(sheet: StyleSheet, blocks: Seq<Block>, k: nat) -> Seq<char>
    decreases blocks, k,
{
    if k == 0 || k > blocks.len() {
        seq![]
    } else {
        blocks_spelling(sheet, blocks, (k - 1) as nat) + block_spelling(sheet, blocks[k - 1])
    }
}

/// The document as USFM.
pub open spec fn document_spelling(document: Document) -> Seq<char> {
    blocks_spelling(sheet_of(document), document.blocks@, document.blocks@.len())
}

/// Append running text, spelled as the writer spells it.
fn push_text(out: &mut String, text: &str)
    ensures
        final(out)@ == old(out)@ + text_spelling(text@),
{
    let chars = str_chars(text);
    let ghost start = out@;
    let mut i: usize = 0;
    assert(chars@.take(0) =~= Seq::<char>::empty());
    while i < chars.len()
        invariant
            i <= chars@.len(),
            chars@ == text@,
            out@ == start + text_spelling(chars@.take(i as int)),
        decreases chars@.len() - i,
    {
        let c = chars[i];
        if c == '\\' {
            push_str(out, "\\\\");
        } else if c == '|' {
            push_str(out, "\\|");
        } else if c == '\u{a0}' {
            push_str(out, "~");
        } else {
            push_char(out, c);
        }
        proof {
            assert(chars@.take(i + 1).drop_last() =~= chars@.take(i as int));
            assert(out@ =~= start + text_spelling(chars@.take(i + 1)));
        }
        i = i + 1;
    }
    assert(chars@.take(chars@.len() as int) =~= chars@);
}

/// Append a quoted attribute value's content.
fn push_value(out: &mut String, value: &str)
    ensures
        final(out)@ == old(out)@ + value_spelling(value@),
{
    let chars = str_chars(value);
    let ghost start = out@;
    let mut i: usize = 0;
    assert(chars@.take(0) =~= Seq::<char>::empty());
    while i < chars.len()
        invariant
            i <= chars@.len(),
            chars@ == value@,
            out@ == start + value_spelling(chars@.take(i as int)),
        decreases chars@.len() - i,
    {
        let c = chars[i];
        if c == '\\' {
            push_str(out, "\\\\");
        } else if c == '"' {
            push_str(out, "\\\"");
        } else {
            push_char(out, c);
        }
        proof {
            assert(chars@.take(i + 1).drop_last() =~= chars@.take(i as int));
            assert(out@ =~= start + value_spelling(chars@.take(i + 1)));
        }
        i = i + 1;
    }
    assert(chars@.take(chars@.len() as int) =~= chars@);
}

/// Append an attribute list.
fn push_attributes(out: &mut String, attributes: &Attributes)
    ensures
        final(out)@ == old(out)@ + attributes_spelling(*attributes),
{
    let ghost start = out@;
    let pairs = &attributes.pairs;
    push_char(out, '|');
    let mut k: usize = 0;
    while k < pairs.len()
        invariant
            k <= pairs@.len(),
            out@ == start + seq!['|'] + pairs_spelling(pairs@, k as nat),
        decreases pairs@.len() - k,
    {
        let ghost before = out@;
        if k >= 1 && !pairs[k - 1].name.as_str().is_empty() {
            push_char(out, ' ');
        }
        let pair = &pairs[k];
        if pair.name.as_str().is_empty() {
            push_str(out, pair.value.as_str());
        } else {
            push_str(out, pair.name.as_str());
            push_str(out, "=\"");
            push_value(out, pair.value.as_str());
            push_str(out, "\"");
        }
        proof {
            assert(out@ =~= start + seq!['|'] + pairs_spelling(pairs@, (k + 1) as nat));
        }
        k = k + 1;
    }
}

/// Append a number list.
pub(crate) fn push_number(out: &mut String, number: &NumberList)
    ensures
        final(out)@ == old(out)@ + number_spelling(*number),
{
    if number.ranges.len() > 0 {
        number.write(out);
    } else {
        assert(old(out)@ + number_spelling(*number) =~= old(out)@);
    }
}

/// Append a book code.
pub(crate) fn push_code(out: &mut String, code: BookCode)
    ensures
        final(out)@ == old(out)@ + code_spelling(code),
{
    match code {
        BookCode::Other(b) => {
            push_char(out, b[0] as char);
            push_char(out, b[1] as char);
            push_char(out, b[2] as char);
            assert(out@ =~= old(out)@ + code_spelling(code));
        },
        _ => {
            push_str(out, code.as_str());
        },
    }
}

/// Append `\marker` or `\+marker`.
fn push_opening(out: &mut String, marker: &str, nested: bool)
    ensures
        final(out)@ == old(out)@ + opening(marker@, nested),
{
    if nested {
        push_str(out, "\\+");
    } else {
        push_str(out, "\\");
    }
    push_str(out, marker);
    assert(out@ =~= old(out)@ + opening(marker@, nested));
}

/// Append `\marker*` or `\+marker*`.
fn push_closing(out: &mut String, marker: &str, nested: bool)
    ensures
        final(out)@ == old(out)@ + closing(marker@, nested),
{
    push_opening(out, marker, nested);
    push_str(out, "*");
    assert(out@ =~= old(out)@ + closing(marker@, nested));
}

fn marker<'s>(sheet: &'s StyleSheet, style: u32) -> (m: &'s str)
    requires
        style < sheet.rules@.len(),
    ensures
        m@ == marker_of(*sheet, style),
{
    sheet.rules[style as usize].marker.as_str()
}

/// Append an inline node.
#[verifier::spinoff_prover]
fn write_inline(sheet: &StyleSheet, node: &Inline, in_char: bool, out: &mut String)
    requires
        inline_styles_below(*node, sheet.rules@.len()),
    ensures
        final(out)@ == old(out)@ + inline_spelling(*sheet, *node, in_char),
    decreases node,
{
    let ghost start = out@;
    let ghost n = sheet.rules@.len();
    match node {
        Inline::Text(t) => push_text(out, t.content.as_str()),
        Inline::VerseStart(v) => write_verse_start(v, out),
        Inline::VerseEnd(_) => {
            assert(out@ =~= start + inline_spelling(*sheet, *node, in_char));
        },
        Inline::Char(c) => {
            write_char(sheet, c, in_char, true, out);
        },
        Inline::Note(x) => {
            write_note(sheet, x, out);
            assert(inline_spelling(*sheet, *node, in_char) == inline_spelling(*sheet, *node, false));
        },
        Inline::Milestone(ms) => write_inline_milestone(sheet, ms, out),
        Inline::OptBreak(_) => push_str(out, "//"),
    }
}


/// Append a milestone: `\\qt-s |who="God"\\*`.
fn write_inline_milestone(sheet: &StyleSheet, ms: &Milestone, out: &mut String)
    requires
        ms.style.0 < sheet.rules@.len(),
    ensures
        final(out)@ == old(out)@ + inline_spelling(*sheet, Inline::Milestone(*ms), false),
{
    let ghost start = out@;
    let m = marker(sheet, ms.style.0);
    push_opening(out, m, false);
    match &ms.attributes {
        Some(a) => {
            push_str(out, " ");
            push_attributes(out, a);
        },
        None => {},
    }
    push_str(out, "\\*");
    assert(out@ =~= start + inline_spelling(*sheet, Inline::Milestone(*ms), false));
}

#[verifier::spinoff_prover]
fn write_verse_start(v: &VerseStart, out: &mut String)
    ensures
        final(out)@ == old(out)@ + verse_spelling(*v),
{
    let ghost start = out@;
    push_str(out, "\\v ");
    push_number(out, &v.number);
    match &v.alt_number {
        Some(a) => {
            push_str(out, " \\va ");
            push_number(out, a);
            push_str(out, "\\va*");
        },
        None => {},
    }
    match &v.pub_number {
        Some(p) => {
            push_str(out, " \\vp ");
            push_text(out, p.as_str());
            push_str(out, "\\vp*");
        },
        None => {},
    }
    push_str(out, " ");
    assert(out@ =~= start + verse_spelling(*v));
}

#[verifier::spinoff_prover]
fn write_note(sheet: &StyleSheet, x: &Note, out: &mut String)
    requires
        inline_styles_below(Inline::Note(*x), sheet.rules@.len()),
    ensures
        final(out)@ == old(out)@ + inline_spelling(*sheet, Inline::Note(*x), false),
    decreases x,
{
    let ghost start = out@;
    let ghost n = sheet.rules@.len();
    let m = marker(sheet, x.style.0);
    push_opening(out, m, false);
    push_str(out, " ");
    match &x.caller {
        Caller::Plus => push_str(out, "+"),
        Caller::Minus => push_str(out, "-"),
        Caller::Custom(c) => push_str(out, c.as_str()),
    }
    push_str(out, " ");
    match &x.category {
        Some(cat) => {
            push_str(out, "\\cat ");
            push_text(out, cat.content.as_str());
            push_str(out, "\\cat*");
        },
        None => {},
    }
    proof {
        lemma_inline_styles(x.children@, n);
    }
    write_note_children(sheet, &x.children, out);
    push_closing(out, m, false);
    assert(out@ =~= start + inline_spelling(*sheet, Inline::Note(*x), false));
}

/// Append a character style, with its closing marker when `close`.
#[verifier::spinoff_prover]
fn write_char(sheet: &StyleSheet, c: &Char, in_char: bool, close: bool, out: &mut String)
    requires
        inline_styles_below(Inline::Char(*c), sheet.rules@.len()),
    ensures
        close ==> final(out)@ == old(out)@ + inline_spelling(*sheet, Inline::Char(*c), in_char),
        !close && !in_char ==> final(out)@ == old(out)@ + open_char_spelling(*sheet, Inline::Char(*c)),
    decreases c,
{
    let ghost start = out@;
    let ghost n = sheet.rules@.len();
    let m = marker(sheet, c.style.0);
    push_opening(out, m, in_char);
    push_str(out, " ");
    proof {
        lemma_inline_styles(c.children@, n);
    }
    write_inlines(sheet, &c.children, true, out);
    match &c.attributes {
        Some(a) => push_attributes(out, a),
        None => {},
    }
    let ghost before_close = out@;
    if close {
        push_closing(out, m, in_char);
    }
    proof {
        if close {
            assert(out@ =~= start + inline_spelling(*sheet, Inline::Char(*c), in_char));
        } else if !in_char {
            assert(out@ =~= start + open_char_spelling(*sheet, Inline::Char(*c)));
        }
    }
}

/// Append a list of inline nodes.
fn write_inlines(sheet: &StyleSheet, nodes: &Vec<Inline>, in_char: bool, out: &mut String)
    requires
        inlines_styles_below(nodes@, sheet.rules@.len()),
    ensures
        final(out)@ == old(out)@ + inlines_spelling(*sheet, nodes@, in_char, nodes@.len()),
    decreases nodes,
{
    let ghost start = out@;
    let mut k: usize = 0;
    while k < nodes.len()
        invariant
            k <= nodes@.len(),
            inlines_styles_below(nodes@, sheet.rules@.len()),
            out@ == start + inlines_spelling(*sheet, nodes@, in_char, k as nat),
        decreases nodes@.len() - k,
    {
        assert(inline_styles_below(nodes@[k as int], sheet.rules@.len()));
        proof {
            assert(decreases_to!(nodes => nodes@));
            assert(decreases_to!(nodes@ => nodes@[k as int]));
        }
        write_inline(sheet, &nodes[k], in_char, out);
        assert(out@ =~= start + inlines_spelling(*sheet, nodes@, in_char, (k + 1) as nat));
        k = k + 1;
    }
}

/// Which children of a note are written without their closing marker.
fn omitted_closers(sheet: &StyleSheet, nodes: &Vec<Inline>) -> (flags: Vec<bool>)
    requires
        inlines_styles_below(nodes@, sheet.rules@.len()),
    ensures
        flags@.len() == nodes@.len(),
        forall|i: int| 0 <= i < nodes@.len() ==> flags@[i] == omitted(*sheet, nodes@, i),
{
    let len = nodes.len();
    let mut flags: Vec<bool> = Vec::new();
    let mut k: usize = 0;
    while k < len
        invariant
            k <= len,
            len == nodes@.len(),
            flags@.len() == k,
        decreases len - k,
    {
        flags.push(false);
        k = k + 1;
    }
    let mut i = len;
    while i > 0
        invariant
            i <= len,
            len == nodes@.len(),
            flags@.len() == len,
            inlines_styles_below(nodes@, sheet.rules@.len()),
            forall|j: int| i <= j < len ==> flags@[j] == omitted(*sheet, nodes@, j),
        decreases i,
    {
        i = i - 1;
        assert(inline_styles_below(nodes@[i as int], sheet.rules@.len()));
        let value = match &nodes[i] {
            Inline::Char(c) => {
                if c.attributes.is_some() || !is_note_text(sheet, c.style.0) {
                    false
                } else if i + 1 == len {
                    true
                } else {
                    assert(inline_styles_below(nodes@[i + 1], sheet.rules@.len()));
                    match &nodes[i + 1] {
                        Inline::Char(next) => is_note_text(sheet, next.style.0) && (!sheet.rules[next.style.0 as usize].nest || flags[i + 1]),
                        _ => false,
                    }
                }
            },
            _ => false,
        };
        flags.set(i, value);
    }
    flags
}

fn is_note_text(sheet: &StyleSheet, style: u32) -> (b: bool)
    requires
        style < sheet.rules@.len(),
    ensures
        b == note_text_style(*sheet, style),
{
    let rule = &sheet.rules[style as usize];
    rule.style_type == StyleType::Character && rule.text_type == TextType::NoteText
}

/// Append the children of a note.
fn write_note_children(sheet: &StyleSheet, nodes: &Vec<Inline>, out: &mut String)
    requires
        inlines_styles_below(nodes@, sheet.rules@.len()),
    ensures
        final(out)@ == old(out)@ + note_children_spelling(*sheet, nodes@, nodes@.len()),
    decreases nodes,
{
    let flags = omitted_closers(sheet, nodes);
    let ghost start = out@;
    let mut k: usize = 0;
    while k < nodes.len()
        invariant
            k <= nodes@.len(),
            flags@.len() == nodes@.len(),
            forall|i: int| 0 <= i < nodes@.len() ==> flags@[i] == omitted(*sheet, nodes@, i),
            inlines_styles_below(nodes@, sheet.rules@.len()),
            out@ == start + note_children_spelling(*sheet, nodes@, k as nat),
        decreases nodes@.len() - k,
    {
        assert(inline_styles_below(nodes@[k as int], sheet.rules@.len()));
        proof {
            assert(decreases_to!(nodes => nodes@));
            assert(decreases_to!(nodes@ => nodes@[k as int]));
        }
        let ghost before = out@;
        match &nodes[k] {
            Inline::Char(c) => {
                if flags[k] {
                    proof {
                        assert(decreases_to!(nodes@[k as int] => *c));
                    }
                    write_char(sheet, c, false, false, out);
                } else {
                    write_inline(sheet, &nodes[k], false, out);
                }
            },
            _ => {
                write_inline(sheet, &nodes[k], false, out);
            },
        }
        assert(out@ =~= start + note_children_spelling(*sheet, nodes@, (k + 1) as nat));
        k = k + 1;
    }
}

/// Append a cell's marker.
fn push_cell_marker(out: &mut String, cell: &TableCell)
    ensures
        final(out)@ == old(out)@ + cell_marker_spelling(*cell),
{
    let ghost start = out@;
    push_str(out, "\\t");
    if cell.header {
        push_str(out, "h");
    } else {
        push_str(out, "c");
    }
    match cell.alignment {
        Alignment::Start => {},
        Alignment::Center => push_str(out, "c"),
        Alignment::End => push_str(out, "r"),
    }
    push_decimal(out, cell.column);
    if cell.colspan > 1 {
        push_str(out, "-");
        let last = match cell.column.checked_add(cell.colspan - 1) {
            Some(last) => last,
            None => usize::MAX,
        };
        push_decimal(out, last);
    }
    assert(out@ =~= start + cell_marker_spelling(*cell));
}

/// Append a table row and its line break.
#[verifier::spinoff_prover]
fn write_row(sheet: &StyleSheet, row: &TableRow, out: &mut String)
    requires
        forall|c: int|
            0 <= c < row.cells.len() ==> inlines_styles_below(
                (#[trigger] row.cells[c]).children@,
                sheet.rules@.len(),
            ),
    ensures
        final(out)@ == old(out)@ + "\\tr"@ + cells_spelling(*sheet, row.cells@, row.cells@.len()) + "\n"@,
{
    let ghost start = out@;
    push_str(out, "\\tr");
    let cells = &row.cells;
    let mut k: usize = 0;
    while k < cells.len()
        invariant
            k <= cells@.len(),
            cells == &row.cells,
            forall|c: int|
                0 <= c < row.cells.len() ==> inlines_styles_below(
                    (#[trigger] row.cells[c]).children@,
                    sheet.rules@.len(),
                ),
            out@ == start + "\\tr"@ + cells_spelling(*sheet, cells@, k as nat),
        decreases cells@.len() - k,
    {
        let cell = &cells[k];
        assert(inlines_styles_below(row.cells[k as int].children@, sheet.rules@.len()));
        push_str(out, " ");
        push_cell_marker(out, cell);
        if cell.children.len() > 0 {
            push_str(out, " ");
            write_inlines(sheet, &cell.children, false, out);
        }
        assert(out@ =~= start + "\\tr"@ + cells_spelling(*sheet, cells@, (k + 1) as nat));
        k = k + 1;
    }
    push_str(out, "\n");
}

#[verifier::spinoff_prover]
fn write_book(b: &Book, out: &mut String)
    ensures
        final(out)@ == old(out)@ + block_spelling_of_book(*b),
{
    let ghost start = out@;
    push_str(out, "\\id ");
    push_code(out, b.code);
    if !b.description.as_str().is_empty() {
        push_str(out, " ");
        push_text(out, b.description.as_str());
    }
    push_str(out, "\n");
    assert(out@ =~= start + block_spelling_of_book(*b));
}

#[verifier::spinoff_prover]
fn write_chapter_start(c: &ChapterStart, out: &mut String)
    ensures
        final(out)@ == old(out)@ + chapter_spelling(*c),
{
    let ghost start = out@;
    push_str(out, "\\c ");
    push_decimal(out, c.number);
    push_str(out, "\n");
    match &c.alt_number {
        Some(a) => {
            push_str(out, "\\ca ");
            push_number(out, a);
            push_str(out, "\\ca*");
            push_str(out, "\n");
        },
        None => {},
    }
    match &c.pub_number {
        Some(p) => {
            push_str(out, "\\cp ");
            push_str(out, p.as_str());
            push_str(out, "\n");
        },
        None => {},
    }
    assert(out@ =~= start + chapter_spelling(*c));
}

#[verifier::spinoff_prover]
fn write_para(sheet: &StyleSheet, p: &Para, out: &mut String)
    requires
        block_styles_below(Block::Para(*p), sheet.rules@.len()),
    ensures
        final(out)@ == old(out)@ + block_spelling(*sheet, Block::Para(*p)),
{
    let ghost start = out@;
    let m = marker(sheet, p.style.0);
    push_opening(out, m, false);
    if p.children.len() > 0 {
        push_str(out, " ");
        write_inlines(sheet, &p.children, false, out);
    }
    push_str(out, "\n");
    assert(out@ =~= start + block_spelling(*sheet, Block::Para(*p)));
}

#[verifier::spinoff_prover]
fn write_table(sheet: &StyleSheet, t: &Table, out: &mut String)
    requires
        block_styles_below(Block::Table(*t), sheet.rules@.len()),
    ensures
        final(out)@ == old(out)@ + rows_spelling(*sheet, t.rows@, t.rows@.len()),
{
    let ghost start = out@;
    let rows = &t.rows;
    let mut k: usize = 0;
    while k < rows.len()
        invariant
            k <= rows@.len(),
            rows == &t.rows,
            block_styles_below(Block::Table(*t), sheet.rules@.len()),
            out@ == start + rows_spelling(*sheet, rows@, k as nat),
        decreases rows@.len() - k,
    {
        let row = &rows[k];
        assert(t.rows[k as int] == *row);
        write_row(sheet, row, out);
        assert(out@ =~= start + rows_spelling(*sheet, rows@, (k + 1) as nat));
        k = k + 1;
    }
}

#[verifier::spinoff_prover]
fn write_sidebar(sheet: &StyleSheet, sb: &Sidebar, out: &mut String)
    requires
        block_styles_below(Block::Sidebar(*sb), sheet.rules@.len()),
    ensures
        final(out)@ == old(out)@ + block_spelling(*sheet, Block::Sidebar(*sb)),
    decreases sb,
{
    let ghost start = out@;
    let m = marker(sheet, sb.style.0);
    push_opening(out, m, false);
    match &sb.category {
        Some(cat) => {
            push_str(out, " ");
            push_str(out, "\\cat ");
            push_text(out, cat.content.as_str());
            push_str(out, "\\cat*");
        },
        None => {},
    }
    push_str(out, "\n");
    proof {
        lemma_block_styles(sb.blocks@, sheet.rules@.len());
    }
    write_blocks(sheet, &sb.blocks, out);
    push_str(out, "\\esbe");
    push_str(out, "\n");
    assert(out@ =~= start + block_spelling(*sheet, Block::Sidebar(*sb)));
}

#[verifier::spinoff_prover]
fn write_periph(sheet: &StyleSheet, pb: &Periph, out: &mut String)
    requires
        block_styles_below(Block::Periph(*pb), sheet.rules@.len()),
    ensures
        final(out)@ == old(out)@ + block_spelling(*sheet, Block::Periph(*pb)),
    decreases pb,
{
    let ghost start = out@;
    let m = marker(sheet, pb.style.0);
    push_opening(out, m, false);
    match &pb.title {
        Some(t) => {
            push_str(out, " ");
            push_text(out, t.content.as_str());
        },
        None => {},
    }
    match &pb.attributes {
        Some(a) => push_attributes(out, a),
        None => {},
    }
    push_str(out, "\n");
    proof {
        lemma_block_styles(pb.blocks@, sheet.rules@.len());
    }
    write_blocks(sheet, &pb.blocks, out);
    assert(out@ =~= start + block_spelling(*sheet, Block::Periph(*pb)));
}

/// Append the lines of a block.
#[verifier::spinoff_prover]
fn write_block(sheet: &StyleSheet, block: &Block, out: &mut String)
    requires
        block_styles_below(*block, sheet.rules@.len()),
    ensures
        final(out)@ == old(out)@ + block_spelling(*sheet, *block),
    decreases block,
{
    let ghost start = out@;
    match block {
        Block::Book(b) => write_book(b, out),
        Block::ChapterStart(c) => write_chapter_start(c, out),
        Block::ChapterEnd(_) => {
            assert(out@ =~= start + block_spelling(*sheet, *block));
        },
        Block::Para(p) => write_para(sheet, p, out),
        Block::Table(t) => write_table(sheet, t, out),
        Block::Milestone(ms) => {
            write_inline_milestone(sheet, ms, out);
            push_str(out, "\n");
            assert(out@ =~= start + block_spelling(*sheet, *block));
        },
        Block::Sidebar(sb) => write_sidebar(sheet, sb, out),
        Block::Periph(pb) => write_periph(sheet, pb, out),
    }
}

/// Append a list of blocks.
fn write_blocks(sheet: &StyleSheet, blocks: &Vec<Block>, out: &mut String)
    requires
        blocks_styles_below(blocks@, sheet.rules@.len()),
    ensures
        final(out)@ == old(out)@ + blocks_spelling(*sheet, blocks@, blocks@.len()),
    decreases blocks,
{
    let ghost start = out@;
    let mut k: usize = 0;
    while k < blocks.len()
        invariant
            k <= blocks@.len(),
            blocks_styles_below(blocks@, sheet.rules@.len()),
            out@ == start + blocks_spelling(*sheet, blocks@, k as nat),
        decreases blocks@.len() - k,
    {
        assert(block_styles_below(blocks@[k as int], sheet.rules@.len()));
        proof {
            assert(decreases_to!(blocks => blocks@));
            assert(decreases_to!(blocks@ => blocks@[k as int]));
        }
        write_block(sheet, &blocks[k], out);
        assert(out@ =~= start + blocks_spelling(*sheet, blocks@, (k + 1) as nat));
        k = k + 1;
    }
}

/// The document as USFM text: one line per block, in the spelling the
/// parser reads back to the same tree. Every block that writes anything ends
/// its line, so the text ends with a newline unless nothing was written.
pub fn to_usfm_string(document: &Document) -> (text: String)
    requires
        document.wf(),
    ensures
        text@ == document_spelling(*document),
{
    let mut out = String::new();
    let sheet: &StyleSheet = &document.style_sheet;
    write_blocks(sheet, &document.blocks, &mut out);
    assert(out@ =~= document_spelling(*document));
    out
}

/// `std::fmt::Error`, what a sink returns when it cannot take more text.
#[verifier::external_type_specification]
#[verifier::external_body]
pub struct ExFmtError(std::fmt::Error);

/// Hands `text` to the sink with one call of `std::fmt::Write::write_str`.
/// Whether the sink takes it or fails is the sink's own affair, so nothing is
/// stated of the result.
#[verifier::external_body]
pub(crate) fn write_to_sink<W: std::fmt::Write>(sink: &mut W, text: &str) -> (result: Result<(), std::fmt::Error>) {
    sink.write_str(text)
}

/// [`to_usfm_string`] into a caller's sink. The text handed to the sink is
/// exactly [`document_spelling`]; the sink's error, if it fails, is returned.
pub fn write_usfm<W: std::fmt::Write>(document: &Document, out: &mut W) -> (result: Result<(), std::fmt::Error>)
    requires
        document.wf(),
{
    let text = to_usfm_string(document);
    write_to_sink(out, text.as_str())
}

/// Empty, or ending with a line break.
pub open spec fn ends_line(text: Seq<char>) -> bool {
    text.len() == 0 || text.last() == '\n'
}

/// Text that ends a line, with more text after it that ends a line, still
/// ends a line; and text followed by a line break ends one.
proof fn lemma_ends_line_append(a: Seq<char>, b: Seq<char>)
    requires
        ends_line(a) || ends_line(b) && b.len() > 0,
        ends_line(b),
    ensures
        ends_line(a + b),
{
    if b.len() > 0 {
        assert((a + b).last() == b.last());
    } else {
        assert(a + b =~= a);
    }
}

/// Whatever comes before it, a text followed by a line break ends a line.
proof fn lemma_newline_ends_line(a: Seq<char>)
    ensures
        ends_line(a + "\n"@),
{
    reveal_strlit("\n");
    assert((a + "\n"@).last() == '\n');
}

/// Every block's spelling is empty or ends its last line.
proof fn lemma_block_ends_line(sheet: StyleSheet, block: Block)
    ensures
        ends_line(block_spelling(sheet, block)),
    decreases block, 0nat,
{
    reveal_strlit("\n");
    match block {
        Block::Book(b) => {
            let head = "\\id "@ + code_spelling(b.code) + (if b.description@.len() > 0 {
                " "@ + text_spelling(b.description@)
            } else {
                seq![]
            });
            lemma_newline_ends_line(head);
        },
        Block::ChapterStart(c) => {
            let first = "\\c "@ + decimal(c.number as nat) + "\n"@;
            lemma_newline_ends_line("\\c "@ + decimal(c.number as nat));
            let alt = match c.alt_number {
                Some(a) => "\\ca "@ + number_spelling(a) + "\\ca*"@ + "\n"@,
                None => seq![],
            };
            match c.alt_number {
                Some(a) => lemma_newline_ends_line("\\ca "@ + number_spelling(a) + "\\ca*"@),
                None => {},
            }
            lemma_ends_line_append(first, alt);
            let published = match c.pub_number {
                Some(p) => "\\cp "@ + p@ + "\n"@,
                None => seq![],
            };
            match c.pub_number {
                Some(p) => lemma_newline_ends_line("\\cp "@ + p@),
                None => {},
            }
            lemma_ends_line_append(first + alt, published);
            assert(chapter_spelling(c) == first + alt + published);
        },
        Block::ChapterEnd(_) => {},
        Block::Para(p) => {
            lemma_newline_ends_line(opening(marker_of(sheet, p.style.0), false) + (if p.children@.len() > 0 {
                " "@ + inlines_spelling(sheet, p.children@, false, p.children@.len())
            } else {
                seq![]
            }));
        },
        Block::Table(t) => {
            let k = t.rows@.len();
            if k > 0 {
                lemma_newline_ends_line(rows_spelling(sheet, t.rows@, (k - 1) as nat) + "\\tr"@
                    + cells_spelling(sheet, t.rows@[k - 1].cells@, t.rows@[k - 1].cells@.len()));
            }
        },
        Block::Milestone(m) => {
            lemma_newline_ends_line(inline_spelling(sheet, Inline::Milestone(m), false));
        },
        Block::Sidebar(sb) => {
            lemma_newline_ends_line(opening(marker_of(sheet, sb.style.0), false) + match sb.category {
                Some(cat) => " "@ + "\\cat "@ + text_spelling(cat.content@) + "\\cat*"@,
                None => seq![],
            } + "\n"@ + blocks_spelling(sheet, sb.blocks@, sb.blocks@.len()) + "\\esbe"@);
        },
        Block::Periph(pb) => {
            let head = opening(marker_of(sheet, pb.style.0), false) + match pb.title {
                Some(t) => " "@ + text_spelling(t.content@),
                None => seq![],
            } + match pb.attributes {
                Some(a) => attributes_spelling(a),
                None => seq![],
            };
            lemma_newline_ends_line(head);
            lemma_blocks_end_line(sheet, pb.blocks@, pb.blocks@.len());
            lemma_ends_line_append(head + "\n"@, blocks_spelling(sheet, pb.blocks@, pb.blocks@.len()));
        },
    }
}

/// The spelling of the first `k` blocks of a list is empty or ends its last
/// line.
proof fn lemma_blocks_end_line(sheet: StyleSheet, blocks: Seq<Block>, k: nat)
    ensures
        ends_line(blocks_spelling(sheet, blocks, k)),
    decreases blocks, k,
{
    if k > 0 && k <= blocks.len() {
        lemma_blocks_end_line(sheet, blocks, (k - 1) as nat);
        lemma_block_ends_line(sheet, blocks[k - 1]);
        lemma_ends_line_append(
            blocks_spelling(sheet, blocks, (k - 1) as nat),
            block_spelling(sheet, blocks[k - 1]),
        );
    }
}

/// The text of a document ends with a line break, unless it is empty: every
/// block that writes anything ends its line.
pub proof fn law_text_ends_with_a_line_break(document: Document)
    ensures
        ends_line(document_spelling(document)),
{
    lemma_blocks_end_line(sheet_of(document), document.blocks@, document.blocks@.len());
}

} // verus!
