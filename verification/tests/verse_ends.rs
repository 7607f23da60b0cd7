use usfm::ast::{Block, Document, Inline};
use usfm::parser::Parser;
use usfm::sheet::default_stylesheet;

fn render(source: &str) -> String {
    let document = Parser::new(source).parse(&default_stylesheet()).document;
    let mut out = String::new();
    blocks(&document, &document.blocks, "", &mut out);
    out.trim_end().to_string()
}

fn blocks(document: &Document, list: &[Block], indent: &str, out: &mut String) {
    for block in list {
        out.push_str(indent);
        match block {
            Block::Book(book) => out.push_str(&format!("id {:?}\n", book.code)),
            Block::ChapterStart(c) => out.push_str(&format!("c{}\n", c.number)),
            Block::ChapterEnd(c) => out.push_str(&format!("/c{}\n", c.number)),
            Block::Milestone(m) => out.push_str(&format!("ms {}\n", document.marker(m.style))),
            Block::Para(para) => {
                out.push_str(&format!("{}:", document.marker(para.style)));
                inlines(document, &para.children, out);
                out.push('\n');
            }
            Block::Table(table) => {
                for row in &table.rows {
                    out.push_str(indent);
                    out.push_str("tr:");
                    for cell in &row.cells {
                        out.push_str(" [");
                        inlines(document, &cell.children, out);
                        out.push_str(" ]");
                    }
                    out.push('\n');
                }
            }
            Block::Sidebar(sidebar) => {
                out.push_str("esb:\n");
                blocks(document, &sidebar.blocks, &format!("{indent}  "), out);
            }
            Block::Periph(periph) => {
                out.push_str("periph:\n");
                blocks(document, &periph.blocks, &format!("{indent}  "), out);
            }
        }
    }
}

fn inlines(document: &Document, list: &[Inline], out: &mut String) {
    for inline in list {
        out.push(' ');
        match inline {
            Inline::Text(text) => out.push_str(&format!("{:?}", text.content)),
            Inline::VerseStart(v) => out.push_str(&format!("v{}", v.number.to_string())),
            Inline::VerseEnd(v) => out.push_str(&format!("/{}", v.number.to_string())),
            Inline::Char(char) => {
                out.push_str(&format!("({}", document.marker(char.style)));
                inlines(document, &char.children, out);
                out.push(')');
            }
            Inline::Note(note) => {
                out.push_str(&format!("{{{}", document.marker(note.style)));
                inlines(document, &note.children, out);
                out.push('}');
            }
            Inline::Milestone(m) => out.push_str(&format!("ms {}", document.marker(m.style))),
            Inline::OptBreak(_) => out.push_str("//"),
        }
    }
}

fn check(source: &str, expected: &str) {
    assert_eq!(render(source), expected.trim(), "source:\n{source}");
}

#[test]
fn the_next_verse_in_the_same_paragraph_ends_the_verse_before_it() {
    check(
        "\\id GEN\n\\c 1\n\\p \\v 1 In the beginning \\v 2 the earth",
        r#"
id Gen
c1
p: v1 "In the beginning" /1 " " v2 "the earth" /2
/c1"#,
    );
}

#[test]
fn a_verse_starting_a_paragraph_ends_the_verse_before_at_the_end_of_the_previous_paragraph() {
    check(
        "\\id GEN\n\\c 1\n\\p \\v 1 In the beginning\n\\q1 \\v 2 the earth",
        r#"
id Gen
c1
p: v1 "In the beginning" /1
q1: v2 "the earth" /2
/c1"#,
    );
}

#[test]
fn a_verse_crossing_paragraphs_ends_in_the_last_one() {
    check(
        "\\id GEN\n\\c 1\n\\p \\v 1 In the\n\\q1 beginning\n\\q2 God\n\\p \\v 2 the earth",
        r#"
id Gen
c1
p: v1 "In the"
q1: "beginning"
q2: "God" /1
p: v2 "the earth" /2
/c1"#,
    );
}

#[test]
fn a_heading_never_holds_a_verse_end() {
    check(
        "\\id GEN\n\\c 1\n\\p \\v 1 In the beginning\n\\s Heading\n\\r (Luke 1)\n\\p \\v 2 the earth",
        r#"
id Gen
c1
p: v1 "In the beginning" /1
s: "Heading"
r: "(Luke 1)"
p: v2 "the earth" /2
/c1"#,
    );
}

#[test]
fn a_verse_starting_inside_a_non_verse_text_paragraph_ends_the_previous_verse_before_it() {
    check(
        "\\id PSA\n\\c 1\n\\p \\v 1 In the beginning\n\\lit Glory: \\v 2 the earth",
        r#"
id Psa
c1
p: v1 "In the beginning" /1
lit: "Glory: " v2 "the earth" /2
/c1"#,
    );
    check(
        "\\id PSA\n\\c 1\n\\lit \\v 1 Glory: \\v 2 the earth",
        r#"
id Psa
c1
lit: v1 "Glory:" /1 " " v2 "the earth" /2
/c1"#,
    );
}

#[test]
fn a_verse_starting_a_character_style_ends_the_previous_verse_before_the_style() {
    check(
        "\\id GEN\n\\c 1\n\\p \\v 1 In the \\nd \\v 2 Lord\\nd* said",
        r#"
id Gen
c1
p: v1 "In the" /1 " " (nd v2 "Lord") " said" /2
/c1"#,
    );
    check(
        "\\id GEN\n\\c 1\n\\p \\v 1 In the \\nd Lord \\v 2 God\\nd* said",
        r#"
id Gen
c1
p: v1 "In the " (nd "Lord" /1 " " v2 "God") " said" /2
/c1"#,
    );
}

#[test]
fn a_note_directly_before_the_next_verse_leaves_no_space() {
    check(
        "\\id GEN\n\\c 1\n\\p \\v 1 In the beginning\\f + \\ft note\\f*\\v 2 the earth",
        r#"
id Gen
c1
p: v1 "In the beginning" {f (ft "note")} /1 v2 "the earth" /2
/c1"#,
    );
}

#[test]
fn verses_in_tables_end_in_the_previous_cell() {
    check(
        "\\id NUM\n\\c 1\n\\p \\v 1 The count\n\\tr \\tc1 \\v 2 Reuben \\tc2 46,500\n\\tr \\tc1 \\v 3 Simeon \\v 4 Gad \\tc2 59,300\n\\p \\v 5 After",
        r#"
id Num
c1
p: v1 "The count" /1
tr: [ v2 "Reuben" ] [ "46,500" /2 ]
tr: [ v3 "Simeon" /3 " " v4 "Gad" ] [ "59,300" /4 ]
p: v5 "After" /5
/c1"#,
    );
}

#[test]
fn a_chapter_boundary_ends_the_open_verse_and_chapter() {
    check(
        "\\id GEN\n\\c 1\n\\p \\v 1 In the beginning\n\\s Heading\n\\c 2\n\\p \\v 1 The heavens",
        r#"
id Gen
c1
p: v1 "In the beginning" /1
s: "Heading"
/c1
c2
p: v1 "The heavens" /1
/c2"#,
    );
}

#[test]
fn a_sidebar_neither_ends_nor_holds_a_verse() {
    check(
        "\\id GEN\n\\c 1\n\\p \\v 1 In the beginning\n\\esb\n\\p Aside \\v 9 stray\n\\esbe\n\\p God \\v 2 the earth",
        r#"
id Gen
c1
p: v1 "In the beginning"
esb:
  p: "Aside " v9 "stray"
p: "God" /1 " " v2 "the earth" /2
/c1"#,
    );
}

#[test]
fn a_verse_after_esbe_with_no_paragraph_marker_ends_the_one_before_the_sidebar() {
    check(
        "\\id GEN\n\\c 1\n\\p \\v 1 In the beginning\n\\esb\n\\p Aside\n\\esbe\n\\v 2 the earth",
        r#"
id Gen
c1
p: v1 "In the beginning" /1
esb:
  p: "Aside"
p: v2 "the earth" /2
/c1"#,
    );
}

#[test]
fn a_verse_after_text_on_the_esbe_line_ends_the_previous_one_inline() {
    let expected = r#"
id Gen
c1
p: v1 "In the beginning"
esb:
p: "God" /1 " " v2 "the earth" /2
/c1"#;
    check(
        "\\id GEN\n\\c 1\n\\p \\v 1 In the beginning\n\\esb\n\\esbe God \\v 2 the earth",
        expected,
    );
    check(
        "\\id GEN\n\\c 1\n\\p \\v 1 In the beginning\n\\esb\n\\esbe\n\\p God \\v 2 the earth",
        expected,
    );
}

#[test]
fn a_paragraph_marker_after_esbe_does_not_change_where_the_verse_ends() {
    check(
        "\\id GEN\n\\c 1\n\\p \\v 1 In the beginning\n\\esb\n\\p Aside\n\\esbe\n\\p \\v 2 the earth",
        r#"
id Gen
c1
p: v1 "In the beginning" /1
esb:
  p: "Aside"
p: v2 "the earth" /2
/c1"#,
    );
}

#[test]
fn a_verse_on_a_periph_line_opens_no_verse_end() {
    let expected = r#"
id Gen
c1
p: "a"
periph:
  p: v2
/c1"#;
    check("\\id GEN\n\\c 1\n\\p a\n\\periph\\v 2", expected);
    check("\\id GEN\n\\c 1\n\\p a\n\\periph\n\\p \\v 2", expected);
}

#[test]
fn end_milestones_can_be_switched_off() {
    let document = Parser::new("\\id GEN\n\\c 1\n\\p \\v 1 In the beginning \\v 2 the earth")
        .parse_with_options(&default_stylesheet(), false)
        .document;
    let mut out = String::new();
    blocks(&document, &document.blocks, "", &mut out);
    assert_eq!(
        out.trim_end(),
        r#"
id Gen
c1
p: v1 "In the beginning " v2 "the earth""#
            .trim()
    );
}

/// Verse ends are inserted, never read, so none carries a span; the other
/// spans of the paragraph lie in the source.
#[test]
fn inserted_verse_ends_carry_no_span() {
    let source = "\\id GEN\n\\c 1\n\\p \\v 1 one \\v 2 two\n\\q1 still two\n";
    let document = Parser::new(source).parse(&default_stylesheet()).document;
    let mut ends = 0;
    for block in &document.blocks {
        if let Block::Para(para) = block {
            assert!(para.span.start <= para.span.end && para.span.end as usize <= source.len());
            for child in &para.children {
                if let Inline::VerseEnd(end) = child {
                    assert_eq!((end.span.start, end.span.end), (0, 0));
                    ends += 1;
                }
            }
        }
    }
    assert_eq!(ends, 2);
}
