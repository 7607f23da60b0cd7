use usfm::ast::Document;
use usfm::cursor::NodeRef;
use usfm::diagnostics::Severity;
use usfm::format::{formatted, refusal};
use usfm::hover::hover;
use usfm::locate::{locate, Located};
use usfm::parse;
use usfm::span::Span;

const SOURCE: &str =
    "\\id GEN Genesis\n\\c 1\n\\p\n\\v 1 In \\w beginning|lemma=\"begin\"\\w* God\n";

fn at(needle: &str) -> u32 {
    SOURCE.find(needle).expect("the needle is in the source") as u32
}

fn markdown(source: &str, offset: u32) -> String {
    let result = parse(source);
    hover(&result.document, offset)
        .unwrap_or_else(|| panic!("a hover at {offset} in {source:?}"))
        .markdown
}

/// A character marker, and the range it is about: the whole `\w …\w*`.
#[test]
fn a_character_marker_shows_its_entry_and_its_whole_span() {
    let result = parse(SOURCE);
    let hover = hover(&result.document, at("\\w beginning")).expect("a hover on `\\w`");
    assert!(hover.markdown.starts_with("`\\w` — "), "{hover:#?}");
    assert!(hover.markdown.contains("Occurs under:"), "{hover:#?}");
    let start = at("\\w beginning");
    let end = at("\\w*") + "\\w*".len() as u32;
    assert_eq!(hover.span, Span::new(start, end));
}

/// A `\v`, and the text after it, are the reference.
#[test]
fn a_verse_shows_the_reference() {
    assert_eq!(markdown(SOURCE, at("\\v 1")), "**GEN 1:1**");
    assert_eq!(markdown(SOURCE, at("In ")), "**GEN 1:1**");
    assert_eq!(markdown(SOURCE, at("\\c 1")), "**GEN 1**");
}

/// Text inside a character style is still the reference.
#[test]
fn text_inside_a_character_style_is_the_reference() {
    assert_eq!(markdown(SOURCE, at("beginning")), "**GEN 1:1**");
}

/// With no chapter to name, text answers for the style around it.
#[test]
fn text_outside_a_chapter_falls_back_to_its_style() {
    let source = "\\id GEN\n\\ip An introduction\n";
    let markdown = markdown(source, source.find("introduction").unwrap() as u32);
    assert!(markdown.starts_with("`\\ip` — "), "{markdown}");
}

/// A note and a milestone carry styles like any other node.
#[test]
fn a_note_and_a_milestone_show_their_entries() {
    let source = "\\id GEN\n\\c 1\n\\p \\v 1 a\\f + \\ft note\\f* b \\qt-s |who=\"God\"\\*c\n";
    let note = markdown(source, source.find("\\f +").unwrap() as u32);
    assert!(note.starts_with("`\\f` — "), "{note}");
    let milestone = markdown(source, source.find("\\qt-s").unwrap() as u32);
    assert!(milestone.starts_with("`\\qt-s`"), "{milestone}");
}

/// A table cell has no style of its own; its marker is spelled from the cell.
#[test]
fn a_table_cell_shows_the_entry_of_the_marker_it_is_written_with() {
    let source = "\\id GEN\n\\c 1\n\\tr \\th1 Name \\thr2 Number\n";
    let header = markdown(source, source.find("\\th1").unwrap() as u32);
    assert!(header.starts_with("`\\th1`"), "{header}");
    let right = markdown(source, source.find("\\thr2").unwrap() as u32);
    assert!(right.starts_with("`\\thr2`"), "{right}");
}

/// A style the sheet says nothing about prints what there is and no empty
/// lines for the rest.
#[test]
fn an_undocumented_style_prints_only_what_the_sheet_has() {
    let source = "\\id GEN\n\\c 1\n\\p \\zaln-s |x-strong=\"H1\"\\*a\\zaln-e\\*\n";
    let markdown = markdown(source, source.find("\\zaln-s").unwrap() as u32);
    assert_eq!(markdown, "`\\zaln-s`\n\nOccurs under: anywhere");
}

/// Nothing under the cursor is no hover, not an empty one.
#[test]
fn nothing_under_the_cursor_is_no_hover() {
    let result = parse(SOURCE);
    assert_eq!(hover(&result.document, 10_000), None);
}

/// A book line shows its code and its description.
#[test]
fn a_book_line_shows_its_code_and_description() {
    let result = parse(SOURCE);
    let hover = hover(&result.document, 2).expect("a hover on the `\\id` line");
    assert_eq!(hover.markdown, "**GEN** — Genesis");
}

const LOCATE_SOURCE: &str =
    "\\id GEN Genesis\n\\c 1\n\\p\n\\v 1 In \\nd the\\nd* beginning\n\\v 2 x\n\\c 2\n\\p\n\\v 1 y\n";

fn locate_at(needle: &str) -> u32 {
    LOCATE_SOURCE.find(needle).expect("the needle is in the source") as u32
}

fn node_at<'a>(document: &'a Document, offset: u32) -> Option<Located<'a>> {
    locate(document, offset).node
}

#[test]
fn the_innermost_node_is_the_one_found() {
    let result = parse(LOCATE_SOURCE);
    let document = &result.document;

    let book = node_at(document, 2).expect("a node on the `\\id` line");
    assert!(book.node.is_book());

    let para = node_at(document, locate_at("\\p")).expect("a node on `\\p`");
    assert!(para.node.is_para());

    let verse = node_at(document, locate_at("\\v 1 In")).expect("a node on `\\v`");
    assert!(verse.node.is_verse_start());

    let text = node_at(document, locate_at("In ")).expect("a node in the text");
    assert!(text.node.is_text());
    assert!(NodeRef::Document(document)
        .descend(&text.path[..text.path.len() - 1])
        .expect("the parent of a located node")
        .is_para());

    let char = node_at(document, locate_at("\\nd the")).expect("a node on `\\nd`");
    assert!(char.node.is_char());
    let inside = node_at(document, locate_at("the\\nd*")).expect("a node inside `\\nd`");
    assert!(inside.node.is_text());
    assert!(inside.path.len() > char.path.len());
}

#[test]
fn an_offset_in_no_node_finds_none() {
    let result = parse(LOCATE_SOURCE);
    assert!(node_at(&result.document, 10_000).is_none());
    let synthesized = parse("").document;
    assert!(node_at(&synthesized, 0).is_none());
}

#[test]
fn the_reference_is_the_chapter_and_verse_in_force() {
    let result = parse(LOCATE_SOURCE);
    let document = &result.document;

    assert_eq!(locate(document, 2).reference(), None);

    let chapter = locate(document, locate_at("\\c 1"));
    assert_eq!(chapter.book.map(|code| code.as_str().to_owned()).as_deref(), Some("GEN"));
    assert_eq!(chapter.reference().as_deref(), Some("GEN 1"));

    assert_eq!(
        locate(document, locate_at("beginning")).reference().as_deref(),
        Some("GEN 1:1"),
    );
    assert_eq!(
        locate(document, locate_at("\\v 2 x")).reference().as_deref(),
        Some("GEN 1:2"),
    );
    assert_eq!(locate(document, locate_at("\\c 2")).reference().as_deref(), Some("GEN 2"));
    assert_eq!(
        locate(document, locate_at("\\v 1 y")).reference().as_deref(),
        Some("GEN 2:1"),
    );
}

#[test]
fn a_document_without_an_id_line_still_has_a_reference() {
    let source = "\\c 3\n\\p\n\\v 4-5 text\n";
    let result = parse(source);
    let location = locate(&result.document, source.find("text").unwrap() as u32);
    assert_eq!(location.book, None);
    assert_eq!(location.reference().as_deref(), Some("3:4-5"));
}

#[test]
fn a_clean_document_is_formatted_and_ends_with_one_newline() {
    let result = parse("\\id GEN\n\\c 1\n\\p \\v 1 a\n");
    assert_eq!(refusal(&result.diagnostics), None);
    let text = formatted(&result.document);
    assert!(text.ends_with("\\p \\v 1 a\n"), "{text:?}");
    assert!(!text.ends_with("\n\n"), "{text:?}");
}

/// An Error, and only an Error, stops the formatter.
#[test]
fn an_error_refuses_and_a_warning_does_not() {
    let result = parse("\\id GEN\n\\c 1\n\\p \\v 1 text \\qqq more\n");
    let message = refusal(&result.diagnostics).expect("a refusal");
    assert!(message.contains("not formatted"), "{message}");
    assert!(message.contains("\\qqq"), "{message}");
    assert!(message.contains("1 error"), "{message}");
    assert!(!formatted(&result.document).contains("\\qqq"));

    let result = parse("\\id GEN\n\\c 1\n\\p \\v 1 text \\zqq more\n");
    assert!(result
        .diagnostics
        .iter()
        .any(|diagnostic| diagnostic.severity == Severity::Warning));
    assert_eq!(refusal(&result.diagnostics), None);
}

#[test]
fn several_errors_are_counted() {
    let result = parse("\\id GEN\n\\c 1\n\\p \\v 1 a \\qqq b \\www c\n");
    let message = refusal(&result.diagnostics).expect("a refusal");
    assert!(message.contains("2 errors"), "{message}");
}

/// Formatting is a fixed point: the formatted text of a formatted document
/// is itself.
#[test]
fn format_formatting_is_a_fixed_point() {
    let once = formatted(&parse("\\id GEN\n\\c 1\n\\p \\v 1 a \\nd b\n").document);
    let twice = formatted(&parse(&once).document);
    assert_eq!(once, twice);
}

/// The formatted text ends with exactly one newline, and an empty document
/// formats to nothing rather than to a newline.
#[test]
fn the_formatted_text_ends_with_one_newline() {
    let result = parse("\\id GEN\n\\c 1\n\\p \\v 1 a\n");
    let text = formatted(&result.document);
    assert!(text.ends_with("\\p \\v 1 a\n"), "{text:?}");
    assert!(!text.ends_with("\n\n"), "{text:?}");

    assert_eq!(formatted(&parse("").document), "");
}

/// A cell that spans columns is written `\tc1-2`; that is the marker its
/// entry is looked up by, not `\tc1`.
#[test]
fn a_spanning_cell_is_looked_up_by_its_spanning_marker() {
    let source = "\\id GEN\n\\c 1\n\\tr \\tc1-2 Both \\tc3 One\n";
    let result = parse(source);
    let spanning = hover(&result.document, source.find("\\tc1-2").unwrap() as u32 + 1);
    assert!(spanning.map_or(true, |h| !h.markdown.starts_with("`\\tc1`")));
    let single = markdown(source, source.find("\\tc3").unwrap() as u32);
    assert!(single.starts_with("`\\tc3`"), "{single}");
}

/// The description is trimmed of Unicode white space, not only ASCII.
#[test]
fn a_book_description_is_trimmed_of_unicode_white_space() {
    let source = "\\id GEN Genesis\u{3000}\u{a0}\n\\c 1\n";
    let result = parse(source);
    let hover = hover(&result.document, 2).expect("a hover on the `\\id` line");
    assert_eq!(hover.markdown, "**GEN** — Genesis");
}
