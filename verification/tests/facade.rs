use std::sync::Arc;

use usfm::diagnostics::Code;
use usfm::parser::Parser;
use usfm::sheet::default_stylesheet;
use usfm::{parse, parse_with, parse_with_options};

#[test]
fn parse_uses_the_default_stylesheet() {
    let result = parse("\\id GEN\n\\c 1\n\\p\n\\v 1 Text.\n");
    assert!(result.diagnostics.is_empty(), "{:?}", result.diagnostics);
    // The input derives no style, so the document's sheet is the default
    // one, rule for rule.
    let default = default_stylesheet();
    let sheet = result.document.style_sheet();
    assert_eq!(sheet.rules.len(), default.rules.len());
    assert!(sheet.rules.iter().zip(default.rules.iter()).all(|(a, b)| a.marker == b.marker));
}

#[test]
fn parse_with_takes_a_caller_supplied_sheet() {
    let sheet = default_stylesheet();
    let result = parse_with("\\id GEN\n\\c 1\n\\p\n\\v 1 Text.\n", &sheet);
    assert!(result.diagnostics.is_empty(), "{:?}", result.diagnostics);
    assert!(Arc::ptr_eq(&sheet, result.document.style_sheet()));
}

#[test]
fn a_repair_is_reported_not_raised() {
    let result = parse("\\id GEN\n\\c 1\n\\p\n\\v 01 Text.\n");
    assert!(
        result
            .diagnostics
            .iter()
            .any(|d| d.code == Code::NumberHasLeadingZero),
        "{:?}",
        result.diagnostics
    );
    // The document is there either way; the policy is the caller's.
    assert!(!result.document.blocks.is_empty());
}

/// The union: `unlisted-book-code` is the checks', and only `parse` reports
/// both halves.
#[test]
fn parse_returns_the_union_of_both_passes() {
    let source = "\\id ZZZ Some book\n\\c 1\n\\p \\v 1 a\n";
    let parser_only = Parser::new(source).parse(&default_stylesheet());
    assert!(parser_only.diagnostics.is_empty(), "{:?}", parser_only.diagnostics);

    let codes: Vec<Code> = parse(source).diagnostics.iter().map(|d| d.code).collect();
    assert_eq!(codes, vec![Code::UnlistedBookCode]);
}

/// Both halves at once, in span order however they were produced: the
/// parser reports `\v 01` at offset 26 and the checks report the book code
/// at offset 0.
#[test]
fn the_union_is_sorted_by_span_start() {
    let result = parse("\\id ZZZ Some book\n\\c 1\n\\p \\v 01 a\n");
    let codes: Vec<Code> = result.diagnostics.iter().map(|d| d.code).collect();
    assert_eq!(
        codes,
        vec![Code::UnlistedBookCode, Code::NumberHasLeadingZero],
        "{:?}",
        result.diagnostics
    );
    assert!(
        result.diagnostics.windows(2).all(|w| w[0].span.start <= w[1].span.start),
        "{:?}",
        result.diagnostics
    );
}

#[test]
fn parse_with_options_can_leave_the_end_milestones_out() {
    let source = "\\id GEN\n\\c 1\n\\p \\v 1 a\n";
    let with = parse_with_options(source, &default_stylesheet(), true);
    let without = parse_with_options(source, &default_stylesheet(), false);
    assert_ne!(
        format!("{:?}", with.document.blocks),
        format!("{:?}", without.document.blocks)
    );
}

#[test]
fn a_document_without_an_id_is_missing_one() {
    let codes: Vec<Code> = parse("\\c 1\n\\p \\v 1 a\n").diagnostics.iter().map(|d| d.code).collect();
    assert!(codes.contains(&Code::MissingId), "{codes:?}");
}

#[test]
fn a_book_with_nothing_after_its_id_is_empty() {
    let result = parse("\\id GEN\n");
    let codes: Vec<Code> = result.diagnostics.iter().map(|d| d.code).collect();
    assert_eq!(codes, vec![Code::EmptyBook]);
}

#[test]
fn chapters_out_of_order_and_repeated_are_reported() {
    let source = "\\id GEN\n\\c 2\n\\p a\n\\c 1\n\\p b\n\\c 2\n\\p c\n";
    let codes: Vec<Code> = parse(source).diagnostics.iter().map(|d| d.code).collect();
    assert_eq!(codes, vec![Code::ChapterOutOfOrder, Code::DuplicateChapterNumber]);
}

#[test]
fn attribute_checks_read_the_finished_tree() {
    let source = "\\id GEN\n\\c 1\n\\p \\v 1 \\w |lemma=\"x\"\\w* \\w a|lemma=\"x\" lemma=\"y\"\\w* \\qt-s |\\*b\n";
    let codes: Vec<Code> = parse(source).diagnostics.iter().map(|d| d.code).collect();
    assert!(codes.contains(&Code::EmptyWord), "{codes:?}");
    assert!(codes.contains(&Code::DuplicateAttribute), "{codes:?}");
    assert!(codes.contains(&Code::EmptyMilestoneAttributeList), "{codes:?}");
}

#[test]
fn a_cell_naming_the_wrong_column_is_reported() {
    let source = "\\id GEN\n\\c 1\n\\tr \\tc1 a \\tc3 b\n";
    let codes: Vec<Code> = parse(source).diagnostics.iter().map(|d| d.code).collect();
    assert_eq!(codes, vec![Code::UnexpectedTableColumn]);
}

fn codes_of(source: &str) -> Vec<Code> {
    parse(source).diagnostics.iter().map(|d| d.code).collect()
}

/// A verse number already used in the chapter is a duplicate; `\v 4a` and
/// `\v 4b` are not, while `\v 4` covers both; a verse starting below where
/// the one before it ended is out of order.
#[test]
fn repeated_and_backward_verses_are_reported() {
    let source = "\\id GEN\n\\c 1\n\\p \\v 1 a \\v 2 b \\v 1 c \\v 4a d \\v 4b e \\v 4 f \\v 3 g\n";
    assert_eq!(
        codes_of(source),
        vec![Code::DuplicateVerseNumber, Code::DuplicateVerseNumber, Code::VerseOutOfOrder]
    );
    let source = "\\id GEN\n\\c 1\n\\p \\v 3-5 a \\v 4 b\n\\c 2\n\\p \\v 1 c \\v 2 d\n";
    assert_eq!(codes_of(source), vec![Code::DuplicateVerseNumber]);
}

/// Verse text before the first chapter of a book of scripture, and a verse
/// there, are both reported; the same paragraph in a book that is not
/// scripture is not.
#[test]
fn verses_before_the_first_chapter_are_reported() {
    let source = "\\id GEN\n\\p \\v 1 a\n\\c 1\n\\p b\n";
    assert_eq!(
        codes_of(source),
        vec![Code::VerseTextBeforeChapter, Code::VerseOutsideChapter]
    );
    let source = "\\id FRT\n\\p front matter\n";
    assert_eq!(codes_of(source), vec![]);
}

/// A verse in a heading is reported, but not in the `\s5` chunk marker.
#[test]
fn a_verse_in_a_heading_is_reported() {
    assert_eq!(codes_of("\\id GEN\n\\c 1\n\\s \\v 1 a\n"), vec![Code::VerseInHeading]);
    assert_eq!(codes_of("\\id GEN\n\\c 1\n\\s5 \\v 1 a\n"), vec![]);
}

/// A bare value beside named attributes, and a name that is not one.
#[test]
fn bare_values_and_malformed_names_are_reported() {
    let codes = codes_of("\\id GEN\n\\c 1\n\\p \\v 1 \\w gracious|grace strong=\"H1\"\\w*\n");
    assert_eq!(codes, vec![Code::DefaultAttributeWithOthers]);
    let codes = codes_of("\\id GEN\n\\c 1\n\\p \\v 1 \\w a|b<c=\"1\"\\w*\n");
    assert!(codes.contains(&Code::MalformedAttributeName), "{codes:?}");
}

/// A note-content marker outside a note is not allowed there; inside its
/// note it is.
#[test]
fn a_note_only_marker_outside_a_note_is_reported() {
    let codes = codes_of("\\id GEN\n\\c 1\n\\p \\v 1 a \\xq b\\xq*\n");
    assert!(codes.contains(&Code::MarkerNotAllowedHere), "{codes:?}");
    let codes = codes_of("\\id GEN\n\\c 1\n\\p \\v 1 a\\x - \\xq b\\x*\n");
    assert!(!codes.contains(&Code::MarkerNotAllowedHere), "{codes:?}");
}

#[test]
fn the_document_span_covers_the_text_after_a_byte_order_mark() {
    let source = "\u{feff}\\id GEN\n\\c 1\n";
    let result = parse(source);
    assert_eq!(result.document.span.start, 3);
    assert_eq!(result.document.span.end as usize, source.len());
    let plain = parse("\\id GEN\n");
    assert_eq!(plain.document.span.start, 0);
    assert_eq!(plain.document.span.end, 8);
}

/// A text with anything but whitespace in it gives a block or a repair; the
/// parser makes neither of whitespace alone.
#[test]
fn a_text_with_content_never_parses_to_nothing() {
    let blank = Parser::new("  \n\t\n").parse(&default_stylesheet());
    assert!(blank.document.blocks.is_empty());
    assert!(blank.diagnostics.is_empty(), "{:?}", blank.diagnostics);
    let word = parse("\u{feff}word");
    assert!(!word.document.blocks.is_empty() || !word.diagnostics.is_empty());
    let unknown = parse("\\zzz");
    assert!(!unknown.document.blocks.is_empty() || !unknown.diagnostics.is_empty());
    let bare = Parser::new("  x ").parse_with_options(&default_stylesheet(), false);
    assert!(!bare.document.blocks.is_empty() || !bare.diagnostics.is_empty());
}
