use usfm::diagnostics::Code;
use usfm::parser::Parser;
use usfm::sheet::default_stylesheet;

/// The codes the parser alone reports for `source`.
fn codes(source: &str) -> Vec<Code> {
    Parser::new(source)
        .parse(&default_stylesheet())
        .diagnostics
        .iter()
        .map(|d| d.code)
        .collect()
}

fn check(code: Code, source: &str) {
    let codes = codes(source);
    assert!(codes.contains(&code), "expected {code:?} in diagnostics, got {codes:?}\nsource: {source}");
}

fn check_variant(code: Code, _variant: &str, source: &str) {
    check(code, source);
}

#[test]
fn unknown_marker() {
    check(
        Code::UnknownMarker,
        "\\id GEN\n\\c 1\n\\p \\v 1 a \\foo custom \\foo* b",
    );
}

#[test]
fn unknown_milestone() {
    check(
        Code::UnknownMilestone,
        "\\id GEN\n\\c 1\n\\ts\\*\n\\p \\v 1 a \\ts\\* b",
    );
}

#[test]
fn unknown_custom_milestone() {
    check(
        Code::UnknownCustomMilestone,
        "\\id GEN\n\\c 1\n\\p \\v 1 a \\zaln-s |x-strong=\"G1\"\\* b \\zaln-e\\* c",
    );
}

#[test]
fn unmatched_closing_marker() {
    check(
        Code::UnmatchedClosingMarker,
        "\\id GEN\n\\c 1\n\\p \\v 1 a \\em b\\em* \\em* c \\x* d",
    );
}

#[test]
fn unmatched_closing_marker_does_not_cross_note() {
    // `\em*` inside the note cannot close the `\em` outside it.
    check_variant(
        Code::UnmatchedClosingMarker,
        "does_not_cross_note",
        "\\id GEN\n\\c 1\n\\p \\v 1 \\em a \\f + \\ft b \\em* c\\f* d\\em*",
    );
}

#[test]
fn paragraph_marker_closed() {
    check(
        Code::ParagraphMarkerClosed,
        "\\id GEN\n\\c 1\n\\p \\v 1 a \\p* b",
    );
}

#[test]
fn unmatched_milestone_end() {
    check(
        Code::UnmatchedMilestoneEnd,
        "\\id GEN\n\\c 1\n\\p \\v 1 a \\* b",
    );
}

#[test]
fn milestone_not_closed() {
    check(
        Code::MilestoneNotClosed,
        "\\id GEN\n\\c 1\n\\p \\v 1 a \\qt-s |who=\"Pilate\" b \\qt-e\\* c",
    );
}

#[test]
fn stray_backslash() {
    check(
        Code::StrayBackslash,
        "\\id GEN\n\\c 1\n\\p \\v 1 a \\ b \\+ c \\",
    );
}

#[test]
fn nested_marker_not_nested() {
    check(
        Code::NestedMarkerNotNested,
        "\\id GEN\n\\c 1\n\\p \\v 1 a \\+nd Lord\\+nd* b",
    );
}

#[test]
fn character_style_not_closed_by_paragraph() {
    check(
        Code::CharacterStyleNotClosed,
        "\\id GEN\n\\c 1\n\\p \\v 1 a \\em b\n\\p \\v 2 c",
    );
}

#[test]
fn character_style_not_closed_at_eof() {
    check_variant(
        Code::CharacterStyleNotClosed,
        "at_eof",
        "\\id GEN\n\\c 1\n\\p \\v 1 a \\em b",
    );
}

#[test]
fn character_style_not_closed_at_table_cell() {
    check_variant(
        Code::CharacterStyleNotClosed,
        "at_table_cell",
        "\\id GEN\n\\c 1\n\\tr \\tc1 \\em a \\tc2 b",
    );
}

#[test]
fn character_style_not_closed_by_outer_closer() {
    check_variant(
        Code::CharacterStyleNotClosed,
        "by_outer_closer",
        "\\id GEN\n\\c 1\n\\p \\v 1 \\em a \\+nd b\\em* c",
    );
}

#[test]
fn character_style_implicitly_closed() {
    check(
        Code::CharacterStyleImplicitlyClosed,
        "\\id GEN\n\\c 1\n\\p \\v 1 \\em a \\iqt b\\iqt* c",
    );
}

#[test]
fn character_style_not_nested_when_closer_is_outside() {
    check_variant(
        Code::CharacterStyleImplicitlyClosed,
        "closer_outside",
        "\\id GEN\n\\c 1\n\\p \\v 1 \\em a \\nd b\\em* c\\nd*",
    );
}

#[test]
fn alternate_verse_not_closed() {
    check(
        Code::AlternateVerseNotClosed,
        "\\id GEN\n\\c 1\n\\p \\v 1 \\va 3 text",
    );
}

#[test]
fn published_verse_number_not_closed() {
    check_variant(
        Code::AlternateVerseNotClosed,
        "vp",
        "\\id GEN\n\\c 1\n\\p \\v 1 \\vp 1b text\n\\p \\v 2 next",
    );
}

#[test]
fn note_not_closed_by_paragraph() {
    check(
        Code::NoteNotClosed,
        "\\id GEN\n\\c 1\n\\p \\v 1 a\\f + \\ft note\n\\p \\v 2 b",
    );
}

#[test]
fn note_not_closed_at_eof() {
    check_variant(
        Code::NoteNotClosed,
        "at_eof",
        "\\id GEN\n\\c 1\n\\p \\v 1 a\\f + \\ft note",
    );
}

#[test]
fn missing_note_caller() {
    check(
        Code::MissingNoteCaller,
        "\\id GEN\n\\c 1\n\\p \\v 1 a\\f \\ft note\\f* b",
    );
}

#[test]
fn missing_verse_number() {
    check(
        Code::MissingVerseNumber,
        "\\id GEN\n\\c 1\n\\p \\v \\em a\\em*",
    );
}

#[test]
fn malformed_verse_number() {
    check(
        Code::MalformedVerseNumber,
        "\\id GEN\n\\c 1\n\\p \\v one a \\v 2- b",
    );
}

#[test]
fn verse_in_note() {
    check(
        Code::VerseInNote,
        "\\id GEN\n\\c 1\n\\p \\v 1 a\\f + \\ft see \\v 2 there\\f* b",
    );
}

#[test]
fn missing_chapter_number() {
    check(Code::MissingChapterNumber, "\\id GEN\n\\c\n\\p \\v 1 a");
}

#[test]
fn malformed_chapter_number() {
    check(
        Code::MalformedChapterNumber,
        "\\id GEN\n\\c one\n\\p \\v 1 a",
    );
}

#[test]
fn malformed_alternate_chapter_number() {
    check_variant(
        Code::MalformedChapterNumber,
        "alternate",
        "\\id GEN\n\\c 1 \\ca x\\ca*\n\\p \\v 1 a",
    );
}

#[test]
fn alternate_chapter_not_closed() {
    check(
        Code::AlternateChapterNotClosed,
        "\\id GEN\n\\c 1 \\ca 2\n\\p \\v 1 a",
    );
}

#[test]
fn missing_book_code() {
    check(Code::MissingBookCode, "\\id\n\\c 1\n\\p \\v 1 a");
}

#[test]
fn unknown_book_code() {
    check(
        Code::UnknownBookCode,
        "\\id GENESIS Some book\n\\c 1\n\\p \\v 1 a",
    );
}

#[test]
fn content_outside_paragraph_text() {
    check(
        Code::ContentOutsideParagraph,
        "text before any marker\n\\p a",
    );
}

#[test]
fn content_outside_paragraph_after_chapter() {
    check_variant(
        Code::ContentOutsideParagraph,
        "after_chapter",
        "\\id GEN\n\\c 1\n\\v 1 a\n\\p \\v 2 b",
    );
}

#[test]
fn content_outside_paragraph_after_id() {
    check_variant(
        Code::ContentOutsideParagraph,
        "after_id",
        "\\id GEN\n\\v 1 a",
    );
}

#[test]
fn expected_table_cell() {
    check(
        Code::ExpectedTableCell,
        "\\id GEN\n\\c 1\n\\tr a \\tc2 b\n\\tr \\em c\\em*",
    );
}

#[test]
fn attribute_value_not_quoted() {
    check(
        Code::AttributeValueNotQuoted,
        "\\id GEN\n\\c 1\n\\p \\v 1 \\w word|lemma=grace\\w*",
    );
}

#[test]
fn missing_attribute_value() {
    check(
        Code::MissingAttributeValue,
        "\\id GEN\n\\c 1\n\\p \\v 1 \\w word|lemma= strong=\"H1234\"\\w*",
    );
}

#[test]
fn number_has_leading_zero() {
    check(
        Code::NumberHasLeadingZero,
        "\\id GEN\n\\c 091\n\\p \\v 01 text",
    );
}

#[test]
fn unexpected_pipe() {
    check(Code::UnexpectedPipe, "\\id GEN\n\\c 1\n\\p \\v 1 a | b");
}

#[test]
fn unterminated_attribute_value() {
    check(
        Code::UnterminatedAttributeValue,
        "\\id GEN\n\\c 1\n\\p \\v 1 \\w a|lemma=\"x\\w* b",
    );
}

#[test]
fn unknown_custom_marker() {
    check(
        Code::UnknownCustomMarker,
        "\\id GEN\n\\c 1\n\\p \\v 1 a \\zfoo c\\zfoo* d",
    );
}

#[test]
fn figure_not_closed() {
    check(
        Code::FigureNotClosed,
        "\\id GEN\n\\c 1\n\\p \\v 1 a \\fig caption|src=\"a.jpg\" size=\"col\"\n\\p \\v 2 b",
    );
}

#[test]
fn sidebar_not_closed() {
    check(
        Code::SidebarNotClosed,
        "\\id GEN\n\\c 1\n\\esb\n\\p a\n\\esb\n\\p b",
    );
}

#[test]
fn unmatched_sidebar_end() {
    check(
        Code::UnmatchedSidebarEnd,
        "\\id GEN\n\\c 1\n\\p a\n\\esbe\n\\p b",
    );
}

#[test]
fn sidebar_not_closed_before_chapter() {
    check_variant(
        Code::SidebarNotClosed,
        "before_chapter",
        "\\id GEN\n\\c 1\n\\esb\n\\p a\n\\c 2\n\\p b",
    );
}

#[test]
fn content_after_sidebar_marker() {
    check_variant(
        Code::ContentOutsideParagraph,
        "after_esb",
        "\\id GEN\n\\c 1\n\\esb \\cat People\\cat* stray\n\\p a\n\\esbe",
    );
}

#[test]
fn newline_in_attributes() {
    check(
        Code::NewlineInAttributes,
        "\\id GEN\n\\c 1\n\\p \\v 1 \\w a|lemma=\"x\"\nstrong=\"H1\"\\w* b",
    );
}

#[test]
fn content_outside_paragraph_c_without_p() {
    check_variant(
        Code::ContentOutsideParagraph,
        "c_without_p",
        "\\id GEN genesis Some desc\n\\c 1\n\\v 1 test verse\n\\s5\nsome more text\n\\v 2 more verse\n\\c 2\n\\v 1 next chapter\t\n\\c 3 \\ca 4 \\ca*\n\\cp Three\n\\v 1 text",
    );
}

#[test]
fn content_outside_paragraph_space_in_chapter_number() {
    check_variant(
        Code::ContentOutsideParagraph,
        "space_in_chapter_number",
        "\\id GEN genesis Some desc\n\\c 1\n\\p\n\\v 1 test verse\n\\s3 test\n\\p\n\\v 2 more verse \n\\c 2 3\n\\p\n\\v 1 text\n\\v 2 more text\n\\v 3 4 text of 34\n\\p\n\\v 35 rest",
    );
}

#[test]
fn unknown_marker_no_space_before_chapternumber() {
    check_variant(
        Code::UnknownMarker,
        "no_space_before_chapternumber",
        "\\id GEN genesis Some desc\n\\c 1\n\\p\n\\v1 test verse\n\\s3 test\n\\v 2 more verse\n\\c2\n\\p\n\\v 1 next chapter\n\\v2 error text",
    );
}

#[test]
fn unknown_marker_no_space_before_versenumber() {
    check_variant(
        Code::UnknownMarker,
        "no_space_before_versenumber",
        "\\id GEN genesis Some desc\n\\c 1\n\\p\n\\v1 test verse\n\\s3 test\n\\v 2 more verse\n\\c 2\n\\p\n\\v 1 next chapter\n\\v2 error text",
    );
}

#[test]
fn stray_backslash_slash_in_text() {
    check_variant(
        Code::StrayBackslash,
        "slash_in_text",
        "\\id GEN genesis Some desc\n\\c 1\n\\p\n\\v 1 test verse\n\\s3 test\n\\p\n\\v 2 more verse and \\ a slash\n\\c 2\n\\p\n\\v 1 text and \\slash without space\n\\v 2 more text",
    );
}

#[test]
fn unknown_book_code_wrong_book_code2() {
    check_variant(
        Code::UnknownBookCode,
        "wrong_book_code2",
        "\\id genesis Some desc\n\\c 1\n\\p\n\\v 1 test verse",
    );
}

#[test]
fn unknown_marker_word_looking() {
    check_variant(
        Code::UnknownMarker,
        "word_looking",
        "\\id GEN\n\\c 1\n\\p \\v 1 and a \\weirdtaglookingthing that is not an actual tag.",
    );
}

#[test]
fn unmatched_closing_marker_attributed_style() {
    check_variant(
        Code::UnmatchedClosingMarker,
        "attributed_style",
        "\\id GEN\n\\c 1\n\\p \\v 3 Chapter one \\w*,\n\\li2 verse three.",
    );
}

#[test]
fn content_after_sidebar_end_marker() {
    check_variant(
        Code::ContentOutsideParagraph,
        "after_esbe",
        "\\id GEN\n\\c 1\n\\esb\n\\ms Title\n\\p inside\n\\esbe\n\\v 1 a \\w three|lemma\\w*.",
    );
}

/// One input per repair this file tests, with the code it must produce.
fn recovery_inputs() -> Vec<(Code, &'static str)> {
    vec![
        (Code::UnknownMarker, "\\id GEN\n\\c 1\n\\p \\v 1 a \\foo custom \\foo* b"),
        (Code::CharacterStyleNestedWithoutPlus, "\\id GEN\n\\c 1\n\\p \\v 1 \\bk The Book of the \\nd Lord\\nd*'s Battles\\bk* speaks"),
        (Code::UnknownMilestone, "\\id GEN\n\\c 1\n\\ts\\*\n\\p \\v 1 a \\ts\\* b"),
        (Code::UnknownCustomMilestone, "\\id GEN\n\\c 1\n\\p \\v 1 a \\zaln-s |x-strong=\"G1\"\\* b \\zaln-e\\* c"),
        (Code::UnmatchedClosingMarker, "\\id GEN\n\\c 1\n\\p \\v 1 a \\em b\\em* \\em* c \\x* d"),
        (Code::UnmatchedClosingMarker, "\\id GEN\n\\c 1\n\\p \\v 1 \\em a \\f + \\ft b \\em* c\\f* d\\em*"),
        (Code::ParagraphMarkerClosed, "\\id GEN\n\\c 1\n\\p \\v 1 a \\p* b"),
        (Code::UnmatchedMilestoneEnd, "\\id GEN\n\\c 1\n\\p \\v 1 a \\* b"),
        (Code::MilestoneNotClosed, "\\id GEN\n\\c 1\n\\p \\v 1 a \\qt-s |who=\"Pilate\" b \\qt-e\\* c"),
        (Code::StrayBackslash, "\\id GEN\n\\c 1\n\\p \\v 1 a \\ b \\+ c \\"),
        (Code::NestedMarkerNotNested, "\\id GEN\n\\c 1\n\\p \\v 1 a \\+nd Lord\\+nd* b"),
        (Code::CharacterStyleNotClosed, "\\id GEN\n\\c 1\n\\p \\v 1 a \\em b\n\\p \\v 2 c"),
        (Code::CharacterStyleNotClosed, "\\id GEN\n\\c 1\n\\p \\v 1 a \\em b"),
        (Code::CharacterStyleNotClosed, "\\id GEN\n\\c 1\n\\tr \\tc1 \\em a \\tc2 b"),
        (Code::CharacterStyleNotClosed, "\\id GEN\n\\c 1\n\\p \\v 1 \\em a \\+nd b\\em* c"),
        (Code::CharacterStyleImplicitlyClosed, "\\id GEN\n\\c 1\n\\p \\v 1 \\em a \\iqt b\\iqt* c"),
        (Code::CharacterStyleImplicitlyClosed, "\\id GEN\n\\c 1\n\\p \\v 1 \\em a \\nd b\\em* c\\nd*"),
        (Code::AlternateVerseNotClosed, "\\id GEN\n\\c 1\n\\p \\v 1 \\va 3 text"),
        (Code::AlternateVerseNotClosed, "\\id GEN\n\\c 1\n\\p \\v 1 \\vp 1b text\n\\p \\v 2 next"),
        (Code::NoteNotClosed, "\\id GEN\n\\c 1\n\\p \\v 1 a\\f + \\ft note\n\\p \\v 2 b"),
        (Code::NoteNotClosed, "\\id GEN\n\\c 1\n\\p \\v 1 a\\f + \\ft note"),
        (Code::MissingNoteCaller, "\\id GEN\n\\c 1\n\\p \\v 1 a\\f \\ft note\\f* b"),
        (Code::MissingVerseNumber, "\\id GEN\n\\c 1\n\\p \\v \\em a\\em*"),
        (Code::MalformedVerseNumber, "\\id GEN\n\\c 1\n\\p \\v one a \\v 2- b"),
        (Code::VerseInNote, "\\id GEN\n\\c 1\n\\p \\v 1 a\\f + \\ft see \\v 2 there\\f* b"),
        (Code::MissingChapterNumber, "\\id GEN\n\\c\n\\p \\v 1 a"),
        (Code::MalformedChapterNumber, "\\id GEN\n\\c one\n\\p \\v 1 a"),
        (Code::MalformedChapterNumber, "\\id GEN\n\\c 1 \\ca x\\ca*\n\\p \\v 1 a"),
        (Code::AlternateChapterNotClosed, "\\id GEN\n\\c 1 \\ca 2\n\\p \\v 1 a"),
        (Code::MissingBookCode, "\\id\n\\c 1\n\\p \\v 1 a"),
        (Code::UnknownBookCode, "\\id GENESIS Some book\n\\c 1\n\\p \\v 1 a"),
        (Code::ContentOutsideParagraph, "text before any marker\n\\p a"),
        (Code::ContentOutsideParagraph, "\\id GEN\n\\c 1\n\\v 1 a\n\\p \\v 2 b"),
        (Code::ContentOutsideParagraph, "\\id GEN\n\\v 1 a"),
        (Code::ExpectedTableCell, "\\id GEN\n\\c 1\n\\tr a \\tc2 b\n\\tr \\em c\\em*"),
        (Code::AttributeValueNotQuoted, "\\id GEN\n\\c 1\n\\p \\v 1 \\w word|lemma=grace\\w*"),
        (Code::MissingAttributeValue, "\\id GEN\n\\c 1\n\\p \\v 1 \\w word|lemma= strong=\"H1234\"\\w*"),
        (Code::NumberHasLeadingZero, "\\id GEN\n\\c 091\n\\p \\v 01 text"),
        (Code::UnexpectedPipe, "\\id GEN\n\\c 1\n\\p \\v 1 a | b"),
        (Code::UnterminatedAttributeValue, "\\id GEN\n\\c 1\n\\p \\v 1 \\w a|lemma=\"x\\w* b"),
        (Code::UnknownCustomMarker, "\\id GEN\n\\c 1\n\\p \\v 1 a \\zfoo c\\zfoo* d"),
        (Code::FigureNotClosed, "\\id GEN\n\\c 1\n\\p \\v 1 a \\fig caption|src=\"a.jpg\" size=\"col\"\n\\p \\v 2 b"),
        (Code::SidebarNotClosed, "\\id GEN\n\\c 1\n\\esb\n\\p a\n\\esb\n\\p b"),
        (Code::UnmatchedSidebarEnd, "\\id GEN\n\\c 1\n\\p a\n\\esbe\n\\p b"),
        (Code::SidebarNotClosed, "\\id GEN\n\\c 1\n\\esb\n\\p a\n\\c 2\n\\p b"),
        (Code::ContentOutsideParagraph, "\\id GEN\n\\c 1\n\\esb \\cat People\\cat* stray\n\\p a\n\\esbe"),
        (Code::NewlineInAttributes, "\\id GEN\n\\c 1\n\\p \\v 1 \\w a|lemma=\"x\"\nstrong=\"H1\"\\w* b"),
        (Code::ContentOutsideParagraph, "\\id GEN genesis Some desc\n\\c 1\n\\v 1 test verse\n\\s5\nsome more text\n\\v 2 more verse\n\\c 2\n\\v 1 next chapter\t\n\\c 3 \\ca 4 \\ca*\n\\cp Three\n\\v 1 text"),
        (Code::ContentOutsideParagraph, "\\id GEN genesis Some desc\n\\c 1\n\\p\n\\v 1 test verse\n\\s3 test\n\\p\n\\v 2 more verse \n\\c 2 3\n\\p\n\\v 1 text\n\\v 2 more text\n\\v 3 4 text of 34\n\\p\n\\v 35 rest"),
        (Code::UnknownMarker, "\\id GEN genesis Some desc\n\\c 1\n\\p\n\\v1 test verse\n\\s3 test\n\\v 2 more verse\n\\c2\n\\p\n\\v 1 next chapter\n\\v2 error text"),
        (Code::UnknownMarker, "\\id GEN genesis Some desc\n\\c 1\n\\p\n\\v1 test verse\n\\s3 test\n\\v 2 more verse\n\\c 2\n\\p\n\\v 1 next chapter\n\\v2 error text"),
        (Code::StrayBackslash, "\\id GEN genesis Some desc\n\\c 1\n\\p\n\\v 1 test verse\n\\s3 test\n\\p\n\\v 2 more verse and \\ a slash\n\\c 2\n\\p\n\\v 1 text and \\slash without space\n\\v 2 more text"),
        (Code::UnknownBookCode, "\\id genesis Some desc\n\\c 1\n\\p\n\\v 1 test verse"),
        (Code::UnknownMarker, "\\id GEN\n\\c 1\n\\p \\v 1 and a \\weirdtaglookingthing that is not an actual tag."),
        (Code::UnmatchedClosingMarker, "\\id GEN\n\\c 1\n\\p \\v 3 Chapter one \\w*,\n\\li2 verse three."),
        (Code::ContentOutsideParagraph, "\\id GEN\n\\c 1\n\\esb\n\\ms Title\n\\p inside\n\\esbe\n\\v 1 a \\w three|lemma\\w*."),
    ]
}

/// Every code the parser reports has an input here that produces it. The
/// codes of the checks over a finished tree are not the parser's, and two
/// codes cannot be reached from the default stylesheet.
#[test]
fn recovery_table_is_covered() {
    let exempt = [Code::ContentDropped, Code::Internal];
    let inputs = recovery_inputs();
    let missing: Vec<&str> = Code::all()
        .into_iter()
        .filter(|code| !exempt.contains(code) && !code.is_semantic())
        .filter(|code| !inputs.iter().any(|(c, source)| c == code && codes(source).contains(code)))
        .map(|code| code.as_str())
        .collect();
    assert!(missing.is_empty(), "codes without a recovery test: {missing:?}");
}

/// The parser never reports a code that belongs to the checks over the
/// finished tree.
#[test]
fn semantic_codes_have_no_recovery_snapshot() {
    for (_, source) in recovery_inputs() {
        let stale: Vec<Code> = codes(source).into_iter().filter(|code| code.is_semantic()).collect();
        assert!(stale.is_empty(), "{source:?} reports {stale:?}");
    }
}

#[test]
fn derived_milestone_of_known_base() {
    let source = "\\id GEN\n\\c 1\n\\p \\v 1 a \\k-s |x-strong=\"G1\"\\* b \\k-e\\* c";
    assert_eq!(
        codes(source),
        Vec::<Code>::new(),
        "deriving a milestone from a known base marker should be silent"
    );
}

#[test]
fn character_style_nested_without_plus() {
    let source = "\\id GEN\n\\c 1\n\\p \\v 1 \\bk The Book of the \\nd Lord\\nd*'s Battles\\bk* speaks";
    assert_eq!(
        codes(source),
        vec![Code::CharacterStyleNestedWithoutPlus],
        "nesting a NEST style is the only thing to report"
    );
    check(Code::CharacterStyleNestedWithoutPlus, source);
}

#[test]
fn unclosed_nestable_style_is_a_sibling() {
    let source = "\\id GEN\n\\c 1\n\\p \\v 1 a\\x - \\xo 1.1 \\xt Gen 1\\x* b";
    assert_eq!(codes(source), Vec::<Code>::new());
}

#[test]
fn nesting_inside_notes_follows_the_stylesheet() {
    let source = "\\id GEN\n\\c 1\n\\p \\v 1 a\\f + \\ft see \\xt Gen 1\\xt* or \\fqa quote\\fqa*\\f* b";
    assert_eq!(codes(source), vec![Code::CharacterStyleNestedWithoutPlus]);
}

#[test]
fn verse_with_alternate_and_published_numbers() {
    let source = "\\id GEN\n\\c 1\n\\p \\v 1 \\va 3\\va* \\vp 1b\\vp* text";
    assert_eq!(codes(source), Vec::<Code>::new());
}

#[test]
fn formatted_published_verse_number_stays_a_char() {
    let source = "\\id GEN\n\\c 1\n\\p \\v 21 \\vp \\+it 21\\+it*\\vp* text";
    assert_eq!(codes(source), Vec::<Code>::new());
}

#[test]
fn implicit_closure_in_note_is_silent() {
    let codes =
        codes("\\id GEN\n\\c 1\n\\p \\v 1 a\\f + \\fr 1.1 \\ft note \\fq quote\\f* b");
    assert_eq!(codes, vec![]);
}

#[test]
fn star_note_caller() {
    let source = "\\id GEN\n\\c 1\n\\p \\v 1 text\\f * \\ft note\\f* more";
    assert_eq!(
        codes(source),
        Vec::<Code>::new(),
        "`*` is a legitimate custom caller"
    );
}

#[test]
fn star_note_caller_with_trailing_word() {
    let source = "\\id GEN\n\\c 1\n\\p \\v 1 text\\f *abc \\ft note\\f* more";
    assert_eq!(codes(source), Vec::<Code>::new());
}

#[test]
fn sidebar_with_category_inside_a_verse() {
    let source = "\\id GEN\n\\c 1\n\\p \\v 1 before\n\\esb \\cat People\\cat*\n\\ms Title\n\\p inside\n\\esbe\n\\p after\n\\p \\v 2 next";
    assert_eq!(codes(source), Vec::<Code>::new());
}

#[test]
fn periph_divisions() {
    let source = "\\id FRT\n\\periph Title Page|id=\"title\"\n\\p one\n\\periph Preface|preface\n\\p two";
    assert_eq!(codes(source), Vec::<Code>::new());
}

#[test]
fn verse_ends_before_a_non_verse_text_paragraph() {
    let source = "\\id GEN\n\\c 1\n\\p \\v 9 nine\n\\lit Glory:\n\\v 15 fifteen\n\\p \\v 16 sixteen";
    assert_eq!(codes(source), Vec::<Code>::new());
}

#[test]
fn note_category() {
    let source = "\\id GEN\n\\c 1\n\\p \\v 1 a\\f + \\cat ex st\\cat* \\fr 1.1 \\ft note\\f* b";
    assert_eq!(codes(source), Vec::<Code>::new());
}

#[test]
fn verse_ends_before_the_next_chapter() {
    let source = "\\id GEN\n\\c 1\n\\p \\v 5 last\n\\q1 line\n\\c 2\n\\s1 Heading\n\\d A Psalm\n\\p \\v 1 first";
    assert_eq!(codes(source), Vec::<Code>::new());
}

#[test]
fn markers_supplied_by_the_stylesheet_supplement() {
    let source = "\\id GEN\n\\ipc (50.24)\n\\c 1\n\\p \\v 1 \\ta color|a-uk=\"colour\"\\ta* and \\wl tăiat|lang=\"ro\"\\wl*\\ex + \\xo 1:1 \\xo* \\xt Matt 1:1\\xt* \\xta and\\xta*\\ex*";
    assert_eq!(codes(source), Vec::<Code>::new());
}

// Inputs that other tools repair before parsing: each is a recovery shape
// that reports nothing here.

#[test]
fn autofix_b_without_p() {
    let source = "\\id GEN genesis Some desc\n\\c 1\n\\p\n\\v 1 test verse\n\\s some poem\n\\q1\nfirst line\n\\b\n\\q1\n\\v 2 more lines\n\\b\nremaining verses\n\\v 3 text follows\n\\c 2\n\\p\n\\v 1 test verse\n\\s some poem\n\\q1\nfirst line\n\\b\n\\q1\n\\v 2 more lines\n\\b\n\\v 3 verse follows";
    assert_eq!(codes(source), Vec::<Code>::new());
}

#[test]
fn autofix_s5_without_p() {
    let source = "\\id GEN genesis Some desc\n\\c 1\n\\p\n\\v 1 test verse\n\\s5\nsome more text\n\\v 2 more verse\n\\c 2\n\\p\n\\v 1 next chapter\n";
    assert_eq!(codes(source), Vec::<Code>::new());
}

#[test]
fn autofix_s5_1() {
    let source =
        "\\id GEN genesis Some desc\n\\c 1\n\\p\n\\v 1 test verse\n\\s5\n\\p\nsome more text";
    assert_eq!(codes(source), Vec::<Code>::new());
}

#[test]
fn autofix_empty_marker() {
    let source = "\\id GEN genesis Some desc\n\\c 1\n\\p\n\\v 1 test verse\n\\s3 test\n\\sp\n\\p\n\\v 2 more verse \n\\c 2\n\\p\n\\v 1 text and \n\\v 2 more text";
    assert_eq!(codes(source), Vec::<Code>::new());
}
