use usfm::diagnostics::{escape_json, line_col, Code, Diagnostic, Severity, UnknownCode};
use usfm::span::{LineIndex, Span};

#[test]
fn severity_ordering() {
    assert!(Severity::Error > Severity::Warning);
    assert!(Severity::Warning > Severity::Info);
}

fn next_variant(code: Code) -> Option<Code> {
    Some(match code {
        Code::UnknownMarker => Code::UnknownCustomMarker,
        Code::UnknownCustomMarker => Code::UnknownMilestone,
        Code::UnknownMilestone => Code::UnknownCustomMilestone,
        Code::UnknownCustomMilestone => Code::UnmatchedClosingMarker,
        Code::UnmatchedClosingMarker => Code::ParagraphMarkerClosed,
        Code::ParagraphMarkerClosed => Code::UnmatchedMilestoneEnd,
        Code::UnmatchedMilestoneEnd => Code::MilestoneNotClosed,
        Code::MilestoneNotClosed => Code::StrayBackslash,
        Code::StrayBackslash => Code::MarkerNotAllowedHere,
        Code::MarkerNotAllowedHere => Code::MarkerNotListedHere,
        Code::MarkerNotListedHere => Code::NestedMarkerNotNested,
        Code::NestedMarkerNotNested => Code::CharacterStyleNotClosed,
        Code::CharacterStyleNotClosed => Code::CharacterStyleImplicitlyClosed,
        Code::CharacterStyleImplicitlyClosed => Code::CharacterStyleNestedWithoutPlus,
        Code::CharacterStyleNestedWithoutPlus => Code::FigureNotClosed,
        Code::FigureNotClosed => Code::EmptyWord,
        Code::EmptyWord => Code::NoteNotClosed,
        Code::NoteNotClosed => Code::MissingNoteCaller,
        Code::MissingNoteCaller => Code::MissingVerseNumber,
        Code::MissingVerseNumber => Code::MalformedVerseNumber,
        Code::MalformedVerseNumber => Code::VerseInNote,
        Code::VerseInNote => Code::VerseInCharacterStyle,
        Code::VerseInCharacterStyle => Code::VerseInHeading,
        Code::VerseInHeading => Code::VerseOutsideChapter,
        Code::VerseOutsideChapter => Code::VerseTextBeforeChapter,
        Code::VerseTextBeforeChapter => Code::DuplicateVerseNumber,
        Code::DuplicateVerseNumber => Code::VerseOutOfOrder,
        Code::VerseOutOfOrder => Code::DuplicateChapterNumber,
        Code::DuplicateChapterNumber => Code::ChapterOutOfOrder,
        Code::ChapterOutOfOrder => Code::MissingChapterNumber,
        Code::MissingChapterNumber => Code::MalformedChapterNumber,
        Code::MalformedChapterNumber => Code::NumberHasLeadingZero,
        Code::NumberHasLeadingZero => Code::AlternateChapterNotClosed,
        Code::AlternateChapterNotClosed => Code::AlternateVerseNotClosed,
        Code::AlternateVerseNotClosed => Code::MissingBookCode,
        Code::MissingBookCode => Code::UnknownBookCode,
        Code::UnknownBookCode => Code::UnlistedBookCode,
        Code::UnlistedBookCode => Code::MissingId,
        Code::MissingId => Code::IdNotFirst,
        Code::IdNotFirst => Code::EmptyBook,
        Code::EmptyBook => Code::SidebarNotClosed,
        Code::SidebarNotClosed => Code::UnmatchedSidebarEnd,
        Code::UnmatchedSidebarEnd => Code::ContentOutsideParagraph,
        Code::ContentOutsideParagraph => Code::ContentDropped,
        Code::ContentDropped => Code::UnexpectedTableColumn,
        Code::UnexpectedTableColumn => Code::ExpectedTableCell,
        Code::ExpectedTableCell => Code::UnexpectedPipe,
        Code::UnexpectedPipe => Code::UnterminatedAttributeValue,
        Code::UnterminatedAttributeValue => Code::NewlineInAttributes,
        Code::NewlineInAttributes => Code::EmptyAttributeList,
        Code::EmptyAttributeList => Code::EmptyMilestoneAttributeList,
        Code::EmptyMilestoneAttributeList => Code::NoDefaultAttribute,
        Code::NoDefaultAttribute => Code::DefaultAttributeWithOthers,
        Code::DefaultAttributeWithOthers => Code::AttributeValueNotQuoted,
        Code::AttributeValueNotQuoted => Code::MissingAttributeValue,
        Code::MissingAttributeValue => Code::MalformedAttributeName,
        Code::MalformedAttributeName => Code::DuplicateAttribute,
        Code::DuplicateAttribute => Code::Internal,
        Code::Internal => return None,
    })
}

fn all_variants() -> Vec<Code> {
    let mut chain = vec![Code::UnknownMarker];
    while let Some(next) = next_variant(*chain.last().unwrap()) {
        assert!(!chain.contains(&next), "{next:?} appears twice in next_variant's chain");
        chain.push(next);
    }
    for (i, code) in chain.iter().enumerate() {
        assert_eq!(*code as usize, i, "next_variant skips the variant declared before {code:?}");
    }
    chain
}

#[test]
fn all_is_every_variant() {
    let every = all_variants();
    let all = Code::all();
    for code in &every {
        assert!(all.contains(code), "{code:?} is missing from Code::all()");
    }
    assert_eq!(all.len(), every.len(), "Code::all() has an entry that is not a variant, or a duplicate");
}

#[test]
fn every_code_has_a_unique_name() {
    let all = Code::all();
    let mut names: Vec<_> = all.iter().map(|c| c.as_str()).collect();
    names.sort_unstable();
    names.dedup();
    assert_eq!(names.len(), all.len());
}

#[test]
fn every_code_name_is_kebab_case() {
    for code in Code::all() {
        let name = code.as_str();
        assert!(!name.is_empty(), "{code:?} has an empty name");
        for (i, word) in name.split('-').enumerate() {
            assert!(!word.is_empty(), "{name:?} has an empty segment");
            assert!(
                word.bytes().all(|b| b.is_ascii_lowercase() || b.is_ascii_digit()),
                "{name:?} has a segment that is not lowercase ASCII or digits: {word:?}"
            );
            if i == 0 {
                assert!(word.as_bytes()[0].is_ascii_lowercase(), "{name:?} does not start with a letter");
            }
        }
    }
}

#[test]
fn code_name_round_trips() {
    for code in Code::all() {
        assert_eq!(Code::parse(code.as_str()), Some(code));
        assert_eq!(code.as_str().parse::<Code>(), Ok(code));
        assert_eq!(Code::parse(&code.to_string()), Some(code));
    }
    assert_eq!(Code::parse("no-such-code"), None);
    assert_eq!("no-such-code".parse::<Code>(), Err(UnknownCode("no-such-code".to_owned())));
}

#[test]
fn escape_json_control_characters() {
    assert_eq!(escape_json("\u{0}\u{1}\u{1f}"), r"\u0000\u0001\u001f");
    assert_eq!(escape_json("\u{8}\u{c}\r"), r"\b\f\r");
    assert_eq!(escape_json("plain ünïcode /"), "plain ünïcode /");
}

#[test]
fn escape_json_quotes_and_backslashes() {
    assert_eq!(escape_json(r#"say "hi"\"#), r#"say \"hi\"\\"#);
    assert_eq!(escape_json("a\nb\u{1}"), r"a\nb\u0001");
    assert_eq!(escape_json("héllo"), "héllo");
}

#[test]
fn every_severity_has_its_name() {
    assert_eq!(Severity::Info.as_str(), "info");
    assert_eq!(Code::UnknownCustomMarker.severity(), Severity::Warning);
    assert_eq!(Code::UnknownMarker.severity(), Severity::Error);
    assert_eq!(Code::CharacterStyleImplicitlyClosed.severity(), Severity::Info);
    assert!(Code::UnlistedBookCode.is_semantic());
    assert!(!Code::UnknownBookCode.is_semantic());
}

#[test]
fn line_col_positions() {
    let source = "ab\ncdé\nf";
    assert_eq!(line_col(source, 0), (1, 1));
    assert_eq!(line_col(source, 2), (1, 3));
    assert_eq!(line_col(source, 3), (2, 1));
    assert_eq!(line_col(source, 7), (2, 4)); // after the two-byte é
    assert_eq!(line_col(source, 8), (3, 1));
    assert_eq!(line_col(source, 100), (3, 2));
}

#[test]
fn render_is_the_cli_line() {
    let source = "\\id GEN\n\\p text\n\\zz oops\n";
    let index = LineIndex::new(source).unwrap();
    let start = source.find("\\zz").unwrap() as u32;
    let diagnostic = Diagnostic::new(
        Code::UnknownCustomMarker,
        Span::new(start, start + 3),
        "unknown marker \\zz".to_string(),
    );
    assert_eq!(
        diagnostic.render("book.usfm", &index),
        "book.usfm:3:1: warning[unknown-custom-marker]: unknown marker \\zz"
    );
    assert!(!diagnostic.render("book.usfm", &index).ends_with('\n'));
}

#[test]
fn render_counts_columns_in_characters() {
    let source = "\\p ré\\zz\n";
    let index = LineIndex::new(source).unwrap();
    let start = source.find("\\zz").unwrap() as u32;
    let diagnostic =
        Diagnostic::new(Code::UnknownCustomMarker, Span::new(start, start + 3), "x".to_string());
    assert_eq!(start, 6);
    assert_eq!(
        diagnostic.render("book.usfm", &index),
        "book.usfm:1:6: warning[unknown-custom-marker]: x"
    );
}

#[test]
fn json_line_shape() {
    let source = "\\id GEN\n\\p text\n";
    let index = LineIndex::new(source).unwrap();
    let diagnostic = Diagnostic::new(Code::UnknownMarker, Span::new(8, 10), "unknown marker".to_string());
    assert_eq!(
        diagnostic.to_json_line("book.usfm", &index),
        r#"{"file":"book.usfm","line":2,"col":1,"severity":"error","code":"unknown-marker","message":"unknown marker","span":[8,10]}"#
    );
}

#[test]
fn json_line_escapes_message_and_label() {
    let index = LineIndex::new("x").unwrap();
    let diagnostic = Diagnostic::new(
        Code::StrayBackslash,
        Span::new(0, 1),
        "stray \"\\\" before\na new line\tand a tab".to_string(),
    );
    let line = diagnostic.to_json_line("my book.usfm", &index);
    assert_eq!(
        line,
        r#"{"file":"my book.usfm","line":1,"col":1,"severity":"error","code":"stray-backslash","message":"stray \"\\\" before\na new line\tand a tab","span":[0,1]}"#
    );
    assert_eq!(line.lines().count(), 1);
    assert!(!line.contains('\t'));
}
