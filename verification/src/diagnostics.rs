//! What the parser had to say about the input: a [`Diagnostic`] with its
//! stable [`Code`] and [`Severity`], and the [`ParseResult`] that carries
//! the document together with them.
//!
//! The parser always completes and always produces a document. Anything it
//! had to guess about, repair or drop is a diagnostic; strictness is a policy
//! applied to the result ([`ParseResult::strict`]), not a parser mode.
use vstd::prelude::*;
use crate::ast::Document;
use crate::number::{decimal, push_decimal};
use crate::span::{index_at, line_col_of, LineIndex, Span};
use crate::strings::{push_char, push_str, str_chars, str_eq};

verus! {

/// How serious a diagnostic is, `Error > Warning > Info`.
#[derive(Debug, Clone, Copy, PartialEq, Eq, Structural, PartialOrd, Ord, Hash)]
pub enum Severity {
    /// Worth surfacing in an editor; never a reason to fail a build.
    Info,
    /// Valid USFM, but almost certainly not what was meant.
    Warning,
    /// The input violates USFM and the parser guessed.
    Error,
}

/// The position of a severity in the order `Info < Warning < Error`.
pub open spec fn severity_rank(s: Severity) -> nat {
    match s {
        Severity::Info => 0,
        Severity::Warning => 1,
        Severity::Error => 2,
    }
}

/// The lower-case name of a severity.
pub open spec fn severity_name(s: Severity) -> Seq<char> {
    match s {
        Severity::Info => "info"@,
        Severity::Warning => "warning"@,
        Severity::Error => "error"@,
    }
}

impl Severity {
    /// `0`, `1` or `2`, in the order of the variants.
    pub fn rank(&self) -> (r: u8)
        ensures
            r == severity_rank(*self),
    {
        match self {
            Severity::Info => 0,
            Severity::Warning => 1,
            Severity::Error => 2,
        }
    }

    /// Whether `self` is at least as serious as `threshold`.
    pub fn at_least(&self, threshold: Severity) -> (b: bool)
        ensures
            b == (severity_rank(*self) >= severity_rank(threshold)),
    {
        self.rank() >= threshold.rank()
    }

    /// `"info"`, `"warning"` or `"error"`.
    pub fn as_str(&self) -> (name: &'static str)
        ensures
            name@ == severity_name(*self),
    {
        match self {
            Severity::Info => "info",
            Severity::Warning => "warning",
            Severity::Error => "error",
        }
    }
}

/// Stable identifiers for every situation the parser recovers from, and for
/// the judgements the checks over a finished tree make.
#[derive(Debug, Clone, Copy, PartialEq, Eq, Structural, Hash)]
pub enum Code {
    UnknownMarker,
    UnknownCustomMarker,
    UnknownMilestone,
    UnknownCustomMilestone,
    UnmatchedClosingMarker,
    ParagraphMarkerClosed,
    UnmatchedMilestoneEnd,
    MilestoneNotClosed,
    StrayBackslash,
    MarkerNotAllowedHere,
    MarkerNotListedHere,
    NestedMarkerNotNested,
    CharacterStyleNotClosed,
    CharacterStyleImplicitlyClosed,
    CharacterStyleNestedWithoutPlus,
    FigureNotClosed,
    EmptyWord,
    NoteNotClosed,
    MissingNoteCaller,
    MissingVerseNumber,
    MalformedVerseNumber,
    VerseInNote,
    VerseInCharacterStyle,
    VerseInHeading,
    VerseOutsideChapter,
    VerseTextBeforeChapter,
    DuplicateVerseNumber,
    VerseOutOfOrder,
    DuplicateChapterNumber,
    ChapterOutOfOrder,
    MissingChapterNumber,
    MalformedChapterNumber,
    NumberHasLeadingZero,
    AlternateChapterNotClosed,
    AlternateVerseNotClosed,
    MissingBookCode,
    UnknownBookCode,
    UnlistedBookCode,
    MissingId,
    IdNotFirst,
    EmptyBook,
    SidebarNotClosed,
    UnmatchedSidebarEnd,
    ContentOutsideParagraph,
    ContentDropped,
    UnexpectedTableColumn,
    ExpectedTableCell,
    UnexpectedPipe,
    UnterminatedAttributeValue,
    NewlineInAttributes,
    EmptyAttributeList,
    EmptyMilestoneAttributeList,
    NoDefaultAttribute,
    DefaultAttributeWithOthers,
    AttributeValueNotQuoted,
    MissingAttributeValue,
    MalformedAttributeName,
    DuplicateAttribute,
    Internal,
}

/// The kebab-case name of a code.
pub open spec fn code_name(code: Code) -> Seq<char> {
    match code {
        Code::UnknownMarker => "unknown-marker"@,
        Code::UnknownCustomMarker => "unknown-custom-marker"@,
        Code::UnknownMilestone => "unknown-milestone"@,
        Code::UnknownCustomMilestone => "unknown-custom-milestone"@,
        Code::UnmatchedClosingMarker => "unmatched-closing-marker"@,
        Code::ParagraphMarkerClosed => "paragraph-marker-closed"@,
        Code::UnmatchedMilestoneEnd => "unmatched-milestone-end"@,
        Code::MilestoneNotClosed => "milestone-not-closed"@,
        Code::StrayBackslash => "stray-backslash"@,
        Code::MarkerNotAllowedHere => "marker-not-allowed-here"@,
        Code::MarkerNotListedHere => "marker-not-listed-here"@,
        Code::NestedMarkerNotNested => "nested-marker-not-nested"@,
        Code::CharacterStyleNotClosed => "character-style-not-closed"@,
        Code::CharacterStyleImplicitlyClosed => "character-style-implicitly-closed"@,
        Code::CharacterStyleNestedWithoutPlus => "character-style-nested-without-plus"@,
        Code::FigureNotClosed => "figure-not-closed"@,
        Code::EmptyWord => "empty-word"@,
        Code::NoteNotClosed => "note-not-closed"@,
        Code::MissingNoteCaller => "missing-note-caller"@,
        Code::MissingVerseNumber => "missing-verse-number"@,
        Code::MalformedVerseNumber => "malformed-verse-number"@,
        Code::VerseInNote => "verse-in-note"@,
        Code::VerseInCharacterStyle => "verse-in-character-style"@,
        Code::VerseInHeading => "verse-in-heading"@,
        Code::VerseOutsideChapter => "verse-outside-chapter"@,
        Code::VerseTextBeforeChapter => "verse-text-before-chapter"@,
        Code::DuplicateVerseNumber => "duplicate-verse-number"@,
        Code::VerseOutOfOrder => "verse-out-of-order"@,
        Code::DuplicateChapterNumber => "duplicate-chapter-number"@,
        Code::ChapterOutOfOrder => "chapter-out-of-order"@,
        Code::MissingChapterNumber => "missing-chapter-number"@,
        Code::MalformedChapterNumber => "malformed-chapter-number"@,
        Code::NumberHasLeadingZero => "number-has-leading-zero"@,
        Code::AlternateChapterNotClosed => "alternate-chapter-not-closed"@,
        Code::AlternateVerseNotClosed => "alternate-verse-not-closed"@,
        Code::MissingBookCode => "missing-book-code"@,
        Code::UnknownBookCode => "unknown-book-code"@,
        Code::UnlistedBookCode => "unlisted-book-code"@,
        Code::MissingId => "missing-id"@,
        Code::IdNotFirst => "id-not-first"@,
        Code::EmptyBook => "empty-book"@,
        Code::SidebarNotClosed => "sidebar-not-closed"@,
        Code::UnmatchedSidebarEnd => "unmatched-sidebar-end"@,
        Code::ContentOutsideParagraph => "content-outside-paragraph"@,
        Code::ContentDropped => "content-dropped"@,
        Code::UnexpectedTableColumn => "unexpected-table-column"@,
        Code::ExpectedTableCell => "expected-table-cell"@,
        Code::UnexpectedPipe => "unexpected-pipe"@,
        Code::UnterminatedAttributeValue => "unterminated-attribute-value"@,
        Code::NewlineInAttributes => "newline-in-attributes"@,
        Code::EmptyAttributeList => "empty-attribute-list"@,
        Code::EmptyMilestoneAttributeList => "empty-milestone-attribute-list"@,
        Code::NoDefaultAttribute => "no-default-attribute"@,
        Code::DefaultAttributeWithOthers => "default-attribute-with-others"@,
        Code::AttributeValueNotQuoted => "attribute-value-not-quoted"@,
        Code::MissingAttributeValue => "missing-attribute-value"@,
        Code::MalformedAttributeName => "malformed-attribute-name"@,
        Code::DuplicateAttribute => "duplicate-attribute"@,
        Code::Internal => "internal"@,
    }
}

/// A name as one number, which tells the codes' names apart.
pub open spec fn code_name_key(name: Seq<char>) -> int {
    name.len() * 0x40000000000 + (name[6] as int) * 0x200000 + if name.len() > 11 {
        name[11] as int
    } else {
        0
    }
}

/// The code whose name has key `k`.
pub open spec fn code_of_key(k: int) -> Option<Code> {
    if k == 61572881842283 { Some(Code::UnknownMarker) } else
    if k == 92359207420020 { Some(Code::UnknownCustomMarker) } else
    if k == 74767021375589 { Some(Code::UnknownMilestone) } else
    if k == 105553346953332 { Some(Code::UnknownCustomMilestone) } else
    if k == 105553334370412 { Some(Code::UnmatchedClosingMarker) } else
    if k == 101155273179233 { Some(Code::ParagraphMarkerClosed) } else
    if k == 101155287859305 { Some(Code::UnmatchedMilestoneEnd) } else
    if k == 87961163006063 { Some(Code::MilestoneNotClosed) } else
    if k == 65970903187564 { Some(Code::StrayBackslash) } else
    if k == 101155164127329 { Some(Code::MarkerNotAllowedHere) } else
    if k == 96757117616236 { Some(Code::MarkerNotListedHere) } else
    if k == 105553210638437 { Some(Code::NestedMarkerNotNested) } else
    if k == 114349452558452 { Some(Code::CharacterStyleNotClosed) } else
    if k == 145135778136180 { Some(Code::CharacterStyleImplicitlyClosed) } else
    if k == 153931871158388 { Some(Code::CharacterStyleNestedWithoutPlus) } else
    if k == 74766885060707 { Some(Code::FigureNotClosed) } else
    if k == 43980714672128 { Some(Code::EmptyWord) } else
    if k == 65970930450543 { Some(Code::NoteNotClosed) } else
    if k == 83563099717733 { Some(Code::MissingNoteCaller) } else
    if k == 87961146228851 { Some(Code::MissingVerseNumber) } else
    if k == 96757251833957 { Some(Code::MalformedVerseNumber) } else
    if k == 57174824845428 { Some(Code::VerseInNote) } else
    if k == 105553336467553 { Some(Code::VerseInCharacterStyle) } else
    if k == 70368964378721 { Some(Code::VerseInHeading) } else
    if k == 92359209517156 { Some(Code::VerseOutsideChapter) } else
    if k == 109951406047330 { Some(Code::VerseTextBeforeChapter) } else
    if k == 96757226668133 { Some(Code::DuplicateVerseNumber) } else
    if k == 79165069983846 { Some(Code::VerseOutOfOrder) } else
    if k == 105553319690344 { Some(Code::DuplicateChapterNumber) } else
    if k == 87961169297453 { Some(Code::ChapterOutOfOrder) } else
    if k == 96757239251056 { Some(Code::MissingChapterNumber) } else
    if k == 105553344856168 { Some(Code::MalformedChapterNumber) } else
    if k == 101155164127340 { Some(Code::NumberHasLeadingZero) } else
    if k == 123145505734760 { Some(Code::AlternateChapterNotClosed) } else
    if k == 114349412712549 { Some(Code::AlternateVerseNotClosed) } else
    if k == 74767006695531 { Some(Code::MissingBookCode) } else
    if k == 74767021375595 { Some(Code::UnknownBookCode) } else
    if k == 79165049012335 { Some(Code::UnlistedBookCode) } else
    if k == 43980681117696 { Some(Code::MissingId) } else
    if k == 52776652505204 { Some(Code::IdNotFirst) } else
    if k == 43980670631936 { Some(Code::EmptyBook) } else
    if k == 79165076275245 { Some(Code::SidebarNotClosed) } else
    if k == 92359194837097 { Some(Code::UnmatchedSidebarEnd) } else
    if k == 109951406047347 { Some(Code::ContentOutsideParagraph) } else
    if k == 65970940936304 { Some(Code::ContentDropped) } else
    if k == 101155277373556 { Some(Code::UnexpectedTableColumn) } else
    if k == 83563095523426 { Some(Code::ExpectedTableCell) } else
    if k == 65970905284720 { Some(Code::UnexpectedPipe) } else
    if k == 123145522511972 { Some(Code::UnterminatedAttributeValue) } else
    if k == 92359188545633 { Some(Code::NewlineInAttributes) } else
    if k == 87961133645922 { Some(Code::EmptyAttributeList) } else
    if k == 131941623922804 { Some(Code::EmptyMilestoneAttributeList) } else
    if k == 87961133645921 { Some(Code::NoDefaultAttribute) } else
    if k == 127543592091762 { Some(Code::DefaultAttributeWithOthers) } else
    if k == 114349454655585 { Some(Code::AttributeValueNotQuoted) } else
    if k == 101155285762162 { Some(Code::MissingAttributeValue) } else
    if k == 105553344856180 { Some(Code::MalformedAttributeName) } else
    if k == 83563087134836 { Some(Code::DuplicateAttribute) } else
    if k == 35184575512576 { Some(Code::Internal) } else
    { None }
}

proof fn lemma_code_name_key(code: Code)
    ensures
        code_of_key(code_name_key(code_name(code))) == Some(code),
{
    match code {
        Code::UnknownMarker => {
            reveal_strlit("unknown-marker");
            assert(code_name_key(code_name(code)) == 61572881842283);
        },
        Code::UnknownCustomMarker => {
            reveal_strlit("unknown-custom-marker");
            assert(code_name_key(code_name(code)) == 92359207420020);
        },
        Code::UnknownMilestone => {
            reveal_strlit("unknown-milestone");
            assert(code_name_key(code_name(code)) == 74767021375589);
        },
        Code::UnknownCustomMilestone => {
            reveal_strlit("unknown-custom-milestone");
            assert(code_name_key(code_name(code)) == 105553346953332);
        },
        Code::UnmatchedClosingMarker => {
            reveal_strlit("unmatched-closing-marker");
            assert(code_name_key(code_name(code)) == 105553334370412);
        },
        Code::ParagraphMarkerClosed => {
            reveal_strlit("paragraph-marker-closed");
            assert(code_name_key(code_name(code)) == 101155273179233);
        },
        Code::UnmatchedMilestoneEnd => {
            reveal_strlit("unmatched-milestone-end");
            assert(code_name_key(code_name(code)) == 101155287859305);
        },
        Code::MilestoneNotClosed => {
            reveal_strlit("milestone-not-closed");
            assert(code_name_key(code_name(code)) == 87961163006063);
        },
        Code::StrayBackslash => {
            reveal_strlit("stray-backslash");
            assert(code_name_key(code_name(code)) == 65970903187564);
        },
        Code::MarkerNotAllowedHere => {
            reveal_strlit("marker-not-allowed-here");
            assert(code_name_key(code_name(code)) == 101155164127329);
        },
        Code::MarkerNotListedHere => {
            reveal_strlit("marker-not-listed-here");
            assert(code_name_key(code_name(code)) == 96757117616236);
        },
        Code::NestedMarkerNotNested => {
            reveal_strlit("nested-marker-not-nested");
            assert(code_name_key(code_name(code)) == 105553210638437);
        },
        Code::CharacterStyleNotClosed => {
            reveal_strlit("character-style-not-closed");
            assert(code_name_key(code_name(code)) == 114349452558452);
        },
        Code::CharacterStyleImplicitlyClosed => {
            reveal_strlit("character-style-implicitly-closed");
            assert(code_name_key(code_name(code)) == 145135778136180);
        },
        Code::CharacterStyleNestedWithoutPlus => {
            reveal_strlit("character-style-nested-without-plus");
            assert(code_name_key(code_name(code)) == 153931871158388);
        },
        Code::FigureNotClosed => {
            reveal_strlit("figure-not-closed");
            assert(code_name_key(code_name(code)) == 74766885060707);
        },
        Code::EmptyWord => {
            reveal_strlit("empty-word");
            assert(code_name_key(code_name(code)) == 43980714672128);
        },
        Code::NoteNotClosed => {
            reveal_strlit("note-not-closed");
            assert(code_name_key(code_name(code)) == 65970930450543);
        },
        Code::MissingNoteCaller => {
            reveal_strlit("missing-note-caller");
            assert(code_name_key(code_name(code)) == 83563099717733);
        },
        Code::MissingVerseNumber => {
            reveal_strlit("missing-verse-number");
            assert(code_name_key(code_name(code)) == 87961146228851);
        },
        Code::MalformedVerseNumber => {
            reveal_strlit("malformed-verse-number");
            assert(code_name_key(code_name(code)) == 96757251833957);
        },
        Code::VerseInNote => {
            reveal_strlit("verse-in-note");
            assert(code_name_key(code_name(code)) == 57174824845428);
        },
        Code::VerseInCharacterStyle => {
            reveal_strlit("verse-in-character-style");
            assert(code_name_key(code_name(code)) == 105553336467553);
        },
        Code::VerseInHeading => {
            reveal_strlit("verse-in-heading");
            assert(code_name_key(code_name(code)) == 70368964378721);
        },
        Code::VerseOutsideChapter => {
            reveal_strlit("verse-outside-chapter");
            assert(code_name_key(code_name(code)) == 92359209517156);
        },
        Code::VerseTextBeforeChapter => {
            reveal_strlit("verse-text-before-chapter");
            assert(code_name_key(code_name(code)) == 109951406047330);
        },
        Code::DuplicateVerseNumber => {
            reveal_strlit("duplicate-verse-number");
            assert(code_name_key(code_name(code)) == 96757226668133);
        },
        Code::VerseOutOfOrder => {
            reveal_strlit("verse-out-of-order");
            assert(code_name_key(code_name(code)) == 79165069983846);
        },
        Code::DuplicateChapterNumber => {
            reveal_strlit("duplicate-chapter-number");
            assert(code_name_key(code_name(code)) == 105553319690344);
        },
        Code::ChapterOutOfOrder => {
            reveal_strlit("chapter-out-of-order");
            assert(code_name_key(code_name(code)) == 87961169297453);
        },
        Code::MissingChapterNumber => {
            reveal_strlit("missing-chapter-number");
            assert(code_name_key(code_name(code)) == 96757239251056);
        },
        Code::MalformedChapterNumber => {
            reveal_strlit("malformed-chapter-number");
            assert(code_name_key(code_name(code)) == 105553344856168);
        },
        Code::NumberHasLeadingZero => {
            reveal_strlit("number-has-leading-zero");
            assert(code_name_key(code_name(code)) == 101155164127340);
        },
        Code::AlternateChapterNotClosed => {
            reveal_strlit("alternate-chapter-not-closed");
            assert(code_name_key(code_name(code)) == 123145505734760);
        },
        Code::AlternateVerseNotClosed => {
            reveal_strlit("alternate-verse-not-closed");
            assert(code_name_key(code_name(code)) == 114349412712549);
        },
        Code::MissingBookCode => {
            reveal_strlit("missing-book-code");
            assert(code_name_key(code_name(code)) == 74767006695531);
        },
        Code::UnknownBookCode => {
            reveal_strlit("unknown-book-code");
            assert(code_name_key(code_name(code)) == 74767021375595);
        },
        Code::UnlistedBookCode => {
            reveal_strlit("unlisted-book-code");
            assert(code_name_key(code_name(code)) == 79165049012335);
        },
        Code::MissingId => {
            reveal_strlit("missing-id");
            assert(code_name_key(code_name(code)) == 43980681117696);
        },
        Code::IdNotFirst => {
            reveal_strlit("id-not-first");
            assert(code_name_key(code_name(code)) == 52776652505204);
        },
        Code::EmptyBook => {
            reveal_strlit("empty-book");
            assert(code_name_key(code_name(code)) == 43980670631936);
        },
        Code::SidebarNotClosed => {
            reveal_strlit("sidebar-not-closed");
            assert(code_name_key(code_name(code)) == 79165076275245);
        },
        Code::UnmatchedSidebarEnd => {
            reveal_strlit("unmatched-sidebar-end");
            assert(code_name_key(code_name(code)) == 92359194837097);
        },
        Code::ContentOutsideParagraph => {
            reveal_strlit("content-outside-paragraph");
            assert(code_name_key(code_name(code)) == 109951406047347);
        },
        Code::ContentDropped => {
            reveal_strlit("content-dropped");
            assert(code_name_key(code_name(code)) == 65970940936304);
        },
        Code::UnexpectedTableColumn => {
            reveal_strlit("unexpected-table-column");
            assert(code_name_key(code_name(code)) == 101155277373556);
        },
        Code::ExpectedTableCell => {
            reveal_strlit("expected-table-cell");
            assert(code_name_key(code_name(code)) == 83563095523426);
        },
        Code::UnexpectedPipe => {
            reveal_strlit("unexpected-pipe");
            assert(code_name_key(code_name(code)) == 65970905284720);
        },
        Code::UnterminatedAttributeValue => {
            reveal_strlit("unterminated-attribute-value");
            assert(code_name_key(code_name(code)) == 123145522511972);
        },
        Code::NewlineInAttributes => {
            reveal_strlit("newline-in-attributes");
            assert(code_name_key(code_name(code)) == 92359188545633);
        },
        Code::EmptyAttributeList => {
            reveal_strlit("empty-attribute-list");
            assert(code_name_key(code_name(code)) == 87961133645922);
        },
        Code::EmptyMilestoneAttributeList => {
            reveal_strlit("empty-milestone-attribute-list");
            assert(code_name_key(code_name(code)) == 131941623922804);
        },
        Code::NoDefaultAttribute => {
            reveal_strlit("no-default-attribute");
            assert(code_name_key(code_name(code)) == 87961133645921);
        },
        Code::DefaultAttributeWithOthers => {
            reveal_strlit("default-attribute-with-others");
            assert(code_name_key(code_name(code)) == 127543592091762);
        },
        Code::AttributeValueNotQuoted => {
            reveal_strlit("attribute-value-not-quoted");
            assert(code_name_key(code_name(code)) == 114349454655585);
        },
        Code::MissingAttributeValue => {
            reveal_strlit("missing-attribute-value");
            assert(code_name_key(code_name(code)) == 101155285762162);
        },
        Code::MalformedAttributeName => {
            reveal_strlit("malformed-attribute-name");
            assert(code_name_key(code_name(code)) == 105553344856180);
        },
        Code::DuplicateAttribute => {
            reveal_strlit("duplicate-attribute");
            assert(code_name_key(code_name(code)) == 83563087134836);
        },
        Code::Internal => {
            reveal_strlit("internal");
            assert(code_name_key(code_name(code)) == 35184575512576);
        },
    }
}

/// No two codes share a name.
pub proof fn law_code_names_are_distinct(a: Code, b: Code)
    ensures
        code_name(a) == code_name(b) ==> a == b,
{
    lemma_code_name_key(a);
    lemma_code_name_key(b);
}

/// The severity a code always carries.
pub open spec fn code_severity(code: Code) -> Severity {
    match code {
        Code::UnknownCustomMarker
        | Code::UnknownMilestone
        | Code::NestedMarkerNotNested
        | Code::CharacterStyleNotClosed
        | Code::VerseInCharacterStyle
        | Code::EmptyMilestoneAttributeList
        | Code::UnlistedBookCode
        | Code::DuplicateVerseNumber
        | Code::VerseOutOfOrder
        | Code::DuplicateChapterNumber
        | Code::ChapterOutOfOrder => Severity::Warning,
        Code::CharacterStyleImplicitlyClosed
        | Code::CharacterStyleNestedWithoutPlus
        | Code::MarkerNotListedHere
        | Code::UnknownCustomMilestone => Severity::Info,
        _ => Severity::Error,
    }
}

/// Whether a code is reported by the checks over the finished tree rather
/// than by the parser.
pub open spec fn code_is_semantic(code: Code) -> bool {
    match code {
        Code::UnlistedBookCode
        | Code::MarkerNotAllowedHere
        | Code::MarkerNotListedHere
        | Code::EmptyAttributeList
        | Code::EmptyMilestoneAttributeList
        | Code::NoDefaultAttribute
        | Code::DefaultAttributeWithOthers
        | Code::MalformedAttributeName
        | Code::DuplicateAttribute
        | Code::MissingId
        | Code::IdNotFirst
        | Code::EmptyBook
        | Code::VerseTextBeforeChapter
        | Code::VerseOutsideChapter
        | Code::VerseInHeading
        | Code::VerseInCharacterStyle
        | Code::UnexpectedTableColumn
        | Code::EmptyWord
        | Code::DuplicateVerseNumber
        | Code::VerseOutOfOrder
        | Code::DuplicateChapterNumber
        | Code::ChapterOutOfOrder => true,
        _ => false,
    }
}

/// Every code, in the order [`Code::all`] lists them.
pub open spec fn all_codes() -> Seq<Code> {
    seq![
        Code::UnknownMarker,
        Code::UnknownCustomMarker,
        Code::UnknownMilestone,
        Code::UnknownCustomMilestone,
        Code::UnmatchedClosingMarker,
        Code::ParagraphMarkerClosed,
        Code::UnmatchedMilestoneEnd,
        Code::MilestoneNotClosed,
        Code::StrayBackslash,
        Code::MarkerNotAllowedHere,
        Code::MarkerNotListedHere,
        Code::NestedMarkerNotNested,
        Code::CharacterStyleNotClosed,
        Code::CharacterStyleImplicitlyClosed,
        Code::CharacterStyleNestedWithoutPlus,
        Code::FigureNotClosed,
        Code::EmptyWord,
        Code::NoteNotClosed,
        Code::MissingNoteCaller,
        Code::MissingVerseNumber,
        Code::MalformedVerseNumber,
        Code::VerseInNote,
        Code::VerseInCharacterStyle,
        Code::VerseInHeading,
        Code::VerseOutsideChapter,
        Code::VerseTextBeforeChapter,
        Code::DuplicateVerseNumber,
        Code::VerseOutOfOrder,
        Code::DuplicateChapterNumber,
        Code::ChapterOutOfOrder,
        Code::MissingChapterNumber,
        Code::MalformedChapterNumber,
        Code::AlternateChapterNotClosed,
        Code::AlternateVerseNotClosed,
        Code::MissingBookCode,
        Code::UnknownBookCode,
        Code::UnlistedBookCode,
        Code::MissingId,
        Code::IdNotFirst,
        Code::EmptyBook,
        Code::SidebarNotClosed,
        Code::UnmatchedSidebarEnd,
        Code::ContentOutsideParagraph,
        Code::ContentDropped,
        Code::ExpectedTableCell,
        Code::UnexpectedTableColumn,
        Code::UnexpectedPipe,
        Code::UnterminatedAttributeValue,
        Code::NewlineInAttributes,
        Code::EmptyAttributeList,
        Code::EmptyMilestoneAttributeList,
        Code::NoDefaultAttribute,
        Code::DefaultAttributeWithOthers,
        Code::AttributeValueNotQuoted,
        Code::MissingAttributeValue,
        Code::MalformedAttributeName,
        Code::DuplicateAttribute,
        Code::NumberHasLeadingZero,
        Code::Internal,
    ]
}

/// Every code is in [`all_codes`].
pub proof fn lemma_all_codes_complete(code: Code)
    ensures
        all_codes().contains(code),
{
    match code {
        Code::UnknownMarker => assert(all_codes()[0] == code),
        Code::UnknownCustomMarker => assert(all_codes()[1] == code),
        Code::UnknownMilestone => assert(all_codes()[2] == code),
        Code::UnknownCustomMilestone => assert(all_codes()[3] == code),
        Code::UnmatchedClosingMarker => assert(all_codes()[4] == code),
        Code::ParagraphMarkerClosed => assert(all_codes()[5] == code),
        Code::UnmatchedMilestoneEnd => assert(all_codes()[6] == code),
        Code::MilestoneNotClosed => assert(all_codes()[7] == code),
        Code::StrayBackslash => assert(all_codes()[8] == code),
        Code::MarkerNotAllowedHere => assert(all_codes()[9] == code),
        Code::MarkerNotListedHere => assert(all_codes()[10] == code),
        Code::NestedMarkerNotNested => assert(all_codes()[11] == code),
        Code::CharacterStyleNotClosed => assert(all_codes()[12] == code),
        Code::CharacterStyleImplicitlyClosed => assert(all_codes()[13] == code),
        Code::CharacterStyleNestedWithoutPlus => assert(all_codes()[14] == code),
        Code::FigureNotClosed => assert(all_codes()[15] == code),
        Code::EmptyWord => assert(all_codes()[16] == code),
        Code::NoteNotClosed => assert(all_codes()[17] == code),
        Code::MissingNoteCaller => assert(all_codes()[18] == code),
        Code::MissingVerseNumber => assert(all_codes()[19] == code),
        Code::MalformedVerseNumber => assert(all_codes()[20] == code),
        Code::VerseInNote => assert(all_codes()[21] == code),
        Code::VerseInCharacterStyle => assert(all_codes()[22] == code),
        Code::VerseInHeading => assert(all_codes()[23] == code),
        Code::VerseOutsideChapter => assert(all_codes()[24] == code),
        Code::VerseTextBeforeChapter => assert(all_codes()[25] == code),
        Code::DuplicateVerseNumber => assert(all_codes()[26] == code),
        Code::VerseOutOfOrder => assert(all_codes()[27] == code),
        Code::DuplicateChapterNumber => assert(all_codes()[28] == code),
        Code::ChapterOutOfOrder => assert(all_codes()[29] == code),
        Code::MissingChapterNumber => assert(all_codes()[30] == code),
        Code::MalformedChapterNumber => assert(all_codes()[31] == code),
        Code::NumberHasLeadingZero => assert(all_codes()[57] == code),
        Code::AlternateChapterNotClosed => assert(all_codes()[32] == code),
        Code::AlternateVerseNotClosed => assert(all_codes()[33] == code),
        Code::MissingBookCode => assert(all_codes()[34] == code),
        Code::UnknownBookCode => assert(all_codes()[35] == code),
        Code::UnlistedBookCode => assert(all_codes()[36] == code),
        Code::MissingId => assert(all_codes()[37] == code),
        Code::IdNotFirst => assert(all_codes()[38] == code),
        Code::EmptyBook => assert(all_codes()[39] == code),
        Code::SidebarNotClosed => assert(all_codes()[40] == code),
        Code::UnmatchedSidebarEnd => assert(all_codes()[41] == code),
        Code::ContentOutsideParagraph => assert(all_codes()[42] == code),
        Code::ContentDropped => assert(all_codes()[43] == code),
        Code::UnexpectedTableColumn => assert(all_codes()[45] == code),
        Code::ExpectedTableCell => assert(all_codes()[44] == code),
        Code::UnexpectedPipe => assert(all_codes()[46] == code),
        Code::UnterminatedAttributeValue => assert(all_codes()[47] == code),
        Code::NewlineInAttributes => assert(all_codes()[48] == code),
        Code::EmptyAttributeList => assert(all_codes()[49] == code),
        Code::EmptyMilestoneAttributeList => assert(all_codes()[50] == code),
        Code::NoDefaultAttribute => assert(all_codes()[51] == code),
        Code::DefaultAttributeWithOthers => assert(all_codes()[52] == code),
        Code::AttributeValueNotQuoted => assert(all_codes()[53] == code),
        Code::MissingAttributeValue => assert(all_codes()[54] == code),
        Code::MalformedAttributeName => assert(all_codes()[55] == code),
        Code::DuplicateAttribute => assert(all_codes()[56] == code),
        Code::Internal => assert(all_codes()[58] == code),
    }
}

impl Code {
    /// Every code, for exhaustive tests.
    #[verifier::rlimit(80)]
    pub fn all() -> (codes: Vec<Code>)
        ensures
            codes@ == all_codes(),
    {
        let mut codes = Vec::new();
        codes.push(Code::UnknownMarker);
        codes.push(Code::UnknownCustomMarker);
        codes.push(Code::UnknownMilestone);
        codes.push(Code::UnknownCustomMilestone);
        codes.push(Code::UnmatchedClosingMarker);
        codes.push(Code::ParagraphMarkerClosed);
        codes.push(Code::UnmatchedMilestoneEnd);
        codes.push(Code::MilestoneNotClosed);
        codes.push(Code::StrayBackslash);
        codes.push(Code::MarkerNotAllowedHere);
        codes.push(Code::MarkerNotListedHere);
        codes.push(Code::NestedMarkerNotNested);
        codes.push(Code::CharacterStyleNotClosed);
        codes.push(Code::CharacterStyleImplicitlyClosed);
        codes.push(Code::CharacterStyleNestedWithoutPlus);
        codes.push(Code::FigureNotClosed);
        codes.push(Code::EmptyWord);
        codes.push(Code::NoteNotClosed);
        codes.push(Code::MissingNoteCaller);
        codes.push(Code::MissingVerseNumber);
        codes.push(Code::MalformedVerseNumber);
        codes.push(Code::VerseInNote);
        codes.push(Code::VerseInCharacterStyle);
        codes.push(Code::VerseInHeading);
        codes.push(Code::VerseOutsideChapter);
        codes.push(Code::VerseTextBeforeChapter);
        codes.push(Code::DuplicateVerseNumber);
        codes.push(Code::VerseOutOfOrder);
        codes.push(Code::DuplicateChapterNumber);
        codes.push(Code::ChapterOutOfOrder);
        codes.push(Code::MissingChapterNumber);
        codes.push(Code::MalformedChapterNumber);
        codes.push(Code::AlternateChapterNotClosed);
        codes.push(Code::AlternateVerseNotClosed);
        codes.push(Code::MissingBookCode);
        codes.push(Code::UnknownBookCode);
        codes.push(Code::UnlistedBookCode);
        codes.push(Code::MissingId);
        codes.push(Code::IdNotFirst);
        codes.push(Code::EmptyBook);
        codes.push(Code::SidebarNotClosed);
        codes.push(Code::UnmatchedSidebarEnd);
        codes.push(Code::ContentOutsideParagraph);
        codes.push(Code::ContentDropped);
        codes.push(Code::ExpectedTableCell);
        codes.push(Code::UnexpectedTableColumn);
        codes.push(Code::UnexpectedPipe);
        codes.push(Code::UnterminatedAttributeValue);
        codes.push(Code::NewlineInAttributes);
        codes.push(Code::EmptyAttributeList);
        codes.push(Code::EmptyMilestoneAttributeList);
        codes.push(Code::NoDefaultAttribute);
        codes.push(Code::DefaultAttributeWithOthers);
        codes.push(Code::AttributeValueNotQuoted);
        codes.push(Code::MissingAttributeValue);
        codes.push(Code::MalformedAttributeName);
        codes.push(Code::DuplicateAttribute);
        codes.push(Code::NumberHasLeadingZero);
        codes.push(Code::Internal);
        assert(codes@ =~= all_codes());
        codes
    }

    /// Stable, machine-readable name in kebab case.
    pub fn as_str(&self) -> (name: &'static str)
        ensures
            name@ == code_name(*self),
    {
        match self {
            Code::UnknownMarker => "unknown-marker",
            Code::UnknownCustomMarker => "unknown-custom-marker",
            Code::UnknownMilestone => "unknown-milestone",
            Code::UnknownCustomMilestone => "unknown-custom-milestone",
            Code::UnmatchedClosingMarker => "unmatched-closing-marker",
            Code::ParagraphMarkerClosed => "paragraph-marker-closed",
            Code::UnmatchedMilestoneEnd => "unmatched-milestone-end",
            Code::MilestoneNotClosed => "milestone-not-closed",
            Code::StrayBackslash => "stray-backslash",
            Code::MarkerNotAllowedHere => "marker-not-allowed-here",
            Code::MarkerNotListedHere => "marker-not-listed-here",
            Code::NestedMarkerNotNested => "nested-marker-not-nested",
            Code::CharacterStyleNotClosed => "character-style-not-closed",
            Code::CharacterStyleImplicitlyClosed => "character-style-implicitly-closed",
            Code::CharacterStyleNestedWithoutPlus => "character-style-nested-without-plus",
            Code::FigureNotClosed => "figure-not-closed",
            Code::EmptyWord => "empty-word",
            Code::NoteNotClosed => "note-not-closed",
            Code::MissingNoteCaller => "missing-note-caller",
            Code::MissingVerseNumber => "missing-verse-number",
            Code::MalformedVerseNumber => "malformed-verse-number",
            Code::VerseInNote => "verse-in-note",
            Code::VerseInCharacterStyle => "verse-in-character-style",
            Code::VerseInHeading => "verse-in-heading",
            Code::VerseOutsideChapter => "verse-outside-chapter",
            Code::VerseTextBeforeChapter => "verse-text-before-chapter",
            Code::DuplicateVerseNumber => "duplicate-verse-number",
            Code::VerseOutOfOrder => "verse-out-of-order",
            Code::DuplicateChapterNumber => "duplicate-chapter-number",
            Code::ChapterOutOfOrder => "chapter-out-of-order",
            Code::MissingChapterNumber => "missing-chapter-number",
            Code::MalformedChapterNumber => "malformed-chapter-number",
            Code::NumberHasLeadingZero => "number-has-leading-zero",
            Code::AlternateChapterNotClosed => "alternate-chapter-not-closed",
            Code::AlternateVerseNotClosed => "alternate-verse-not-closed",
            Code::MissingBookCode => "missing-book-code",
            Code::UnknownBookCode => "unknown-book-code",
            Code::UnlistedBookCode => "unlisted-book-code",
            Code::MissingId => "missing-id",
            Code::IdNotFirst => "id-not-first",
            Code::EmptyBook => "empty-book",
            Code::SidebarNotClosed => "sidebar-not-closed",
            Code::UnmatchedSidebarEnd => "unmatched-sidebar-end",
            Code::ContentOutsideParagraph => "content-outside-paragraph",
            Code::ContentDropped => "content-dropped",
            Code::UnexpectedTableColumn => "unexpected-table-column",
            Code::ExpectedTableCell => "expected-table-cell",
            Code::UnexpectedPipe => "unexpected-pipe",
            Code::UnterminatedAttributeValue => "unterminated-attribute-value",
            Code::NewlineInAttributes => "newline-in-attributes",
            Code::EmptyAttributeList => "empty-attribute-list",
            Code::EmptyMilestoneAttributeList => "empty-milestone-attribute-list",
            Code::NoDefaultAttribute => "no-default-attribute",
            Code::DefaultAttributeWithOthers => "default-attribute-with-others",
            Code::AttributeValueNotQuoted => "attribute-value-not-quoted",
            Code::MissingAttributeValue => "missing-attribute-value",
            Code::MalformedAttributeName => "malformed-attribute-name",
            Code::DuplicateAttribute => "duplicate-attribute",
            Code::Internal => "internal",
        }
    }

    /// The name, as an owned string.
    pub fn to_string(&self) -> (name: String)
        ensures
            name@ == code_name(*self),
    {
        self.as_str().to_owned()
    }

    /// The severity this code always carries.
    pub fn severity(&self) -> (severity: Severity)
        ensures
            severity == code_severity(*self),
    {
        match self {
            Code::UnknownCustomMarker
            | Code::UnknownMilestone
            | Code::NestedMarkerNotNested
            | Code::CharacterStyleNotClosed
            | Code::VerseInCharacterStyle
            | Code::EmptyMilestoneAttributeList
            | Code::UnlistedBookCode
            | Code::DuplicateVerseNumber
            | Code::VerseOutOfOrder
            | Code::DuplicateChapterNumber
            | Code::ChapterOutOfOrder => Severity::Warning,
            Code::CharacterStyleImplicitlyClosed
            | Code::CharacterStyleNestedWithoutPlus
            | Code::MarkerNotListedHere
            | Code::UnknownCustomMilestone => Severity::Info,
            _ => Severity::Error,
        }
    }

    /// Whether this code is reported by the semantic pass rather than by the
    /// parser.
    pub fn is_semantic(&self) -> (b: bool)
        ensures
            b == code_is_semantic(*self),
    {
        match self {
            Code::UnlistedBookCode
            | Code::MarkerNotAllowedHere
            | Code::MarkerNotListedHere
            | Code::EmptyAttributeList
            | Code::EmptyMilestoneAttributeList
            | Code::NoDefaultAttribute
            | Code::DefaultAttributeWithOthers
            | Code::MalformedAttributeName
            | Code::DuplicateAttribute
            | Code::MissingId
            | Code::IdNotFirst
            | Code::EmptyBook
            | Code::VerseTextBeforeChapter
            | Code::VerseOutsideChapter
            | Code::VerseInHeading
            | Code::VerseInCharacterStyle
            | Code::UnexpectedTableColumn
            | Code::EmptyWord
            | Code::DuplicateVerseNumber
            | Code::VerseOutOfOrder
            | Code::DuplicateChapterNumber
            | Code::ChapterOutOfOrder => true,
            _ => false,
        }
    }

    /// The code with that name, if there is one.
    pub fn parse(name: &str) -> (code: Option<Code>)
        ensures
            match code {
                Some(c) => code_name(c) == name@,
                None => forall|c: Code| code_name(c) != name@,
            },
            forall|c: Code| code_name(c) == name@ ==> code == Some(c),
    {
        let codes = Code::all();
        let mut i: usize = 0;
        while i < codes.len()
            invariant
                codes@ == all_codes(),
                i <= codes@.len(),
                forall|j: int| 0 <= j < i ==> code_name(#[trigger] codes@[j]) != name@,
            decreases codes@.len() - i,
        {
            if str_eq(codes[i].as_str(), name) {
                proof {
                    assert forall|c: Code| code_name(c) == name@ implies codes@[i as int] == c by {
                        law_code_names_are_distinct(c, codes@[i as int]);
                    }
                }
                return Some(codes[i]);
            }
            i = i + 1;
        }
        proof {
            assert forall|c: Code| code_name(c) != name@ by {
                lemma_all_codes_complete(c);
                let k = choose|k: int| 0 <= k < all_codes().len() && all_codes()[k] == c;
                assert(code_name(codes@[k]) != name@);
            }
        }
        None
    }
}

impl std::str::FromStr for Code {
    type Err = UnknownCode;

    fn from_str(name: &str) -> (r: Result<Code, UnknownCode>)
        ensures
            match r {
                Ok(c) => code_name(c) == name@,
                Err(e) => e.0@ == name@ && forall|c: Code| code_name(c) != name@,
            },
            forall|c: Code| code_name(c) == name@ ==> r == Ok::<Code, UnknownCode>(c),
    {
        match Code::parse(name) {
            Some(code) => Ok(code),
            None => Err(UnknownCode(name.to_owned())),
        }
    }
}

/// The name of a [`Code`] that is not one of ours.
#[derive(Debug, Clone, PartialEq, Eq)]
pub struct UnknownCode(pub String);

impl UnknownCode {
    /// `unknown diagnostic code: <name>`.
    pub fn to_string(&self) -> (message: String)
        ensures
            message@ == "unknown diagnostic code: "@ + self.0@,
    {
        let mut message = String::new();
        push_str(&mut message, "unknown diagnostic code: ");
        push_str(&mut message, self.0.as_str());
        message
    }
}

/// One thing the parser had to guess about, repair, or drop.
#[derive(Debug, Clone, PartialEq, Eq)]
pub struct Diagnostic {
    /// Byte range in the source the diagnostic refers to.
    pub span: Span,
    pub severity: Severity,
    pub code: Code,
    /// Human-readable description naming the marker or text.
    pub message: String,
}

impl Diagnostic {
    pub fn new(code: Code, span: Span, message: String) -> (d: Diagnostic)
        ensures
            d.code == code,
            d.span == span,
            d.severity == code_severity(code),
            d.message@ == message@,
    {
        Diagnostic { span, severity: code.severity(), code, message }
    }

    pub fn is_error(&self) -> (b: bool)
        ensures
            b == (self.severity == Severity::Error),
    {
        self.severity == Severity::Error
    }
}

/// A lower-case hexadecimal digit.
pub open spec fn hex_char(d: nat) -> char {
    if d < 10 {
        ((d + 48) as u32) as char
    } else {
        ((d + 87) as u32) as char
    }
}

/// One character as it stands inside a JSON string literal.
pub open spec fn json_escape_char(c: char) -> Seq<char> {
    if c == '"' {
        seq!['\\', '"']
    } else if c == '\\' {
        seq!['\\', '\\']
    } else if c == '\n' {
        seq!['\\', 'n']
    } else if c == '\r' {
        seq!['\\', 'r']
    } else if c == '\t' {
        seq!['\\', 't']
    } else if c == '\u{8}' {
        seq!['\\', 'b']
    } else if c == '\u{c}' {
        seq!['\\', 'f']
    } else if (c as u32) < 0x20 {
        seq!['\\', 'u', '0', '0', hex_char((c as u32) as nat / 16), hex_char((c as u32) as nat % 16)]
    } else {
        seq![c]
    }
}

/// A string's characters, each escaped for a JSON string literal.
pub open spec fn json_escape(s: Seq<char>) -> Seq<char>
    decreases s.len(),
{
    if s.len() == 0 {
        seq![]
    } else {
        json_escape(s.drop_last()) + json_escape_char(s.last())
    }
}

fn hex_digit(d: u32) -> (c: char)
    requires
        d < 16,
    ensures
        c == hex_char(d as nat),
{
    match d {
        0 => '0',
        1 => '1',
        2 => '2',
        3 => '3',
        4 => '4',
        5 => '5',
        6 => '6',
        7 => '7',
        8 => '8',
        9 => '9',
        10 => 'a',
        11 => 'b',
        12 => 'c',
        13 => 'd',
        14 => 'e',
        _ => 'f',
    }
}

/// Append `c` as it stands inside a JSON string literal.
fn push_json_char(out: &mut String, c: char)
    ensures
        final(out)@ == old(out)@ + json_escape_char(c),
{
    let v = c as u32;
    if c == '"' {
        push_char(out, '\\');
        push_char(out, '"');
    } else if c == '\\' {
        push_char(out, '\\');
        push_char(out, '\\');
    } else if c == '\n' {
        push_char(out, '\\');
        push_char(out, 'n');
    } else if c == '\r' {
        push_char(out, '\\');
        push_char(out, 'r');
    } else if c == '\t' {
        push_char(out, '\\');
        push_char(out, 't');
    } else if c == '\u{8}' {
        push_char(out, '\\');
        push_char(out, 'b');
    } else if c == '\u{c}' {
        push_char(out, '\\');
        push_char(out, 'f');
    } else if v < 0x20 {
        push_char(out, '\\');
        push_char(out, 'u');
        push_char(out, '0');
        push_char(out, '0');
        push_char(out, hex_digit(v / 16));
        push_char(out, hex_digit(v % 16));
    } else {
        push_char(out, c);
    }
    assert(final(out)@ =~= old(out)@ + json_escape_char(c));
}

/// Append `value` escaped for a JSON string literal.
fn push_json_escaped(out: &mut String, value: &str)
    ensures
        final(out)@ == old(out)@ + json_escape(value@),
{
    let chars = str_chars(value);
    let mut i: usize = 0;
    let ghost start = out@;
    assert(chars@.take(0) =~= Seq::<char>::empty());
    while i < chars.len()
        invariant
            i <= chars@.len(),
            chars@ == value@,
            out@ == start + json_escape(chars@.take(i as int)),
        decreases chars@.len() - i,
    {
        assert(chars@.take(i + 1).drop_last() =~= chars@.take(i as int));
        push_json_char(out, chars[i]);
        i = i + 1;
    }
    assert(chars@.take(chars@.len() as int) =~= chars@);
}

/// Escape a string for a JSON string literal: `"` and `\`, the short forms
/// JSON gives `\n`, `\r`, `\t`, `\u0008` and `\u000c`, and every other control
/// character as `\uXXXX`. Everything else is copied through.
pub fn escape_json(value: &str) -> (escaped: String)
    ensures
        escaped@ == json_escape(value@),
{
    let mut out = String::new();
    push_json_escaped(&mut out, value);
    assert(out@ =~= json_escape(value@));
    out
}

/// `label:line:col: severity[code]: message`.
pub open spec fn render_line(
    label: Seq<char>,
    line: nat,
    col: nat,
    severity: Severity,
    code: Code,
    message: Seq<char>,
) -> Seq<char> {
    label + ":"@ + decimal(line) + ":"@ + decimal(col) + ": "@ + severity_name(severity) + "["@
        + code_name(code) + "]: "@ + message
}

/// The diagnostic as one JSON object.
pub open spec fn json_line(
    label: Seq<char>,
    line: nat,
    col: nat,
    severity: Severity,
    code: Code,
    message: Seq<char>,
    span: Span,
) -> Seq<char> {
    "{\"file\":\""@ + json_escape(label) + "\",\"line\":"@ + decimal(line) + ",\"col\":"@
        + decimal(col) + ",\"severity\":\""@ + severity_name(severity) + "\",\"code\":\""@
        + code_name(code) + "\",\"message\":\""@ + json_escape(message) + "\",\"span\":["@
        + decimal(span.start as nat) + ","@ + decimal(span.end as nat) + "]}"@
}

impl Diagnostic {
    /// One line of human-readable output:
    /// `label:line:col: severity[code]: message`, with no trailing newline.
    /// The position is that of the start of the span.
    pub fn render(&self, label: &str, index: &LineIndex) -> (line: String)
        requires
            index.wf(),
        ensures
            line@ == render_line(
                label@,
                line_col_of(index.text(), index_at(index.text(), self.span.start as nat)).0,
                line_col_of(index.text(), index_at(index.text(), self.span.start as nat)).1,
                self.severity,
                self.code,
                self.message@,
            ),
    {
        let (line, col) = index.line_col(self.span.start);
        let mut out = String::new();
        push_str(&mut out, label);
        push_str(&mut out, ":");
        push_decimal(&mut out, line);
        push_str(&mut out, ":");
        push_decimal(&mut out, col);
        push_str(&mut out, ": ");
        push_str(&mut out, self.severity.as_str());
        push_str(&mut out, "[");
        push_str(&mut out, self.code.as_str());
        push_str(&mut out, "]: ");
        push_str(&mut out, self.message.as_str());
        assert(out@ =~= render_line(label@, line as nat, col as nat, self.severity, self.code, self.message@));
        out
    }

    /// One JSON object on one line: the information of [`Diagnostic::render`]
    /// plus the byte span, keys in a fixed order.
    pub fn to_json_line(&self, label: &str, index: &LineIndex) -> (line: String)
        requires
            index.wf(),
        ensures
            line@ == json_line(
                label@,
                line_col_of(index.text(), index_at(index.text(), self.span.start as nat)).0,
                line_col_of(index.text(), index_at(index.text(), self.span.start as nat)).1,
                self.severity,
                self.code,
                self.message@,
                self.span,
            ),
    {
        let (line, col) = index.line_col(self.span.start);
        let mut out = String::new();
        push_str(&mut out, "{\"file\":\"");
        push_json_escaped(&mut out, label);
        push_str(&mut out, "\",\"line\":");
        push_decimal(&mut out, line);
        push_str(&mut out, ",\"col\":");
        push_decimal(&mut out, col);
        push_str(&mut out, ",\"severity\":\"");
        push_str(&mut out, self.severity.as_str());
        push_str(&mut out, "\",\"code\":\"");
        push_str(&mut out, self.code.as_str());
        push_str(&mut out, "\",\"message\":\"");
        push_json_escaped(&mut out, self.message.as_str());
        push_str(&mut out, "\",\"span\":[");
        push_decimal(&mut out, self.span.start as usize);
        push_str(&mut out, ",");
        push_decimal(&mut out, self.span.end as usize);
        push_str(&mut out, "]}");
        assert(out@ =~= json_line(label@, line as nat, col as nat, self.severity, self.code, self.message@, self.span));
        out
    }
}

/// Whether some diagnostic of the list is at or above `threshold`.
pub open spec fn any_at_least(diagnostics: Seq<Diagnostic>, threshold: Severity) -> bool {
    exists|i: int|
        0 <= i < diagnostics.len() && severity_rank(#[trigger] diagnostics[i].severity)
            >= severity_rank(threshold)
}

/// A threshold no higher than another refuses whatever that one refuses:
/// `Error > Warning > Info`, so a run that stops at warnings stops at every
/// error too.
pub proof fn law_a_lower_threshold_refuses_more(
    diagnostics: Seq<Diagnostic>,
    lower: Severity,
    higher: Severity,
)
    requires
        severity_rank(lower) <= severity_rank(higher),
    ensures
        any_at_least(diagnostics, higher) ==> any_at_least(diagnostics, lower),
{
    if any_at_least(diagnostics, higher) {
        let i = choose|i: int|
            0 <= i < diagnostics.len() && severity_rank(#[trigger] diagnostics[i].severity)
                >= severity_rank(higher);
        assert(severity_rank(diagnostics[i].severity) >= severity_rank(lower));
    }
}

/// The outcome of parsing: always a document, and everything the parser had
/// to say about the input.
#[derive(Debug)]
pub struct ParseResult {
    pub document: Document,
    pub diagnostics: Vec<Diagnostic>,
}

impl ParseResult {
    /// True if any diagnostic is at or above `threshold`.
    pub fn has_at_least(&self, threshold: Severity) -> (b: bool)
        ensures
            b == any_at_least(self.diagnostics@, threshold),
    {
        let mut i: usize = 0;
        while i < self.diagnostics.len()
            invariant
                i <= self.diagnostics@.len(),
                forall|j: int|
                    0 <= j < i ==> severity_rank(#[trigger] self.diagnostics@[j].severity)
                        < severity_rank(threshold),
            decreases self.diagnostics@.len() - i,
        {
            if self.diagnostics[i].severity.at_least(threshold) {
                return true;
            }
            i = i + 1;
        }
        false
    }

    /// True if any diagnostic is an error.
    pub fn has_errors(&self) -> (b: bool)
        ensures
            b == any_at_least(self.diagnostics@, Severity::Error),
    {
        self.has_at_least(Severity::Error)
    }

    /// The diagnostics at or above `threshold`, in order.
    pub fn diagnostics_at_least(&self, threshold: Severity) -> (found: Vec<Diagnostic>)
        ensures
            found@ == self.diagnostics@.filter(
                |d: Diagnostic| severity_rank(d.severity) >= severity_rank(threshold),
            ),
    {
        let ghost keep = |d: Diagnostic| severity_rank(d.severity) >= severity_rank(threshold);
        let mut found: Vec<Diagnostic> = Vec::new();
        let mut i: usize = 0;
        while i < self.diagnostics.len()
            invariant
                i <= self.diagnostics@.len(),
                keep == (|d: Diagnostic| severity_rank(d.severity) >= severity_rank(threshold)),
                found@ == self.diagnostics@.take(i as int).filter(keep),
            decreases self.diagnostics@.len() - i,
        {
            proof {
                reveal(Seq::filter);
                assert(self.diagnostics@.take(i + 1).drop_last() =~= self.diagnostics@.take(i as int));
            }
            let d = &self.diagnostics[i];
            if d.severity.at_least(threshold) {
                found.push(Diagnostic {
                    span: d.span,
                    severity: d.severity,
                    code: d.code,
                    message: d.message.clone(),
                });
            }
            i = i + 1;
        }
        assert(self.diagnostics@.take(self.diagnostics@.len() as int) =~= self.diagnostics@);
        found
    }

    /// Strict policy: the document if no diagnostic is an error, the
    /// diagnostics otherwise.
    pub fn strict(self) -> (r: Result<Document, Vec<Diagnostic>>)
        ensures
            match r {
                Ok(d) => !any_at_least(self.diagnostics@, Severity::Error) && d == self.document,
                Err(ds) => any_at_least(self.diagnostics@, Severity::Error) && ds@
                    == self.diagnostics@,
            },
    {
        self.strict_with(Severity::Error)
    }

    /// Strict policy with a custom threshold.
    pub fn strict_with(self, threshold: Severity) -> (r: Result<Document, Vec<Diagnostic>>)
        ensures
            match r {
                Ok(d) => !any_at_least(self.diagnostics@, threshold) && d == self.document,
                Err(ds) => any_at_least(self.diagnostics@, threshold) && ds@ == self.diagnostics@,
            },
    {
        if self.has_at_least(threshold) {
            Err(self.diagnostics)
        } else {
            Ok(self.document)
        }
    }
}

/// The 1-based line and column (in characters) of a byte offset of
/// `source`, by an index built for the one call. Converting many offsets of
/// one source should build the [`LineIndex`] once instead.
pub fn line_col(source: &str, offset: u32) -> (position: (usize, usize))
    requires
        crate::source::byte_len(source@) <= u32::MAX,
    ensures
        position.0 == line_col_of(source@, index_at(source@, offset as nat)).0,
        position.1 == line_col_of(source@, index_at(source@, offset as nat)).1,
{
    match LineIndex::new(source) {
        Some(index) => index.line_col(offset),
        None => (0, 0),
    }
}

} // verus!
