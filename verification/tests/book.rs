use usfm::book::BookCode::{Gen, Sa1};
use usfm::book::{is_well_formed_book_code, BookCategory, BookCode, UnknownBookCodeError};

#[test]
fn a_listed_code_wins_over_the_catch_all_pattern() {
    assert_eq!(BookCode::from_str("GEN"), Ok(Gen));
    assert_eq!(BookCode::from_str("1sa"), Ok(Sa1));
    assert!(Gen.is_listed());
}

#[test]
fn a_well_formed_code_becomes_other_and_round_trips() {
    for code in ["TST", "ZZZ", "XY9", "1A2", "12B"] {
        let parsed = BookCode::from_str(code).expect(code);
        assert!(!parsed.is_listed(), "{code} should not be listed");
        assert_eq!(parsed.as_str(), code);
        assert_eq!(parsed.to_string(), code);
        assert_eq!(parsed.category(), BookCategory::Other);
    }
    assert_eq!(BookCode::from_str("g3n").unwrap().as_str(), "G3N");
}

#[test]
fn a_code_matching_neither_is_an_error() {
    for code in ["", "GE", "GENESIS", "1A", "A-B", "A B", "123", "1B2C"] {
        assert_eq!(
            BookCode::from_str(code),
            Err(UnknownBookCodeError),
            "{code} is not a book code"
        );
    }
}

#[test]
fn categories_follow_the_canon() {
    assert!(BookCode::from_str("GEN").unwrap().is_old_testament());
    assert!(BookCode::from_str("MAT").unwrap().is_new_testament());
    assert!(BookCode::from_str("TOB").unwrap().is_deuterocanon());
    assert!(BookCode::from_str("FRT").unwrap().is_non_scripture());
    assert!(is_well_formed_book_code("ZZZ"));
    assert!(!is_well_formed_book_code("zzz"));
}

/// A listed code reads back as its book, and a code reading built reads
/// back from its own spelling as itself.
#[test]
fn a_code_reads_back_from_its_spelling() {
    for code in [Gen, Sa1, BookCode::Rev, BookCode::Ndx, BookCode::Xxg, BookCode::Ba4] {
        assert_eq!(BookCode::from_str(code.as_str()), Ok(code));
    }
    for text in ["TST", "zzz", "1a2"] {
        let code = BookCode::from_str(text).unwrap();
        assert_eq!(BookCode::from_str(code.as_str()), Ok(code));
    }
}
