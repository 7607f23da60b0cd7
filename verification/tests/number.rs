use usfm::number::{NumberList, NumberRange};

#[test]
fn test_verse_number_simple() {
    let verse_number = NumberList::parse_str("1").unwrap();
    assert!(verse_number.is_collapsed());
    assert_eq!(verse_number, NumberList {
        ranges: vec![NumberRange { start: 1, start_modifier: None, end: 1, end_modifier: None, guard_rtl: false }],
        guard_rtl: false,
    });
}

#[test]
fn test_verse_number_range() {
    let verse_number = NumberList::parse_str("1-3").unwrap();
    assert!(!verse_number.is_collapsed());
    assert_eq!(verse_number, NumberList {
        ranges: vec![NumberRange { start: 1, start_modifier: None, end: 3, end_modifier: None, guard_rtl: false }],
        guard_rtl: false,
    });
}

#[test]
fn test_verse_number_range_with_modifier() {
    let verse_number = NumberList::parse_str("1a-3b").unwrap();
    assert!(!verse_number.is_collapsed());
    assert_eq!(verse_number, NumberList {
        ranges: vec![NumberRange { start: 1, start_modifier: Some('a'), end: 3, end_modifier: Some('b'), guard_rtl: false }],
        guard_rtl: false,
    });
}

#[test]
fn test_verse_number_range_with_guard_rtl() {
    let verse_number = NumberList::parse_str("1\u{200F}-3").unwrap();
    assert!(!verse_number.is_collapsed());
    assert_eq!(verse_number, NumberList {
        ranges: vec![NumberRange { start: 1, start_modifier: None, end: 3, end_modifier: None, guard_rtl: true }],
        guard_rtl: false,
    });
}

#[test]
fn test_verse_number_display() {
    let verse_number = NumberList::parse_str("1,3\u{200F}-5,7").unwrap();
    assert_eq!(verse_number.to_string(), "1,3\u{200F}-5,7");
}

#[test]
fn test_verse_number_display_guarded() {
    let verse_number = NumberList::parse_str("1\u{200F},3\u{200F}-5\u{200F},7").unwrap();
    assert_eq!(verse_number.to_string(), "1\u{200F},3\u{200F}-5\u{200F},7");
}

#[test]
fn test_collapsed_verse_number() {
    let verse_number = NumberList::collapsed(1);
    assert_eq!(verse_number.to_string(), "1");
}

#[test]
fn test_not_collapsed_verse_number() {
    let verse_number = NumberList::parse_str("1,3-5").unwrap();
    assert!(!verse_number.is_collapsed());
}

#[test]
fn a_list_contains_the_numbers_of_its_ranges() {
    let list = NumberList::parse_str("1,3-5").unwrap();
    assert!(list.contains(1));
    assert!(!list.contains(2));
    assert!(list.contains(4));
    assert_eq!(list.start(), 1);
    assert_eq!(list.end(), 5);
}

#[test]
fn malformed_numbers_are_errors() {
    for text in ["", "a", "1-", "1,", "-1", "1 2"] {
        assert!(NumberList::parse_str(text).is_err(), "{text:?}");
    }
}
