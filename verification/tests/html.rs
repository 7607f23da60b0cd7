use usfm::html::{
    is_forbidden_in_html, stop_byte, write_escaped, write_escaped_attribute, XmlAttributes,
};

fn escaped(text: &str) -> String {
    let mut out = String::new();
    write_escaped(&mut out, text).unwrap();
    out
}

fn escaped_attribute(value: &str) -> String {
    let mut out = String::new();
    write_escaped_attribute(&mut out, value).unwrap();
    out
}

/// The three characters HTML reserves in character data, and nothing else:
/// a quote or an apostrophe in text needs no escape.
#[test]
fn reserved_characters_are_escaped_in_text() {
    assert_eq!(
        escaped(r#"Tom & <Jerry> "said" it's"#),
        r#"Tom &amp; &lt;Jerry&gt; "said" it's"#
    );
}

/// An attribute value is written between double quotes, so the quote is
/// escaped there as well.
#[test]
fn reserved_characters_are_escaped_in_attribute_values() {
    assert_eq!(escaped_attribute(r#"x&y<z">"#), r#"x&amp;y&lt;z&quot;&gt;"#);
}

/// HTML has no way to write a C0 control other than tab, newline and
/// carriage return, nor U+FFFE/U+FFFF, so the writer replaces them, in text
/// and in attribute values alike.
#[test]
fn escape_characters_html_forbids_are_replaced() {
    assert_eq!(
        escaped("a\u{0}b\u{1f}c\u{fffe}d\u{ffff}e"),
        "a\u{fffd}b\u{fffd}c\u{fffd}d\u{fffd}e"
    );
    assert_eq!(escaped_attribute("d\u{c}e"), "d\u{fffd}e");
}

/// The characters either side of a replacement are copied through
/// untouched, including the many characters that also begin with `0xEF`.
#[test]
fn allowed_characters_survive_the_scan() {
    let allowed = "tab\there\nline\rreturn \u{feff}\u{fffd}\u{ffef} é 漢";
    assert_eq!(escaped(allowed), allowed);
    assert_eq!(escaped_attribute(allowed), allowed);
}

/// Every ASCII byte the scan stops at is either escaped or replaced, and no
/// other one is touched.
#[test]
fn the_stop_table_matches_the_rules() {
    for byte in 0u8..=0x7f {
        let character = byte as char;
        let expected =
            matches!(character, '&' | '<' | '>' | '"') || is_forbidden_in_html(character);
        assert_eq!(stop_byte(byte), expected, "byte {byte:#04x}");
    }
    assert!(stop_byte(0xef));
    assert!(!stop_byte(0xc3));
}

#[test]
fn attributes_are_written_in_order_with_their_values_escaped() {
    let mut attributes = XmlAttributes::new();
    assert_eq!(attributes.to_string(), "");
    attributes.append("class".to_string(), "v".to_string());
    attributes.append("title".to_string(), "a \"b\" & c".to_string());
    assert_eq!(attributes.to_string(), " class=\"v\" title=\"a &quot;b&quot; &amp; c\"");
    let from = XmlAttributes::from(vec![("id".to_string(), "x<y".to_string())]);
    assert_eq!(from.to_string(), " id=\"x&lt;y\"");
}

/// A failing sink's error comes back.
#[test]
fn a_sink_error_is_returned() {
    struct Full;
    impl std::fmt::Write for Full {
        fn write_str(&mut self, _text: &str) -> std::fmt::Result {
            Err(std::fmt::Error)
        }
    }
    assert_eq!(write_escaped(&mut Full, "a"), Err(std::fmt::Error));
}
