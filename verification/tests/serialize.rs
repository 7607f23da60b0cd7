use std::sync::Arc;

use usfm::ast::Document;
use usfm::parser::Parser;
use usfm::serialize_html::{is_valid_attribute_name, to_html_string, Context};
use usfm::sheet::default_stylesheet;

/// Parse a fragment and render it with the document's own stylesheet, which
/// is what every caller should do.
fn html(source: &str) -> String {
    let document: Document = Parser::new(source).parse(&default_stylesheet()).document;
    let style_sheet = Arc::clone(&document.style_sheet);
    to_html_string(&document, &style_sheet)
}

#[test]
fn test_to_html_trait() {
    let document = Parser::new(
        r#"
        \c 1
        \s This is a title
        \p \v 1 This is a \em test\em*\f + \ft This is a footnote\f*.
        \p This is another. \v 2 More content.
        "#,
    )
    .parse(&default_stylesheet())
    .document;

    let html_output = to_html_string(&document, &default_stylesheet());
    println!("ToHtml output: {}", html_output);
    assert!(html_output.contains("<h1 class=\"s\">"));
    assert!(html_output.contains("<span class=\"v start\">1</span>"));
    assert!(html_output.contains("<span class=\"v end\">1</span>"));
}

/// `&`, `<` and `>` in the source are content, not markup: an HTML parser
/// has to read back what the tree held.
#[test]
fn reserved_characters_in_text_are_escaped() {
    let output = html(r#"\p Tom & <Jerry> "said" it's"#);
    assert!(
        output.contains(r#"Tom &amp; &lt;Jerry&gt; "said" it's"#),
        "{output}"
    );
}

/// Text is escaped wherever it is written, not only in a paragraph.
#[test]
fn reserved_characters_are_escaped_everywhere_text_is_written() {
    let output = html(r#"\id GEN A & B"#);
    assert!(output.contains("A &amp; B"), "{output}");

    let output = html(r#"\p \f <c> \ft note\f*"#);
    assert!(output.contains(">&lt;c&gt;</button>"), "{output}");

    let output = html("\\c 1\n\\cp <A>\n\\p text");
    assert!(
        output.contains(r#"<span class="c">&lt;A&gt;</span>"#),
        "{output}"
    );

    let output = html("\\esb \\cat <x>\\cat*\n\\p text\n\\esbe");
    assert!(output.contains(r#"data-category="&lt;x&gt;""#), "{output}");

    let output = html(r#"\p \qt-s |who="a\"b<c"\*text"#);
    assert!(output.contains(r#"data-who="a&quot;b&lt;c""#), "{output}");
}

/// The characters HTML cannot carry are replaced by U+FFFD wherever they
/// reach the writer.
#[test]
fn serialize_html_characters_html_forbids_are_replaced() {
    let output = html("\\p a\u{0}b\u{fffe}c");
    assert!(output.contains("a\u{fffd}b\u{fffd}c"), "{output:?}");
    assert!(!output.contains('\u{0}'), "{output:?}");

    let output = html("\\p \\qt-s |who=\"x\u{1}y\"\\*text");
    assert!(output.contains("data-who=\"x\u{fffd}y\""), "{output:?}");
}

/// An attribute whose name is not a valid attribute name cannot be written
/// as one, so the pair is dropped.
#[test]
fn milestone_attribute_with_an_unwritable_name_is_dropped() {
    let output = html(r#"\p \qt-s |who="a" x<y="b"\*text"#);
    assert!(output.contains(r#"data-who="a""#), "{output}");
    assert!(!output.contains("x<y"), "{output}");
}

/// A whole small document, exactly: the book line, the chapter number
/// carried into the first scripture paragraph, verse spans and a note.
#[test]
fn a_small_document_is_written_exactly() {
    let output = html("\\id GEN Genesis\n\\c 1\n\\p \\v 1 In the beginning.\\f + \\ft Or: first.\\f*\n");
    assert_eq!(
        output,
        "<div class=\"id\" data-code=\"GEN\">Genesis</div>\
         <p class=\"p\">\n  <span class=\"c\">1</span><span class=\"v start\">1</span>In the beginning.\
         <button class=\"note f-trigger\" popovertarget=\"note-1\">1</button>\
         <span id=\"note-1\" class=\"f\" popover><span class=\"ft\">Or: first.</span></span>\
         <span class=\"v end\">1</span>\n</p>\n"
    );
}

/// `+` notes count 1, 2 … over the document; the other callers share a
/// sequence of their own, with a `c` in their ids.
#[test]
fn the_two_note_sequences_count_apart() {
    let output = html("\\p a\\f + \\ft x\\f* b\\f - \\ft y\\f* c\\f + \\ft z\\f* d\\f * \\ft w\\f*");
    assert!(output.contains("popovertarget=\"note-1\">1</button>"), "{output}");
    assert!(output.contains("popovertarget=\"note-c1\"></button>"), "{output}");
    assert!(output.contains("popovertarget=\"note-2\">2</button>"), "{output}");
    assert!(output.contains("popovertarget=\"note-c2\">*</button>"), "{output}");
}

/// A section heading is an `h1`, a paragraph with nothing in it still gets
/// its tags, and a table cell carries its column and alignment.
#[test]
fn headings_empty_paragraphs_and_cells() {
    let output = html("\\s2 Heading\n\\b\n\\tr \\th1 A \\tcr2 B");
    assert!(output.contains("<h2 class=\"s2\">\n  Heading\n</h2>\n"), "{output}");
    assert!(output.contains("<p class=\"b\"></p>\n"), "{output}");
    assert!(output.contains("<td style=\"th1\" align=\"start\">A</td>"), "{output}");
    assert!(output.contains("<td style=\"tcr2\" align=\"end\">B</td>"), "{output}");
}

/// The context's counters: note numbers run from 1, ids from 0.
#[test]
fn the_context_counts_notes_and_ids() {
    let sheet = default_stylesheet();
    let mut context = Context::new(&sheet);
    assert_eq!(context.get_and_increment_note_number(&usfm::ast::Caller::Plus), 1);
    assert_eq!(context.get_and_increment_note_number(&usfm::ast::Caller::Minus), 1);
    assert_eq!(context.get_and_increment_note_number(&usfm::ast::Caller::Plus), 2);
    assert_eq!(context.next_counter(), 0);
    assert_eq!(context.next_counter(), 1);
}

#[test]
fn attribute_names_follow_the_xml_name_rule() {
    assert!(is_valid_attribute_name("who"));
    assert!(is_valid_attribute_name("x-y.z_1"));
    assert!(is_valid_attribute_name("é"));
    assert!(!is_valid_attribute_name(""));
    assert!(!is_valid_attribute_name("1x"));
    assert!(!is_valid_attribute_name("x<y"));
}
