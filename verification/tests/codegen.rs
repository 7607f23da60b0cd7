use std::fmt;

use usfm::codegen::{to_usfm_string, write_usfm};
use usfm::eq::eq_ignoring_spans;
use usfm::parser::Parser;
use usfm::sheet::default_stylesheet;

/// Parse, write, and check that the text is the construct's canonical
/// spelling *and* that parsing it again gives the same tree.
fn writes(source: &str, expected: &str) {
    let first = Parser::new(source).parse(&default_stylesheet()).document;
    let written = to_usfm_string(&first);
    assert_eq!(written, expected, "writing {source:?}");
    let second = Parser::new(&written).parse(&default_stylesheet()).document;
    assert!(
        eq_ignoring_spans(&first, &second),
        "{source:?} does not round-trip\n{first:#?}\n{second:#?}"
    );
}

/// The same, for a source that is only a body: the `\id` and `\c` lines
/// every document needs are added around it and taken off the output.
fn writes_body(body: &str, expected: &str) {
    let head = "\\id GEN\n\\c 1\n";
    writes(&format!("{head}{body}"), &format!("{head}{expected}"));
}

#[test]
fn a_book_line_keeps_its_description() {
    writes("\\id GEN Genesis, in English\n", "\\id GEN Genesis, in English\n");
    writes("\\id GEN\n", "\\id GEN\n");
}

/// `\usfm` stays in the tree as an ordinary paragraph, so writing the
/// paragraphs writes the version: there is no second place for it.
#[test]
fn the_usfm_version_is_written_once() {
    let source = "\\id GEN\n\\usfm 3.1\n\\p text\n";
    let document = Parser::new(source).parse(&default_stylesheet()).document;
    assert_eq!(document.usfm_version().as_deref(), Some("3.1"));
    writes(source, "\\id GEN\n\\usfm 3.1\n\\p text\n");
}

/// Each on its own line, and `\c` finds them there — which is the spelling
/// the spec's example and the corpora use, whichever line the source put
/// them on. `\ca` is closed, `\cp` is not: the parser reads one word after
/// it.
#[test]
fn a_chapter_keeps_its_alternate_and_published_numbers() {
    writes(
        "\\id GEN\n\\c 3\n\\ca 4\\ca*\n\\cp K\n\\p text\n",
        "\\id GEN\n\\c 3\n\\ca 4\\ca*\n\\cp K\n\\p text\n",
    );
    // The same chapter written on one line comes back on three.
    writes(
        "\\id GEN\n\\c 3 \\ca 4\\ca* \\cp K\n\\p text\n",
        "\\id GEN\n\\c 3\n\\ca 4\\ca*\n\\cp K\n\\p text\n",
    );
    // One without the other, and a chapter with neither, keep their lines.
    writes("\\id GEN\n\\c 3 \\cp K\n\\p t\n", "\\id GEN\n\\c 3\n\\cp K\n\\p t\n");
    writes("\\id GEN\n\\c 3\n\\p t\n", "\\id GEN\n\\c 3\n\\p t\n");
}

#[test]
fn a_verse_keeps_its_alternate_and_published_numbers() {
    writes_body(
        "\\p \\v 1 \\va 2\\va*\\vp 1 (2)\\vp* text\n",
        "\\p \\v 1 \\va 2\\va* \\vp 1 (2)\\vp* text\n",
    );
}

/// A published number is text, not a number — and the two markers that
/// carry one read it differently, so the writer spells it differently.
///
/// `\vp` is a character style with a closing marker, so its number is a
/// text run and is written as text: a `\` as `\\`, a `|` as `\|`.
/// `\v 1\vp\` leaves a published number of one backslash; written raw,
/// `\` + `\vp*` would read back as `\\` + `vp*`.
///
/// `\cp` has no closing marker and its reader takes one `Word` token, so
/// its number is written verbatim; escaping it would be the mismatch
/// instead. The parser holds up the other end: a `\cp` paragraph
/// gives up a first word only when a `Word` token could be it.
#[test]
fn a_published_number_is_written_the_way_its_marker_reads_it() {
    writes_body("\\p \\v 1\\vp\\\n", "\\p \\v 1 \\vp \\\\\\vp* \n");
    // A `|` only reaches a published number escaped, and goes back the
    // same way: unescaped it would open an attribute list.
    writes_body("\\p \\v 1 \\vp \\|\\vp* a\n", "\\p \\v 1 \\vp \\|\\vp* a\n");
    // A chapter's published number is the other way round: `\cp` has no
    // closing marker and its reader takes a raw source word, so the
    // writer spells it verbatim — and a `\cp` paragraph
    // gives up only a first word the source spells verbatim. A stray `\`
    // and a no-break space are not, so the paragraph stays a paragraph.
    writes(
        "\\id GEN\n\\c 3\\c\n\\cp \\ x\n\\p t\n",
        "\\id GEN\n\\c 3\n\\p \\\\ x\n\\p t\n",
    );
    // A no-break space *is* a word character, so it folds — and is written
    // as itself, since `\cp ~` would read back as the one-character
    // number `~`.
    writes(
        "\\id GEN\n\\c 3\\c\n\\cp ~ x\n\\p t\n",
        "\\id GEN\n\\c 3\n\\cp \u{a0}\n\\p x\n\\p t\n",
    );
    writes("\\id GEN\n\\c 3 \\cp ~\n\\p t\n", "\\id GEN\n\\c 3\n\\cp ~\n\\p t\n");
}

/// The end milestones the parser synthesizes are not written: parsing the
/// output puts them back, which is what `writes` checks.
#[test]
fn verse_and_chapter_ends_are_not_written() {
    writes_body("\\p \\v 1 one\n\\p \\v 2 two\n", "\\p \\v 1 one\n\\p \\v 2 two\n");
}

#[test]
fn a_character_style_inside_another_is_nested_with_plus() {
    // `\bk` may nest and is closed ahead, so the parser reads the `\nd` as
    // nested; the writer says so outright.
    writes_body(
        "\\p \\bk a \\nd Lord\\nd* b\\bk*\n",
        "\\p \\bk a \\+nd Lord\\+nd* b\\bk*\n",
    );
}

/// A character style directly inside a *note* is not nested: `\+ft` there
/// is `nested-marker-not-nested`, so only `\pn`, one level further in,
/// gets a `+`. The `\ft` still ends with the note, so its own closer goes.
#[test]
fn a_character_style_inside_a_note_is_not_nested() {
    writes_body(
        "\\p \\f + \\ft see \\+pn Rome\\+pn*\\f*\n",
        "\\p \\f + \\ft see \\+pn Rome\\+pn*\\f*\n",
    );
}

#[test]
fn a_note_keeps_its_caller_and_category() {
    writes_body(
        "\\p \\f + \\cat People\\cat* \\ft text\\f*\n",
        "\\p \\f + \\cat People\\cat*\\ft text\\f*\n",
    );
    writes_body("\\p \\f - \\ft text\\f*\n", "\\p \\f - \\ft text\\f*\n");
}

/// A note's internal styles run into one another
/// and into the note's own closer, with no closing marker between them.
/// Every USFM writer spells a note this way, and the parser reports
/// nothing for an implicit close inside a note, so the codes of the second
/// parse are the codes of the first.
#[test]
fn note_internal_styles_run_into_one_another() {
    writes_body(
        "\\p \\f + \\fr 1.1 \\fq word \\ft the note\\f*\n",
        "\\p \\f + \\fr 1.1 \\fq word \\ft the note\\f*\n",
    );
    // The explicitly closed spelling is the same tree, and comes back in
    // the idiomatic one.
    writes_body(
        "\\p \\f + \\fr 1.1 \\fq word\\fq*\\ft the note\\ft*\\f*\n",
        "\\p \\f + \\fr 1.1 \\fq word\\ft the note\\f*\n",
    );
    // A cross reference is the same rule with the `\x` vocabulary.
    writes_body(
        "\\p \\x - \\xo 1.1 \\xt Gen 1.1\\x*\n",
        "\\p \\x - \\xo 1.1 \\xt Gen 1.1\\x*\n",
    );
}

/// The closer stays when the next sibling is not another note-internal
/// style: without it the text, the milestone or the outside style would be
/// read as this style's content.
#[test]
fn a_note_internal_style_followed_by_anything_else_keeps_its_closer() {
    // Text after it: `\fq b\fq* trailing`.
    writes_body(
        "\\p \\f + \\fq b\\fq* trailing\\f*\n",
        "\\p \\f + \\fq b\\fq* trailing\\f*\n",
    );
    // A character style from outside the note vocabulary.
    writes_body(
        "\\p \\f + \\ft see\\ft*\\nd Lord\\nd*\\f*\n",
        "\\p \\f + \\ft see\\ft*\\nd Lord\\nd*\\f*\n",
    );
    // A milestone.
    writes_body(
        "\\p \\f + \\ft see\\ft*\\qt-s |who=\"God\"\\*\\f*\n",
        "\\p \\f + \\ft see\\ft*\\qt-s |who=\"God\"\\*\\f*\n",
    );
}

/// An attribute list runs to the closing marker, so a note-internal style
/// that has one is closed whatever follows: `\xt ...|link-href="..."\xt*`.
#[test]
fn a_note_internal_style_with_attributes_keeps_its_closer() {
    writes_body(
        "\\p \\x - \\xo 1.1\\xo* \\xt Gen 1.1|link-href=\"GEN 1:1\"\\xt*\\x*\n",
        "\\p \\x - \\xo 1.1\\xo* \\xt Gen 1.1|link-href=\"GEN 1:1\"\\xt*\\x*\n",
    );
    // Followed by another note-internal style rather than the note's end:
    // still closed.
    writes_body(
        "\\p \\x - \\xt Gen 1.1|link-href=\"GEN 1:1\"\\xt*\\xq q\\x*\n",
        "\\p \\x - \\xt Gen 1.1|link-href=\"GEN 1:1\"\\xt*\\xq q\\x*\n",
    );
}

/// `\xt` is the one note-internal marker that may nest, and the parser
/// nests an unmarked one exactly when its own `\xt*` lies ahead. So a
/// sibling before an `\xt` that keeps its closer has to keep its own:
/// without it the `\xt` would be read as a child. When the `\xt` loses its
/// closer too, both go.
#[test]
fn a_style_before_a_closed_xt_keeps_its_closer() {
    writes_body(
        "\\p \\x - \\xq a\\xq*\\xt b|link-href=\"x\"\\xt*\\x*\n",
        "\\p \\x - \\xq a\\xq*\\xt b|link-href=\"x\"\\xt*\\x*\n",
    );
    writes_body(
        "\\p \\x - \\xq a\\xq*\\xt b\\xt*\\x*\n",
        "\\p \\x - \\xq a\\xt b\\x*\n",
    );
}

/// A style nested inside a note-internal one keeps its `\+` closer — it is
/// a child, not a sibling — while the style around it follows the rule.
#[test]
fn a_nested_style_inside_a_note_keeps_its_closer() {
    writes_body(
        "\\p \\f + \\ft text \\+nd Lord\\+nd* more\\f*\n",
        "\\p \\f + \\ft text \\+nd Lord\\+nd* more\\f*\n",
    );
    writes_body(
        "\\p \\f + \\ft text \\+nd Lord\\+nd*\\fq q\\f*\n",
        "\\p \\f + \\ft text \\+nd Lord\\+nd*\\fq q\\f*\n",
    );
}

/// The rule is a note's, not a paragraph's: `\xt` is note-internal by text
/// type and may also stand in a paragraph, where nothing would close it.
#[test]
fn a_note_internal_style_outside_a_note_keeps_its_closer() {
    writes_body("\\p see \\xt Gen 1.1\\xt*\n", "\\p see \\xt Gen 1.1\\xt*\n");
}

#[test]
fn word_attributes_are_written_as_pairs() {
    writes_body(
        "\\p \\w grace|lemma=\"grace\" strong=\"G5485\"\\w*\n",
        "\\p \\w grace|lemma=\"grace\" strong=\"G5485\"\\w*\n",
    );
}

/// A `"` inside a quoted value would end it, so it goes out as `\"` —
/// which is exactly the escape the parser resolves on the way in.
#[test]
fn a_quote_in_an_attribute_value_is_escaped() {
    writes_body(
        "\\p \\w x|lemma=\"a\\\"b\" strong=\"c\\\\d\"\\w*\n",
        "\\p \\w x|lemma=\"a\\\"b\" strong=\"c\\\\d\"\\w*\n",
    );
}

/// The default attribute has no name in the tree to write, so it is
/// written bare — value verbatim, quotes and all, because that is how the
/// parser read it.
#[test]
fn the_default_attribute_is_written_bare() {
    writes_body(
        "\\p \\w grace|a special concept\\w*\n",
        "\\p \\w grace|a special concept\\w*\n",
    );
    // A bare `|` with no pairs is not the same document as no `|` at all.
    writes_body("\\p \\w grace|\\w*\n", "\\p \\w grace|\\w*\n");
}

/// Nothing separates a default attribute from the pair after it: the space
/// that did is already inside the verbatim value, and where there was none
/// adding one changes the value. `|"a=` is the second case — the `"` and
/// the `a` are separate tokens — and it goes back out as it came in. See
/// `write_attributes`.
#[test]
fn a_default_attribute_gets_no_separator_after_it() {
    writes_body(
        "\\p \\w x|a special concept strong=\"G1\"\\w*\n",
        "\\p \\w x|a special concept strong=\"G1\"\\w*\n",
    );
    writes_body("\\p \\w x|\"a=\"\"\\w*\n", "\\p \\w x|\"a=\"\"\\w*\n");
}

#[test]
fn a_milestone_with_no_pipe_keeps_none() {
    writes_body("\\p \\ts-s\\*text\\ts-e\\*\n", "\\p \\ts-s\\*text\\ts-e\\*\n");
    // The default attribute of `\qt-s` is `who`, and the AST keeps the
    // pair unnamed, so it goes back out bare.
    writes_body(
        "\\p \\qt-s |Pilate\\*text\\qt-e\\*\n",
        "\\p \\qt-s |Pilate\\*text\\qt-e\\*\n",
    );
    writes_body(
        "\\p \\qt-s |who=\"Pilate\"\\*text\\qt-e\\*\n",
        "\\p \\qt-s |who=\"Pilate\"\\*text\\qt-e\\*\n",
    );
}

/// A milestone between blocks, written the way USFM 3 spells it and the
/// way unfoldingWord's aligned texts do: a space before the `|`. The two
/// spellings give the same milestone and this one goes out unchanged.
#[test]
fn a_milestone_between_blocks_is_on_its_own_line() {
    writes(
        "\\id GEN\n\\c 1\n\\zaln-s |x-strong=\"H1\"\\*\n\\p text\n",
        "\\id GEN\n\\c 1\n\\zaln-s |x-strong=\"H1\"\\*\n\\p text\n",
    );
    // The spelling with no space is the same milestone and is written
    // back with one.
    writes(
        "\\id GEN\n\\c 1\n\\zaln-s|x-strong=\"H1\"\\*\n\\p text\n",
        "\\id GEN\n\\c 1\n\\zaln-s |x-strong=\"H1\"\\*\n\\p text\n",
    );
}

#[test]
fn a_table_keeps_its_columns_spans_and_alignment() {
    writes_body(
        "\\tr \\th1 Tribe \\thr2 Number\n\\tr \\tc1-2 Reuben \\tcr3 46,500\n\\p after\n",
        "\\tr \\th1 Tribe \\thr2 Number\n\\tr \\tc1-2 Reuben \\tcr3 46,500\n\\p after\n",
    );
}

#[test]
fn a_sidebar_keeps_its_category_and_is_closed() {
    writes_body(
        "\\esb \\cat History\\cat*\n\\p aside\n\\esbe\n\\p after\n",
        "\\esb \\cat History\\cat*\n\\p aside\n\\esbe\n\\p after\n",
    );
}

#[test]
fn a_periph_keeps_its_title_and_attributes() {
    writes(
        "\\id FRT\n\\periph Title Page|id=\"title\"\n\\p text\n",
        "\\id FRT\n\\periph Title Page|id=\"title\"\n\\p text\n",
    );
    writes("\\id FRT\n\\periph Preface\n\\p text\n", "\\id FRT\n\\periph Preface\n\\p text\n");
}

/// The three text rewrites, in one line each.
#[test]
fn text_is_escaped_the_way_the_parser_reads_it_back() {
    // `\\` and `\|` resolve to the literal; `~` is a no-break space.
    writes_body("\\p a\\\\b \\|c \\\"d\n", "\\p a\\\\b \\|c \"d\n");
    writes_body("\\p verse~text\n", "\\p verse~text\n");
    writes_body("\\p Man // Who\n", "\\p Man // Who\n");
    writes_body("\\p Man//Who\n", "\\p Man//Who\n");
}

/// A stray `\` is kept as text by the parser, and the writer has one
/// spelling for a literal backslash: `\\`.
#[test]
fn a_stray_backslash_comes_back_escaped() {
    writes_body("\\p a \\ b\n", "\\p a \\\\ b\n");
}

/// The error path: the sink's failure is returned, not swallowed.
#[test]
fn a_write_error_is_returned() {
    struct Full;
    impl fmt::Write for Full {
        fn write_str(&mut self, _text: &str) -> fmt::Result {
            Err(fmt::Error)
        }
    }
    let document = Parser::new("\\id GEN\n\\p text\n")
        .parse(&default_stylesheet())
        .document;
    assert_eq!(write_usfm(&document, &mut Full), Err(fmt::Error));
}
