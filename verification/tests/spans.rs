/// Parse `source` and fail with the first span that breaks an invariant.
fn check(source: &str) {
    if let Some(failure) = usfm::span_check::check(source) {
        panic!("{failure} in {source:?}");
    }
}

#[test]
fn simple_paragraph() {
    check("\\id GEN\n\\c 1\n\\p \\v 1 In the beginning.\n");
}

#[test]
fn nested_character_styles() {
    check("\\id GEN\n\\c 1\n\\p \\v 1 a \\nd Lord\\+add ly\\+add*\\nd* b\n");
}

#[test]
fn implicitly_closed_character_style() {
    check("\\id GEN\n\\c 1\n\\p \\v 1 a \\em b\n\\p \\v 2 c\n");
}

#[test]
fn optional_line_breaks() {
    check("\\id GEN\n\\c 1\n\\s1 Jesus Heals a Man // Who Could Not Walk\n\\p \\v 1 a//b\n");
}

#[test]
fn notes_and_attributes() {
    check("\\id GEN\n\\c 1\n\\p \\v 1 \\w grace|lemma=\"grace\"\\w* \\f + \\ft note\\f* end\n");
}

#[test]
fn milestones_inline_and_between_blocks() {
    check("\\id GEN\n\\c 1\n\\ts\\*\n\\p \\v 1 a \\qt-s |who=\"Jesus\"\\* b \\qt-e\\* c\n");
}

#[test]
fn chapter_with_alternate_and_published_numbers() {
    check("\\id MAT\n\\c 1\n\\ca 2\\ca*\n\\cp M\n\\p \\v 1 text\n");
}

#[test]
fn table() {
    check("\\id GEN\n\\c 1\n\\tr \\th1 Header \\th2 Second\n\\tr \\tc1 One \\tc2 Two\n");
}

#[test]
fn malformed_input_still_has_sane_spans() {
    check("\\id GEN\n\\c 1\n\\p \\v 1 a \\em b \\foo c \\* d \\bk* e\n");
}

#[test]
fn normalized_whitespace_and_escapes() {
    check("\\id GEN\n\\c 1\n\\p \\v 1 a\\\\b   c\nd \\em e\\em*\n");
}

#[test]
fn attribute_lists_on_every_node_that_can_carry_one() {
    check(
        "\\id FRT\n\\periph Title Page|id=\"title\"\n\\p a\n\
         \\id GEN\n\\c 1\n\\ts-s |x-a=\"1\" x-b=\"2\"\\*\n\
         \\p \\v 1 \\w grace|lemma=\"grace\" strong=\"H1\"\\w* \
         \\w plain|grace\\w* \\qt-s |Jesus\\* b \\qt-e\\*\n",
    );
    // A bare value the parser borrows verbatim, quotes included, and an
    // unquoted one it reads as a single word: both spans are the run read.
    check("\\id GEN\n\\c 1\n\\p \\v 1 \\rb b|\"h=c\"\\rb* \\w x|lemma=y\\w*\n");
    // Lists the parser had to recover in: no attribute at all, a name that is
    // not an identifier, a value with no closing quote, a line break inside
    // the list.
    check("\\id GEN\n\\c 1\n\\p \\v 1 \\w a| \\w* \\w b|c<d=\"1\"\\w* \\w e|f=\"g\n\\w* h\n");
    check("\\id GEN\n\\c 1\n\\p \\v 1 \\w a|lemma=\"b\"\n   strong=\"c\"\\w*\n");
}

#[test]
fn periph_title_span_ignores_synthesized_text() {
    check("\\id GEN\n\\c 1\n\\periph T \\v 2 b \\v 3\n");
}

#[test]
fn periph_title_span_is_the_source_it_was_read_from() {
    check("\\periph\\* n");
    check("\\id GEN\n\\periph \\nd Lord\\nd* of hosts|id=\"x\"\nbody\n");
}

/// A verse end is never read from the source: one that carries a source
/// span is reported before anything else is looked at.
#[test]
fn a_verse_end_with_a_source_span_is_reported() {
    let source = "\\id GEN\n\\c 1\n\\p \\v 1 In the beginning.\n";
    let mut result = usfm::parse(source);
    let mut found = false;
    for block in result.document.blocks.iter_mut() {
        if let usfm::ast::Block::Para(para) = block {
            for child in para.children.iter_mut() {
                if let usfm::ast::Inline::VerseEnd(end) = child {
                    end.span = usfm::span::Span::new(2, 4);
                    found = true;
                }
            }
        }
    }
    assert!(found);
    assert_eq!(
        usfm::span_check::check_parse(source, &result),
        Some("VerseEnd: verse ends are synthesized".to_string())
    );
}

/// Text runs that meet when a dropped marker stood between them become one,
/// the whitespace where they meet collapsed to one space.
#[test]
fn text_runs_around_a_dropped_marker_merge() {
    let result = usfm::parse("\\id GEN\n\\c 1\n\\p a \\* b\n");
    let para = result
        .document
        .blocks
        .iter()
        .find_map(|block| match block {
            usfm::ast::Block::Para(para) => Some(para),
            _ => None,
        })
        .unwrap();
    let texts: Vec<&str> = para
        .children
        .iter()
        .filter_map(|child| match child {
            usfm::ast::Inline::Text(text) => Some(text.content.as_str()),
            _ => None,
        })
        .collect();
    assert_eq!(texts, vec!["a b"]);
}
