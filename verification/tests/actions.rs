use usfm::actions::{fix, Edit, Fix};
use usfm::diagnostics::{Code, Diagnostic};
use usfm::span::Span;

/// `source` with `fix` applied, edits taken from the back so the earlier
/// spans still index what they did.
fn apply(source: &str, fix: &Fix) -> String {
    let mut edits: Vec<&Edit> = fix.edits.iter().collect();
    edits.sort_by_key(|edit| std::cmp::Reverse(edit.span.start));
    let mut text = source.to_owned();
    for edit in edits {
        text.replace_range(edit.span.start as usize..edit.span.end as usize, &edit.text);
    }
    text
}

fn codes(source: &str) -> Vec<Code> {
    usfm::parse(source)
        .diagnostics
        .iter()
        .map(|diagnostic| diagnostic.code)
        .collect()
}

/// Fix the first `code` in `source` and hand back what the file becomes:
/// the re-parse reports that code one time less, and nothing the first
/// parse did not.
fn fixed(code: Code, source: &str) -> String {
    let result = usfm::parse(source);
    let diagnostic = result
        .diagnostics
        .iter()
        .find(|diagnostic| diagnostic.code == code)
        .unwrap_or_else(|| panic!("{code:?} in {source:?}, got {:?}", codes(source)));
    let fix = fix(&result.document, source, diagnostic)
        .unwrap_or_else(|| panic!("a fix for {code:?} in {source:?}"));

    let fixed = apply(source, &fix);
    let before = codes(source);
    let after = codes(&fixed);
    let count = |codes: &[Code]| codes.iter().filter(|each| **each == code).count();
    assert_eq!(
        count(&after),
        count(&before) - 1,
        "{code:?} survived the fix: {source:?} -> {fixed:?} ({after:?})",
    );
    let gained: Vec<Code> = after
        .iter()
        .copied()
        .filter(|code| !before.contains(code))
        .collect();
    assert!(
        gained.is_empty(),
        "the fix for {code:?} gained {gained:?}: {source:?} -> {fixed:?}",
    );
    fixed
}

#[test]
fn an_unknown_marker_is_deleted_with_the_space_after_it() {
    assert_eq!(
        fixed(Code::UnknownMarker, "\\id GEN\n\\c 1\n\\p \\v 1 a \\foo b\n"),
        "\\id GEN\n\\c 1\n\\p \\v 1 a b\n",
    );
    // A closing marker of the same unknown style is one too.
    assert_eq!(
        fixed(
            Code::UnknownMarker,
            "\\id GEN\n\\c 1\n\\p \\v 1 a \\foo custom\\foo* b\n",
        ),
        "\\id GEN\n\\c 1\n\\p \\v 1 a custom\\foo* b\n",
    );
    // On a line of its own, with nothing after it.
    assert_eq!(
        fixed(Code::UnknownMarker, "\\id GEN\n\\c 1\n\\qqq\n\\p \\v 1 a\n"),
        "\\id GEN\n\\c 1\n\n\\p \\v 1 a\n",
    );
}

#[test]
fn an_open_character_style_gets_its_closer() {
    // Closed by the next paragraph: the closer goes after the text, not
    // after the line break the text run's span swept up.
    assert_eq!(
        fixed(
            Code::CharacterStyleNotClosed,
            "\\id GEN\n\\c 1\n\\p \\v 1 a \\em b\n\\p \\v 2 c\n",
        ),
        "\\id GEN\n\\c 1\n\\p \\v 1 a \\em b\\em*\n\\p \\v 2 c\n",
    );
    // Closed by the end of the file.
    assert_eq!(
        fixed(Code::CharacterStyleNotClosed, "\\id GEN\n\\c 1\n\\p \\v 1 a \\em b"),
        "\\id GEN\n\\c 1\n\\p \\v 1 a \\em b\\em*",
    );
    // Closed by the next cell.
    assert_eq!(
        fixed(
            Code::CharacterStyleNotClosed,
            "\\id GEN\n\\c 1\n\\tr \\tc1 \\em a \\tc2 b\n",
        ),
        "\\id GEN\n\\c 1\n\\tr \\tc1 \\em a\\em* \\tc2 b\n",
    );
    // Closed by an outer closing marker: the nested style's own closer goes
    // before it, spelled `\+nd*` as the source spelled the opener.
    assert_eq!(
        fixed(
            Code::CharacterStyleNotClosed,
            "\\id GEN\n\\c 1\n\\p \\v 1 \\em a \\+nd b\\em* c\n",
        ),
        "\\id GEN\n\\c 1\n\\p \\v 1 \\em a \\+nd b\\+nd*\\em* c\n",
    );
}

#[test]
fn a_note_without_a_caller_gets_the_plus() {
    assert_eq!(
        fixed(
            Code::MissingNoteCaller,
            "\\id GEN\n\\c 1\n\\p \\v 1 a\\f \\ft note\\f* b\n",
        ),
        "\\id GEN\n\\c 1\n\\p \\v 1 a\\f + \\ft note\\f* b\n",
    );
}

#[test]
fn an_unquoted_attribute_value_is_quoted() {
    assert_eq!(
        fixed(
            Code::AttributeValueNotQuoted,
            "\\id GEN\n\\c 1\n\\p \\v 1 \\w word|lemma=grace\\w*\n",
        ),
        "\\id GEN\n\\c 1\n\\p \\v 1 \\w word|lemma=\"grace\"\\w*\n",
    );
}

#[test]
fn an_empty_milestone_attribute_list_is_deleted_with_its_space() {
    assert_eq!(
        fixed(
            Code::EmptyMilestoneAttributeList,
            "\\id GEN\n\\c 1\n\\p \\v 1 a \\ts-s |\\* b\n",
        ),
        "\\id GEN\n\\c 1\n\\p \\v 1 a \\ts-s\\* b\n",
    );
    // On a milestone the sheet does not define, whose own diagnostic stays.
    assert_eq!(
        fixed(
            Code::EmptyMilestoneAttributeList,
            "\\id GEN\n\\c 1\n\\p \\v 1 a \\zaln-s |\\* b\n",
        ),
        "\\id GEN\n\\c 1\n\\p \\v 1 a \\zaln-s\\* b\n",
    );
}

/// The title names the marker the fix is about.
#[test]
fn a_fix_is_titled_after_what_it_edits() {
    let source = "\\id GEN\n\\c 1\n\\p \\v 1 a \\foo b\n";
    let result = usfm::parse(source);
    let diagnostic = &result.diagnostics[0];
    assert_eq!(
        fix(&result.document, source, diagnostic).expect("a fix").title,
        "Delete `\\foo`",
    );
}

/// A code with no obvious edit has no action rather than a guessed one.
#[test]
fn a_code_without_an_obvious_edit_has_no_fix() {
    let source = "\\c 1\n\\p \\v 1 a\n";
    let result = usfm::parse(source);
    let missing_id = result
        .diagnostics
        .iter()
        .find(|diagnostic| diagnostic.code == Code::MissingId)
        .expect("`missing-id`");
    assert_eq!(fix(&result.document, source, missing_id), None);
}

/// A diagnostic from another text edits nothing.
#[test]
fn a_span_past_the_end_of_the_source_has_no_fix() {
    let source = "\\id GEN\n\\c 1\n\\p \\v 1 a \\foo b\n";
    let result = usfm::parse(source);
    let mut diagnostic = Diagnostic::new(
        Code::UnknownMarker,
        Span::new(900, 904),
        "unknown marker `\\foo`".to_string(),
    );
    assert_eq!(fix(&result.document, source, &diagnostic), None);
    // And one that points at text which is not a marker at all: `GEN`.
    diagnostic.span = Span::new(4, 7);
    assert_eq!(fix(&result.document, source, &diagnostic), None);
}

/// The edits each fix makes, exactly: one deletion, one insertion, one
/// replacement.
#[test]
fn each_fix_is_one_edit_at_the_right_place() {
    let source = "\\id GEN\n\\c 1\n\\p \\v 1 a \\foo  b\n";
    let result = usfm::parse(source);
    let diagnostic = result.diagnostics.iter().find(|d| d.code == Code::UnknownMarker).unwrap();
    let made = fix(&result.document, source, diagnostic).unwrap();
    let at = source.find("\\foo").unwrap() as u32;
    assert_eq!(made.edits, vec![Edit::delete(Span::new(at, at + 6))]);

    let source = "\\id GEN\n\\c 1\n\\p \\v 1 \\w word|lemma=grace\\w*\n";
    let result = usfm::parse(source);
    let diagnostic = result.diagnostics.iter().find(|d| d.code == Code::AttributeValueNotQuoted).unwrap();
    let made = fix(&result.document, source, diagnostic).unwrap();
    assert_eq!(made.title, "Put `grace` in quotes");
    assert_eq!(made.edits.len(), 1);
    assert_eq!(made.edits[0].text, "\"grace\"");
}
