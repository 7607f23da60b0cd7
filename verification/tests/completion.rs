use usfm::completion::{completions, marker_start, Completion, CompletionKind, InsertTextFormat};
use usfm::convert::Range;
use usfm::span::LineIndex;

fn complete(source: &str, cursor: &str) -> Vec<Completion> {
    let offset = (source.find(cursor).expect("the cursor is in the source") + cursor.len()) as u32;
    let result = usfm::parse(source);
    let index = LineIndex::new(source).unwrap();
    completions(&result.document, source, &index, offset)
        .unwrap_or_else(|| panic!("a completion at {offset} in {source:?}"))
}

fn labels(items: &[Completion]) -> Vec<&str> {
    items.iter().map(|item| item.label.as_str()).collect()
}

fn find<'a>(items: &'a [Completion], label: &str) -> &'a Completion {
    items
        .iter()
        .find(|item| item.label == label)
        .unwrap_or_else(|| panic!("`\\{label}` is offered"))
}

fn new_text(item: &Completion) -> &str {
    &item.new_text
}

fn replaced(item: &Completion) -> Range {
    item.replaced
}

#[test]
fn a_marker_is_offered_with_the_sheet_s_name_and_description() {
    let items = complete("\\id GEN\n\\c 1\n\\p text \\", "text \\");
    let p = find(&items, "p");
    assert_eq!(p.detail.as_deref(), Some("p - Paragraph - Normal - First Line Indent"));
    assert!(matches!(
        p.documentation,
        Some(ref text) if text.contains("Paragraph text, with first line indent"),
    ));
    assert_eq!(p.kind, CompletionKind::Keyword);
    assert_eq!(new_text(p), "p");
    assert_eq!(p.format, InsertTextFormat::PlainText);
}

#[test]
fn a_character_style_is_inserted_with_its_closer() {
    let items = complete("\\id GEN\n\\c 1\n\\p text \\", "text \\");
    let nd = find(&items, "nd");
    assert_eq!(nd.kind, CompletionKind::Snippet);
    assert_eq!(new_text(nd), "nd $1\\nd*$0");
    assert_eq!(nd.format, InsertTextFormat::Snippet);
    assert_eq!(new_text(find(&items, "f")), "f + $1\\f*$0");
    assert_eq!(new_text(find(&items, "qt-s")), "qt-s$1\\*$0");
}

#[test]
fn the_backslash_is_never_re_inserted() {
    let items = complete("\\id GEN\n\\c 1\n\\p text \\", "text \\");
    let range = replaced(find(&items, "nd"));
    assert_eq!(range.start, range.end);
    assert_eq!(range.start.character, "\\p text \\".len() as u32);

    let source = "\\id GEN\n\\c 1\n\\p text \\n";
    let items = complete(source, "text \\n");
    let range = replaced(find(&items, "nd"));
    assert_eq!(range.start.character, "\\p text \\".len() as u32);
    assert_eq!(range.end.character, "\\p text \\n".len() as u32);
    assert_eq!(new_text(find(&items, "nd")), "nd $1\\nd*$0");
}

#[test]
fn a_note_only_marker_is_offered_only_inside_a_note() {
    let items = complete("\\id GEN\n\\c 1\n\\p \\v 1 text \\", "text \\");
    assert!(!labels(&items).contains(&"fq"), "`\\fq` is note-only");
    assert!(labels(&items).contains(&"p"));
    assert!(labels(&items).contains(&"nd"));

    let items = complete("\\id GEN\n\\c 1\n\\p \\v 1 a\\f + \\ft note \\\\f* b\n", "note \\");
    assert!(labels(&items).contains(&"fq"), "inside `\\f`, `\\fq` fits");
}

#[test]
fn a_cell_and_a_character_style_filter_nothing() {
    let items = complete("\\id GEN\n\\c 1\n\\tr \\tc1 text \\", "text \\");
    assert!(labels(&items).contains(&"fq"));

    let items = complete("\\id GEN\n\\c 1\n\\p \\v 1 \\nd text \\", "text \\");
    assert!(labels(&items).contains(&"fq"));
}

#[test]
fn between_blocks_the_paragraph_markers_are_offered() {
    let items = complete("\\id GEN\n\\c 1\n\\", "\\c 1\n\\");
    for marker in ["p", "q1", "s1", "nd"] {
        assert!(labels(&items).contains(&marker), "`\\{marker}`");
    }
    let mut markers = labels(&items);
    markers.sort_unstable();
    let count = markers.len();
    markers.dedup();
    assert_eq!(markers.len(), count);
}

#[test]
fn a_lone_backslash_completes_from_the_implicit_paragraph() {
    let items = complete("\\", "\\");
    assert!(labels(&items).contains(&"id"));
    assert!(labels(&items).contains(&"p"));
    assert!(!labels(&items).contains(&"fq"));
}

#[test]
fn a_position_that_is_not_a_marker_is_no_completion() {
    let source = "\\id GEN\n\\c 1\n\\p text more\n";
    let result = usfm::parse(source);
    let offset = source.find("more").unwrap() as u32;
    let index = LineIndex::new(source).unwrap();
    assert!(completions(&result.document, source, &index, offset).is_none());

    let source = "\\id GEN\n\\c 1\n\\p text \\\\";
    let result = usfm::parse(source);
    let index = LineIndex::new(source).unwrap();
    assert!(
        completions(&result.document, source, &index, source.len() as u32).is_none(),
        "`\\\\` is an escaped backslash",
    );
}

/// The `\` a marker is typed after: back over its name and a nested
/// marker's `+`.
#[test]
fn the_marker_start_is_the_backslash_before_the_name() {
    assert_eq!(marker_start("\\p \\+nd", 7), Some(3));
    assert_eq!(marker_start("\\p \\qt-s", 8), Some(3));
    assert_eq!(marker_start("\\p text", 7), None);
    assert_eq!(marker_start("é\\", 1), None);
}
