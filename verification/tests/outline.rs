use usfm::convert::{offset, position, range, whole_document, Position, Range};
use usfm::span::{LineIndex, Span};
use usfm::symbols::{symbols, Entry, SymbolKind};

fn index(source: &str) -> LineIndex {
    LineIndex::new(source).expect("a short source")
}

#[test]
fn a_position_is_zero_based_and_counted_in_utf16_units() {
    let source = "\\id GEN\n\\v 1 é😀 text\n";
    let index = index(source);
    assert_eq!(position(&index, 0), Position::new(0, 0));
    assert_eq!(position(&index, 8), Position::new(1, 0));
    let text = source.find("text").unwrap() as u32;
    assert_eq!(position(&index, text), Position::new(1, 9));
    assert_eq!(position(&index, 9_999), Position::new(2, 0));
}

#[test]
fn a_range_is_the_span_with_non_ascii_text_before_it() {
    let source = "\\id GEN\n\\p\n\\v 1 é😀 \\zzz more\n";
    let index = index(source);
    let start = source.find("\\zzz").unwrap() as u32;
    let span = Span::new(start, start + 4);
    assert_eq!(
        range(&index, span),
        Range::new(Position::new(2, 9), Position::new(2, 13)),
    );
    assert_eq!(index.line_col(span.start), (3, 9));
}

#[test]
fn an_offset_is_the_inverse_of_a_position() {
    let source = "\\id GEN\n\\v 1 é😀 text\n";
    let index = index(source);
    assert_eq!(offset(source, Position::new(0, 0)), 0);
    assert_eq!(offset(source, Position::new(1, 0)), 8);
    let text = source.find("text").unwrap() as u32;
    assert_eq!(offset(source, Position::new(1, 9)), text);
    for byte in 0..=source.len() {
        if !source.is_char_boundary(byte) {
            continue;
        }
        let byte = byte as u32;
        assert_eq!(offset(source, position(&index, byte)), byte, "byte {byte}");
    }
}

#[test]
fn a_position_outside_the_document_clamps() {
    let source = "\\id GEN\n\\p text\n";
    assert_eq!(offset(source, Position::new(1, 7)), 15);
    assert_eq!(offset(source, Position::new(1, 99)), 15);
    assert_eq!(&source[15..], "\n");
    assert_eq!(offset(source, Position::new(2, 0)), source.len() as u32);
    assert_eq!(offset(source, Position::new(2, 4)), source.len() as u32);
    assert_eq!(offset(source, Position::new(99, 0)), source.len() as u32);
    assert_eq!(offset("", Position::new(0, 0)), 0);
    assert_eq!(offset("", Position::new(7, 7)), 0);
}

#[test]
fn a_position_inside_a_surrogate_pair_rounds_to_its_character() {
    let source = "a😀b";
    assert_eq!(offset(source, Position::new(0, 1)), 1);
    assert_eq!(offset(source, Position::new(0, 2)), 1);
    assert_eq!(offset(source, Position::new(0, 3)), 5);
}

#[test]
fn the_whole_document_range_ends_where_the_text_does() {
    let source = "\\id GEN\n\\p text\n";
    assert_eq!(
        whole_document(&index(source), source),
        Range::new(Position::new(0, 0), Position::new(2, 0)),
    );
    let source = "\\id GEN";
    assert_eq!(
        whole_document(&index(source), source),
        Range::new(Position::new(0, 0), Position::new(0, 7)),
    );
    let source = "";
    assert_eq!(
        whole_document(&index(source), source),
        Range::new(Position::new(0, 0), Position::new(0, 0)),
    );
}

#[test]
fn a_synthesized_span_lands_at_the_start_of_the_file() {
    let index = index("\\id GEN\n");
    assert_eq!(
        range(&index, Span::synthesized()),
        Range::new(Position::new(0, 0), Position::new(0, 0)),
    );
}

const SOURCE: &str =
    "\\id GEN Genesis\n\\c 1\n\\p\n\\v 1 In the beginning\n\\v 2-3 and\n\\c 2\n\\p\n\\v 1 y\n";

fn outline(source: &str) -> Vec<Entry> {
    let result = usfm::parse(source);
    symbols(&result.document)
}

fn names(entries: &[Entry]) -> Vec<&str> {
    entries.iter().map(|entry| entry.name.as_str()).collect()
}

fn selection(source: &str, entry: &Entry) -> Range {
    range(&index(source), entry.selection)
}

fn whole(source: &str, entry: &Entry) -> Range {
    range(&index(source), entry.range)
}

#[test]
fn the_book_holds_the_chapters_and_a_chapter_holds_its_verses() {
    let outline = outline(SOURCE);
    assert_eq!(names(&outline), ["GEN"]);
    let book = &outline[0];
    assert_eq!(book.kind, SymbolKind::Module);
    assert_eq!(book.detail.as_deref(), Some("Genesis"));

    let chapters = &book.children;
    assert_eq!(names(chapters), ["Chapter 1", "Chapter 2"]);
    assert_eq!(chapters[0].kind, SymbolKind::Namespace);
    assert_eq!(names(&chapters[0].children), ["1", "2-3"]);
    assert_eq!(names(&chapters[1].children), ["1"]);
    assert_eq!(chapters[0].children[0].kind, SymbolKind::Key);
}

fn inside(inner: Range, outer: Range) -> bool {
    outer.start <= inner.start && inner.end <= outer.end
}

#[test]
fn a_verse_selects_its_marker_and_covers_its_text() {
    let outline = outline(SOURCE);
    let index = index(SOURCE);
    let chapter = &outline[0].children[0];
    let verse = &chapter.children[0];

    assert_eq!(selection(SOURCE, verse), {
        let start = SOURCE.find("\\v 1").unwrap() as u32;
        range(&index, Span::new(start, start + 4))
    });
    assert_eq!(
        whole(SOURCE, verse).end,
        position(&index, SOURCE.find("\\v 2-3").unwrap() as u32),
    );
    assert!(inside(whole(SOURCE, chapter), whole(SOURCE, &outline[0])));
    assert!(inside(whole(SOURCE, verse), whole(SOURCE, chapter)));
    assert!(inside(selection(SOURCE, verse), whole(SOURCE, verse)));

    let last = chapter.children.last().expect("chapter 1 has verses");
    assert_eq!(
        whole(SOURCE, last).end,
        position(&index, SOURCE.find("\\c 2").unwrap() as u32),
    );
}

#[test]
fn a_document_without_an_id_has_the_chapters_at_the_top() {
    let outline = outline("\\c 1\n\\p\n\\v 1 a\n\\c 2\n\\p\n\\v 1 b\n");
    assert_eq!(names(&outline), ["Chapter 1", "Chapter 2"]);
    assert_eq!(names(&outline[0].children), ["1"]);
}

#[test]
fn a_sidebar_is_a_symbol_where_it_stands() {
    let source = "\\id GEN Genesis\n\\c 1\n\\p\n\\v 1 a\n\\esb \\cat History\\cat*\n\\p aside\n\\esbe\n\\p more\n";
    let outline = outline(source);
    let chapter = &outline[0].children[0];
    let verse = &chapter.children[0];
    assert_eq!(verse.name, "1");

    let sidebar = verse
        .children
        .iter()
        .find(|entry| entry.name == "Sidebar")
        .expect("the sidebar is a symbol");
    assert_eq!(sidebar.kind, SymbolKind::Object);
    assert_eq!(sidebar.detail.as_deref(), Some("History"));
    let selected = selection(source, sidebar);
    assert_eq!(selected.start.line, 4);
    assert_eq!(selected.start.character, 0);
    assert_eq!(selected.end.character, 4);
}

#[test]
fn a_periph_is_named_for_its_title_and_holds_what_it_holds() {
    let source =
        "\\id GEN Genesis\n\\periph Title Page|id=\"title\"\n\\p intro\n\\c 1\n\\p\n\\v 1 a\n";
    let outline = outline(source);
    assert_eq!(names(&outline), ["GEN"]);
    let periph = &outline[0].children[0];
    assert_eq!(periph.name, "Periph Title Page");
    assert_eq!(periph.kind, SymbolKind::Object);
    assert_eq!(names(&periph.children), ["Chapter 1"]);
    let selected = selection(source, periph);
    assert_eq!(selected.start.line, 1);
    assert_eq!(selected.end.character, 7);
}

#[test]
fn a_repeated_verse_number_is_a_symbol_of_its_own() {
    let outline = outline("\\id GEN\n\\c 1\n\\p\n\\v 1 a\n\\v 1 b\n\\v 3 c\n");
    let chapter = &outline[0].children[0];
    assert_eq!(names(&chapter.children), ["1", "1", "3"]);
}

#[test]
fn an_empty_document_has_no_symbols() {
    assert!(outline("").is_empty());
}

/// The spans of a small outline, exactly: the book to the end of the
/// document, the chapter to it too, the verse to the end of the chapter.
#[test]
fn an_outline_has_exact_ranges() {
    let source = "\\id GEN\n\\c 1\n\\p\n\\v 1 a\n";
    let outline = outline(source);
    let end = source.len() as u32;
    assert_eq!(outline[0].range, Span::new(0, end));
    let chapter = &outline[0].children[0];
    let c = source.find("\\c 1").unwrap() as u32;
    assert_eq!(chapter.range, Span::new(c, end));
    assert_eq!(chapter.selection, Span::new(c, c + 4));
    let v = source.find("\\v 1").unwrap() as u32;
    assert_eq!(chapter.children[0].range, Span::new(v, end));
}
