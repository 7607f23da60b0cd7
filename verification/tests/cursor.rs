use usfm::ast::{
    Alignment, Block, Caller, Char, ChapterStart, Document, Inline, Note, Para, StyleId, Table,
    TableCell, TableRow, Text, VerseStart,
};
use usfm::book::{Book, BookCode};
use usfm::cursor::Cursor;
use usfm::number::NumberList;
use usfm::span::Span;

fn sample_document() -> Document {
    Document::without_styles(vec![
        Block::Book(Book {
            span: Span::synthesized(),
            code: BookCode::Gen,
            description: "Genesis".to_owned(),
        }),
        Block::ChapterStart(ChapterStart {
            span: Span::synthesized(),
            number: 1,
            alt_number: None,
            pub_number: None,
        }),
        Block::Para(Para {
            span: Span::synthesized(),
            style: StyleId::new(0),
            children: vec![
                Inline::VerseStart(VerseStart {
                    span: Span::synthesized(),
                    number: NumberList::collapsed(1),
                    alt_number: None,
                    pub_number: None,
                }),
                Inline::Text(Text::synthesized("In the beginning")),
                Inline::Char(Char {
                    span: Span::synthesized(),
                    style: StyleId::new(0),
                    children: vec![Inline::Text(Text::synthesized("God"))],
                    attributes: None,
                }),
            ],
        }),
    ])
}

#[test]
fn navigate_down_and_across_siblings() {
    let doc = sample_document();
    let mut cursor = Cursor::new(&doc);

    assert!(cursor.node().is_document());
    assert_eq!(cursor.depth(), 0);

    // Down to first child (Book)
    assert!(cursor.first_child());
    assert!(cursor.node().is_book());
    assert_eq!(cursor.depth(), 1);

    // Next sibling (ChapterStart)
    assert!(cursor.next_sibling());
    assert!(cursor.node().is_chapter_start());

    // Next sibling (Para)
    assert!(cursor.next_sibling());
    assert!(cursor.node().is_para());

    // No more siblings
    assert!(!cursor.next_sibling());
}

#[test]
fn navigate_into_para_children() {
    let doc = sample_document();
    let mut cursor = Cursor::new(&doc);

    // Navigate to Para: doc -> last child
    assert!(cursor.last_child());
    assert!(cursor.node().is_para());

    // Into Para's children
    assert!(cursor.first_child());
    assert!(cursor.node().is_verse_start());

    assert!(cursor.next_sibling());
    assert!(cursor.node().is_text());
    assert_eq!(
        cursor.node().as_text().unwrap().content.as_str(),
        "In the beginning"
    );

    assert!(cursor.next_sibling());
    assert!(cursor.node().is_char());
}

#[test]
fn navigate_into_char_children() {
    let doc = sample_document();
    let mut cursor = Cursor::new(&doc);

    // doc -> Para -> Char -> Text
    cursor.last_child(); // Para
    cursor.last_child(); // Char
    assert!(cursor.node().is_char());

    assert!(cursor.first_child());
    assert!(cursor.node().is_text());
    assert_eq!(cursor.node().as_text().unwrap().content.as_str(), "God");

    // Leaf: can't go deeper
    assert!(!cursor.first_child());
    assert!(!cursor.last_child());
}

#[test]
fn navigate_up_to_root() {
    let doc = sample_document();
    let mut cursor = Cursor::new(&doc);

    // Go deep: doc -> Para -> Char -> Text
    cursor.last_child();
    cursor.last_child();
    cursor.first_child();
    assert!(cursor.node().is_text());
    assert_eq!(cursor.depth(), 3);

    // Walk back up
    assert!(cursor.parent());
    assert!(cursor.node().is_char());
    assert_eq!(cursor.depth(), 2);

    assert!(cursor.parent());
    assert!(cursor.node().is_para());
    assert_eq!(cursor.depth(), 1);

    assert!(cursor.parent());
    assert!(cursor.node().is_document());
    assert_eq!(cursor.depth(), 0);

    // Can't go above root
    assert!(!cursor.parent());
}

#[test]
fn prev_sibling() {
    let doc = sample_document();
    let mut cursor = Cursor::new(&doc);

    // Go to last block
    cursor.last_child();
    assert!(cursor.node().is_para());

    // Walk backwards
    assert!(cursor.prev_sibling());
    assert!(cursor.node().is_chapter_start());

    assert!(cursor.prev_sibling());
    assert!(cursor.node().is_book());

    // Can't go before first
    assert!(!cursor.prev_sibling());
}

#[test]
fn root_boundary_checks() {
    let doc = sample_document();
    let mut cursor = Cursor::new(&doc);

    assert!(!cursor.parent());
    assert!(!cursor.next_sibling());
    assert!(!cursor.prev_sibling());
    assert!(cursor.parent_node().is_none());
}

#[test]
fn leaf_boundary_checks() {
    let doc = sample_document();
    let mut cursor = Cursor::new(&doc);

    // Navigate to a leaf (Book)
    cursor.first_child();
    assert!(cursor.node().is_book());
    assert!(cursor.node().is_leaf());
    assert!(!cursor.first_child());
    assert!(!cursor.last_child());
}

#[test]
fn parent_node() {
    let doc = sample_document();
    let mut cursor = Cursor::new(&doc);

    cursor.last_child(); // Para
    cursor.first_child(); // VerseStart

    let parent = cursor.parent_node().unwrap();
    assert!(parent.is_para());
}

#[test]
fn reset_returns_to_root() {
    let doc = sample_document();
    let mut cursor = Cursor::new(&doc);

    cursor.last_child();
    cursor.last_child();
    cursor.first_child();
    assert_eq!(cursor.depth(), 3);

    cursor.reset();
    assert_eq!(cursor.depth(), 0);
    assert!(cursor.node().is_document());
}

#[test]
fn num_children_correctness() {
    let doc = sample_document();
    let cursor = Cursor::new(&doc);

    // Document has 3 blocks
    assert_eq!(cursor.node().num_children(), 3);
}

#[test]
fn table_traversal() {
    let doc = Document::without_styles(vec![Block::Table(Table {
        span: Span::synthesized(),
        rows: vec![TableRow {
            span: Span::synthesized(),
            cells: vec![TableCell {
                span: Span::synthesized(),
                header: false,
                alignment: Alignment::Start,
                column: 1,
                colspan: 1,
                children: vec![Inline::Text(Text::synthesized("cell content"))],
            }],
        }],
    })]);

    let mut cursor = Cursor::new(&doc);

    assert!(cursor.first_child());
    assert!(cursor.node().is_table());

    assert!(cursor.first_child());
    assert!(cursor.node().is_table_row());

    assert!(cursor.first_child());
    assert!(cursor.node().is_table_cell());

    assert!(cursor.first_child());
    assert!(cursor.node().is_text());
    assert_eq!(
        cursor.node().as_text().unwrap().content.as_str(),
        "cell content"
    );

    // Walk back up
    assert!(cursor.parent());
    assert!(cursor.node().is_table_cell());
    assert!(cursor.parent());
    assert!(cursor.node().is_table_row());
    assert!(cursor.parent());
    assert!(cursor.node().is_table());
    assert!(cursor.parent());
    assert!(cursor.node().is_document());
}

#[test]
fn note_traversal() {
    let doc = Document::without_styles(vec![Block::Para(Para {
        span: Span::synthesized(),
        style: StyleId::new(0),
        children: vec![Inline::Note(Note {
            span: Span::synthesized(),
            style: StyleId::new(0),
            caller: Caller::Plus,
            category: None,
            children: vec![Inline::Text(Text::synthesized("footnote text"))],
        })],
    })]);

    let mut cursor = Cursor::new(&doc);

    cursor.first_child(); // Para
    cursor.first_child(); // Note
    assert!(cursor.node().is_note());
    assert_eq!(cursor.node().num_children(), 1);

    cursor.first_child(); // Text inside note
    assert!(cursor.node().is_text());
    assert_eq!(
        cursor.node().as_text().unwrap().content.as_str(),
        "footnote text"
    );
}

#[test]
fn empty_document() {
    let doc = Document::without_styles(vec![]);
    let mut cursor = Cursor::new(&doc);

    assert!(cursor.node().is_document());
    assert_eq!(cursor.node().num_children(), 0);
    assert!(!cursor.first_child());
    assert!(!cursor.last_child());
}

/// Stepping back to the previous sibling returns to where a step to the
/// next one started.
#[test]
fn prev_sibling_undoes_next_sibling() {
    let result = usfm::parse("\\id GEN\n\\c 1\n\\p \\v 1 a\n\\p \\v 2 b\n");
    let mut cursor = Cursor::new(&result.document);
    assert!(cursor.first_child());
    assert!(cursor.next_sibling());
    let depth = cursor.depth();
    assert!(cursor.prev_sibling());
    assert_eq!(cursor.depth(), depth);
    assert!(!cursor.prev_sibling());
    assert!(cursor.next_sibling());
    assert!(cursor.node().is_chapter_start());
}

/// Every node below the root, a node before its children, each with its
/// path; the prefix handed in is left as it was.
#[test]
fn descendants_come_in_document_order_with_their_paths() {
    let result = usfm::parse("\\id GEN\n\\c 1\n\\p \\v 1 a \\nd b\\nd*\n");
    let root = usfm::cursor::NodeRef::Document(&result.document);
    let mut prefix: Vec<usize> = Vec::new();
    let all = root.descendants(&mut prefix);
    assert!(prefix.is_empty());
    assert!(all[0].1.is_book());
    assert_eq!(all[0].0, vec![0]);
    assert!(all[1].1.is_chapter_start());
    let para = all.iter().position(|(_, n)| n.is_para()).unwrap();
    assert_eq!(all[para].0.len(), 1);
    assert!(all[para + 1].1.is_verse_start());
    assert_eq!(all[para + 1].0, vec![all[para].0[0], 0]);
    for (path, node) in &all {
        let found = root.descend(path).unwrap();
        assert_eq!(format!("{found:?}"), format!("{node:?}"));
    }
    let char_at = all.iter().position(|(_, n)| n.is_char()).unwrap();
    assert!(all[char_at + 1].1.is_text());
    assert_eq!(all[char_at + 1].0.len(), 3);
}
