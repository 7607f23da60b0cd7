use usfm::ast::Block;
use usfm::cursor::NodeRef;
use usfm::test_fixtures::sample_document;
use usfm::text::PlainText;

#[test]
fn document_text_skips_notes_and_joins_blocks() {
    let document = sample_document();
    let text = PlainText::new(document.style_sheet()).of_document(&document);
    assert_eq!(text, "In the beginning God created the heavens and the earth Aside Reuben");
}

#[test]
fn notes_and_character_styles_are_configurable() {
    let document = sample_document();
    let text = PlainText::new(document.style_sheet())
        .with_notes(true)
        .keep_char(|rule| rule.marker != "nd")
        .block_separator("\n")
        .of_document(&document);
    assert_eq!(
        text,
        "In the beginning created the heavens\na note\nand the earth\nAside\nReuben"
    );
}

#[test]
fn paragraphs_are_configurable() {
    let document = sample_document();
    let text = PlainText::new(document.style_sheet())
        .keep_para(|rule| rule.marker == "q1")
        .of_document(&document);
    assert_eq!(text, "and the earth Reuben");
}

#[test]
fn a_single_node() {
    let document = sample_document();
    let text = PlainText::new(document.style_sheet()).of_node(NodeRef::from_block(&document.blocks[3]));
    assert_eq!(text, "and the earth");
}

/// Nodes given with their paths: a change of block is a boundary, so two
/// text runs of one paragraph join and a second paragraph is set apart.
#[test]
fn located_nodes_are_separated_by_block() {
    let document = sample_document();
    let para = match &document.blocks[2] {
        Block::Para(p) => p,
        _ => unreachable!(),
    };
    let q = match &document.blocks[3] {
        Block::Para(p) => p,
        _ => unreachable!(),
    };
    let nodes = vec![
        (vec![2, 1], NodeRef::from_inline(&para.children[1])),
        (vec![2, 5], NodeRef::from_inline(&para.children[5])),
        (vec![3, 3], NodeRef::from_inline(&q.children[3])),
    ];
    let text = PlainText::new(document.style_sheet()).block_separator("|").of_located(nodes);
    assert_eq!(text, "In the beginning the heavens|the earth");
}
