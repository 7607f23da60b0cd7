use std::sync::Arc;

use usfm::ast::{
    Alignment, Attribute, Attributes, Block, Caller, ChapterEnd, ChapterStart, Char, Document,
    Inline, Milestone, Note, OptBreak, Para, Periph, Sidebar, StyleId, Table, TableCell, TableRow,
    Text, VerseEnd, VerseStart,
};
use usfm::book::{Book, BookCode};
use usfm::eq::{eq_ignoring_spans, option_attributes};
use usfm::fold::{fold_document, Fold};
use usfm::number::NumberList;
use usfm::span::Span;
use usfm::style::{StyleRule, StyleSheet, StyleType, TextType};

const SPAN: Span = Span { start: 0, end: 0 };

fn rule(marker: &str, style_type: StyleType, text_type: TextType) -> StyleRule {
    StyleRule::bare(marker, style_type, text_type)
}

/// A stylesheet with the markers [`sample_document`] uses.
fn sample_style_sheet() -> Arc<StyleSheet> {
    Arc::new(StyleSheet::new(vec![
        rule("p", StyleType::Paragraph, TextType::VerseText),
        rule("q1", StyleType::Paragraph, TextType::VerseText),
        rule("s", StyleType::Paragraph, TextType::Section),
        rule("nd", StyleType::Character, TextType::VerseText),
        rule("w", StyleType::Character, TextType::VerseText),
        rule("f", StyleType::Note, TextType::NoteText),
        rule("ft", StyleType::Character, TextType::NoteText),
        rule("qt-s", StyleType::Milestone, TextType::Other),
        rule("qt-e", StyleType::Milestone, TextType::Other),
        rule("esb", StyleType::Paragraph, TextType::Other),
    ]))
}

fn style(sheet: &StyleSheet, marker: &str) -> StyleId {
    StyleId::new(sheet.get_marker_index(marker).unwrap() as u32)
}

fn text(content: &'static str) -> Inline {
    Inline::Text(Text::synthesized(content))
}

fn verse_start(number: usize) -> Inline {
    Inline::VerseStart(VerseStart {
        number: NumberList::collapsed(number),
        alt_number: None,
        pub_number: None,
        span: SPAN,
    })
}

fn verse_end(number: usize) -> Inline {
    Inline::VerseEnd(VerseEnd {
        number: NumberList::collapsed(number),
        span: SPAN,
    })
}

fn attributes(pairs: &[(&'static str, &'static str)]) -> Attributes {
    Attributes {
        pairs: pairs
            .iter()
            .map(|(name, value)| Attribute {
                name: (*name).into(),
                value: (*value).into(),
                span: SPAN,
            })
            .collect(),
        pipe: SPAN,
    }
}

/// Genesis 1:1–2 as the parser would build it (ends included), with a
/// character style, a word with attributes, a footnote, quotation
/// milestones, a sidebar and a one-cell table.
fn sample_document() -> Document {
    let sheet = sample_style_sheet();
    let s = |marker: &str| style(&sheet, marker);
    let blocks = vec![
        Block::Book(Book {
            code: BookCode::Gen,
            description: "".into(),
            span: SPAN,
        }),
        Block::ChapterStart(ChapterStart {
            number: 1,
            alt_number: None,
            pub_number: None,
            span: SPAN,
        }),
        Block::Para(Para {
            style: s("p"),
            children: vec![
                verse_start(1),
                text("In the beginning "),
                Inline::Char(Char {
                    style: s("nd"),
                    children: vec![text("God")],
                    attributes: None,
                    span: SPAN,
                }),
                text(" "),
                Inline::Char(Char {
                    style: s("w"),
                    children: vec![text("created")],
                    attributes: Some(attributes(&[("lemma", "create"), ("strong", "H1254")])),
                    span: SPAN,
                }),
                text(" the heavens"),
                Inline::Note(Note {
                    style: s("f"),
                    caller: Caller::Plus,
                    category: None,
                    children: vec![Inline::Char(Char {
                        style: s("ft"),
                        children: vec![text("a note")],
                        attributes: None,
                        span: SPAN,
                    })],
                    span: SPAN,
                }),
                verse_end(1),
            ],
            span: SPAN,
        }),
        Block::Para(Para {
            style: s("q1"),
            children: vec![
                Inline::Milestone(Milestone {
                    style: s("qt-s"),
                    attributes: Some(attributes(&[("who", "God")])),
                    span: SPAN,
                }),
                text("and "),
                verse_start(2),
                text("the earth"),
                Inline::Milestone(Milestone {
                    style: s("qt-e"),
                    attributes: None,
                    span: SPAN,
                }),
                verse_end(2),
            ],
            span: SPAN,
        }),
        Block::Sidebar(Sidebar {
            style: s("esb"),
            category: None,
            blocks: vec![Block::Para(Para {
                style: s("p"),
                children: vec![text("Aside")],
                span: SPAN,
            })],
            span: SPAN,
        }),
        Block::Table(Table {
            rows: vec![TableRow {
                cells: vec![TableCell {
                    header: false,
                    alignment: Alignment::Start,
                    column: 1,
                    colspan: 1,
                    children: vec![text("Reuben")],
                    span: SPAN,
                }],
                span: SPAN,
            }],
            span: SPAN,
        }),
        Block::ChapterEnd(ChapterEnd {
            number: 1,
            span: SPAN,
        }),
    ];
    Document::new(blocks, sheet)
}

/// One paragraph holding one text run, with `marker` at index `index` of a
/// sheet padded so that the same marker can sit at two different indices.
fn one_para(index: usize, marker: &str, content: &str, span: Span) -> Document {
    let mut rules: Vec<StyleRule> = (0..index)
        .map(|filler| rule(&format!("z{filler}"), StyleType::Milestone, TextType::Other))
        .collect();
    rules.push(rule(marker, StyleType::Paragraph, TextType::Other));
    let para = Para {
        style: StyleId::new(index as u32),
        children: vec![Inline::Text(Text::new(content.to_string(), span))],
        span,
    };
    Document::new(vec![Block::Para(para)], Arc::new(StyleSheet::new(rules)))
}

#[test]
fn a_document_equals_itself() {
    let document = sample_document();
    assert!(eq_ignoring_spans(&document, &document));
}

/// The same tree read from two different offsets is the same tree.
#[test]
fn spans_are_ignored() {
    let first = one_para(0, "p", "text", Span::new(0, 4));
    let second = one_para(0, "p", "text", Span::new(100, 104));
    assert!(eq_ignoring_spans(&first, &second));
    // Whereas the derived `PartialEq` on the blocks does not agree.
    assert_ne!(first.blocks, second.blocks);
}

/// A style is compared by the marker it resolves to, not by its index.
#[test]
fn a_style_is_compared_by_its_marker() {
    let first = one_para(0, "q1", "text", SPAN);
    let shifted = one_para(3, "q1", "text", SPAN);
    assert!(eq_ignoring_spans(&first, &shifted));
    assert_ne!(first.blocks, shifted.blocks);

    let other_marker = one_para(0, "q2", "text", SPAN);
    assert!(!eq_ignoring_spans(&first, &other_marker));
}

#[test]
fn content_still_has_to_match() {
    let first = one_para(0, "p", "text", SPAN);
    let second = one_para(0, "p", "other", SPAN);
    assert!(!eq_ignoring_spans(&first, &second));
}

/// A bare `|` with no pairs is not the same document as no `|` at all.
#[test]
fn an_empty_attribute_list_differs_from_none() {
    let empty = Some(Attributes {
        pairs: vec![],
        pipe: SPAN,
    });
    assert!(!option_attributes(&empty, &None));
    assert!(option_attributes(&empty, &empty.clone()));
}

/// A document whose blocks differ only in one book code is another document.
#[test]
fn a_different_book_code_is_a_different_document() {
    let first = Document::without_styles(vec![Block::Book(Book {
        code: BookCode::Gen,
        description: "".into(),
        span: SPAN,
    })]);
    let second = Document::without_styles(vec![Block::Book(Book {
        code: BookCode::Exo,
        description: "".into(),
        span: SPAN,
    })]);
    assert!(!eq_ignoring_spans(&first, &second));
    assert!(eq_ignoring_spans(&second, &second));
}

fn number(list: &NumberList) -> String {
    let mut out = String::new();
    list.write(&mut out);
    out
}

/// Folds to an S-expression, one uniform type for everything.
struct Sexp {
    style_sheet: Arc<StyleSheet>,
}

impl Sexp {
    fn marker(&self, style: StyleId) -> String {
        self.style_sheet.get_rule(style.index()).marker.clone()
    }

    fn list(&self, head: &str, items: Vec<String>) -> String {
        if items.is_empty() {
            format!("({head})")
        } else {
            format!("({head} {})", items.join(" "))
        }
    }
}

impl Fold for Sexp {
    type Output = String;
    type Block = String;
    type Row = String;
    type Cell = String;
    type Inline = String;

    fn fold_document(&mut self, _: &Document, blocks: Vec<String>) -> String {
        self.list("doc", blocks)
    }

    fn fold_book(&mut self, book: &Book) -> String {
        format!("(id {:?})", book.code)
    }

    fn fold_chapter_start(&mut self, chapter: &ChapterStart) -> String {
        format!("(c {})", chapter.number)
    }

    fn fold_chapter_end(&mut self, chapter: &ChapterEnd) -> String {
        format!("(/c {})", chapter.number)
    }

    fn fold_para(&mut self, para: &Para, children: Vec<String>) -> String {
        self.list(&self.marker(para.style), children)
    }

    fn fold_table(&mut self, _: &Table, rows: Vec<String>) -> String {
        self.list("table", rows)
    }

    fn fold_table_row(&mut self, _: &TableRow, cells: Vec<String>) -> String {
        self.list("tr", cells)
    }

    fn fold_table_cell(&mut self, cell: &TableCell, children: Vec<String>) -> String {
        self.list(&format!("tc{}", cell.column), children)
    }

    fn fold_block_milestone(&mut self, milestone: &Milestone) -> String {
        format!("(ms {})", self.marker(milestone.style))
    }

    fn fold_sidebar(&mut self, _: &Sidebar, blocks: Vec<String>) -> String {
        self.list("esb", blocks)
    }

    fn fold_periph(&mut self, _: &Periph, blocks: Vec<String>) -> String {
        self.list("periph", blocks)
    }

    fn fold_text(&mut self, text: &Text) -> String {
        format!("{:?}", text.content)
    }

    fn fold_verse_start(&mut self, verse: &VerseStart) -> String {
        format!("(v {})", number(&verse.number))
    }

    fn fold_verse_end(&mut self, verse: &VerseEnd) -> String {
        format!("(/v {})", number(&verse.number))
    }

    fn fold_char(&mut self, char: &Char, children: Vec<String>) -> String {
        let mut items = children;
        if let Some(attributes) = &char.attributes {
            for pair in &attributes.pairs {
                items.push(format!("{}={:?}", pair.name, pair.value));
            }
        }
        self.list(&self.marker(char.style), items)
    }

    fn fold_note(&mut self, note: &Note, children: Vec<String>) -> String {
        self.list(&self.marker(note.style), children)
    }

    fn fold_milestone(&mut self, milestone: &Milestone) -> String {
        let who = milestone
            .pairs()
            .iter()
            .map(|pair| format!("{}={:?}", pair.name, pair.value))
            .collect();
        self.list(&format!("ms {}", self.marker(milestone.style)), who)
    }

    fn fold_opt_break(&mut self, _: &OptBreak) -> String {
        "//".into()
    }
}

#[test]
fn folds_bottom_up_into_the_callers_type() {
    let document = sample_document();
    let mut folder = Sexp {
        style_sheet: Arc::clone(document.style_sheet()),
    };
    let sexp = fold_document(&mut folder, &document);
    assert_eq!(
        sexp,
        "(doc (id Gen) (c 1) \
         (p (v 1) \"In the beginning \" (nd \"God\") \" \" (w \"created\" lemma=\"create\" strong=\"H1254\") \" the heavens\" (f (ft \"a note\")) (/v 1)) \
         (q1 (ms qt-s who=\"God\") \"and \" (v 2) \"the earth\" (ms qt-e) (/v 2)) \
         (esb (p \"Aside\")) \
         (table (tr (tc1 \"Reuben\"))) \
         (/c 1))"
    );
}
