//! A hand-built document with a character style, a word with attributes, a
//! footnote, quotation milestones, a sidebar and a one-cell table, and a
//! stylesheet just big enough to resolve its markers: trees to test a
//! traversal on without a parser.
use vstd::prelude::*;
use std::sync::Arc;
use crate::ast::{
    block_styles_below, blocks_styles_below, lemma_block_styles, lemma_inline_styles, Alignment, Attribute, Attributes, Block, Caller, ChapterEnd, ChapterStart, Char,
    Document, Inline, Milestone, Note, Para, Sidebar, StyleId, Table, TableCell, TableRow, Text,
    VerseEnd, VerseStart,
};
use crate::book::{Book, BookCode};
use crate::number::NumberList;
use crate::sheet::{group, rule_views, texts, RuleView};
use crate::span::Span;
use crate::style::{StyleRule, StyleSheet, StyleType, TextType};

verus! {

/// The rules of the sample sheet, in order.
pub open spec fn sample_rules() -> Seq<RuleView> {
    group(seq!["p"@, "q1"@], StyleType::Paragraph, TextType::VerseText, false, seq![])
        + group(seq!["s"@], StyleType::Paragraph, TextType::Section, false, seq![])
        + group(seq!["nd"@, "w"@], StyleType::Character, TextType::VerseText, false, seq![])
        + group(seq!["f"@], StyleType::Note, TextType::NoteText, false, seq![])
        + group(seq!["ft"@], StyleType::Character, TextType::NoteText, false, seq![])
        + group(seq!["qt-s"@, "qt-e"@], StyleType::Milestone, TextType::Other, false, seq![])
        + group(seq!["esb"@], StyleType::Paragraph, TextType::Other, false, seq![])
}

/// The stylesheet with the markers [`sample_document`] uses.
pub fn sample_style_sheet() -> (sheet: Arc<StyleSheet>)
    ensures
        rule_views(sheet.rules@) == sample_rules(),
{
    let mut rules: Vec<StyleRule> = Vec::new();
    crate::sheet::push_rules(&mut rules, &["p", "q1"], StyleType::Paragraph, TextType::VerseText, false);
    crate::sheet::push_rules(&mut rules, &["s"], StyleType::Paragraph, TextType::Section, false);
    crate::sheet::push_rules(&mut rules, &["nd", "w"], StyleType::Character, TextType::VerseText, false);
    crate::sheet::push_rules(&mut rules, &["f"], StyleType::Note, TextType::NoteText, false);
    crate::sheet::push_rules(&mut rules, &["ft"], StyleType::Character, TextType::NoteText, false);
    crate::sheet::push_rules(&mut rules, &["qt-s", "qt-e"], StyleType::Milestone, TextType::Other, false);
    crate::sheet::push_rules(&mut rules, &["esb"], StyleType::Paragraph, TextType::Other, false);
    assert(rule_views(rules@) =~= sample_rules());
    Arc::new(StyleSheet::new(rules))
}

fn text(content: &str) -> (node: Inline)
    ensures
        node is Text,
{
    Inline::Text(Text::synthesized(content))
}

fn attribute(name: &str, value: &str) -> Attribute {
    Attribute { name: name.to_owned(), value: value.to_owned(), span: Span::synthesized() }
}

/// Genesis 1:1–2 as the parser would build it, ends included:
///
/// ```text
/// \id GEN
/// \c 1
/// \p \v 1 In the beginning \nd God\nd* \w created|lemma="create" strong="H1254"\w* the heavens\f + \ft a note\f*
/// \q1 \qt-s |God\* and \v 2 the earth\qt-e\*
/// \esb \p Aside \esbe
/// \tr \tc1 Reuben
/// ```
pub fn sample_document() -> (document: Document)
    ensures
        document.wf(),
        rule_views(document.style_sheet.rules@) == sample_rules(),
        document.blocks@.len() == 7,
        document.blocks@[0] matches Block::Book(b) && b.code == BookCode::Gen,
        document.blocks@[1] matches Block::ChapterStart(c) && c.number == 1,
        document.blocks@[2] matches Block::Para(p) && p.style.0 == 0 && p.children@.len() == 8,
        document.blocks@[3] matches Block::Para(q) && q.style.0 == 1 && q.children@.len() == 6,
        document.blocks@[4] matches Block::Sidebar(s) && s.style.0 == 9 && s.blocks@.len() == 1,
        document.blocks@[5] matches Block::Table(t) && t.rows@.len() == 1,
        document.blocks@[6] matches Block::ChapterEnd(c) && c.number == 1,
{
    let sheet = sample_style_sheet();
    let p = StyleId::new(0);
    let q1 = StyleId::new(1);
    let nd = StyleId::new(3);
    let w = StyleId::new(4);
    let f = StyleId::new(5);
    let ft = StyleId::new(6);
    let qt_s = StyleId::new(7);
    let qt_e = StyleId::new(8);
    let esb = StyleId::new(9);
    let god_text = vec![text("God")];
    let created_text = vec![text("created")];
    let note_text = vec![text("a note")];
    proof {
        lemma_inline_styles(god_text@, 10);
        lemma_inline_styles(created_text@, 10);
        lemma_inline_styles(note_text@, 10);
    }
    let god = Inline::Char(Char { style: nd, children: god_text, attributes: None, span: Span::synthesized() });
    let created = Inline::Char(Char {
        style: w,
        children: created_text,
        attributes: Some(Attributes {
            pairs: vec![attribute("lemma", "create"), attribute("strong", "H1254")],
            pipe: Span::synthesized(),
        }),
        span: Span::synthesized(),
    });
    let note_body = vec![Inline::Char(Char { style: ft, children: note_text, attributes: None, span: Span::synthesized() })];
    proof {
        lemma_inline_styles(note_body@, 10);
    }
    let note = Inline::Note(Note {
        style: f,
        caller: Caller::Plus,
        category: None,
        children: note_body,
        span: Span::synthesized(),
    });
    let first = Block::Para(Para {
        style: p,
        children: vec![
            Inline::VerseStart(VerseStart {
                number: NumberList::collapsed(1),
                alt_number: None,
                pub_number: None,
                span: Span::synthesized(),
            }),
            text("In the beginning "),
            god,
            text(" "),
            created,
            text(" the heavens"),
            note,
            Inline::VerseEnd(VerseEnd { number: NumberList::collapsed(1), span: Span::synthesized() }),
        ],
        span: Span::synthesized(),
    });
    let second = Block::Para(Para {
        style: q1,
        children: vec![
            Inline::Milestone(Milestone {
                style: qt_s,
                attributes: Some(Attributes { pairs: vec![attribute("who", "God")], pipe: Span::synthesized() }),
                span: Span::synthesized(),
            }),
            text("and "),
            Inline::VerseStart(VerseStart {
                number: NumberList::collapsed(2),
                alt_number: None,
                pub_number: None,
                span: Span::synthesized(),
            }),
            text("the earth"),
            Inline::Milestone(Milestone { style: qt_e, attributes: None, span: Span::synthesized() }),
            Inline::VerseEnd(VerseEnd { number: NumberList::collapsed(2), span: Span::synthesized() }),
        ],
        span: Span::synthesized(),
    });
    let aside = vec![Block::Para(Para { style: p, children: vec![text("Aside")], span: Span::synthesized() })];
    let ghost sidebar_blocks = aside@;
    let sidebar = Block::Sidebar(Sidebar { style: esb, category: None, blocks: aside, span: Span::synthesized() });
    let table = Block::Table(Table {
        rows: vec![TableRow {
            cells: vec![TableCell {
                header: false,
                alignment: Alignment::Start,
                column: 1,
                colspan: 1,
                children: vec![text("Reuben")],
                span: Span::synthesized(),
            }],
            span: Span::synthesized(),
        }],
        span: Span::synthesized(),
    });
    let blocks = vec![
        Block::Book(Book { code: BookCode::Gen, description: String::new(), span: Span::synthesized() }),
        Block::ChapterStart(ChapterStart { number: 1, alt_number: None, pub_number: None, span: Span::synthesized() }),
        first,
        second,
        sidebar,
        table,
        Block::ChapterEnd(ChapterEnd { number: 1, span: Span::synthesized() }),
    ];
    assert(rule_views(sheet.rules@).len() == sheet.rules@.len());
    assert(sheet.rules@.len() == 10);
    let document = Document::new(blocks, sheet);
    proof {
        lemma_block_styles(sidebar_blocks, 10);
    }
    assert(block_styles_below(document.blocks@[0], 10));
    assert(block_styles_below(document.blocks@[1], 10));
    assert(block_styles_below(document.blocks@[2], 10));
    assert(block_styles_below(document.blocks@[3], 10));
    assert(block_styles_below(document.blocks@[4], 10));
    assert(block_styles_below(document.blocks@[5], 10));
    assert(block_styles_below(document.blocks@[6], 10));
    assert(blocks_styles_below(document.blocks@, 10));
    document
}

} // verus!
