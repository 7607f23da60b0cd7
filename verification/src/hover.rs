//! What the stylesheet and the tree say about the node under a cursor.
//!
//! Two kinds of answer, decided by the node [`locate`] found:
//!
//! - a node that carries a style (a paragraph, a character style, a note, a
//!   milestone, a sidebar, a periph, a table cell) is answered with its
//!   stylesheet entry from the document's own sheet: the marker, its name,
//!   its description and the markers it may occur under;
//! - a `\c` or a `\v`, and any text, is answered with the reference in force,
//!   `**GEN 1:1**`. Text with no chapter to name answers for the nearest
//!   node around it that carries a style.
use vstd::prelude::*;
use crate::ast::{
    all_block_styles_below, all_inline_styles_below, block_styles_below, blocks_styles_below,
    inline_styles_below, inlines_styles_below, lemma_block_styles, lemma_inline_styles, Alignment,
    Block, Document, Inline, TableCell,
};
use crate::codegen::{code_spelling, push_code};
use crate::cursor::{
    block_ref, child_count, child_spec, descend_spec, inline_ref, nth_child_spec, NodeRef,
};
use crate::locate::{
    law_the_located_node_holds_the_offset, locate, locate_spec, reference_spec, span_of, span_of_spec,
    walk_of, Location, Walk,
};
use crate::number::{decimal, push_decimal, ranges_text};
use crate::span::Span;
use crate::strings::{push_str};
use crate::style::{first_index_of, StyleRule, StyleSheet};

verus! {

/// One hover answer: the markdown to show and the range it is about.
#[derive(Debug, PartialEq)]
pub struct Hover {
    pub markdown: String,
    pub span: Span,
}

/// Whether `c` has the Unicode `White_Space` property, which is what
/// `char::is_whitespace` and `str::trim` go by.
pub open spec fn is_white_space(c: char) -> bool {
    let n = c as u32;
    (0x9 <= n && n <= 0xD) || n == 0x20 || n == 0x85 || n == 0xA0 || n == 0x1680 || (0x2000 <= n
        && n <= 0x200A) || n == 0x2028 || n == 0x2029 || n == 0x202F || n == 0x205F || n == 0x3000
}

/// `s` without its leading white space.
pub open spec fn trimmed_start(s: Seq<char>) -> Seq<char>
    decreases s.len(),
{
    if s.len() > 0 && is_white_space(s[0]) {
        trimmed_start(s.drop_first())
    } else {
        s
    }
}

/// `s` without its trailing white space.
pub open spec fn trimmed_end(s: Seq<char>) -> Seq<char>
    decreases s.len(),
{
    if s.len() > 0 && is_white_space(s.last()) {
        trimmed_end(s.drop_last())
    } else {
        s
    }
}

/// `s` without its leading and trailing white space.
pub open spec fn trimmed(s: Seq<char>) -> Seq<char> {
    trimmed_end(trimmed_start(s))
}

/// `str::trim`: the slice without leading and trailing white space, white
/// space being the characters with the Unicode `White_Space` property.
#[verifier::external_body]
pub(crate) fn trim(s: &str) -> (t: &str)
    ensures
        t@ == trimmed(s@),
{
    s.trim()
}

/// The markers a rule may occur under, each as `` `\m` ``, separated by
/// spaces.
pub open spec fn occurs_under_list(markers: Seq<String>) -> Seq<char>
    decreases markers.len(),
{
    if markers.len() == 0 {
        seq![]
    } else if markers.len() == 1 {
        "`\\"@ + markers[0]@ + "`"@
    } else {
        occurs_under_list(markers.drop_last()) + " "@ + "`\\"@ + markers.last()@ + "`"@
    }
}

/// One stylesheet entry as markdown: the marker in code, its name after a
/// dash, its description in a paragraph of its own, each left out when the
/// sheet does not give it; then where it may occur, or `anywhere`.
pub open spec fn describe_spec(rule: StyleRule) -> Seq<char> {
    "`\\"@ + rule.marker@ + "`"@ + match rule.name {
        Some(n) => " — "@ + n@,
        None => seq![],
    } + match rule.description {
        Some(d) => "\n\n"@ + d@,
        None => seq![],
    } + "\n\nOccurs under: "@ + if rule.occurs_under@.len() == 0 {
        "anywhere"@
    } else {
        occurs_under_list(rule.occurs_under@)
    }
}

/// One stylesheet entry as markdown.
pub fn describe(rule: &StyleRule) -> (markdown: String)
    ensures
        markdown@ == describe_spec(*rule),
{
    let mut text = String::new();
    push_str(&mut text, "`\\");
    push_str(&mut text, rule.marker.as_str());
    push_str(&mut text, "`");
    match &rule.name {
        Some(n) => {
            push_str(&mut text, " — ");
            push_str(&mut text, n.as_str());
        },
        None => {},
    }
    match &rule.description {
        Some(d) => {
            push_str(&mut text, "\n\n");
            push_str(&mut text, d.as_str());
        },
        None => {},
    }
    push_str(&mut text, "\n\nOccurs under: ");
    let ghost head = text@;
    let markers = &rule.occurs_under;
    if markers.len() == 0 {
        push_str(&mut text, "anywhere");
    } else {
        let mut k: usize = 0;
        while k < markers.len()
            invariant
                k <= markers@.len(),
                text@ == head + occurs_under_list(markers@.take(k as int)),
            decreases markers@.len() - k,
        {
            let ghost before = text@;
            if k > 0 {
                push_str(&mut text, " ");
            }
            push_str(&mut text, "`\\");
            push_str(&mut text, markers[k].as_str());
            push_str(&mut text, "`");
            proof {
                assert(markers@.take(k + 1).drop_last() =~= markers@.take(k as int));
                if k == 0 {
                    assert(markers@.take(1).len() == 1);
                }
                assert(text@ =~= head + occurs_under_list(markers@.take(k + 1)));
            }
            k = k + 1;
        }
        assert(markers@.take(markers@.len() as int) =~= markers@);
    }
    assert(text@ =~= describe_spec(*rule));
    text
}

/// A table cell's marker: `tc1`, `thr2`, and `tc1-2` for a cell that spans
/// columns.
pub open spec fn cell_marker_spec(cell: TableCell) -> Seq<char> {
    "t"@ + (if cell.header {
        "h"@
    } else {
        "c"@
    }) + match cell.alignment {
        Alignment::Start => seq![],
        Alignment::Center => "c"@,
        Alignment::End => "r"@,
    } + decimal(cell.column as nat) + if cell.colspan > 1 {
        "-"@ + decimal(crate::codegen::last_column(cell))
    } else {
        seq![]
    }
}

/// A table cell's marker as the sheet names it.
fn cell_marker(cell: &TableCell) -> (marker: String)
    ensures
        marker@ == cell_marker_spec(*cell),
{
    let mut text = String::new();
    push_str(&mut text, "t");
    if cell.header {
        push_str(&mut text, "h");
    } else {
        push_str(&mut text, "c");
    }
    match cell.alignment {
        Alignment::Start => {},
        Alignment::Center => push_str(&mut text, "c"),
        Alignment::End => push_str(&mut text, "r"),
    }
    push_decimal(&mut text, cell.column);
    if cell.colspan > 1 {
        push_str(&mut text, "-");
        let last = match cell.column.checked_add(cell.colspan - 1) {
            Some(last) => last,
            None => usize::MAX,
        };
        push_decimal(&mut text, last);
    }
    assert(text@ =~= cell_marker_spec(*cell));
    text
}

/// Whether every style in a node and below it resolves in a sheet of `n`
/// rules.
pub open spec fn node_styles_below(node: NodeRef, n: nat) -> bool {
    match node {
        NodeRef::Document(d) => blocks_styles_below(d.blocks@, n),
        NodeRef::Book(_) | NodeRef::ChapterStart(_) | NodeRef::ChapterEnd(_) => true,
        NodeRef::Para(p) => block_styles_below(Block::Para(*p), n),
        NodeRef::Table(t) => block_styles_below(Block::Table(*t), n),
        NodeRef::TableRow(r) => forall|c: int|
            0 <= c < r.cells.len() ==> inlines_styles_below((#[trigger] r.cells[c]).children@, n),
        NodeRef::TableCell(c) => inlines_styles_below(c.children@, n),
        NodeRef::Text(_) | NodeRef::VerseStart(_) | NodeRef::VerseEnd(_) | NodeRef::OptBreak(_) => true,
        NodeRef::Char(c) => inline_styles_below(Inline::Char(*c), n),
        NodeRef::Note(x) => inline_styles_below(Inline::Note(*x), n),
        NodeRef::Milestone(m) => m.style.0 < n,
        NodeRef::Sidebar(s) => block_styles_below(Block::Sidebar(*s), n),
        NodeRef::Periph(p) => block_styles_below(Block::Periph(*p), n),
    }
}

proof fn lemma_block_node(block: &Block, n: nat)
    requires
        block_styles_below(*block, n),
    ensures
        node_styles_below(block_ref(block), n),
{
}

proof fn lemma_inline_node(inline: &Inline, n: nat)
    requires
        inline_styles_below(*inline, n),
    ensures
        node_styles_below(inline_ref(inline), n),
{
}

/// A child of a node whose styles resolve has styles that resolve.
proof fn lemma_child_styles(node: NodeRef, index: int, n: nat)
    requires
        node_styles_below(node, n),
        0 <= index < child_count(node),
    ensures
        node_styles_below(nth_child_spec(node, index), n),
{
    match node {
        NodeRef::Document(d) => {
            lemma_block_node(&d.blocks@[index], n);
        },
        NodeRef::Para(p) => {
            assert(inline_styles_below(p.children@[index], n));
            lemma_inline_node(&p.children@[index], n);
        },
        NodeRef::Char(c) => {
            lemma_inline_styles(c.children@, n);
            assert(inline_styles_below(c.children@[index], n));
            lemma_inline_node(&c.children@[index], n);
        },
        NodeRef::Note(x) => {
            lemma_inline_styles(x.children@, n);
            assert(inline_styles_below(x.children@[index], n));
            lemma_inline_node(&x.children@[index], n);
        },
        NodeRef::Table(t) => {
            assert(t.rows[index] == t.rows@[index]);
        },
        NodeRef::TableRow(r) => {
            assert(r.cells[index] == r.cells@[index]);
        },
        NodeRef::TableCell(c) => {
            assert(inline_styles_below(c.children@[index], n));
            lemma_inline_node(&c.children@[index], n);
        },
        NodeRef::Sidebar(s) => {
            lemma_block_styles(s.blocks@, n);
            assert(block_styles_below(s.blocks@[index], n));
            lemma_block_node(&s.blocks@[index], n);
        },
        NodeRef::Periph(p) => {
            lemma_block_styles(p.blocks@, n);
            assert(block_styles_below(p.blocks@[index], n));
            lemma_block_node(&p.blocks@[index], n);
        },
        _ => {},
    }
}

/// Every node below a node whose styles resolve has styles that resolve.
proof fn lemma_descend_styles(node: NodeRef, path: Seq<usize>, n: nat)
    requires
        node_styles_below(node, n),
    ensures
        descend_spec(node, path) matches Some(m) ==> node_styles_below(m, n),
    decreases path.len(),
{
    if path.len() > 0 {
        match child_spec(node, path[0] as int) {
            Some(child) => {
                lemma_child_styles(node, path[0] as int, n);
                lemma_descend_styles(child, path.drop_first(), n);
            },
            None => {},
        }
    }
}

/// The rule a style index names.
pub open spec fn rule_of(sheet: StyleSheet, style: u32) -> StyleRule {
    sheet.rules@[style as int]
}

/// The stylesheet entry of a node that carries a style, as markdown; a
/// table cell's is the entry of the marker it is written with.
pub open spec fn style_spec(sheet: StyleSheet, node: NodeRef) -> Option<Seq<char>> {
    match node {
        NodeRef::Para(p) => Some(describe_spec(rule_of(sheet, p.style.0))),
        NodeRef::Char(c) => Some(describe_spec(rule_of(sheet, c.style.0))),
        NodeRef::Note(x) => Some(describe_spec(rule_of(sheet, x.style.0))),
        NodeRef::Milestone(m) => Some(describe_spec(rule_of(sheet, m.style.0))),
        NodeRef::Sidebar(s) => Some(describe_spec(rule_of(sheet, s.style.0))),
        NodeRef::Periph(p) => Some(describe_spec(rule_of(sheet, p.style.0))),
        NodeRef::TableCell(c) => match first_index_of(sheet.rules@, cell_marker_spec(*c)) {
            Some(i) => Some(describe_spec(sheet.rules@[i])),
            None => None,
        },
        _ => None,
    }
}

fn style(sheet: &StyleSheet, node: NodeRef) -> (markdown: Option<String>)
    requires
        node_styles_below(node, sheet.rules@.len()),
    ensures
        markdown matches Some(m) ==> style_spec(*sheet, node) == Some(m@),
        markdown is None <==> style_spec(*sheet, node) is None,
{
    match node {
        NodeRef::Para(p) => Some(describe(&sheet.rules[p.style.0 as usize])),
        NodeRef::Char(c) => Some(describe(&sheet.rules[c.style.0 as usize])),
        NodeRef::Note(x) => Some(describe(&sheet.rules[x.style.0 as usize])),
        NodeRef::Milestone(m) => Some(describe(&sheet.rules[m.style.0 as usize])),
        NodeRef::Sidebar(s) => Some(describe(&sheet.rules[s.style.0 as usize])),
        NodeRef::Periph(p) => Some(describe(&sheet.rules[p.style.0 as usize])),
        NodeRef::TableCell(c) => {
            let marker = cell_marker(c);
            match sheet.get_marker_index(marker.as_str()) {
                Some(i) => {
                    proof {
                        let m = cell_marker_spec(*c);
                        let j = choose|j: int|
                            0 <= j < sheet.rules@.len() && sheet.rules@[j].marker@ == m && forall|l: int|
                                0 <= l < j ==> sheet.rules@[l].marker@ != m;
                        assert(j == i as int);
                    }
                    Some(describe(&sheet.rules[i]))
                },
                None => None,
            }
        },
        _ => None,
    }
}

/// The entry of the nearest ancestor of the node at `path` that carries a
/// style.
pub open spec fn enclosing_spec(document: &Document, path: Seq<usize>) -> Option<Seq<char>>
    decreases path.len(),
{
    if path.len() == 0 {
        None
    } else {
        match descend_spec(NodeRef::Document(document), path.drop_last()) {
            None => None,
            Some(node) => match style_spec(*document.style_sheet, node) {
                Some(m) => Some(m),
                None => enclosing_spec(document, path.drop_last()),
            },
        }
    }
}

fn enclosing_style(document: &Document, path: &Vec<usize>) -> (markdown: Option<String>)
    requires
        document.wf(),
    ensures
        markdown matches Some(m) ==> enclosing_spec(document, path@) == Some(m@),
        markdown is None <==> enclosing_spec(document, path@) is None,
{
    let sheet: &StyleSheet = &document.style_sheet;
    let root = NodeRef::Document(document);
    let mut prefix: Vec<usize> = Vec::new();
    let mut i: usize = 0;
    while i < path.len()
        invariant
            i <= path@.len(),
            prefix@ == path@.take(i as int),
        decreases path@.len() - i,
    {
        prefix.push(path[i]);
        i = i + 1;
        assert(prefix@ =~= path@.take(i as int));
    }
    assert(path@.take(path@.len() as int) =~= path@);
    while prefix.len() > 0
        invariant
            prefix@.len() <= path@.len(),
            prefix@ == path@.take(prefix@.len() as int),
            document.wf(),
            sheet == &*document.style_sheet,
            root == NodeRef::Document(document),
            enclosing_spec(document, path@) == enclosing_spec(document, prefix@),
        decreases prefix@.len(),
    {
        let ghost before = prefix@;
        prefix.pop();
        assert(before.drop_last() =~= prefix@);
        assert(prefix@ =~= path@.take(prefix@.len() as int));
        match root.descend(prefix.as_slice()) {
            None => return None,
            Some(node) => {
                proof {
                    lemma_descend_styles(root, prefix@, sheet.rules@.len());
                }
                match style(sheet, node) {
                    Some(markdown) => return Some(markdown),
                    None => {},
                }
            },
        }
    }
    None
}

/// A verse number's text, or nothing for an empty list.
pub open spec fn verse_text(ranges: Seq<crate::number::NumberRange>, guard_rtl: bool) -> Seq<char> {
    if ranges.len() > 0 {
        ranges_text(ranges, guard_rtl)
    } else {
        seq![]
    }
}

/// `**reference**`.
pub open spec fn bold(text: Seq<char>) -> Seq<char> {
    "**"@ + text + "**"@
}

/// The reference of a walk, as a markdown line.
pub open spec fn walk_reference(w: Walk) -> Option<Seq<char>> {
    match w.chapter {
        None => None,
        Some(c) => Some(bold(
            match w.book {
                Some(b) => code_spelling(b) + " "@,
                None => seq![],
            } + decimal(c as nat) + match w.verse {
                Some(v) => seq![':'] + verse_text(v.0, v.1),
                None => seq![],
            },
        )),
    }
}

/// What a hover at `offset` shows, and the range it is about.
pub open spec fn hover_spec(document: &Document, offset: u32) -> Option<(Seq<char>, Span)> {
    let w = locate_spec(document, offset);
    match w.found {
        None => None,
        Some(f) => {
            let markdown = match f.1 {
                NodeRef::ChapterStart(_) | NodeRef::ChapterEnd(_) | NodeRef::VerseStart(_)
                | NodeRef::VerseEnd(_) => walk_reference(w),
                NodeRef::Text(_) | NodeRef::OptBreak(_) => match walk_reference(w) {
                    Some(m) => Some(m),
                    None => enclosing_spec(document, f.0),
                },
                NodeRef::Book(b) => Some(
                    if trimmed(b.description@).len() == 0 {
                        bold(code_spelling(b.code))
                    } else {
                        bold(code_spelling(b.code)) + " — "@ + trimmed(b.description@)
                    },
                ),
                node => style_spec(*document.style_sheet, node),
            };
            match markdown {
                Some(m) => Some((m, span_of_spec(f.1))),
                None => None,
            }
        },
    }
}

/// The reference in force, as a markdown line.
fn reference(location: &Location) -> (markdown: Option<String>)
    ensures
        markdown matches Some(m) ==> reference_spec(location.book, location.chapter, location.verse)
            matches Some(r) && m@ == bold(r),
        markdown is None <==> reference_spec(location.book, location.chapter, location.verse) is None,
{
    match location.reference() {
        Some(r) => {
            let mut text = String::new();
            push_str(&mut text, "**");
            push_str(&mut text, r.as_str());
            push_str(&mut text, "**");
            assert(text@ =~= bold(r@));
            Some(text)
        },
        None => None,
    }
}

/// What to show for a cursor at `offset`, and the range it is about; `None`
/// when there is nothing under it.
pub fn hover(document: &Document, offset: u32) -> (answer: Option<Hover>)
    requires
        document.wf(),
    ensures
        match hover_spec(document, offset) {
            Some(h) => answer matches Some(a) && a.markdown@ == h.0 && a.span == h.1,
            None => answer is None,
        },
{
    let location = locate(document, offset);
    let ghost w = locate_spec(document, offset);
    let ghost root = NodeRef::Document(document);
    let sheet: &StyleSheet = &document.style_sheet;
    proof {
        law_the_located_node_holds_the_offset(document, offset);
        let chapter_at = choose|chapter_at: u32| walk_of(location, chapter_at) == w;
        assert(walk_of(location, chapter_at) == w);
        assert(reference_spec(location.book, location.chapter, location.verse) matches Some(r) ==> walk_reference(w) == Some(bold(r)));
        assert(reference_spec(location.book, location.chapter, location.verse) is None ==> walk_reference(w) is None);
    }
    let found = match &location.node {
        Some(found) => found,
        None => return None,
    };
    proof {
        lemma_descend_styles(root, found.path@, sheet.rules@.len());
    }
    let markdown = match found.node {
        NodeRef::ChapterStart(_) | NodeRef::ChapterEnd(_) | NodeRef::VerseStart(_) | NodeRef::VerseEnd(_) => {
            match reference(&location) {
                Some(m) => m,
                None => return None,
            }
        },
        NodeRef::Text(_) | NodeRef::OptBreak(_) => match reference(&location) {
            Some(m) => m,
            None => match enclosing_style(document, &found.path) {
                Some(m) => m,
                None => return None,
            },
        },
        NodeRef::Book(book) => {
            let mut text = String::new();
            push_str(&mut text, "**");
            push_code(&mut text, book.code);
            push_str(&mut text, "**");
            let description = trim(book.description.as_str());
            if !description.is_empty() {
                push_str(&mut text, " — ");
                push_str(&mut text, description);
            }
            assert(text@ =~= if trimmed(book.description@).len() == 0 {
                bold(code_spelling(book.code))
            } else {
                bold(code_spelling(book.code)) + " — "@ + trimmed(book.description@)
            });
            text
        },
        node => match style(sheet, node) {
            Some(m) => m,
            None => return None,
        },
    };
    Some(Hover { markdown, span: span_of(found.node) })
}

} // verus!
