//! The tree as JSON: one object per node.
//!
//! Every object carries `"type"`, which node it is (one of [`types`]), and
//! `"span"`, `[start, end]`. A node with a style carries `"style"`, the
//! marker its style resolves to in the document's own sheet, and a node with
//! children carries them under `"children"`. The rest are the node's own
//! fields under their names. An absent optional field is left out (the
//! output has no `null`); an attribute list is an array of
//! `{"name", "value"}` objects in source order, duplicates kept; a chapter
//! or verse number is text, a column or a column span a number.
//!
//! The value is built here, as a [`Json`]; `serde_json` writes it, compact
//! and with the keys of each object in sorted order.
use vstd::prelude::*;
use crate::ast::{
    all_block_styles_below, all_inline_styles_below, block_styles_below, blocks_styles_below,
    inline_styles_below, inlines_styles_below, lemma_block_styles, lemma_inline_styles, Alignment,
    Attributes, Block, Caller, Document, Inline, TableCell, TableRow,
};
use crate::codegen::{code_spelling, marker_of, number_spelling, push_code, push_number};
use crate::eq::sheet_of;
use crate::number::{decimal, push_decimal, NumberList};
use crate::span::Span;
use crate::style::StyleSheet;

verus! {

/// A JSON value as the writer builds it: an object's pairs are kept in the
/// order they were added.
pub enum Json {
    Bool(bool),
    Number(u64),
    Text(String),
    Array(Vec<Json>),
    Object(Vec<(String, Json)>),
}

/// What a [`Json`] value holds.
#[verifier::ext_equal]
pub enum JsonView {
    Bool(bool),
    Number(u64),
    Text(Seq<char>),
    Array(Seq<JsonView>),
    Object(Seq<(Seq<char>, JsonView)>),
}

/// What a JSON value holds.
pub open spec fn json_view(value: Json) -> JsonView
    decreases value, 0nat,
{
    match value {
        Json::Bool(b) => JsonView::Bool(b),
        Json::Number(n) => JsonView::Number(n),
        Json::Text(s) => JsonView::Text(s@),
        Json::Array(items) => JsonView::Array(items_view(items@, items@.len())),
        Json::Object(pairs) => JsonView::Object(pairs_view(pairs@, pairs@.len())),
    }
}

/// What the first `k` items of an array hold.
pub open spec fn items_view(items: Seq<Json>, k: nat) -> Seq<JsonView>
    decreases items, k,
{
    if k == 0 || k > items.len() {
        seq![]
    } else {
        items_view(items, (k - 1) as nat).push(json_view(items[k - 1]))
    }
}

/// What the first `k` pairs of an object hold.
pub open spec fn pairs_view(pairs: Seq<(String, Json)>, k: nat) -> Seq<(Seq<char>, JsonView)>
    decreases pairs, k,
{
    if k == 0 || k > pairs.len() {
        seq![]
    } else {
        pairs_view(pairs, (k - 1) as nat).push((pairs[k - 1].0@, json_view(pairs[k - 1].1)))
    }
}

proof fn lemma_items_prefix(a: Seq<Json>, b: Seq<Json>, k: nat)
    requires
        k <= a.len(),
        k <= b.len(),
        a.take(k as int) == b.take(k as int),
    ensures
        items_view(a, k) == items_view(b, k),
    decreases k,
{
    if k > 0 {
        assert(a.take(k - 1) =~= a.take(k as int).take(k - 1));
        assert(b.take(k - 1) =~= b.take(k as int).take(k - 1));
        assert(a[k - 1] == a.take(k as int)[k - 1]);
        assert(b[k - 1] == b.take(k as int)[k - 1]);
        lemma_items_prefix(a, b, (k - 1) as nat);
    }
}

proof fn lemma_pairs_prefix(a: Seq<(String, Json)>, b: Seq<(String, Json)>, k: nat)
    requires
        k <= a.len(),
        k <= b.len(),
        a.take(k as int) == b.take(k as int),
    ensures
        pairs_view(a, k) == pairs_view(b, k),
    decreases k,
{
    if k > 0 {
        assert(a.take(k - 1) =~= a.take(k as int).take(k - 1));
        assert(b.take(k - 1) =~= b.take(k as int).take(k - 1));
        assert(a[k - 1] == a.take(k as int)[k - 1]);
        assert(b[k - 1] == b.take(k as int)[k - 1]);
        lemma_pairs_prefix(a, b, (k - 1) as nat);
    }
}

/// Add one item at the end of an array.
fn push_item(items: &mut Vec<Json>, value: Json)
    ensures
        final(items)@ == old(items)@.push(value),
        items_view(final(items)@, final(items)@.len()) == items_view(old(items)@, old(items)@.len()).push(
            json_view(value),
        ),
{
    let ghost before = items@;
    items.push(value);
    proof {
        assert(items@.take(before.len() as int) =~= before.take(before.len() as int));
        lemma_items_prefix(items@, before, before.len());
    }
}

/// Add one pair at the end of an object.
fn set(pairs: &mut Vec<(String, Json)>, key: &str, value: Json)
    ensures
        final(pairs)@.len() == old(pairs)@.len() + 1,
        pairs_view(final(pairs)@, final(pairs)@.len()) == pairs_view(old(pairs)@, old(pairs)@.len()) + seq![
            (key@, json_view(value)),
        ],
{
    let ghost before = pairs@;
    pairs.push((key.to_owned(), value));
    proof {
        assert(pairs@.take(before.len() as int) =~= before.take(before.len() as int));
        lemma_pairs_prefix(pairs@, before, before.len());
        assert(pairs_view(pairs@, pairs@.len()) =~= pairs_view(before, before.len()) + seq![
            (key@, json_view(value)),
        ]);
    }
}

/// A text value.
fn text(s: &str) -> (value: Json)
    ensures
        json_view(value) == JsonView::Text(s@),
{
    Json::Text(s.to_owned())
}

/// `[start, end]`.
pub open spec fn span_view(span: Span) -> JsonView {
    JsonView::Array(seq![JsonView::Number(span.start as u64), JsonView::Number(span.end as u64)])
}

fn span_value(span: Span) -> (value: Json)
    ensures
        json_view(value) == span_view(span),
{
    let mut items: Vec<Json> = Vec::new();
    assert(items_view(items@, 0) =~= seq![]);
    let a = Json::Number(span.start as u64);
    let b = Json::Number(span.end as u64);
    assert(json_view(a) == JsonView::Number(span.start as u64));
    assert(json_view(b) == JsonView::Number(span.end as u64));
    push_item(&mut items, a);
    push_item(&mut items, b);
    assert(items_view(items@, items@.len()) =~= seq![JsonView::Number(span.start as u64), JsonView::Number(span.end as u64)]);
    let value = Json::Array(items);
    assert(json_view(value) == JsonView::Array(items_view(items@, items@.len())));
    value
}

/// The two pairs every node has.
pub open spec fn node_view(kind: Seq<char>, span: Span) -> Seq<(Seq<char>, JsonView)> {
    seq![("type"@, JsonView::Text(kind)), ("span"@, span_view(span))]
}

fn node(kind: &str, span: Span) -> (pairs: Vec<(String, Json)>)
    ensures
        pairs_view(pairs@, pairs@.len()) == node_view(kind@, span),
{
    let mut pairs: Vec<(String, Json)> = Vec::new();
    assert(pairs_view(pairs@, 0) =~= seq![]);
    set(&mut pairs, "type", text(kind));
    set(&mut pairs, "span", span_value(span));
    assert(pairs_view(pairs@, pairs@.len()) =~= node_view(kind@, span));
    pairs
}

/// An optional text field: the pair, or nothing.
pub open spec fn optional_text(key: Seq<char>, value: Option<Seq<char>>) -> Seq<(Seq<char>, JsonView)> {
    match value {
        Some(v) => seq![(key, JsonView::Text(v))],
        None => seq![],
    }
}

/// An attribute list: an array of `{"name", "value"}` objects.
pub open spec fn attributes_view(attributes: Attributes) -> JsonView {
    JsonView::Array(
        Seq::new(
            attributes.pairs@.len(),
            |i: int|
                JsonView::Object(
                    seq![
                        ("name"@, JsonView::Text(attributes.pairs@[i].name@)),
                        ("value"@, JsonView::Text(attributes.pairs@[i].value@)),
                    ],
                ),
        ),
    )
}

/// An optional attribute list: the pair, or nothing.
pub open spec fn optional_attributes(attributes: Option<Attributes>) -> Seq<(Seq<char>, JsonView)> {
    match attributes {
        Some(a) => seq![("attributes"@, attributes_view(a))],
        None => seq![],
    }
}

fn attributes_value(attributes: &Attributes) -> (value: Json)
    ensures
        json_view(value) == attributes_view(*attributes),
{
    let mut items: Vec<Json> = Vec::new();
    let mut k: usize = 0;
    while k < attributes.pairs.len()
        invariant
            k <= attributes.pairs@.len(),
            items@.len() == k,
            items_view(items@, k as nat) =~= Seq::new(
                k as nat,
                |i: int|
                    JsonView::Object(
                        seq![
                            ("name"@, JsonView::Text(attributes.pairs@[i].name@)),
                            ("value"@, JsonView::Text(attributes.pairs@[i].value@)),
                        ],
                    ),
            ),
        decreases attributes.pairs@.len() - k,
    {
        let pair = &attributes.pairs[k];
        let mut fields: Vec<(String, Json)> = Vec::new();
        assert(pairs_view(fields@, 0) =~= seq![]);
        set(&mut fields, "name", text(pair.name.as_str()));
        set(&mut fields, "value", text(pair.value.as_str()));
        assert(pairs_view(fields@, fields@.len()) =~= seq![
            ("name"@, JsonView::Text(attributes.pairs@[k as int].name@)),
            ("value"@, JsonView::Text(attributes.pairs@[k as int].value@)),
        ]);
        let object = Json::Object(fields);
        push_item(&mut items, object);
        k = k + 1;
    }
    let value = Json::Array(items);
    assert(json_view(value) =~= attributes_view(*attributes));
    value
}

fn optional_attributes_into(pairs: &mut Vec<(String, Json)>, attributes: &Option<Attributes>)
    ensures
        pairs_view(final(pairs)@, final(pairs)@.len()) == pairs_view(old(pairs)@, old(pairs)@.len())
            + optional_attributes(*attributes),
{
    match attributes {
        Some(a) => set(pairs, "attributes", attributes_value(a)),
        None => {
            assert(pairs_view(pairs@, pairs@.len()) =~= pairs_view(pairs@, pairs@.len()) + seq![]);
        },
    }
}

fn optional_text_into(pairs: &mut Vec<(String, Json)>, key: &str, value: Option<&str>)
    ensures
        pairs_view(final(pairs)@, final(pairs)@.len()) == pairs_view(old(pairs)@, old(pairs)@.len())
            + optional_text(
            key@,
            match value {
                Some(v) => Some(v@),
                None => None,
            },
        ),
{
    match value {
        Some(v) => set(pairs, key, text(v)),
        None => {
            assert(pairs_view(pairs@, pairs@.len()) =~= pairs_view(pairs@, pairs@.len()) + seq![]);
        },
    }
}

fn optional_number_into(pairs: &mut Vec<(String, Json)>, key: &str, value: &Option<NumberList>)
    ensures
        pairs_view(final(pairs)@, final(pairs)@.len()) == pairs_view(old(pairs)@, old(pairs)@.len())
            + optional_text(key@, optional_number(*value)),
{
    match value {
        Some(n) => {
            set(pairs, key, number_text(n));
        },
        None => {
            assert(pairs_view(pairs@, pairs@.len()) =~= pairs_view(pairs@, pairs@.len()) + seq![]);
        },
    }
}

/// A number list as text.
fn number_text(number: &NumberList) -> (value: Json)
    ensures
        json_view(value) == JsonView::Text(number_spelling(*number)),
{
    let mut s = String::new();
    push_number(&mut s, number);
    assert(s@ =~= number_spelling(*number));
    Json::Text(s)
}

/// A whole number as text.
fn decimal_text(n: usize) -> (value: Json)
    ensures
        json_view(value) == JsonView::Text(decimal(n as nat)),
{
    let mut s = String::new();
    push_decimal(&mut s, n);
    assert(s@ =~= decimal(n as nat));
    Json::Text(s)
}

/// The alignment's name.
pub open spec fn alignment_name(alignment: Alignment) -> Seq<char> {
    match alignment {
        Alignment::Start => "start"@,
        Alignment::Center => "center"@,
        Alignment::End => "end"@,
    }
}

/// The caller as written: `+`, `-` or the custom text.
pub open spec fn caller_text(caller: Caller) -> Seq<char> {
    match caller {
        Caller::Plus => "+"@,
        Caller::Minus => "-"@,
        Caller::Custom(c) => c@,
    }
}

/// A number list's text, or nothing.
pub open spec fn optional_number(number: Option<NumberList>) -> Option<Seq<char>> {
    match number {
        Some(n) => Some(number_spelling(n)),
        None => None,
    }
}

/// A string's characters, or nothing.
pub open spec fn optional_string(s: Option<String>) -> Option<Seq<char>> {
    match s {
        Some(v) => Some(v@),
        None => None,
    }
}

/// A text node's content, or nothing.
pub open spec fn optional_content(t: Option<crate::ast::Text>) -> Option<Seq<char>> {
    match t {
        Some(v) => Some(v.content@),
        None => None,
    }
}

/// An inline node as JSON.
pub open spec fn inline_json(sheet: StyleSheet, node: Inline) -> JsonView
    decreases node, 0nat,
{
    match node {
        Inline::Text(t) => JsonView::Object(node_view("text"@, t.span) + seq![("content"@, JsonView::Text(t.content@))]),
        Inline::VerseStart(v) => JsonView::Object(
            node_view("verse_start"@, v.span) + seq![("number"@, JsonView::Text(number_spelling(v.number)))]
                + optional_text("alt_number"@, optional_number(v.alt_number)) + optional_text(
                "pub_number"@,
                optional_string(v.pub_number),
            ),
        ),
        Inline::VerseEnd(v) => JsonView::Object(
            node_view("verse_end"@, v.span) + seq![("number"@, JsonView::Text(number_spelling(v.number)))],
        ),
        Inline::Char(c) => JsonView::Object(
            node_view("char"@, c.span) + seq![("style"@, JsonView::Text(marker_of(sheet, c.style.0)))]
                + optional_attributes(c.attributes) + seq![
                ("children"@, JsonView::Array(inlines_json(sheet, c.children@, c.children@.len()))),
            ],
        ),
        Inline::Note(x) => JsonView::Object(
            node_view("note"@, x.span) + seq![("style"@, JsonView::Text(marker_of(sheet, x.style.0)))]
                + seq![("caller"@, JsonView::Text(caller_text(x.caller)))] + optional_text("category"@, optional_content(x.category)) + seq![
                ("children"@, JsonView::Array(inlines_json(sheet, x.children@, x.children@.len()))),
            ],
        ),
        Inline::Milestone(m) => milestone_json(sheet, m),
        Inline::OptBreak(b) => JsonView::Object(node_view("opt_break"@, b.span)),
    }
}

/// A milestone as JSON, between blocks or inside a paragraph.
pub open spec fn milestone_json(sheet: StyleSheet, m: crate::ast::Milestone) -> JsonView {
    JsonView::Object(
        node_view("milestone"@, m.span) + seq![("style"@, JsonView::Text(marker_of(sheet, m.style.0)))]
            + optional_attributes(m.attributes),
    )
}

/// The first `k` nodes of a list as JSON.
pub open spec fn inlines_json(sheet: StyleSheet, nodes: Seq<Inline>, k: nat) -> Seq<JsonView>
    decreases nodes, k,
{
    if k == 0 || k > nodes.len() {
        seq![]
    } else {
        inlines_json(sheet, nodes, (k - 1) as nat).push(inline_json(sheet, nodes[k - 1]))
    }
}

/// A table cell as JSON.
pub open spec fn cell_json(sheet: StyleSheet, cell: TableCell) -> JsonView {
    JsonView::Object(
        node_view("cell"@, cell.span) + seq![("header"@, JsonView::Bool(cell.header))] + seq![
            ("alignment"@, JsonView::Text(alignment_name(cell.alignment))),
        ] + seq![("column"@, JsonView::Number(cell.column as u64))] + seq![
            ("colspan"@, JsonView::Number(cell.colspan as u64)),
        ] + seq![
            ("children"@, JsonView::Array(inlines_json(sheet, cell.children@, cell.children@.len()))),
        ],
    )
}

/// A table row as JSON.
pub open spec fn row_json(sheet: StyleSheet, row: TableRow) -> JsonView {
    JsonView::Object(
        node_view("row"@, row.span) + seq![
            ("children"@, JsonView::Array(Seq::new(row.cells@.len(), |i: int| cell_json(sheet, row.cells@[i])))),
        ],
    )
}

/// A block as JSON.
pub open spec fn block_json(sheet: StyleSheet, block: Block) -> JsonView
    decreases block, 0nat,
{
    match block {
        Block::Book(b) => JsonView::Object(
            node_view("book"@, b.span) + seq![("code"@, JsonView::Text(code_spelling(b.code)))] + seq![
                ("description"@, JsonView::Text(b.description@)),
            ],
        ),
        Block::ChapterStart(c) => JsonView::Object(
            node_view("chapter_start"@, c.span) + seq![("number"@, JsonView::Text(decimal(c.number as nat)))]
                + optional_text("alt_number"@, optional_number(c.alt_number)) + optional_text(
                "pub_number"@,
                optional_string(c.pub_number),
            ),
        ),
        Block::ChapterEnd(c) => JsonView::Object(
            node_view("chapter_end"@, c.span) + seq![("number"@, JsonView::Text(decimal(c.number as nat)))],
        ),
        Block::Para(p) => JsonView::Object(
            node_view("para"@, p.span) + seq![("style"@, JsonView::Text(marker_of(sheet, p.style.0)))]
                + seq![("children"@, JsonView::Array(inlines_json(sheet, p.children@, p.children@.len())))],
        ),
        Block::Table(t) => JsonView::Object(
            node_view("table"@, t.span) + seq![
                ("children"@, JsonView::Array(Seq::new(t.rows@.len(), |i: int| row_json(sheet, t.rows@[i])))),
            ],
        ),
        Block::Milestone(m) => milestone_json(sheet, m),
        Block::Sidebar(s) => JsonView::Object(
            node_view("sidebar"@, s.span) + seq![("style"@, JsonView::Text(marker_of(sheet, s.style.0)))]
                + optional_text("category"@, optional_content(s.category)) + seq![
                ("children"@, JsonView::Array(blocks_json(sheet, s.blocks@, s.blocks@.len()))),
            ],
        ),
        Block::Periph(p) => JsonView::Object(
            node_view("periph"@, p.span) + seq![("style"@, JsonView::Text(marker_of(sheet, p.style.0)))]
                + optional_text("title"@, optional_content(p.title)) + optional_attributes(p.attributes)
                + seq![("children"@, JsonView::Array(blocks_json(sheet, p.blocks@, p.blocks@.len())))],
        ),
    }
}

/// The first `k` blocks of a list as JSON.
pub open spec fn blocks_json(sheet: StyleSheet, blocks: Seq<Block>, k: nat) -> Seq<JsonView>
    decreases blocks, k,
{
    if k == 0 || k > blocks.len() {
        seq![]
    } else {
        blocks_json(sheet, blocks, (k - 1) as nat).push(block_json(sheet, blocks[k - 1]))
    }
}

/// The furthest point the first `k` blocks reach.
pub open spec fn blocks_end(blocks: Seq<Block>, k: nat) -> u32
    decreases k,
{
    if k == 0 || k > blocks.len() {
        0
    } else {
        let before = blocks_end(blocks, (k - 1) as nat);
        let end = crate::locate::span_of_spec(crate::cursor::block_ref(&blocks[k - 1])).end;
        if end > before {
            end
        } else {
            before
        }
    }
}

/// The version of the first top-level `\usfm` paragraph, if there is one.
pub open spec fn usfm_version_spec(document: Document) -> Option<Seq<char>> {
    if exists|k: int| 0 <= k < document.blocks@.len() && document.is_usfm_para(document.blocks@[k]) {
        let k = choose|k: int|
            0 <= k < document.blocks@.len() && document.is_usfm_para(document.blocks@[k]) && forall|j: int|
                0 <= j < k ==> !document.is_usfm_para(document.blocks@[j]);
        Some(crate::ast::texts_of(crate::ast::para_children(document.blocks@[k])))
    } else {
        None
    }
}

/// The document as JSON: its span runs from 0 to the furthest point any of
/// its blocks reached.
pub open spec fn document_json(document: Document) -> JsonView {
    JsonView::Object(
        node_view("document"@, Span { start: 0, end: blocks_end(document.blocks@, document.blocks@.len()) })
            + optional_text("usfm_version"@, usfm_version_spec(document)) + seq![
            (
                "children"@,
                JsonView::Array(blocks_json(sheet_of(document), document.blocks@, document.blocks@.len())),
            ),
        ],
    )
}

fn inline_value(sheet: &StyleSheet, node: &Inline) -> (value: Json)
    requires
        inline_styles_below(*node, sheet.rules@.len()),
    ensures
        json_view(value) == inline_json(*sheet, *node),
    decreases node,
{
    match node {
        Inline::Text(t) => {
            let mut pairs = node_pairs("text", t.span);
            set(&mut pairs, "content", text(t.content.as_str()));
            object(pairs)
        },
        Inline::VerseStart(v) => {
            let mut pairs = node_pairs("verse_start", v.span);
            set(&mut pairs, "number", number_text(&v.number));
            optional_number_into(&mut pairs, "alt_number", &v.alt_number);
            optional_text_into(&mut pairs, "pub_number", match &v.pub_number {
                Some(p) => Some(p.as_str()),
                None => None,
            });
            assert(JsonView::Object(pairs_view(pairs@, pairs@.len())) =~= inline_json(*sheet, *node));
            let value = object(pairs);
            value
        },
        Inline::VerseEnd(v) => {
            let mut pairs = node_pairs("verse_end", v.span);
            set(&mut pairs, "number", number_text(&v.number));
            object(pairs)
        },
        Inline::Char(c) => {
            let mut pairs = node_pairs("char", c.span);
            set(&mut pairs, "style", text(sheet.rules[c.style.0 as usize].marker.as_str()));
            optional_attributes_into(&mut pairs, &c.attributes);
            proof {
                lemma_inline_styles(c.children@, sheet.rules@.len());
            }
            let children = inlines_value(sheet, &c.children);
            set(&mut pairs, "children", Json::Array(children));
            assert(JsonView::Object(pairs_view(pairs@, pairs@.len())) =~= inline_json(*sheet, *node));
            let value = object(pairs);
            value
        },
        Inline::Note(x) => {
            let mut pairs = node_pairs("note", x.span);
            set(&mut pairs, "style", text(sheet.rules[x.style.0 as usize].marker.as_str()));
            let caller = match &x.caller {
                Caller::Plus => text("+"),
                Caller::Minus => text("-"),
                Caller::Custom(c) => text(c.as_str()),
            };
            set(&mut pairs, "caller", caller);
            optional_text_into(&mut pairs, "category", match &x.category {
                Some(t) => Some(t.content.as_str()),
                None => None,
            });
            proof {
                lemma_inline_styles(x.children@, sheet.rules@.len());
            }
            let children = inlines_value(sheet, &x.children);
            set(&mut pairs, "children", Json::Array(children));
            assert(JsonView::Object(pairs_view(pairs@, pairs@.len())) =~= inline_json(*sheet, *node));
            let value = object(pairs);
            value
        },
        Inline::Milestone(m) => milestone_value(sheet, m),
        Inline::OptBreak(b) => object(node_pairs("opt_break", b.span)),
    }
}

fn milestone_value(sheet: &StyleSheet, m: &crate::ast::Milestone) -> (value: Json)
    requires
        m.style.0 < sheet.rules@.len(),
    ensures
        json_view(value) == milestone_json(*sheet, *m),
{
    let mut pairs = node_pairs("milestone", m.span);
    set(&mut pairs, "style", text(sheet.rules[m.style.0 as usize].marker.as_str()));
    optional_attributes_into(&mut pairs, &m.attributes);
    assert(JsonView::Object(pairs_view(pairs@, pairs@.len())) =~= milestone_json(*sheet, *m));
    let value = object(pairs);
    value
}

/// The two pairs every node has, as a list to add to.
fn node_pairs(kind: &str, span: Span) -> (pairs: Vec<(String, Json)>)
    ensures
        pairs_view(pairs@, pairs@.len()) == node_view(kind@, span),
{
    node(kind, span)
}

/// An object of these pairs.
fn object(pairs: Vec<(String, Json)>) -> (value: Json)
    ensures
        json_view(value) == JsonView::Object(pairs_view(pairs@, pairs@.len())),
{
    Json::Object(pairs)
}

fn inlines_value(sheet: &StyleSheet, nodes: &Vec<Inline>) -> (items: Vec<Json>)
    requires
        inlines_styles_below(nodes@, sheet.rules@.len()),
    ensures
        items_view(items@, items@.len()) == inlines_json(*sheet, nodes@, nodes@.len()),
    decreases nodes,
{
    let mut items: Vec<Json> = Vec::new();
    let mut k: usize = 0;
    assert(items_view(items@, 0) =~= seq![]);
    while k < nodes.len()
        invariant
            k <= nodes@.len(),
            items@.len() == k,
            inlines_styles_below(nodes@, sheet.rules@.len()),
            items_view(items@, items@.len()) == inlines_json(*sheet, nodes@, k as nat),
        decreases nodes@.len() - k,
    {
        assert(inline_styles_below(nodes@[k as int], sheet.rules@.len()));
        proof {
            assert(decreases_to!(nodes => nodes@));
            assert(decreases_to!(nodes@ => nodes@[k as int]));
        }
        let value = inline_value(sheet, &nodes[k]);
        push_item(&mut items, value);
        k = k + 1;
    }
    items
}

fn cell_value(sheet: &StyleSheet, cell: &TableCell) -> (value: Json)
    requires
        inlines_styles_below(cell.children@, sheet.rules@.len()),
    ensures
        json_view(value) == cell_json(*sheet, *cell),
{
    let mut pairs = node_pairs("cell", cell.span);
    set(&mut pairs, "header", Json::Bool(cell.header));
    let alignment = match cell.alignment {
        Alignment::Start => text("start"),
        Alignment::Center => text("center"),
        Alignment::End => text("end"),
    };
    set(&mut pairs, "alignment", alignment);
    set(&mut pairs, "column", Json::Number(cell.column as u64));
    set(&mut pairs, "colspan", Json::Number(cell.colspan as u64));
    let children = inlines_value(sheet, &cell.children);
    set(&mut pairs, "children", Json::Array(children));
    assert(JsonView::Object(pairs_view(pairs@, pairs@.len())) =~= cell_json(*sheet, *cell));
    let value = object(pairs);
    value
}

fn row_value(sheet: &StyleSheet, row: &TableRow) -> (value: Json)
    requires
        forall|c: int|
            0 <= c < row.cells@.len() ==> inlines_styles_below(
                (#[trigger] row.cells@[c]).children@,
                sheet.rules@.len(),
            ),
    ensures
        json_view(value) == row_json(*sheet, *row),
{
    let mut items: Vec<Json> = Vec::new();
    let mut k: usize = 0;
    while k < row.cells.len()
        invariant
            k <= row.cells@.len(),
            items@.len() == k,
            forall|c: int|
                0 <= c < row.cells@.len() ==> inlines_styles_below(
                    (#[trigger] row.cells@[c]).children@,
                    sheet.rules@.len(),
                ),
            items_view(items@, k as nat) =~= Seq::new(k as nat, |i: int| cell_json(*sheet, row.cells@[i])),
        decreases row.cells@.len() - k,
    {
        assert(inlines_styles_below(row.cells@[k as int].children@, sheet.rules@.len()));
        let value = cell_value(sheet, &row.cells[k]);
        push_item(&mut items, value);
        k = k + 1;
    }
    let mut pairs = node_pairs("row", row.span);
    set(&mut pairs, "children", Json::Array(items));
    assert(JsonView::Object(pairs_view(pairs@, pairs@.len())) =~= row_json(*sheet, *row));
    let value = object(pairs);
    value
}

fn block_value(sheet: &StyleSheet, block: &Block) -> (value: Json)
    requires
        block_styles_below(*block, sheet.rules@.len()),
    ensures
        json_view(value) == block_json(*sheet, *block),
    decreases block,
{
    match block {
        Block::Book(b) => {
            let mut pairs = node_pairs("book", b.span);
            let mut code = String::new();
            push_code(&mut code, b.code);
            assert(code@ =~= code_spelling(b.code));
            set(&mut pairs, "code", Json::Text(code));
            set(&mut pairs, "description", text(b.description.as_str()));
            assert(JsonView::Object(pairs_view(pairs@, pairs@.len())) =~= block_json(*sheet, *block));
            let value = object(pairs);
            value
        },
        Block::ChapterStart(c) => {
            let mut pairs = node_pairs("chapter_start", c.span);
            set(&mut pairs, "number", decimal_text(c.number));
            optional_number_into(&mut pairs, "alt_number", &c.alt_number);
            optional_text_into(&mut pairs, "pub_number", match &c.pub_number {
                Some(p) => Some(p.as_str()),
                None => None,
            });
            assert(JsonView::Object(pairs_view(pairs@, pairs@.len())) =~= block_json(*sheet, *block));
            let value = object(pairs);
            value
        },
        Block::ChapterEnd(c) => {
            let mut pairs = node_pairs("chapter_end", c.span);
            set(&mut pairs, "number", decimal_text(c.number));
            object(pairs)
        },
        Block::Para(p) => {
            let mut pairs = node_pairs("para", p.span);
            set(&mut pairs, "style", text(sheet.rules[p.style.0 as usize].marker.as_str()));
            let children = inlines_value(sheet, &p.children);
            set(&mut pairs, "children", Json::Array(children));
            assert(JsonView::Object(pairs_view(pairs@, pairs@.len())) =~= block_json(*sheet, *block));
            let value = object(pairs);
            value
        },
        Block::Table(t) => {
            let mut items: Vec<Json> = Vec::new();
            let mut k: usize = 0;
            while k < t.rows.len()
                invariant
                    k <= t.rows@.len(),
                    items@.len() == k,
                    block_styles_below(Block::Table(*t), sheet.rules@.len()),
                    items_view(items@, k as nat) =~= Seq::new(k as nat, |i: int| row_json(*sheet, t.rows@[i])),
                decreases t.rows@.len() - k,
            {
                let row = &t.rows[k];
                assert(t.rows[k as int] == *row);
                assert forall|c: int| 0 <= c < row.cells@.len() implies inlines_styles_below(
                    (#[trigger] row.cells@[c]).children@,
                    sheet.rules@.len(),
                ) by {
                    assert(row.cells[c] == row.cells@[c]);
                }
                let value = row_value(sheet, row);
                push_item(&mut items, value);
                k = k + 1;
            }
            let mut pairs = node_pairs("table", t.span);
            set(&mut pairs, "children", Json::Array(items));
            assert(JsonView::Object(pairs_view(pairs@, pairs@.len())) =~= block_json(*sheet, *block));
            let value = object(pairs);
            value
        },
        Block::Milestone(m) => milestone_value(sheet, m),
        Block::Sidebar(sb) => {
            let mut pairs = node_pairs("sidebar", sb.span);
            set(&mut pairs, "style", text(sheet.rules[sb.style.0 as usize].marker.as_str()));
            optional_text_into(&mut pairs, "category", match &sb.category {
                Some(t) => Some(t.content.as_str()),
                None => None,
            });
            proof {
                lemma_block_styles(sb.blocks@, sheet.rules@.len());
            }
            let children = blocks_value(sheet, &sb.blocks);
            set(&mut pairs, "children", Json::Array(children));
            assert(JsonView::Object(pairs_view(pairs@, pairs@.len())) =~= block_json(*sheet, *block));
            let value = object(pairs);
            value
        },
        Block::Periph(pb) => {
            let mut pairs = node_pairs("periph", pb.span);
            set(&mut pairs, "style", text(sheet.rules[pb.style.0 as usize].marker.as_str()));
            optional_text_into(&mut pairs, "title", match &pb.title {
                Some(t) => Some(t.content.as_str()),
                None => None,
            });
            optional_attributes_into(&mut pairs, &pb.attributes);
            proof {
                lemma_block_styles(pb.blocks@, sheet.rules@.len());
            }
            let children = blocks_value(sheet, &pb.blocks);
            set(&mut pairs, "children", Json::Array(children));
            assert(JsonView::Object(pairs_view(pairs@, pairs@.len())) =~= block_json(*sheet, *block));
            let value = object(pairs);
            value
        },
    }
}

fn blocks_value(sheet: &StyleSheet, blocks: &Vec<Block>) -> (items: Vec<Json>)
    requires
        blocks_styles_below(blocks@, sheet.rules@.len()),
    ensures
        items_view(items@, items@.len()) == blocks_json(*sheet, blocks@, blocks@.len()),
    decreases blocks,
{
    let mut items: Vec<Json> = Vec::new();
    let mut k: usize = 0;
    assert(items_view(items@, 0) =~= seq![]);
    while k < blocks.len()
        invariant
            k <= blocks@.len(),
            items@.len() == k,
            blocks_styles_below(blocks@, sheet.rules@.len()),
            items_view(items@, items@.len()) == blocks_json(*sheet, blocks@, k as nat),
        decreases blocks@.len() - k,
    {
        assert(block_styles_below(blocks@[k as int], sheet.rules@.len()));
        proof {
            assert(decreases_to!(blocks => blocks@));
            assert(decreases_to!(blocks@ => blocks@[k as int]));
        }
        let value = block_value(sheet, &blocks[k]);
        push_item(&mut items, value);
        k = k + 1;
    }
    items
}

/// The document as a JSON value, resolved against its own stylesheet.
pub fn to_json(document: &Document) -> (value: Json)
    requires
        document.wf(),
    ensures
        json_view(value) == document_json(*document),
{
    let blocks = &document.blocks;
    let mut end: u32 = 0;
    let mut k: usize = 0;
    while k < blocks.len()
        invariant
            k <= blocks@.len(),
            end == blocks_end(blocks@, k as nat),
        decreases blocks@.len() - k,
    {
        let e = crate::locate::span_of(crate::cursor::NodeRef::from_block(&blocks[k])).end;
        if e > end {
            end = e;
        }
        k = k + 1;
    }
    let mut pairs = node_pairs("document", Span { start: 0, end });
    let version = document.usfm_version();
    proof {
        match &version {
            Some(v) => {
                let k = choose|k: int|
                    0 <= k < document.blocks@.len() && #[trigger] document.is_usfm_para(document.blocks@[k])
                        && (forall|j: int| 0 <= j < k ==> !document.is_usfm_para(document.blocks@[j]))
                        && v@ == crate::ast::texts_of(crate::ast::para_children(document.blocks@[k]));
                let c = choose|c: int|
                    0 <= c < document.blocks@.len() && document.is_usfm_para(document.blocks@[c]) && forall|j: int|
                        0 <= j < c ==> !document.is_usfm_para(document.blocks@[j]);
                assert(c == k);
                assert(usfm_version_spec(*document) == Some(v@));
            },
            None => {
                assert(usfm_version_spec(*document) is None);
            },
        }
    }
    optional_text_into(&mut pairs, "usfm_version", match &version {
        Some(v) => Some(v.as_str()),
        None => None,
    });
    let sheet: &StyleSheet = &document.style_sheet;
    let children = blocks_value(sheet, blocks);
    set(&mut pairs, "children", Json::Array(children));
    assert(JsonView::Object(pairs_view(pairs@, pairs@.len())) =~= document_json(*document));
    let value = object(pairs);
    value
}

/// The compact JSON text `serde_json` writes for a value with this content.
pub uninterp spec fn json_text(value: JsonView) -> Seq<char>;

/// `serde_json::Value`, the value `serde_json` writes.
#[verifier::external_type_specification]
#[verifier::external_body]
pub struct ExJsonValue(serde_json::Value);

/// A value handed to `serde_json`, one for one: each [`Json`] becomes the
/// `serde_json::Value` of the same kind, an object's pairs becoming a
/// `serde_json::Map`.
#[verifier::external_body]
fn to_value(value: &Json) -> serde_json::Value {
    match value {
        Json::Bool(b) => serde_json::Value::Bool(*b),
        Json::Number(n) => serde_json::Value::from(*n),
        Json::Text(s) => serde_json::Value::String(s.clone()),
        Json::Array(items) => serde_json::Value::Array(items.iter().map(to_value).collect()),
        Json::Object(pairs) => serde_json::Value::Object(pairs.iter().map(|(k, v)| (k.clone(), to_value(v))).collect()),
    }
}

/// `serde_json::Value`'s `Display`, the compact form: one line, no trailing
/// newline, the keys of each object in sorted order, named [`json_text`], a
/// function of what the value holds. The compact form never holds a line
/// break: one inside a string is written escaped.
#[verifier::external_body]
fn json_string(value: &Json) -> (text: String)
    ensures
        text@ == json_text(json_view(*value)),
        !text@.contains('\n'),
{
    to_value(value).to_string()
}

/// The document as compact JSON, on one line and with no trailing newline.
pub fn to_json_string(document: &Document) -> (text: String)
    requires
        document.wf(),
    ensures
        text@ == json_text(document_json(*document)),
        !text@.contains('\n'),
{
    let value = to_json(document);
    json_string(&value)
}

/// The document as a JSON value, resolved against the document's own
/// stylesheet: [`to_json`].
pub fn to_json_value(document: &Document) -> (value: Json)
    requires
        document.wf(),
    ensures
        json_view(value) == document_json(*document),
{
    to_json(document)
}

/// The indented JSON text `serde_json::to_string_pretty` writes for a value
/// with this content.
pub uninterp spec fn json_pretty_text(value: JsonView) -> Seq<char>;

/// `serde_json::to_string_pretty`: the value indented for reading, its
/// keys in sorted order. It fails only on a map key that is not a string,
/// which a `serde_json::Value` cannot hold. Stated only through the name
/// [`json_pretty_text`], a function of what the value holds.
#[verifier::external_body]
fn json_pretty_string(value: &Json) -> (text: String)
    ensures
        text@ == json_pretty_text(json_view(*value)),
{
    serde_json::to_string_pretty(&to_value(value)).expect("a serde_json::Value has only string keys")
}

/// The document as indented JSON, for reading rather than for piping.
pub fn to_json_string_pretty(document: &Document) -> (text: String)
    requires
        document.wf(),
    ensures
        text@ == json_pretty_text(document_json(*document)),
{
    let value = to_json(document);
    json_pretty_string(&value)
}

/// Every `"type"` the writer emits, in the order the tree declares its
/// nodes.
pub fn types() -> (names: Vec<&'static str>)
    ensures
        names@.len() == 17,
{
    vec![
        "document",
        "book",
        "chapter_start",
        "chapter_end",
        "para",
        "table",
        "row",
        "cell",
        "sidebar",
        "periph",
        "milestone",
        "text",
        "char",
        "note",
        "verse_start",
        "verse_end",
        "opt_break",
    ]
}


/// The value an object holds under `key`: that of its first member so named.
pub open spec fn member(pairs: Seq<(Seq<char>, JsonView)>, key: Seq<char>) -> Option<JsonView>
    decreases pairs.len(),
{
    if pairs.len() == 0 {
        None
    } else if pairs[0].0 == key {
        Some(pairs[0].1)
    } else {
        member(pairs.drop_first(), key)
    }
}

/// The value a JSON value holds under `key`, when it is an object.
pub open spec fn field(value: JsonView, key: Seq<char>) -> Option<JsonView> {
    match value {
        JsonView::Object(pairs) => member(pairs, key),
        _ => None,
    }
}

/// A table cell is an object of type `cell` that carries the cell's own
/// header flag, column and span, and its children in order.
pub proof fn law_a_cell_carries_its_header_flag(sheet: StyleSheet, cell: TableCell)
    ensures
        field(cell_json(sheet, cell), "type"@) == Some(JsonView::Text("cell"@)),
        field(cell_json(sheet, cell), "header"@) == Some(JsonView::Bool(cell.header)),
        field(cell_json(sheet, cell), "column"@) == Some(JsonView::Number(cell.column as u64)),
        field(cell_json(sheet, cell), "colspan"@) == Some(JsonView::Number(cell.colspan as u64)),
        field(cell_json(sheet, cell), "children"@) == Some(
            JsonView::Array(inlines_json(sheet, cell.children@, cell.children@.len())),
        ),
{
    reveal_strlit("type");
    reveal_strlit("span");
    reveal_strlit("header");
    reveal_strlit("alignment");
    reveal_strlit("column");
    reveal_strlit("colspan");
    reveal_strlit("children");
    let pairs = node_view("cell"@, cell.span) + seq![("header"@, JsonView::Bool(cell.header))] + seq![
        ("alignment"@, JsonView::Text(alignment_name(cell.alignment))),
    ] + seq![("column"@, JsonView::Number(cell.column as u64))] + seq![
        ("colspan"@, JsonView::Number(cell.colspan as u64)),
    ] + seq![("children"@, JsonView::Array(inlines_json(sheet, cell.children@, cell.children@.len())))];
    let list = seq![
        ("type"@, JsonView::Text("cell"@)),
        ("span"@, span_view(cell.span)),
        ("header"@, JsonView::Bool(cell.header)),
        ("alignment"@, JsonView::Text(alignment_name(cell.alignment))),
        ("column"@, JsonView::Number(cell.column as u64)),
        ("colspan"@, JsonView::Number(cell.colspan as u64)),
        ("children"@, JsonView::Array(inlines_json(sheet, cell.children@, cell.children@.len()))),
    ];
    assert(pairs =~= list);
    assert("span"@ != "header"@) by { assert("span"@.len() != "header"@.len()); }
    assert("type"@ != "header"@) by { assert("type"@.len() != "header"@.len()); }
    assert("type"@ != "column"@) by { assert("type"@.len() != "column"@.len()); }
    assert("span"@ != "column"@) by { assert("span"@.len() != "column"@.len()); }
    assert("header"@ != "column"@) by { assert("header"@[0] != "column"@[0]); }
    assert("alignment"@ != "column"@) by { assert("alignment"@.len() != "column"@.len()); }
    assert("type"@ != "colspan"@) by { assert("type"@.len() != "colspan"@.len()); }
    assert("span"@ != "colspan"@) by { assert("span"@.len() != "colspan"@.len()); }
    assert("header"@ != "colspan"@) by { assert("header"@.len() != "colspan"@.len()); }
    assert("alignment"@ != "colspan"@) by { assert("alignment"@.len() != "colspan"@.len()); }
    assert("column"@ != "colspan"@) by { assert("column"@.len() != "colspan"@.len()); }
    assert("type"@ != "children"@) by { assert("type"@.len() != "children"@.len()); }
    assert("span"@ != "children"@) by { assert("span"@.len() != "children"@.len()); }
    assert("header"@ != "children"@) by { assert("header"@.len() != "children"@.len()); }
    assert("alignment"@ != "children"@) by { assert("alignment"@.len() != "children"@.len()); }
    assert("column"@ != "children"@) by { assert("column"@.len() != "children"@.len()); }
    assert("colspan"@ != "children"@) by { assert("colspan"@[1] != "children"@[1]); }
    assert(list.drop_first().drop_first() =~= list.subrange(2, 7));
    reveal_with_fuel(member, 8);
}

/// A table row is an object whose children are its cells, each carrying
/// that cell's own header flag.
pub proof fn law_a_row_keeps_each_cell_header(sheet: StyleSheet, row: TableRow, i: int)
    requires
        0 <= i < row.cells@.len(),
    ensures
        field(row_json(sheet, row), "children"@) matches Some(JsonView::Array(items))
            && items.len() == row.cells@.len()
            && field(items[i], "header"@) == Some(JsonView::Bool(row.cells@[i].header)),
{
    reveal_strlit("type");
    reveal_strlit("span");
    reveal_strlit("children");
    assert("type"@ != "children"@) by { assert("type"@.len() != "children"@.len()); }
    assert("span"@ != "children"@) by { assert("span"@.len() != "children"@.len()); }
    let items = Seq::new(row.cells@.len(), |k: int| cell_json(sheet, row.cells@[k]));
    let pairs = node_view("row"@, row.span) + seq![("children"@, JsonView::Array(items))];
    assert(pairs =~= seq![("type"@, JsonView::Text("row"@)), ("span"@, span_view(row.span)), ("children"@, JsonView::Array(items))]);
    reveal_with_fuel(member, 4);
    law_a_cell_carries_its_header_flag(sheet, row.cells@[i]);
}

} // verus!
