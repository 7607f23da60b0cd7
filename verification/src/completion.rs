//! The markers that may be written where the cursor is.
//!
//! Triggered by the `\` that opens every marker and answered from the
//! document's own stylesheet: every marker the sheet holds, each once,
//! except those the placement rule forbids under the parent the cursor is
//! written in. The parent is read off the innermost nodes around the cursor:
//! inside a table cell nothing is filtered; otherwise the innermost of a
//! character style (which filters nothing: nesting decides there), a note
//! (the parent of what it holds) and a paragraph decides.
//!
//! Each item replaces the marker name typed after the `\`, never the `\`
//! itself; a marker written with a closing marker is inserted as a snippet
//! with it, a paragraph marker as itself.
use vstd::prelude::*;
use vstd::string::StringSliceAdditionalSpecFns;
use vstd::utf8::is_char_boundary;
use crate::actions::lemma_encoded_len;
use crate::ast::{Document, StyleId};
use crate::convert::{position_of, range, Range};
use crate::cursor::{child_spec, descend_spec, lemma_descend_push, NodeRef};
use crate::locate::{law_the_located_node_holds_the_offset, locate, locate_spec, walk_of};
use crate::semantic::{placement, placement_of, Placement};
use crate::source::byte_len;
use crate::span::{LineIndex, Span};
use crate::strings::push_str;
use crate::style::{first_index_of, StyleRule, StyleSheet, StyleType};

verus! {

/// A byte that may stand in a marker's name: an ASCII letter or digit, or
/// the `-` of a milestone's `-s` and `-e`.
pub open spec fn name_byte(b: u8) -> bool {
    (48 <= b <= 57) || (65 <= b <= 90) || (97 <= b <= 122) || b == 45
}

/// Where the marker name that ends at `at` begins.
pub open spec fn name_begin(bytes: Seq<u8>, at: int) -> int
    decreases at,
{
    if 0 < at <= bytes.len() && name_byte(bytes[at - 1]) {
        name_begin(bytes, at - 1)
    } else {
        at
    }
}

/// The offset of the `\` the cursor at `at` is writing a marker after: back
/// over the name typed so far and a nested marker's `+`, a `\` that is not
/// itself escaped by the `\` before it. `None` when there is none, or when
/// `at` is not a character boundary of the text.
pub open spec fn marker_start_spec(bytes: Seq<u8>, at: int) -> Option<int> {
    if at > bytes.len() || !is_char_boundary(bytes, at) {
        None
    } else {
        let i = name_begin(bytes, at);
        let j = if i > 0 && bytes[i - 1] == 43 {
            i - 1
        } else {
            i
        };
        if j == 0 || bytes[j - 1] != 92 {
            None
        } else if j - 1 > 0 && bytes[j - 2] == 92 {
            None
        } else {
            Some(j - 1)
        }
    }
}

proof fn lemma_name_begin_bounds(bytes: Seq<u8>, at: int)
    requires
        0 <= at <= bytes.len(),
    ensures
        0 <= name_begin(bytes, at) <= at,
    decreases at,
{
    if 0 < at && name_byte(bytes[at - 1]) {
        lemma_name_begin_bounds(bytes, at - 1);
    }
}

fn is_name_byte(b: u8) -> (r: bool)
    ensures
        r == name_byte(b),
{
    (48 <= b && b <= 57) || (65 <= b && b <= 90) || (97 <= b && b <= 122) || b == 45
}

/// The offset of the `\` the cursor at `offset` writes a marker after.
pub fn marker_start(source: &str, offset: u32) -> (start: Option<u32>)
    ensures
        match start {
            Some(s) => marker_start_spec(source.spec_bytes(), offset as int) == Some(s as int) && s < offset,
            None => marker_start_spec(source.spec_bytes(), offset as int) is None,
        },
{
    let bytes = source.as_bytes();
    if offset as usize > bytes.len() || !source.is_char_boundary(offset as usize) {
        return None;
    }
    let mut i = offset as usize;
    proof {
        lemma_name_begin_bounds(bytes@, offset as int);
    }
    while i > 0 && is_name_byte(bytes[i - 1])
        invariant
            i <= offset as usize,
            offset as usize <= bytes@.len(),
            bytes@ == source.spec_bytes(),
            name_begin(bytes@, offset as int) == name_begin(bytes@, i as int),
        decreases i,
    {
        i = i - 1;
    }
    let j = if i > 0 && bytes[i - 1] == 43 {
        i - 1
    } else {
        i
    };
    if j == 0 || bytes[j - 1] != 92 {
        return None;
    }
    if j - 1 > 0 && bytes[j - 2] == 92 {
        return None;
    }
    Some((j - 1) as u32)
}

/// The innermost place that decides the parent, scanning the nodes on a
/// path from `depth` up: a table cell answers `None`, a character style
/// `None` when nothing inside it decided, a note or a paragraph its style
/// when nothing inside it decided.
pub open spec fn parent_scan(root: NodeRef, path: Seq<usize>, depth: int, innermost: Option<StyleId>) -> Option<StyleId>
    decreases depth + 1,
{
    if depth < 0 {
        innermost
    } else {
        match descend_spec(root, path.take(depth)) {
            None => None,
            Some(node) => match node {
                NodeRef::TableCell(_) => None,
                NodeRef::Char(_) => if innermost is None {
                    None
                } else {
                    parent_scan(root, path, depth - 1, innermost)
                },
                NodeRef::Note(n) => if innermost is None {
                    parent_scan(root, path, depth - 1, Some(n.style))
                } else {
                    parent_scan(root, path, depth - 1, innermost)
                },
                NodeRef::Para(p) => if innermost is None {
                    parent_scan(root, path, depth - 1, Some(p.style))
                } else {
                    parent_scan(root, path, depth - 1, innermost)
                },
                _ => parent_scan(root, path, depth - 1, innermost),
            },
        }
    }
}

/// The node the cursor at `offset` is typed into: the one at `offset`, or
/// else the one at the character before it.
pub open spec fn typed_into<'a>(document: &'a Document, offset: u32) -> Option<(Seq<usize>, NodeRef<'a>)> {
    match locate_spec(document, offset).found {
        Some(f) => Some(f),
        None => if offset > 0 {
            locate_spec(document, (offset - 1) as u32).found
        } else {
            None
        },
    }
}

/// The style a marker typed at `offset` would be placed under, or `None`
/// where the placement rule checks nothing.
pub open spec fn parent_spec(document: &Document, offset: u32) -> Option<StyleId> {
    match typed_into(document, offset) {
        Some(f) => parent_scan(NodeRef::Document(document), f.0, f.0.len() as int, None),
        None => None,
    }
}

/// The style a marker typed at `offset` would be placed under.
pub fn parent(document: &Document, offset: u32) -> (style: Option<StyleId>)
    ensures
        style == parent_spec(document, offset),
{
    let location = locate(document, offset);
    let ghost at = choose|a: u32| walk_of(location, a) == locate_spec(document, offset);
    let located = match location.node {
        Some(l) => l,
        None => {
            if offset == 0 {
                return None;
            }
            let before = locate(document, offset - 1);
            let ghost at2 = choose|a: u32| walk_of(before, a) == locate_spec(document, (offset - 1) as u32);
            match before.node {
                Some(l) => {
                    assert(walk_of(before, at2).found == Some((l.path@, l.node)));
                    l
                },
                None => {
                    assert(walk_of(before, at2).found is None);
                    return None;
                },
            }
        },
    };
    let ghost found = typed_into(document, offset);
    assert(found == Some((located.path@, located.node)));
    let path = &located.path;
    let root = NodeRef::Document(document);
    proof {
        law_the_located_node_holds_the_offset(document, offset);
        if offset > 0 {
            law_the_located_node_holds_the_offset(document, (offset - 1) as u32);
        }
        assert(descend_spec(root, path@) == Some(located.node));
    }
    // The nodes on the path, from the root down.
    let mut nodes: Vec<NodeRef> = Vec::new();
    nodes.push(root);
    let mut d: usize = 0;
    assert(path@.take(0) =~= Seq::<usize>::empty());
    while d < path.len()
        invariant
            d <= path@.len(),
            nodes@.len() == d + 1,
            descend_spec(root, path@) == Some(located.node),
            forall|k: int| 0 <= k <= d ==> descend_spec(root, path@.take(k)) == Some(#[trigger] nodes@[k]),
        decreases path@.len() - d,
    {
        proof {
            lemma_descend_push(root, path@.take(d as int), path@[d as int]);
            assert(path@.take(d + 1) =~= path@.take(d as int).push(path@[d as int]));
            lemma_prefix_descends(root, path@, d + 1);
        }
        let next = match nodes[d].child(path[d]) {
            Some(n) => n,
            None => {
                assert(false);
                return None;
            },
        };
        nodes.push(next);
        d = d + 1;
    }
    let mut depth = path.len();
    let mut innermost: Option<StyleId> = None;
    assert(parent_spec(document, offset) == parent_scan(root, path@, path@.len() as int, None));
    loop
        invariant
            parent_spec(document, offset) == parent_scan(root, path@, path@.len() as int, None),
            depth <= path@.len(),
            nodes@.len() == path@.len() + 1,
            forall|k: int| 0 <= k <= path@.len() ==> descend_spec(root, path@.take(k)) == Some(#[trigger] nodes@[k]),
            parent_scan(root, path@, path@.len() as int, None) == parent_scan(root, path@, depth as int, innermost),
        decreases depth,
    {
        assert(descend_spec(root, path@.take(depth as int)) == Some(nodes@[depth as int]));
        let ghost before = innermost;
        match nodes[depth] {
            NodeRef::TableCell(_) => return None,
            NodeRef::Char(_) => {
                if innermost.is_none() {
                    return None;
                }
            },
            NodeRef::Note(n) => {
                if innermost.is_none() {
                    innermost = Some(n.style);
                }
            },
            NodeRef::Para(p) => {
                if innermost.is_none() {
                    innermost = Some(p.style);
                }
            },
            _ => {},
        }
        assert(parent_scan(root, path@, depth as int, before) == parent_scan(root, path@, depth - 1, innermost));
        if depth == 0 {
            assert(parent_scan(root, path@, -1, innermost) == innermost);
            return innermost;
        }
        depth = depth - 1;
    }
}

/// A path's prefixes lead somewhere when the path does.
proof fn lemma_prefix_descends(root: NodeRef, path: Seq<usize>, k: int)
    requires
        0 <= k <= path.len(),
        descend_spec(root, path) is Some,
    ensures
        descend_spec(root, path.take(k)) is Some,
    decreases path.len() - k,
{
    if k < path.len() {
        lemma_prefix_descends(root, path, k + 1);
        lemma_descend_push(root, path.take(k), path[k]);
        assert(path.take(k + 1) =~= path.take(k).push(path[k]));
    } else {
        assert(path.take(k) =~= path);
    }
}

/// How an item is inserted: as itself, or as a snippet with tab stops.
#[derive(Debug, Clone, Copy, PartialEq, Eq, Structural)]
pub enum CompletionKind {
    Keyword,
    Snippet,
}

/// How an item's text is read: as it stands, or as a snippet with `$1` and
/// `$0` tab stops.
#[derive(Debug, Clone, Copy, PartialEq, Eq, Structural)]
pub enum InsertTextFormat {
    PlainText,
    Snippet,
}

/// One completion: the marker, how it is inserted, the sheet's name and
/// description for it, and the text that replaces the range typed so far.
#[derive(Debug, PartialEq)]
pub struct Completion {
    pub label: String,
    pub kind: CompletionKind,
    pub detail: Option<String>,
    pub documentation: Option<String>,
    pub new_text: String,
    pub replaced: Range,
    pub format: InsertTextFormat,
}

/// A completion as values.
pub struct CompletionView {
    pub label: Seq<char>,
    pub kind: CompletionKind,
    pub detail: Option<Seq<char>>,
    pub documentation: Option<Seq<char>>,
    pub new_text: Seq<char>,
    pub replaced: Range,
    pub format: InsertTextFormat,
}

pub open spec fn completion_view(c: Completion) -> CompletionView {
    CompletionView {
        label: c.label@,
        kind: c.kind,
        detail: match c.detail {
            Some(d) => Some(d@),
            None => None,
        },
        documentation: match c.documentation {
            Some(d) => Some(d@),
            None => None,
        },
        new_text: c.new_text@,
        replaced: c.replaced,
        format: c.format,
    }
}

/// A list of completions as values.
pub open spec fn completion_views(items: Seq<Completion>) -> Seq<CompletionView> {
    Seq::new(items.len(), |i: int| completion_view(items[i]))
}

/// The snippet for a marker written with a closing marker, or `None` for
/// one that stands alone: `$1` is where the text goes, `$0` where the
/// cursor is left. A note brings the `+` caller it must have; a milestone
/// carries attributes, not text, and closes with `\*`.
pub open spec fn insertion_spec(rule: StyleRule) -> Option<Seq<char>> {
    let m = rule.marker@;
    match rule.style_type {
        StyleType::Paragraph => None,
        StyleType::Character => Some(m + " $1\\"@ + m + "*$0"@),
        StyleType::Note => Some(m + " + $1\\"@ + m + "*$0"@),
        StyleType::Milestone => Some(m + "$1\\*$0"@),
    }
}

/// One rule as a completion over `replaced`.
#[verifier::opaque]
pub open spec fn item_spec(rule: StyleRule, replaced: Range) -> CompletionView {
    CompletionView {
        label: rule.marker@,
        kind: if insertion_spec(rule) is Some {
            CompletionKind::Snippet
        } else {
            CompletionKind::Keyword
        },
        detail: match rule.name {
            Some(d) => Some(d@),
            None => None,
        },
        documentation: match rule.description {
            Some(d) => Some(d@),
            None => None,
        },
        new_text: match insertion_spec(rule) {
            Some(t) => t,
            None => rule.marker@,
        },
        replaced,
        format: if insertion_spec(rule) is Some {
            InsertTextFormat::Snippet
        } else {
            InsertTextFormat::PlainText
        },
    }
}

/// Whether rule `i` of the sheet is offered under `parent`: it is the rule
/// in force for its marker, its marker is not empty, and the placement rule
/// allows it there.
#[verifier::opaque]
pub open spec fn is_offered(sheet: StyleSheet, i: int, parent: Option<Seq<char>>) -> bool {
    let rule = sheet.rules@[i];
    &&& first_index_of(sheet.rules@, rule.marker@) == Some(i)
    &&& rule.marker@.len() > 0
    &&& match parent {
        Some(p) => !(placement_of(sheet, rule, p) is NotAllowed),
        None => true,
    }
}

/// The items offered among the first `k` rules.
pub open spec fn offered(sheet: StyleSheet, parent: Option<Seq<char>>, replaced: Range, k: nat) -> Seq<CompletionView>
    decreases k,
{
    if k == 0 || k > sheet.rules@.len() {
        seq![]
    } else {
        offered(sheet, parent, replaced, (k - 1) as nat) + if is_offered(sheet, k - 1, parent) {
            seq![item_spec(sheet.rules@[k - 1], replaced)]
        } else {
            seq![]
        }
    }
}

/// What completion answers at `offset`: `None` where the cursor is not
/// writing a marker, and otherwise every rule offered there.
pub open spec fn completions_spec(document: &Document, source: Seq<u8>, text: Seq<char>, offset: u32) -> Option<Seq<CompletionView>> {
    match marker_start_spec(source, offset as int) {
        None => None,
        Some(b) => {
            let replaced = Range {
                start: position_of(text, (b + 1) as nat),
                end: position_of(text, offset as nat),
            };
            let sheet = *document.style_sheet;
            let parent = match parent_spec(document, b as u32) {
                Some(style) => if style.0 < sheet.rules@.len() {
                    Some(sheet.rules@[style.0 as int].marker@)
                } else {
                    None
                },
                None => None,
            };
            Some(offered(sheet, parent, replaced, sheet.rules@.len()))
        },
    }
}

/// A copy of an optional string.
fn copy_option(s: &Option<String>) -> (copy: Option<String>)
    ensures
        match copy {
            Some(c) => s matches Some(t) && c@ == t@,
            None => s is None,
        },
{
    match s {
        Some(t) => {
            let mut c = String::new();
            push_str(&mut c, t.as_str());
            assert(c@ =~= t@);
            Some(c)
        },
        None => None,
    }
}

/// The snippet for a marker written with a closing marker.
fn insertion(rule: &StyleRule) -> (text: Option<String>)
    ensures
        match text {
            Some(t) => insertion_spec(*rule) == Some(t@),
            None => insertion_spec(*rule) is None,
        },
{
    let m = rule.marker.as_str();
    let mut text = String::new();
    match rule.style_type {
        StyleType::Paragraph => return None,
        StyleType::Character => {
            push_str(&mut text, m);
            push_str(&mut text, " $1\\");
            push_str(&mut text, m);
            push_str(&mut text, "*$0");
        },
        StyleType::Note => {
            push_str(&mut text, m);
            push_str(&mut text, " + $1\\");
            push_str(&mut text, m);
            push_str(&mut text, "*$0");
        },
        StyleType::Milestone => {
            push_str(&mut text, m);
            push_str(&mut text, "$1\\*$0");
        },
    }
    assert(insertion_spec(*rule) == Some(text@));
    Some(text)
}

/// One stylesheet entry as a completion.
fn item(rule: &StyleRule, replaced: Range) -> (c: Completion)
    ensures
        completion_view(c) == item_spec(*rule, replaced),
{
    let mut label = String::new();
    push_str(&mut label, rule.marker.as_str());
    let (kind, new_text, format) = match insertion(rule) {
        Some(snippet) => (CompletionKind::Snippet, snippet, InsertTextFormat::Snippet),
        None => {
            let mut t = String::new();
            push_str(&mut t, rule.marker.as_str());
            (CompletionKind::Keyword, t, InsertTextFormat::PlainText)
        },
    };
    let c = Completion {
        label,
        kind,
        detail: copy_option(&rule.name),
        documentation: copy_option(&rule.description),
        new_text,
        replaced,
        format,
    };
    reveal(item_spec);
    assert(completion_view(c).label =~= rule.marker@);
    assert(completion_view(c).new_text =~= item_spec(*rule, replaced).new_text);
    c
}

/// Whether rule `k` is offered under `parent`.
fn offers(sheet: &StyleSheet, k: usize, parent: Option<&str>) -> (b: bool)
    requires
        k < sheet.rules@.len(),
    ensures
        b == is_offered(
            *sheet,
            k as int,
            match parent {
                Some(p) => Some(p@),
                None => None,
            },
        ),
{
    reveal(is_offered);
    let rule = &sheet.rules[k];
    let first = match sheet.get_marker_index(rule.marker.as_str()) {
        Some(i) => {
            proof {
                crate::semantic::lemma_first_index(sheet.rules@, rule.marker@, i as int);
            }
            i == k
        },
        None => false,
    };
    if !first || rule.marker.as_str().is_empty() {
        return false;
    }
    match parent {
        Some(p) => placement(sheet, rule, p).is_allowed(),
        None => true,
    }
}

/// The items of the sheet offered under `parent`.
#[verifier::spinoff_prover]
fn offer(sheet: &StyleSheet, parent: Option<&str>, replaced: Range) -> (items: Vec<Completion>)
    ensures
        completion_views(items@) == offered(
            *sheet,
            match parent {
                Some(p) => Some(p@),
                None => None,
            },
            replaced,
            sheet.rules@.len(),
        ),
{
    let ghost parent_view = match parent {
        Some(p) => Some(p@),
        None => None,
    };
    let mut items: Vec<Completion> = Vec::new();
    let mut k: usize = 0;
    assert(completion_views(items@) =~= Seq::<CompletionView>::empty());
    while k < sheet.rules.len()
        invariant
            k <= sheet.rules@.len(),
            completion_views(items@) == offered(*sheet, parent_view, replaced, k as nat),
            parent_view == match parent {
                Some(p) => Some(p@),
                None => None,
            },
        decreases sheet.rules@.len() - k,
    {
        let rule = &sheet.rules[k];
        let chosen = offers(sheet, k, parent);
        let ghost before = items@;
        if chosen {
            let c = item(rule, replaced);
            items.push(c);
            assert(completion_views(items@) =~= completion_views(before).push(completion_view(c)));
        }
        assert(completion_views(items@) =~= offered(*sheet, parent_view, replaced, (k + 1) as nat));
        k = k + 1;
    }
    items
}

/// The markers that may be written at `offset`, or `None` when the cursor
/// is not after a `\` at all. `None` and an empty list are different
/// answers: the first leaves the editor's own completion alone.
pub fn completions(document: &Document, source: &str, index: &LineIndex, offset: u32) -> (items: Option<Vec<Completion>>)
    requires
        document.wf(),
        index.wf(),
    ensures
        match items {
            Some(v) => completions_spec(document, source.spec_bytes(), index.text(), offset) == Some(
                completion_views(v@),
            ),
            None => completions_spec(document, source.spec_bytes(), index.text(), offset) is None,
        },
{
    let backslash = match marker_start(source, offset) {
        Some(b) => b,
        None => return None,
    };
    let replaced = range(index, Span { start: backslash + 1, end: offset });
    let sheet: &StyleSheet = &document.style_sheet;
    let style = parent(document, backslash);
    let parent_marker: Option<&str> = match style {
        Some(st) => {
            if (st.0 as usize) < sheet.rules.len() {
                Some(sheet.rules[st.0 as usize].marker.as_str())
            } else {
                None
            }
        },
        None => None,
    };
    let ghost parent_view = match parent_marker {
        Some(p) => Some(p@),
        None => None,
    };
    assert(completions_spec(document, source.spec_bytes(), index.text(), offset) == Some(
        offered(*sheet, parent_view, replaced, sheet.rules@.len()),
    ));
    let items = offer(sheet, parent_marker, replaced);
    Some(items)
}

} // verus!
