//! Quick fixes for the repairs the toolchain reports.
//!
//! One rule per [`Code`], and only where the edit is obvious — where the
//! fix is what the parser already did to the tree, written back into the
//! file:
//!
//! | code | the edit |
//! |---|---|
//! | `unknown-marker` | delete the marker, and the spaces and tabs after it |
//! | `character-style-not-closed` | insert the closing marker where the style's content ends |
//! | `missing-note-caller` | insert the `+` the parser assumed |
//! | `attribute-value-not-quoted` | put the value in double quotes |
//! | `empty-milestone-attribute-list` | delete the `\|`, and the spaces and tabs before it |
//!
//! Every other code has no fix. Spans are byte offsets into the source, so
//! the rules here read the source as its UTF-8 bytes, and a piece of it as
//! the characters those bytes decode to.
use vstd::prelude::*;
use vstd::utf8::{
    decode_utf8, encode_scalar, encode_utf8, has_width_1_encoding, has_width_2_encoding,
    has_width_3_encoding, is_char_boundary, valid_utf8,
};
use vstd::string::StringSliceAdditionalSpecFns;
use crate::ast::{Char, Document};
use crate::cursor::{inline_ref, NodeRef};
use crate::diagnostics::{Code, Diagnostic};
use crate::ast::{blocks_spans_ok, lemma_inline_spans};
use crate::locate::{
    law_the_located_node_holds_the_offset, lemma_descend_spans, lemma_inline_node, locate,
    locate_spec, node_spans_ok, span_of, span_of_spec, walk_of,
};
use crate::source::{byte_len, utf8_len};
use crate::span::Span;
use crate::strings::{push_str, str_chars, str_eq};

verus! {

/// The UTF-8 length of a character is that of its encoding.
proof fn lemma_scalar_len(c: char)
    ensures
        encode_scalar(c as u32).len() == utf8_len(c),
{
    let v = c as u32;
    vstd::utf8::char_is_scalar(c);
    if has_width_1_encoding(v) {
    } else if has_width_2_encoding(v) {
    } else if has_width_3_encoding(v) {
    } else {
    }
}

/// [`byte_len`] counted from the front.
proof fn lemma_byte_len_front(s: Seq<char>)
    requires
        s.len() > 0,
    ensures
        byte_len(s) == utf8_len(s[0]) + byte_len(s.drop_first()),
    decreases s.len(),
{
    if s.len() > 1 {
        lemma_byte_len_front(s.drop_last());
        assert(s.drop_last().drop_first() =~= s.drop_first().drop_last());
        assert(s.drop_first().last() == s.last());
    } else {
        assert(s.drop_last() =~= seq![]);
        assert(s.drop_first() =~= seq![]);
    }
}

/// The UTF-8 encoding of a text is as long as [`byte_len`] says.
pub proof fn lemma_encoded_len(s: Seq<char>)
    ensures
        encode_utf8(s).len() == byte_len(s),
    decreases s.len(),
{
    if s.len() > 0 {
        lemma_encoded_len(s.drop_first());
        lemma_byte_len_front(s);
        lemma_scalar_len(s[0]);
    }
}

/// Whether `start..end` is a piece of `bytes` that `str::get` hands out:
/// in order, in bounds, and on character boundaries.
pub open spec fn piece_ok(bytes: Seq<u8>, start: int, end: int) -> bool {
    start <= end && end <= bytes.len() && is_char_boundary(bytes, start) && is_char_boundary(bytes, end)
}

/// The characters of the bytes `start..end`.
pub open spec fn piece(bytes: Seq<u8>, start: int, end: int) -> Seq<char> {
    decode_utf8(bytes.subrange(start, end))
}

/// `source.get(start..end)`, by two splits on character boundaries.
fn get_piece(source: &str, start: u32, end: u32) -> (result: Option<&str>)
    ensures
        result is Some <==> piece_ok(source.spec_bytes(), start as int, end as int),
        result matches Some(text) ==> text@ == piece(source.spec_bytes(), start as int, end as int),
{
    let ghost bytes = source.spec_bytes();
    proof {
        vstd::utf8::encode_utf8_valid_utf8(source@);
    }
    let length = source.as_bytes().len();
    if start > end || end as usize > length {
        return None;
    }
    if !source.is_char_boundary(start as usize) || !source.is_char_boundary(end as usize) {
        return None;
    }
    let (head, _) = source.split_at(end as usize);
    let ghost head_bytes = bytes.subrange(0, end as int);
    proof {
        vstd::utf8::valid_utf8_split(bytes, end as int);
        vstd::utf8::encode_utf8_valid_utf8(head@);
        if start < end {
            vstd::utf8::is_char_boundary_iff_not_is_continuation_byte(bytes, start as int);
            vstd::utf8::is_char_boundary_iff_not_is_continuation_byte(head_bytes, start as int);
        } else {
            vstd::utf8::is_char_boundary_start_end_of_seq(head_bytes);
        }
        assert(head.spec_bytes() == head_bytes);
    }
    let (_, middle) = head.split_at(start as usize);
    proof {
        assert(middle.spec_bytes() =~= bytes.subrange(start as int, end as int));
        vstd::utf8::encode_utf8_decode_utf8(middle@);
    }
    Some(middle)
}

/// A space or a tab: the whitespace that does not end a line.
pub open spec fn horizontal_space(b: u8) -> bool {
    b == 32 || b == 9
}

/// An ASCII whitespace byte: space, tab, line feed, form feed, carriage
/// return.
pub open spec fn ascii_space(b: u8) -> bool {
    b == 32 || b == 9 || b == 10 || b == 12 || b == 13
}

/// How many bytes of spaces and tabs follow `at`.
pub open spec fn spaces_after(bytes: Seq<u8>, at: int) -> nat
    decreases bytes.len() - at,
{
    if 0 <= at < bytes.len() && horizontal_space(bytes[at]) {
        1 + spaces_after(bytes, at + 1)
    } else {
        0
    }
}

/// How many bytes of spaces and tabs come before `at`.
pub open spec fn spaces_before(bytes: Seq<u8>, at: int) -> nat
    decreases at,
{
    if 0 < at <= bytes.len() && horizontal_space(bytes[at - 1]) {
        1 + spaces_before(bytes, at - 1)
    } else {
        0
    }
}

/// `end` moved back over ASCII whitespace, but never before `floor`.
pub open spec fn trimmed(bytes: Seq<u8>, floor: int, end: int) -> int
    decreases end - floor,
{
    if end > floor && ascii_space(bytes[end - 1]) {
        trimmed(bytes, floor, end - 1)
    } else {
        end
    }
}

proof fn lemma_spaces_after_bound(bytes: Seq<u8>, at: int)
    requires
        0 <= at <= bytes.len(),
    ensures
        at + spaces_after(bytes, at) <= bytes.len(),
    decreases bytes.len() - at,
{
    if at < bytes.len() && horizontal_space(bytes[at]) {
        lemma_spaces_after_bound(bytes, at + 1);
    }
}

proof fn lemma_spaces_before_bound(bytes: Seq<u8>, at: int)
    requires
        0 <= at <= bytes.len(),
    ensures
        spaces_before(bytes, at) <= at,
    decreases at,
{
    if at > 0 && horizontal_space(bytes[at - 1]) {
        lemma_spaces_before_bound(bytes, at - 1);
    }
}

proof fn lemma_trimmed_bounds(bytes: Seq<u8>, floor: int, end: int)
    requires
        floor <= end,
    ensures
        floor <= trimmed(bytes, floor, end) <= end,
    decreases end - floor,
{
    if end > floor && ascii_space(bytes[end - 1]) {
        lemma_trimmed_bounds(bytes, floor, end - 1);
    }
}

fn horizontal_whitespace_after(bytes: &[u8], at: u32) -> (n: u32)
    requires
        at <= bytes@.len(),
        bytes@.len() <= u32::MAX,
    ensures
        n == spaces_after(bytes@, at as int),
        at + n <= bytes@.len(),
{
    proof {
        lemma_spaces_after_bound(bytes@, at as int);
    }
    let mut i: u32 = at;
    while (i as usize) < bytes.len() && (bytes[i as usize] == 32 || bytes[i as usize] == 9)
        invariant
            at <= i <= bytes@.len(),
            bytes@.len() <= u32::MAX,
            spaces_after(bytes@, at as int) == (i - at) + spaces_after(bytes@, i as int),
        decreases bytes@.len() - i,
    {
        i = i + 1;
    }
    i - at
}

fn horizontal_whitespace_before(bytes: &[u8], at: u32) -> (n: u32)
    requires
        at <= bytes@.len(),
    ensures
        n == spaces_before(bytes@, at as int),
        n <= at,
{
    proof {
        lemma_spaces_before_bound(bytes@, at as int);
    }
    let mut i: u32 = at;
    while i > 0 && (bytes[i as usize - 1] == 32 || bytes[i as usize - 1] == 9)
        invariant
            i <= at <= bytes@.len(),
            spaces_before(bytes@, at as int) == (at - i) + spaces_before(bytes@, i as int),
        decreases i,
    {
        i = i - 1;
    }
    at - i
}

fn is_ascii_space(b: u8) -> (r: bool)
    ensures
        r == ascii_space(b),
{
    b == 32 || b == 9 || b == 10 || b == 12 || b == 13
}

fn trim_end(bytes: &[u8], floor: u32, end: u32) -> (at: u32)
    requires
        end <= bytes@.len(),
        floor <= bytes@.len(),
    ensures
        at == trimmed(bytes@, floor as int, if end < floor {
            floor as int
        } else {
            end as int
        }),
{
    let mut at: u32 = if end < floor {
        floor
    } else {
        end
    };
    let ghost start = at;
    while at > floor && is_ascii_space(bytes[at as usize - 1])
        invariant
            floor <= at <= start <= bytes@.len(),
            trimmed(bytes@, floor as int, start as int) == trimmed(bytes@, floor as int, at as int),
        decreases at,
    {
        at = at - 1;
    }
    at
}

/// One edit: a span of the source replaced by a text. An empty span is an
/// insertion, an empty text a deletion.
#[derive(Debug, PartialEq)]
pub struct Edit {
    pub span: Span,
    pub text: String,
}

/// One quick fix: what to call it, and the edits that make it. The edits
/// never overlap.
#[derive(Debug, PartialEq)]
pub struct Fix {
    pub title: String,
    pub edits: Vec<Edit>,
}

/// An edit as values.
pub open spec fn edit_view(edit: Edit) -> (Span, Seq<char>) {
    (edit.span, edit.text@)
}

/// A fix as values: its title and its edits.
pub open spec fn fix_view(fix: Fix) -> (Seq<char>, Seq<(Span, Seq<char>)>) {
    (fix.title@, fix.edits@.map_values(|e: Edit| edit_view(e)))
}

impl Edit {
    /// Replace `span` with `text`.
    pub fn replace(span: Span, text: String) -> (edit: Edit)
        ensures
            edit_view(edit) == (span, text@),
    {
        Edit { span, text }
    }

    /// Insert `text` at `at`.
    pub fn insert(at: u32, text: String) -> (edit: Edit)
        ensures
            edit_view(edit) == (Span { start: at, end: at }, text@),
    {
        Edit::replace(Span::empty(at), text)
    }

    /// Delete `span`.
    pub fn delete(span: Span) -> (edit: Edit)
        ensures
            edit_view(edit) == (span, Seq::<char>::empty()),
    {
        let edit = Edit::replace(span, String::new());
        assert(edit.text@ =~= Seq::<char>::empty());
        edit
    }
}

/// A fix of one edit.
fn single(title: String, edit: Edit) -> (fix: Fix)
    ensures
        fix_view(fix) == (title@, seq![edit_view(edit)]),
{
    let mut edits = Vec::new();
    edits.push(edit);
    let fix = Fix { title, edits };
    assert(fix_view(fix).1 =~= seq![edit_view(edit)]);
    fix
}

/// Whether a piece of text starts with a backslash, as a marker does.
pub open spec fn starts_marker(text: Seq<char>) -> bool {
    text.len() > 0 && text[0] == '\\'
}

/// `unknown-marker`: delete the marker, with the spaces and tabs after it,
/// so the text either side joins as the tree already joined it.
pub open spec fn delete_marker_spec(bytes: Seq<u8>, span: Span) -> Option<(Seq<char>, Seq<(Span, Seq<char>)>)> {
    let marker = piece(bytes, span.start as int, span.end as int);
    if piece_ok(bytes, span.start as int, span.end as int) && starts_marker(marker) {
        Some((
            "Delete `"@ + marker + "`"@,
            seq![(Span { start: span.start, end: (span.end + spaces_after(bytes, span.end as int)) as u32 }, Seq::<char>::empty())],
        ))
    } else {
        None
    }
}

/// The character style that starts at `offset` and is the innermost node
/// holding it.
pub open spec fn located_char(document: &Document, offset: u32) -> Option<Char> {
    match locate_spec(document, offset).found {
        Some(f) => match f.1 {
            NodeRef::Char(c) => if c.span.start == offset {
                Some(*c)
            } else {
                None
            },
            _ => None,
        },
        None => None,
    }
}

/// Where a style's content ends: the end of its last child, and never
/// before `floor`.
pub open spec fn content_end(c: Char, floor: u32) -> int {
    let last = if c.children@.len() > 0 {
        span_of_spec(inline_ref(&c.children@.last())).end as int
    } else {
        floor as int
    };
    if last < floor {
        floor as int
    } else {
        last
    }
}

/// `character-style-not-closed`: insert the closer, spelled as the source
/// spelled the opener, where the style's content ends, before any
/// whitespace at that end.
pub open spec fn close_style_spec(document: &Document, bytes: Seq<u8>, span: Span) -> Option<(Seq<char>, Seq<(Span, Seq<char>)>)> {
    let marker = piece(bytes, span.start as int, span.end as int);
    if piece_ok(bytes, span.start as int, span.end as int) && starts_marker(marker) {
        match located_char(document, span.start) {
            Some(c) => {
                let at = trimmed(bytes, span.end as int, content_end(c, span.end)) as u32;
                Some((
                    "Close `"@ + marker + "` with `"@ + marker + "*`"@,
                    seq![(Span { start: at, end: at }, marker + "*"@)],
                ))
            },
            None => None,
        }
    } else {
        None
    }
}

/// Whether the byte at `at` is ASCII whitespace.
pub open spec fn space_at(bytes: Seq<u8>, at: int) -> bool {
    0 <= at < bytes.len() && ascii_space(bytes[at])
}

/// `missing-note-caller`: insert the `+` the parser assumed, as a word of
/// its own.
pub open spec fn add_caller_spec(bytes: Seq<u8>, span: Span) -> Option<(Seq<char>, Seq<(Span, Seq<char>)>)> {
    let marker = piece(bytes, span.start as int, span.end as int);
    if piece_ok(bytes, span.start as int, span.end as int) && starts_marker(marker) {
        Some((
            "Add the `+` caller to `"@ + marker + "`"@,
            seq![(Span { start: span.end, end: span.end }, if space_at(bytes, span.end as int) {
                " +"@
            } else {
                " + "@
            })],
        ))
    } else {
        None
    }
}

/// `attribute-value-not-quoted`: put the value in double quotes, unless it
/// holds one, which quoting would end early.
pub open spec fn quote_value_spec(bytes: Seq<u8>, span: Span) -> Option<(Seq<char>, Seq<(Span, Seq<char>)>)> {
    let value = piece(bytes, span.start as int, span.end as int);
    if piece_ok(bytes, span.start as int, span.end as int) && !value.contains('"') {
        Some(("Put `"@ + value + "` in quotes"@, seq![(span, "\""@ + value + "\""@)]))
    } else {
        None
    }
}

/// `empty-milestone-attribute-list`: delete the `|` with the spaces and
/// tabs before it.
pub open spec fn delete_pipe_spec(bytes: Seq<u8>, span: Span) -> Option<(Seq<char>, Seq<(Span, Seq<char>)>)> {
    if piece_ok(bytes, span.start as int, span.end as int) && piece(bytes, span.start as int, span.end as int) == "|"@ {
        Some((
            "Delete the empty attribute list"@,
            seq![(Span { start: (span.start - spaces_before(bytes, span.start as int)) as u32, end: span.end }, Seq::<char>::empty())],
        ))
    } else {
        None
    }
}

/// The quick fix for a diagnostic, as values.
pub open spec fn fix_spec(document: &Document, bytes: Seq<u8>, diagnostic: Diagnostic) -> Option<(Seq<char>, Seq<(Span, Seq<char>)>)> {
    let span = diagnostic.span;
    if span.end > bytes.len() {
        None
    } else {
        match diagnostic.code {
            Code::UnknownMarker => delete_marker_spec(bytes, span),
            Code::CharacterStyleNotClosed => close_style_spec(document, bytes, span),
            Code::MissingNoteCaller => add_caller_spec(bytes, span),
            Code::AttributeValueNotQuoted => quote_value_spec(bytes, span),
            Code::EmptyMilestoneAttributeList => delete_pipe_spec(bytes, span),
            _ => None,
        }
    }
}

/// Whether a text starts with a backslash.
fn is_marker_text(text: &str) -> (b: bool)
    ensures
        b == starts_marker(text@),
{
    let chars = str_chars(text);
    chars.len() > 0 && chars[0] == '\\'
}

fn delete_marker(source: &str, span: Span) -> (fix: Option<Fix>)
    requires
        source.spec_bytes().len() <= u32::MAX,
        span.end <= source.spec_bytes().len(),
    ensures
        match fix {
            Some(f) => delete_marker_spec(source.spec_bytes(), span) == Some(fix_view(f)),
            None => delete_marker_spec(source.spec_bytes(), span) is None,
        },
{
    let marker = match get_piece(source, span.start, span.end) {
        Some(m) => m,
        None => return None,
    };
    if !is_marker_text(marker) {
        return None;
    }
    let end = span.end + horizontal_whitespace_after(source.as_bytes(), span.end);
    let mut title = String::new();
    push_str(&mut title, "Delete `");
    push_str(&mut title, marker);
    push_str(&mut title, "`");
    let fix = single(title, Edit::delete(Span::new(span.start, end)));
    assert(fix_view(fix).0 =~= "Delete `"@ + marker@ + "`"@);
    Some(fix)
}

fn add_caller(source: &str, span: Span) -> (fix: Option<Fix>)
    requires
        span.end <= source.spec_bytes().len(),
    ensures
        match fix {
            Some(f) => add_caller_spec(source.spec_bytes(), span) == Some(fix_view(f)),
            None => add_caller_spec(source.spec_bytes(), span) is None,
        },
{
    let marker = match get_piece(source, span.start, span.end) {
        Some(m) => m,
        None => return None,
    };
    if !is_marker_text(marker) {
        return None;
    }
    let bytes = source.as_bytes();
    let followed_by_space = (span.end as usize) < bytes.len() && is_ascii_space(bytes[span.end as usize]);
    let mut text = String::new();
    if followed_by_space {
        push_str(&mut text, " +");
    } else {
        push_str(&mut text, " + ");
    }
    let mut title = String::new();
    push_str(&mut title, "Add the `+` caller to `");
    push_str(&mut title, marker);
    push_str(&mut title, "`");
    let ghost text_view = text@;
    let fix = single(title, Edit::insert(span.end, text));
    assert(fix_view(fix).0 =~= "Add the `+` caller to `"@ + marker@ + "`"@);
    assert(text_view =~= if space_at(source.spec_bytes(), span.end as int) {
        " +"@
    } else {
        " + "@
    });
    Some(fix)
}

fn quote_value(source: &str, span: Span) -> (fix: Option<Fix>)
    ensures
        match fix {
            Some(f) => quote_value_spec(source.spec_bytes(), span) == Some(fix_view(f)),
            None => quote_value_spec(source.spec_bytes(), span) is None,
        },
{
    let value = match get_piece(source, span.start, span.end) {
        Some(v) => v,
        None => return None,
    };
    let chars = str_chars(value);
    let mut i: usize = 0;
    while i < chars.len()
        invariant
            i <= chars@.len(),
            chars@ == value@,
            value@ == piece(source.spec_bytes(), span.start as int, span.end as int),
            forall|j: int| 0 <= j < i ==> chars@[j] != '"',
        decreases chars@.len() - i,
    {
        if chars[i] == '"' {
            assert(value@.contains('"')) by {
                assert(0 <= i < value@.len() && value@[i as int] == '"');
            }
            assert(piece(source.spec_bytes(), span.start as int, span.end as int).contains('"'));
            return None;
        }
        i = i + 1;
    }
    let mut title = String::new();
    push_str(&mut title, "Put `");
    push_str(&mut title, value);
    push_str(&mut title, "` in quotes");
    let mut quoted = String::new();
    push_str(&mut quoted, "\"");
    push_str(&mut quoted, value);
    push_str(&mut quoted, "\"");
    let ghost quoted_view = quoted@;
    let fix = single(title, Edit::replace(span, quoted));
    assert(fix_view(fix).0 =~= "Put `"@ + value@ + "` in quotes"@);
    assert(quoted_view =~= "\""@ + value@ + "\""@);
    Some(fix)
}

fn delete_pipe(source: &str, span: Span) -> (fix: Option<Fix>)
    ensures
        match fix {
            Some(f) => delete_pipe_spec(source.spec_bytes(), span) == Some(fix_view(f)),
            None => delete_pipe_spec(source.spec_bytes(), span) is None,
        },
{
    let text = match get_piece(source, span.start, span.end) {
        Some(t) => t,
        None => return None,
    };
    if !str_eq(text, "|") {
        return None;
    }
    let start = span.start - horizontal_whitespace_before(source.as_bytes(), span.start);
    let mut title = String::new();
    push_str(&mut title, "Delete the empty attribute list");
    let fix = single(title, Edit::delete(Span::new(start, span.end)));
    Some(fix)
}

#[verifier::spinoff_prover]
fn close_style(document: &Document, source: &str, span: Span) -> (fix: Option<Fix>)
    requires
        span.end <= source.spec_bytes().len(),
        node_spans_ok(NodeRef::Document(document), source.spec_bytes().len()),
    ensures
        match fix {
            Some(f) => close_style_spec(document, source.spec_bytes(), span) == Some(fix_view(f)),
            None => close_style_spec(document, source.spec_bytes(), span) is None,
        },
{
    let ghost total = source.spec_bytes().len();
    let marker = match get_piece(source, span.start, span.end) {
        Some(m) => m,
        None => return None,
    };
    if !is_marker_text(marker) {
        return None;
    }
    let location = locate(document, span.start);
    let ghost chapter_at = choose|a: u32| walk_of(location, a) == locate_spec(document, span.start);
    let located = match &location.node {
        Some(l) => l,
        None => return None,
    };
    let c = match located.node {
        NodeRef::Char(c) => c,
        _ => return None,
    };
    if c.span.start != span.start {
        return None;
    }
    proof {
        assert(walk_of(location, chapter_at).found == Some((located.path@, located.node)));
        assert(located_char(document, span.start) == Some(*c));
        law_the_located_node_holds_the_offset(document, span.start);
        lemma_descend_spans(NodeRef::Document(document), located.path@, total);
        lemma_inline_spans(c.children@, total);
        if c.children@.len() > 0 {
            lemma_inline_node(&c.children@.last(), total);
        }
    }
    let mut content = if c.children.len() > 0 {
        span_of(NodeRef::from_inline(&c.children[c.children.len() - 1])).end
    } else {
        span.end
    };
    if content < span.end {
        content = span.end;
    }
    assert(content == content_end(*c, span.end));
    let at = trim_end(source.as_bytes(), span.end, content);
    let mut title = String::new();
    push_str(&mut title, "Close `");
    push_str(&mut title, marker);
    push_str(&mut title, "` with `");
    push_str(&mut title, marker);
    push_str(&mut title, "*`");
    let mut closer = String::new();
    push_str(&mut closer, marker);
    push_str(&mut closer, "*");
    let ghost closer_view = closer@;
    let fix = single(title, Edit::insert(at, closer));
    assert(fix_view(fix).0 =~= "Close `"@ + marker@ + "` with `"@ + marker@ + "*`"@);
    assert(closer_view =~= marker@ + "*"@);
    Some(fix)
}

/// The quick fix for `diagnostic`, or `None` where there is no obvious one.
/// `source` is the text the document was parsed from; the spans of the
/// diagnostic and of the tree index its bytes.
pub fn fix(document: &Document, source: &str, diagnostic: &Diagnostic) -> (result: Option<Fix>)
    requires
        byte_len(source@) <= u32::MAX,
        blocks_spans_ok(document.blocks@, byte_len(source@)),
    ensures
        match result {
            Some(f) => fix_spec(document, source.spec_bytes(), *diagnostic) == Some(fix_view(f)),
            None => fix_spec(document, source.spec_bytes(), *diagnostic) is None,
        },
{
    proof {
        lemma_encoded_len(source@);
    }
    let span = diagnostic.span;
    if span.end as usize > source.as_bytes().len() {
        return None;
    }
    match diagnostic.code {
        Code::UnknownMarker => delete_marker(source, span),
        Code::CharacterStyleNotClosed => close_style(document, source, span),
        Code::MissingNoteCaller => add_caller(source, span),
        Code::AttributeValueNotQuoted => quote_value(source, span),
        Code::EmptyMilestoneAttributeList => delete_pipe(source, span),
        _ => None,
    }
}

} // verus!
