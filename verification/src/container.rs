//! Adding children to the nodes that hold inline content: a paragraph, a
//! table cell, a character style and a note.
//!
//! Two rules of the tree are kept here rather than at every place that adds
//! a child. Whitespace right after a marker belongs to the marker, so a text
//! child that starts with whitespace loses it when it is the first child or
//! follows a verse start. And two text runs that meet become one, with the
//! whitespace where they meet collapsed to what the first run ends with.
use vstd::prelude::*;
use crate::ast::{
    inline_spans_ok, inline_styles_below, inlines_spans_ok, inlines_styles_below, ordered_span,
    span_ok, Char, Inline, Note, Para, TableCell, Text,
};
use crate::lexer::{is_space, is_space_char};
use crate::span::Span;
use crate::strings::{push_char, push_str, str_chars};

verus! {

/// `s` without its leading ASCII whitespace.
pub open spec fn trim_start_ws(s: Seq<char>) -> Seq<char>
    decreases s.len(),
{
    if s.len() > 0 && is_space(s[0]) {
        trim_start_ws(s.drop_first())
    } else {
        s
    }
}

/// `s` without its trailing ASCII whitespace.
pub open spec fn trim_end_ws(s: Seq<char>) -> Seq<char>
    decreases s.len(),
{
    if s.len() > 0 && is_space(s.last()) {
        trim_end_ws(s.drop_last())
    } else {
        s
    }
}

/// `s` without its leading ASCII whitespace.
pub fn trim_start(s: &str) -> (t: String)
    ensures
        t@ == trim_start_ws(s@),
{
    let chars = str_chars(s);
    let n = chars.len();
    let mut i: usize = 0;
    assert(chars@.subrange(0, n as int) =~= chars@);
    while i < n && is_space_char(chars[i])
        invariant
            n == chars@.len(),
            i <= n,
            trim_start_ws(chars@) == trim_start_ws(chars@.subrange(i as int, n as int)),
        decreases n - i,
    {
        assert(chars@.subrange(i as int, n as int).drop_first() =~= chars@.subrange(i + 1, n as int));
        i = i + 1;
    }
    let mut t = String::new();
    let mut j = i;
    while j < n
        invariant
            n == chars@.len(),
            i <= j <= n,
            t@ == chars@.subrange(i as int, j as int),
        decreases n - j,
    {
        push_char(&mut t, chars[j]);
        assert(t@ =~= chars@.subrange(i as int, j + 1));
        j = j + 1;
    }
    assert(chars@.subrange(0, n as int) =~= chars@);
    t
}

/// `s` without its trailing ASCII whitespace.
pub fn trim_end(s: &str) -> (t: String)
    ensures
        t@ == trim_end_ws(s@),
{
    let chars = str_chars(s);
    let n = chars.len();
    let mut k: usize = n;
    assert(chars@.subrange(0, n as int) =~= chars@);
    while k > 0 && is_space_char(chars[k - 1])
        invariant
            n == chars@.len(),
            k <= n,
            trim_end_ws(chars@) == trim_end_ws(chars@.subrange(0, k as int)),
        decreases k,
    {
        assert(chars@.subrange(0, k as int).drop_last() =~= chars@.subrange(0, k - 1));
        k = k - 1;
    }
    let mut t = String::new();
    let mut j: usize = 0;
    while j < k
        invariant
            n == chars@.len(),
            j <= k <= n,
            t@ == chars@.subrange(0, j as int),
        decreases k - j,
    {
        push_char(&mut t, chars[j]);
        assert(t@ =~= chars@.subrange(0, j + 1));
        j = j + 1;
    }
    t
}

/// Whether `s` starts with ASCII whitespace.
pub fn starts_with_space(s: &str) -> (b: bool)
    ensures
        b == (s@.len() > 0 && is_space(s@[0])),
{
    let chars = str_chars(s);
    chars.len() > 0 && is_space_char(chars[0])
}

/// Whether `s` ends with ASCII whitespace.
pub fn ends_with_space(s: &str) -> (b: bool)
    ensures
        b == (s@.len() > 0 && is_space(s@.last())),
{
    let chars = str_chars(s);
    let n = chars.len();
    n > 0 && is_space_char(chars[n - 1])
}

/// Whether a child added now follows a marker: it is the first one, or the
/// one before it is a verse start.
pub open spec fn after_marker(children: Seq<Inline>) -> bool {
    children.len() == 0 || children.last() is VerseStart
}

/// Whether `children`'s styles resolve and its spans are in bounds.
pub open spec fn children_ok(children: Seq<Inline>, styles: nat, total: nat) -> bool {
    inlines_styles_below(children, styles) && inlines_spans_ok(children, total)
}

/// Whether `s` starts with ASCII whitespace.
pub open spec fn starts_spaced(s: Seq<char>) -> bool {
    s.len() > 0 && is_space(s[0])
}

/// Whether `s` ends with ASCII whitespace.
pub open spec fn ends_spaced(s: Seq<char>) -> bool {
    s.len() > 0 && is_space(s.last())
}

/// The text a text child added to `children` keeps: without its leading
/// whitespace when it follows a marker.
pub open spec fn added_text(children: Seq<Inline>, content: Seq<char>) -> Seq<char> {
    if after_marker(children) && starts_spaced(content) {
        trim_start_ws(content)
    } else {
        content
    }
}

/// The text of a run that `addition` is merged into: where the first run
/// ends in whitespace, the second loses its own.
pub open spec fn merged_text(prev: Seq<char>, addition: Seq<char>) -> Seq<char> {
    if ends_spaced(prev) {
        prev + trim_start_ws(addition)
    } else {
        prev + addition
    }
}

/// The span of two merged runs: both sources, or the one that has a source.
pub open spec fn merged_span(prev: Span, next: Span) -> Span {
    if prev == Span::synthesized_spec() {
        next
    } else if next == Span::synthesized_spec() {
        prev
    } else if prev.start <= next.end {
        Span { start: prev.start, end: next.end }
    } else {
        Span { start: next.end, end: next.end }
    }
}

/// Add a child, keeping the two rules of the module docs.
pub fn add_child(children: &mut Vec<Inline>, child: Inline, Ghost(styles): Ghost<nat>, Ghost(total): Ghost<nat>)
    requires
        children_ok(old(children)@, styles, total),
        inline_styles_below(child, styles),
        inline_spans_ok(child, total),
    ensures
        children_ok(final(children)@, styles, total),
        !(child is Text) ==> final(children)@ == old(children)@.push(child),
        child is Text ==> final(children)@.len() <= old(children)@.len() + 1,
        child is Text ==> old(children)@.len() <= final(children)@.len(),
        child is Text ==> forall|k: int|
            0 <= k < old(children)@.len() - 1 ==> final(children)@[k] == old(children)@[k],
        child matches Inline::Text(t) ==> ({
            let old_children = old(children)@;
            let c = added_text(old_children, t.content@);
            if c.len() == 0 && after_marker(old_children) && starts_spaced(t.content@) {
                final(children)@ == old_children
            } else if old_children.len() > 0 && old_children.last() is Text {
                let prev = old_children.last()->Text_0;
                &&& final(children)@.len() == old_children.len()
                &&& final(children)@.drop_last() == old_children.drop_last()
                &&& final(children)@.last() matches Inline::Text(m)
                &&& m.content@ == merged_text(prev.content@, c)
                &&& m.span == merged_span(prev.span, t.span)
            } else {
                &&& final(children)@.len() == old_children.len() + 1
                &&& final(children)@.drop_last() == old_children
                &&& final(children)@.last() matches Inline::Text(m)
                &&& m.content@ == c
                &&& m.span == t.span
            }
        }),
{
    let ghost before = children@;
    match child {
        Inline::Text(text) => {
            let n = children.len();
            let after_marker = n == 0 || matches!(children[n - 1], Inline::VerseStart(_));
            let mut text = text;
            if after_marker && starts_with_space(text.content.as_str()) {
                let trimmed = trim_start(text.content.as_str());
                if trimmed.as_str().is_empty() {
                    return;
                }
                text = Text { content: trimmed, span: text.span };
            }
            if n > 0 && matches!(children[n - 1], Inline::Text(_)) {
                let last = children.pop().unwrap();
                proof {
                    assert(children@ =~= before.drop_last());
                    assert(last == before[n - 1]);
                    assert(inline_spans_ok(before[n - 1], total));
                }
                if let Inline::Text(prev) = last {
                    assert(span_ok(prev.span, total));
                    assert(span_ok(text.span, total));
                    let mut content = prev.content;
                    if ends_with_space(content.as_str()) {
                        let addition = trim_start(text.content.as_str());
                        push_str(&mut content, addition.as_str());
                    } else {
                        push_str(&mut content, text.content.as_str());
                    }
                    let span = if prev.span.is_synthesized() {
                        text.span
                    } else if text.span.is_synthesized() {
                        prev.span
                    } else {
                        ordered_span(prev.span.start, text.span.end)
                    };
                    let merged = Inline::Text(Text { content, span });
                    assert(inline_spans_ok(merged, total));
                    children.push(merged);
                    proof {
                        assert forall|k: int| 0 <= k < children@.len() implies #[trigger]
                            inline_styles_below(children@[k], styles) by {
                            if k < n - 1 {
                                assert(children@[k] == before[k]);
                            }
                        }
                        assert forall|k: int| 0 <= k < children@.len() implies #[trigger]
                            inline_spans_ok(children@[k], total) by {
                            if k < n - 1 {
                                assert(children@[k] == before[k]);
                            }
                        }
                    }
                }
                return;
            }
            let node = Inline::Text(text);
            assert(inline_spans_ok(node, total));
            children.push(node);
            proof {
                assert forall|k: int| 0 <= k < children@.len() implies #[trigger]
                    inline_styles_below(children@[k], styles) by {
                    if k < n {
                        assert(children@[k] == before[k]);
                    }
                }
                assert forall|k: int| 0 <= k < children@.len() implies #[trigger]
                    inline_spans_ok(children@[k], total) by {
                    if k < n {
                        assert(children@[k] == before[k]);
                    }
                }
            }
        },
        other => {
            children.push(other);
            proof {
                assert forall|k: int| 0 <= k < children@.len() implies #[trigger]
                    inline_styles_below(children@[k], styles) by {
                    if k < before.len() {
                        assert(children@[k] == before[k]);
                    }
                }
                assert forall|k: int| 0 <= k < children@.len() implies #[trigger]
                    inline_spans_ok(children@[k], total) by {
                    if k < before.len() {
                        assert(children@[k] == before[k]);
                    }
                }
            }
        },
    }
}

/// Drop trailing ASCII whitespace from a final text child, removing the
/// child if nothing is left. Not recursive: text inside a trailing character
/// style ended at that style's closing marker, where whitespace is content.
pub fn trim_trailing_whitespace(children: &mut Vec<Inline>, Ghost(styles): Ghost<nat>, Ghost(total): Ghost<nat>)
    requires
        children_ok(old(children)@, styles, total),
    ensures
        children_ok(final(children)@, styles, total),
        final(children)@.len() <= old(children)@.len(),
        old(children)@.len() <= final(children)@.len() + 1,
        forall|k: int|
            0 <= k < old(children)@.len() - 1 ==> final(children)@[k] == old(children)@[k],
        old(children)@.len() > 0 && !(old(children)@.last() is Text) ==> final(children)@
            == old(children)@,
        old(children)@.len() == 0 ==> final(children)@ == old(children)@,
        old(children)@.len() > 0 && old(children)@.last() is Text ==> ({
            let t = old(children)@.last()->Text_0;
            let trimmed = trim_end_ws(t.content@);
            if trimmed.len() == 0 {
                final(children)@ == old(children)@.drop_last()
            } else {
                &&& final(children)@.drop_last() == old(children)@.drop_last()
                &&& final(children)@.last() matches Inline::Text(f)
                &&& f.content@ == trimmed
                &&& f.span == t.span
            }
        }),
{
    let n = children.len();
    if n == 0 || !matches!(children[n - 1], Inline::Text(_)) {
        return;
    }
    let ghost before = children@;
    let last = children.pop().unwrap();
    proof {
        assert(children@ =~= before.drop_last());
        assert(last == before[n - 1]);
        assert(inline_spans_ok(before[n - 1], total));
    }
    if let Inline::Text(text) = last {
        assert(span_ok(text.span, total));
        let trimmed = trim_end(text.content.as_str());
        if !trimmed.as_str().is_empty() {
            let node = Inline::Text(Text { content: trimmed, span: text.span });
            children.push(node);
            proof {
                assert forall|k: int| 0 <= k < children@.len() implies #[trigger]
                    inline_styles_below(children@[k], styles) by {
                    if k < n - 1 {
                        assert(children@[k] == before[k]);
                    }
                }
                assert forall|k: int| 0 <= k < children@.len() implies #[trigger]
                    inline_spans_ok(children@[k], total) by {
                    if k < n - 1 {
                        assert(children@[k] == before[k]);
                    }
                }
            }
        }
    }
}

} // verus!
