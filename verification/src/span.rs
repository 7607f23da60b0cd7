//! Byte ranges into the source a tree was parsed from.
use vstd::prelude::*;
use crate::source::{byte_len, SourceText};

verus! {

/// A byte range `start..end` of the source text.
#[derive(Clone, Copy, Debug, PartialEq, Eq, Structural)]
pub struct Span {
    pub start: u32,
    pub end: u32,
}

impl Span {
    /// The span every synthesized node carries: empty, at offset 0.
    pub fn synthesized() -> (span: Span)
        ensures
            span.start == 0,
            span.end == 0,
    {
        Span { start: 0, end: 0 }
    }

    pub fn new(start: u32, end: u32) -> (span: Span)
        ensures
            span.start == start,
            span.end == end,
    {
        Span { start, end }
    }

    pub open spec fn synthesized_spec() -> Span {
        Span { start: 0, end: 0 }
    }

    /// The empty span at `at`.
    pub fn empty(at: u32) -> (span: Span)
        ensures
            span.start == at,
            span.end == at,
    {
        Span { start: at, end: at }
    }

    /// Whether the span is the synthesized one.
    pub fn is_synthesized(&self) -> (b: bool)
        ensures
            b == (self.start == 0 && self.end == 0),
    {
        self.start == 0 && self.end == 0
    }
}

/// The number of line breaks in `s`.
pub open spec fn count_newlines(s: Seq<char>) -> nat
    decreases s.len(),
{
    if s.len() == 0 {
        0
    } else {
        count_newlines(s.drop_last()) + if s.last() == '\n' {
            1nat
        } else {
            0nat
        }
    }
}

/// The index of the first character of the line that character `i` is on.
pub open spec fn line_start(s: Seq<char>, i: int) -> int
    decreases i,
{
    if i <= 0 {
        0
    } else if s[i - 1] == '\n' {
        i
    } else {
        line_start(s, i - 1)
    }
}

/// The character index at byte offset `offset`: the last character that
/// starts at or before it, or the end of the text past its last character.
pub open spec fn index_at(s: Seq<char>, offset: nat) -> int {
    choose|i: int|
        0 <= i <= s.len() && byte_len(#[trigger] s.take(i)) <= offset && (i == s.len() || byte_len(
            s.take(i + 1),
        ) > offset)
}

/// The 1-based line and column (in characters) of character `i`.
pub open spec fn line_col_of(s: Seq<char>, i: int) -> (nat, nat) {
    ((count_newlines(s.take(i)) + 1) as nat, (i - line_start(s, i) + 1) as nat)
}

/// Converts byte offsets into 1-based line and column numbers, counting
/// columns in characters.
pub struct LineIndex {
    source: SourceText,
}

impl LineIndex {
    pub closed spec fn text(&self) -> Seq<char> {
        self.source.chars@
    }

    pub closed spec fn wf(&self) -> bool {
        self.source.wf()
    }

    /// The index of `source`, or `None` when it is too long for `u32`
    /// offsets.
    pub fn new(source: &str) -> (index: Option<LineIndex>)
        ensures
            match index {
                Some(ix) => ix.wf() && ix.text() == source@,
                None => byte_len(source@) > u32::MAX,
            },
    {
        match SourceText::new(source) {
            Some(text) => Some(LineIndex { source: text }),
            None => None,
        }
    }

    /// The line and column of byte offset `offset`. Offsets past the end map
    /// to the position just after the last character.
    pub fn line_col(&self, offset: u32) -> (position: (usize, usize))
        requires
            self.wf(),
        ensures
            position.0 == line_col_of(self.text(), index_at(self.text(), offset as nat)).0,
            position.1 == line_col_of(self.text(), index_at(self.text(), offset as nat)).1,
    {
        let n = self.source.chars.len();
        let m = self.source.offsets.len();
        assert(m == n + 1);
        let mut i: usize = 0;
        let mut line: usize = 1;
        let mut start: usize = 0;
        assert(self.text().take(0) =~= Seq::<char>::empty());
        while i < n && self.source.offsets[i + 1] <= offset
            invariant
                self.wf(),
                n == self.text().len(),
                n < usize::MAX,
                i <= n,
                byte_len(self.text().take(i as int)) <= offset,
                line == count_newlines(self.text().take(i as int)) + 1,
                line <= i + 1,
                start == line_start(self.text(), i as int),
                start <= i,
            decreases n - i,
        {
            assert(self.text().take(i + 1).drop_last() =~= self.text().take(i as int));
            if self.source.chars[i] == '\n' {
                line = line + 1;
                start = i + 1;
            }
            i = i + 1;
        }
        proof {
            let s = self.text();
            assert(i == n || byte_len(s.take(i + 1)) > offset);
            let j = index_at(s, offset as nat);
            assert(0 <= j <= s.len() && byte_len(s.take(j)) <= offset && (j == s.len() || byte_len(
                s.take(j + 1),
            ) > offset));
            if j < i {
                crate::source::lemma_byte_len_monotone(s, j + 1, i as int);
            } else if i < j {
                crate::source::lemma_byte_len_monotone(s, i + 1, j);
            }
            assert(j == i);
        }
        (line, i - start + 1)
    }

    /// The 0-based line and column of byte offset `offset`, the column
    /// counted in UTF-16 code units: a character outside the Basic
    /// Multilingual Plane is two. Offsets past the end map to the position
    /// just after the last character.
    pub fn line_col_utf16(&self, offset: u32) -> (position: (u32, u32))
        requires
            self.wf(),
        ensures
            position.0 + 1 == line_col_utf16_of(self.text(), index_at(self.text(), offset as nat)).0,
            position.1 + 1 == line_col_utf16_of(self.text(), index_at(self.text(), offset as nat)).1,
    {
        let n = self.source.chars.len();
        let m = self.source.offsets.len();
        assert(m == n + 1);
        let mut i: usize = 0;
        let mut line: usize = 1;
        let mut start: usize = 0;
        let mut units: u32 = 0;
        let ghost s = self.text();
        assert(s.take(0) =~= Seq::<char>::empty());
        assert(s.subrange(0, 0) =~= Seq::<char>::empty());
        while i < n && self.source.offsets[i + 1] <= offset
            invariant
                self.wf(),
                s == self.text(),
                n == s.len(),
                n < usize::MAX,
                i <= n,
                byte_len(s.take(i as int)) <= offset,
                line == count_newlines(s.take(i as int)) + 1,
                line <= i + 1,
                line - 1 <= byte_len(s.take(i as int)),
                start == line_start(s, i as int),
                start <= i,
                units == utf16_count(s.subrange(start as int, i as int)),
                units <= byte_len(s.take(i as int)),
            decreases n - i,
        {
            assert(s.take(i + 1).drop_last() =~= s.take(i as int));
            proof {
                lemma_utf16_le_utf8(s[i as int]);
                assert(s.subrange(start as int, i + 1).drop_last() =~= s.subrange(start as int, i as int));
            }
            if self.source.chars[i] == '\n' {
                line = line + 1;
                start = i + 1;
                units = 0;
                assert(s.subrange(start as int, i + 1) =~= Seq::<char>::empty());
            } else {
                units = units + utf16_width(self.source.chars[i]) as u32;
            }
            i = i + 1;
        }
        proof {
            assert(i == n || byte_len(s.take(i + 1)) > offset);
            let j = index_at(s, offset as nat);
            assert(0 <= j <= s.len() && byte_len(s.take(j)) <= offset && (j == s.len() || byte_len(
                s.take(j + 1),
            ) > offset));
            if j < i {
                crate::source::lemma_byte_len_monotone(s, j + 1, i as int);
            } else if i < j {
                crate::source::lemma_byte_len_monotone(s, i + 1, j);
            }
            assert(j == i);
        }
        ((line - 1) as u32, units)
    }
}

/// How many UTF-16 code units a character takes.
pub open spec fn utf16_len(c: char) -> nat {
    if (c as u32) >= 0x10000 {
        2
    } else {
        1
    }
}

/// How many UTF-16 code units a text takes.
pub open spec fn utf16_count(s: Seq<char>) -> nat
    decreases s.len(),
{
    if s.len() == 0 {
        0
    } else {
        utf16_count(s.drop_last()) + utf16_len(s.last())
    }
}

/// The 1-based line and column of character `i`, the column in UTF-16 code
/// units.
pub open spec fn line_col_utf16_of(s: Seq<char>, i: int) -> (nat, nat) {
    ((count_newlines(s.take(i)) + 1) as nat, utf16_count(s.subrange(line_start(s, i), i)) + 1)
}

/// `char::len_utf16`, computed from the code point.
pub fn utf16_width(c: char) -> (n: usize)
    ensures
        n == utf16_len(c),
{
    if (c as u32) >= 0x10000 {
        2
    } else {
        1
    }
}

/// A character never takes more UTF-16 units than UTF-8 bytes.
proof fn lemma_utf16_le_utf8(c: char)
    ensures
        utf16_len(c) <= crate::source::utf8_len(c),
        1 <= utf16_len(c),
{
}

} // verus!
