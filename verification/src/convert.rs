//! Positions as an editor counts them, both ways.
//!
//! A [`Span`] is a byte range of the source; an editor names a place by a
//! 0-based line and a 0-based character, the character counted in UTF-16
//! code units (a character outside the Basic Multilingual Plane is two).
//! [`position`] and [`range`] go from offsets to positions, [`offset`] comes
//! back, clamping a position that is not in the text: a line past the last
//! is the end of the source, a character past the end of its line is the end
//! of that line before its break, and a character inside a surrogate pair is
//! that character's own start.
use vstd::prelude::*;
use crate::source::{byte_len, SourceText};
use crate::span::{index_at, line_col_utf16_of, utf16_len, utf16_width, LineIndex, Span};

verus! {

/// A place in a text: a 0-based line and a 0-based UTF-16 column.
#[derive(Debug, Clone, Copy, PartialEq, Eq, PartialOrd, Ord, Hash)]
pub struct Position {
    pub line: u32,
    pub character: u32,
}

/// A pair of positions.
#[derive(Debug, Clone, Copy, PartialEq, Eq, Hash)]
pub struct Range {
    pub start: Position,
    pub end: Position,
}

impl Position {
    pub fn new(line: u32, character: u32) -> (p: Position)
        ensures
            p.line == line,
            p.character == character,
    {
        Position { line, character }
    }
}

impl Range {
    pub fn new(start: Position, end: Position) -> (r: Range)
        ensures
            r.start == start,
            r.end == end,
    {
        Range { start, end }
    }
}

/// The position of byte offset `offset` in `text`: the character that
/// starts there or holds it, or the end past the last character.
pub open spec fn position_of(text: Seq<char>, offset: nat) -> Position {
    let lc = line_col_utf16_of(text, index_at(text, offset));
    Position { line: (lc.0 - 1) as u32, character: (lc.1 - 1) as u32 }
}

/// One byte offset as a position. An offset past the end of the source is
/// the last position.
pub fn position(index: &LineIndex, offset: u32) -> (p: Position)
    requires
        index.wf(),
    ensures
        p == position_of(index.text(), offset as nat),
{
    let (line, character) = index.line_col_utf16(offset);
    Position { line, character }
}

/// One span as a range.
pub fn range(index: &LineIndex, span: Span) -> (r: Range)
    requires
        index.wf(),
    ensures
        r.start == position_of(index.text(), span.start as nat),
        r.end == position_of(index.text(), span.end as nat),
{
    Range { start: position(index, span.start), end: position(index, span.end) }
}

/// The whole of `source` as a range, from the first position to the one
/// after its last character.
pub fn whole_document(index: &LineIndex, source: &str) -> (r: Range)
    requires
        index.wf(),
        byte_len(source@) <= u32::MAX,
    ensures
        r.start == (Position { line: 0, character: 0 }),
        r.end == position_of(index.text(), byte_len(source@)),
{
    proof {
        crate::actions::lemma_encoded_len(source@);
    }
    let end = source.as_bytes().len() as u32;
    Range { start: Position { line: 0, character: 0 }, end: position(index, end) }
}

/// Where the line after the one at `i` begins, or `None` on the last line.
pub open spec fn after_break(text: Seq<char>, i: int) -> Option<int>
    decreases text.len() - i,
{
    if i >= text.len() || i < 0 {
        None
    } else if text[i] == '\n' {
        Some(i + 1)
    } else {
        after_break(text, i + 1)
    }
}

/// Where the `line`th line after the one at `i` begins, or `None` when the
/// text has fewer lines.
pub open spec fn line_begin(text: Seq<char>, i: int, line: nat) -> Option<int>
    decreases line,
{
    if line == 0 {
        Some(i)
    } else {
        match after_break(text, i) {
            Some(j) => line_begin(text, j, (line - 1) as nat),
            None => None,
        }
    }
}

/// Where the line at `i` ends, before its break.
pub open spec fn line_end(text: Seq<char>, i: int) -> int
    decreases text.len() - i,
{
    if i >= text.len() || i < 0 || text[i] == '\n' {
        i
    } else {
        line_end(text, i + 1)
    }
}

/// The character of the line `i..end` at UTF-16 column `target`, `units`
/// columns having been passed before `i`: the first whose column reaches
/// the target, a character the target falls inside, or the line's end.
pub open spec fn column_index(text: Seq<char>, i: int, end: int, units: nat, target: nat) -> int
    decreases end - i,
{
    if i >= end {
        end
    } else if units >= target {
        i
    } else if units + utf16_len(text[i]) > target {
        i
    } else {
        column_index(text, i + 1, end, units + utf16_len(text[i]), target)
    }
}

/// The byte offset of a position in `text`.
pub open spec fn offset_of(text: Seq<char>, p: Position) -> nat {
    match line_begin(text, 0, p.line as nat) {
        Some(b) => byte_len(text.take(column_index(text, b, line_end(text, b), 0, p.character as nat))),
        None => byte_len(text),
    }
}

proof fn lemma_after_break_bounds(text: Seq<char>, i: int)
    requires
        0 <= i,
    ensures
        after_break(text, i) matches Some(j) ==> i < j <= text.len(),
    decreases text.len() - i,
{
    if i < text.len() && text[i] != '\n' {
        lemma_after_break_bounds(text, i + 1);
    }
}

proof fn lemma_line_end_bounds(text: Seq<char>, i: int)
    requires
        0 <= i <= text.len(),
    ensures
        i <= line_end(text, i) <= text.len(),
    decreases text.len() - i,
{
    if i < text.len() && text[i] != '\n' {
        lemma_line_end_bounds(text, i + 1);
    }
}

proof fn lemma_column_bounds(text: Seq<char>, i: int, end: int, units: nat, target: nat)
    requires
        i <= end,
    ensures
        i <= column_index(text, i, end, units, target) <= end,
    decreases end - i,
{
    if i < end && units < target && units + utf16_len(text[i]) <= target {
        lemma_column_bounds(text, i + 1, end, units + utf16_len(text[i]), target);
    }
}

/// One position as a byte offset into `source`: the inverse of
/// [`position`] where there is one, clamped where the position is not in
/// the text.
pub fn offset(source: &str, p: Position) -> (at: u32)
    requires
        byte_len(source@) <= u32::MAX,
    ensures
        at == offset_of(source@, p),
{
    let text = match SourceText::new(source) {
        Some(t) => t,
        None => return 0,
    };
    let ghost s = source@;
    let n = text.chars.len();
    assert(text.chars@ == s);
    // The start of the wanted line.
    let mut start: usize = 0;
    let mut line: u32 = 0;
    while line < p.line
        invariant
            text.wf(),
            text.chars@ == s,
            s == source@,
            n == s.len(),
            start <= n,
            line <= p.line,
            line_begin(s, 0, p.line as nat) == line_begin(s, start as int, (p.line - line) as nat),
        decreases p.line - line,
    {
        let mut j = start;
        while j < n && text.chars[j] != '\n'
            invariant
                text.chars@ == s,
                s == source@,
                n == s.len(),
                start <= j <= n,
                after_break(s, start as int) == after_break(s, j as int),
            decreases n - j,
        {
            j = j + 1;
        }
        if j >= n {
            assert(after_break(s, j as int) is None);
            assert(line_begin(s, start as int, (p.line - line) as nat) is None);
            assert(s.take(n as int) =~= s);
            assert(text.offsets@[n as int] == byte_len(text.chars@.take(n as int)));
            assert(offset_of(s, p) == byte_len(s));
            return text.offsets[n];
        }
        assert(after_break(s, j as int) == Some(j + 1));
        start = j + 1;
        line = line + 1;
    }
    assert(line_begin(s, 0, p.line as nat) == Some(start as int));
    // Its text, without the line break.
    let mut end = start;
    while end < n && text.chars[end] != '\n'
        invariant
            text.wf(),
            line_begin(s, 0, p.line as nat) == Some(start as int),
            text.chars@ == s,
            s == source@,
            n == s.len(),
            start <= end <= n,
            line_end(s, start as int) == line_end(s, end as int),
        decreases n - end,
    {
        end = end + 1;
    }
    let mut units: u64 = 0;
    let mut i = start;
    let target = p.character as u64;
    while i < end
        invariant
            text.wf(),
            target == p.character as u64,
            line_begin(s, 0, p.line as nat) == Some(start as int),
            text.chars@ == s,
            s == source@,
            n == s.len(),
            start <= i <= end <= n,
            end == line_end(s, start as int),
            units <= target,
            column_index(s, start as int, end as int, 0, p.character as nat) == column_index(
                s,
                i as int,
                end as int,
                units as nat,
                p.character as nat,
            ),
        decreases end - i,
    {
        if units >= target {
            assert(column_index(s, i as int, end as int, units as nat, p.character as nat) == i);
            assert(text.offsets@[i as int] == byte_len(text.chars@.take(i as int)));
            return text.offsets[i];
        }
        let width = utf16_width(text.chars[i]) as u64;
        if units + width > target {
            assert(column_index(s, i as int, end as int, units as nat, p.character as nat) == i);
            assert(text.offsets@[i as int] == byte_len(text.chars@.take(i as int)));
            return text.offsets[i];
        }
        units = units + width;
        i = i + 1;
    }
    assert(column_index(s, i as int, end as int, units as nat, p.character as nat) == end);
    assert(text.offsets@[end as int] == byte_len(text.chars@.take(end as int)));
    text.offsets[end]
}

/// Each character adds at least a byte: a longer prefix is longer in bytes.
proof fn lemma_byte_len_strict(s: Seq<char>, a: int, b: int)
    requires
        0 <= a < b <= s.len(),
    ensures
        byte_len(s.take(a)) < byte_len(s.take(b)),
    decreases b - a,
{
    assert(s.take(b).drop_last() =~= s.take(b - 1));
    if a < b - 1 {
        lemma_byte_len_strict(s, a, b - 1);
    }
}

/// The character at a byte offset that starts a character is that one.
proof fn lemma_index_at_boundary(s: Seq<char>, i: int)
    requires
        0 <= i <= s.len(),
    ensures
        index_at(s, byte_len(s.take(i))) == i,
{
    let off = byte_len(s.take(i));
    if i < s.len() {
        lemma_byte_len_strict(s, i, i + 1);
    }
    assert(0 <= i <= s.len() && byte_len(s.take(i)) <= off && (i == s.len() || byte_len(s.take(i + 1)) > off));
    let j = index_at(s, off);
    if j < i {
        if j + 1 < i {
            lemma_byte_len_strict(s, j + 1, i);
        }
    } else if i < j {
        lemma_byte_len_strict(s, i, j);
    }
}

/// No line break stands between the start of a line and a character on it.
proof fn lemma_line_start_no_break(s: Seq<char>, i: int)
    requires
        0 <= i <= s.len(),
    ensures
        0 <= crate::span::line_start(s, i) <= i,
        forall|k: int| crate::span::line_start(s, i) <= k < i ==> s[k] != '\n',
    decreases i,
{
    if i > 0 && s[i - 1] != '\n' {
        lemma_line_start_no_break(s, i - 1);
    }
}

/// A line break ends the line that runs to it.
proof fn lemma_after_break_at(s: Seq<char>, a: int, j: int)
    requires
        0 <= a <= j < s.len(),
        s[j] == '\n',
        forall|k: int| a <= k < j ==> s[k] != '\n',
    ensures
        after_break(s, a) == Some(j + 1),
    decreases j - a,
{
    if a < j {
        lemma_after_break_at(s, a + 1, j);
    }
}

/// One more line begins after the break that ends the one before it.
proof fn lemma_line_begin_next(s: Seq<char>, x: int, n: nat)
    ensures
        line_begin(s, x, n + 1) == match line_begin(s, x, n) {
            Some(b) => after_break(s, b),
            None => None,
        },
    decreases n,
{
    reveal_with_fuel(line_begin, 2);
    if n > 0 {
        match after_break(s, x) {
            Some(j) => {
                lemma_line_begin_next(s, j, (n - 1) as nat);
                assert(line_begin(s, x, n + 1) == line_begin(s, j, n));
                assert(line_begin(s, x, n) == line_begin(s, j, (n - 1) as nat));
            },
            None => {},
        }
    }
}

/// The line a character is on begins after as many breaks as come before
/// it.
proof fn lemma_line_begin_of(s: Seq<char>, i: int)
    requires
        0 <= i <= s.len(),
    ensures
        line_begin(s, 0, crate::span::count_newlines(s.take(i))) == Some(crate::span::line_start(s, i)),
    decreases i,
{
    if i > 0 {
        lemma_line_begin_of(s, i - 1);
        assert(s.take(i).drop_last() =~= s.take(i - 1));
        if s[i - 1] == '\n' {
            let c = crate::span::count_newlines(s.take(i - 1));
            lemma_line_begin_next(s, 0, c);
            lemma_line_start_no_break(s, i - 1);
            lemma_after_break_at(s, crate::span::line_start(s, i - 1), i - 1);
        }
    }
}

/// The end of a line is the same from anywhere before its break.
proof fn lemma_line_end_from(s: Seq<char>, a: int, i: int)
    requires
        0 <= a <= i <= s.len(),
        forall|k: int| a <= k < i ==> s[k] != '\n',
    ensures
        line_end(s, a) == line_end(s, i),
        line_end(s, i) >= i,
    decreases i - a,
{
    if a < i {
        lemma_line_end_from(s, a + 1, i);
    }
    lemma_line_end_ge(s, i);
}

proof fn lemma_line_end_ge(s: Seq<char>, i: int)
    requires
        0 <= i <= s.len(),
    ensures
        line_end(s, i) >= i,
    decreases s.len() - i,
{
    if i < s.len() && s[i] != '\n' {
        lemma_line_end_ge(s, i + 1);
    }
}

/// Units counted over a growing piece of a line.
proof fn lemma_utf16_step(s: Seq<char>, a: int, j: int)
    requires
        0 <= a <= j < s.len(),
    ensures
        crate::span::utf16_count(s.subrange(a, j + 1)) == crate::span::utf16_count(s.subrange(a, j)) + crate::span::utf16_len(s[j]),
{
    assert(s.subrange(a, j + 1).drop_last() =~= s.subrange(a, j));
}

proof fn lemma_utf16_strict(s: Seq<char>, a: int, j: int, i: int)
    requires
        0 <= a <= j < i <= s.len(),
    ensures
        crate::span::utf16_count(s.subrange(a, j)) < crate::span::utf16_count(s.subrange(a, i)),
        crate::span::utf16_count(s.subrange(a, j + 1)) <= crate::span::utf16_count(s.subrange(a, i)),
    decreases i - j,
{
    lemma_utf16_step(s, a, j);
    if j + 1 < i {
        lemma_utf16_strict(s, a, j + 1, i);
    }
}

/// Walking a line from `j` with the units before it counted reaches the
/// character whose column is the units before `i`.
proof fn lemma_column_reaches(s: Seq<char>, a: int, j: int, i: int, end: int)
    requires
        0 <= a <= j <= i <= end <= s.len(),
    ensures
        column_index(
            s,
            j,
            end,
            crate::span::utf16_count(s.subrange(a, j)),
            crate::span::utf16_count(s.subrange(a, i)),
        ) == i,
    decreases i - j,
{
    if j < i {
        lemma_utf16_strict(s, a, j, i);
        lemma_utf16_step(s, a, j);
        lemma_column_reaches(s, a, j + 1, i, end);
    }
}

proof fn lemma_count_newlines_le(s: Seq<char>)
    ensures
        crate::span::count_newlines(s) <= s.len(),
        s.len() <= byte_len(s),
    decreases s.len(),
{
    if s.len() > 0 {
        lemma_count_newlines_le(s.drop_last());
    }
}

proof fn lemma_utf16_le_bytes(s: Seq<char>)
    ensures
        crate::span::utf16_count(s) <= byte_len(s),
    decreases s.len(),
{
    if s.len() > 0 {
        lemma_utf16_le_bytes(s.drop_last());
    }
}

/// The bytes of a prefix are those of a shorter prefix and of the piece
/// between.
proof fn lemma_byte_len_split(s: Seq<char>, a: int, i: int)
    requires
        0 <= a <= i <= s.len(),
    ensures
        byte_len(s.take(i)) == byte_len(s.take(a)) + byte_len(s.subrange(a, i)),
    decreases i - a,
{
    if a < i {
        lemma_byte_len_split(s, a, i - 1);
        assert(s.take(i).drop_last() =~= s.take(i - 1));
        assert(s.subrange(a, i).drop_last() =~= s.subrange(a, i - 1));
    } else {
        assert(s.subrange(a, i) =~= Seq::<char>::empty());
    }
}

/// An offset that starts a character comes back from its own position:
/// [`offset`] undoes [`position`] wherever a position names a character.
pub proof fn law_an_offset_comes_back_from_its_position(text: Seq<char>, i: int)
    requires
        0 <= i <= text.len(),
        byte_len(text) <= u32::MAX,
    ensures
        offset_of(text, position_of(text, byte_len(text.take(i)))) == byte_len(text.take(i)),
{
    let off = byte_len(text.take(i));
    lemma_index_at_boundary(text, i);
    let ls = crate::span::line_start(text, i);
    lemma_line_start_no_break(text, i);
    let line = crate::span::count_newlines(text.take(i));
    let col = crate::span::utf16_count(text.subrange(ls, i));
    // Both fit the position's fields.
    lemma_count_newlines_le(text.take(i));
    lemma_byte_len_split(text, i, text.len() as int);
    assert(text.take(text.len() as int) =~= text);
    lemma_utf16_le_bytes(text.subrange(ls, i));
    lemma_byte_len_split(text, ls, i);
    let p = position_of(text, off);
    assert(p.line as nat == line);
    assert(p.character as nat == col);
    lemma_line_begin_of(text, i);
    lemma_line_end_from(text, ls, i);
    let e = line_end(text, ls);
    lemma_line_end_bounds(text, i);
    assert(text.subrange(ls, ls) =~= Seq::<char>::empty());
    lemma_column_reaches(text, ls, ls, i, e);
}

} // verus!
