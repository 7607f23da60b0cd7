//! Chapter and verse numbers: `1`, `3-5`, `1a-3b`, `1,3-5`.
use vstd::prelude::*;
use crate::strings::{push_char, str_chars};

verus! {

/// The decimal digits of `n`, most significant first.
pub open spec fn decimal(n: nat) -> Seq<char>
    decreases n,
{
    if n < 10 {
        seq![digit_char(n)]
    } else {
        decimal(n / 10).push(digit_char(n % 10))
    }
}

/// The ASCII digit for `d < 10`.
pub open spec fn digit_char(d: nat) -> char {
    ((d + 48) as u32) as char
}

/// Append the decimal digits of `n` to `out`.
pub fn push_decimal(out: &mut String, n: usize)
    ensures
        final(out)@ == old(out)@ + decimal(n as nat),
    decreases n,
{
    if n >= 10 {
        push_decimal(out, n / 10);
    }
    let d = (n % 10) as u32;
    let c = char_from_digit(d);
    push_char(out, c);
    proof {
        assert(decimal(n as nat) == if n < 10 {
            seq![digit_char(n as nat)]
        } else {
            decimal((n / 10) as nat).push(digit_char((n % 10) as nat))
        });
        if n < 10 {
            assert(old(out)@ + decimal(n as nat) =~= old(out)@.push(c));
        }
    }
}

/// The ASCII digit for `d < 10`.
pub fn char_from_digit(d: u32) -> (c: char)
    requires
        d < 10,
    ensures
        c == digit_char(d as nat),
{
    match d {
        0 => '0',
        1 => '1',
        2 => '2',
        3 => '3',
        4 => '4',
        5 => '5',
        6 => '6',
        7 => '7',
        8 => '8',
        _ => '9',
    }
}

/// The decimal digits of `n` as a string.
pub fn decimal_string(n: usize) -> (text: String)
    ensures
        text@ == decimal(n as nat),
{
    let mut out = String::new();
    push_decimal(&mut out, n);
    assert(out@ =~= decimal(n as nat));
    out
}

/// The right-to-left mark USFM allows before `-` and `,` in a number.
pub open spec fn rtl_mark() -> char {
    '\u{200F}'
}

/// One range of a number list: `3`, `3-5`, `1a-1b`.
#[derive(Debug, PartialEq, Eq, Clone, Copy, Structural)]
pub struct NumberRange {
    pub start: usize,
    pub start_modifier: Option<char>,
    pub end: usize,
    pub end_modifier: Option<char>,
    /// Whether an RTL mark stood before the `-`.
    pub guard_rtl: bool,
}

/// A modifier as the text it adds.
pub open spec fn modifier_text(modifier: Option<char>) -> Seq<char> {
    match modifier {
        Some(c) => seq![c],
        None => seq![],
    }
}

impl NumberRange {
    pub fn is_collapsed(&self) -> (b: bool)
        ensures
            b == (self.start == self.end),
    {
        self.start == self.end
    }

    /// The range as USFM writes it.
    pub open spec fn text(self) -> Seq<char> {
        decimal(self.start as nat) + modifier_text(self.start_modifier) + if self.start == self.end {
            seq![]
        } else {
            (if self.guard_rtl {
                seq![rtl_mark()]
            } else {
                seq![]
            }) + seq!['-'] + decimal(self.end as nat) + modifier_text(self.end_modifier)
        }
    }

    /// Append the range as USFM writes it.
    pub fn write(&self, out: &mut String)
        ensures
            final(out)@ == old(out)@ + self.text(),
    {
        let ghost start = old(out)@;
        push_decimal(out, self.start);
        if let Some(m) = self.start_modifier {
            push_char(out, m);
        }
        assert(out@ =~= start + decimal(self.start as nat) + modifier_text(self.start_modifier));
        if self.start != self.end {
            let ghost before = out@;
            if self.guard_rtl {
                push_char(out, '\u{200F}');
            }
            push_char(out, '-');
            push_decimal(out, self.end);
            if let Some(m) = self.end_modifier {
                push_char(out, m);
            }
            assert(out@ =~= before + ((if self.guard_rtl {
                seq![rtl_mark()]
            } else {
                seq![]
            }) + seq!['-'] + decimal(self.end as nat) + modifier_text(self.end_modifier)));
        }
        assert(out@ =~= start + self.text());
    }
}

/// A list of ranges: `1,3-5`. Never empty.
#[derive(Debug, PartialEq, Clone)]
pub struct NumberList {
    pub ranges: Vec<NumberRange>,
    /// Whether an RTL mark stood before a `-` or `,` of the list, which puts
    /// one before every `,` when the list is written.
    pub guard_rtl: bool,
}

/// The ranges after the first, each with its separator.
pub open spec fn rest_text(ranges: Seq<NumberRange>, guard_rtl: bool) -> Seq<char>
    decreases ranges.len(),
{
    if ranges.len() == 0 {
        seq![]
    } else {
        rest_text(ranges.drop_last(), guard_rtl) + (if guard_rtl {
            seq![rtl_mark(), ',']
        } else {
            seq![',']
        }) + ranges.last().text()
    }
}

/// The ranges `1..` of a list, each with its separator.
pub open spec fn ranges_text(ranges: Seq<NumberRange>, guard_rtl: bool) -> Seq<char> {
    ranges[0].text() + rest_text(ranges.subrange(1, ranges.len() as int), guard_rtl)
}

/// Whether `c` is alphabetic, as `char::is_alphabetic` decides it.
pub uninterp spec fn alphabetic(c: char) -> bool;

/// `char::is_alphabetic`: the Unicode `Alphabetic` property, named
/// [`alphabetic`]. Among ASCII characters it holds of the letters `A`–`Z`
/// and `a`–`z` alone; the directional marks U+200E and U+200F do not have
/// it.
#[verifier::external_body]
fn is_alphabetic(c: char) -> (b: bool)
    ensures
        b == alphabetic(c),
        (c as u32) < 128 ==> (b <==> (('A' <= c && c <= 'Z') || ('a' <= c && c <= 'z'))),
        c == '\u{200E}' || c == '\u{200F}' ==> !b,
{
    c.is_alphabetic()
}

/// Why a number did not parse.
#[derive(Debug, PartialEq, Eq, Clone, Copy, Structural)]
pub enum ParseError {
    MalformedVerseNumber,
    MalformedChapterNumber,
}

/// An ASCII digit.
pub open spec fn is_ascii_digit(c: char) -> bool {
    '0' <= c && c <= '9'
}

/// The number of ASCII digits in `s` from `i` on.
pub open spec fn digit_run(s: Seq<char>, i: int) -> nat
    decreases s.len() - i,
{
    if 0 <= i < s.len() && is_ascii_digit(s[i]) {
        1 + digit_run(s, i + 1)
    } else {
        0
    }
}

/// The value of the digits `s[i..j]`.
pub open spec fn digits_value(s: Seq<char>, i: int, j: int) -> nat
    decreases j - i,
{
    if j <= i {
        0
    } else {
        digits_value(s, i, j - 1) * 10 + ((s[j - 1] as u32) - 48) as nat
    }
}

/// The unsigned integer at `i`, and where it ends: one or more digits whose
/// value fits a `usize`.
pub open spec fn number_at(s: Seq<char>, i: int) -> Option<(usize, int)> {
    let n = digit_run(s, i);
    if n > 0 && digits_value(s, i, i + n) <= usize::MAX {
        Some((digits_value(s, i, i + n) as usize, i + n))
    } else {
        None
    }
}

/// An optional alphabetic modifier at `i`, and where it ends.
pub open spec fn modifier_at(s: Seq<char>, i: int) -> (Option<char>, int) {
    if 0 <= i < s.len() && alphabetic(s[i]) {
        (Some(s[i]), i + 1)
    } else {
        (None, i)
    }
}

/// Whether `s[i]` is `c`.
pub open spec fn char_at(s: Seq<char>, i: int, c: char) -> bool {
    0 <= i < s.len() && s[i] == c
}

/// One range at `i`: the range, whether an RTL mark followed its end (which
/// marks the list), and where it ends.
pub open spec fn range_at(s: Seq<char>, i: int) -> Option<(NumberRange, bool, int)> {
    match number_at(s, i) {
        None => None,
        Some((start, i1)) => {
            let (start_modifier, i2) = modifier_at(s, i1);
            let has_guard = char_at(s, i2, rtl_mark());
            let i3 = if has_guard { i2 + 1 } else { i2 };
            if char_at(s, i3, '-') {
                match number_at(s, i3 + 1) {
                    None => None,
                    Some((end, i4)) => {
                        let (end_modifier, i5) = modifier_at(s, i4);
                        let parent_guard = char_at(s, i5, rtl_mark());
                        let i6 = if parent_guard { i5 + 1 } else { i5 };
                        Some((NumberRange { start, start_modifier, end, end_modifier, guard_rtl: has_guard }, parent_guard, i6))
                    },
                }
            } else {
                Some((NumberRange { start, start_modifier, end: start, end_modifier: None, guard_rtl: false }, has_guard, i3))
            }
        },
    }
}

/// The ranges from `i` to the end of `s`, separated by `,`, with whether any
/// of them marked the list as RTL-guarded.
pub open spec fn ranges_from(s: Seq<char>, i: int) -> Option<(Seq<NumberRange>, bool)>
    decreases s.len() - i,
{
    match range_at(s, i) {
        None => None,
        Some((range, guard, j)) => if j >= s.len() {
            Some((seq![range], guard))
        } else if s[j] == ',' && j > i {
            match ranges_from(s, j + 1) {
                None => None,
                Some((rest, rest_guard)) => Some((seq![range] + rest, guard || rest_guard)),
            }
        } else {
            None
        },
    }
}



/// `digits_value` never shrinks as a run of digits grows.
proof fn lemma_digits_value_grows(s: Seq<char>, i: int, j: int, k: int)
    requires
        i <= j <= k,
        forall|m: int| i <= m < k ==> #[trigger] is_ascii_digit(s[m]),
    ensures
        digits_value(s, i, j) <= digits_value(s, i, k),
    decreases k - j,
{
    if j < k {
        lemma_digits_value_grows(s, i, j, k - 1);
    }
}

/// The unsigned integer at `i`, as [`number_at`] reads it.
fn number_at_exec(s: &Vec<char>, i: usize) -> (r: Option<(usize, usize)>)
    requires
        i <= s@.len(),
    ensures
        match r {
            Some((n, j)) => number_at(s@, i as int) == Some((n, j as int)) && i < j <= s@.len(),
            None => number_at(s@, i as int) is None,
        },
{
    let mut k = i;
    let mut value: usize = 0;
    let mut overflow = false;
    while k < s.len() && '0' <= s[k] && s[k] <= '9'
        invariant
            i <= k <= s@.len(),
            forall|m: int| i <= m < k ==> #[trigger] is_ascii_digit(s@[m]),
            digit_run(s@, i as int) == (k - i) + digit_run(s@, k as int),
            !overflow ==> value == digits_value(s@, i as int, k as int),
            overflow ==> digits_value(s@, i as int, k as int) > usize::MAX,
        decreases s@.len() - k,
    {
        let d = ((s[k] as u32) - 48) as usize;
        proof {
            assert(digits_value(s@, i as int, k + 1) == digits_value(s@, i as int, k as int) * 10 + d);
        }
        if !overflow {
            if value > (usize::MAX - d) / 10 {
                overflow = true;
                proof {
                    assert(value * 10 + d > usize::MAX) by (nonlinear_arith)
                        requires value > (usize::MAX - d) / 10, d <= 9;
                }
            } else {
                proof {
                    assert(value * 10 + d <= usize::MAX) by (nonlinear_arith)
                        requires value <= (usize::MAX - d) / 10, d <= 9;
                }
                value = value * 10 + d;
            }
        } else {
            proof {
                assert(digits_value(s@, i as int, k + 1) >= digits_value(s@, i as int, k as int)) by (nonlinear_arith)
                    requires digits_value(s@, i as int, k + 1) == digits_value(s@, i as int, k as int) * 10 + d;
            }
        }
        k = k + 1;
    }
    if k == i || overflow {
        None
    } else {
        Some((value, k))
    }
}

/// An optional alphabetic modifier at `i`, as [`modifier_at`] reads it.
fn modifier_at_exec(s: &Vec<char>, i: usize) -> (r: (Option<char>, usize))
    requires
        i <= s@.len(),
    ensures
        (r.0, r.1 as int) == modifier_at(s@, i as int),
        r.1 <= s@.len(),
{
    if i < s.len() && is_alphabetic(s[i]) {
        (Some(s[i]), i + 1)
    } else {
        (None, i)
    }
}

/// Whether `s[i]` is `c`.
fn eat(s: &Vec<char>, i: usize, c: char) -> (b: bool)
    ensures
        b == char_at(s@, i as int, c),
        b ==> i < s@.len(),
{
    i < s.len() && s[i] == c
}

/// One range at `i`, as [`range_at`] reads it.
fn range_at_exec(s: &Vec<char>, i: usize) -> (r: Option<(NumberRange, bool, usize)>)
    requires
        i <= s@.len(),
    ensures
        match r {
            Some((range, guard, j)) => range_at(s@, i as int) == Some((range, guard, j as int))
                && i < j <= s@.len(),
            None => range_at(s@, i as int) is None,
        },
{
    let n = s.len();
    let (start, i1) = match number_at_exec(s, i) {
        Some(p) => p,
        None => return None,
    };
    let (start_modifier, i2) = modifier_at_exec(s, i1);
    let has_guard = eat(s, i2, '\u{200F}');
    let i3 = if has_guard { i2 + 1 } else { i2 };
    if eat(s, i3, '-') {
        let (end, i4) = match number_at_exec(s, i3 + 1) {
            Some(p) => p,
            None => return None,
        };
        let (end_modifier, i5) = modifier_at_exec(s, i4);
        let parent_guard = eat(s, i5, '\u{200F}');
        let i6 = if parent_guard { i5 + 1 } else { i5 };
        Some((NumberRange { start, start_modifier, end, end_modifier, guard_rtl: has_guard }, parent_guard, i6))
    } else {
        Some((NumberRange { start, start_modifier, end: start, end_modifier: None, guard_rtl: false }, has_guard, i3))
    }
}

impl NumberList {
    /// Parse a number list: ranges separated by `,`, each a number with an
    /// optional alphabetic modifier, optionally `-` and a second one, and the
    /// RTL marks USFM allows. The whole text must be the list.
    pub fn parse_chars(s: &Vec<char>) -> (r: Result<NumberList, ParseError>)
        ensures
            match r {
                Ok(list) => ranges_from(s@, 0) == Some((list.ranges@, list.guard_rtl)) && list.wf(),
                Err(e) => ranges_from(s@, 0) is None && e == ParseError::MalformedVerseNumber,
            },
    {
        let mut ranges: Vec<NumberRange> = Vec::new();
        let mut guard = false;
        let mut i: usize = 0;
        loop
            invariant
                i <= s@.len(),
                (i == 0) == (ranges@.len() == 0),
                ranges_from(s@, 0) == match ranges_from(s@, i as int) {
                    Some((rest, g)) => Some((ranges@ + rest, guard || g)),
                    None => None,
                },
            decreases s@.len() - i,
        {
            let ghost before = ranges@;
            proof {
                if i == 0 {
                    assert(ranges@ + seq![] =~= seq![]);
                }
            }
            match range_at_exec(s, i) {
                None => return Err(ParseError::MalformedVerseNumber),
                Some((range, g, j)) => {
                    ranges.push(range);
                    guard = guard || g;
                    if j >= s.len() {
                        proof {
                            assert(before + seq![range] =~= ranges@);
                        }
                        return Ok(NumberList { ranges, guard_rtl: guard });
                    } else if s[j] == ',' {
                        proof {
                            match ranges_from(s@, j + 1) {
                                Some((rest, rg)) => {
                                    assert(before + (seq![range] + rest) =~= ranges@ + rest);
                                },
                                None => {},
                            }
                        }
                        i = j + 1;
                    } else {
                        return Err(ParseError::MalformedVerseNumber);
                    }
                },
            }
        }
    }

    /// Parse a number list from a string; see [`NumberList::parse_chars`].
    pub fn parse_str(s: &str) -> (r: Result<NumberList, ParseError>)
        ensures
            match r {
                Ok(list) => ranges_from(s@, 0) == Some((list.ranges@, list.guard_rtl)) && list.wf(),
                Err(e) => ranges_from(s@, 0) is None && e == ParseError::MalformedVerseNumber,
            },
    {
        let chars = str_chars(s);
        Self::parse_chars(&chars)
    }

    /// A list is never empty.
    pub open spec fn wf(&self) -> bool {
        self.ranges@.len() > 0
    }

    /// The list as USFM writes it.
    pub open spec fn text(&self) -> Seq<char> {
        ranges_text(self.ranges@, self.guard_rtl)
    }

    /// The one-number list `number`.
    pub fn collapsed(number: usize) -> (list: NumberList)
        ensures
            list.wf(),
            list.ranges@ == seq![
                NumberRange { start: number, start_modifier: None, end: number, end_modifier: None, guard_rtl: false },
            ],
            !list.guard_rtl,
    {
        let mut ranges = Vec::new();
        ranges.push(NumberRange { start: number, start_modifier: None, end: number, end_modifier: None, guard_rtl: false });
        NumberList { ranges, guard_rtl: false }
    }

    pub fn first_range(&self) -> (range: &NumberRange)
        requires
            self.wf(),
        ensures
            *range == self.ranges@[0],
    {
        &self.ranges[0]
    }

    pub fn last_range(&self) -> (range: &NumberRange)
        requires
            self.wf(),
        ensures
            *range == self.ranges@.last(),
    {
        &self.ranges[self.ranges.len() - 1]
    }

    pub fn start(&self) -> (n: usize)
        requires
            self.wf(),
        ensures
            n == self.ranges@[0].start,
    {
        self.first_range().start
    }

    pub fn end(&self) -> (n: usize)
        requires
            self.wf(),
        ensures
            n == self.ranges@.last().end,
    {
        self.last_range().end
    }

    pub fn is_collapsed(&self) -> (b: bool)
        ensures
            b == (self.ranges@.len() == 1 && self.ranges@[0].start == self.ranges@[0].end),
    {
        self.ranges.len() == 1 && self.ranges[0].is_collapsed()
    }

    /// The ranges in source order: `1,3-5` is two.
    pub fn ranges(&self) -> (ranges: &[NumberRange])
        ensures
            ranges@ == self.ranges@,
    {
        self.ranges.as_slice()
    }

    /// Whether `number` falls in any of the ranges. Modifiers are ignored.
    pub fn contains(&self, number: usize) -> (b: bool)
        ensures
            b == exists|i: int|
                0 <= i < self.ranges@.len() && #[trigger] self.ranges@[i].start <= number
                    <= self.ranges@[i].end,
    {
        let mut i: usize = 0;
        while i < self.ranges.len()
            invariant
                i <= self.ranges@.len(),
                forall|j: int|
                    0 <= j < i ==> !(#[trigger] self.ranges@[j].start <= number <= self.ranges@[j].end),
            decreases self.ranges@.len() - i,
        {
            if self.ranges[i].start <= number && number <= self.ranges[i].end {
                return true;
            }
            i = i + 1;
        }
        false
    }

    /// A copy of the list.
    pub fn duplicate(&self) -> (copy: NumberList)
        ensures
            copy.ranges@ == self.ranges@,
            copy.guard_rtl == self.guard_rtl,
    {
        let mut ranges: Vec<NumberRange> = Vec::new();
        let mut i: usize = 0;
        while i < self.ranges.len()
            invariant
                i <= self.ranges@.len(),
                ranges@ == self.ranges@.take(i as int),
            decreases self.ranges@.len() - i,
        {
            ranges.push(self.ranges[i]);
            i = i + 1;
            assert(ranges@ =~= self.ranges@.take(i as int));
        }
        assert(ranges@ =~= self.ranges@);
        NumberList { ranges, guard_rtl: self.guard_rtl }
    }

    /// Whether two lists are the same, range by range.
    pub fn same(&self, other: &NumberList) -> (b: bool)
        ensures
            b == (self.ranges@ == other.ranges@ && self.guard_rtl == other.guard_rtl),
    {
        if self.guard_rtl != other.guard_rtl || self.ranges.len() != other.ranges.len() {
            return false;
        }
        let mut i: usize = 0;
        while i < self.ranges.len()
            invariant
                i <= self.ranges@.len(),
                self.ranges@.len() == other.ranges@.len(),
                forall|j: int| 0 <= j < i ==> self.ranges@[j] == other.ranges@[j],
            decreases self.ranges@.len() - i,
        {
            if self.ranges[i] != other.ranges[i] {
                return false;
            }
            i = i + 1;
        }
        assert(self.ranges@ =~= other.ranges@);
        true
    }

    /// Append the list as USFM writes it: `1,3-5`, with an RTL mark before
    /// each `,` of a guarded list.
    pub fn write(&self, out: &mut String)
        requires
            self.wf(),
        ensures
            final(out)@ == old(out)@ + self.text(),
    {
        let ghost start = old(out)@;
        let ghost rs = self.ranges@;
        self.ranges[0].write(out);
        let mut i: usize = 1;
        while i < self.ranges.len()
            invariant
                1 <= i <= rs.len(),
                rs == self.ranges@,
                out@ == start + rs[0].text() + rest_text(rs.subrange(1, i as int), self.guard_rtl),
            decreases rs.len() - i,
        {
            let ghost before = out@;
            if self.guard_rtl {
                push_char(out, '\u{200F}');
            }
            push_char(out, ',');
            self.ranges[i].write(out);
            proof {
                let prefix = rs.subrange(1, i + 1);
                assert(prefix.drop_last() =~= rs.subrange(1, i as int));
                assert(prefix.last() == rs[i as int]);
                assert(out@ =~= start + rs[0].text() + rest_text(prefix, self.guard_rtl));
            }
            i = i + 1;
        }
        assert(out@ =~= start + self.text());
    }

    /// The list as USFM writes it: what `Display` writes.
    pub fn to_string(&self) -> (text: String)
        requires
            self.wf(),
        ensures
            text@ == self.text(),
    {
        let mut out = String::new();
        self.write(&mut out);
        assert(out@ =~= self.text());
        out
    }
}

} // verus!
