//! Source text as characters, each with the byte offset it starts at.
//!
//! Spans are byte offsets into the UTF-8 source, while the lexer walks
//! characters. A [`SourceText`] holds both: the characters of the source and,
//! for every character index, the byte offset of that character, which is
//! the UTF-8 length of everything before it.
use vstd::prelude::*;
use crate::strings::str_chars;

verus! {

/// The number of bytes UTF-8 takes for `c`.
pub open spec fn utf8_len(c: char) -> nat {
    let v = c as u32;
    if v < 0x80 {
        1
    } else if v < 0x800 {
        2
    } else if v < 0x10000 {
        3
    } else {
        4
    }
}

/// The number of bytes UTF-8 takes for a character sequence.
pub open spec fn byte_len(s: Seq<char>) -> nat
    decreases s.len(),
{
    if s.len() == 0 {
        0
    } else {
        byte_len(s.drop_last()) + utf8_len(s.last())
    }
}

/// `char::len_utf8`, computed from the code point.
pub fn char_len_utf8(c: char) -> (n: u32)
    ensures
        n == utf8_len(c),
        1 <= n <= 4,
{
    let v = c as u32;
    if v < 0x80 {
        1
    } else if v < 0x800 {
        2
    } else if v < 0x10000 {
        3
    } else {
        4
    }
}

/// The byte length of a prefix never exceeds that of a longer one.
pub proof fn lemma_byte_len_monotone(s: Seq<char>, i: int, j: int)
    requires
        0 <= i <= j <= s.len(),
    ensures
        byte_len(s.take(i)) <= byte_len(s.take(j)),
    decreases j - i,
{
    if i < j {
        lemma_byte_len_monotone(s, i, j - 1);
        assert(s.take(j).drop_last() =~= s.take(j - 1));
    }
}

/// A source text: its characters and the byte offset of each of them.
pub struct SourceText {
    pub chars: Vec<char>,
    /// `offsets[i]` is the byte offset of character `i`; the last entry is
    /// the byte length of the whole text.
    pub offsets: Vec<u32>,
}

impl SourceText {
    /// The offsets are the UTF-8 lengths of the prefixes.
    pub open spec fn wf(&self) -> bool {
        &&& self.offsets@.len() == self.chars@.len() + 1
        &&& forall|i: int|
            0 <= i <= self.chars@.len() ==> #[trigger] self.offsets@[i] == byte_len(
                self.chars@.take(i),
            )
    }

    /// The number of characters.
    pub open spec fn len(&self) -> nat {
        self.chars@.len()
    }

    /// The byte length of the text.
    pub open spec fn byte_total(&self) -> nat {
        byte_len(self.chars@)
    }

    /// The characters of `text` and their offsets, or `None` when the text
    /// is too long for a `u32` offset.
    pub fn new(text: &str) -> (source: Option<SourceText>)
        ensures
            match source {
                Some(s) => s.wf() && s.chars@ == text@,
                None => byte_len(text@) > u32::MAX,
            },
    {
        let chars = str_chars(text);
        let n = chars.len();
        let mut offsets: Vec<u32> = Vec::new();
        offsets.push(0);
        let mut total: u32 = 0;
        let mut i: usize = 0;
        assert(chars@.take(0) =~= Seq::<char>::empty());
        while i < n
            invariant
                n == chars@.len(),
                chars@ == text@,
                i <= n,
                offsets@.len() == i + 1,
                total == byte_len(chars@.take(i as int)),
                forall|k: int| 0 <= k <= i ==> #[trigger] offsets@[k] == byte_len(chars@.take(k)),
            decreases n - i,
        {
            let w = char_len_utf8(chars[i]);
            assert(chars@.take(i + 1).drop_last() =~= chars@.take(i as int));
            if total > u32::MAX - w {
                proof {
                    assert(byte_len(chars@.take(i + 1)) == total + w);
                    lemma_byte_len_monotone(chars@, i + 1, n as int);
                    assert(chars@.take(n as int) =~= chars@);
                    assert(byte_len(chars@) > u32::MAX);
                    assert(text@ == chars@);
                }
                return None;
            }
            total = total + w;
            offsets.push(total);
            i = i + 1;
        }
        assert(chars@.take(n as int) =~= chars@);
        Some(SourceText { chars, offsets })
    }

    /// The byte offset of character `i`.
    pub fn offset(&self, i: usize) -> (off: u32)
        requires
            self.wf(),
            i <= self.len(),
        ensures
            off == byte_len(self.chars@.take(i as int)),
            off <= self.byte_total(),
    {
        proof {
            lemma_byte_len_monotone(self.chars@, i as int, self.len() as int);
            assert(self.chars@.take(self.len() as int) =~= self.chars@);
        }
        self.offsets[i]
    }

    /// Offsets grow with the index.
    pub proof fn lemma_offsets_monotone(&self, i: int, j: int)
        requires
            self.wf(),
            0 <= i <= j <= self.len(),
        ensures
            self.offsets@[i] <= self.offsets@[j],
            self.offsets@[j] <= self.byte_total(),
    {
        lemma_byte_len_monotone(self.chars@, i, j);
        lemma_byte_len_monotone(self.chars@, j, self.len() as int);
        assert(self.chars@.take(self.len() as int) =~= self.chars@);
    }
}

} // verus!
