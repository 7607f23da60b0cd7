//! Writing text and attribute values that an HTML parser reads back as what
//! the tree held: the three characters HTML reserves in character data
//! escaped (and the quote too inside an attribute value), and the characters
//! HTML cannot carry at all replaced by U+FFFD.
use vstd::prelude::*;
use crate::codegen::write_to_sink;
use crate::strings::{push_char, push_str, str_chars};

verus! {

/// A character that cannot be written to HTML at all, not even as a numeric
/// character reference: the C0 controls other than tab, newline and
/// carriage return, and U+FFFE/U+FFFF. HTML5 also calls the C1 controls a
/// parse error, but they round-trip, so they are left alone.
pub open spec fn forbidden_in_html(c: char) -> bool {
    forbidden_code(c as u32)
}

/// [`forbidden_in_html`] on a code point.
pub open spec fn forbidden_code(n: u32) -> bool {
    n <= 8 || n == 0xb || n == 0xc || (0xe <= n && n <= 0x1f) || n == 0xfffe || n == 0xffff
}

/// The spec of [`forbidden_in_html`], as code.
pub fn is_forbidden_in_html(c: char) -> (b: bool)
    ensures
        b == forbidden_in_html(c),
{
    let n = c as u32;
    n <= 8 || n == 0xb || n == 0xc || (0xe <= n && n <= 0x1f) || n == 0xfffe || n == 0xffff
}

/// Whether the scan stops at a byte: the characters HTML reserves in markup,
/// the quote, the C0 controls HTML cannot carry, and `0xEF`, which begins
/// U+FFFE and U+FFFF in UTF-8 (and a great many allowed characters, so a stop
/// there is checked).
pub open spec fn stops_at(byte: u8) -> bool {
    byte == 0x26 || byte == 0x3c || byte == 0x3e || byte == 0x22 || byte == 0xef || (byte < 0x80
        && forbidden_code(byte as u32))
}

/// [`stops_at`], as code.
pub fn stop_byte(byte: u8) -> (b: bool)
    ensures
        b == stops_at(byte),
{
    let n = byte as u32;
    byte == 0x26 || byte == 0x3c || byte == 0x3e || byte == 0x22 || byte == 0xef || (byte < 0x80
        && (n <= 8 || n == 0xb || n == 0xc || (0xe <= n && n <= 0x1f)))
}

/// One character as HTML text, or as the body of a quoted attribute value
/// when `in_attribute`.
pub open spec fn escaped_char(c: char, in_attribute: bool) -> Seq<char> {
    if c == '&' {
        "&amp;"@
    } else if c == '<' {
        "&lt;"@
    } else if c == '>' {
        "&gt;"@
    } else if c == '"' && in_attribute {
        "&quot;"@
    } else if forbidden_in_html(c) {
        seq!['\u{fffd}']
    } else {
        seq![c]
    }
}

/// Text as HTML writes it.
pub open spec fn escaped(s: Seq<char>, in_attribute: bool) -> Seq<char>
    decreases s.len(),
{
    if s.len() == 0 {
        seq![]
    } else {
        escaped(s.drop_last(), in_attribute) + escaped_char(s.last(), in_attribute)
    }
}

/// Append `text` escaped: `&`, `<` and `>` (and `"` when `in_attribute`)
/// as entities, the characters HTML cannot carry as U+FFFD, everything else
/// as it is.
pub fn push_escaped(out: &mut String, text: &str, in_attribute: bool)
    ensures
        final(out)@ == old(out)@ + escaped(text@, in_attribute),
{
    let chars = str_chars(text);
    let ghost start = out@;
    let mut i: usize = 0;
    assert(chars@.take(0) =~= Seq::<char>::empty());
    while i < chars.len()
        invariant
            i <= chars@.len(),
            chars@ == text@,
            out@ == start + escaped(chars@.take(i as int), in_attribute),
        decreases chars@.len() - i,
    {
        let c = chars[i];
        let code = c as u32;
        if code < 0x80 && !stop_byte(code as u8) {
            assert((code as u8) as u32 == code) by (bit_vector)
                requires
                    code < 0x80,
            ;
            assert(escaped_char(c, in_attribute) == seq![c]);
            push_char(out, c);
        } else if c == '&' {
            push_str(out, "&amp;");
        } else if c == '<' {
            push_str(out, "&lt;");
        } else if c == '>' {
            push_str(out, "&gt;");
        } else if c == '"' && in_attribute {
            push_str(out, "&quot;");
        } else if is_forbidden_in_html(c) {
            push_char(out, '\u{fffd}');
        } else {
            push_char(out, c);
        }
        proof {
            assert(chars@.take(i + 1).drop_last() =~= chars@.take(i as int));
            assert(out@ =~= start + escaped(chars@.take(i + 1), in_attribute));
        }
        i = i + 1;
    }
    assert(chars@.take(chars@.len() as int) =~= chars@);
}

/// Writes `text` as HTML character data: `&`, `<` and `>` escaped, the
/// characters HTML cannot carry replaced by U+FFFD, everything else as it
/// is. The text handed to the sink is [`escaped`]`(text, false)`.
pub fn write_escaped<W: std::fmt::Write>(f: &mut W, text: &str) -> (result: Result<(), std::fmt::Error>) {
    let mut out = String::new();
    push_escaped(&mut out, text, false);
    write_to_sink(f, out.as_str())
}

/// Writes `value` as the body of a double-quoted attribute value: as
/// [`write_escaped`], and the quote escaped as well.
pub fn write_escaped_attribute<W: std::fmt::Write>(f: &mut W, value: &str) -> (result: Result<(), std::fmt::Error>) {
    let mut out = String::new();
    push_escaped(&mut out, value, true);
    write_to_sink(f, out.as_str())
}

/// The attributes of an element, in the order they were added.
pub struct XmlAttributes {
    pub pairs: Vec<(String, String)>,
}

/// The attributes as written after an element's name: ` name="value"` for
/// each, the value escaped as an attribute value.
pub open spec fn attributes_text(pairs: Seq<(String, String)>) -> Seq<char>
    decreases pairs.len(),
{
    if pairs.len() == 0 {
        seq![]
    } else {
        attributes_text(pairs.drop_last()) + " "@ + pairs.last().0@ + "=\""@ + escaped(
            pairs.last().1@,
            true,
        ) + "\""@
    }
}

impl XmlAttributes {
    /// No attributes.
    pub fn new() -> (attributes: XmlAttributes)
        ensures
            attributes.pairs@.len() == 0,
    {
        XmlAttributes { pairs: Vec::new() }
    }

    /// These attributes, in this order.
    pub fn from(attributes: Vec<(String, String)>) -> (result: XmlAttributes)
        ensures
            result.pairs@ == attributes@,
    {
        XmlAttributes { pairs: attributes }
    }

    /// One attribute more, after the others.
    pub fn append(&mut self, name: String, value: String)
        ensures
            final(self).pairs@ == old(self).pairs@.push((name, value)),
    {
        self.pairs.push((name, value));
    }

    /// The attributes as written after an element's name.
    pub fn to_string(&self) -> (text: String)
        ensures
            text@ == attributes_text(self.pairs@),
    {
        let mut out = String::new();
        let mut k: usize = 0;
        while k < self.pairs.len()
            invariant
                k <= self.pairs@.len(),
                out@ == attributes_text(self.pairs@.take(k as int)),
            decreases self.pairs@.len() - k,
        {
            let pair = &self.pairs[k];
            push_str(&mut out, " ");
            push_str(&mut out, pair.0.as_str());
            push_str(&mut out, "=\"");
            push_escaped(&mut out, pair.1.as_str(), true);
            push_str(&mut out, "\"");
            proof {
                assert(self.pairs@.take(k + 1).drop_last() =~= self.pairs@.take(k as int));
                assert(out@ =~= attributes_text(self.pairs@.take(k + 1)));
            }
            k = k + 1;
        }
        assert(self.pairs@.take(self.pairs@.len() as int) =~= self.pairs@);
        out
    }
}

} // verus!
