//! The few operations on `str` and `String` the library needs that the
//! verifier's standard library does not specify, each a single call to `std`.
use vstd::prelude::*;

verus! {

/// `<str as PartialEq>::eq`: two string slices are equal exactly when they
/// hold the same characters.
#[verifier::external_body]
pub fn str_eq(a: &str, b: &str) -> (equal: bool)
    ensures
        equal == (a@ == b@),
{
    a == b
}

/// `str::chars` collected into a vector: the characters of `s`, in order.
#[verifier::external_body]
pub fn str_chars(s: &str) -> (chars: Vec<char>)
    ensures
        chars@ == s@,
{
    s.chars().collect()
}

/// `String::push`: appends one character.
#[verifier::external_body]
pub fn push_char(s: &mut String, c: char)
    ensures
        final(s)@ == old(s)@.push(c),
{
    s.push(c);
}

/// `String::push_str`: appends a string slice.
#[verifier::external_body]
pub fn push_str(s: &mut String, t: &str)
    ensures
        final(s)@ == old(s)@ + t@,
{
    s.push_str(t);
}

/// `Arc::clone`: another handle on the same value.
#[verifier::external_body]
pub fn share<T>(value: &std::sync::Arc<T>) -> (copy: std::sync::Arc<T>)
    ensures
        copy == *value,
{
    std::sync::Arc::clone(value)
}

} // verus!
