//! The lexer: source characters to tokens.
//!
//! A token is a marker (`\p`, `\+nd`), a closing marker (`\nd*`), the
//! milestone end `\*`, a word (a run of text with its escapes resolved), a
//! run of whitespace, a stray backslash, a `|` or a `//`. Every token covers
//! a non-empty range of characters, and the tokens tile the text from its
//! first character (after a byte-order mark) to its last.
use vstd::prelude::*;
use crate::source::SourceText;
use crate::strings::push_char;

verus! {

#[derive(Debug, Clone, Copy, PartialEq, Eq, Structural)]
pub enum TokenKind {
    /// An opening marker, `\name` or `\+name`.
    Marker,
    /// A closing marker, `\name*` or `\+name*`.
    EndMarker,
    /// `\*`, which ends a milestone.
    MilestoneEnd,
    /// A run of text: no whitespace, no marker; `\\`, `\|` and `\"` resolved
    /// to the character they escape and `~` to a no-break space.
    Word,
    /// A run of whitespace.
    Space,
    /// A `\` that starts neither a marker nor an escape.
    Stray,
    /// `|`.
    Pipe,
    /// `//`, an optional line break.
    OptBreak,
}

#[derive(Debug)]
pub struct Token {
    pub kind: TokenKind,
    /// The marker's name for a marker, the resolved text for a word.
    pub text: String,
    /// A marker written with `+`.
    pub nested: bool,
    /// A run of whitespace holding a line break.
    pub newline: bool,
    /// The first character of the token.
    pub start: usize,
    /// One past the last character of the token.
    pub end: usize,
}

/// The tokens tile `first..n`: each is non-empty, and each starts where the
/// one before it ended.
pub open spec fn tiles(tokens: Seq<Token>, first: int, n: int) -> bool {
    &&& forall|i: int| 0 <= i < tokens.len() ==> #[trigger] tokens[i].start < tokens[i].end
    &&& forall|i: int| 0 <= i < tokens.len() ==> #[trigger] tokens[i].end <= n
    &&& forall|i: int|
        0 < i < tokens.len() ==> #[trigger] tokens[i].start == tokens[i - 1].end
    &&& tokens.len() > 0 ==> tokens[0].start == first
    &&& tokens.len() > 0 ==> tokens.last().end == n
    &&& tokens.len() == 0 ==> first == n
}

/// ASCII whitespace, which is what USFM separates words with.
pub open spec fn is_space(c: char) -> bool {
    c == ' ' || c == '\t' || c == '\n' || c == '\r' || c == '\u{c}'
}

pub fn is_space_char(c: char) -> (b: bool)
    ensures
        b == is_space(c),
{
    c == ' ' || c == '\t' || c == '\n' || c == '\r' || c == '\u{c}'
}

/// The characters a marker's name is made of.
pub open spec fn is_name(c: char) -> bool {
    ('a' <= c <= 'z') || ('A' <= c <= 'Z') || ('0' <= c <= '9') || c == '-' || c == '_'
}

pub fn is_name_char(c: char) -> (b: bool)
    ensures
        b == is_name(c),
{
    ('a' <= c && c <= 'z') || ('A' <= c && c <= 'Z') || ('0' <= c && c <= '9') || c == '-'
        || c == '_'
}

/// Whether the characters at `i` are `//`.
fn at_double_slash(chars: &Vec<char>, i: usize) -> (b: bool)
    requires
        i < chars@.len(),
    ensures
        b == (chars@[i as int] == '/' && i + 1 < chars@.len() && chars@[i + 1] == '/'),
{
    let n = chars.len();
    chars[i] == '/' && i + 1 < n && chars[i + 1] == '/'
}

/// Whether a backslash at `i` starts an escape: `\\`, `\|` or `\"`.
fn at_escape(chars: &Vec<char>, i: usize) -> (b: bool)
    requires
        i < chars@.len(),
    ensures
        b == (chars@[i as int] == '\\' && i + 1 < chars@.len() && (chars@[i + 1] == '\\'
            || chars@[i + 1] == '|' || chars@[i + 1] == '"')),
{
    let n = chars.len();
    if chars[i] == '\\' && i + 1 < n {
        let d = chars[i + 1];
        d == '\\' || d == '|' || d == '"'
    } else {
        false
    }
}

/// Whether a word can start at `i`.
pub open spec fn word_start(s: Seq<char>, i: int) -> bool {
    &&& !is_space(s[i])
    &&& s[i] != '|'
    &&& !(s[i] == '/' && i + 1 < s.len() && s[i + 1] == '/')
    &&& (s[i] == '\\' ==> (i + 1 < s.len() && (s[i + 1] == '\\' || s[i + 1] == '|' || s[i + 1]
        == '"')))
}

/// What a character of a word stands for: `~` is a no-break space.
pub open spec fn word_char(c: char) -> char {
    if c == '~' {
        '\u{a0}'
    } else {
        c
    }
}

/// Whether a backslash at `k` escapes the character after it.
pub open spec fn escape_at(s: Seq<char>, k: int) -> bool {
    s[k] == '\\' && k + 1 < s.len() && (s[k + 1] == '\\' || s[k + 1] == '|' || s[k + 1] == '"')
}

/// How many characters the word's step at `k` reads.
pub open spec fn step_width(s: Seq<char>, k: int) -> int {
    if escape_at(s, k) {
        2
    } else {
        1
    }
}

/// What the word's step at `k` adds to its text.
pub open spec fn step_text(s: Seq<char>, k: int) -> Seq<char> {
    if escape_at(s, k) {
        seq![s[k + 1]]
    } else {
        seq![word_char(s[k])]
    }
}

/// The text of the word read from `i` to `j`: escapes resolved, `~` a
/// no-break space.
pub open spec fn word_text(s: Seq<char>, i: int, j: int) -> Seq<char>
    decreases s.len() - i,
{
    if i < 0 || i >= j || i >= s.len() {
        seq![]
    } else {
        step_text(s, i) + word_text(s, i + step_width(s, i), j)
    }
}

/// Whether the steps of a word from `i` land on `j`.
pub open spec fn lands_on(s: Seq<char>, i: int, j: int) -> bool
    decreases s.len() - i,
{
    i == j || (0 <= i < j && i < s.len() && lands_on(s, i + step_width(s, i), j))
}

proof fn lemma_word_step(s: Seq<char>, i: int, j: int)
    requires
        0 <= i,
        lands_on(s, i, j),
        j < s.len(),
    ensures
        lands_on(s, i, j + step_width(s, j)),
        word_text(s, i, j + step_width(s, j)) == word_text(s, i, j) + step_text(s, j),
    decreases s.len() - i,
{
    if i == j {
        assert(lands_on(s, i + step_width(s, i), j + step_width(s, j)));
        assert(word_text(s, i + step_width(s, i), j + step_width(s, j)) == Seq::<char>::empty());
        assert(word_text(s, i, j) == Seq::<char>::empty());
        assert(word_text(s, i, j + step_width(s, j)) =~= step_text(s, j));
    } else {
        let k = i + step_width(s, i);
        lemma_word_step(s, k, j);
        assert(word_text(s, i, j + step_width(s, j)) == step_text(s, i) + word_text(s, k, j + step_width(s, j)));
        assert(word_text(s, i, j) == step_text(s, i) + word_text(s, k, j));
        assert(word_text(s, i, j + step_width(s, j)) =~= word_text(s, i, j) + step_text(s, j));
    }
}

/// A word's text never holds a `~`: each one is read as a no-break space.
pub proof fn law_a_word_holds_no_tilde(s: Seq<char>, i: int, j: int)
    ensures
        !word_text(s, i, j).contains('~'),
    decreases s.len() - i,
{
    if !(i < 0 || i >= j || i >= s.len()) {
        law_a_word_holds_no_tilde(s, i + step_width(s, i), j);
        let rest = word_text(s, i + step_width(s, i), j);
        let t = step_text(s, i) + rest;
        assert forall|k: int| 0 <= k < t.len() implies t[k] != '~' by {
            if k > 0 {
                assert(t[k] == rest[k - 1]);
            }
        }
    }
}

/// A word without backslashes reads as its source characters, each `~`
/// replaced by a no-break space.
pub proof fn law_a_plain_word_is_its_characters(s: Seq<char>, i: int, j: int)
    requires
        0 <= i <= j <= s.len(),
        forall|k: int| i <= k < j ==> s[k] != '\\',
    ensures
        word_text(s, i, j) == s.subrange(i, j).map_values(|c: char| if c == '~' { '\u{a0}' } else { c }),
    decreases s.len() - i,
{
    if i < j {
        law_a_plain_word_is_its_characters(s, i + 1, j);
        assert(!escape_at(s, i));
        assert(word_text(s, i, j) =~= s.subrange(i, j).map_values(|c: char| if c == '~' { '\u{a0}' } else { c }));
    } else {
        assert(s.subrange(i, j).map_values(|c: char| if c == '~' { '\u{a0}' } else { c }) =~= Seq::<char>::empty());
    }
}

/// The word starting at `i`: its end and its text.
fn scan_word(chars: &Vec<char>, i: usize) -> (r: (usize, String))
    requires
        i < chars@.len(),
        word_start(chars@, i as int),
    ensures
        i < r.0 <= chars@.len(),
        r.1@ == word_text(chars@, i as int, r.0 as int),
{
    let n = chars.len();
    let mut text = String::new();
    let mut j = i;
    proof {
        lemma_word_step(chars@, i as int, i as int);
        assert(word_text(chars@, i as int, i as int) == Seq::<char>::empty());
        assert(text@ =~= Seq::<char>::empty());
    }
    if chars[j] == '\\' {
        push_char(&mut text, chars[j + 1]);
        j = j + 2;
    } else {
        if chars[j] == '~' {
            push_char(&mut text, '\u{a0}');
        } else {
            push_char(&mut text, chars[j]);
        }
        j = j + 1;
    }
    assert(text@ =~= word_text(chars@, i as int, j as int));
    while j < n
        invariant
            n == chars@.len(),
            i < j <= n,
            lands_on(chars@, i as int, j as int),
            text@ == word_text(chars@, i as int, j as int),
        decreases n - j,
    {
        let c = chars[j];
        if is_space_char(c) || c == '|' || at_double_slash(chars, j) {
            break;
        }
        proof {
            lemma_word_step(chars@, i as int, j as int);
        }
        if c == '\\' {
            if at_escape(chars, j) {
                push_char(&mut text, chars[j + 1]);
                j = j + 2;
            } else {
                break;
            }
        } else {
            if c == '~' {
                push_char(&mut text, '\u{a0}');
            } else {
                push_char(&mut text, c);
            }
            j = j + 1;
        }
    }
    (j, text)
}

/// The run of whitespace at `i`: its end and whether it holds a line break.
fn scan_space(chars: &Vec<char>, i: usize) -> (r: (usize, bool))
    requires
        i < chars@.len(),
        is_space(chars@[i as int]),
    ensures
        i < r.0 <= chars@.len(),
        forall|m: int| i <= m < r.0 ==> is_space(#[trigger] chars@[m]),
{
    let n = chars.len();
    let mut j = i;
    let mut newline = false;
    while j < n && is_space_char(chars[j])
        invariant
            n == chars@.len(),
            i <= j <= n,
            j == i ==> is_space(chars@[i as int]),
            forall|m: int| i <= m < j ==> is_space(#[trigger] chars@[m]),
        decreases n - j,
    {
        if chars[j] == '\n' || chars[j] == '\r' {
            newline = true;
        }
        j = j + 1;
    }
    (j, newline)
}

/// The marker name starting at `i`: its end and its text.
fn scan_name(chars: &Vec<char>, i: usize) -> (r: (usize, String))
    requires
        i < chars@.len(),
        is_name(chars@[i as int]),
    ensures
        i < r.0 <= chars@.len(),
{
    let n = chars.len();
    let mut text = String::new();
    let mut j = i;
    while j < n && is_name_char(chars[j])
        invariant
            n == chars@.len(),
            i <= j <= n,
            j == i ==> is_name(chars@[i as int]),
        decreases n - j,
    {
        push_char(&mut text, chars[j]);
        j = j + 1;
    }
    (j, text)
}

fn token(kind: TokenKind, text: String, start: usize, end: usize) -> (t: Token)
    ensures
        t.kind == kind,
        t.start == start,
        t.end == end,
        t.text@ == text@,
        !t.nested,
        !t.newline,
{
    Token { kind, text, nested: false, newline: false, start, end }
}

/// Where the text starts: after a byte-order mark, if there is one.
pub open spec fn first_char(s: Seq<char>) -> int {
    if s.len() > 0 && s[0] == '\u{feff}' {
        1
    } else {
        0
    }
}

/// Whether every whitespace token of `tokens` covers whitespace only.
pub open spec fn spaces_are_blank(tokens: Seq<Token>, chars: Seq<char>) -> bool {
    forall|k: int, m: int|
        0 <= k < tokens.len() && (#[trigger] tokens[k]).kind == TokenKind::Space && tokens[k].start <= m
            < tokens[k].end ==> is_space(#[trigger] chars[m])
}

/// Whether the text of every word token is its source characters read as a
/// word: escapes resolved and `~` a no-break space.
pub open spec fn words_read(tokens: Seq<Token>, chars: Seq<char>) -> bool {
    forall|k: int|
        0 <= k < tokens.len() && (#[trigger] tokens[k]).kind == TokenKind::Word ==> tokens[k].text@ == word_text(
            chars,
            tokens[k].start as int,
            tokens[k].end as int,
        )
}

/// No word the lexer reads holds a `~`: the text of every word token has each
/// source `~` as a no-break space.
pub proof fn law_word_tokens_hold_no_tilde(tokens: Seq<Token>, chars: Seq<char>)
    requires
        words_read(tokens, chars),
    ensures
        forall|k: int|
            0 <= k < tokens.len() && (#[trigger] tokens[k]).kind == TokenKind::Word ==> !tokens[k].text@.contains('~'),
{
    assert forall|k: int|
        0 <= k < tokens.len() && (#[trigger] tokens[k]).kind == TokenKind::Word implies !tokens[k].text@.contains('~') by {
        law_a_word_holds_no_tilde(chars, tokens[k].start as int, tokens[k].end as int);
    }
}

/// Tokens that tile `first..n` cover each character of it from token `k` on,
/// where `k` starts no later than it.
proof fn lemma_tiles_cover_from(tokens: Seq<Token>, first: int, n: int, m: int, k: int)
    requires
        tiles(tokens, first, n),
        0 <= k < tokens.len(),
        tokens[k].start <= m < n,
    ensures
        exists|j: int| 0 <= j < tokens.len() && (#[trigger] tokens[j]).start <= m < tokens[j].end,
    decreases tokens.len() - k,
{
    if m < tokens[k].end {
        assert(tokens[k].start <= m < tokens[k].end);
    } else if k + 1 < tokens.len() {
        assert(tokens[k + 1].start == tokens[k].end);
        lemma_tiles_cover_from(tokens, first, n, m, k + 1);
    } else {
        assert(tokens.last() == tokens[k]);
    }
}

/// Tokens that tile `first..n` cover each character of it.
pub proof fn lemma_tiles_cover(tokens: Seq<Token>, first: int, n: int, m: int)
    requires
        tiles(tokens, first, n),
        first <= m < n,
    ensures
        exists|k: int| 0 <= k < tokens.len() && (#[trigger] tokens[k]).start <= m < tokens[k].end,
{
    lemma_tiles_cover_from(tokens, first, n, m, 0);
}

/// The tokens of a source text.
pub fn lex(source: &SourceText) -> (tokens: Vec<Token>)
    ensures
        tiles(tokens@, first_char(source.chars@), source.chars@.len() as int),
        spaces_are_blank(tokens@, source.chars@),
        words_read(tokens@, source.chars@),
{
    let chars = &source.chars;
    let n = chars.len();
    let first: usize = if n > 0 && chars[0] == '\u{feff}' {
        1
    } else {
        0
    };
    let mut tokens: Vec<Token> = Vec::new();
    let mut i = first;
    while i < n
        invariant
            n == chars@.len(),
            first == first_char(chars@),
            first <= i <= n,
            tiles(tokens@, first as int, i as int),
            spaces_are_blank(tokens@, chars@),
            words_read(tokens@, chars@),
        decreases n - i,
    {
        let c = chars[i];
        let t: Token = if is_space_char(c) {
            let (j, newline) = scan_space(chars, i);
            Token { kind: TokenKind::Space, text: String::new(), nested: false, newline, start: i, end: j }
        } else if c == '|' {
            token(TokenKind::Pipe, String::new(), i, i + 1)
        } else if at_double_slash(chars, i) {
            token(TokenKind::OptBreak, String::new(), i, i + 2)
        } else if c == '\\' {
            if at_escape(chars, i) {
                let (j, text) = scan_word(chars, i);
                token(TokenKind::Word, text, i, j)
            } else if i + 1 < n && chars[i + 1] == '*' {
                token(TokenKind::MilestoneEnd, String::new(), i, i + 2)
            } else if i + 1 < n && is_name_char(chars[i + 1]) {
                let (j, name) = scan_name(chars, i + 1);
                if j < n && chars[j] == '*' {
                    token(TokenKind::EndMarker, name, i, j + 1)
                } else {
                    token(TokenKind::Marker, name, i, j)
                }
            } else if i + 1 < n && i + 2 < n && chars[i + 1] == '+' && is_name_char(chars[i + 2]) {
                let (j, name) = scan_name(chars, i + 2);
                let kind = if j < n && chars[j] == '*' {
                    TokenKind::EndMarker
                } else {
                    TokenKind::Marker
                };
                let end = if kind == TokenKind::EndMarker {
                    j + 1
                } else {
                    j
                };
                Token { kind, text: name, nested: true, newline: false, start: i, end }
            } else {
                token(TokenKind::Stray, String::new(), i, i + 1)
            }
        } else {
            let (j, text) = scan_word(chars, i);
            token(TokenKind::Word, text, i, j)
        };
        let ghost before = tokens@;
        let next = t.end;
        tokens.push(t);
        proof {
            assert forall|k: int| 0 < k < tokens@.len() implies #[trigger] tokens@[k].start
                == tokens@[k - 1].end by {
                if k < before.len() {
                    assert(tokens@[k] == before[k]);
                    assert(tokens@[k - 1] == before[k - 1]);
                }
            }
            assert forall|k: int| 0 <= k < tokens@.len() implies #[trigger] tokens@[k].start
                < tokens@[k].end by {
                if k < before.len() {
                    assert(tokens@[k] == before[k]);
                }
            }
            assert forall|k: int| 0 <= k < tokens@.len() implies #[trigger] tokens@[k].end
                <= next by {
                if k < before.len() {
                    assert(tokens@[k] == before[k]);
                }
            }
            assert forall|k: int|
                0 <= k < tokens@.len() && (#[trigger] tokens@[k]).kind == TokenKind::Word implies tokens@[k].text@
                    == word_text(chars@, tokens@[k].start as int, tokens@[k].end as int) by {
                if k < before.len() {
                    assert(tokens@[k] == before[k]);
                }
            }
            assert forall|k: int, m: int|
                0 <= k < tokens@.len() && (#[trigger] tokens@[k]).kind == TokenKind::Space && tokens@[k].start <= m
                    < tokens@[k].end implies is_space(#[trigger] chars@[m]) by {
                if k < before.len() {
                    assert(tokens@[k] == before[k]);
                }
            }
        }
        i = next;
    }
    tokens
}

} // verus!
