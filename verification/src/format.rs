//! Formatting: a document written back out as its canonical USFM text, and
//! the rule for when a formatter must leave a file alone.
//!
//! The formatted text is the writer's text, ending with one newline unless
//! it is empty; the writer ends every line it writes, so nothing is added.
//! A parse that reported an Error was repaired, and the repaired tree is not
//! the author's text, so a file with an Error is not formatted over.
use vstd::prelude::*;
use crate::ast::Document;
use crate::codegen::{document_spelling, ends_line, law_text_ends_with_a_line_break, to_usfm_string};
use crate::diagnostics::{Diagnostic, Severity};
use crate::number::{decimal, push_decimal};
use crate::strings::push_str;

verus! {

/// The canonical USFM text of a document, ending with one newline unless it
/// is empty.
pub fn formatted(document: &Document) -> (text: String)
    requires
        document.wf(),
    ensures
        text@ == document_spelling(*document),
        ends_line(text@),
{
    proof {
        law_text_ends_with_a_line_break(*document);
    }
    to_usfm_string(document)
}

/// A document without blocks formats to nothing: the formatted text of an
/// empty source is empty, not a lone newline.
pub proof fn law_an_empty_document_formats_to_nothing(document: Document)
    requires
        document.blocks@.len() == 0,
    ensures
        document_spelling(document) == Seq::<char>::empty(),
{
}

/// How many of the diagnostics are Errors.
pub open spec fn error_count(diagnostics: Seq<Diagnostic>) -> nat
    decreases diagnostics.len(),
{
    if diagnostics.len() == 0 {
        0
    } else {
        error_count(diagnostics.drop_last()) + if diagnostics.last().severity == Severity::Error {
            1nat
        } else {
            0nat
        }
    }
}

/// The first Error among the diagnostics.
pub open spec fn first_error(diagnostics: Seq<Diagnostic>) -> Option<Diagnostic>
    decreases diagnostics.len(),
{
    if diagnostics.len() == 0 {
        None
    } else {
        match first_error(diagnostics.drop_last()) {
            Some(d) => Some(d),
            None => if diagnostics.last().severity == Severity::Error {
                Some(diagnostics.last())
            } else {
                None
            },
        }
    }
}

/// Why a file must not be formatted: the number of Errors and the first one's
/// message, in one sentence; `None` when there is no Error.
pub open spec fn refusal_spec(diagnostics: Seq<Diagnostic>) -> Option<Seq<char>> {
    let count = error_count(diagnostics);
    if count == 0 {
        None
    } else {
        Some(
            "usfm: not formatted — the file has "@ + decimal(count) + " error"@ + (if count == 1 {
                seq![]
            } else {
                "s"@
            }) + " and formatting it would write the repaired text over yours (first: "@
                + first_error(diagnostics)->0.message@
                + "). Fix them, or run `usfm format --write --force`."@,
        )
    }
}

/// Why the document must not be formatted, as the sentence to show, or `None`
/// when it may be.
pub fn refusal(diagnostics: &Vec<Diagnostic>) -> (message: Option<String>)
    ensures
        match refusal_spec(diagnostics@) {
            Some(m) => message matches Some(t) && t@ == m,
            None => message is None,
        },
{
    let mut count: usize = 0;
    let mut first: Option<usize> = None;
    let mut k: usize = 0;
    while k < diagnostics.len()
        invariant
            k <= diagnostics@.len(),
            count == error_count(diagnostics@.take(k as int)),
            count <= k,
            match first {
                Some(i) => i < k && first_error(diagnostics@.take(k as int)) == Some(diagnostics@[i as int]),
                None => first_error(diagnostics@.take(k as int)) is None,
            },
        decreases diagnostics@.len() - k,
    {
        assert(diagnostics@.take(k + 1).drop_last() =~= diagnostics@.take(k as int));
        if diagnostics[k].severity == Severity::Error {
            count = count + 1;
            if first.is_none() {
                first = Some(k);
            }
        }
        k = k + 1;
    }
    assert(diagnostics@.take(diagnostics@.len() as int) =~= diagnostics@);
    if count == 0 {
        return None;
    }
    let index = match first {
        Some(i) => i,
        None => {
            proof {
                lemma_errors_have_a_first(diagnostics@);
            }
            return None;
        },
    };
    let mut text = String::new();
    push_str(&mut text, "usfm: not formatted — the file has ");
    push_decimal(&mut text, count);
    push_str(&mut text, " error");
    if count != 1 {
        push_str(&mut text, "s");
    }
    push_str(&mut text, " and formatting it would write the repaired text over yours (first: ");
    push_str(&mut text, diagnostics[index].message.as_str());
    push_str(&mut text, "). Fix them, or run `usfm format --write --force`.");
    assert(text@ =~= refusal_spec(diagnostics@)->0);
    Some(text)
}

/// A list with an Error has a first one.
proof fn lemma_errors_have_a_first(diagnostics: Seq<Diagnostic>)
    ensures
        error_count(diagnostics) > 0 ==> first_error(diagnostics) is Some,
    decreases diagnostics.len(),
{
    if diagnostics.len() > 0 {
        lemma_errors_have_a_first(diagnostics.drop_last());
    }
}

} // verus!
