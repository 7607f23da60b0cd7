//! A USFM toolchain: the document tree, the parser that builds it, the
//! diagnostics it reports, and the writers that turn it back into text.

pub mod span;
pub mod source;
pub mod strings;
pub mod book;
pub mod style;
pub mod number;
pub mod ast;
pub mod cursor;
pub mod descendants;
pub mod diagnostics;
pub mod sheet;
pub mod lexer;
pub mod container;
pub mod parser;
pub mod verse_ends;
pub mod span_check;
pub mod codegen;
pub mod eq;
pub mod fold;
pub mod html;
pub mod serialize_html;
pub mod semantic;
pub mod actions;
pub mod symbols;
pub mod convert;
pub mod completion;
pub mod text;
pub mod locate;
pub mod hover;
pub mod format;
pub mod json;
pub mod pipeline;
pub mod cli;
pub mod test_fixtures;

use std::sync::Arc;
use vstd::prelude::*;
use crate::diagnostics::{Diagnostic, ParseResult};
use crate::parser::{has_content, parsed_document, repairs_ok, source_span, Parser};
use crate::sheet::default_stylesheet;
use crate::source::byte_len;
use crate::semantic::{analyze, document_findings, findings_of, severities_match};
use crate::style::StyleSheet;

verus! {

/// `sorted` with `d` placed after every diagnostic that starts no later
/// than it: one step of a stable sort by start.
pub open spec fn insert_by_start(sorted: Seq<Diagnostic>, d: Diagnostic) -> Seq<Diagnostic>
    decreases sorted.len(),
{
    if sorted.len() == 0 {
        seq![d]
    } else if sorted.last().span.start <= d.span.start {
        sorted.push(d)
    } else {
        insert_by_start(sorted.drop_last(), d).push(sorted.last())
    }
}

/// A list sorted by where each diagnostic starts, keeping the order of those
/// that start at the same offset.
pub open spec fn sort_by_start(list: Seq<Diagnostic>) -> Seq<Diagnostic>
    decreases list.len(),
{
    if list.len() == 0 {
        seq![]
    } else {
        insert_by_start(sort_by_start(list.drop_last()), list.last())
    }
}

/// Whether a list is in order of where each diagnostic starts.
pub open spec fn sorted_by_start(list: Seq<Diagnostic>) -> bool {
    forall|i: int, j: int| 0 <= i <= j < list.len() ==> list[i].span.start <= list[j].span.start
}

/// Placing `d` at `j`, after everything that starts no later than it and
/// before the rest, is the step of [`insert_by_start`].
proof fn lemma_insert_at(sorted: Seq<Diagnostic>, d: Diagnostic, j: int)
    requires
        0 <= j <= sorted.len(),
        forall|i: int| j <= i < sorted.len() ==> sorted[i].span.start > d.span.start,
        j == 0 || sorted[j - 1].span.start <= d.span.start,
    ensures
        insert_by_start(sorted, d) == sorted.take(j).push(d) + sorted.skip(j),
    decreases sorted.len(),
{
    if sorted.len() == j {
        assert(sorted.take(j) =~= sorted);
        assert(sorted.take(j).push(d) + sorted.skip(j) =~= sorted.push(d));
    } else {
        let shorter = sorted.drop_last();
        lemma_insert_at(shorter, d, j);
        assert(shorter.take(j) =~= sorted.take(j));
        assert(sorted.take(j).push(d) + sorted.skip(j) =~= (shorter.take(j).push(d) + shorter.skip(
            j,
        )).push(sorted.last()));
    }
}

/// Placing a diagnostic into a sorted list keeps it sorted.
proof fn lemma_insert_sorted(sorted: Seq<Diagnostic>, d: Diagnostic)
    requires
        sorted_by_start(sorted),
    ensures
        sorted_by_start(insert_by_start(sorted, d)),
        insert_by_start(sorted, d).to_multiset() =~= sorted.to_multiset().insert(d),
    decreases sorted.len(),
{
    broadcast use vstd::seq_lib::group_to_multiset_ensures;
    if sorted.len() == 0 {
        assert(seq![d] =~= Seq::<Diagnostic>::empty().push(d));
    } else if sorted.last().span.start <= d.span.start {
    } else {
        let shorter = sorted.drop_last();
        lemma_insert_sorted(shorter, d);
        let inserted = insert_by_start(shorter, d);
        assert(sorted =~= shorter.push(sorted.last()));
        assert forall|x: Diagnostic| inserted.contains(x) implies x.span.start <= sorted.last().span.start by {
            assert(inserted.to_multiset().count(x) > 0);
            if x != d {
                assert(shorter.to_multiset().count(x) > 0);
                let k = choose|k: int| 0 <= k < shorter.len() && shorter[k] == x;
                assert(sorted[k] == x);
            }
        }
        let result = inserted.push(sorted.last());
        assert forall|i: int, j: int| 0 <= i <= j < result.len() implies result[i].span.start
            <= result[j].span.start by {
            if j == result.len() - 1 && i < j {
                assert(inserted.contains(result[i]));
            }
        }
    }
}

/// Sorting by start gives a sorted list holding the same diagnostics.
pub proof fn law_sorted_diagnostics_are_in_order(list: Seq<Diagnostic>)
    ensures
        sorted_by_start(sort_by_start(list)),
        sort_by_start(list).to_multiset() =~= list.to_multiset(),
    decreases list.len(),
{
    broadcast use vstd::seq_lib::group_to_multiset_ensures;
    if list.len() > 0 {
        law_sorted_diagnostics_are_in_order(list.drop_last());
        lemma_insert_sorted(sort_by_start(list.drop_last()), list.last());
        assert(list =~= list.drop_last().push(list.last()));
    }
}

/// Sort diagnostics by where they start, stably.
fn sort_diagnostics(list: Vec<Diagnostic>) -> (sorted: Vec<Diagnostic>)
    ensures
        sorted@ == sort_by_start(list@),
{
    let ghost all = list@;
    assert(all.len() == list.len());
    let mut rest = list;
    let mut sorted: Vec<Diagnostic> = Vec::new();
    let mut k: usize = 0;
    assert(all.take(0) =~= Seq::<Diagnostic>::empty());
    while rest.len() > 0
        invariant
            all.len() <= usize::MAX,
            k + rest@.len() == all.len(),
            rest@ == all.skip(k as int),
            sorted@ == sort_by_start(all.take(k as int)),
        decreases rest@.len(),
    {
        let d = rest.remove(0);
        let mut j = sorted.len();
        while j > 0 && sorted[j - 1].span.start > d.span.start
            invariant
                j <= sorted@.len(),
                forall|i: int| j <= i < sorted@.len() ==> sorted@[i].span.start > d.span.start,
            decreases j,
        {
            j = j - 1;
        }
        proof {
            lemma_insert_at(sorted@, d, j as int);
            assert(all.take(k + 1).drop_last() =~= all.take(k as int));
            assert(all.take(k + 1).last() == d);
        }
        let ghost before = sorted@;
        sorted.insert(j, d);
        assert(sorted@ =~= before.take(j as int).push(d) + before.skip(j as int));
        k = k + 1;
        assert(rest@ =~= all.skip(k as int));
    }
    assert(all.take(k as int) =~= all);
    sorted
}

/// The parser's diagnostics followed by those of the checks over the finished
/// tree, sorted by where they start; where two start at the same offset the
/// parser's comes first.
pub open spec fn union_of(repairs: Seq<Diagnostic>, findings: Seq<Diagnostic>) -> Seq<Diagnostic> {
    sort_by_start(repairs + findings)
}

/// Parse with chapter and verse end milestones inserted or not, and check
/// the finished tree: the diagnostics are the parser's repairs and the
/// checks' findings together, sorted by where they start (stably, the
/// parser's first).
pub fn parse_with_options(source: &str, style_sheet: &Arc<StyleSheet>, insert_end_milestones: bool) -> (result: ParseResult)
    ensures
        parsed_document(source@, **style_sheet, result.document),
        result.document.span == source_span(source@),
        has_content(source@) ==> result.document.blocks@.len() > 0 || result.diagnostics@.len() > 0,
        exists|repairs: Seq<Diagnostic>, findings: Seq<Diagnostic>|
            {
                &&& repairs_ok(repairs, byte_len(source@))
                &&& findings_of(findings) == document_findings(result.document)
                &&& severities_match(findings)
                &&& result.diagnostics@ == union_of(repairs, findings)
                &&& source@.len() == 0 && style_sheet.rules@.len() < 0x7fff_ffff ==> repairs.len() == 0
            },
        source@.len() == 0 && style_sheet.rules@.len() < 0x7fff_ffff ==> result.document.blocks@.len() == 0,
{
    let parsed_result = Parser::new(source).parse_with_options(style_sheet, insert_end_milestones);
    let ParseResult { document, diagnostics } = parsed_result;
    let ghost repairs = diagnostics@;
    let findings = analyze(&document);
    let ghost found = findings@;
    let mut all = diagnostics;
    let mut extra = findings;
    all.append(&mut extra);
    let sorted = sort_diagnostics(all);
    let result = ParseResult { document, diagnostics: sorted };
    assert(result.diagnostics@ == union_of(repairs, found));
    proof {
        broadcast use vstd::seq_lib::group_to_multiset_ensures;
        law_sorted_diagnostics_are_in_order(repairs + found);
        assert(result.diagnostics@.to_multiset().len() == (repairs + found).to_multiset().len());
    }
    result
}

/// Parse with a caller's stylesheet, ends inserted: [`parse_with_options`].
pub fn parse_with(source: &str, style_sheet: &Arc<StyleSheet>) -> (result: ParseResult)
    ensures
        parsed_document(source@, **style_sheet, result.document),
        result.document.span == source_span(source@),
        has_content(source@) ==> result.document.blocks@.len() > 0 || result.diagnostics@.len() > 0,
        exists|repairs: Seq<Diagnostic>, findings: Seq<Diagnostic>|
            {
                &&& repairs_ok(repairs, byte_len(source@))
                &&& findings_of(findings) == document_findings(result.document)
                &&& severities_match(findings)
                &&& result.diagnostics@ == union_of(repairs, findings)
                &&& source@.len() == 0 && style_sheet.rules@.len() < 0x7fff_ffff ==> repairs.len() == 0
            },
        source@.len() == 0 && style_sheet.rules@.len() < 0x7fff_ffff ==> result.document.blocks@.len() == 0,
{
    parse_with_options(source, style_sheet, true)
}

/// Parse with the default stylesheet. Parsing never fails: malformed input
/// is repaired and every repair is reported, together with the findings of
/// the checks over the finished tree.
pub fn parse(source: &str) -> (result: ParseResult)
    ensures
        exists|base: StyleSheet|
            {
                &&& base.rules@.len() > 0
                &&& (#[trigger] base.rules@[0]).marker@ == "p"@
                &&& parsed_document(source@, base, result.document)
            },
        result.document.span == source_span(source@),
        has_content(source@) ==> result.document.blocks@.len() > 0 || result.diagnostics@.len() > 0,
        exists|repairs: Seq<Diagnostic>, findings: Seq<Diagnostic>|
            {
                &&& repairs_ok(repairs, byte_len(source@))
                &&& findings_of(findings) == document_findings(result.document)
                &&& severities_match(findings)
                &&& result.diagnostics@ == union_of(repairs, findings)
                &&& source@.len() == 0 ==> repairs.len() == 0
            },
        source@.len() == 0 ==> result.document.blocks@.len() == 0,
{
    let sheet = default_stylesheet();
    proof {
        assert(crate::sheet::rule_views(sheet.rules@).len() == sheet.rules@.len());
        assert(crate::sheet::default_rules().len() < 0x7fff_ffff);
    }
    let result = parse_with(source, &sheet);
    assert(sheet.rules@[0].marker@ == "p"@);
    result
}

} // verus!
