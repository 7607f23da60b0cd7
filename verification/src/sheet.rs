//! The stylesheet the parser uses unless a caller supplies one: the markers
//! of USFM 3, each with its kind, its text type and whether it may nest.
use vstd::prelude::*;
use std::sync::Arc;
use crate::style::{StyleRule, StyleSheet, StyleType, TextType};

verus! {

/// A rule as plain values.
pub struct RuleView {
    pub marker: Seq<char>,
    pub name: Option<Seq<char>>,
    pub description: Option<Seq<char>>,
    pub style_type: StyleType,
    pub text_type: TextType,
    pub text_bits: u32,
    pub nest: bool,
    pub occurs_under: Seq<Seq<char>>,
}

pub open spec fn opt_text(o: Option<String>) -> Option<Seq<char>> {
    match o {
        Some(s) => Some(s@),
        None => None,
    }
}

/// A rule as plain values.
pub open spec fn rule_view(r: StyleRule) -> RuleView {
    RuleView {
        marker: r.marker@,
        name: opt_text(r.name),
        description: opt_text(r.description),
        style_type: r.style_type,
        text_type: r.text_type,
        text_bits: r.text_properties.bits,
        nest: r.nest,
        occurs_under: r.occurs_under@.map_values(|m: String| m@),
    }
}

/// A list of rules as plain values.
pub open spec fn rule_views(rules: Seq<StyleRule>) -> Seq<RuleView> {
    rules.map_values(|r: StyleRule| rule_view(r))
}

/// The texts of a list of string slices.
pub open spec fn texts(markers: Seq<&str>) -> Seq<Seq<char>> {
    markers.map_values(|m: &str| m@)
}

/// One rule of the default sheet: a marker and what the sheet says of it.
pub open spec fn rule_of(
    marker: Seq<char>,
    name: Option<Seq<char>>,
    style_type: StyleType,
    text_type: TextType,
    nest: bool,
    occurs_under: Seq<Seq<char>>,
) -> RuleView {
    RuleView { marker, name, description: None, style_type, text_type, text_bits: 0, nest, occurs_under }
}

/// A rule for each marker of `markers`, all of one kind, none named.
pub open spec fn group(
    markers: Seq<Seq<char>>,
    style_type: StyleType,
    text_type: TextType,
    nest: bool,
    occurs_under: Seq<Seq<char>>,
) -> Seq<RuleView> {
    Seq::new(markers.len(), |i: int| rule_of(markers[i], None, style_type, text_type, nest, occurs_under))
}

/// Append one rule with the name the sheet gives it.
fn push_named(
    rules: &mut Vec<StyleRule>,
    marker: &str,
    name: &str,
    style_type: StyleType,
    text_type: TextType,
    nest: bool,
)
    ensures
        final(rules)@.len() == old(rules)@.len() + 1,
        forall|i: int| 0 <= i < old(rules)@.len() ==> final(rules)@[i] == old(rules)@[i],
        rule_views(final(rules)@) == rule_views(old(rules)@).push(
            rule_of(marker@, Some(name@), style_type, text_type, nest, seq![]),
        ),
{
    let mut rule = StyleRule::bare(marker, style_type, text_type);
    rule.nest = nest;
    rule.name = Some(name.to_owned());
    let ghost before = rules@;
    rules.push(rule);
    assert(rule.occurs_under@.map_values(|m: String| m@) =~= Seq::<Seq<char>>::empty());
    assert(rule_views(rules@) =~= rule_views(before).push(
        rule_of(marker@, Some(name@), style_type, text_type, nest, seq![]),
    ));
}

/// Append a rule for each marker of `markers`, all of one kind.
pub(crate) fn push_rules(
    rules: &mut Vec<StyleRule>,
    markers: &[&str],
    style_type: StyleType,
    text_type: TextType,
    nest: bool,
)
    ensures
        final(rules)@.len() == old(rules)@.len() + markers@.len(),
        forall|i: int| 0 <= i < old(rules)@.len() ==> final(rules)@[i] == old(rules)@[i],
        forall|i: int|
            0 <= i < markers@.len() ==> {
                let r = #[trigger] final(rules)@[old(rules)@.len() + i];
                &&& r.marker@ == markers@[i]@
                &&& r.style_type == style_type
                &&& r.text_type == text_type
                &&& r.nest == nest
            },
        rule_views(final(rules)@) == rule_views(old(rules)@) + group(texts(markers@), style_type, text_type, nest, seq![]),
{
    let mut i: usize = 0;
    let ghost start = old(rules)@;
    while i < markers.len()
        invariant
            i <= markers@.len(),
            rules@.len() == start.len() + i,
            forall|k: int| 0 <= k < start.len() ==> rules@[k] == start[k],
            forall|k: int|
                0 <= k < i ==> {
                    let r = #[trigger] rules@[start.len() + k];
                    &&& r.marker@ == markers@[k]@
                    &&& r.style_type == style_type
                    &&& r.text_type == text_type
                    &&& r.nest == nest
                },
            rule_views(rules@) == rule_views(start) + group(texts(markers@.take(i as int)), style_type, text_type, nest, seq![]),
        decreases markers@.len() - i,
    {
        let mut rule = StyleRule::bare(markers[i], style_type, text_type);
        rule.nest = nest;
        let ghost before = rules@;
        rules.push(rule);
        proof {
            assert(rule.occurs_under@.map_values(|m: String| m@) =~= Seq::<Seq<char>>::empty());
            assert(texts(markers@.take(i + 1)) =~= texts(markers@.take(i as int)).push(markers@[i as int]@));
            assert(rule_views(rules@) =~= rule_views(before).push(rule_view(rule)));
            assert(rule_view(rule) == rule_of(markers@[i as int]@, None, style_type, text_type, nest, seq![]));
            assert(group(texts(markers@.take(i + 1)), style_type, text_type, nest, seq![]) =~= group(
                texts(markers@.take(i as int)), style_type, text_type, nest, seq![]).push(rule_view(rule)));
            assert(rule_views(rules@) =~= rule_views(start) + group(texts(markers@.take(i + 1)), style_type, text_type, nest, seq![]));
        }
        i = i + 1;
    }
    assert(markers@.take(markers@.len() as int) =~= markers@);
}

/// Append a character style of note text for each marker of `markers`,
/// each occurring under the notes `under` only.
fn push_under(rules: &mut Vec<StyleRule>, markers: &[&str], under: &[&str])
    ensures
        final(rules)@.len() == old(rules)@.len() + markers@.len(),
        forall|i: int| 0 <= i < old(rules)@.len() ==> final(rules)@[i] == old(rules)@[i],
        rule_views(final(rules)@) == rule_views(old(rules)@) + group(
            texts(markers@),
            StyleType::Character,
            TextType::NoteText,
            false,
            texts(under@),
        ),
{
    let mut i: usize = 0;
    let ghost start = old(rules)@;
    while i < markers.len()
        invariant
            i <= markers@.len(),
            rules@.len() == start.len() + i,
            forall|k: int| 0 <= k < start.len() ==> rules@[k] == start[k],
            rule_views(rules@) == rule_views(start) + group(texts(markers@.take(i as int)), StyleType::Character, TextType::NoteText, false, texts(under@)),
        decreases markers@.len() - i,
    {
        let mut rule = StyleRule::bare(markers[i], StyleType::Character, TextType::NoteText);
        let mut j: usize = 0;
        while j < under.len()
            invariant
                j <= under@.len(),
                i < markers@.len(),
                rule.marker@ == markers@[i as int]@,
                rule.name is None,
                rule.description is None,
                rule.style_type == StyleType::Character,
                rule.text_type == TextType::NoteText,
                rule.text_properties.bits == 0,
                !rule.nest,
                rule.occurs_under@.map_values(|m: String| m@) == texts(under@.take(j as int)),
            decreases under@.len() - j,
        {
            let ghost b = rule.occurs_under@;
            rule.occurs_under.push(under[j].to_owned());
            proof {
                assert(rule.occurs_under@.map_values(|m: String| m@) =~= b.map_values(|m: String| m@).push(under@[j as int]@));
                assert(texts(under@.take(j + 1)) =~= texts(under@.take(j as int)).push(under@[j as int]@));
            }
            j = j + 1;
        }
        assert(under@.take(under@.len() as int) =~= under@);
        let ghost before = rules@;
        rules.push(rule);
        proof {
            assert(texts(markers@.take(i + 1)) =~= texts(markers@.take(i as int)).push(markers@[i as int]@));
            assert(rule_views(rules@) =~= rule_views(before).push(rule_view(rule)));
            assert(rule_view(rule) == rule_of(markers@[i as int]@, None, StyleType::Character, TextType::NoteText, false, texts(under@)));
            assert(group(texts(markers@.take(i + 1)), StyleType::Character, TextType::NoteText, false, texts(under@)) =~= group(
                texts(markers@.take(i as int)), StyleType::Character, TextType::NoteText, false, texts(under@)).push(rule_view(rule)));
            assert(rule_views(rules@) =~= rule_views(start) + group(texts(markers@.take(i + 1)), StyleType::Character, TextType::NoteText, false, texts(under@)));
        }
        i = i + 1;
    }
    assert(markers@.take(markers@.len() as int) =~= markers@);
}

/// The rules of the default sheet, in order.
pub open spec fn default_rules() -> Seq<RuleView> {
    seq![RuleView { marker: "p"@, name: Some("p - Paragraph - Normal - First Line Indent"@), description: Some("Paragraph text, with first line indent"@), style_type: StyleType::Paragraph, text_type: TextType::VerseText, text_bits: 0, nest: false, occurs_under: seq![] }]
        + group(seq!["m"@, "mi"@, "pi"@, "pi1"@, "pi2"@, "pi3"@, "pc"@, "pr"@, "pm"@, "pmo"@, "pmc"@, "pmr"@, "nb"@, "cls"@, "ph"@, "ph1"@, "ph2"@, "ph3"@, "q"@, "q1"@, "q2"@, "q3"@, "q4"@, "qc"@, "qr"@, "qm"@, "qm1"@, "qm2"@, "qm3"@, "qd"@, "li"@, "li1"@, "li2"@, "li3"@, "li4"@, "lim"@, "lim1"@, "lim2"@, "lf"@, "b"@, "d"@, "po"@], StyleType::Paragraph, TextType::VerseText, false, seq![])
        + group(seq!["s"@, "s1"@, "s2"@, "s3"@, "s4"@, "s5"@, "ms"@, "ms1"@, "ms2"@, "ms3"@, "mr"@, "sr"@, "r"@, "sd"@, "sd1"@, "sd2"@, "sd3"@, "sd4"@, "sp"@, "qa"@, "is"@, "is1"@, "is2"@], StyleType::Paragraph, TextType::Section, false, seq![])
        + group(seq!["mt"@, "mt1"@, "mt2"@, "mt3"@, "mt4"@, "mte"@, "mte1"@, "mte2"@, "imt"@, "imt1"@, "imt2"@, "imte"@], StyleType::Paragraph, TextType::Title, false, seq![])
        + group(seq!["id"@, "usfm"@, "ide"@, "sts"@, "rem"@, "h"@, "h1"@, "h2"@, "h3"@, "toc1"@, "toc2"@, "toc3"@, "toca1"@, "toca2"@, "toca3"@, "ipi"@, "ipq"@, "ipr"@, "ipc"@, "im"@, "imi"@, "imq"@, "iq"@, "iq1"@, "iq2"@, "iq3"@, "ib"@, "ili"@, "ili1"@, "ili2"@, "iot"@, "io"@, "io1"@, "io2"@, "io3"@, "ie"@, "iex"@, "lit"@, "cl"@, "cd"@, "restore"@, "cp"@, "tr"@, "esb"@, "esbe"@, "periph"@], StyleType::Paragraph, TextType::Other, false, seq![])
        + group(seq!["c"@], StyleType::Paragraph, TextType::ChapterNumber, false, seq![])
        + group(seq!["v"@], StyleType::Character, TextType::VerseNumber, false, seq![])
        + group(seq!["th1"@, "th2"@, "th3"@, "th4"@, "th5"@, "thc1"@, "thc2"@, "thc3"@, "thc4"@, "thc5"@, "thr1"@, "thr2"@, "thr3"@, "thr4"@, "thr5"@, "tc1"@, "tc2"@, "tc3"@, "tc4"@, "tc5"@, "tcc1"@, "tcc2"@, "tcc3"@, "tcc4"@, "tcc5"@, "tcr1"@, "tcr2"@, "tcr3"@, "tcr4"@, "tcr5"@], StyleType::Character, TextType::VerseText, false, seq![])
        + group(seq!["add"@, "bk"@, "dc"@, "k"@, "nd"@, "ord"@, "pn"@, "png"@, "addpn"@, "qt"@, "sig"@, "sls"@, "tl"@, "wj"@, "em"@, "bd"@, "it"@, "bdit"@, "no"@, "sc"@, "sup"@, "wg"@, "wh"@, "wa"@, "rb"@, "pro"@, "jmp"@, "ndx"@, "rq"@, "lik"@, "liv"@, "litl"@, "qs"@, "qac"@, "ior"@, "flag"@, "ta"@, "wl"@], StyleType::Character, TextType::Other, true, seq![])
        + group(seq!["ca"@, "va"@, "vp"@, "fig"@, "iqt"@, "efm"@, "fm"@], StyleType::Character, TextType::Other, false, seq![])
        + group(seq!["fr"@, "ft"@, "fq"@, "fqa"@, "fk"@, "fl"@, "fp"@, "fv"@, "fw"@, "fdc"@, "fs"@], StyleType::Character, TextType::NoteText, false, seq!["f"@, "fe"@, "ef"@])
        + group(seq!["xo"@, "xk"@, "xq"@, "xta"@, "xot"@, "xnt"@, "xdc"@, "xop"@], StyleType::Character, TextType::NoteText, false, seq!["x"@, "ex"@])
        + group(seq!["cat"@], StyleType::Character, TextType::NoteText, false, seq![])
        + group(seq!["xt"@, "ref"@], StyleType::Character, TextType::NoteText, true, seq![])
        + seq![rule_of("ip"@, Some("ip - Introduction - Paragraph"@), StyleType::Paragraph, TextType::Other, false, seq![])]
        + seq![rule_of("w"@, Some("w - Special Text - Wordlist/Glossary/Dictionary Entry"@), StyleType::Character, TextType::Other, true, seq![])]
        + seq![rule_of("f"@, Some("f - Footnote"@), StyleType::Note, TextType::NoteText, false, seq![])]
        + seq![rule_of("x"@, Some("x - Cross Reference"@), StyleType::Note, TextType::NoteText, false, seq![])]
        + group(seq!["fe"@, "ef"@, "ex"@], StyleType::Note, TextType::NoteText, false, seq![])
        + group(seq!["qt-s"@, "qt-e"@, "qt1-s"@, "qt1-e"@, "qt2-s"@, "qt2-e"@, "qt3-s"@, "qt3-e"@, "qt4-s"@, "qt4-e"@, "qt5-s"@, "qt5-e"@, "ts-s"@, "ts-e"@], StyleType::Milestone, TextType::Other, false, seq![])
}

/// The default stylesheet. Its first rule is `\p`, the paragraph the parser
/// opens for content that stands outside any paragraph.
pub fn default_stylesheet() -> (sheet: Arc<StyleSheet>)
    ensures
        sheet.rules@.len() > 0,
        sheet.rules@[0].marker@ == "p"@,
        sheet.rules@[0].style_type == StyleType::Paragraph,
        rule_views(sheet.rules@) == default_rules(),
{
    let mut rules: Vec<StyleRule> = Vec::new();
    let mut p = StyleRule::bare("p", StyleType::Paragraph, TextType::VerseText);
    p.name = Some("p - Paragraph - Normal - First Line Indent".to_owned());
    p.description = Some("Paragraph text, with first line indent".to_owned());
    rules.push(p);
    assert(p.occurs_under@.map_values(|m: String| m@) =~= Seq::<Seq<char>>::empty());
    assert(rule_views(rules@) =~= seq![RuleView { marker: "p"@, name: Some("p - Paragraph - Normal - First Line Indent"@), description: Some("Paragraph text, with first line indent"@), style_type: StyleType::Paragraph, text_type: TextType::VerseText, text_bits: 0, nest: false, occurs_under: seq![] }]);
    push_rules(
        &mut rules,
        &[
            "m", "mi", "pi", "pi1", "pi2", "pi3", "pc", "pr", "pm", "pmo", "pmc", "pmr", "nb",
            "cls", "ph", "ph1", "ph2", "ph3", "q", "q1", "q2", "q3", "q4", "qc", "qr", "qm",
            "qm1", "qm2", "qm3", "qd", "li", "li1", "li2", "li3", "li4", "lim", "lim1", "lim2",
            "lf", "b", "d", "po",
        ],
        StyleType::Paragraph,
        TextType::VerseText,
        false,
    );
    assert(rule_views(rules@) =~= seq![RuleView { marker: "p"@, name: Some("p - Paragraph - Normal - First Line Indent"@), description: Some("Paragraph text, with first line indent"@), style_type: StyleType::Paragraph, text_type: TextType::VerseText, text_bits: 0, nest: false, occurs_under: seq![] }] + group(seq!["m"@, "mi"@, "pi"@, "pi1"@, "pi2"@, "pi3"@, "pc"@, "pr"@, "pm"@, "pmo"@, "pmc"@, "pmr"@, "nb"@, "cls"@, "ph"@, "ph1"@, "ph2"@, "ph3"@, "q"@, "q1"@, "q2"@, "q3"@, "q4"@, "qc"@, "qr"@, "qm"@, "qm1"@, "qm2"@, "qm3"@, "qd"@, "li"@, "li1"@, "li2"@, "li3"@, "li4"@, "lim"@, "lim1"@, "lim2"@, "lf"@, "b"@, "d"@, "po"@], StyleType::Paragraph, TextType::VerseText, false, seq![]));
    push_rules(
        &mut rules,
        &[
            "s", "s1", "s2", "s3", "s4", "s5", "ms", "ms1", "ms2", "ms3", "mr", "sr", "r", "sd",
            "sd1", "sd2", "sd3", "sd4", "sp", "qa", "is", "is1", "is2",
        ],
        StyleType::Paragraph,
        TextType::Section,
        false,
    );
    assert(rule_views(rules@) =~= seq![RuleView { marker: "p"@, name: Some("p - Paragraph - Normal - First Line Indent"@), description: Some("Paragraph text, with first line indent"@), style_type: StyleType::Paragraph, text_type: TextType::VerseText, text_bits: 0, nest: false, occurs_under: seq![] }] + group(seq!["m"@, "mi"@, "pi"@, "pi1"@, "pi2"@, "pi3"@, "pc"@, "pr"@, "pm"@, "pmo"@, "pmc"@, "pmr"@, "nb"@, "cls"@, "ph"@, "ph1"@, "ph2"@, "ph3"@, "q"@, "q1"@, "q2"@, "q3"@, "q4"@, "qc"@, "qr"@, "qm"@, "qm1"@, "qm2"@, "qm3"@, "qd"@, "li"@, "li1"@, "li2"@, "li3"@, "li4"@, "lim"@, "lim1"@, "lim2"@, "lf"@, "b"@, "d"@, "po"@], StyleType::Paragraph, TextType::VerseText, false, seq![]) + group(seq!["s"@, "s1"@, "s2"@, "s3"@, "s4"@, "s5"@, "ms"@, "ms1"@, "ms2"@, "ms3"@, "mr"@, "sr"@, "r"@, "sd"@, "sd1"@, "sd2"@, "sd3"@, "sd4"@, "sp"@, "qa"@, "is"@, "is1"@, "is2"@], StyleType::Paragraph, TextType::Section, false, seq![]));
    push_rules(
        &mut rules,
        &["mt", "mt1", "mt2", "mt3", "mt4", "mte", "mte1", "mte2", "imt", "imt1", "imt2", "imte"],
        StyleType::Paragraph,
        TextType::Title,
        false,
    );
    assert(rule_views(rules@) =~= seq![RuleView { marker: "p"@, name: Some("p - Paragraph - Normal - First Line Indent"@), description: Some("Paragraph text, with first line indent"@), style_type: StyleType::Paragraph, text_type: TextType::VerseText, text_bits: 0, nest: false, occurs_under: seq![] }] + group(seq!["m"@, "mi"@, "pi"@, "pi1"@, "pi2"@, "pi3"@, "pc"@, "pr"@, "pm"@, "pmo"@, "pmc"@, "pmr"@, "nb"@, "cls"@, "ph"@, "ph1"@, "ph2"@, "ph3"@, "q"@, "q1"@, "q2"@, "q3"@, "q4"@, "qc"@, "qr"@, "qm"@, "qm1"@, "qm2"@, "qm3"@, "qd"@, "li"@, "li1"@, "li2"@, "li3"@, "li4"@, "lim"@, "lim1"@, "lim2"@, "lf"@, "b"@, "d"@, "po"@], StyleType::Paragraph, TextType::VerseText, false, seq![]) + group(seq!["s"@, "s1"@, "s2"@, "s3"@, "s4"@, "s5"@, "ms"@, "ms1"@, "ms2"@, "ms3"@, "mr"@, "sr"@, "r"@, "sd"@, "sd1"@, "sd2"@, "sd3"@, "sd4"@, "sp"@, "qa"@, "is"@, "is1"@, "is2"@], StyleType::Paragraph, TextType::Section, false, seq![]) + group(seq!["mt"@, "mt1"@, "mt2"@, "mt3"@, "mt4"@, "mte"@, "mte1"@, "mte2"@, "imt"@, "imt1"@, "imt2"@, "imte"@], StyleType::Paragraph, TextType::Title, false, seq![]));
    push_rules(
        &mut rules,
        &[
            "id", "usfm", "ide", "sts", "rem", "h", "h1", "h2", "h3", "toc1", "toc2", "toc3",
            "toca1", "toca2", "toca3", "ipi", "ipq", "ipr", "ipc", "im", "imi", "imq",
            "iq", "iq1", "iq2", "iq3", "ib", "ili", "ili1", "ili2", "iot", "io", "io1", "io2",
            "io3", "ie", "iex", "lit", "cl", "cd", "restore", "cp", "tr", "esb", "esbe",
            "periph",
        ],
        StyleType::Paragraph,
        TextType::Other,
        false,
    );
    assert(rule_views(rules@) =~= seq![RuleView { marker: "p"@, name: Some("p - Paragraph - Normal - First Line Indent"@), description: Some("Paragraph text, with first line indent"@), style_type: StyleType::Paragraph, text_type: TextType::VerseText, text_bits: 0, nest: false, occurs_under: seq![] }] + group(seq!["m"@, "mi"@, "pi"@, "pi1"@, "pi2"@, "pi3"@, "pc"@, "pr"@, "pm"@, "pmo"@, "pmc"@, "pmr"@, "nb"@, "cls"@, "ph"@, "ph1"@, "ph2"@, "ph3"@, "q"@, "q1"@, "q2"@, "q3"@, "q4"@, "qc"@, "qr"@, "qm"@, "qm1"@, "qm2"@, "qm3"@, "qd"@, "li"@, "li1"@, "li2"@, "li3"@, "li4"@, "lim"@, "lim1"@, "lim2"@, "lf"@, "b"@, "d"@, "po"@], StyleType::Paragraph, TextType::VerseText, false, seq![]) + group(seq!["s"@, "s1"@, "s2"@, "s3"@, "s4"@, "s5"@, "ms"@, "ms1"@, "ms2"@, "ms3"@, "mr"@, "sr"@, "r"@, "sd"@, "sd1"@, "sd2"@, "sd3"@, "sd4"@, "sp"@, "qa"@, "is"@, "is1"@, "is2"@], StyleType::Paragraph, TextType::Section, false, seq![]) + group(seq!["mt"@, "mt1"@, "mt2"@, "mt3"@, "mt4"@, "mte"@, "mte1"@, "mte2"@, "imt"@, "imt1"@, "imt2"@, "imte"@], StyleType::Paragraph, TextType::Title, false, seq![]) + group(seq!["id"@, "usfm"@, "ide"@, "sts"@, "rem"@, "h"@, "h1"@, "h2"@, "h3"@, "toc1"@, "toc2"@, "toc3"@, "toca1"@, "toca2"@, "toca3"@, "ipi"@, "ipq"@, "ipr"@, "ipc"@, "im"@, "imi"@, "imq"@, "iq"@, "iq1"@, "iq2"@, "iq3"@, "ib"@, "ili"@, "ili1"@, "ili2"@, "iot"@, "io"@, "io1"@, "io2"@, "io3"@, "ie"@, "iex"@, "lit"@, "cl"@, "cd"@, "restore"@, "cp"@, "tr"@, "esb"@, "esbe"@, "periph"@], StyleType::Paragraph, TextType::Other, false, seq![]));
    push_rules(&mut rules, &["c"], StyleType::Paragraph, TextType::ChapterNumber, false);
    assert(rule_views(rules@) =~= seq![RuleView { marker: "p"@, name: Some("p - Paragraph - Normal - First Line Indent"@), description: Some("Paragraph text, with first line indent"@), style_type: StyleType::Paragraph, text_type: TextType::VerseText, text_bits: 0, nest: false, occurs_under: seq![] }] + group(seq!["m"@, "mi"@, "pi"@, "pi1"@, "pi2"@, "pi3"@, "pc"@, "pr"@, "pm"@, "pmo"@, "pmc"@, "pmr"@, "nb"@, "cls"@, "ph"@, "ph1"@, "ph2"@, "ph3"@, "q"@, "q1"@, "q2"@, "q3"@, "q4"@, "qc"@, "qr"@, "qm"@, "qm1"@, "qm2"@, "qm3"@, "qd"@, "li"@, "li1"@, "li2"@, "li3"@, "li4"@, "lim"@, "lim1"@, "lim2"@, "lf"@, "b"@, "d"@, "po"@], StyleType::Paragraph, TextType::VerseText, false, seq![]) + group(seq!["s"@, "s1"@, "s2"@, "s3"@, "s4"@, "s5"@, "ms"@, "ms1"@, "ms2"@, "ms3"@, "mr"@, "sr"@, "r"@, "sd"@, "sd1"@, "sd2"@, "sd3"@, "sd4"@, "sp"@, "qa"@, "is"@, "is1"@, "is2"@], StyleType::Paragraph, TextType::Section, false, seq![]) + group(seq!["mt"@, "mt1"@, "mt2"@, "mt3"@, "mt4"@, "mte"@, "mte1"@, "mte2"@, "imt"@, "imt1"@, "imt2"@, "imte"@], StyleType::Paragraph, TextType::Title, false, seq![]) + group(seq!["id"@, "usfm"@, "ide"@, "sts"@, "rem"@, "h"@, "h1"@, "h2"@, "h3"@, "toc1"@, "toc2"@, "toc3"@, "toca1"@, "toca2"@, "toca3"@, "ipi"@, "ipq"@, "ipr"@, "ipc"@, "im"@, "imi"@, "imq"@, "iq"@, "iq1"@, "iq2"@, "iq3"@, "ib"@, "ili"@, "ili1"@, "ili2"@, "iot"@, "io"@, "io1"@, "io2"@, "io3"@, "ie"@, "iex"@, "lit"@, "cl"@, "cd"@, "restore"@, "cp"@, "tr"@, "esb"@, "esbe"@, "periph"@], StyleType::Paragraph, TextType::Other, false, seq![]) + group(seq!["c"@], StyleType::Paragraph, TextType::ChapterNumber, false, seq![]));
    push_rules(&mut rules, &["v"], StyleType::Character, TextType::VerseNumber, false);
    assert(rule_views(rules@) =~= seq![RuleView { marker: "p"@, name: Some("p - Paragraph - Normal - First Line Indent"@), description: Some("Paragraph text, with first line indent"@), style_type: StyleType::Paragraph, text_type: TextType::VerseText, text_bits: 0, nest: false, occurs_under: seq![] }] + group(seq!["m"@, "mi"@, "pi"@, "pi1"@, "pi2"@, "pi3"@, "pc"@, "pr"@, "pm"@, "pmo"@, "pmc"@, "pmr"@, "nb"@, "cls"@, "ph"@, "ph1"@, "ph2"@, "ph3"@, "q"@, "q1"@, "q2"@, "q3"@, "q4"@, "qc"@, "qr"@, "qm"@, "qm1"@, "qm2"@, "qm3"@, "qd"@, "li"@, "li1"@, "li2"@, "li3"@, "li4"@, "lim"@, "lim1"@, "lim2"@, "lf"@, "b"@, "d"@, "po"@], StyleType::Paragraph, TextType::VerseText, false, seq![]) + group(seq!["s"@, "s1"@, "s2"@, "s3"@, "s4"@, "s5"@, "ms"@, "ms1"@, "ms2"@, "ms3"@, "mr"@, "sr"@, "r"@, "sd"@, "sd1"@, "sd2"@, "sd3"@, "sd4"@, "sp"@, "qa"@, "is"@, "is1"@, "is2"@], StyleType::Paragraph, TextType::Section, false, seq![]) + group(seq!["mt"@, "mt1"@, "mt2"@, "mt3"@, "mt4"@, "mte"@, "mte1"@, "mte2"@, "imt"@, "imt1"@, "imt2"@, "imte"@], StyleType::Paragraph, TextType::Title, false, seq![]) + group(seq!["id"@, "usfm"@, "ide"@, "sts"@, "rem"@, "h"@, "h1"@, "h2"@, "h3"@, "toc1"@, "toc2"@, "toc3"@, "toca1"@, "toca2"@, "toca3"@, "ipi"@, "ipq"@, "ipr"@, "ipc"@, "im"@, "imi"@, "imq"@, "iq"@, "iq1"@, "iq2"@, "iq3"@, "ib"@, "ili"@, "ili1"@, "ili2"@, "iot"@, "io"@, "io1"@, "io2"@, "io3"@, "ie"@, "iex"@, "lit"@, "cl"@, "cd"@, "restore"@, "cp"@, "tr"@, "esb"@, "esbe"@, "periph"@], StyleType::Paragraph, TextType::Other, false, seq![]) + group(seq!["c"@], StyleType::Paragraph, TextType::ChapterNumber, false, seq![]) + group(seq!["v"@], StyleType::Character, TextType::VerseNumber, false, seq![]));
    push_rules(
        &mut rules,
        &[
            "th1", "th2", "th3", "th4", "th5", "thc1", "thc2", "thc3", "thc4", "thc5", "thr1",
            "thr2", "thr3", "thr4", "thr5", "tc1", "tc2", "tc3", "tc4", "tc5", "tcc1", "tcc2",
            "tcc3", "tcc4", "tcc5", "tcr1", "tcr2", "tcr3", "tcr4", "tcr5",
        ],
        StyleType::Character,
        TextType::VerseText,
        false,
    );
    assert(rule_views(rules@) =~= seq![RuleView { marker: "p"@, name: Some("p - Paragraph - Normal - First Line Indent"@), description: Some("Paragraph text, with first line indent"@), style_type: StyleType::Paragraph, text_type: TextType::VerseText, text_bits: 0, nest: false, occurs_under: seq![] }] + group(seq!["m"@, "mi"@, "pi"@, "pi1"@, "pi2"@, "pi3"@, "pc"@, "pr"@, "pm"@, "pmo"@, "pmc"@, "pmr"@, "nb"@, "cls"@, "ph"@, "ph1"@, "ph2"@, "ph3"@, "q"@, "q1"@, "q2"@, "q3"@, "q4"@, "qc"@, "qr"@, "qm"@, "qm1"@, "qm2"@, "qm3"@, "qd"@, "li"@, "li1"@, "li2"@, "li3"@, "li4"@, "lim"@, "lim1"@, "lim2"@, "lf"@, "b"@, "d"@, "po"@], StyleType::Paragraph, TextType::VerseText, false, seq![]) + group(seq!["s"@, "s1"@, "s2"@, "s3"@, "s4"@, "s5"@, "ms"@, "ms1"@, "ms2"@, "ms3"@, "mr"@, "sr"@, "r"@, "sd"@, "sd1"@, "sd2"@, "sd3"@, "sd4"@, "sp"@, "qa"@, "is"@, "is1"@, "is2"@], StyleType::Paragraph, TextType::Section, false, seq![]) + group(seq!["mt"@, "mt1"@, "mt2"@, "mt3"@, "mt4"@, "mte"@, "mte1"@, "mte2"@, "imt"@, "imt1"@, "imt2"@, "imte"@], StyleType::Paragraph, TextType::Title, false, seq![]) + group(seq!["id"@, "usfm"@, "ide"@, "sts"@, "rem"@, "h"@, "h1"@, "h2"@, "h3"@, "toc1"@, "toc2"@, "toc3"@, "toca1"@, "toca2"@, "toca3"@, "ipi"@, "ipq"@, "ipr"@, "ipc"@, "im"@, "imi"@, "imq"@, "iq"@, "iq1"@, "iq2"@, "iq3"@, "ib"@, "ili"@, "ili1"@, "ili2"@, "iot"@, "io"@, "io1"@, "io2"@, "io3"@, "ie"@, "iex"@, "lit"@, "cl"@, "cd"@, "restore"@, "cp"@, "tr"@, "esb"@, "esbe"@, "periph"@], StyleType::Paragraph, TextType::Other, false, seq![]) + group(seq!["c"@], StyleType::Paragraph, TextType::ChapterNumber, false, seq![]) + group(seq!["v"@], StyleType::Character, TextType::VerseNumber, false, seq![]) + group(seq!["th1"@, "th2"@, "th3"@, "th4"@, "th5"@, "thc1"@, "thc2"@, "thc3"@, "thc4"@, "thc5"@, "thr1"@, "thr2"@, "thr3"@, "thr4"@, "thr5"@, "tc1"@, "tc2"@, "tc3"@, "tc4"@, "tc5"@, "tcc1"@, "tcc2"@, "tcc3"@, "tcc4"@, "tcc5"@, "tcr1"@, "tcr2"@, "tcr3"@, "tcr4"@, "tcr5"@], StyleType::Character, TextType::VerseText, false, seq![]));
    push_rules(
        &mut rules,
        &[
            "add", "bk", "dc", "k", "nd", "ord", "pn", "png", "addpn", "qt", "sig", "sls", "tl",
            "wj", "em", "bd", "it", "bdit", "no", "sc", "sup", "wg", "wh", "wa", "rb",
            "pro", "jmp", "ndx", "rq", "lik", "liv", "litl", "qs", "qac", "ior", "flag", "ta", "wl",
        ],
        StyleType::Character,
        TextType::Other,
        true,
    );
    assert(rule_views(rules@) =~= seq![RuleView { marker: "p"@, name: Some("p - Paragraph - Normal - First Line Indent"@), description: Some("Paragraph text, with first line indent"@), style_type: StyleType::Paragraph, text_type: TextType::VerseText, text_bits: 0, nest: false, occurs_under: seq![] }] + group(seq!["m"@, "mi"@, "pi"@, "pi1"@, "pi2"@, "pi3"@, "pc"@, "pr"@, "pm"@, "pmo"@, "pmc"@, "pmr"@, "nb"@, "cls"@, "ph"@, "ph1"@, "ph2"@, "ph3"@, "q"@, "q1"@, "q2"@, "q3"@, "q4"@, "qc"@, "qr"@, "qm"@, "qm1"@, "qm2"@, "qm3"@, "qd"@, "li"@, "li1"@, "li2"@, "li3"@, "li4"@, "lim"@, "lim1"@, "lim2"@, "lf"@, "b"@, "d"@, "po"@], StyleType::Paragraph, TextType::VerseText, false, seq![]) + group(seq!["s"@, "s1"@, "s2"@, "s3"@, "s4"@, "s5"@, "ms"@, "ms1"@, "ms2"@, "ms3"@, "mr"@, "sr"@, "r"@, "sd"@, "sd1"@, "sd2"@, "sd3"@, "sd4"@, "sp"@, "qa"@, "is"@, "is1"@, "is2"@], StyleType::Paragraph, TextType::Section, false, seq![]) + group(seq!["mt"@, "mt1"@, "mt2"@, "mt3"@, "mt4"@, "mte"@, "mte1"@, "mte2"@, "imt"@, "imt1"@, "imt2"@, "imte"@], StyleType::Paragraph, TextType::Title, false, seq![]) + group(seq!["id"@, "usfm"@, "ide"@, "sts"@, "rem"@, "h"@, "h1"@, "h2"@, "h3"@, "toc1"@, "toc2"@, "toc3"@, "toca1"@, "toca2"@, "toca3"@, "ipi"@, "ipq"@, "ipr"@, "ipc"@, "im"@, "imi"@, "imq"@, "iq"@, "iq1"@, "iq2"@, "iq3"@, "ib"@, "ili"@, "ili1"@, "ili2"@, "iot"@, "io"@, "io1"@, "io2"@, "io3"@, "ie"@, "iex"@, "lit"@, "cl"@, "cd"@, "restore"@, "cp"@, "tr"@, "esb"@, "esbe"@, "periph"@], StyleType::Paragraph, TextType::Other, false, seq![]) + group(seq!["c"@], StyleType::Paragraph, TextType::ChapterNumber, false, seq![]) + group(seq!["v"@], StyleType::Character, TextType::VerseNumber, false, seq![]) + group(seq!["th1"@, "th2"@, "th3"@, "th4"@, "th5"@, "thc1"@, "thc2"@, "thc3"@, "thc4"@, "thc5"@, "thr1"@, "thr2"@, "thr3"@, "thr4"@, "thr5"@, "tc1"@, "tc2"@, "tc3"@, "tc4"@, "tc5"@, "tcc1"@, "tcc2"@, "tcc3"@, "tcc4"@, "tcc5"@, "tcr1"@, "tcr2"@, "tcr3"@, "tcr4"@, "tcr5"@], StyleType::Character, TextType::VerseText, false, seq![]) + group(seq!["add"@, "bk"@, "dc"@, "k"@, "nd"@, "ord"@, "pn"@, "png"@, "addpn"@, "qt"@, "sig"@, "sls"@, "tl"@, "wj"@, "em"@, "bd"@, "it"@, "bdit"@, "no"@, "sc"@, "sup"@, "wg"@, "wh"@, "wa"@, "rb"@, "pro"@, "jmp"@, "ndx"@, "rq"@, "lik"@, "liv"@, "litl"@, "qs"@, "qac"@, "ior"@, "flag"@, "ta"@, "wl"@], StyleType::Character, TextType::Other, true, seq![]));
    push_rules(
        &mut rules,
        &["ca", "va", "vp", "fig", "iqt", "efm", "fm"],
        StyleType::Character,
        TextType::Other,
        false,
    );
    assert(rule_views(rules@) =~= seq![RuleView { marker: "p"@, name: Some("p - Paragraph - Normal - First Line Indent"@), description: Some("Paragraph text, with first line indent"@), style_type: StyleType::Paragraph, text_type: TextType::VerseText, text_bits: 0, nest: false, occurs_under: seq![] }] + group(seq!["m"@, "mi"@, "pi"@, "pi1"@, "pi2"@, "pi3"@, "pc"@, "pr"@, "pm"@, "pmo"@, "pmc"@, "pmr"@, "nb"@, "cls"@, "ph"@, "ph1"@, "ph2"@, "ph3"@, "q"@, "q1"@, "q2"@, "q3"@, "q4"@, "qc"@, "qr"@, "qm"@, "qm1"@, "qm2"@, "qm3"@, "qd"@, "li"@, "li1"@, "li2"@, "li3"@, "li4"@, "lim"@, "lim1"@, "lim2"@, "lf"@, "b"@, "d"@, "po"@], StyleType::Paragraph, TextType::VerseText, false, seq![]) + group(seq!["s"@, "s1"@, "s2"@, "s3"@, "s4"@, "s5"@, "ms"@, "ms1"@, "ms2"@, "ms3"@, "mr"@, "sr"@, "r"@, "sd"@, "sd1"@, "sd2"@, "sd3"@, "sd4"@, "sp"@, "qa"@, "is"@, "is1"@, "is2"@], StyleType::Paragraph, TextType::Section, false, seq![]) + group(seq!["mt"@, "mt1"@, "mt2"@, "mt3"@, "mt4"@, "mte"@, "mte1"@, "mte2"@, "imt"@, "imt1"@, "imt2"@, "imte"@], StyleType::Paragraph, TextType::Title, false, seq![]) + group(seq!["id"@, "usfm"@, "ide"@, "sts"@, "rem"@, "h"@, "h1"@, "h2"@, "h3"@, "toc1"@, "toc2"@, "toc3"@, "toca1"@, "toca2"@, "toca3"@, "ipi"@, "ipq"@, "ipr"@, "ipc"@, "im"@, "imi"@, "imq"@, "iq"@, "iq1"@, "iq2"@, "iq3"@, "ib"@, "ili"@, "ili1"@, "ili2"@, "iot"@, "io"@, "io1"@, "io2"@, "io3"@, "ie"@, "iex"@, "lit"@, "cl"@, "cd"@, "restore"@, "cp"@, "tr"@, "esb"@, "esbe"@, "periph"@], StyleType::Paragraph, TextType::Other, false, seq![]) + group(seq!["c"@], StyleType::Paragraph, TextType::ChapterNumber, false, seq![]) + group(seq!["v"@], StyleType::Character, TextType::VerseNumber, false, seq![]) + group(seq!["th1"@, "th2"@, "th3"@, "th4"@, "th5"@, "thc1"@, "thc2"@, "thc3"@, "thc4"@, "thc5"@, "thr1"@, "thr2"@, "thr3"@, "thr4"@, "thr5"@, "tc1"@, "tc2"@, "tc3"@, "tc4"@, "tc5"@, "tcc1"@, "tcc2"@, "tcc3"@, "tcc4"@, "tcc5"@, "tcr1"@, "tcr2"@, "tcr3"@, "tcr4"@, "tcr5"@], StyleType::Character, TextType::VerseText, false, seq![]) + group(seq!["add"@, "bk"@, "dc"@, "k"@, "nd"@, "ord"@, "pn"@, "png"@, "addpn"@, "qt"@, "sig"@, "sls"@, "tl"@, "wj"@, "em"@, "bd"@, "it"@, "bdit"@, "no"@, "sc"@, "sup"@, "wg"@, "wh"@, "wa"@, "rb"@, "pro"@, "jmp"@, "ndx"@, "rq"@, "lik"@, "liv"@, "litl"@, "qs"@, "qac"@, "ior"@, "flag"@, "ta"@, "wl"@], StyleType::Character, TextType::Other, true, seq![]) + group(seq!["ca"@, "va"@, "vp"@, "fig"@, "iqt"@, "efm"@, "fm"@], StyleType::Character, TextType::Other, false, seq![]));
    let notes: [&str; 3] = ["f", "fe", "ef"];
    push_under(
        &mut rules,
        &["fr", "ft", "fq", "fqa", "fk", "fl", "fp", "fv", "fw", "fdc", "fs"],
        &notes,
    );
    assert(texts(notes@) =~= seq!["f"@, "fe"@, "ef"@]);
    assert(rule_views(rules@) =~= seq![RuleView { marker: "p"@, name: Some("p - Paragraph - Normal - First Line Indent"@), description: Some("Paragraph text, with first line indent"@), style_type: StyleType::Paragraph, text_type: TextType::VerseText, text_bits: 0, nest: false, occurs_under: seq![] }] + group(seq!["m"@, "mi"@, "pi"@, "pi1"@, "pi2"@, "pi3"@, "pc"@, "pr"@, "pm"@, "pmo"@, "pmc"@, "pmr"@, "nb"@, "cls"@, "ph"@, "ph1"@, "ph2"@, "ph3"@, "q"@, "q1"@, "q2"@, "q3"@, "q4"@, "qc"@, "qr"@, "qm"@, "qm1"@, "qm2"@, "qm3"@, "qd"@, "li"@, "li1"@, "li2"@, "li3"@, "li4"@, "lim"@, "lim1"@, "lim2"@, "lf"@, "b"@, "d"@, "po"@], StyleType::Paragraph, TextType::VerseText, false, seq![]) + group(seq!["s"@, "s1"@, "s2"@, "s3"@, "s4"@, "s5"@, "ms"@, "ms1"@, "ms2"@, "ms3"@, "mr"@, "sr"@, "r"@, "sd"@, "sd1"@, "sd2"@, "sd3"@, "sd4"@, "sp"@, "qa"@, "is"@, "is1"@, "is2"@], StyleType::Paragraph, TextType::Section, false, seq![]) + group(seq!["mt"@, "mt1"@, "mt2"@, "mt3"@, "mt4"@, "mte"@, "mte1"@, "mte2"@, "imt"@, "imt1"@, "imt2"@, "imte"@], StyleType::Paragraph, TextType::Title, false, seq![]) + group(seq!["id"@, "usfm"@, "ide"@, "sts"@, "rem"@, "h"@, "h1"@, "h2"@, "h3"@, "toc1"@, "toc2"@, "toc3"@, "toca1"@, "toca2"@, "toca3"@, "ipi"@, "ipq"@, "ipr"@, "ipc"@, "im"@, "imi"@, "imq"@, "iq"@, "iq1"@, "iq2"@, "iq3"@, "ib"@, "ili"@, "ili1"@, "ili2"@, "iot"@, "io"@, "io1"@, "io2"@, "io3"@, "ie"@, "iex"@, "lit"@, "cl"@, "cd"@, "restore"@, "cp"@, "tr"@, "esb"@, "esbe"@, "periph"@], StyleType::Paragraph, TextType::Other, false, seq![]) + group(seq!["c"@], StyleType::Paragraph, TextType::ChapterNumber, false, seq![]) + group(seq!["v"@], StyleType::Character, TextType::VerseNumber, false, seq![]) + group(seq!["th1"@, "th2"@, "th3"@, "th4"@, "th5"@, "thc1"@, "thc2"@, "thc3"@, "thc4"@, "thc5"@, "thr1"@, "thr2"@, "thr3"@, "thr4"@, "thr5"@, "tc1"@, "tc2"@, "tc3"@, "tc4"@, "tc5"@, "tcc1"@, "tcc2"@, "tcc3"@, "tcc4"@, "tcc5"@, "tcr1"@, "tcr2"@, "tcr3"@, "tcr4"@, "tcr5"@], StyleType::Character, TextType::VerseText, false, seq![]) + group(seq!["add"@, "bk"@, "dc"@, "k"@, "nd"@, "ord"@, "pn"@, "png"@, "addpn"@, "qt"@, "sig"@, "sls"@, "tl"@, "wj"@, "em"@, "bd"@, "it"@, "bdit"@, "no"@, "sc"@, "sup"@, "wg"@, "wh"@, "wa"@, "rb"@, "pro"@, "jmp"@, "ndx"@, "rq"@, "lik"@, "liv"@, "litl"@, "qs"@, "qac"@, "ior"@, "flag"@, "ta"@, "wl"@], StyleType::Character, TextType::Other, true, seq![]) + group(seq!["ca"@, "va"@, "vp"@, "fig"@, "iqt"@, "efm"@, "fm"@], StyleType::Character, TextType::Other, false, seq![]) + group(seq!["fr"@, "ft"@, "fq"@, "fqa"@, "fk"@, "fl"@, "fp"@, "fv"@, "fw"@, "fdc"@, "fs"@], StyleType::Character, TextType::NoteText, false, seq!["f"@, "fe"@, "ef"@]));
    let references: [&str; 2] = ["x", "ex"];
    push_under(&mut rules, &["xo", "xk", "xq", "xta", "xot", "xnt", "xdc", "xop"], &references);
    assert(texts(references@) =~= seq!["x"@, "ex"@]);
    assert(rule_views(rules@) =~= seq![RuleView { marker: "p"@, name: Some("p - Paragraph - Normal - First Line Indent"@), description: Some("Paragraph text, with first line indent"@), style_type: StyleType::Paragraph, text_type: TextType::VerseText, text_bits: 0, nest: false, occurs_under: seq![] }] + group(seq!["m"@, "mi"@, "pi"@, "pi1"@, "pi2"@, "pi3"@, "pc"@, "pr"@, "pm"@, "pmo"@, "pmc"@, "pmr"@, "nb"@, "cls"@, "ph"@, "ph1"@, "ph2"@, "ph3"@, "q"@, "q1"@, "q2"@, "q3"@, "q4"@, "qc"@, "qr"@, "qm"@, "qm1"@, "qm2"@, "qm3"@, "qd"@, "li"@, "li1"@, "li2"@, "li3"@, "li4"@, "lim"@, "lim1"@, "lim2"@, "lf"@, "b"@, "d"@, "po"@], StyleType::Paragraph, TextType::VerseText, false, seq![]) + group(seq!["s"@, "s1"@, "s2"@, "s3"@, "s4"@, "s5"@, "ms"@, "ms1"@, "ms2"@, "ms3"@, "mr"@, "sr"@, "r"@, "sd"@, "sd1"@, "sd2"@, "sd3"@, "sd4"@, "sp"@, "qa"@, "is"@, "is1"@, "is2"@], StyleType::Paragraph, TextType::Section, false, seq![]) + group(seq!["mt"@, "mt1"@, "mt2"@, "mt3"@, "mt4"@, "mte"@, "mte1"@, "mte2"@, "imt"@, "imt1"@, "imt2"@, "imte"@], StyleType::Paragraph, TextType::Title, false, seq![]) + group(seq!["id"@, "usfm"@, "ide"@, "sts"@, "rem"@, "h"@, "h1"@, "h2"@, "h3"@, "toc1"@, "toc2"@, "toc3"@, "toca1"@, "toca2"@, "toca3"@, "ipi"@, "ipq"@, "ipr"@, "ipc"@, "im"@, "imi"@, "imq"@, "iq"@, "iq1"@, "iq2"@, "iq3"@, "ib"@, "ili"@, "ili1"@, "ili2"@, "iot"@, "io"@, "io1"@, "io2"@, "io3"@, "ie"@, "iex"@, "lit"@, "cl"@, "cd"@, "restore"@, "cp"@, "tr"@, "esb"@, "esbe"@, "periph"@], StyleType::Paragraph, TextType::Other, false, seq![]) + group(seq!["c"@], StyleType::Paragraph, TextType::ChapterNumber, false, seq![]) + group(seq!["v"@], StyleType::Character, TextType::VerseNumber, false, seq![]) + group(seq!["th1"@, "th2"@, "th3"@, "th4"@, "th5"@, "thc1"@, "thc2"@, "thc3"@, "thc4"@, "thc5"@, "thr1"@, "thr2"@, "thr3"@, "thr4"@, "thr5"@, "tc1"@, "tc2"@, "tc3"@, "tc4"@, "tc5"@, "tcc1"@, "tcc2"@, "tcc3"@, "tcc4"@, "tcc5"@, "tcr1"@, "tcr2"@, "tcr3"@, "tcr4"@, "tcr5"@], StyleType::Character, TextType::VerseText, false, seq![]) + group(seq!["add"@, "bk"@, "dc"@, "k"@, "nd"@, "ord"@, "pn"@, "png"@, "addpn"@, "qt"@, "sig"@, "sls"@, "tl"@, "wj"@, "em"@, "bd"@, "it"@, "bdit"@, "no"@, "sc"@, "sup"@, "wg"@, "wh"@, "wa"@, "rb"@, "pro"@, "jmp"@, "ndx"@, "rq"@, "lik"@, "liv"@, "litl"@, "qs"@, "qac"@, "ior"@, "flag"@, "ta"@, "wl"@], StyleType::Character, TextType::Other, true, seq![]) + group(seq!["ca"@, "va"@, "vp"@, "fig"@, "iqt"@, "efm"@, "fm"@], StyleType::Character, TextType::Other, false, seq![]) + group(seq!["fr"@, "ft"@, "fq"@, "fqa"@, "fk"@, "fl"@, "fp"@, "fv"@, "fw"@, "fdc"@, "fs"@], StyleType::Character, TextType::NoteText, false, seq!["f"@, "fe"@, "ef"@]) + group(seq!["xo"@, "xk"@, "xq"@, "xta"@, "xot"@, "xnt"@, "xdc"@, "xop"@], StyleType::Character, TextType::NoteText, false, seq!["x"@, "ex"@]));
    push_rules(&mut rules, &["cat"], StyleType::Character, TextType::NoteText, false);
    assert(rule_views(rules@) =~= seq![RuleView { marker: "p"@, name: Some("p - Paragraph - Normal - First Line Indent"@), description: Some("Paragraph text, with first line indent"@), style_type: StyleType::Paragraph, text_type: TextType::VerseText, text_bits: 0, nest: false, occurs_under: seq![] }] + group(seq!["m"@, "mi"@, "pi"@, "pi1"@, "pi2"@, "pi3"@, "pc"@, "pr"@, "pm"@, "pmo"@, "pmc"@, "pmr"@, "nb"@, "cls"@, "ph"@, "ph1"@, "ph2"@, "ph3"@, "q"@, "q1"@, "q2"@, "q3"@, "q4"@, "qc"@, "qr"@, "qm"@, "qm1"@, "qm2"@, "qm3"@, "qd"@, "li"@, "li1"@, "li2"@, "li3"@, "li4"@, "lim"@, "lim1"@, "lim2"@, "lf"@, "b"@, "d"@, "po"@], StyleType::Paragraph, TextType::VerseText, false, seq![]) + group(seq!["s"@, "s1"@, "s2"@, "s3"@, "s4"@, "s5"@, "ms"@, "ms1"@, "ms2"@, "ms3"@, "mr"@, "sr"@, "r"@, "sd"@, "sd1"@, "sd2"@, "sd3"@, "sd4"@, "sp"@, "qa"@, "is"@, "is1"@, "is2"@], StyleType::Paragraph, TextType::Section, false, seq![]) + group(seq!["mt"@, "mt1"@, "mt2"@, "mt3"@, "mt4"@, "mte"@, "mte1"@, "mte2"@, "imt"@, "imt1"@, "imt2"@, "imte"@], StyleType::Paragraph, TextType::Title, false, seq![]) + group(seq!["id"@, "usfm"@, "ide"@, "sts"@, "rem"@, "h"@, "h1"@, "h2"@, "h3"@, "toc1"@, "toc2"@, "toc3"@, "toca1"@, "toca2"@, "toca3"@, "ipi"@, "ipq"@, "ipr"@, "ipc"@, "im"@, "imi"@, "imq"@, "iq"@, "iq1"@, "iq2"@, "iq3"@, "ib"@, "ili"@, "ili1"@, "ili2"@, "iot"@, "io"@, "io1"@, "io2"@, "io3"@, "ie"@, "iex"@, "lit"@, "cl"@, "cd"@, "restore"@, "cp"@, "tr"@, "esb"@, "esbe"@, "periph"@], StyleType::Paragraph, TextType::Other, false, seq![]) + group(seq!["c"@], StyleType::Paragraph, TextType::ChapterNumber, false, seq![]) + group(seq!["v"@], StyleType::Character, TextType::VerseNumber, false, seq![]) + group(seq!["th1"@, "th2"@, "th3"@, "th4"@, "th5"@, "thc1"@, "thc2"@, "thc3"@, "thc4"@, "thc5"@, "thr1"@, "thr2"@, "thr3"@, "thr4"@, "thr5"@, "tc1"@, "tc2"@, "tc3"@, "tc4"@, "tc5"@, "tcc1"@, "tcc2"@, "tcc3"@, "tcc4"@, "tcc5"@, "tcr1"@, "tcr2"@, "tcr3"@, "tcr4"@, "tcr5"@], StyleType::Character, TextType::VerseText, false, seq![]) + group(seq!["add"@, "bk"@, "dc"@, "k"@, "nd"@, "ord"@, "pn"@, "png"@, "addpn"@, "qt"@, "sig"@, "sls"@, "tl"@, "wj"@, "em"@, "bd"@, "it"@, "bdit"@, "no"@, "sc"@, "sup"@, "wg"@, "wh"@, "wa"@, "rb"@, "pro"@, "jmp"@, "ndx"@, "rq"@, "lik"@, "liv"@, "litl"@, "qs"@, "qac"@, "ior"@, "flag"@, "ta"@, "wl"@], StyleType::Character, TextType::Other, true, seq![]) + group(seq!["ca"@, "va"@, "vp"@, "fig"@, "iqt"@, "efm"@, "fm"@], StyleType::Character, TextType::Other, false, seq![]) + group(seq!["fr"@, "ft"@, "fq"@, "fqa"@, "fk"@, "fl"@, "fp"@, "fv"@, "fw"@, "fdc"@, "fs"@], StyleType::Character, TextType::NoteText, false, seq!["f"@, "fe"@, "ef"@]) + group(seq!["xo"@, "xk"@, "xq"@, "xta"@, "xot"@, "xnt"@, "xdc"@, "xop"@], StyleType::Character, TextType::NoteText, false, seq!["x"@, "ex"@]) + group(seq!["cat"@], StyleType::Character, TextType::NoteText, false, seq![]));
    push_rules(&mut rules, &["xt", "ref"], StyleType::Character, TextType::NoteText, true);
    assert(rule_views(rules@) =~= seq![RuleView { marker: "p"@, name: Some("p - Paragraph - Normal - First Line Indent"@), description: Some("Paragraph text, with first line indent"@), style_type: StyleType::Paragraph, text_type: TextType::VerseText, text_bits: 0, nest: false, occurs_under: seq![] }] + group(seq!["m"@, "mi"@, "pi"@, "pi1"@, "pi2"@, "pi3"@, "pc"@, "pr"@, "pm"@, "pmo"@, "pmc"@, "pmr"@, "nb"@, "cls"@, "ph"@, "ph1"@, "ph2"@, "ph3"@, "q"@, "q1"@, "q2"@, "q3"@, "q4"@, "qc"@, "qr"@, "qm"@, "qm1"@, "qm2"@, "qm3"@, "qd"@, "li"@, "li1"@, "li2"@, "li3"@, "li4"@, "lim"@, "lim1"@, "lim2"@, "lf"@, "b"@, "d"@, "po"@], StyleType::Paragraph, TextType::VerseText, false, seq![]) + group(seq!["s"@, "s1"@, "s2"@, "s3"@, "s4"@, "s5"@, "ms"@, "ms1"@, "ms2"@, "ms3"@, "mr"@, "sr"@, "r"@, "sd"@, "sd1"@, "sd2"@, "sd3"@, "sd4"@, "sp"@, "qa"@, "is"@, "is1"@, "is2"@], StyleType::Paragraph, TextType::Section, false, seq![]) + group(seq!["mt"@, "mt1"@, "mt2"@, "mt3"@, "mt4"@, "mte"@, "mte1"@, "mte2"@, "imt"@, "imt1"@, "imt2"@, "imte"@], StyleType::Paragraph, TextType::Title, false, seq![]) + group(seq!["id"@, "usfm"@, "ide"@, "sts"@, "rem"@, "h"@, "h1"@, "h2"@, "h3"@, "toc1"@, "toc2"@, "toc3"@, "toca1"@, "toca2"@, "toca3"@, "ipi"@, "ipq"@, "ipr"@, "ipc"@, "im"@, "imi"@, "imq"@, "iq"@, "iq1"@, "iq2"@, "iq3"@, "ib"@, "ili"@, "ili1"@, "ili2"@, "iot"@, "io"@, "io1"@, "io2"@, "io3"@, "ie"@, "iex"@, "lit"@, "cl"@, "cd"@, "restore"@, "cp"@, "tr"@, "esb"@, "esbe"@, "periph"@], StyleType::Paragraph, TextType::Other, false, seq![]) + group(seq!["c"@], StyleType::Paragraph, TextType::ChapterNumber, false, seq![]) + group(seq!["v"@], StyleType::Character, TextType::VerseNumber, false, seq![]) + group(seq!["th1"@, "th2"@, "th3"@, "th4"@, "th5"@, "thc1"@, "thc2"@, "thc3"@, "thc4"@, "thc5"@, "thr1"@, "thr2"@, "thr3"@, "thr4"@, "thr5"@, "tc1"@, "tc2"@, "tc3"@, "tc4"@, "tc5"@, "tcc1"@, "tcc2"@, "tcc3"@, "tcc4"@, "tcc5"@, "tcr1"@, "tcr2"@, "tcr3"@, "tcr4"@, "tcr5"@], StyleType::Character, TextType::VerseText, false, seq![]) + group(seq!["add"@, "bk"@, "dc"@, "k"@, "nd"@, "ord"@, "pn"@, "png"@, "addpn"@, "qt"@, "sig"@, "sls"@, "tl"@, "wj"@, "em"@, "bd"@, "it"@, "bdit"@, "no"@, "sc"@, "sup"@, "wg"@, "wh"@, "wa"@, "rb"@, "pro"@, "jmp"@, "ndx"@, "rq"@, "lik"@, "liv"@, "litl"@, "qs"@, "qac"@, "ior"@, "flag"@, "ta"@, "wl"@], StyleType::Character, TextType::Other, true, seq![]) + group(seq!["ca"@, "va"@, "vp"@, "fig"@, "iqt"@, "efm"@, "fm"@], StyleType::Character, TextType::Other, false, seq![]) + group(seq!["fr"@, "ft"@, "fq"@, "fqa"@, "fk"@, "fl"@, "fp"@, "fv"@, "fw"@, "fdc"@, "fs"@], StyleType::Character, TextType::NoteText, false, seq!["f"@, "fe"@, "ef"@]) + group(seq!["xo"@, "xk"@, "xq"@, "xta"@, "xot"@, "xnt"@, "xdc"@, "xop"@], StyleType::Character, TextType::NoteText, false, seq!["x"@, "ex"@]) + group(seq!["cat"@], StyleType::Character, TextType::NoteText, false, seq![]) + group(seq!["xt"@, "ref"@], StyleType::Character, TextType::NoteText, true, seq![]));
    push_named(&mut rules, "ip", "ip - Introduction - Paragraph", StyleType::Paragraph, TextType::Other, false);
    assert(rule_views(rules@) =~= seq![RuleView { marker: "p"@, name: Some("p - Paragraph - Normal - First Line Indent"@), description: Some("Paragraph text, with first line indent"@), style_type: StyleType::Paragraph, text_type: TextType::VerseText, text_bits: 0, nest: false, occurs_under: seq![] }] + group(seq!["m"@, "mi"@, "pi"@, "pi1"@, "pi2"@, "pi3"@, "pc"@, "pr"@, "pm"@, "pmo"@, "pmc"@, "pmr"@, "nb"@, "cls"@, "ph"@, "ph1"@, "ph2"@, "ph3"@, "q"@, "q1"@, "q2"@, "q3"@, "q4"@, "qc"@, "qr"@, "qm"@, "qm1"@, "qm2"@, "qm3"@, "qd"@, "li"@, "li1"@, "li2"@, "li3"@, "li4"@, "lim"@, "lim1"@, "lim2"@, "lf"@, "b"@, "d"@, "po"@], StyleType::Paragraph, TextType::VerseText, false, seq![]) + group(seq!["s"@, "s1"@, "s2"@, "s3"@, "s4"@, "s5"@, "ms"@, "ms1"@, "ms2"@, "ms3"@, "mr"@, "sr"@, "r"@, "sd"@, "sd1"@, "sd2"@, "sd3"@, "sd4"@, "sp"@, "qa"@, "is"@, "is1"@, "is2"@], StyleType::Paragraph, TextType::Section, false, seq![]) + group(seq!["mt"@, "mt1"@, "mt2"@, "mt3"@, "mt4"@, "mte"@, "mte1"@, "mte2"@, "imt"@, "imt1"@, "imt2"@, "imte"@], StyleType::Paragraph, TextType::Title, false, seq![]) + group(seq!["id"@, "usfm"@, "ide"@, "sts"@, "rem"@, "h"@, "h1"@, "h2"@, "h3"@, "toc1"@, "toc2"@, "toc3"@, "toca1"@, "toca2"@, "toca3"@, "ipi"@, "ipq"@, "ipr"@, "ipc"@, "im"@, "imi"@, "imq"@, "iq"@, "iq1"@, "iq2"@, "iq3"@, "ib"@, "ili"@, "ili1"@, "ili2"@, "iot"@, "io"@, "io1"@, "io2"@, "io3"@, "ie"@, "iex"@, "lit"@, "cl"@, "cd"@, "restore"@, "cp"@, "tr"@, "esb"@, "esbe"@, "periph"@], StyleType::Paragraph, TextType::Other, false, seq![]) + group(seq!["c"@], StyleType::Paragraph, TextType::ChapterNumber, false, seq![]) + group(seq!["v"@], StyleType::Character, TextType::VerseNumber, false, seq![]) + group(seq!["th1"@, "th2"@, "th3"@, "th4"@, "th5"@, "thc1"@, "thc2"@, "thc3"@, "thc4"@, "thc5"@, "thr1"@, "thr2"@, "thr3"@, "thr4"@, "thr5"@, "tc1"@, "tc2"@, "tc3"@, "tc4"@, "tc5"@, "tcc1"@, "tcc2"@, "tcc3"@, "tcc4"@, "tcc5"@, "tcr1"@, "tcr2"@, "tcr3"@, "tcr4"@, "tcr5"@], StyleType::Character, TextType::VerseText, false, seq![]) + group(seq!["add"@, "bk"@, "dc"@, "k"@, "nd"@, "ord"@, "pn"@, "png"@, "addpn"@, "qt"@, "sig"@, "sls"@, "tl"@, "wj"@, "em"@, "bd"@, "it"@, "bdit"@, "no"@, "sc"@, "sup"@, "wg"@, "wh"@, "wa"@, "rb"@, "pro"@, "jmp"@, "ndx"@, "rq"@, "lik"@, "liv"@, "litl"@, "qs"@, "qac"@, "ior"@, "flag"@, "ta"@, "wl"@], StyleType::Character, TextType::Other, true, seq![]) + group(seq!["ca"@, "va"@, "vp"@, "fig"@, "iqt"@, "efm"@, "fm"@], StyleType::Character, TextType::Other, false, seq![]) + group(seq!["fr"@, "ft"@, "fq"@, "fqa"@, "fk"@, "fl"@, "fp"@, "fv"@, "fw"@, "fdc"@, "fs"@], StyleType::Character, TextType::NoteText, false, seq!["f"@, "fe"@, "ef"@]) + group(seq!["xo"@, "xk"@, "xq"@, "xta"@, "xot"@, "xnt"@, "xdc"@, "xop"@], StyleType::Character, TextType::NoteText, false, seq!["x"@, "ex"@]) + group(seq!["cat"@], StyleType::Character, TextType::NoteText, false, seq![]) + group(seq!["xt"@, "ref"@], StyleType::Character, TextType::NoteText, true, seq![]) + seq![rule_of("ip"@, Some("ip - Introduction - Paragraph"@), StyleType::Paragraph, TextType::Other, false, seq![])]);
    push_named(&mut rules, "w", "w - Special Text - Wordlist/Glossary/Dictionary Entry", StyleType::Character, TextType::Other, true);
    assert(rule_views(rules@) =~= seq![RuleView { marker: "p"@, name: Some("p - Paragraph - Normal - First Line Indent"@), description: Some("Paragraph text, with first line indent"@), style_type: StyleType::Paragraph, text_type: TextType::VerseText, text_bits: 0, nest: false, occurs_under: seq![] }] + group(seq!["m"@, "mi"@, "pi"@, "pi1"@, "pi2"@, "pi3"@, "pc"@, "pr"@, "pm"@, "pmo"@, "pmc"@, "pmr"@, "nb"@, "cls"@, "ph"@, "ph1"@, "ph2"@, "ph3"@, "q"@, "q1"@, "q2"@, "q3"@, "q4"@, "qc"@, "qr"@, "qm"@, "qm1"@, "qm2"@, "qm3"@, "qd"@, "li"@, "li1"@, "li2"@, "li3"@, "li4"@, "lim"@, "lim1"@, "lim2"@, "lf"@, "b"@, "d"@, "po"@], StyleType::Paragraph, TextType::VerseText, false, seq![]) + group(seq!["s"@, "s1"@, "s2"@, "s3"@, "s4"@, "s5"@, "ms"@, "ms1"@, "ms2"@, "ms3"@, "mr"@, "sr"@, "r"@, "sd"@, "sd1"@, "sd2"@, "sd3"@, "sd4"@, "sp"@, "qa"@, "is"@, "is1"@, "is2"@], StyleType::Paragraph, TextType::Section, false, seq![]) + group(seq!["mt"@, "mt1"@, "mt2"@, "mt3"@, "mt4"@, "mte"@, "mte1"@, "mte2"@, "imt"@, "imt1"@, "imt2"@, "imte"@], StyleType::Paragraph, TextType::Title, false, seq![]) + group(seq!["id"@, "usfm"@, "ide"@, "sts"@, "rem"@, "h"@, "h1"@, "h2"@, "h3"@, "toc1"@, "toc2"@, "toc3"@, "toca1"@, "toca2"@, "toca3"@, "ipi"@, "ipq"@, "ipr"@, "ipc"@, "im"@, "imi"@, "imq"@, "iq"@, "iq1"@, "iq2"@, "iq3"@, "ib"@, "ili"@, "ili1"@, "ili2"@, "iot"@, "io"@, "io1"@, "io2"@, "io3"@, "ie"@, "iex"@, "lit"@, "cl"@, "cd"@, "restore"@, "cp"@, "tr"@, "esb"@, "esbe"@, "periph"@], StyleType::Paragraph, TextType::Other, false, seq![]) + group(seq!["c"@], StyleType::Paragraph, TextType::ChapterNumber, false, seq![]) + group(seq!["v"@], StyleType::Character, TextType::VerseNumber, false, seq![]) + group(seq!["th1"@, "th2"@, "th3"@, "th4"@, "th5"@, "thc1"@, "thc2"@, "thc3"@, "thc4"@, "thc5"@, "thr1"@, "thr2"@, "thr3"@, "thr4"@, "thr5"@, "tc1"@, "tc2"@, "tc3"@, "tc4"@, "tc5"@, "tcc1"@, "tcc2"@, "tcc3"@, "tcc4"@, "tcc5"@, "tcr1"@, "tcr2"@, "tcr3"@, "tcr4"@, "tcr5"@], StyleType::Character, TextType::VerseText, false, seq![]) + group(seq!["add"@, "bk"@, "dc"@, "k"@, "nd"@, "ord"@, "pn"@, "png"@, "addpn"@, "qt"@, "sig"@, "sls"@, "tl"@, "wj"@, "em"@, "bd"@, "it"@, "bdit"@, "no"@, "sc"@, "sup"@, "wg"@, "wh"@, "wa"@, "rb"@, "pro"@, "jmp"@, "ndx"@, "rq"@, "lik"@, "liv"@, "litl"@, "qs"@, "qac"@, "ior"@, "flag"@, "ta"@, "wl"@], StyleType::Character, TextType::Other, true, seq![]) + group(seq!["ca"@, "va"@, "vp"@, "fig"@, "iqt"@, "efm"@, "fm"@], StyleType::Character, TextType::Other, false, seq![]) + group(seq!["fr"@, "ft"@, "fq"@, "fqa"@, "fk"@, "fl"@, "fp"@, "fv"@, "fw"@, "fdc"@, "fs"@], StyleType::Character, TextType::NoteText, false, seq!["f"@, "fe"@, "ef"@]) + group(seq!["xo"@, "xk"@, "xq"@, "xta"@, "xot"@, "xnt"@, "xdc"@, "xop"@], StyleType::Character, TextType::NoteText, false, seq!["x"@, "ex"@]) + group(seq!["cat"@], StyleType::Character, TextType::NoteText, false, seq![]) + group(seq!["xt"@, "ref"@], StyleType::Character, TextType::NoteText, true, seq![]) + seq![rule_of("ip"@, Some("ip - Introduction - Paragraph"@), StyleType::Paragraph, TextType::Other, false, seq![])] + seq![rule_of("w"@, Some("w - Special Text - Wordlist/Glossary/Dictionary Entry"@), StyleType::Character, TextType::Other, true, seq![])]);
    push_named(&mut rules, "f", "f - Footnote", StyleType::Note, TextType::NoteText, false);
    assert(rule_views(rules@) =~= seq![RuleView { marker: "p"@, name: Some("p - Paragraph - Normal - First Line Indent"@), description: Some("Paragraph text, with first line indent"@), style_type: StyleType::Paragraph, text_type: TextType::VerseText, text_bits: 0, nest: false, occurs_under: seq![] }] + group(seq!["m"@, "mi"@, "pi"@, "pi1"@, "pi2"@, "pi3"@, "pc"@, "pr"@, "pm"@, "pmo"@, "pmc"@, "pmr"@, "nb"@, "cls"@, "ph"@, "ph1"@, "ph2"@, "ph3"@, "q"@, "q1"@, "q2"@, "q3"@, "q4"@, "qc"@, "qr"@, "qm"@, "qm1"@, "qm2"@, "qm3"@, "qd"@, "li"@, "li1"@, "li2"@, "li3"@, "li4"@, "lim"@, "lim1"@, "lim2"@, "lf"@, "b"@, "d"@, "po"@], StyleType::Paragraph, TextType::VerseText, false, seq![]) + group(seq!["s"@, "s1"@, "s2"@, "s3"@, "s4"@, "s5"@, "ms"@, "ms1"@, "ms2"@, "ms3"@, "mr"@, "sr"@, "r"@, "sd"@, "sd1"@, "sd2"@, "sd3"@, "sd4"@, "sp"@, "qa"@, "is"@, "is1"@, "is2"@], StyleType::Paragraph, TextType::Section, false, seq![]) + group(seq!["mt"@, "mt1"@, "mt2"@, "mt3"@, "mt4"@, "mte"@, "mte1"@, "mte2"@, "imt"@, "imt1"@, "imt2"@, "imte"@], StyleType::Paragraph, TextType::Title, false, seq![]) + group(seq!["id"@, "usfm"@, "ide"@, "sts"@, "rem"@, "h"@, "h1"@, "h2"@, "h3"@, "toc1"@, "toc2"@, "toc3"@, "toca1"@, "toca2"@, "toca3"@, "ipi"@, "ipq"@, "ipr"@, "ipc"@, "im"@, "imi"@, "imq"@, "iq"@, "iq1"@, "iq2"@, "iq3"@, "ib"@, "ili"@, "ili1"@, "ili2"@, "iot"@, "io"@, "io1"@, "io2"@, "io3"@, "ie"@, "iex"@, "lit"@, "cl"@, "cd"@, "restore"@, "cp"@, "tr"@, "esb"@, "esbe"@, "periph"@], StyleType::Paragraph, TextType::Other, false, seq![]) + group(seq!["c"@], StyleType::Paragraph, TextType::ChapterNumber, false, seq![]) + group(seq!["v"@], StyleType::Character, TextType::VerseNumber, false, seq![]) + group(seq!["th1"@, "th2"@, "th3"@, "th4"@, "th5"@, "thc1"@, "thc2"@, "thc3"@, "thc4"@, "thc5"@, "thr1"@, "thr2"@, "thr3"@, "thr4"@, "thr5"@, "tc1"@, "tc2"@, "tc3"@, "tc4"@, "tc5"@, "tcc1"@, "tcc2"@, "tcc3"@, "tcc4"@, "tcc5"@, "tcr1"@, "tcr2"@, "tcr3"@, "tcr4"@, "tcr5"@], StyleType::Character, TextType::VerseText, false, seq![]) + group(seq!["add"@, "bk"@, "dc"@, "k"@, "nd"@, "ord"@, "pn"@, "png"@, "addpn"@, "qt"@, "sig"@, "sls"@, "tl"@, "wj"@, "em"@, "bd"@, "it"@, "bdit"@, "no"@, "sc"@, "sup"@, "wg"@, "wh"@, "wa"@, "rb"@, "pro"@, "jmp"@, "ndx"@, "rq"@, "lik"@, "liv"@, "litl"@, "qs"@, "qac"@, "ior"@, "flag"@, "ta"@, "wl"@], StyleType::Character, TextType::Other, true, seq![]) + group(seq!["ca"@, "va"@, "vp"@, "fig"@, "iqt"@, "efm"@, "fm"@], StyleType::Character, TextType::Other, false, seq![]) + group(seq!["fr"@, "ft"@, "fq"@, "fqa"@, "fk"@, "fl"@, "fp"@, "fv"@, "fw"@, "fdc"@, "fs"@], StyleType::Character, TextType::NoteText, false, seq!["f"@, "fe"@, "ef"@]) + group(seq!["xo"@, "xk"@, "xq"@, "xta"@, "xot"@, "xnt"@, "xdc"@, "xop"@], StyleType::Character, TextType::NoteText, false, seq!["x"@, "ex"@]) + group(seq!["cat"@], StyleType::Character, TextType::NoteText, false, seq![]) + group(seq!["xt"@, "ref"@], StyleType::Character, TextType::NoteText, true, seq![]) + seq![rule_of("ip"@, Some("ip - Introduction - Paragraph"@), StyleType::Paragraph, TextType::Other, false, seq![])] + seq![rule_of("w"@, Some("w - Special Text - Wordlist/Glossary/Dictionary Entry"@), StyleType::Character, TextType::Other, true, seq![])] + seq![rule_of("f"@, Some("f - Footnote"@), StyleType::Note, TextType::NoteText, false, seq![])]);
    push_named(&mut rules, "x", "x - Cross Reference", StyleType::Note, TextType::NoteText, false);
    assert(rule_views(rules@) =~= seq![RuleView { marker: "p"@, name: Some("p - Paragraph - Normal - First Line Indent"@), description: Some("Paragraph text, with first line indent"@), style_type: StyleType::Paragraph, text_type: TextType::VerseText, text_bits: 0, nest: false, occurs_under: seq![] }] + group(seq!["m"@, "mi"@, "pi"@, "pi1"@, "pi2"@, "pi3"@, "pc"@, "pr"@, "pm"@, "pmo"@, "pmc"@, "pmr"@, "nb"@, "cls"@, "ph"@, "ph1"@, "ph2"@, "ph3"@, "q"@, "q1"@, "q2"@, "q3"@, "q4"@, "qc"@, "qr"@, "qm"@, "qm1"@, "qm2"@, "qm3"@, "qd"@, "li"@, "li1"@, "li2"@, "li3"@, "li4"@, "lim"@, "lim1"@, "lim2"@, "lf"@, "b"@, "d"@, "po"@], StyleType::Paragraph, TextType::VerseText, false, seq![]) + group(seq!["s"@, "s1"@, "s2"@, "s3"@, "s4"@, "s5"@, "ms"@, "ms1"@, "ms2"@, "ms3"@, "mr"@, "sr"@, "r"@, "sd"@, "sd1"@, "sd2"@, "sd3"@, "sd4"@, "sp"@, "qa"@, "is"@, "is1"@, "is2"@], StyleType::Paragraph, TextType::Section, false, seq![]) + group(seq!["mt"@, "mt1"@, "mt2"@, "mt3"@, "mt4"@, "mte"@, "mte1"@, "mte2"@, "imt"@, "imt1"@, "imt2"@, "imte"@], StyleType::Paragraph, TextType::Title, false, seq![]) + group(seq!["id"@, "usfm"@, "ide"@, "sts"@, "rem"@, "h"@, "h1"@, "h2"@, "h3"@, "toc1"@, "toc2"@, "toc3"@, "toca1"@, "toca2"@, "toca3"@, "ipi"@, "ipq"@, "ipr"@, "ipc"@, "im"@, "imi"@, "imq"@, "iq"@, "iq1"@, "iq2"@, "iq3"@, "ib"@, "ili"@, "ili1"@, "ili2"@, "iot"@, "io"@, "io1"@, "io2"@, "io3"@, "ie"@, "iex"@, "lit"@, "cl"@, "cd"@, "restore"@, "cp"@, "tr"@, "esb"@, "esbe"@, "periph"@], StyleType::Paragraph, TextType::Other, false, seq![]) + group(seq!["c"@], StyleType::Paragraph, TextType::ChapterNumber, false, seq![]) + group(seq!["v"@], StyleType::Character, TextType::VerseNumber, false, seq![]) + group(seq!["th1"@, "th2"@, "th3"@, "th4"@, "th5"@, "thc1"@, "thc2"@, "thc3"@, "thc4"@, "thc5"@, "thr1"@, "thr2"@, "thr3"@, "thr4"@, "thr5"@, "tc1"@, "tc2"@, "tc3"@, "tc4"@, "tc5"@, "tcc1"@, "tcc2"@, "tcc3"@, "tcc4"@, "tcc5"@, "tcr1"@, "tcr2"@, "tcr3"@, "tcr4"@, "tcr5"@], StyleType::Character, TextType::VerseText, false, seq![]) + group(seq!["add"@, "bk"@, "dc"@, "k"@, "nd"@, "ord"@, "pn"@, "png"@, "addpn"@, "qt"@, "sig"@, "sls"@, "tl"@, "wj"@, "em"@, "bd"@, "it"@, "bdit"@, "no"@, "sc"@, "sup"@, "wg"@, "wh"@, "wa"@, "rb"@, "pro"@, "jmp"@, "ndx"@, "rq"@, "lik"@, "liv"@, "litl"@, "qs"@, "qac"@, "ior"@, "flag"@, "ta"@, "wl"@], StyleType::Character, TextType::Other, true, seq![]) + group(seq!["ca"@, "va"@, "vp"@, "fig"@, "iqt"@, "efm"@, "fm"@], StyleType::Character, TextType::Other, false, seq![]) + group(seq!["fr"@, "ft"@, "fq"@, "fqa"@, "fk"@, "fl"@, "fp"@, "fv"@, "fw"@, "fdc"@, "fs"@], StyleType::Character, TextType::NoteText, false, seq!["f"@, "fe"@, "ef"@]) + group(seq!["xo"@, "xk"@, "xq"@, "xta"@, "xot"@, "xnt"@, "xdc"@, "xop"@], StyleType::Character, TextType::NoteText, false, seq!["x"@, "ex"@]) + group(seq!["cat"@], StyleType::Character, TextType::NoteText, false, seq![]) + group(seq!["xt"@, "ref"@], StyleType::Character, TextType::NoteText, true, seq![]) + seq![rule_of("ip"@, Some("ip - Introduction - Paragraph"@), StyleType::Paragraph, TextType::Other, false, seq![])] + seq![rule_of("w"@, Some("w - Special Text - Wordlist/Glossary/Dictionary Entry"@), StyleType::Character, TextType::Other, true, seq![])] + seq![rule_of("f"@, Some("f - Footnote"@), StyleType::Note, TextType::NoteText, false, seq![])] + seq![rule_of("x"@, Some("x - Cross Reference"@), StyleType::Note, TextType::NoteText, false, seq![])]);
    push_rules(&mut rules, &["fe", "ef", "ex"], StyleType::Note, TextType::NoteText, false);
    assert(rule_views(rules@) =~= seq![RuleView { marker: "p"@, name: Some("p - Paragraph - Normal - First Line Indent"@), description: Some("Paragraph text, with first line indent"@), style_type: StyleType::Paragraph, text_type: TextType::VerseText, text_bits: 0, nest: false, occurs_under: seq![] }] + group(seq!["m"@, "mi"@, "pi"@, "pi1"@, "pi2"@, "pi3"@, "pc"@, "pr"@, "pm"@, "pmo"@, "pmc"@, "pmr"@, "nb"@, "cls"@, "ph"@, "ph1"@, "ph2"@, "ph3"@, "q"@, "q1"@, "q2"@, "q3"@, "q4"@, "qc"@, "qr"@, "qm"@, "qm1"@, "qm2"@, "qm3"@, "qd"@, "li"@, "li1"@, "li2"@, "li3"@, "li4"@, "lim"@, "lim1"@, "lim2"@, "lf"@, "b"@, "d"@, "po"@], StyleType::Paragraph, TextType::VerseText, false, seq![]) + group(seq!["s"@, "s1"@, "s2"@, "s3"@, "s4"@, "s5"@, "ms"@, "ms1"@, "ms2"@, "ms3"@, "mr"@, "sr"@, "r"@, "sd"@, "sd1"@, "sd2"@, "sd3"@, "sd4"@, "sp"@, "qa"@, "is"@, "is1"@, "is2"@], StyleType::Paragraph, TextType::Section, false, seq![]) + group(seq!["mt"@, "mt1"@, "mt2"@, "mt3"@, "mt4"@, "mte"@, "mte1"@, "mte2"@, "imt"@, "imt1"@, "imt2"@, "imte"@], StyleType::Paragraph, TextType::Title, false, seq![]) + group(seq!["id"@, "usfm"@, "ide"@, "sts"@, "rem"@, "h"@, "h1"@, "h2"@, "h3"@, "toc1"@, "toc2"@, "toc3"@, "toca1"@, "toca2"@, "toca3"@, "ipi"@, "ipq"@, "ipr"@, "ipc"@, "im"@, "imi"@, "imq"@, "iq"@, "iq1"@, "iq2"@, "iq3"@, "ib"@, "ili"@, "ili1"@, "ili2"@, "iot"@, "io"@, "io1"@, "io2"@, "io3"@, "ie"@, "iex"@, "lit"@, "cl"@, "cd"@, "restore"@, "cp"@, "tr"@, "esb"@, "esbe"@, "periph"@], StyleType::Paragraph, TextType::Other, false, seq![]) + group(seq!["c"@], StyleType::Paragraph, TextType::ChapterNumber, false, seq![]) + group(seq!["v"@], StyleType::Character, TextType::VerseNumber, false, seq![]) + group(seq!["th1"@, "th2"@, "th3"@, "th4"@, "th5"@, "thc1"@, "thc2"@, "thc3"@, "thc4"@, "thc5"@, "thr1"@, "thr2"@, "thr3"@, "thr4"@, "thr5"@, "tc1"@, "tc2"@, "tc3"@, "tc4"@, "tc5"@, "tcc1"@, "tcc2"@, "tcc3"@, "tcc4"@, "tcc5"@, "tcr1"@, "tcr2"@, "tcr3"@, "tcr4"@, "tcr5"@], StyleType::Character, TextType::VerseText, false, seq![]) + group(seq!["add"@, "bk"@, "dc"@, "k"@, "nd"@, "ord"@, "pn"@, "png"@, "addpn"@, "qt"@, "sig"@, "sls"@, "tl"@, "wj"@, "em"@, "bd"@, "it"@, "bdit"@, "no"@, "sc"@, "sup"@, "wg"@, "wh"@, "wa"@, "rb"@, "pro"@, "jmp"@, "ndx"@, "rq"@, "lik"@, "liv"@, "litl"@, "qs"@, "qac"@, "ior"@, "flag"@, "ta"@, "wl"@], StyleType::Character, TextType::Other, true, seq![]) + group(seq!["ca"@, "va"@, "vp"@, "fig"@, "iqt"@, "efm"@, "fm"@], StyleType::Character, TextType::Other, false, seq![]) + group(seq!["fr"@, "ft"@, "fq"@, "fqa"@, "fk"@, "fl"@, "fp"@, "fv"@, "fw"@, "fdc"@, "fs"@], StyleType::Character, TextType::NoteText, false, seq!["f"@, "fe"@, "ef"@]) + group(seq!["xo"@, "xk"@, "xq"@, "xta"@, "xot"@, "xnt"@, "xdc"@, "xop"@], StyleType::Character, TextType::NoteText, false, seq!["x"@, "ex"@]) + group(seq!["cat"@], StyleType::Character, TextType::NoteText, false, seq![]) + group(seq!["xt"@, "ref"@], StyleType::Character, TextType::NoteText, true, seq![]) + seq![rule_of("ip"@, Some("ip - Introduction - Paragraph"@), StyleType::Paragraph, TextType::Other, false, seq![])] + seq![rule_of("w"@, Some("w - Special Text - Wordlist/Glossary/Dictionary Entry"@), StyleType::Character, TextType::Other, true, seq![])] + seq![rule_of("f"@, Some("f - Footnote"@), StyleType::Note, TextType::NoteText, false, seq![])] + seq![rule_of("x"@, Some("x - Cross Reference"@), StyleType::Note, TextType::NoteText, false, seq![])] + group(seq!["fe"@, "ef"@, "ex"@], StyleType::Note, TextType::NoteText, false, seq![]));
    push_rules(
        &mut rules,
        &[
            "qt-s", "qt-e", "qt1-s", "qt1-e", "qt2-s", "qt2-e", "qt3-s", "qt3-e", "qt4-s",
            "qt4-e", "qt5-s", "qt5-e", "ts-s", "ts-e",
        ],
        StyleType::Milestone,
        TextType::Other,
        false,
    );
    assert(rule_views(rules@) =~= seq![RuleView { marker: "p"@, name: Some("p - Paragraph - Normal - First Line Indent"@), description: Some("Paragraph text, with first line indent"@), style_type: StyleType::Paragraph, text_type: TextType::VerseText, text_bits: 0, nest: false, occurs_under: seq![] }] + group(seq!["m"@, "mi"@, "pi"@, "pi1"@, "pi2"@, "pi3"@, "pc"@, "pr"@, "pm"@, "pmo"@, "pmc"@, "pmr"@, "nb"@, "cls"@, "ph"@, "ph1"@, "ph2"@, "ph3"@, "q"@, "q1"@, "q2"@, "q3"@, "q4"@, "qc"@, "qr"@, "qm"@, "qm1"@, "qm2"@, "qm3"@, "qd"@, "li"@, "li1"@, "li2"@, "li3"@, "li4"@, "lim"@, "lim1"@, "lim2"@, "lf"@, "b"@, "d"@, "po"@], StyleType::Paragraph, TextType::VerseText, false, seq![]) + group(seq!["s"@, "s1"@, "s2"@, "s3"@, "s4"@, "s5"@, "ms"@, "ms1"@, "ms2"@, "ms3"@, "mr"@, "sr"@, "r"@, "sd"@, "sd1"@, "sd2"@, "sd3"@, "sd4"@, "sp"@, "qa"@, "is"@, "is1"@, "is2"@], StyleType::Paragraph, TextType::Section, false, seq![]) + group(seq!["mt"@, "mt1"@, "mt2"@, "mt3"@, "mt4"@, "mte"@, "mte1"@, "mte2"@, "imt"@, "imt1"@, "imt2"@, "imte"@], StyleType::Paragraph, TextType::Title, false, seq![]) + group(seq!["id"@, "usfm"@, "ide"@, "sts"@, "rem"@, "h"@, "h1"@, "h2"@, "h3"@, "toc1"@, "toc2"@, "toc3"@, "toca1"@, "toca2"@, "toca3"@, "ipi"@, "ipq"@, "ipr"@, "ipc"@, "im"@, "imi"@, "imq"@, "iq"@, "iq1"@, "iq2"@, "iq3"@, "ib"@, "ili"@, "ili1"@, "ili2"@, "iot"@, "io"@, "io1"@, "io2"@, "io3"@, "ie"@, "iex"@, "lit"@, "cl"@, "cd"@, "restore"@, "cp"@, "tr"@, "esb"@, "esbe"@, "periph"@], StyleType::Paragraph, TextType::Other, false, seq![]) + group(seq!["c"@], StyleType::Paragraph, TextType::ChapterNumber, false, seq![]) + group(seq!["v"@], StyleType::Character, TextType::VerseNumber, false, seq![]) + group(seq!["th1"@, "th2"@, "th3"@, "th4"@, "th5"@, "thc1"@, "thc2"@, "thc3"@, "thc4"@, "thc5"@, "thr1"@, "thr2"@, "thr3"@, "thr4"@, "thr5"@, "tc1"@, "tc2"@, "tc3"@, "tc4"@, "tc5"@, "tcc1"@, "tcc2"@, "tcc3"@, "tcc4"@, "tcc5"@, "tcr1"@, "tcr2"@, "tcr3"@, "tcr4"@, "tcr5"@], StyleType::Character, TextType::VerseText, false, seq![]) + group(seq!["add"@, "bk"@, "dc"@, "k"@, "nd"@, "ord"@, "pn"@, "png"@, "addpn"@, "qt"@, "sig"@, "sls"@, "tl"@, "wj"@, "em"@, "bd"@, "it"@, "bdit"@, "no"@, "sc"@, "sup"@, "wg"@, "wh"@, "wa"@, "rb"@, "pro"@, "jmp"@, "ndx"@, "rq"@, "lik"@, "liv"@, "litl"@, "qs"@, "qac"@, "ior"@, "flag"@, "ta"@, "wl"@], StyleType::Character, TextType::Other, true, seq![]) + group(seq!["ca"@, "va"@, "vp"@, "fig"@, "iqt"@, "efm"@, "fm"@], StyleType::Character, TextType::Other, false, seq![]) + group(seq!["fr"@, "ft"@, "fq"@, "fqa"@, "fk"@, "fl"@, "fp"@, "fv"@, "fw"@, "fdc"@, "fs"@], StyleType::Character, TextType::NoteText, false, seq!["f"@, "fe"@, "ef"@]) + group(seq!["xo"@, "xk"@, "xq"@, "xta"@, "xot"@, "xnt"@, "xdc"@, "xop"@], StyleType::Character, TextType::NoteText, false, seq!["x"@, "ex"@]) + group(seq!["cat"@], StyleType::Character, TextType::NoteText, false, seq![]) + group(seq!["xt"@, "ref"@], StyleType::Character, TextType::NoteText, true, seq![]) + seq![rule_of("ip"@, Some("ip - Introduction - Paragraph"@), StyleType::Paragraph, TextType::Other, false, seq![])] + seq![rule_of("w"@, Some("w - Special Text - Wordlist/Glossary/Dictionary Entry"@), StyleType::Character, TextType::Other, true, seq![])] + seq![rule_of("f"@, Some("f - Footnote"@), StyleType::Note, TextType::NoteText, false, seq![])] + seq![rule_of("x"@, Some("x - Cross Reference"@), StyleType::Note, TextType::NoteText, false, seq![])] + group(seq!["fe"@, "ef"@, "ex"@], StyleType::Note, TextType::NoteText, false, seq![]) + group(seq!["qt-s"@, "qt-e"@, "qt1-s"@, "qt1-e"@, "qt2-s"@, "qt2-e"@, "qt3-s"@, "qt3-e"@, "qt4-s"@, "qt4-e"@, "qt5-s"@, "qt5-e"@, "ts-s"@, "ts-e"@], StyleType::Milestone, TextType::Other, false, seq![]));
    Arc::new(StyleSheet::new(rules))
}

} // verus!
