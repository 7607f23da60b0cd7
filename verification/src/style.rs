//! Stylesheets: what each marker is, as a Paratext `.sty` file describes it.
use vstd::prelude::*;
use crate::strings::str_eq;

verus! {

/// What kind of node a marker opens.
#[derive(Clone, Copy, Debug, PartialEq, Eq, Structural)]
pub enum StyleType {
    Paragraph,
    Character,
    Note,
    Milestone,
}

/// What kind of text a marker's content is.
#[derive(Clone, Copy, Debug, PartialEq, Eq, Structural)]
pub enum TextType {
    Title,
    Section,
    VerseText,
    NoteText,
    Other,
    BackTranslation,
    ChapterNumber,
    VerseNumber,
}

/// The `\TextProperties` flags of an entry, as bits.
#[derive(Clone, Copy, Debug, PartialEq, Eq, Structural)]
pub struct TextProperties {
    pub bits: u32,
}

/// `nonvernacular`: the text is not in the language of the translation.
pub const NONVERNACULAR: u32 = 1;
/// `publishable`.
pub const PUBLISHABLE: u32 = 2;
/// `vernacular`.
pub const VERNACULAR: u32 = 4;
/// `paragraph`.
pub const PARAGRAPH: u32 = 8;
/// `poetic`.
pub const POETIC: u32 = 16;
/// `note`.
pub const NOTE: u32 = 32;
/// `nonpublishable`.
pub const NONPUBLISHABLE: u32 = 64;

impl TextProperties {
    pub fn empty() -> (properties: TextProperties)
        ensures
            properties.bits == 0,
    {
        TextProperties { bits: 0 }
    }

    pub fn from_bits(bits: u32) -> (properties: TextProperties)
        ensures
            properties.bits == bits,
    {
        TextProperties { bits }
    }

    /// Whether every flag of `flag` is set.
    pub fn contains(&self, flag: u32) -> (b: bool)
        ensures
            b == (self.bits & flag == flag),
    {
        self.bits & flag == flag
    }
}

/// One stylesheet entry.
#[derive(Clone, Debug, PartialEq)]
pub struct StyleRule {
    /// The marker without its backslash: `p`, `nd`, `qt-s`.
    pub marker: String,
    /// `\Name`, when the sheet gives one.
    pub name: Option<String>,
    /// `\Description`, when the sheet gives one.
    pub description: Option<String>,
    pub style_type: StyleType,
    pub text_type: TextType,
    pub text_properties: TextProperties,
    /// Whether the style may nest inside another character style (`NEST` in
    /// its `\OccursUnder`).
    pub nest: bool,
    /// The markers it may occur under, `NEST` excluded.
    pub occurs_under: Vec<String>,
}

impl StyleRule {
    /// A rule with no documentation, no properties and no placement rules.
    pub fn bare(marker: &str, style_type: StyleType, text_type: TextType) -> (rule: StyleRule)
        ensures
            rule.marker@ == marker@,
            rule.name is None,
            rule.description is None,
            rule.style_type == style_type,
            rule.text_type == text_type,
            rule.text_properties.bits == 0,
            !rule.nest,
            rule.occurs_under@.len() == 0,
    {
        StyleRule {
            marker: marker.to_owned(),
            name: None,
            description: None,
            style_type,
            text_type,
            text_properties: TextProperties::empty(),
            nest: false,
            occurs_under: Vec::new(),
        }
    }

    /// A copy of the rule, field for field.
    pub fn duplicate(&self) -> (rule: StyleRule)
        ensures
            rule.marker@ == self.marker@,
            rule.name == self.name,
            rule.description == self.description,
            rule.style_type == self.style_type,
            rule.text_type == self.text_type,
            rule.text_properties == self.text_properties,
            rule.nest == self.nest,
            rule.occurs_under@ == self.occurs_under@,
    {
        let mut occurs_under: Vec<String> = Vec::new();
        let mut i: usize = 0;
        while i < self.occurs_under.len()
            invariant
                i <= self.occurs_under@.len(),
                occurs_under@ == self.occurs_under@.take(i as int),
            decreases self.occurs_under@.len() - i,
        {
            occurs_under.push(self.occurs_under[i].clone());
            assert(occurs_under@ =~= self.occurs_under@.take(i + 1));
            i = i + 1;
        }
        assert(self.occurs_under@.take(self.occurs_under@.len() as int) =~= self.occurs_under@);
        StyleRule {
            marker: self.marker.clone(),
            name: match &self.name {
                Some(name) => Some(name.clone()),
                None => None,
            },
            description: match &self.description {
                Some(d) => Some(d.clone()),
                None => None,
            },
            style_type: self.style_type,
            text_type: self.text_type,
            text_properties: self.text_properties,
            nest: self.nest,
            occurs_under,
        }
    }

    pub fn is_paragraph(&self) -> (b: bool)
        ensures
            b == (self.style_type == StyleType::Paragraph),
    {
        self.style_type == StyleType::Paragraph
    }

    pub fn is_character(&self) -> (b: bool)
        ensures
            b == (self.style_type == StyleType::Character),
    {
        self.style_type == StyleType::Character
    }

    pub fn is_note(&self) -> (b: bool)
        ensures
            b == (self.style_type == StyleType::Note),
    {
        self.style_type == StyleType::Note
    }

    pub fn is_milestone(&self) -> (b: bool)
        ensures
            b == (self.style_type == StyleType::Milestone),
    {
        self.style_type == StyleType::Milestone
    }

    /// Whether the content is scripture text (`\TextType VerseText`).
    pub fn is_verse_text(&self) -> (b: bool)
        ensures
            b == (self.text_type == TextType::VerseText),
    {
        self.text_type == TextType::VerseText
    }

    /// Whether the content is not in the translation's language.
    pub fn is_nonvernacular(&self) -> (b: bool)
        ensures
            b == (self.text_properties.bits & NONVERNACULAR == NONVERNACULAR),
    {
        self.text_properties.contains(NONVERNACULAR)
    }
}

/// The index of the first rule whose marker is `marker`, if any.
pub open spec fn first_index_of(rules: Seq<StyleRule>, marker: Seq<char>) -> Option<int> {
    if exists|i: int| 0 <= i < rules.len() && rules[i].marker@ == marker {
        Some(choose|i: int|
            0 <= i < rules.len() && rules[i].marker@ == marker && forall|j: int|
                0 <= j < i ==> rules[j].marker@ != marker)
    } else {
        None
    }
}

/// An ordered list of rules, looked up by index or by marker.
#[derive(Clone, Debug)]
pub struct StyleSheet {
    pub rules: Vec<StyleRule>,
}

impl StyleSheet {
    pub fn new(rules: Vec<StyleRule>) -> (sheet: StyleSheet)
        ensures
            sheet.rules@ == rules@,
    {
        StyleSheet { rules }
    }

    pub open spec fn len(&self) -> nat {
        self.rules@.len()
    }

    pub fn rule_count(&self) -> (n: usize)
        ensures
            n == self.len(),
    {
        self.rules.len()
    }

    pub fn get_rule(&self, index: usize) -> (rule: &StyleRule)
        requires
            index < self.len(),
        ensures
            *rule == self.rules@[index as int],
    {
        &self.rules[index]
    }

    /// The index of the rule for `marker`: the first one, if the sheet holds
    /// the marker more than once.
    pub fn get_marker_index(&self, marker: &str) -> (index: Option<usize>)
        ensures
            match index {
                Some(i) => i < self.len() && self.rules@[i as int].marker@ == marker@ && forall|j: int|
                    0 <= j < i ==> self.rules@[j].marker@ != marker@,
                None => forall|j: int| 0 <= j < self.len() ==> self.rules@[j].marker@ != marker@,
            },
    {
        let mut i: usize = 0;
        while i < self.rules.len()
            invariant
                i <= self.rules@.len(),
                forall|j: int| 0 <= j < i ==> self.rules@[j].marker@ != marker@,
            decreases self.rules@.len() - i,
        {
            if str_eq(self.rules[i].marker.as_str(), marker) {
                return Some(i);
            }
            i = i + 1;
        }
        None
    }

    /// The rule for `marker`, if the sheet has one.
    pub fn get_rule_by_marker(&self, marker: &str) -> (rule: Option<&StyleRule>)
        ensures
            match rule {
                Some(r) => exists|i: int|
                    0 <= i < self.len() && self.rules@[i] == *r && r.marker@ == marker@,
                None => forall|j: int| 0 <= j < self.len() ==> self.rules@[j].marker@ != marker@,
            },
    {
        match self.get_marker_index(marker) {
            Some(i) => Some(&self.rules[i]),
            None => None,
        }
    }

    /// Add a rule, replacing the first one with the same marker if there is
    /// one: a project sheet names the markers it adds or overrides.
    pub fn add_rule(&mut self, rule: StyleRule)
        ensures
            match first_index_of(old(self).rules@, rule.marker@) {
                Some(i) => final(self).rules@ == old(self).rules@.update(i, rule),
                None => final(self).rules@ == old(self).rules@.push(rule),
            },
    {
        let ghost marker = rule.marker@;
        match self.get_marker_index(rule.marker.as_str()) {
            Some(i) => {
                proof {
                    let w = i as int;
                    assert(0 <= w < old(self).rules@.len() && old(self).rules@[w].marker@ == marker);
                    let c = choose|k: int|
                        0 <= k < old(self).rules@.len() && old(self).rules@[k].marker@ == marker
                            && forall|j: int| 0 <= j < k ==> old(self).rules@[j].marker@ != marker;
                    assert(c == w) by {
                        if c < w {
                        } else if w < c {
                        }
                    }
                }
                self.rules.set(i, rule);
            },
            None => {
                self.rules.push(rule);
            },
        }
    }
}

} // verus!
