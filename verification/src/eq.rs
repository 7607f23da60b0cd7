//! Comparing two documents read from different text: [`eq_ignoring_spans`].
//!
//! A span is where a node was read from, so two spellings of one document put
//! the same node at different offsets; and a `StyleId` is an index into its
//! own document's sheet, where the styles the parser derives are appended in
//! the order they are first seen. So the comparison leaves every span out and
//! compares the marker each style resolves to, each through its own
//! document's sheet. Everything else is compared by value, a note's caller
//! and category and a periph's title included.
use vstd::prelude::*;
use crate::ast::{
    all_block_styles_below, all_inline_styles_below, block_styles_below, blocks_styles_below,
    inline_styles_below, inlines_styles_below, lemma_block_styles, lemma_inline_styles, Attribute,
    Attributes, Block, Caller, Document, Inline, Text, TableCell, TableRow,
};
use crate::book::BookCode;
use crate::codegen::{code_spelling, push_code};
use crate::number::NumberList;
use crate::strings::str_eq;
use crate::style::StyleSheet;

verus! {

/// The same attribute pairs, name by name and value by value.
pub open spec fn same_pairs(left: Seq<Attribute>, right: Seq<Attribute>) -> bool {
    &&& left.len() == right.len()
    &&& forall|i: int|
        0 <= i < left.len() ==> (#[trigger] left[i]).name@ == right[i].name@ && left[i].value@
            == right[i].value@
}

/// Both without an attribute list, or both with one holding the same pairs:
/// a bare `|` is not the same as none.
pub open spec fn same_attributes(left: Option<Attributes>, right: Option<Attributes>) -> bool {
    match left {
        Some(a) => match right {
            Some(b) => same_pairs(a.pairs@, b.pairs@),
            None => false,
        },
        None => right is None,
    }
}

/// Two optional texts with the same content.
pub open spec fn same_text(left: Option<Text>, right: Option<Text>) -> bool {
    match left {
        Some(a) => match right {
            Some(b) => a.content@ == b.content@,
            None => false,
        },
        None => right is None,
    }
}

/// Two optional strings with the same characters.
pub open spec fn same_string(left: Option<String>, right: Option<String>) -> bool {
    match left {
        Some(a) => match right {
            Some(b) => a@ == b@,
            None => false,
        },
        None => right is None,
    }
}

/// Two number lists with the same ranges.
pub open spec fn same_number(left: NumberList, right: NumberList) -> bool {
    left.ranges@ == right.ranges@ && left.guard_rtl == right.guard_rtl
}

/// Two optional number lists with the same ranges.
pub open spec fn same_opt_number(left: Option<NumberList>, right: Option<NumberList>) -> bool {
    match left {
        Some(a) => match right {
            Some(b) => same_number(a, b),
            None => false,
        },
        None => right is None,
    }
}

/// The same note caller.
pub open spec fn same_caller(left: Caller, right: Caller) -> bool {
    match left {
        Caller::Plus => right is Plus,
        Caller::Minus => right is Minus,
        Caller::Custom(a) => match right {
            Caller::Custom(b) => a@ == b@,
            _ => false,
        },
    }
}

/// Two styles that resolve to the same marker, each in its own sheet.
pub open spec fn same_style(
    left_sheet: StyleSheet,
    right_sheet: StyleSheet,
    left: u32,
    right: u32,
) -> bool {
    left_sheet.rules@[left as int].marker@ == right_sheet.rules@[right as int].marker@
}

/// The same inline node, spans left out and styles compared by marker.
pub open spec fn same_inline(ls: StyleSheet, rs: StyleSheet, left: Inline, right: Inline) -> bool
    decreases left, 0nat,
{
    match left {
        Inline::Text(a) => match right {
            Inline::Text(b) => a.content@ == b.content@,
            _ => false,
        },
        Inline::VerseStart(a) => match right {
            Inline::VerseStart(b) => same_number(a.number, b.number) && same_opt_number(
                a.alt_number,
                b.alt_number,
            ) && same_string(a.pub_number, b.pub_number),
            _ => false,
        },
        Inline::VerseEnd(a) => match right {
            Inline::VerseEnd(b) => same_number(a.number, b.number),
            _ => false,
        },
        Inline::Char(a) => match right {
            Inline::Char(b) => same_style(ls, rs, a.style.0, b.style.0) && a.children@.len()
                == b.children@.len() && same_inlines_upto(
                ls,
                rs,
                a.children@,
                b.children@,
                a.children@.len(),
            ) && same_attributes(a.attributes, b.attributes),
            _ => false,
        },
        Inline::Note(a) => match right {
            Inline::Note(b) => same_style(ls, rs, a.style.0, b.style.0) && same_caller(
                a.caller,
                b.caller,
            ) && same_text(a.category, b.category) && a.children@.len() == b.children@.len()
                && same_inlines_upto(ls, rs, a.children@, b.children@, a.children@.len()),
            _ => false,
        },
        Inline::Milestone(a) => match right {
            Inline::Milestone(b) => same_style(ls, rs, a.style.0, b.style.0) && same_attributes(
                a.attributes,
                b.attributes,
            ),
            _ => false,
        },
        Inline::OptBreak(_) => right is OptBreak,
    }
}

/// The first `k` nodes of two lists are pairwise the same.
pub open spec fn same_inlines_upto(
    ls: StyleSheet,
    rs: StyleSheet,
    left: Seq<Inline>,
    right: Seq<Inline>,
    k: nat,
) -> bool
    decreases left, k,
{
    if k == 0 {
        true
    } else if k > left.len() || k > right.len() {
        false
    } else {
        same_inlines_upto(ls, rs, left, right, (k - 1) as nat) && same_inline(
            ls,
            rs,
            left[k - 1],
            right[k - 1],
        )
    }
}

/// Two lists of inline nodes, pairwise the same.
pub open spec fn same_inlines(
    ls: StyleSheet,
    rs: StyleSheet,
    left: Seq<Inline>,
    right: Seq<Inline>,
) -> bool {
    left.len() == right.len() && same_inlines_upto(ls, rs, left, right, left.len())
}

/// The same table cell.
pub open spec fn same_cell(ls: StyleSheet, rs: StyleSheet, left: TableCell, right: TableCell) -> bool {
    &&& left.header == right.header
    &&& left.alignment == right.alignment
    &&& left.column == right.column
    &&& left.colspan == right.colspan
    &&& same_inlines(ls, rs, left.children@, right.children@)
}

/// The same table row.
pub open spec fn same_row(ls: StyleSheet, rs: StyleSheet, left: TableRow, right: TableRow) -> bool {
    &&& left.cells@.len() == right.cells@.len()
    &&& forall|i: int|
        0 <= i < left.cells@.len() ==> same_cell(ls, rs, #[trigger] left.cells@[i], right.cells@[i])
}

/// The same block, spans left out and styles compared by marker.
pub open spec fn same_block(ls: StyleSheet, rs: StyleSheet, left: Block, right: Block) -> bool
    decreases left, 0nat,
{
    match left {
        Block::Book(a) => match right {
            Block::Book(b) => code_spelling(a.code) == code_spelling(b.code) && a.description@
                == b.description@,
            _ => false,
        },
        Block::ChapterStart(a) => match right {
            Block::ChapterStart(b) => a.number == b.number && same_opt_number(
                a.alt_number,
                b.alt_number,
            ) && same_string(a.pub_number, b.pub_number),
            _ => false,
        },
        Block::ChapterEnd(a) => match right {
            Block::ChapterEnd(b) => a.number == b.number,
            _ => false,
        },
        Block::Para(a) => match right {
            Block::Para(b) => same_style(ls, rs, a.style.0, b.style.0) && same_inlines(
                ls,
                rs,
                a.children@,
                b.children@,
            ),
            _ => false,
        },
        Block::Table(a) => match right {
            Block::Table(b) => a.rows@.len() == b.rows@.len() && forall|i: int|
                0 <= i < a.rows@.len() ==> same_row(ls, rs, #[trigger] a.rows@[i], b.rows@[i]),
            _ => false,
        },
        Block::Milestone(a) => match right {
            Block::Milestone(b) => same_style(ls, rs, a.style.0, b.style.0) && same_attributes(
                a.attributes,
                b.attributes,
            ),
            _ => false,
        },
        Block::Sidebar(a) => match right {
            Block::Sidebar(b) => same_style(ls, rs, a.style.0, b.style.0) && same_text(
                a.category,
                b.category,
            ) && a.blocks@.len() == b.blocks@.len() && same_blocks_upto(
                ls,
                rs,
                a.blocks@,
                b.blocks@,
                a.blocks@.len(),
            ),
            _ => false,
        },
        Block::Periph(a) => match right {
            Block::Periph(b) => same_style(ls, rs, a.style.0, b.style.0) && same_text(
                a.title,
                b.title,
            ) && same_attributes(a.attributes, b.attributes) && a.blocks@.len()
                == b.blocks@.len() && same_blocks_upto(
                ls,
                rs,
                a.blocks@,
                b.blocks@,
                a.blocks@.len(),
            ),
            _ => false,
        },
    }
}

/// The first `k` blocks of two lists are pairwise the same.
pub open spec fn same_blocks_upto(
    ls: StyleSheet,
    rs: StyleSheet,
    left: Seq<Block>,
    right: Seq<Block>,
    k: nat,
) -> bool
    decreases left, k,
{
    if k == 0 {
        true
    } else if k > left.len() || k > right.len() {
        false
    } else {
        same_blocks_upto(ls, rs, left, right, (k - 1) as nat) && same_block(
            ls,
            rs,
            left[k - 1],
            right[k - 1],
        )
    }
}

/// The sheet a document's styles resolve against.
pub open spec fn sheet_of(document: Document) -> StyleSheet {
    *document.style_sheet
}

/// Two documents hold the same tree: the same blocks, pairwise, with spans
/// left out and each style compared by the marker it resolves to in its own
/// document's sheet.
pub open spec fn same_document(left: Document, right: Document) -> bool {
    left.blocks@.len() == right.blocks@.len() && same_blocks_upto(
        *left.style_sheet,
        *right.style_sheet,
        left.blocks@,
        right.blocks@,
        left.blocks@.len(),
    )
}

/// Whether two documents hold the same tree, comparing styles by marker name
/// and ignoring every span.
pub fn eq_ignoring_spans(left: &Document, right: &Document) -> (equal: bool)
    requires
        left.wf(),
        right.wf(),
    ensures
        equal == same_document(*left, *right),
{
    let ls: &StyleSheet = &left.style_sheet;
    let rs: &StyleSheet = &right.style_sheet;
    compare_blocks(ls, rs, &left.blocks, &right.blocks)
}

/// Two book codes with the same three characters.
fn compare_codes(left: BookCode, right: BookCode) -> (b: bool)
    ensures
        b == (code_spelling(left) == code_spelling(right)),
{
    let mut l = String::new();
    push_code(&mut l, left);
    let mut r = String::new();
    push_code(&mut r, right);
    assert(l@ =~= code_spelling(left));
    assert(r@ =~= code_spelling(right));
    str_eq(l.as_str(), r.as_str())
}

fn compare_strings(left: &Option<String>, right: &Option<String>) -> (b: bool)
    ensures
        b == same_string(*left, *right),
{
    match left {
        Some(a) => match right {
            Some(b) => str_eq(a.as_str(), b.as_str()),
            None => false,
        },
        None => right.is_none(),
    }
}

fn compare_texts(left: &Option<Text>, right: &Option<Text>) -> (b: bool)
    ensures
        b == same_text(*left, *right),
{
    match left {
        Some(a) => match right {
            Some(b) => str_eq(a.content.as_str(), b.content.as_str()),
            None => false,
        },
        None => right.is_none(),
    }
}

fn compare_numbers(left: &Option<NumberList>, right: &Option<NumberList>) -> (b: bool)
    ensures
        b == same_opt_number(*left, *right),
{
    match left {
        Some(a) => match right {
            Some(b) => a.same(b),
            None => false,
        },
        None => right.is_none(),
    }
}

fn compare_callers(left: &Caller, right: &Caller) -> (b: bool)
    ensures
        b == same_caller(*left, *right),
{
    match left {
        Caller::Plus => matches!(right, Caller::Plus),
        Caller::Minus => matches!(right, Caller::Minus),
        Caller::Custom(a) => match right {
            Caller::Custom(b) => str_eq(a.as_str(), b.as_str()),
            _ => false,
        },
    }
}

/// `None` and `Some` with no pairs are different: the `Option` is compared
/// before the pairs.
pub fn option_attributes(left: &Option<Attributes>, right: &Option<Attributes>) -> (b: bool)
    ensures
        b == same_attributes(*left, *right),
{
    match left {
        Some(a) => match right {
            Some(b) => {
                if a.pairs.len() != b.pairs.len() {
                    return false;
                }
                let mut i: usize = 0;
                while i < a.pairs.len()
                    invariant
                        i <= a.pairs@.len(),
                        a.pairs@.len() == b.pairs@.len(),
                        *left == Some(*a),
                        *right == Some(*b),
                        forall|j: int|
                            0 <= j < i ==> (#[trigger] a.pairs@[j]).name@ == b.pairs@[j].name@
                                && a.pairs@[j].value@ == b.pairs@[j].value@,
                    decreases a.pairs@.len() - i,
                {
                    if !str_eq(a.pairs[i].name.as_str(), b.pairs[i].name.as_str()) || !str_eq(
                        a.pairs[i].value.as_str(),
                        b.pairs[i].value.as_str(),
                    ) {
                        assert(!(a.pairs@[i as int].name@ == b.pairs@[i as int].name@
                            && a.pairs@[i as int].value@ == b.pairs@[i as int].value@));
                        return false;
                    }
                    i = i + 1;
                }
                true
            },
            None => false,
        },
        None => right.is_none(),
    }
}

fn compare_style(ls: &StyleSheet, rs: &StyleSheet, left: u32, right: u32) -> (b: bool)
    requires
        left < ls.rules@.len(),
        right < rs.rules@.len(),
    ensures
        b == same_style(*ls, *rs, left, right),
{
    str_eq(ls.rules[left as usize].marker.as_str(), rs.rules[right as usize].marker.as_str())
}

fn compare_inline(ls: &StyleSheet, rs: &StyleSheet, left: &Inline, right: &Inline) -> (b: bool)
    requires
        inline_styles_below(*left, ls.rules@.len()),
        inline_styles_below(*right, rs.rules@.len()),
    ensures
        b == same_inline(*ls, *rs, *left, *right),
    decreases left,
{
    match left {
        Inline::Text(a) => match right {
            Inline::Text(b) => str_eq(a.content.as_str(), b.content.as_str()),
            _ => false,
        },
        Inline::VerseStart(a) => match right {
            Inline::VerseStart(b) => a.number.same(&b.number) && compare_numbers(
                &a.alt_number,
                &b.alt_number,
            ) && compare_strings(&a.pub_number, &b.pub_number),
            _ => false,
        },
        Inline::VerseEnd(a) => match right {
            Inline::VerseEnd(b) => a.number.same(&b.number),
            _ => false,
        },
        Inline::Char(a) => match right {
            Inline::Char(b) => {
                proof {
                    lemma_inline_styles(a.children@, ls.rules@.len());
                    lemma_inline_styles(b.children@, rs.rules@.len());
                }
                compare_style(ls, rs, a.style.0, b.style.0) && compare_inlines(
                    ls,
                    rs,
                    &a.children,
                    &b.children,
                ) && option_attributes(&a.attributes, &b.attributes)
            },
            _ => false,
        },
        Inline::Note(a) => match right {
            Inline::Note(b) => {
                proof {
                    lemma_inline_styles(a.children@, ls.rules@.len());
                    lemma_inline_styles(b.children@, rs.rules@.len());
                }
                compare_style(ls, rs, a.style.0, b.style.0) && compare_callers(
                    &a.caller,
                    &b.caller,
                ) && compare_texts(&a.category, &b.category) && compare_inlines(
                    ls,
                    rs,
                    &a.children,
                    &b.children,
                )
            },
            _ => false,
        },
        Inline::Milestone(a) => match right {
            Inline::Milestone(b) => compare_style(ls, rs, a.style.0, b.style.0)
                && option_attributes(&a.attributes, &b.attributes),
            _ => false,
        },
        Inline::OptBreak(_) => matches!(right, Inline::OptBreak(_)),
    }
}

fn compare_inlines(ls: &StyleSheet, rs: &StyleSheet, left: &Vec<Inline>, right: &Vec<Inline>) -> (b: bool)
    requires
        inlines_styles_below(left@, ls.rules@.len()),
        inlines_styles_below(right@, rs.rules@.len()),
    ensures
        b == same_inlines(*ls, *rs, left@, right@),
    decreases left,
{
    if left.len() != right.len() {
        return false;
    }
    let mut k: usize = 0;
    while k < left.len()
        invariant
            k <= left@.len(),
            left@.len() == right@.len(),
            inlines_styles_below(left@, ls.rules@.len()),
            inlines_styles_below(right@, rs.rules@.len()),
            same_inlines_upto(*ls, *rs, left@, right@, k as nat),
        decreases left@.len() - k,
    {
        assert(inline_styles_below(left@[k as int], ls.rules@.len()));
        assert(inline_styles_below(right@[k as int], rs.rules@.len()));
        proof {
            assert(decreases_to!(left => left@));
            assert(decreases_to!(left@ => left@[k as int]));
        }
        if !compare_inline(ls, rs, &left[k], &right[k]) {
            assert(!same_inlines_upto(*ls, *rs, left@, right@, (k + 1) as nat));
            proof {
                lemma_upto_inlines_stops(*ls, *rs, left@, right@, (k + 1) as nat, left@.len());
            }
            return false;
        }
        k = k + 1;
    }
    true
}

/// Once two prefixes differ, every longer prefix differs too.
proof fn lemma_upto_inlines_stops(
    ls: StyleSheet,
    rs: StyleSheet,
    left: Seq<Inline>,
    right: Seq<Inline>,
    k: nat,
    m: nat,
)
    requires
        k <= m,
        !same_inlines_upto(ls, rs, left, right, k),
    ensures
        !same_inlines_upto(ls, rs, left, right, m),
    decreases m - k,
{
    if k < m {
        lemma_upto_inlines_stops(ls, rs, left, right, k, (m - 1) as nat);
    }
}

/// Once two prefixes of block lists differ, every longer prefix differs too.
proof fn lemma_upto_blocks_stops(
    ls: StyleSheet,
    rs: StyleSheet,
    left: Seq<Block>,
    right: Seq<Block>,
    k: nat,
    m: nat,
)
    requires
        k <= m,
        !same_blocks_upto(ls, rs, left, right, k),
    ensures
        !same_blocks_upto(ls, rs, left, right, m),
    decreases m - k,
{
    if k < m {
        lemma_upto_blocks_stops(ls, rs, left, right, k, (m - 1) as nat);
    }
}

fn compare_cell(ls: &StyleSheet, rs: &StyleSheet, left: &TableCell, right: &TableCell) -> (b: bool)
    requires
        inlines_styles_below(left.children@, ls.rules@.len()),
        inlines_styles_below(right.children@, rs.rules@.len()),
    ensures
        b == same_cell(*ls, *rs, *left, *right),
{
    left.header == right.header && left.alignment == right.alignment && left.column
        == right.column && left.colspan == right.colspan && compare_inlines(
        ls,
        rs,
        &left.children,
        &right.children,
    )
}

fn compare_row(ls: &StyleSheet, rs: &StyleSheet, left: &TableRow, right: &TableRow) -> (b: bool)
    requires
        forall|c: int|
            0 <= c < left.cells.len() ==> inlines_styles_below(
                (#[trigger] left.cells[c]).children@,
                ls.rules@.len(),
            ),
        forall|c: int|
            0 <= c < right.cells.len() ==> inlines_styles_below(
                (#[trigger] right.cells[c]).children@,
                rs.rules@.len(),
            ),
    ensures
        b == same_row(*ls, *rs, *left, *right),
{
    if left.cells.len() != right.cells.len() {
        return false;
    }
    let mut i: usize = 0;
    while i < left.cells.len()
        invariant
            i <= left.cells@.len(),
            left.cells@.len() == right.cells@.len(),
            forall|c: int|
                0 <= c < left.cells.len() ==> inlines_styles_below(
                    (#[trigger] left.cells[c]).children@,
                    ls.rules@.len(),
                ),
            forall|c: int|
                0 <= c < right.cells.len() ==> inlines_styles_below(
                    (#[trigger] right.cells[c]).children@,
                    rs.rules@.len(),
                ),
            forall|j: int| 0 <= j < i ==> same_cell(*ls, *rs, #[trigger] left.cells@[j], right.cells@[j]),
        decreases left.cells@.len() - i,
    {
        assert(inlines_styles_below(left.cells[i as int].children@, ls.rules@.len()));
        assert(inlines_styles_below(right.cells[i as int].children@, rs.rules@.len()));
        if !compare_cell(ls, rs, &left.cells[i], &right.cells[i]) {
            assert(!same_cell(*ls, *rs, left.cells@[i as int], right.cells@[i as int]));
            return false;
        }
        i = i + 1;
    }
    true
}

fn compare_block(ls: &StyleSheet, rs: &StyleSheet, left: &Block, right: &Block) -> (b: bool)
    requires
        block_styles_below(*left, ls.rules@.len()),
        block_styles_below(*right, rs.rules@.len()),
    ensures
        b == same_block(*ls, *rs, *left, *right),
    decreases left,
{
    match left {
        Block::Book(a) => match right {
            Block::Book(b) => compare_codes(a.code, b.code) && str_eq(
                a.description.as_str(),
                b.description.as_str(),
            ),
            _ => false,
        },
        Block::ChapterStart(a) => match right {
            Block::ChapterStart(b) => a.number == b.number && compare_numbers(
                &a.alt_number,
                &b.alt_number,
            ) && compare_strings(&a.pub_number, &b.pub_number),
            _ => false,
        },
        Block::ChapterEnd(a) => match right {
            Block::ChapterEnd(b) => a.number == b.number,
            _ => false,
        },
        Block::Para(a) => match right {
            Block::Para(b) => compare_style(ls, rs, a.style.0, b.style.0) && compare_inlines(
                ls,
                rs,
                &a.children,
                &b.children,
            ),
            _ => false,
        },
        Block::Table(a) => match right {
            Block::Table(b) => {
                if a.rows.len() != b.rows.len() {
                    return false;
                }
                let mut i: usize = 0;
                while i < a.rows.len()
                    invariant
                        i <= a.rows@.len(),
                        a.rows@.len() == b.rows@.len(),
                        *left == Block::Table(*a),
                        *right == Block::Table(*b),
                        block_styles_below(Block::Table(*a), ls.rules@.len()),
                        block_styles_below(Block::Table(*b), rs.rules@.len()),
                        forall|j: int| 0 <= j < i ==> same_row(*ls, *rs, #[trigger] a.rows@[j], b.rows@[j]),
                    decreases a.rows@.len() - i,
                {
                    assert(a.rows[i as int] == a.rows@[i as int]);
                    assert(b.rows[i as int] == b.rows@[i as int]);
                    if !compare_row(ls, rs, &a.rows[i], &b.rows[i]) {
                        assert(!same_row(*ls, *rs, a.rows@[i as int], b.rows@[i as int]));
                        return false;
                    }
                    i = i + 1;
                }
                true
            },
            _ => false,
        },
        Block::Milestone(a) => match right {
            Block::Milestone(b) => compare_style(ls, rs, a.style.0, b.style.0)
                && option_attributes(&a.attributes, &b.attributes),
            _ => false,
        },
        Block::Sidebar(a) => match right {
            Block::Sidebar(b) => {
                proof {
                    lemma_block_styles(a.blocks@, ls.rules@.len());
                    lemma_block_styles(b.blocks@, rs.rules@.len());
                }
                compare_style(ls, rs, a.style.0, b.style.0) && compare_texts(
                    &a.category,
                    &b.category,
                ) && compare_blocks(ls, rs, &a.blocks, &b.blocks)
            },
            _ => false,
        },
        Block::Periph(a) => match right {
            Block::Periph(b) => {
                proof {
                    lemma_block_styles(a.blocks@, ls.rules@.len());
                    lemma_block_styles(b.blocks@, rs.rules@.len());
                }
                compare_style(ls, rs, a.style.0, b.style.0) && compare_texts(&a.title, &b.title)
                    && option_attributes(&a.attributes, &b.attributes) && compare_blocks(
                    ls,
                    rs,
                    &a.blocks,
                    &b.blocks,
                )
            },
            _ => false,
        },
    }
}

fn compare_blocks(ls: &StyleSheet, rs: &StyleSheet, left: &Vec<Block>, right: &Vec<Block>) -> (b: bool)
    requires
        blocks_styles_below(left@, ls.rules@.len()),
        blocks_styles_below(right@, rs.rules@.len()),
    ensures
        b == (left@.len() == right@.len() && same_blocks_upto(*ls, *rs, left@, right@, left@.len())),
    decreases left,
{
    if left.len() != right.len() {
        return false;
    }
    let mut k: usize = 0;
    while k < left.len()
        invariant
            k <= left@.len(),
            left@.len() == right@.len(),
            blocks_styles_below(left@, ls.rules@.len()),
            blocks_styles_below(right@, rs.rules@.len()),
            same_blocks_upto(*ls, *rs, left@, right@, k as nat),
        decreases left@.len() - k,
    {
        assert(block_styles_below(left@[k as int], ls.rules@.len()));
        assert(block_styles_below(right@[k as int], rs.rules@.len()));
        proof {
            assert(decreases_to!(left => left@));
            assert(decreases_to!(left@ => left@[k as int]));
        }
        if !compare_block(ls, rs, &left[k], &right[k]) {
            assert(!same_blocks_upto(*ls, *rs, left@, right@, (k + 1) as nat));
            proof {
                lemma_upto_blocks_stops(*ls, *rs, left@, right@, (k + 1) as nat, left@.len());
            }
            return false;
        }
        k = k + 1;
    }
    true
}

/// Every inline node is the same as itself.
proof fn lemma_same_inline_reflexive(sheet: StyleSheet, node: Inline)
    ensures
        same_inline(sheet, sheet, node, node),
    decreases node, 0nat,
{
    match node {
        Inline::Char(c) => {
            lemma_same_inlines_reflexive(sheet, c.children@, c.children@.len());
        },
        Inline::Note(x) => {
            lemma_same_inlines_reflexive(sheet, x.children@, x.children@.len());
        },
        _ => {},
    }
}

/// The first `k` nodes of a list are the same as themselves.
proof fn lemma_same_inlines_reflexive(sheet: StyleSheet, nodes: Seq<Inline>, k: nat)
    requires
        k <= nodes.len(),
    ensures
        same_inlines_upto(sheet, sheet, nodes, nodes, k),
    decreases nodes, k,
{
    if k > 0 {
        lemma_same_inlines_reflexive(sheet, nodes, (k - 1) as nat);
        lemma_same_inline_reflexive(sheet, nodes[k - 1]);
    }
}

/// Every block is the same as itself.
proof fn lemma_same_block_reflexive(sheet: StyleSheet, block: Block)
    ensures
        same_block(sheet, sheet, block, block),
    decreases block, 0nat,
{
    match block {
        Block::Para(p) => {
            lemma_same_inlines_reflexive(sheet, p.children@, p.children@.len());
        },
        Block::Table(t) => {
            assert forall|i: int| 0 <= i < t.rows@.len() implies same_row(
                sheet,
                sheet,
                #[trigger] t.rows@[i],
                t.rows@[i],
            ) by {
                let row = t.rows@[i];
                assert forall|j: int| 0 <= j < row.cells@.len() implies same_cell(
                    sheet,
                    sheet,
                    #[trigger] row.cells@[j],
                    row.cells@[j],
                ) by {
                    let cell = row.cells@[j];
                    lemma_same_inlines_reflexive(sheet, cell.children@, cell.children@.len());
                }
            }
        },
        Block::Sidebar(sb) => {
            lemma_same_blocks_reflexive(sheet, sb.blocks@, sb.blocks@.len());
        },
        Block::Periph(pb) => {
            lemma_same_blocks_reflexive(sheet, pb.blocks@, pb.blocks@.len());
        },
        _ => {},
    }
}

/// The first `k` blocks of a list are the same as themselves.
proof fn lemma_same_blocks_reflexive(sheet: StyleSheet, blocks: Seq<Block>, k: nat)
    requires
        k <= blocks.len(),
    ensures
        same_blocks_upto(sheet, sheet, blocks, blocks, k),
    decreases blocks, k,
{
    if k > 0 {
        lemma_same_blocks_reflexive(sheet, blocks, (k - 1) as nat);
        lemma_same_block_reflexive(sheet, blocks[k - 1]);
    }
}

/// A document holds the same tree as itself, whatever it holds.
pub proof fn law_same_document_reflexive(document: Document)
    ensures
        same_document(document, document),
{
    lemma_same_blocks_reflexive(sheet_of(document), document.blocks@, document.blocks@.len());
}

/// Two inline nodes compared the other way round give the same answer.
proof fn lemma_same_inline_symmetric(ls: StyleSheet, rs: StyleSheet, left: Inline, right: Inline)
    ensures
        same_inline(ls, rs, left, right) == same_inline(rs, ls, right, left),
    decreases left, 0nat,
{
    match left {
        Inline::Char(a) => match right {
            Inline::Char(b) => {
                if a.children@.len() == b.children@.len() {
                    lemma_same_inlines_symmetric(ls, rs, a.children@, b.children@, a.children@.len());
                }
            },
            _ => {},
        },
        Inline::Note(a) => match right {
            Inline::Note(b) => {
                if a.children@.len() == b.children@.len() {
                    lemma_same_inlines_symmetric(ls, rs, a.children@, b.children@, a.children@.len());
                }
            },
            _ => {},
        },
        _ => {},
    }
}

/// Prefixes of two lists compared the other way round give the same answer.
proof fn lemma_same_inlines_symmetric(
    ls: StyleSheet,
    rs: StyleSheet,
    left: Seq<Inline>,
    right: Seq<Inline>,
    k: nat,
)
    ensures
        same_inlines_upto(ls, rs, left, right, k) == same_inlines_upto(rs, ls, right, left, k),
    decreases left, k,
{
    if k > 0 && k <= left.len() && k <= right.len() {
        lemma_same_inlines_symmetric(ls, rs, left, right, (k - 1) as nat);
        lemma_same_inline_symmetric(ls, rs, left[k - 1], right[k - 1]);
    }
}

/// Two blocks compared the other way round give the same answer.
proof fn lemma_same_block_symmetric(ls: StyleSheet, rs: StyleSheet, left: Block, right: Block)
    ensures
        same_block(ls, rs, left, right) == same_block(rs, ls, right, left),
    decreases left, 0nat,
{
    match left {
        Block::Para(a) => match right {
            Block::Para(b) => {
                lemma_same_inlines_symmetric(ls, rs, a.children@, b.children@, a.children@.len());
            },
            _ => {},
        },
        Block::Table(a) => match right {
            Block::Table(b) => {
                if a.rows@.len() == b.rows@.len() {
                    assert forall|i: int| 0 <= i < a.rows@.len() implies same_row(
                        ls,
                        rs,
                        #[trigger] a.rows@[i],
                        b.rows@[i],
                    ) == same_row(rs, ls, b.rows@[i], a.rows@[i]) by {
                        let x = a.rows@[i];
                        let y = b.rows@[i];
                        if x.cells@.len() == y.cells@.len() {
                            assert forall|j: int| 0 <= j < x.cells@.len() implies same_cell(
                                ls,
                                rs,
                                #[trigger] x.cells@[j],
                                y.cells@[j],
                            ) == same_cell(rs, ls, y.cells@[j], x.cells@[j]) by {
                                let c = x.cells@[j];
                                let d = y.cells@[j];
                                lemma_same_inlines_symmetric(
                                    ls,
                                    rs,
                                    c.children@,
                                    d.children@,
                                    c.children@.len(),
                                );
                            }
                        }
                    }
                }
            },
            _ => {},
        },
        Block::Sidebar(a) => match right {
            Block::Sidebar(b) => {
                lemma_same_blocks_symmetric(ls, rs, a.blocks@, b.blocks@, a.blocks@.len());
            },
            _ => {},
        },
        Block::Periph(a) => match right {
            Block::Periph(b) => {
                lemma_same_blocks_symmetric(ls, rs, a.blocks@, b.blocks@, a.blocks@.len());
            },
            _ => {},
        },
        _ => {},
    }
}

/// Prefixes of two block lists compared the other way round give the same
/// answer.
proof fn lemma_same_blocks_symmetric(
    ls: StyleSheet,
    rs: StyleSheet,
    left: Seq<Block>,
    right: Seq<Block>,
    k: nat,
)
    ensures
        same_blocks_upto(ls, rs, left, right, k) == same_blocks_upto(rs, ls, right, left, k),
    decreases left, k,
{
    if k > 0 && k <= left.len() && k <= right.len() {
        lemma_same_blocks_symmetric(ls, rs, left, right, (k - 1) as nat);
        lemma_same_block_symmetric(ls, rs, left[k - 1], right[k - 1]);
    }
}

/// Comparing two documents does not depend on which one is named first.
pub proof fn law_same_document_symmetric(left: Document, right: Document)
    ensures
        same_document(left, right) == same_document(right, left),
{
    lemma_same_blocks_symmetric(
        sheet_of(left),
        sheet_of(right),
        left.blocks@,
        right.blocks@,
        left.blocks@.len(),
    );
}

} // verus!
