//! Navigating the tree: [`NodeRef`], a reference to any node, and
//! [`Cursor`], a zipper that walks the tree in every direction.
use vstd::prelude::*;
use crate::ast::{Block, ChapterEnd, ChapterStart, Char, Document, Inline, Milestone, Note, OptBreak, Para, Periph, Sidebar, Table, TableCell, TableRow, Text, VerseEnd, VerseStart};
use crate::book::Book;

verus! {

/// The path to a node from the document root: the block index, then the
/// index of each child on the way down.
pub type NodePath = Vec<usize>;

/// A reference to any node in the tree.
#[derive(Debug, Clone, Copy)]
pub enum NodeRef<'a> {
    Document(&'a Document),
    Book(&'a Book),
    ChapterStart(&'a ChapterStart),
    ChapterEnd(&'a ChapterEnd),
    Para(&'a Para),
    Table(&'a Table),
    TableRow(&'a TableRow),
    TableCell(&'a TableCell),
    Text(&'a Text),
    VerseStart(&'a VerseStart),
    VerseEnd(&'a VerseEnd),
    Char(&'a Char),
    Note(&'a Note),
    Milestone(&'a Milestone),
    OptBreak(&'a OptBreak),
    Sidebar(&'a Sidebar),
    Periph(&'a Periph),
}

/// The node a block is.
pub open spec fn block_ref<'a>(block: &'a Block) -> NodeRef<'a> {
    match block {
        Block::Book(b) => NodeRef::Book(b),
        Block::ChapterStart(c) => NodeRef::ChapterStart(c),
        Block::ChapterEnd(c) => NodeRef::ChapterEnd(c),
        Block::Para(p) => NodeRef::Para(p),
        Block::Table(t) => NodeRef::Table(t),
        Block::Milestone(m) => NodeRef::Milestone(m),
        Block::Sidebar(s) => NodeRef::Sidebar(s),
        Block::Periph(p) => NodeRef::Periph(p),
    }
}

/// The node an inline node is.
pub open spec fn inline_ref<'a>(inline: &'a Inline) -> NodeRef<'a> {
    match inline {
        Inline::Text(t) => NodeRef::Text(t),
        Inline::VerseStart(v) => NodeRef::VerseStart(v),
        Inline::VerseEnd(v) => NodeRef::VerseEnd(v),
        Inline::Char(c) => NodeRef::Char(c),
        Inline::Note(n) => NodeRef::Note(n),
        Inline::Milestone(m) => NodeRef::Milestone(m),
        Inline::OptBreak(b) => NodeRef::OptBreak(b),
    }
}

/// How many children a node has.
pub open spec fn child_count(node: NodeRef) -> nat {
    match node {
        NodeRef::Document(d) => d.blocks@.len(),
        NodeRef::Para(p) => p.children@.len(),
        NodeRef::Char(c) => c.children@.len(),
        NodeRef::Note(n) => n.children@.len(),
        NodeRef::Table(t) => t.rows@.len(),
        NodeRef::TableRow(r) => r.cells@.len(),
        NodeRef::TableCell(c) => c.children@.len(),
        NodeRef::Sidebar(s) => s.blocks@.len(),
        NodeRef::Periph(p) => p.blocks@.len(),
        _ => 0,
    }
}

/// The `index`th child of a node; meaningful for `index < child_count(node)`.
pub open spec fn nth_child_spec<'a>(node: NodeRef<'a>, index: int) -> NodeRef<'a> {
    match node {
        NodeRef::Document(d) => block_ref(&d.blocks@[index]),
        NodeRef::Para(p) => inline_ref(&p.children@[index]),
        NodeRef::Char(c) => inline_ref(&c.children@[index]),
        NodeRef::Note(n) => inline_ref(&n.children@[index]),
        NodeRef::Table(t) => NodeRef::TableRow(&t.rows@[index]),
        NodeRef::TableRow(r) => NodeRef::TableCell(&r.cells@[index]),
        NodeRef::TableCell(c) => inline_ref(&c.children@[index]),
        NodeRef::Sidebar(s) => block_ref(&s.blocks@[index]),
        NodeRef::Periph(p) => block_ref(&p.blocks@[index]),
        _ => node,
    }
}

/// The `index`th child of a node, if it has one.
pub open spec fn child_spec<'a>(node: NodeRef<'a>, index: int) -> Option<NodeRef<'a>> {
    if 0 <= index < child_count(node) {
        Some(nth_child_spec(node, index))
    } else {
        None
    }
}

/// The node at `path` below `node`.
pub open spec fn descend_spec<'a>(node: NodeRef<'a>, path: Seq<usize>) -> Option<NodeRef<'a>>
    decreases path.len(),
{
    if path.len() == 0 {
        Some(node)
    } else {
        match child_spec(node, path[0] as int) {
            Some(child) => descend_spec(child, path.drop_first()),
            None => None,
        }
    }
}

/// Descending a path one step further is a child of where it led.
pub proof fn lemma_descend_push<'a>(node: NodeRef<'a>, path: Seq<usize>, index: usize)
    ensures
        descend_spec(node, path.push(index)) == match descend_spec(node, path) {
            Some(n) => child_spec(n, index as int),
            None => None,
        },
    decreases path.len(),
{
    if path.len() == 0 {
        assert(path.push(index).drop_first() =~= seq![]);
        reveal_with_fuel(descend_spec, 2);
    } else {
        assert(path.push(index).drop_first() =~= path.drop_first().push(index));
        match child_spec(node, path[0] as int) {
            Some(child) => lemma_descend_push(child, path.drop_first(), index),
            None => {},
        }
    }
}

/// Descending `p + q` is descending `p`, then `q` from where it led.
pub proof fn lemma_descend_append<'a>(node: NodeRef<'a>, p: Seq<usize>, q: Seq<usize>)
    ensures
        descend_spec(node, p + q) == match descend_spec(node, p) {
            Some(n) => descend_spec(n, q),
            None => None,
        },
    decreases p.len(),
{
    if p.len() == 0 {
        assert(p + q =~= q);
    } else {
        assert((p + q).drop_first() =~= p.drop_first() + q);
        match child_spec(node, p[0] as int) {
            Some(child) => lemma_descend_append(child, p.drop_first(), q),
            None => {},
        }
    }
}

/// The number of children of the parent of the node at `path`; none at the
/// root or off the tree.
pub open spec fn sibling_count(root: &Document, path: Seq<usize>) -> nat {
    if path.len() == 0 {
        0
    } else {
        match descend_spec(NodeRef::Document(root), path.drop_last()) {
            Some(parent) => child_count(parent),
            None => 0,
        }
    }
}

/// The path of the next sibling of the node at `path`, if it has one.
pub open spec fn next_sibling_path(root: &Document, path: Seq<usize>) -> Option<Seq<usize>> {
    if path.len() > 0 && path.last() < usize::MAX && path.last() + 1 < sibling_count(root, path) {
        Some(path.drop_last().push((path.last() + 1) as usize))
    } else {
        None
    }
}

/// The path of the previous sibling of the node at `path`, if it has one.
pub open spec fn prev_sibling_path(path: Seq<usize>) -> Option<Seq<usize>> {
    if path.len() > 0 && path.last() > 0 {
        Some(path.drop_last().push((path.last() - 1) as usize))
    } else {
        None
    }
}

/// Stepping to the previous sibling undoes a step to the next one, and a
/// step to the next sibling undoes a step back from a node that exists.
pub proof fn law_prev_sibling_undoes_next_sibling(root: &Document, path: Seq<usize>)
    ensures
        next_sibling_path(root, path) matches Some(q) ==> prev_sibling_path(q) == Some(path),
        descend_spec(NodeRef::Document(root), path) is Some && prev_sibling_path(path) is Some
            ==> next_sibling_path(root, prev_sibling_path(path).unwrap()) == Some(path),
{
    if path.len() > 0 {
        let parent_path = path.drop_last();
        if path.last() < usize::MAX && path.last() + 1 < sibling_count(root, path) {
            let q = parent_path.push((path.last() + 1) as usize);
            assert(q.drop_last() =~= parent_path);
            assert(q.drop_last().push((q.last() - 1) as usize) =~= path);
        }
        if descend_spec(NodeRef::Document(root), path) is Some && path.last() > 0 {
            let q = parent_path.push((path.last() - 1) as usize);
            assert(q.drop_last() =~= parent_path);
            assert(parent_path.push(path.last()) =~= path);
            lemma_descend_push(NodeRef::Document(root), parent_path, path.last());
            assert(q.drop_last().push((q.last() + 1) as usize) =~= path);
        }
    }
}

impl<'a> NodeRef<'a> {
    pub fn from_block(block: &'a Block) -> (node: NodeRef<'a>)
        ensures
            node == block_ref(block),
    {
        match block {
            Block::Book(b) => NodeRef::Book(b),
            Block::ChapterStart(c) => NodeRef::ChapterStart(c),
            Block::ChapterEnd(c) => NodeRef::ChapterEnd(c),
            Block::Para(p) => NodeRef::Para(p),
            Block::Table(t) => NodeRef::Table(t),
            Block::Milestone(m) => NodeRef::Milestone(m),
            Block::Sidebar(s) => NodeRef::Sidebar(s),
            Block::Periph(p) => NodeRef::Periph(p),
        }
    }

    pub fn from_inline(inline: &'a Inline) -> (node: NodeRef<'a>)
        ensures
            node == inline_ref(inline),
    {
        match inline {
            Inline::Text(t) => NodeRef::Text(t),
            Inline::VerseStart(v) => NodeRef::VerseStart(v),
            Inline::VerseEnd(v) => NodeRef::VerseEnd(v),
            Inline::Char(c) => NodeRef::Char(c),
            Inline::Note(n) => NodeRef::Note(n),
            Inline::Milestone(m) => NodeRef::Milestone(m),
            Inline::OptBreak(b) => NodeRef::OptBreak(b),
        }
    }

    /// The number of children this node has.
    pub fn num_children(&self) -> (n: usize)
        ensures
            n == child_count(*self),
    {
        match self {
            NodeRef::Document(d) => d.blocks.len(),
            NodeRef::Para(p) => p.children.len(),
            NodeRef::Char(c) => c.children.len(),
            NodeRef::Note(n) => n.children.len(),
            NodeRef::Table(t) => t.rows.len(),
            NodeRef::TableRow(r) => r.cells.len(),
            NodeRef::TableCell(c) => c.children.len(),
            NodeRef::Sidebar(s) => s.blocks.len(),
            NodeRef::Periph(p) => p.blocks.len(),
            _ => 0,
        }
    }

    pub fn is_leaf(&self) -> (b: bool)
        ensures
            b == (child_count(*self) == 0),
    {
        self.num_children() == 0
    }

    /// The `index`th child; `index` must be in range.
    fn nth_child(&self, index: usize) -> (child: NodeRef<'a>)
        requires
            index < child_count(*self),
        ensures
            child == nth_child_spec(*self, index as int),
    {
        match *self {
            NodeRef::Document(d) => NodeRef::from_block(&d.blocks[index]),
            NodeRef::Para(p) => NodeRef::from_inline(&p.children[index]),
            NodeRef::Char(c) => NodeRef::from_inline(&c.children[index]),
            NodeRef::Note(n) => NodeRef::from_inline(&n.children[index]),
            NodeRef::Table(t) => NodeRef::TableRow(&t.rows[index]),
            NodeRef::TableRow(r) => NodeRef::TableCell(&r.cells[index]),
            NodeRef::TableCell(c) => NodeRef::from_inline(&c.children[index]),
            NodeRef::Sidebar(s) => NodeRef::from_block(&s.blocks[index]),
            NodeRef::Periph(p) => NodeRef::from_block(&p.blocks[index]),
            _ => *self,
        }
    }

    /// The `index`th child, or `None` past the end or on a leaf.
    pub fn child(&self, index: usize) -> (child: Option<NodeRef<'a>>)
        ensures
            child == child_spec(*self, index as int),
    {
        if index < self.num_children() {
            Some(self.nth_child(index))
        } else {
            None
        }
    }

    /// The node at `path` below this one; an empty path is this node.
    pub fn descend(&self, path: &[usize]) -> (node: Option<NodeRef<'a>>)
        ensures
            node == descend_spec(*self, path@),
    {
        let mut node = *self;
        let mut i: usize = 0;
        while i < path.len()
            invariant
                i <= path@.len(),
                descend_spec(*self, path@.subrange(0, i as int)) == Some(node),
            decreases path@.len() - i,
        {
            proof {
                lemma_descend_push(*self, path@.subrange(0, i as int), path@[i as int]);
                assert(path@.subrange(0, i as int).push(path@[i as int]) =~= path@.subrange(0, i + 1));
            }
            match node.child(path[i]) {
                Some(child) => node = child,
                None => {
                    proof {
                        lemma_descend_append(*self, path@.subrange(0, i + 1), path@.subrange(i + 1, path@.len() as int));
                        assert(path@.subrange(0, i + 1) + path@.subrange(i + 1, path@.len() as int) =~= path@);
                    }
                    return None;
                },
            }
            i = i + 1;
        }
        assert(path@.subrange(0, path@.len() as int) =~= path@);
        Some(node)
    }

    pub fn is_document(&self) -> (b: bool)
        ensures
            b == (*self is Document),
    {
        matches!(self, NodeRef::Document(_))
    }

    pub fn is_book(&self) -> (b: bool)
        ensures
            b == (*self is Book),
    {
        matches!(self, NodeRef::Book(_))
    }

    pub fn is_chapter_start(&self) -> (b: bool)
        ensures
            b == (*self is ChapterStart),
    {
        matches!(self, NodeRef::ChapterStart(_))
    }

    pub fn is_chapter_end(&self) -> (b: bool)
        ensures
            b == (*self is ChapterEnd),
    {
        matches!(self, NodeRef::ChapterEnd(_))
    }

    pub fn is_para(&self) -> (b: bool)
        ensures
            b == (*self is Para),
    {
        matches!(self, NodeRef::Para(_))
    }

    pub fn is_table(&self) -> (b: bool)
        ensures
            b == (*self is Table),
    {
        matches!(self, NodeRef::Table(_))
    }

    pub fn is_table_row(&self) -> (b: bool)
        ensures
            b == (*self is TableRow),
    {
        matches!(self, NodeRef::TableRow(_))
    }

    pub fn is_table_cell(&self) -> (b: bool)
        ensures
            b == (*self is TableCell),
    {
        matches!(self, NodeRef::TableCell(_))
    }

    pub fn is_text(&self) -> (b: bool)
        ensures
            b == (*self is Text),
    {
        matches!(self, NodeRef::Text(_))
    }

    pub fn is_verse_start(&self) -> (b: bool)
        ensures
            b == (*self is VerseStart),
    {
        matches!(self, NodeRef::VerseStart(_))
    }

    pub fn is_verse_end(&self) -> (b: bool)
        ensures
            b == (*self is VerseEnd),
    {
        matches!(self, NodeRef::VerseEnd(_))
    }

    pub fn is_char(&self) -> (b: bool)
        ensures
            b == (*self is Char),
    {
        matches!(self, NodeRef::Char(_))
    }

    pub fn is_note(&self) -> (b: bool)
        ensures
            b == (*self is Note),
    {
        matches!(self, NodeRef::Note(_))
    }

    pub fn is_milestone(&self) -> (b: bool)
        ensures
            b == (*self is Milestone),
    {
        matches!(self, NodeRef::Milestone(_))
    }

    pub fn is_sidebar(&self) -> (b: bool)
        ensures
            b == (*self is Sidebar),
    {
        matches!(self, NodeRef::Sidebar(_))
    }

    pub fn is_periph(&self) -> (b: bool)
        ensures
            b == (*self is Periph),
    {
        matches!(self, NodeRef::Periph(_))
    }

    pub fn as_document(&self) -> (r: Option<&'a Document>)
        ensures
            match *self {
                NodeRef::Document(x) => r == Some(x),
                _ => r is None,
            },
    {
        match self {
            NodeRef::Document(x) => Some(x),
            _ => None,
        }
    }

    pub fn as_book(&self) -> (r: Option<&'a Book>)
        ensures
            match *self {
                NodeRef::Book(x) => r == Some(x),
                _ => r is None,
            },
    {
        match self {
            NodeRef::Book(x) => Some(x),
            _ => None,
        }
    }

    pub fn as_chapter_start(&self) -> (r: Option<&'a ChapterStart>)
        ensures
            match *self {
                NodeRef::ChapterStart(x) => r == Some(x),
                _ => r is None,
            },
    {
        match self {
            NodeRef::ChapterStart(x) => Some(x),
            _ => None,
        }
    }

    pub fn as_chapter_end(&self) -> (r: Option<&'a ChapterEnd>)
        ensures
            match *self {
                NodeRef::ChapterEnd(x) => r == Some(x),
                _ => r is None,
            },
    {
        match self {
            NodeRef::ChapterEnd(x) => Some(x),
            _ => None,
        }
    }

    pub fn as_para(&self) -> (r: Option<&'a Para>)
        ensures
            match *self {
                NodeRef::Para(x) => r == Some(x),
                _ => r is None,
            },
    {
        match self {
            NodeRef::Para(x) => Some(x),
            _ => None,
        }
    }

    pub fn as_table(&self) -> (r: Option<&'a Table>)
        ensures
            match *self {
                NodeRef::Table(x) => r == Some(x),
                _ => r is None,
            },
    {
        match self {
            NodeRef::Table(x) => Some(x),
            _ => None,
        }
    }

    pub fn as_table_row(&self) -> (r: Option<&'a TableRow>)
        ensures
            match *self {
                NodeRef::TableRow(x) => r == Some(x),
                _ => r is None,
            },
    {
        match self {
            NodeRef::TableRow(x) => Some(x),
            _ => None,
        }
    }

    pub fn as_table_cell(&self) -> (r: Option<&'a TableCell>)
        ensures
            match *self {
                NodeRef::TableCell(x) => r == Some(x),
                _ => r is None,
            },
    {
        match self {
            NodeRef::TableCell(x) => Some(x),
            _ => None,
        }
    }

    pub fn as_text(&self) -> (r: Option<&'a Text>)
        ensures
            match *self {
                NodeRef::Text(x) => r == Some(x),
                _ => r is None,
            },
    {
        match self {
            NodeRef::Text(x) => Some(x),
            _ => None,
        }
    }

    pub fn as_verse_start(&self) -> (r: Option<&'a VerseStart>)
        ensures
            match *self {
                NodeRef::VerseStart(x) => r == Some(x),
                _ => r is None,
            },
    {
        match self {
            NodeRef::VerseStart(x) => Some(x),
            _ => None,
        }
    }

    pub fn as_verse_end(&self) -> (r: Option<&'a VerseEnd>)
        ensures
            match *self {
                NodeRef::VerseEnd(x) => r == Some(x),
                _ => r is None,
            },
    {
        match self {
            NodeRef::VerseEnd(x) => Some(x),
            _ => None,
        }
    }

    pub fn as_char(&self) -> (r: Option<&'a Char>)
        ensures
            match *self {
                NodeRef::Char(x) => r == Some(x),
                _ => r is None,
            },
    {
        match self {
            NodeRef::Char(x) => Some(x),
            _ => None,
        }
    }

    pub fn as_note(&self) -> (r: Option<&'a Note>)
        ensures
            match *self {
                NodeRef::Note(x) => r == Some(x),
                _ => r is None,
            },
    {
        match self {
            NodeRef::Note(x) => Some(x),
            _ => None,
        }
    }

    pub fn as_milestone(&self) -> (r: Option<&'a Milestone>)
        ensures
            match *self {
                NodeRef::Milestone(x) => r == Some(x),
                _ => r is None,
            },
    {
        match self {
            NodeRef::Milestone(x) => Some(x),
            _ => None,
        }
    }

    pub fn as_sidebar(&self) -> (r: Option<&'a Sidebar>)
        ensures
            match *self {
                NodeRef::Sidebar(x) => r == Some(x),
                _ => r is None,
            },
    {
        match self {
            NodeRef::Sidebar(x) => Some(x),
            _ => None,
        }
    }

    pub fn as_periph(&self) -> (r: Option<&'a Periph>)
        ensures
            match *self {
                NodeRef::Periph(x) => r == Some(x),
                _ => r is None,
            },
    {
        match self {
            NodeRef::Periph(x) => Some(x),
            _ => None,
        }
    }

}

#[derive(Debug)]
struct Frame<'a> {
    node: NodeRef<'a>,
    child_index: usize,
}

/// A read-only cursor (zipper) for navigating the tree in any direction.
///
/// It keeps the path from the root to the current node. Navigation methods
/// return whether the move succeeded; a move that fails leaves the cursor
/// where it was.
#[derive(Debug)]
pub struct Cursor<'a> {
    root: &'a Document,
    stack: Vec<Frame<'a>>,
}

impl<'a> Cursor<'a> {
    /// Each frame holds the child of the frame below it that that frame's
    /// index names, and the bottom frame is the document.
    pub closed spec fn wf(&self) -> bool {
        &&& self.stack@.len() >= 1
        &&& self.stack@[0].node == NodeRef::Document(self.root)
        &&& forall|k: int|
            0 < k < self.stack@.len() ==> {
                &&& (#[trigger] self.stack@[k - 1]).child_index < child_count(self.stack@[k - 1].node)
                &&& self.stack@[k].node == nth_child_spec(
                    self.stack@[k - 1].node,
                    self.stack@[k - 1].child_index as int,
                )
            }
    }

    /// The document the cursor walks.
    pub closed spec fn root(&self) -> &'a Document {
        self.root
    }

    /// The child indices from the root to the current node.
    pub closed spec fn path(&self) -> Seq<usize> {
        Seq::new((self.stack@.len() - 1) as nat, |k: int| self.stack@[k].child_index)
    }

    /// The current node.
    pub closed spec fn current(&self) -> NodeRef<'a> {
        self.stack@.last().node
    }

    proof fn lemma_prefix(&self, k: int)
        requires
            self.wf(),
            0 <= k < self.stack@.len(),
        ensures
            descend_spec(NodeRef::Document(self.root), self.path().subrange(0, k)) == Some(
                self.stack@[k].node,
            ),
        decreases k,
    {
        if k == 0 {
            assert(self.path().subrange(0, 0) =~= seq![]);
        } else {
            self.lemma_prefix(k - 1);
            let prefix = self.path().subrange(0, k - 1);
            lemma_descend_push(NodeRef::Document(self.root), prefix, self.stack@[k - 1].child_index);
            assert(prefix.push(self.stack@[k - 1].child_index) =~= self.path().subrange(0, k));
            assert(self.stack@[k - 1].child_index < child_count(self.stack@[k - 1].node));
        }
        if k == self.stack@.len() - 1 {
            assert(self.path().subrange(0, k) =~= self.path());
        }
    }

    /// A cursor at the document root.
    pub fn new(document: &'a Document) -> (cursor: Cursor<'a>)
        ensures
            cursor.wf(),
            cursor.root() == document,
            cursor.path() == Seq::<usize>::empty(),
            cursor.current() == NodeRef::Document(document),
    {
        let mut stack = Vec::new();
        stack.push(Frame { node: NodeRef::Document(document), child_index: 0 });
        let cursor = Cursor { root: document, stack };
        assert(cursor.path() =~= Seq::<usize>::empty());
        cursor
    }

    /// The current node.
    pub fn node(&self) -> (node: NodeRef<'a>)
        requires
            self.wf(),
        ensures
            node == self.current(),
            descend_spec(NodeRef::Document(self.root()), self.path()) == Some(node),
    {
        proof {
                        self.lemma_prefix(self.stack@.len() - 1);
            assert(self.path().subrange(0, self.stack@.len() - 1) =~= self.path());
        }
        self.stack[self.stack.len() - 1].node
    }

    /// The parent of the current node, if any.
    pub fn parent_node(&self) -> (node: Option<NodeRef<'a>>)
        requires
            self.wf(),
        ensures
            self.path().len() == 0 ==> node is None,
            self.path().len() > 0 ==> node == descend_spec(
                NodeRef::Document(self.root()),
                self.path().drop_last(),
            ),
    {
        proof {
                        if self.stack@.len() >= 2 {
                self.lemma_prefix(self.stack@.len() - 2);
                assert(self.path().subrange(0, self.stack@.len() - 2) =~= self.path().drop_last());
            }
        }
        if self.stack.len() >= 2 {
            Some(self.stack[self.stack.len() - 2].node)
        } else {
            None
        }
    }

    /// The depth of the current node, 0 at the root.
    pub fn depth(&self) -> (depth: usize)
        requires
            self.wf(),
        ensures
            depth == self.path().len(),
    {
        self.stack.len() - 1
    }

    /// Move to the first child of the current node; `false`, and no move,
    /// if it has none.
    pub fn first_child(&mut self) -> (moved: bool)
        requires
            old(self).wf(),
        ensures
            final(self).wf(),
            final(self).root() == old(self).root(),
            moved == (child_count(old(self).current()) > 0),
            moved ==> final(self).path() == old(self).path().push(0),
            !moved ==> final(self).path() == old(self).path(),
            final(self).current() == if moved {
                nth_child_spec(old(self).current(), 0)
            } else {
                old(self).current()
            },
    {
        let current = self.stack[self.stack.len() - 1].node;
        if current.num_children() == 0 {
            return false;
        }
        self.descend_to(0);
        true
    }

    /// Move to the last child of the current node; `false`, and no move,
    /// if it has none.
    pub fn last_child(&mut self) -> (moved: bool)
        requires
            old(self).wf(),
        ensures
            final(self).wf(),
            final(self).root() == old(self).root(),
            moved == (child_count(old(self).current()) > 0),
            moved ==> final(self).path() == old(self).path().push(
                (child_count(old(self).current()) - 1) as usize,
            ),
            !moved ==> final(self).path() == old(self).path(),
            final(self).current() == if moved {
                nth_child_spec(old(self).current(), child_count(old(self).current()) - 1)
            } else {
                old(self).current()
            },
    {
        let current = self.stack[self.stack.len() - 1].node;
        let count = current.num_children();
        if count == 0 {
            return false;
        }
        self.descend_to(count - 1);
        true
    }

    /// Push the `index`th child of the current node.
    fn descend_to(&mut self, index: usize)
        requires
            old(self).wf(),
            index < child_count(old(self).current()),
        ensures
            final(self).wf(),
            final(self).root() == old(self).root(),
            final(self).path() == old(self).path().push(index),
            final(self).current() == nth_child_spec(old(self).current(), index as int),
    {
        let last = self.stack.len() - 1;
        let current = self.stack[last].node;
        let child = current.nth_child(index);
        let mut stack = Vec::new();
        std::mem::swap(&mut stack, &mut self.stack);
        stack.set(last, Frame { node: current, child_index: index });
        stack.push(Frame { node: child, child_index: 0 });
        let ghost old_stack = old(self).stack@;
        proof {
            assert forall|k: int| 0 < k < stack@.len() implies {
                &&& (#[trigger] stack@[k - 1]).child_index < child_count(stack@[k - 1].node)
                &&& stack@[k].node == nth_child_spec(stack@[k - 1].node, stack@[k - 1].child_index as int)
            } by {
                if k < last {
                    assert(stack@[k - 1] == old_stack[k - 1]);
                    assert(stack@[k] == old_stack[k]);
                } else if k == last {
                    assert(stack@[k - 1] == old_stack[k - 1]);
                }
            }
        }
        self.stack = stack;
        proof {
            assert(self.path() =~= old(self).path().push(index));
        }
    }

    /// Move to the next sibling of the current node; `false`, and no move,
    /// at the root or on the last child of its parent.
    pub fn next_sibling(&mut self) -> (moved: bool)
        requires
            old(self).wf(),
        ensures
            final(self).wf(),
            final(self).root() == old(self).root(),
            next_sibling_path(old(self).root(), old(self).path()) matches Some(p) ==> moved && final(self).path() == p,
            next_sibling_path(old(self).root(), old(self).path()) is None ==> !moved,
            moved ==> descend_spec(NodeRef::Document(final(self).root()), final(self).path()) == Some(
                final(self).current(),
            ),
            !moved ==> final(self).path() == old(self).path() && final(self).current() == old(self).current(),
    {
        proof {
            self.lemma_position();
        }
        if self.stack.len() < 2 {
            return false;
        }
        let parent_index = self.stack.len() - 2;
        let parent = self.stack[parent_index].node;
        let current_index = self.stack[parent_index].child_index;
        proof {
            let k: int = parent_index as int + 1;
            assert(self.stack@[k - 1].child_index < child_count(self.stack@[k - 1].node));
        }
        let count = parent.num_children();
        if current_index + 1 >= count {
            return false;
        }
        self.move_sibling(current_index + 1);
        true
    }

    /// Move to the previous sibling of the current node; `false`, and no
    /// move, at the root or on the first child of its parent.
    pub fn prev_sibling(&mut self) -> (moved: bool)
        requires
            old(self).wf(),
        ensures
            final(self).wf(),
            final(self).root() == old(self).root(),
            prev_sibling_path(old(self).path()) matches Some(p) ==> moved && final(self).path() == p,
            prev_sibling_path(old(self).path()) is None ==> !moved,
            moved ==> descend_spec(NodeRef::Document(final(self).root()), final(self).path()) == Some(
                final(self).current(),
            ),
            !moved ==> final(self).path() == old(self).path() && final(self).current() == old(self).current(),
    {
        proof {
            self.lemma_position();
        }
        if self.stack.len() < 2 {
            return false;
        }
        let parent_index = self.stack.len() - 2;
        let current_index = self.stack[parent_index].child_index;
        if current_index == 0 {
            return false;
        }
        self.move_sibling(current_index - 1);
        true
    }

    /// Where the cursor stands: the path leads from the root to the current
    /// node, and below the root the current node is its parent's child at
    /// the path's last index.
    pub proof fn lemma_position(&self)
        requires
            self.wf(),
        ensures
            descend_spec(NodeRef::Document(self.root()), self.path()) == Some(self.current()),
            self.path().len() > 0 ==> descend_spec(NodeRef::Document(self.root()), self.path().drop_last())
                == Some(self.parent_spec()),
            self.path().len() > 0 ==> self.path().last() < child_count(self.parent_spec()),
            self.path().len() > 0 ==> nth_child_spec(self.parent_spec(), self.path().last() as int) == self.current(),
    {
        self.lemma_prefix(self.stack@.len() - 1);
        assert(self.path().subrange(0, self.stack@.len() - 1) =~= self.path());
        if self.stack@.len() >= 2 {
            self.lemma_prefix(self.stack@.len() - 2);
            assert(self.path().subrange(0, self.stack@.len() - 2) =~= self.path().drop_last());
            let k: int = self.stack@.len() - 1;
            assert(self.stack@[k - 1].child_index < child_count(self.stack@[k - 1].node));
        }
    }

    /// The parent of the current node; the node itself at the root.
    pub closed spec fn parent_spec(&self) -> NodeRef<'a> {
        if self.stack@.len() >= 2 {
            self.stack@[self.stack@.len() - 2].node
        } else {
            self.stack@.last().node
        }
    }

    /// Replace the current node with its parent's `index`th child.
    fn move_sibling(&mut self, index: usize)
        requires
            old(self).wf(),
            old(self).stack@.len() >= 2,
            index < child_count(old(self).parent_spec()),
        ensures
            final(self).wf(),
            final(self).root() == old(self).root(),
            final(self).path() == old(self).path().drop_last().push(index),
            descend_spec(NodeRef::Document(final(self).root()), final(self).path()) == Some(final(self).current()),
    {
        let mut stack = Vec::new();
        std::mem::swap(&mut stack, &mut self.stack);
        let last = stack.len() - 1;
        let parent = stack[last - 1].node;
        let sibling = parent.nth_child(index);
        stack.set(last - 1, Frame { node: parent, child_index: index });
        stack.set(last, Frame { node: sibling, child_index: 0 });
        let ghost old_stack = old(self).stack@;
        proof {
            assert forall|k: int| 0 < k < stack@.len() implies {
                &&& (#[trigger] stack@[k - 1]).child_index < child_count(stack@[k - 1].node)
                &&& stack@[k].node == nth_child_spec(stack@[k - 1].node, stack@[k - 1].child_index as int)
            } by {
                if k < last - 1 {
                    assert(stack@[k - 1] == old_stack[k - 1]);
                    assert(stack@[k] == old_stack[k]);
                } else if k == last - 1 {
                    assert(stack@[k - 1] == old_stack[k - 1]);
                }
            }
        }
        self.stack = stack;
        proof {
            assert(self.path() =~= old(self).path().drop_last().push(index));
            self.lemma_position();
        }
    }

    /// Move to the parent of the current node; `false`, and no move, at the
    /// root.
    pub fn parent(&mut self) -> (moved: bool)
        requires
            old(self).wf(),
        ensures
            final(self).wf(),
            final(self).root() == old(self).root(),
            moved == (old(self).path().len() > 0),
            moved ==> final(self).path() == old(self).path().drop_last(),
            !moved ==> final(self).path() == old(self).path(),
    {
        if self.stack.len() < 2 {
            return false;
        }
        let mut stack = Vec::new();
        std::mem::swap(&mut stack, &mut self.stack);
        stack.pop();
        let ghost old_stack = old(self).stack@;
        proof {
            assert forall|k: int| 0 < k < stack@.len() implies {
                &&& (#[trigger] stack@[k - 1]).child_index < child_count(stack@[k - 1].node)
                &&& stack@[k].node == nth_child_spec(stack@[k - 1].node, stack@[k - 1].child_index as int)
            } by {
                assert(stack@[k - 1] == old_stack[k - 1]);
                assert(stack@[k] == old_stack[k]);
            }
        }
        self.stack = stack;
        proof {
            assert(self.path() =~= old(self).path().drop_last());
        }
        true
    }

    /// Return to the document root.
    pub fn reset(&mut self)
        requires
            old(self).wf(),
        ensures
            final(self).wf(),
            final(self).root() == old(self).root(),
            final(self).path() == Seq::<usize>::empty(),
            final(self).current() == NodeRef::Document(old(self).root()),
    {
        let mut stack = Vec::new();
        std::mem::swap(&mut stack, &mut self.stack);
        stack.truncate(1);
        self.stack = stack;
        proof {
            assert(self.path() =~= Seq::<usize>::empty());
        }
    }
}

} // verus!
