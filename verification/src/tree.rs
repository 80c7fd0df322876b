//! The parse tree as the query engine sees it: a flat arena of nodes in
//! document (pre-order) order, each carrying the grammar's kind tag, its
//! half-open byte range, parent and child links, the child designated by
//! the grammar as its name or jump-target field, and the parser's error
//! and missing flags.
//!
//! The parser itself is an external collaborator: the surrounding program
//! turns its concrete syntax tree into this plain representation and
//! checks it with [`SyntaxTree::check_wf`] before handing it to the
//! library.

use vstd::prelude::*;

use crate::ByteRange;

verus! {

/// The grammar's finite set of node kinds. Upper-case keyword tokens and
/// the lower-case rules that contain them share one tag; the `is_named`
/// flag of the node tells them apart.
#[derive(Clone, Copy, Debug, PartialEq, Eq, Structural)]
pub enum NodeKind {
    /// `PLOP <value>`: push a value onto the stack.
    Plop,
    /// `SPLASH`: pop a value off the stack.
    Splash,
    /// `GULP`: increment top of stack.
    Gulp,
    /// `BURP`: decrement top of stack.
    Burp,
    /// `DUP`: duplicate top of stack.
    Dup,
    /// `SWAP`: swap top two stack values.
    Swap,
    /// `OVER`: duplicate second from top of stack.
    Over,
    /// `LILY <label>`: define a lilypad label.
    Lily,
    /// `HOP <label>`: unconditional jump.
    Hop,
    /// `LEAP <label>`: conditional jump.
    Leap,
    /// `RIBBIT`: print top of stack.
    Ribbit,
    /// `CROAK`: read input.
    Croak,
    /// `ADD`: pop a b, push (b + a).
    AddOp,
    /// `SUB`: pop a b, push (b - a).
    SubOp,
    /// `MUL`: pop a b, push (b * a).
    MulOp,
    /// `DIV`: pop a b, push (b / a).
    DivOp,
    /// `EQUALS`: pop a b, push (b == a).
    EqualsOp,
    /// `NOT_EQUAL`: pop a b, push (b != a).
    NotEqualOp,
    /// `LESS_THAN`: pop a b, push (b < a).
    LessThanOp,
    /// `GREATER_THAN`: pop a b, push (b > a).
    GreaterThanOp,
    /// `LESS_EQ`: pop a b, push (b <= a).
    LessEqOp,
    /// `GREATER_EQ`: pop a b, push (b >= a).
    GreaterEqOp,
    /// A whole `LILY <name>` statement.
    LabelDefinition,
    /// A jump target wrapped in its own node, where the grammar has one.
    LabelReference,
    /// A bare identifier.
    Identifier,
    /// A numeric literal.
    NumberLit,
    /// A string literal.
    StringLit,
    /// A comment.
    Comment,
    /// A whole `DUP`/`SWAP`/`OVER` statement, where the grammar wraps one.
    StackManipulation,
    /// The parser's generic error kind.
    ErrorKind,
    /// Any other kind: wrapper rules, the root, unknown tags.
    Other,
}

/// One syntax node.
#[derive(Debug)]
pub struct Node {
    pub kind: NodeKind,
    /// Byte offset where the node's text starts.
    pub start: usize,
    /// Byte offset just past the node's text.
    pub end: usize,
    /// Index of the parent node; the root points at itself.
    pub parent: usize,
    /// Indices of the child nodes, in document order.
    pub children: Vec<usize>,
    /// The child the grammar designates as this node's name or target.
    pub name_child: Option<usize>,
    /// Whether the node is a named rule rather than an anonymous token.
    pub is_named: bool,
    /// The parser marked the node as erroring.
    pub is_error: bool,
    /// The parser inserted the node to recover from an error.
    pub is_missing: bool,
}

/// A parse tree: nodes in pre-order, node 0 the root, children linked by
/// index.
#[derive(Debug)]
pub struct SyntaxTree {
    pub nodes: Vec<Node>,
}

impl SyntaxTree {
    /// Structural soundness of the arena: one root that is its own
    /// parent; every child link points forward to a node that points
    /// back; every non-root node's parent lies before it; designated name
    /// children are in range; no byte range runs backwards.
    pub open spec fn wf(self) -> bool {
        let ns = self.nodes@;
        &&& ns.len() >= 1
        &&& ns[0].parent == 0
        &&& forall|i: int|
            1 <= i < ns.len() ==> (#[trigger] ns[i].parent) < i
        &&& forall|i: int, k: int|
            0 <= i < ns.len() && 0 <= k < ns[i].children@.len() ==> i < (
            #[trigger] ns[i].children@[k]) < ns.len()
        &&& forall|i: int, k: int|
            0 <= i < ns.len() && 0 <= k < ns[i].children@.len() ==> ns[(
            #[trigger] ns[i].children@[k]) as int].parent == i
        &&& forall|i: int|
            0 <= i < ns.len() ==> ((#[trigger] ns[i].name_child) matches Some(c) ==> i < c
                < ns.len())
        &&& forall|i: int| 0 <= i < ns.len() ==> (#[trigger] ns[i].start) <= ns[i].end
    }

    /// Runtime check of [`Self::wf`], for callers outside the library
    /// that build a tree from a parser's output.
    pub fn check_wf(&self) -> (r: bool)
        ensures
            r == self.wf(),
    {
        let ns = &self.nodes;
        let n = ns.len();
        if n == 0 {
            return false;
        }
        if ns[0].parent != 0 {
            return false;
        }
        let mut i: usize = 0;
        while i < n
            invariant
                ns == &self.nodes,
                n == ns@.len(),
                0 <= i <= n,
                forall|q: int| 1 <= q < i ==> (#[trigger] ns@[q].parent) < q,
                forall|q: int, k: int|
                    0 <= q < i && 0 <= k < ns@[q].children@.len() ==> q < (
                    #[trigger] ns@[q].children@[k]) < n,
                forall|q: int, k: int|
                    0 <= q < i && 0 <= k < ns@[q].children@.len() ==> ns@[(
                    #[trigger] ns@[q].children@[k]) as int].parent == q,
                forall|q: int|
                    0 <= q < i ==> ((#[trigger] ns@[q].name_child) matches Some(c) ==> q < c < n),
                forall|q: int| 0 <= q < i ==> (#[trigger] ns@[q].start) <= ns@[q].end,
            decreases n - i,
        {
            let node = &ns[i];
            if i >= 1 && node.parent >= i {
                return false;
            }
            if node.start > node.end {
                return false;
            }
            match node.name_child {
                Some(c) => {
                    if c <= i || c >= n {
                        return false;
                    }
                },
                None => {},
            }
            let m = node.children.len();
            let mut k: usize = 0;
            while k < m
                invariant
                    ns == &self.nodes,
                    n == ns@.len(),
                    0 <= i < n,
                    node == &ns@[i as int],
                    m == node.children@.len(),
                    0 <= k <= m,
                    forall|k2: int|
                        0 <= k2 < k ==> i < (#[trigger] node.children@[k2]) < n && ns@[node.children@[k2] as int].parent
                            == i,
                decreases m - k,
            {
                let c = node.children[k];
                if c <= i || c >= n {
                    return false;
                }
                if ns[c].parent != i {
                    return false;
                }
                k = k + 1;
            }
            i = i + 1;
        }
        true
    }
}

/// Whether node `i`'s half-open byte range contains offset `off`.
pub open spec fn node_contains(ns: Seq<Node>, i: int, off: int) -> bool {
    ns[i].start <= off < ns[i].end
}

/// The first child in `cs` (scanning from position `k`) whose range
/// contains `off`.
pub open spec fn first_child_containing(ns: Seq<Node>, cs: Seq<usize>, k: int, off: int) -> Option<
    usize,
>
    decreases cs.len() - k,
    when 0 <= k <= cs.len()
{
    if k >= cs.len() {
        None
    } else if node_contains(ns, cs[k] as int, off) {
        Some(cs[k])
    } else {
        first_child_containing(ns, cs, k + 1, off)
    }
}

/// A found child is one of the scanned entries, and it contains the
/// offset.
proof fn lemma_first_child_member(ns: Seq<Node>, cs: Seq<usize>, k: int, off: int)
    requires
        0 <= k <= cs.len(),
    ensures
        first_child_containing(ns, cs, k, off) matches Some(c) ==> (exists|k2: int|
            k <= k2 < cs.len() && #[trigger] cs[k2] == c) && node_contains(ns, c as int, off),
    decreases cs.len() - k,
{
    if k < cs.len() {
        if node_contains(ns, cs[k] as int, off) {
            assert(cs[k] == cs[k]);
        } else {
            lemma_first_child_member(ns, cs, k + 1, off);
        }
    }
}

impl SyntaxTree {
    /// Descend from node `i` to the innermost node whose range contains
    /// `off`, always entering the first containing child.
    pub open spec fn locate_from(self, i: int, off: int) -> int
        decreases self.nodes@.len() - i,
        when 0 <= i < self.nodes@.len() && self.wf()
        via Self::locate_from_decreases
    {
        match first_child_containing(self.nodes@, self.nodes@[i].children@, 0, off) {
            Option::None => i,
            Option::Some(c) => self.locate_from(c as int, off),
        }
    }

    #[via_fn]
    proof fn locate_from_decreases(self, i: int, off: int) {
        lemma_first_child_member(self.nodes@, self.nodes@[i].children@, 0, off);
    }

    /// The descent really lands on an innermost covering node: the node
    /// it reaches contains the offset, and no child of that node does.
    pub proof fn lemma_locate_innermost(self, i: int, off: int)
        requires
            self.wf(),
            0 <= i < self.nodes@.len(),
            node_contains(self.nodes@, i, off),
        ensures
            ({
                let r = self.locate_from(i, off);
                &&& 0 <= r < self.nodes@.len()
                &&& node_contains(self.nodes@, r, off)
                &&& first_child_containing(self.nodes@, self.nodes@[r].children@, 0, off)
                    is None
            }),
        decreases self.nodes@.len() - i,
    {
        lemma_first_child_member(self.nodes@, self.nodes@[i].children@, 0, off);
        match first_child_containing(self.nodes@, self.nodes@[i].children@, 0, off) {
            Option::None => {},
            Option::Some(c) => {
                self.lemma_locate_innermost(c as int, off);
            },
        }
    }

    /// The node a query at byte offset `off` starts from: the innermost
    /// node containing `off`, or the root when no node contains it (end
    /// of file, empty document).
    pub open spec fn spec_node_at(self, off: int) -> int {
        if node_contains(self.nodes@, 0, off) {
            self.locate_from(0, off)
        } else {
            0
        }
    }

    /// Finds the innermost syntax node covering byte offset `offset`,
    /// falling back to the root.
    pub fn find_node_at(&self, offset: usize) -> (r: usize)
        requires
            self.wf(),
        ensures
            r as int == self.spec_node_at(offset as int),
            r < self.nodes@.len(),
    {
        let ns = &self.nodes;
        let n = ns.len();
        if !(ns[0].start <= offset && offset < ns[0].end) {
            return 0;
        }
        let mut cur: usize = 0;
        loop
            invariant
                self.wf(),
                ns == &self.nodes,
                n == ns@.len(),
                0 <= cur < n,
                node_contains(ns@, 0, offset as int),
                self.locate_from(0, offset as int) == self.locate_from(cur as int, offset as int),
            decreases n - cur,
        {
            let cs = &ns[cur].children;
            let m = cs.len();
            let mut k: usize = 0;
            let mut found: Option<usize> = None;
            while k < m
                invariant_except_break
                    found is None,
                invariant
                    self.wf(),
                    ns == &self.nodes,
                    n == ns@.len(),
                    0 <= cur < n,
                    cs == &ns@[cur as int].children,
                    m == cs@.len(),
                    0 <= k <= m,
                    first_child_containing(ns@, cs@, 0, offset as int) == first_child_containing(
                        ns@,
                        cs@,
                        k as int,
                        offset as int,
                    ),
                ensures
                    match found {
                        Option::None => first_child_containing(ns@, cs@, 0, offset as int)
                            is None,
                        Option::Some(c) => first_child_containing(ns@, cs@, 0, offset as int)
                            == Some(c),
                    },
                decreases m - k,
            {
                let c = cs[k];
                if ns[c].start <= offset && offset < ns[c].end {
                    found = Some(c);
                    proof {
                        assert(first_child_containing(ns@, cs@, k as int, offset as int) == Some(
                            c,
                        ));
                    }
                    break ;
                }
                k = k + 1;
            }
            match found {
                None => {
                    return cur;
                },
                Some(c) => {
                    proof {
                        lemma_first_child_member(ns@, cs@, 0, offset as int);
                    }
                    cur = c;
                },
            }
        }
    }

    /// The nodes of the tree in document order, the order one depth-first
    /// traversal visits them.
    pub fn dfs_visit(&self) -> (r: Vec<usize>)
        ensures
            r@.len() == self.nodes@.len(),
            forall|k: int| 0 <= k < r@.len() ==> #[trigger] r@[k] == k,
    {
        let n = self.nodes.len();
        let mut out: Vec<usize> = Vec::new();
        let mut i: usize = 0;
        while i < n
            invariant
                0 <= i <= n,
                out@.len() == i,
                forall|k: int| 0 <= k < i ==> #[trigger] out@[k] == k,
            decreases n - i,
        {
            out.push(i);
            i = i + 1;
        }
        out
    }
}

/// Control-flow instruction kinds.
pub open spec fn spec_is_control(k: NodeKind) -> bool {
    k == NodeKind::Lily || k == NodeKind::Hop || k == NodeKind::Leap
}

/// Stack-operation instruction kinds.
pub open spec fn spec_is_stack_op(k: NodeKind) -> bool {
    ||| k == NodeKind::Plop
    ||| k == NodeKind::Splash
    ||| k == NodeKind::Gulp
    ||| k == NodeKind::Burp
    ||| k == NodeKind::Dup
    ||| k == NodeKind::Swap
    ||| k == NodeKind::Over
}

/// Arithmetic and comparison instruction kinds.
pub open spec fn spec_is_operator(k: NodeKind) -> bool {
    ||| k == NodeKind::AddOp
    ||| k == NodeKind::SubOp
    ||| k == NodeKind::MulOp
    ||| k == NodeKind::DivOp
    ||| k == NodeKind::EqualsOp
    ||| k == NodeKind::NotEqualOp
    ||| k == NodeKind::LessThanOp
    ||| k == NodeKind::GreaterThanOp
    ||| k == NodeKind::LessEqOp
    ||| k == NodeKind::GreaterEqOp
}

/// I/O instruction kinds.
pub open spec fn spec_is_io(k: NodeKind) -> bool {
    k == NodeKind::Ribbit || k == NodeKind::Croak
}

/// A byte is horizontal or vertical whitespace.
pub open spec fn is_whitespace(b: u8) -> bool {
    b == 32 || b == 9 || b == 10 || b == 13
}

/// End of the leading contiguous non-whitespace run that starts at `p`
/// and may reach at most `e` (and never past the text).
pub open spec fn spec_leading_word_end(t: Seq<u8>, p: int, e: int) -> int
    decreases e - p,
    when p <= e
{
    if p >= e || p >= t.len() || is_whitespace(t[p]) {
        p
    } else {
        spec_leading_word_end(t, p + 1, e)
    }
}

/// The range of the first word of a node's text: from the node's start to
/// the first whitespace byte (or the node's or text's end). Keyword
/// descriptions and keyword tokens anchor here rather than to the node's
/// full span.
pub fn leading_word_range(text: &Vec<u8>, node: &Node) -> (r: ByteRange)
    requires
        node.start <= node.end,
    ensures
        r.start == node.start,
        r.end as int == spec_leading_word_end(text@, node.start as int, node.end as int),
        r.wf(),
{
    let mut p: usize = node.start;
    let e: usize = node.end;
    while p < e && p < text.len() && !(text[p] == 32 || text[p] == 9 || text[p] == 10 || text[p]
        == 13)
        invariant
            node.start <= p <= e,
            e == node.end,
            spec_leading_word_end(text@, node.start as int, e as int) == spec_leading_word_end(
                text@,
                p as int,
                e as int,
            ),
        decreases e - p,
    {
        p = p + 1;
    }
    ByteRange { start: node.start, end: p }
}

} // verus!
