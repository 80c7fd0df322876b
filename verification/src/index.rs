//! Label index: which labels a document defines and where they are
//! jumped to, gathered in one traversal of the parse tree.
//!
//! The index keeps two lists in document order: definition entries
//! (label name, byte range of the whole definition statement) and
//! reference entries (label name, byte range of the jump target). A name
//! defined more than once keeps every entry; lookups take the last one,
//! so the last definition wins. References of one name are found by
//! filtering, which preserves document order.

use vstd::prelude::*;
use vstd::slice::slice_index_get;

use crate::ByteRange;
use crate::tree::{Node, NodeKind, SyntaxTree};

verus! {

/// The grammar child that names a node: the field-designated child where
/// the grammar has one, else the child at `fallback`, for tolerance
/// against grammar versions without fields.
pub open spec fn opt_name_child(n: Node, fallback: int) -> Option<usize> {
    if n.name_child is Some {
        n.name_child
    } else if 0 <= fallback < n.children@.len() {
        Some(n.children@[fallback])
    } else {
        None
    }
}

/// The node holding the name of label definition `i`: its designated
/// name child, falling back to the second child (after the keyword).
pub open spec fn def_name_node(ns: Seq<Node>, i: int) -> Option<usize> {
    if ns[i].kind == NodeKind::LabelDefinition {
        opt_name_child(ns[i], 1)
    } else {
        None
    }
}

/// The node holding the label a jump `i` targets. For a jump instruction
/// it is the designated target child (or the child after the keyword),
/// accepted only when it is an identifier; where the grammar wraps the
/// target in a reference node of its own, it is that node's identifier.
pub open spec fn ref_name_node(ns: Seq<Node>, i: int) -> Option<usize> {
    if ns[i].kind == NodeKind::Hop || ns[i].kind == NodeKind::Leap {
        match opt_name_child(ns[i], 1) {
            Option::Some(c) => if 0 <= c < ns.len() && ns[c as int].kind == NodeKind::Identifier {
                Some(c)
            } else {
                None
            },
            Option::None => None,
        }
    } else if ns[i].kind == NodeKind::LabelReference {
        opt_name_child(ns[i], 0)
    } else {
        None
    }
}

/// A node's byte range can be read out of the text.
pub open spec fn range_in_text(t: Seq<u8>, n: Node) -> bool {
    n.start <= n.end <= t.len()
}

/// The definition entries contributed by the first `n` nodes, in
/// traversal order: one entry per recognized label definition whose name
/// can be read, mapping the name's bytes to the whole statement's range.
pub open spec fn spec_defs(ns: Seq<Node>, t: Seq<u8>, n: int) -> Seq<(Seq<u8>, ByteRange)>
    decreases n,
{
    if n <= 0 {
        Seq::empty()
    } else {
        let prev = spec_defs(ns, t, n - 1);
        let i = n - 1;
        match def_name_node(ns, i) {
            Option::Some(c) => if 0 <= c < ns.len() && range_in_text(t, ns[c as int]) {
                prev.push(
                    (
                        t.subrange(ns[c as int].start as int, ns[c as int].end as int),
                        ByteRange { start: ns[i].start, end: ns[i].end },
                    ),
                )
            } else {
                prev
            },
            Option::None => prev,
        }
    }
}

/// The reference entries contributed by the first `n` nodes, in
/// traversal order: one entry per recognized jump target whose name can
/// be read, mapping the name's bytes to the target's own range.
pub open spec fn spec_refs(ns: Seq<Node>, t: Seq<u8>, n: int) -> Seq<(Seq<u8>, ByteRange)>
    decreases n,
{
    if n <= 0 {
        Seq::empty()
    } else {
        let prev = spec_refs(ns, t, n - 1);
        let i = n - 1;
        match ref_name_node(ns, i) {
            Option::Some(c) => if 0 <= c < ns.len() && range_in_text(t, ns[c as int]) {
                prev.push(
                    (
                        t.subrange(ns[c as int].start as int, ns[c as int].end as int),
                        ByteRange { start: ns[c as int].start, end: ns[c as int].end },
                    ),
                )
            } else {
                prev
            },
            Option::None => prev,
        }
    }
}

/// The definition entry a lookup among the first `n` entries returns:
/// the last entry bearing the name.
pub open spec fn spec_lookup_upto(
    defs: Seq<(Seq<u8>, ByteRange)>,
    name: Seq<u8>,
    n: int,
) -> Option<ByteRange>
    decreases n,
{
    if n <= 0 {
        None
    } else if defs[n - 1].0 == name {
        Some(defs[n - 1].1)
    } else {
        spec_lookup_upto(defs, name, n - 1)
    }
}

/// The definition range a name resolves to, if any.
pub open spec fn spec_lookup_def(defs: Seq<(Seq<u8>, ByteRange)>, name: Seq<u8>) -> Option<
    ByteRange,
> {
    spec_lookup_upto(defs, name, defs.len() as int)
}

/// The reference ranges of a name among the first `n` entries, in entry
/// (document) order.
pub open spec fn spec_refs_upto(
    refs: Seq<(Seq<u8>, ByteRange)>,
    name: Seq<u8>,
    n: int,
) -> Seq<ByteRange>
    decreases n,
{
    if n <= 0 {
        Seq::empty()
    } else {
        let prev = spec_refs_upto(refs, name, n - 1);
        if refs[n - 1].0 == name {
            prev.push(refs[n - 1].1)
        } else {
            prev
        }
    }
}

/// All reference ranges of a name, in document order.
pub open spec fn spec_refs_of(refs: Seq<(Seq<u8>, ByteRange)>, name: Seq<u8>) -> Seq<ByteRange> {
    spec_refs_upto(refs, name, refs.len() as int)
}

/// Label index of one document snapshot.
#[derive(Debug)]
pub struct Index {
    /// Definition entries in document order; later entries shadow
    /// earlier ones of the same name.
    pub label_defs: Vec<(Vec<u8>, ByteRange)>,
    /// Reference entries in document order.
    pub label_refs: Vec<(Vec<u8>, ByteRange)>,
}

impl Index {
    /// The definition list as mathematical values.
    pub open spec fn defs_view(self) -> Seq<(Seq<u8>, ByteRange)> {
        self.label_defs@.map_values(|p: (Vec<u8>, ByteRange)| (p.0@, p.1))
    }

    /// The reference list as mathematical values.
    pub open spec fn refs_view(self) -> Seq<(Seq<u8>, ByteRange)> {
        self.label_refs@.map_values(|p: (Vec<u8>, ByteRange)| (p.0@, p.1))
    }

    /// The index corresponds to a tree and a text: its lists are exactly
    /// what one traversal gathers.
    pub open spec fn matches(self, ns: Seq<Node>, t: Seq<u8>) -> bool {
        &&& self.defs_view() == spec_defs(ns, t, ns.len() as int)
        &&& self.refs_view() == spec_refs(ns, t, ns.len() as int)
    }

    /// Builds the index by one traversal of the tree in document order.
    pub fn build(tree: &SyntaxTree, text: &Vec<u8>) -> (r: Index)
        requires
            tree.wf(),
        ensures
            r.matches(tree.nodes@, text@),
    {
        let ns = &tree.nodes;
        let n = ns.len();
        let mut defs: Vec<(Vec<u8>, ByteRange)> = Vec::new();
        let mut refs: Vec<(Vec<u8>, ByteRange)> = Vec::new();
        let mut i: usize = 0;
        while i < n
            invariant
                tree.wf(),
                ns == &tree.nodes,
                n == ns@.len(),
                0 <= i <= n,
                defs@.map_values(|p: (Vec<u8>, ByteRange)| (p.0@, p.1)) == spec_defs(
                    ns@,
                    text@,
                    i as int,
                ),
                refs@.map_values(|p: (Vec<u8>, ByteRange)| (p.0@, p.1)) == spec_refs(
                    ns@,
                    text@,
                    i as int,
                ),
            decreases n - i,
        {
            let node = &ns[i];
            if matches!(node.kind, NodeKind::LabelDefinition) {
                let name_id: Option<usize> = match node.name_child {
                    Some(c) => Some(c),
                    None => if node.children.len() >= 2 {
                        Some(node.children[1])
                    } else {
                        None
                    },
                };
                match name_id {
                    Some(c) => {
                        if c < n && ns[c].start <= ns[c].end && ns[c].end <= text.len() {
                            let name = copy_range(text, ns[c].start, ns[c].end);
                            let entry = (name, ByteRange { start: node.start, end: node.end });
                            let ghost prev = defs@;
                            defs.push(entry);
                            proof {
                                assert(defs@.map_values(|p: (Vec<u8>, ByteRange)| (p.0@, p.1))
                                    =~= prev.map_values(
                                    |p: (Vec<u8>, ByteRange)| (p.0@, p.1),
                                ).push((entry.0@, entry.1)));
                            }
                        }
                    },
                    None => {},
                }
            } else if matches!(node.kind, NodeKind::Hop | NodeKind::Leap | NodeKind::LabelReference) {
                let fallback: usize = if matches!(node.kind, NodeKind::LabelReference) {
                    0
                } else {
                    1
                };
                let target_id: Option<usize> = match node.name_child {
                    Some(c) => Some(c),
                    None => if fallback < node.children.len() {
                        Some(node.children[fallback])
                    } else {
                        None
                    },
                };
                let target_id: Option<usize> = match target_id {
                    Some(c) => {
                        if matches!(node.kind, NodeKind::LabelReference) {
                            Some(c)
                        } else if c < n && matches!(ns[c].kind, NodeKind::Identifier) {
                            Some(c)
                        } else {
                            None
                        }
                    },
                    None => None,
                };
                match target_id {
                    Some(c) => {
                        if c < n && ns[c].start <= ns[c].end && ns[c].end <= text.len() {
                            let name = copy_range(text, ns[c].start, ns[c].end);
                            let entry = (name, ByteRange { start: ns[c].start, end: ns[c].end });
                            let ghost prev = refs@;
                            refs.push(entry);
                            proof {
                                assert(refs@.map_values(|p: (Vec<u8>, ByteRange)| (p.0@, p.1))
                                    =~= prev.map_values(
                                    |p: (Vec<u8>, ByteRange)| (p.0@, p.1),
                                ).push((entry.0@, entry.1)));
                            }
                        }
                    },
                    None => {},
                }
            }
            i = i + 1;
        }
        Index { label_defs: defs, label_refs: refs }
    }
}

/// Copies the byte range `[start, end)` of the text.
pub fn copy_range(text: &Vec<u8>, start: usize, end: usize) -> (r: Vec<u8>)
    requires
        start <= end <= text@.len(),
    ensures
        r@ == text@.subrange(start as int, end as int),
{
    let mut out: Vec<u8> = Vec::new();
    let mut j: usize = start;
    while j < end
        invariant
            start <= j <= end <= text@.len(),
            out@ == text@.subrange(start as int, j as int),
        decreases end - j,
    {
        let ghost prev = out@;
        out.push(text[j]);
        proof {
            assert(out@ =~= text@.subrange(start as int, j as int + 1));
        }
        j = j + 1;
    }
    out
}

/// Compares a byte vector to a byte slice.
pub fn bytes_eq(a: &Vec<u8>, b: &[u8]) -> (r: bool)
    ensures
        r == (a@ == b@),
{
    if a.len() != b.len() {
        proof {
            assert(a@.len() != b@.len());
        }
        return false;
    }
    let n = a.len();
    let mut j: usize = 0;
    while j < n
        invariant
            n == a@.len() == b@.len(),
            0 <= j <= n,
            forall|k: int| 0 <= k < j ==> a@[k] == b@[k],
        decreases n - j,
    {
        if a[j] != *slice_index_get(b, j) {
            return false;
        }
        j = j + 1;
    }
    proof {
        assert(a@ =~= b@);
    }
    true
}

/// Looks a label name up among the definitions; the last definition of
/// the name wins.
pub fn find_label_definition(index: &Index, name: &[u8]) -> (r: Option<ByteRange>)
    ensures
        r == spec_lookup_def(index.defs_view(), name@),
{
    let n = index.label_defs.len();
    let ghost dv = index.defs_view();
    let mut i: usize = n;
    while i > 0
        invariant
            n == index.label_defs@.len(),
            0 <= i <= n,
            dv == index.defs_view(),
            dv.len() == n,
            spec_lookup_def(dv, name@) == spec_lookup_upto(dv, name@, i as int),
        decreases i,
    {
        i = i - 1;
        if bytes_eq(&index.label_defs[i].0, name) {
            proof {
                assert(dv[i as int].0 == index.label_defs@[i as int].0@);
            }
            return Some(index.label_defs[i].1);
        }
        proof {
            assert(dv[i as int].0 == index.label_defs@[i as int].0@);
        }
    }
    None
}

/// Collects all reference ranges recorded for a label name, in document
/// order; nothing when the name was never jumped to.
pub fn find_label_references(index: &Index, name: &[u8]) -> (r: Option<Vec<ByteRange>>)
    ensures
        match r {
            Option::Some(v) => v@ == spec_refs_of(index.refs_view(), name@) && v@.len() > 0,
            Option::None => spec_refs_of(index.refs_view(), name@).len() == 0,
        },
{
    let n = index.label_refs.len();
    let ghost rv = index.refs_view();
    let mut out: Vec<ByteRange> = Vec::new();
    let mut i: usize = 0;
    while i < n
        invariant
            n == index.label_refs@.len(),
            0 <= i <= n,
            rv == index.refs_view(),
            rv.len() == n,
            out@ == spec_refs_upto(rv, name@, i as int),
        decreases n - i,
    {
        proof {
            assert(rv[i as int].0 == index.label_refs@[i as int].0@);
            assert(rv[i as int].1 == index.label_refs@[i as int].1);
        }
        if bytes_eq(&index.label_refs[i].0, name) {
            out.push(index.label_refs[i].1);
        }
        i = i + 1;
    }
    if out.len() == 0 {
        None
    } else {
        Some(out)
    }
}

} // verus!
