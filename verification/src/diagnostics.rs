//! Syntax diagnostics: one walk over every node of the tree, emitting an
//! error entry for each node the parser marked erroring or missing, or
//! tagged with the generic error kind. Nested error nodes each produce
//! their own entry; nothing is deduplicated.

use vstd::prelude::*;
use vstd::slice::slice_to_vec;
use vstd::string::StringSliceAdditionalSpecFns;

use crate::{ByteRange, Range};
use crate::document::{Doc, spec_range_of};
use crate::index::range_in_text;
use crate::tree::{Node, NodeKind};

verus! {

/// Severity of a diagnostic, as the protocol grades them. The syntax
/// walk only ever emits errors.
#[derive(Clone, Copy, Debug, PartialEq, Eq, Structural)]
pub enum Severity {
    Error,
    Warning,
    Information,
    Hint,
}

/// One diagnostic: a protocol range, a severity, and a message in UTF-8
/// bytes.
pub struct Diagnostic {
    pub range: Range,
    pub severity: Severity,
    pub message: Vec<u8>,
}

/// The diagnostics source name attached to every published entry.
pub fn diagnostic_source() -> (r: &'static str)
    ensures
        r@ == "froggy"@,
{
    "froggy"
}

/// Whether a node qualifies for a diagnostic: the parser marked it
/// erroring or missing, or gave it the generic error kind.
pub open spec fn spec_diag_node(n: Node) -> bool {
    n.is_error || n.is_missing || n.kind == NodeKind::ErrorKind
}

/// The message of a diagnostic for node `n`: the node's own text quoted
/// after a fixed phrase, or empty quotes where the node's span cannot be
/// read from the text.
pub open spec fn spec_diag_message(t: Seq<u8>, n: Node) -> Seq<u8> {
    "Syntax error near `".spec_bytes() + (if range_in_text(t, n) {
        t.subrange(n.start as int, n.end as int)
    } else {
        Seq::empty()
    }) + "`".spec_bytes()
}

/// The diagnostics contributed by the first `n` nodes, in traversal
/// order: range mapped through the position mapper, and the quoted
/// message.
pub open spec fn spec_diags(ns: Seq<Node>, t: Seq<u8>, sv: Seq<usize>, n: int) -> Seq<
    (Range, Seq<u8>),
>
    decreases n,
{
    if n <= 0 {
        Seq::empty()
    } else {
        let prev = spec_diags(ns, t, sv, n - 1);
        let i = n - 1;
        if spec_diag_node(ns[i]) {
            prev.push(
                (
                    spec_range_of(t, sv, ByteRange { start: ns[i].start, end: ns[i].end }),
                    spec_diag_message(t, ns[i]),
                ),
            )
        } else {
            prev
        }
    }
}

/// Appends a byte slice to a byte vector.
pub fn append_bytes(dst: &mut Vec<u8>, src: &[u8])
    ensures
        final (dst)@ == old(dst)@ + src@,
{
    let n = src.len();
    let mut j: usize = 0;
    while j < n
        invariant
            n == src@.len(),
            0 <= j <= n,
            dst@ == old(dst)@ + src@.subrange(0, j as int),
        decreases n - j,
    {
        dst.push(*vstd::slice::slice_index_get(src, j));
        proof {
            assert(dst@ =~= old(dst)@ + src@.subrange(0, j as int + 1));
        }
        j = j + 1;
    }
    proof {
        assert(dst@ =~= old(dst)@ + src@);
    }
}

/// Builds the message for one qualifying node.
fn diag_message(text: &Vec<u8>, node: &Node) -> (r: Vec<u8>)
    ensures
        r@ == spec_diag_message(text@, *node),
{
    let mut m: Vec<u8> = slice_to_vec("Syntax error near `".as_bytes());
    if node.start <= node.end && node.end <= text.len() {
        let span = crate::index::copy_range(text, node.start, node.end);
        append_bytes(&mut m, span.as_slice());
    } else {
        proof {
            assert(m@ =~= m@ + Seq::<u8>::empty());
        }
    }
    append_bytes(&mut m, "`".as_bytes());
    m
}

/// Walks every node of the document's tree and returns one diagnostic,
/// severity error, per qualifying node, ranges translated through the
/// document's position mapper.
pub fn collect_diagnostics(doc: &Doc) -> (r: Vec<Diagnostic>)
    requires
        doc.wf(),
    ensures
        r@.map_values(|d: Diagnostic| (d.range, d.message@)) == spec_diags(
            doc.tree.nodes@,
            doc.text@,
            doc.line_index.line_starts@,
            doc.tree.nodes@.len() as int,
        ),
        forall|k: int| 0 <= k < r@.len() ==> (#[trigger] r@[k]).severity == Severity::Error,
{
    let ns = &doc.tree.nodes;
    let n = ns.len();
    let mut out: Vec<Diagnostic> = Vec::new();
    let mut i: usize = 0;
    while i < n
        invariant
            doc.wf(),
            ns == &doc.tree.nodes,
            n == ns@.len(),
            0 <= i <= n,
            out@.map_values(|d: Diagnostic| (d.range, d.message@)) == spec_diags(
                ns@,
                doc.text@,
                doc.line_index.line_starts@,
                i as int,
            ),
            forall|k: int| 0 <= k < out@.len() ==> (#[trigger] out@[k]).severity == Severity::Error,
        decreases n - i,
    {
        let node = &ns[i];
        if node.is_error || node.is_missing || matches!(node.kind, NodeKind::ErrorKind) {
            let range = crate::document::labeldef_to_range(
                &ByteRange { start: node.start, end: node.end },
                doc,
            );
            let message = diag_message(&doc.text, node);
            let d = Diagnostic { range, severity: Severity::Error, message };
            let ghost prev = out@;
            let ghost dv = (d.range, d.message@);
            out.push(d);
            proof {
                assert(out@.map_values(|d: Diagnostic| (d.range, d.message@)) =~= prev.map_values(
                    |d: Diagnostic| (d.range, d.message@),
                ).push(dv));
            }
        }
        i = i + 1;
    }
    out
}

} // verus!
