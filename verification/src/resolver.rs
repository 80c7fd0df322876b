//! Query resolution: hover, go-to-definition, find-references and
//! document symbols, built on the node locator and the label index.
//!
//! Hover walks upward from the located node through its ancestors,
//! evaluating a fixed ordered rule list at each level — instruction
//! keyword, label definition, bare identifier — and stops at the first
//! match; reaching the root with no match yields nothing.

use vstd::prelude::*;
use vstd::slice::slice_to_vec;
use vstd::string::StringSliceAdditionalSpecFns;

use crate::{ByteRange, Position, Range};
use crate::diagnostics::append_bytes;
use crate::document::{Doc, find_node_at_position, labeldef_to_range, spec_query_offset, spec_range_of};
use crate::index::{
    copy_range, find_label_definition, find_label_references, range_in_text, spec_lookup_def,
    spec_refs_of,
};
use crate::tree::{
    Node, NodeKind, leading_word_range, spec_is_control, spec_is_io, spec_is_operator,
    spec_is_stack_op, spec_leading_word_end,
};

verus! {

/// A resolved hover: a message and the span it is anchored to.
pub struct HoverInfo {
    pub message: Vec<u8>,
    pub range: Range,
}

/// A document symbol: one label definition.
pub struct Symbol {
    pub name: Vec<u8>,
    pub range: Range,
    pub selection_range: Range,
}

/// Whether a kind is one of the instruction words of the fixed dispatch
/// table: the same classes the token builder uses for keyword, operator
/// and parameter classification.
pub open spec fn spec_is_instruction(k: NodeKind) -> bool {
    ||| spec_is_control(k)
    ||| spec_is_stack_op(k)
    ||| spec_is_operator(k)
    ||| spec_is_io(k)
}

/// The one-line description of each instruction word.
pub open spec fn spec_hover_text(k: NodeKind) -> Seq<u8> {
    match k {
        NodeKind::Plop => "PLOP <value>: Push a value onto the stack".spec_bytes(),
        NodeKind::Splash => "SPLASH: Pop a value off the stack".spec_bytes(),
        NodeKind::Gulp => "GULP: Increment top of stack".spec_bytes(),
        NodeKind::Burp => "BURP: Decrement top of stack".spec_bytes(),
        NodeKind::Dup => "DUP: Duplicate top of stack".spec_bytes(),
        NodeKind::Swap => "SWAP: Swap top two stack values".spec_bytes(),
        NodeKind::Over => "OVER: Duplicate second from top of stack".spec_bytes(),
        NodeKind::Lily => "LILY <label>: Define a lilypad label".spec_bytes(),
        NodeKind::Hop => "HOP <Lilypad>: Unconditional jump to a lilypad".spec_bytes(),
        NodeKind::Leap => "LEAP <Lilypad>: Pop a, if (a == 0) then jump to lilypad".spec_bytes(),
        NodeKind::Ribbit => "RIBBIT: Print top of stack".spec_bytes(),
        NodeKind::Croak => "CROAK: Read input".spec_bytes(),
        NodeKind::AddOp => "ADD: Pop a b, push (b + a)".spec_bytes(),
        NodeKind::SubOp => "SUB: Pop a b, push (b - a)".spec_bytes(),
        NodeKind::MulOp => "MUL: Pop a b, push (b * a)".spec_bytes(),
        NodeKind::DivOp => "DIV: Pop a b, push (b / a)".spec_bytes(),
        NodeKind::EqualsOp => "EQUALS: Pop a b, push (b == a)".spec_bytes(),
        NodeKind::NotEqualOp => "NOT_EQUAL: Pop a b, push (b != a)".spec_bytes(),
        NodeKind::LessThanOp => "LESS_THAN: Pop a b, push (b < a)".spec_bytes(),
        NodeKind::GreaterThanOp => "GREATER_THAN: Pop a b, push (b > a)".spec_bytes(),
        NodeKind::LessEqOp => "LESS_EQ: Pop a b, push (b <= a)".spec_bytes(),
        NodeKind::GreaterEqOp => "GREATER_EQ: Pop a b, push (b >= a)".spec_bytes(),
        _ => Seq::empty(),
    }
}

/// The description of an instruction word, for hover.
pub fn hover_text(k: NodeKind) -> (r: &'static str)
    requires
        spec_is_instruction(k),
    ensures
        r.spec_bytes() == spec_hover_text(k),
{
    match k {
        NodeKind::Plop => "PLOP <value>: Push a value onto the stack",
        NodeKind::Splash => "SPLASH: Pop a value off the stack",
        NodeKind::Gulp => "GULP: Increment top of stack",
        NodeKind::Burp => "BURP: Decrement top of stack",
        NodeKind::Dup => "DUP: Duplicate top of stack",
        NodeKind::Swap => "SWAP: Swap top two stack values",
        NodeKind::Over => "OVER: Duplicate second from top of stack",
        NodeKind::Lily => "LILY <label>: Define a lilypad label",
        NodeKind::Hop => "HOP <Lilypad>: Unconditional jump to a lilypad",
        NodeKind::Leap => "LEAP <Lilypad>: Pop a, if (a == 0) then jump to lilypad",
        NodeKind::Ribbit => "RIBBIT: Print top of stack",
        NodeKind::Croak => "CROAK: Read input",
        NodeKind::AddOp => "ADD: Pop a b, push (b + a)",
        NodeKind::SubOp => "SUB: Pop a b, push (b - a)",
        NodeKind::MulOp => "MUL: Pop a b, push (b * a)",
        NodeKind::DivOp => "DIV: Pop a b, push (b / a)",
        NodeKind::EqualsOp => "EQUALS: Pop a b, push (b == a)",
        NodeKind::NotEqualOp => "NOT_EQUAL: Pop a b, push (b != a)",
        NodeKind::LessThanOp => "LESS_THAN: Pop a b, push (b < a)",
        NodeKind::GreaterThanOp => "GREATER_THAN: Pop a b, push (b > a)",
        NodeKind::LessEqOp => "LESS_EQ: Pop a b, push (b <= a)",
        _ => "GREATER_EQ: Pop a b, push (b >= a)",
    }
}

/// A node's text, read from the document's bytes; empty where the
/// node's span cannot be read.
pub open spec fn spec_node_text(t: Seq<u8>, n: Node) -> Seq<u8> {
    if range_in_text(t, n) {
        t.subrange(n.start as int, n.end as int)
    } else {
        Seq::empty()
    }
}

/// Reads a node's text out of the document.
pub fn node_text(text: &Vec<u8>, node: &Node) -> (r: Vec<u8>)
    ensures
        r@ == spec_node_text(text@, *node),
{
    if node.start <= node.end && node.end <= text.len() {
        copy_range(text, node.start, node.end)
    } else {
        Vec::new()
    }
}

/// A kind that makes its identifier child something other than a plain
/// label use: the identifier is then a definition name or a jump target.
pub open spec fn spec_is_binding_parent(k: NodeKind) -> bool {
    k == NodeKind::LabelDefinition || k == NodeKind::Hop || k == NodeKind::Leap
}

/// The leading-word anchor of a node.
pub open spec fn spec_lead_range(t: Seq<u8>, n: Node) -> ByteRange {
    ByteRange { start: n.start, end: spec_leading_word_end(t, n.start as int, n.end as int) as usize }
}

/// The hover resolved from node `i` upward: at each ancestor level the
/// rules are tried in order — instruction word, label definition, bare
/// identifier naming a known label — and the walk stops at the first
/// match, or at the root with nothing.
pub open spec fn spec_hover_at(doc: Doc, i: int) -> Option<(Seq<u8>, ByteRange)>
    decreases i,
    when 0 <= i < doc.tree.nodes@.len() && doc.tree.wf()
{
    let ns = doc.tree.nodes@;
    let n = ns[i];
    if spec_is_instruction(n.kind) {
        Some((spec_hover_text(n.kind), spec_lead_range(doc.text@, n)))
    } else if n.kind == NodeKind::LabelDefinition {
        match n.name_child {
            Option::Some(c) => Some(
                (
                    "Label definition: ".spec_bytes() + spec_node_text(doc.text@, ns[c as int]),
                    ByteRange { start: ns[c as int].start, end: ns[c as int].end },
                ),
            ),
            Option::None => if i == 0 {
                None
            } else {
                spec_hover_at(doc, n.parent as int)
            },
        }
    } else if n.kind == NodeKind::Identifier && i > 0 && !spec_is_binding_parent(
        ns[n.parent as int].kind,
    ) && spec_lookup_def(doc.index.defs_view(), spec_node_text(doc.text@, n)) is Some {
        Some(
            (
                "Label: ".spec_bytes() + spec_node_text(doc.text@, n),
                spec_lead_range(doc.text@, n),
            ),
        )
    } else if i == 0 {
        None
    } else {
        spec_hover_at(doc, n.parent as int)
    }
}

/// The hover a query at `position` resolves to.
pub open spec fn spec_hover(doc: Doc, position: Position) -> Option<(Seq<u8>, ByteRange)> {
    spec_hover_at(doc, doc.tree.spec_node_at(spec_query_offset(doc, position)))
}

/// Resolves a hover query: locates the node at `position` and walks its
/// ancestor chain through the rule table.
pub fn hover(doc: &Doc, position: Position) -> (r: Option<HoverInfo>)
    requires
        doc.wf(),
    ensures
        match r {
            Option::Some(info) => {
                &&& spec_hover(*doc, position) matches Some(p)
                &&& info.message@ == spec_hover(*doc, position)->Some_0.0
                &&& info.range == spec_range_of(
                    doc.text@,
                    doc.line_index.line_starts@,
                    spec_hover(*doc, position)->Some_0.1,
                )
            },
            Option::None => spec_hover(*doc, position) is None,
        },
{
    let node = find_node_at_position(doc, position);
    let ghost start = node as int;
    let mut cur: usize = node;
    loop
        invariant
            doc.wf(),
            0 <= cur < doc.tree.nodes@.len(),
            spec_hover_at(*doc, start) == spec_hover_at(*doc, cur as int),
            start == doc.tree.spec_node_at(spec_query_offset(*doc, position)),
        decreases cur,
    {
        let n = &doc.tree.nodes[cur];
        if matches!(n.kind, NodeKind::Plop | NodeKind::Splash | NodeKind::Gulp | NodeKind::Burp
            | NodeKind::Dup | NodeKind::Swap | NodeKind::Over | NodeKind::Lily | NodeKind::Hop
            | NodeKind::Leap | NodeKind::Ribbit | NodeKind::Croak | NodeKind::AddOp
            | NodeKind::SubOp | NodeKind::MulOp | NodeKind::DivOp | NodeKind::EqualsOp
            | NodeKind::NotEqualOp | NodeKind::LessThanOp | NodeKind::GreaterThanOp
            | NodeKind::LessEqOp | NodeKind::GreaterEqOp) {
            let lead = leading_word_range(&doc.text, n);
            let message = slice_to_vec(hover_text(n.kind).as_bytes());
            return Some(HoverInfo { message, range: labeldef_to_range(&lead, doc) });
        } else if matches!(n.kind, NodeKind::LabelDefinition) {
            match n.name_child {
                Some(c) => {
                    let name_node = &doc.tree.nodes[c];
                    let name = node_text(&doc.text, name_node);
                    let mut message: Vec<u8> = slice_to_vec("Label definition: ".as_bytes());
                    append_bytes(&mut message, name.as_slice());
                    let br = ByteRange { start: name_node.start, end: name_node.end };
                    return Some(HoverInfo { message, range: labeldef_to_range(&br, doc) });
                },
                None => {},
            }
        } else if matches!(n.kind, NodeKind::Identifier) && cur > 0 {
            let parent = &doc.tree.nodes[n.parent];
            if !matches!(parent.kind, NodeKind::LabelDefinition | NodeKind::Hop | NodeKind::Leap) {
                let name = node_text(&doc.text, n);
                match find_label_definition(&doc.index, name.as_slice()) {
                    Some(_) => {
                        let lead = leading_word_range(&doc.text, n);
                        let mut message: Vec<u8> = slice_to_vec("Label: ".as_bytes());
                        append_bytes(&mut message, name.as_slice());
                        return Some(HoverInfo { message, range: labeldef_to_range(&lead, doc) });
                    },
                    None => {},
                }
            }
        }
        if cur == 0 {
            return None;
        }
        cur = n.parent;
    }
}

/// A node's text as jump-target lookups read it, with a placeholder name
/// standing in for an unreadable span.
pub open spec fn spec_target_text(t: Seq<u8>, n: Node) -> Seq<u8> {
    if range_in_text(t, n) {
        t.subrange(n.start as int, n.end as int)
    } else {
        "__unknown__".spec_bytes()
    }
}

/// Reads a node's text for a jump-target lookup.
fn target_text(text: &Vec<u8>, node: &Node) -> (r: Vec<u8>)
    ensures
        r@ == spec_target_text(text@, *node),
{
    if node.start <= node.end && node.end <= text.len() {
        copy_range(text, node.start, node.end)
    } else {
        slice_to_vec("__unknown__".as_bytes())
    }
}

/// Where a go-to-definition query at `position` leads: the range of the
/// named label's definition, provided the located node is an identifier
/// directly under a jump instruction and the label is defined.
pub open spec fn spec_goto_definition(doc: Doc, position: Position) -> Option<Range> {
    let ns = doc.tree.nodes@;
    let i = doc.tree.spec_node_at(spec_query_offset(doc, position));
    let n = ns[i];
    if n.kind == NodeKind::Identifier && i > 0 && (ns[n.parent as int].kind == NodeKind::Hop
        || ns[n.parent as int].kind == NodeKind::Leap) {
        match spec_lookup_def(doc.index.defs_view(), spec_target_text(doc.text@, n)) {
            Option::Some(def) => Some(
                spec_range_of(doc.text@, doc.line_index.line_starts@, def),
            ),
            Option::None => None,
        }
    } else {
        None
    }
}

/// Resolves a go-to-definition query. Fires only on an identifier whose
/// immediate parent is a jump instruction; an undefined label yields
/// nothing.
pub fn goto_definition(doc: &Doc, position: Position) -> (r: Option<Range>)
    requires
        doc.wf(),
    ensures
        r == spec_goto_definition(*doc, position),
{
    let node = find_node_at_position(doc, position);
    let n = &doc.tree.nodes[node];
    if matches!(n.kind, NodeKind::Identifier) && node > 0 {
        let parent = &doc.tree.nodes[n.parent];
        if matches!(parent.kind, NodeKind::Hop | NodeKind::Leap) {
            let name = target_text(&doc.text, n);
            match find_label_definition(&doc.index, name.as_slice()) {
                Some(def) => {
                    return Some(labeldef_to_range(&def, doc));
                },
                None => {
                    return None;
                },
            }
        }
    }
    None
}

/// What a references query at `position` returns: nothing unless the
/// located node is an identifier; otherwise the definition range first
/// (when asked for and present), then every recorded reference range of
/// the name in document order; nothing when that list is empty.
pub open spec fn spec_references(doc: Doc, position: Position, include_declaration: bool) -> Option<
    Seq<Range>,
> {
    let ns = doc.tree.nodes@;
    let i = doc.tree.spec_node_at(spec_query_offset(doc, position));
    let n = ns[i];
    if n.kind == NodeKind::Identifier {
        let name = spec_target_text(doc.text@, n);
        let decl: Seq<Range> = match spec_lookup_def(doc.index.defs_view(), name) {
            Option::Some(def) => if include_declaration {
                seq![spec_range_of(doc.text@, doc.line_index.line_starts@, def)]
            } else {
                Seq::empty()
            },
            Option::None => Seq::empty(),
        };
        let locs = decl + spec_refs_of(doc.index.refs_view(), name).map_values(
            |br: ByteRange| spec_range_of(doc.text@, doc.line_index.line_starts@, br),
        );
        if locs.len() == 0 {
            None
        } else {
            Some(locs)
        }
    } else {
        None
    }
}

/// Resolves a find-references query.
pub fn references(doc: &Doc, position: Position, include_declaration: bool) -> (r: Option<
    Vec<Range>,
>)
    requires
        doc.wf(),
    ensures
        match r {
            Option::Some(v) => {
                &&& spec_references(*doc, position, include_declaration) matches Some(s)
                &&& v@ == spec_references(*doc, position, include_declaration)->Some_0
            },
            Option::None => spec_references(*doc, position, include_declaration) is None,
        },
{
    let node = find_node_at_position(doc, position);
    let n = &doc.tree.nodes[node];
    if !matches!(n.kind, NodeKind::Identifier) {
        return None;
    }
    let name = target_text(&doc.text, n);
    let mut locations: Vec<Range> = Vec::new();
    if include_declaration {
        match find_label_definition(&doc.index, name.as_slice()) {
            Some(def) => {
                locations.push(labeldef_to_range(&def, doc));
            },
            None => {},
        }
    }
    let ghost decl = locations@;
    match find_label_references(&doc.index, name.as_slice()) {
        Some(refs) => {
            let m = refs.len();
            let mut k: usize = 0;
            while k < m
                invariant
                    doc.wf(),
                    m == refs@.len(),
                    0 <= k <= m,
                    locations@ == decl + refs@.subrange(0, k as int).map_values(
                        |br: ByteRange| spec_range_of(doc.text@, doc.line_index.line_starts@, br),
                    ),
                decreases m - k,
            {
                locations.push(labeldef_to_range(&refs[k], doc));
                proof {
                    assert(locations@ =~= decl + refs@.subrange(0, k as int + 1).map_values(
                        |br: ByteRange| spec_range_of(doc.text@, doc.line_index.line_starts@, br),
                    ));
                }
                k = k + 1;
            }
            proof {
                assert(refs@.subrange(0, m as int) =~= refs@);
            }
        },
        None => {
            proof {
                assert(locations@ =~= decl + spec_refs_of(
                    doc.index.refs_view(),
                    name@,
                ).map_values(
                    |br: ByteRange| spec_range_of(doc.text@, doc.line_index.line_starts@, br),
                ));
            }
        },
    }
    if locations.len() == 0 {
        None
    } else {
        Some(locations)
    }
}

/// A definition entry not shadowed by a later entry of the same name.
pub open spec fn spec_is_live_def(defs: Seq<(Seq<u8>, ByteRange)>, i: int) -> bool {
    forall|j: int| i < j < defs.len() ==> (#[trigger] defs[j]).0 != defs[i].0
}

/// The symbols of the first `n` definition entries: one per entry that
/// still names its label (is not shadowed), in document order.
pub open spec fn spec_symbols(
    defs: Seq<(Seq<u8>, ByteRange)>,
    t: Seq<u8>,
    sv: Seq<usize>,
    n: int,
) -> Seq<(Seq<u8>, Range)>
    decreases n,
{
    if n <= 0 {
        Seq::empty()
    } else {
        let prev = spec_symbols(defs, t, sv, n - 1);
        if spec_is_live_def(defs, n - 1) {
            prev.push((defs[n - 1].0, spec_range_of(t, sv, defs[n - 1].1)))
        } else {
            prev
        }
    }
}

/// Lists one symbol per label the document defines: the label's name,
/// with range and selection range both equal to the definition span.
pub fn document_symbol(doc: &Doc) -> (r: Vec<Symbol>)
    requires
        doc.wf(),
    ensures
        r@.map_values(|s: Symbol| (s.name@, s.range)) == spec_symbols(
            doc.index.defs_view(),
            doc.text@,
            doc.line_index.line_starts@,
            doc.index.defs_view().len() as int,
        ),
        forall|k: int|
            0 <= k < r@.len() ==> (#[trigger] r@[k]).selection_range == r@[k].range,
{
    let defs = &doc.index.label_defs;
    let n = defs.len();
    let ghost dv = doc.index.defs_view();
    let mut out: Vec<Symbol> = Vec::new();
    let mut i: usize = 0;
    while i < n
        invariant
            doc.wf(),
            defs == &doc.index.label_defs,
            n == defs@.len(),
            dv == doc.index.defs_view(),
            dv.len() == n,
            0 <= i <= n,
            out@.map_values(|s: Symbol| (s.name@, s.range)) == spec_symbols(
                dv,
                doc.text@,
                doc.line_index.line_starts@,
                i as int,
            ),
            forall|k: int|
                0 <= k < out@.len() ==> (#[trigger] out@[k]).selection_range == out@[k].range,
        decreases n - i,
    {
        proof {
            assert(dv[i as int].0 == defs@[i as int].0@);
            assert(dv[i as int].1 == defs@[i as int].1);
        }
        let mut shadowed = false;
        let mut j: usize = i + 1;
        while j < n
            invariant
                doc.wf(),
                defs == &doc.index.label_defs,
                n == defs@.len(),
                dv == doc.index.defs_view(),
                dv.len() == n,
                0 <= i < n,
                i < j <= n,
                shadowed ==> !spec_is_live_def(dv, i as int),
                !shadowed ==> forall|q: int| i < q < j ==> (#[trigger] dv[q]).0 != dv[i as int].0,
            decreases n - j,
        {
            proof {
                assert(dv[j as int].0 == defs@[j as int].0@);
            }
            if !shadowed && crate::index::bytes_eq(&defs[j].0, defs[i].0.as_slice()) {
                shadowed = true;
            }
            j = j + 1;
        }
        if !shadowed {
            proof {
                assert(spec_is_live_def(dv, i as int));
            }
            let name = copy_whole(&defs[i].0);
            let range = labeldef_to_range(&defs[i].1, doc);
            let s = Symbol { name, range, selection_range: range };
            let ghost prev = out@;
            let ghost svw = (s.name@, s.range);
            out.push(s);
            proof {
                assert(out@.map_values(|s: Symbol| (s.name@, s.range)) =~= prev.map_values(
                    |s: Symbol| (s.name@, s.range),
                ).push(svw));
            }
        }
        i = i + 1;
    }
    out
}

/// Copies a byte vector.
fn copy_whole(src: &Vec<u8>) -> (r: Vec<u8>)
    ensures
        r@ == src@,
{
    let r = copy_range(src, 0, src.len());
    proof {
        assert(src@.subrange(0, src@.len() as int) =~= src@);
    }
    r
}

/// A references query on a defined label returns the definition first
/// (when declarations are asked for) and then every recorded reference of
/// the name, in document order: one range more than the reference list
/// holds.
pub proof fn lemma_references_order(doc: Doc, position: Position, def: ByteRange)
    requires
        doc.wf(),
        ({
            let ns = doc.tree.nodes@;
            let n = ns[doc.tree.spec_node_at(spec_query_offset(doc, position))];
            &&& n.kind == NodeKind::Identifier
            &&& spec_lookup_def(doc.index.defs_view(), spec_target_text(doc.text@, n)) == Some(def)
        }),
    ensures
        ({
            let ns = doc.tree.nodes@;
            let n = ns[doc.tree.spec_node_at(spec_query_offset(doc, position))];
            let name = spec_target_text(doc.text@, n);
            let sv = doc.line_index.line_starts@;
            spec_references(doc, position, true) == Some(
                seq![spec_range_of(doc.text@, sv, def)] + spec_refs_of(
                    doc.index.refs_view(),
                    name,
                ).map_values(|br: ByteRange| spec_range_of(doc.text@, sv, br)),
            ) && spec_references(doc, position, true)->Some_0.len() == 1 + spec_refs_of(
                doc.index.refs_view(),
                name,
            ).len()
        }),
{
}

/// For a defined label, go-to-definition at any of its references leads
/// to the label's definition range: whenever a query position locates an
/// identifier directly under a jump instruction and the identifier's
/// text has a definition entry, the query returns exactly that entry's
/// range.
pub proof fn lemma_definition_at_reference(doc: Doc, position: Position, def: ByteRange)
    requires
        doc.wf(),
        ({
            let ns = doc.tree.nodes@;
            let i = doc.tree.spec_node_at(spec_query_offset(doc, position));
            let n = ns[i];
            &&& n.kind == NodeKind::Identifier
            &&& i > 0
            &&& ns[n.parent as int].kind == NodeKind::Hop || ns[n.parent as int].kind
                == NodeKind::Leap
            &&& spec_lookup_def(doc.index.defs_view(), spec_target_text(doc.text@, n)) == Some(def)
        }),
    ensures
        spec_goto_definition(doc, position) == Some(
            spec_range_of(doc.text@, doc.line_index.line_starts@, def),
        ),
{
}

} // verus!
