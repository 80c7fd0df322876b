//! Semantic tokens: one walk classifying nodes into highlighting tokens,
//! then serialization with relative-delta compression.
//!
//! A token is confined to a single line; a span whose start and end
//! lines differ is dropped entirely, since no construct of this grammar
//! legitimately spans lines — a known limitation kept deliberately.
//! Keyword, operator and parameter tokens span only a node's leading
//! word, not its full rule span.

use vstd::prelude::*;

use crate::ByteRange;
use crate::document::Doc;
use crate::index::opt_name_child;
use crate::position::{spec_line_of, spec_offset_to_position, lemma_same_line_col_monotone};
use crate::resolver::{spec_is_binding_parent, spec_lead_range};
use crate::tree::{spec_is_control, spec_is_io, spec_is_operator, spec_is_stack_op};
use crate::tree::{Node, NodeKind, leading_word_range};

verus! {

/// Index of the keyword token type: control-flow and stack-operation
/// instruction words.
pub const TOKEN_KEYWORD: u32 = 0;

/// Index of the number token type.
pub const TOKEN_NUMBER: u32 = 1;

/// Index of the comment token type.
pub const TOKEN_COMMENT: u32 = 2;

/// Index of the string token type.
pub const TOKEN_STRING: u32 = 3;

/// Index of the variable token type: identifiers and label names.
pub const TOKEN_VARIABLE: u32 = 4;

/// Index of the operator token type: arithmetic and comparison
/// instructions.
pub const TOKEN_OPERATOR: u32 = 5;

/// Index of the parameter token type: I/O instructions.
pub const TOKEN_PARAMETER: u32 = 6;

/// Bit of the definition modifier, set only on a label's own name at its
/// definition site.
pub const MODIFIER_DEFINITION: u32 = 1;

/// The legend the encoder's type and modifier indices refer to.
pub struct Legend {
    pub token_types: Vec<&'static str>,
    pub token_modifiers: Vec<&'static str>,
}

/// The token type and modifier names, in the order the indices above
/// index them.
pub fn legend() -> (r: Legend)
    ensures
        r.token_types@.len() == 7,
        r.token_modifiers@.len() == 1,
        r.token_types@[TOKEN_KEYWORD as int]@ == "keyword"@,
        r.token_types@[TOKEN_NUMBER as int]@ == "number"@,
        r.token_types@[TOKEN_COMMENT as int]@ == "comment"@,
        r.token_types@[TOKEN_STRING as int]@ == "string"@,
        r.token_types@[TOKEN_VARIABLE as int]@ == "variable"@,
        r.token_types@[TOKEN_OPERATOR as int]@ == "operator"@,
        r.token_types@[TOKEN_PARAMETER as int]@ == "parameter"@,
        r.token_modifiers@[0]@ == "definition"@,
{
    let mut token_types: Vec<&'static str> = Vec::new();
    token_types.push("keyword");
    token_types.push("number");
    token_types.push("comment");
    token_types.push("string");
    token_types.push("variable");
    token_types.push("operator");
    token_types.push("parameter");
    let mut token_modifiers: Vec<&'static str> = Vec::new();
    token_modifiers.push("definition");
    Legend { token_types, token_modifiers }
}

/// One classified token before encoding: absolute line and UTF-16
/// column, length in UTF-16 units, type index and modifier bitset.
#[derive(Clone, Copy, Debug, PartialEq, Eq, Structural)]
pub struct Tok {
    pub line: u32,
    pub col: u32,
    pub len: u32,
    pub ty: u32,
    pub mods: u32,
}

/// The token a byte range yields, if any: both ends mapped through the
/// position mapper; dropped when the ends cannot be mapped or lie on
/// different lines.
pub open spec fn spec_tok_from_range(
    t: Seq<u8>,
    sv: Seq<usize>,
    br: ByteRange,
    ty: u32,
    mods: u32,
) -> Option<Tok> {
    if br.start <= t.len() && br.end <= t.len() {
        let s = spec_offset_to_position(t, sv, br.start as int);
        let e = spec_offset_to_position(t, sv, br.end as int);
        if s.line == e.line {
            Some(
                Tok {
                    line: s.line,
                    col: s.character,
                    len: (e.character - s.character) as u32,
                    ty,
                    mods,
                },
            )
        } else {
            None
        }
    } else {
        None
    }
}

/// Builds the token for one byte range, dropping spans that cross lines.
#[verifier::rlimit(100)]
pub fn tok_from_range(doc: &Doc, r: &ByteRange, ty: u32, mods: u32) -> (res: Option<Tok>)
    requires
        doc.wf(),
        r.start <= r.end,
    ensures
        res == spec_tok_from_range(doc.text@, doc.line_index.line_starts@, *r, ty, mods),
{
    let start = match doc.offset_to_lsp_position(r.start) {
        Some(p) => p,
        None => {
            return None;
        },
    };
    let end = match doc.offset_to_lsp_position(r.end) {
        Some(p) => p,
        None => {
            return None;
        },
    };
    if start.line != end.line {
        return None;
    }
    proof {
        let t = doc.text@;
        let sv = doc.line_index.line_starts@;
        crate::position::lemma_starts_len(sv, t);
        crate::position::lemma_line_of_exists(sv, t, r.start as int);
        crate::position::lemma_line_of_exists(sv, t, r.end as int);
        assert(spec_line_of(sv, r.start as int) == spec_line_of(sv, r.end as int));
        lemma_same_line_col_monotone(t, sv, r.start as int, r.end as int);
    }
    Some(Tok { line: start.line, col: start.character, len: end.character - start.character, ty, mods })
}

/// A token option as a sequence of zero or one tokens.
pub open spec fn opt_seq(o: Option<Tok>) -> Seq<Tok> {
    match o {
        Option::Some(t) => seq![t],
        Option::None => Seq::empty(),
    }
}

/// The byte range of node `c` of the tree.
pub open spec fn spec_node_range(ns: Seq<Node>, c: int) -> ByteRange {
    ByteRange { start: ns[c].start, end: ns[c].end }
}

/// The tokens node `i` contributes: named instruction words anchor a
/// keyword/operator/parameter token to their leading word; a label
/// definition tags its name child as keyword and as defined variable; a
/// bare identifier that is neither a definition name nor a jump target
/// is a variable; literals and comments keep their own types.
pub open spec fn spec_node_tokens(ns: Seq<Node>, t: Seq<u8>, sv: Seq<usize>, i: int) -> Seq<Tok> {
    let n = ns[i];
    if n.is_named && spec_is_control(n.kind) {
        opt_seq(spec_tok_from_range(t, sv, spec_lead_range(t, n), TOKEN_KEYWORD, 0))
    } else if n.is_named && spec_is_stack_op(n.kind) {
        opt_seq(spec_tok_from_range(t, sv, spec_lead_range(t, n), TOKEN_KEYWORD, 0))
    } else if n.is_named && spec_is_operator(n.kind) {
        opt_seq(spec_tok_from_range(t, sv, spec_lead_range(t, n), TOKEN_OPERATOR, 0))
    } else if n.is_named && spec_is_io(n.kind) {
        opt_seq(spec_tok_from_range(t, sv, spec_lead_range(t, n), TOKEN_PARAMETER, 0))
    } else if n.kind == NodeKind::LabelDefinition {
        (match opt_name_child(n, 0) {
            Option::Some(c) => if 0 <= c < ns.len() {
                opt_seq(spec_tok_from_range(t, sv, spec_node_range(ns, c as int), TOKEN_KEYWORD, 0))
            } else {
                Seq::empty()
            },
            Option::None => Seq::empty(),
        }) + (match opt_name_child(n, 1) {
            Option::Some(c) => if 0 <= c < ns.len() {
                opt_seq(
                    spec_tok_from_range(
                        t,
                        sv,
                        spec_node_range(ns, c as int),
                        TOKEN_VARIABLE,
                        MODIFIER_DEFINITION,
                    ),
                )
            } else {
                Seq::empty()
            },
            Option::None => Seq::empty(),
        })
    } else if n.kind == NodeKind::StackManipulation {
        match opt_name_child(n, 0) {
            Option::Some(c) => if 0 <= c < ns.len() {
                opt_seq(spec_tok_from_range(t, sv, spec_node_range(ns, c as int), TOKEN_KEYWORD, 0))
            } else {
                Seq::empty()
            },
            Option::None => Seq::empty(),
        }
    } else if n.kind == NodeKind::Identifier {
        if i > 0 && spec_is_binding_parent(ns[n.parent as int].kind) {
            Seq::empty()
        } else {
            opt_seq(spec_tok_from_range(t, sv, spec_node_range(ns, i), TOKEN_VARIABLE, 0))
        }
    } else if n.kind == NodeKind::NumberLit {
        opt_seq(spec_tok_from_range(t, sv, spec_node_range(ns, i), TOKEN_NUMBER, 0))
    } else if n.kind == NodeKind::StringLit {
        opt_seq(spec_tok_from_range(t, sv, spec_node_range(ns, i), TOKEN_STRING, 0))
    } else if n.kind == NodeKind::Comment {
        opt_seq(spec_tok_from_range(t, sv, spec_node_range(ns, i), TOKEN_COMMENT, 0))
    } else {
        Seq::empty()
    }
}

/// The tokens the first `n` nodes contribute, in traversal order.
pub open spec fn spec_tokens(ns: Seq<Node>, t: Seq<u8>, sv: Seq<usize>, n: int) -> Seq<Tok>
    decreases n,
{
    if n <= 0 {
        Seq::empty()
    } else {
        spec_tokens(ns, t, sv, n - 1) + spec_node_tokens(ns, t, sv, n - 1)
    }
}

/// The tokens of one node, as executable code.
#[verifier::rlimit(100)]
fn node_tokens(doc: &Doc, i: usize) -> (r: Vec<Tok>)
    requires
        doc.wf(),
        i < doc.tree.nodes@.len(),
    ensures
        r@ == spec_node_tokens(doc.tree.nodes@, doc.text@, doc.line_index.line_starts@, i as int),
{
    let ns = &doc.tree.nodes;
    let n = &ns[i];
    let ghost goal = spec_node_tokens(
        doc.tree.nodes@,
        doc.text@,
        doc.line_index.line_starts@,
        i as int,
    );
    let mut out: Vec<Tok> = Vec::new();
    if n.is_named && matches!(n.kind, NodeKind::Lily | NodeKind::Hop | NodeKind::Leap) {
        let lead = leading_word_range(&doc.text, n);
        match tok_from_range(doc, &lead, TOKEN_KEYWORD, 0) {
            Some(t) => out.push(t),
            None => {},
        }
        proof {
            assert(out@ =~= goal);
        }
    } else if n.is_named && matches!(n.kind, NodeKind::Plop | NodeKind::Splash | NodeKind::Gulp
        | NodeKind::Burp | NodeKind::Dup | NodeKind::Swap | NodeKind::Over) {
        let lead = leading_word_range(&doc.text, n);
        match tok_from_range(doc, &lead, TOKEN_KEYWORD, 0) {
            Some(t) => out.push(t),
            None => {},
        }
        proof {
            assert(out@ =~= goal);
        }
    } else if n.is_named && matches!(n.kind, NodeKind::AddOp | NodeKind::SubOp | NodeKind::MulOp
        | NodeKind::DivOp | NodeKind::EqualsOp | NodeKind::NotEqualOp | NodeKind::LessThanOp
        | NodeKind::GreaterThanOp | NodeKind::LessEqOp | NodeKind::GreaterEqOp) {
        let lead = leading_word_range(&doc.text, n);
        match tok_from_range(doc, &lead, TOKEN_OPERATOR, 0) {
            Some(t) => out.push(t),
            None => {},
        }
        proof {
            assert(out@ =~= goal);
        }
    } else if n.is_named && matches!(n.kind, NodeKind::Ribbit | NodeKind::Croak) {
        let lead = leading_word_range(&doc.text, n);
        match tok_from_range(doc, &lead, TOKEN_PARAMETER, 0) {
            Some(t) => out.push(t),
            None => {},
        }
        proof {
            assert(out@ =~= goal);
        }
    } else if matches!(n.kind, NodeKind::LabelDefinition) {
        let kw_id: Option<usize> = match n.name_child {
            Some(c) => Some(c),
            None => if n.children.len() >= 1 {
                Some(n.children[0])
            } else {
                None
            },
        };
        match kw_id {
            Some(c) => {
                let br = ByteRange { start: ns[c].start, end: ns[c].end };
                match tok_from_range(doc, &br, TOKEN_KEYWORD, 0) {
                    Some(t) => out.push(t),
                    None => {},
                }
            },
            None => {},
        }
        let name_id: Option<usize> = match n.name_child {
            Some(c) => Some(c),
            None => if n.children.len() >= 2 {
                Some(n.children[1])
            } else {
                None
            },
        };
        match name_id {
            Some(c) => {
                let br = ByteRange { start: ns[c].start, end: ns[c].end };
                match tok_from_range(doc, &br, TOKEN_VARIABLE, MODIFIER_DEFINITION) {
                    Some(t) => out.push(t),
                    None => {},
                }
            },
            None => {},
        }
        proof {
            assert(out@ =~= goal);
        }
    } else if matches!(n.kind, NodeKind::StackManipulation) {
        let kw_id: Option<usize> = match n.name_child {
            Some(c) => Some(c),
            None => if n.children.len() >= 1 {
                Some(n.children[0])
            } else {
                None
            },
        };
        match kw_id {
            Some(c) => {
                let br = ByteRange { start: ns[c].start, end: ns[c].end };
                match tok_from_range(doc, &br, TOKEN_KEYWORD, 0) {
                    Some(t) => out.push(t),
                    None => {},
                }
            },
            None => {},
        }
        proof {
            assert(out@ =~= goal);
        }
    } else if matches!(n.kind, NodeKind::Identifier) {
        let skip = if i > 0 {
            let parent = &ns[n.parent];
            matches!(parent.kind, NodeKind::LabelDefinition | NodeKind::Hop | NodeKind::Leap)
        } else {
            false
        };
        if !skip {
            let br = ByteRange { start: n.start, end: n.end };
            match tok_from_range(doc, &br, TOKEN_VARIABLE, 0) {
                Some(t) => out.push(t),
                None => {},
            }
        }
        proof {
            assert(out@ =~= goal);
        }
    } else if matches!(n.kind, NodeKind::NumberLit) {
        let br = ByteRange { start: n.start, end: n.end };
        match tok_from_range(doc, &br, TOKEN_NUMBER, 0) {
            Some(t) => out.push(t),
            None => {},
        }
        proof {
            assert(out@ =~= goal);
        }
    } else if matches!(n.kind, NodeKind::StringLit) {
        let br = ByteRange { start: n.start, end: n.end };
        match tok_from_range(doc, &br, TOKEN_STRING, 0) {
            Some(t) => out.push(t),
            None => {},
        }
        proof {
            assert(out@ =~= goal);
        }
    } else if matches!(n.kind, NodeKind::Comment) {
        let br = ByteRange { start: n.start, end: n.end };
        match tok_from_range(doc, &br, TOKEN_COMMENT, 0) {
            Some(t) => out.push(t),
            None => {},
        }
        proof {
            assert(out@ =~= goal);
        }
    } else {
        proof {
            assert(out@ =~= goal);
        }
    }
    out
}

/// Classifies every node of the document into highlighting tokens, in
/// traversal order.
pub fn build_semantic_tokens(doc: &Doc) -> (r: Vec<Tok>)
    requires
        doc.wf(),
    ensures
        r@ == spec_tokens(
            doc.tree.nodes@,
            doc.text@,
            doc.line_index.line_starts@,
            doc.tree.nodes@.len() as int,
        ),
{
    let n = doc.tree.nodes.len();
    let mut out: Vec<Tok> = Vec::new();
    let mut i: usize = 0;
    while i < n
        invariant
            doc.wf(),
            n == doc.tree.nodes@.len(),
            0 <= i <= n,
            out@ == spec_tokens(doc.tree.nodes@, doc.text@, doc.line_index.line_starts@, i as int),
        decreases n - i,
    {
        let mut piece = node_tokens(doc, i);
        let ghost prev = out@;
        let ghost pv = piece@;
        out.append(&mut piece);
        proof {
            assert(out@ == prev + pv);
        }
        i = i + 1;
    }
    out
}

} // verus!
