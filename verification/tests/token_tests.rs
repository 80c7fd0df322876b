use lsp_froggy::document::Doc;
use lsp_froggy::encode::{encode_semantic_tokens, EncodedToken};
use lsp_froggy::tokens::{
    build_semantic_tokens, legend, Tok, MODIFIER_DEFINITION, TOKEN_KEYWORD, TOKEN_NUMBER,
    TOKEN_OPERATOR, TOKEN_PARAMETER, TOKEN_VARIABLE,
};
use lsp_froggy::tree::{Node, NodeKind, SyntaxTree};

fn tn(
    kind: NodeKind,
    start: usize,
    end: usize,
    parent: usize,
    children: Vec<usize>,
    name_child: Option<usize>,
    is_named: bool,
) -> Node {
    Node {
        kind,
        start,
        end,
        parent,
        children,
        name_child,
        is_named,
        is_error: false,
        is_missing: false,
    }
}

fn enc(delta_line: u32, delta_start: u32, length: u32, token_type: u32, mods: u32) -> EncodedToken {
    EncodedToken {
        delta_line,
        delta_start,
        length,
        token_type,
        token_modifiers_bitset: mods,
    }
}

/// `PLOP 5`: a push instruction and its numeric literal.
fn plop_doc() -> Doc {
    let text = b"PLOP 5".to_vec();
    let tree = SyntaxTree {
        nodes: vec![
            tn(NodeKind::Other, 0, 6, 0, vec![1], None, true),
            tn(NodeKind::Plop, 0, 6, 0, vec![2, 3], None, true),
            tn(NodeKind::Plop, 0, 4, 1, vec![], None, false),
            tn(NodeKind::NumberLit, 5, 6, 1, vec![], None, true),
        ],
    };
    assert!(tree.check_wf());
    Doc::new(text, 1, tree)
}

#[test]
fn push_and_literal_yield_keyword_then_number() {
    let doc = plop_doc();
    let toks = build_semantic_tokens(&doc);
    assert_eq!(toks.len(), 2);
    assert_eq!(
        toks[0],
        Tok { line: 0, col: 0, len: 4, ty: TOKEN_KEYWORD, mods: 0 }
    );
    assert_eq!(
        toks[1],
        Tok { line: 0, col: 5, len: 1, ty: TOKEN_NUMBER, mods: 0 }
    );
    let encoded = encode_semantic_tokens(toks);
    assert_eq!(
        encoded,
        vec![
            enc(0, 0, 4, TOKEN_KEYWORD, 0),
            enc(0, 5, 1, TOKEN_NUMBER, 0),
        ]
    );
}

#[test]
fn label_definition_tags_its_name() {
    let text = b"LILY loop".to_vec();
    let tree = SyntaxTree {
        nodes: vec![
            tn(NodeKind::Other, 0, 9, 0, vec![1], None, true),
            tn(NodeKind::LabelDefinition, 0, 9, 0, vec![2, 3], Some(3), true),
            tn(NodeKind::Lily, 0, 4, 1, vec![], None, false),
            tn(NodeKind::Identifier, 5, 9, 1, vec![], None, true),
        ],
    };
    assert!(tree.check_wf());
    let doc = Doc::new(text, 1, tree);
    let toks = build_semantic_tokens(&doc);
    // The designated name child anchors both the keyword-part token and
    // the definition-modified variable token; the identifier's generic
    // rule is excluded at a definition site.
    assert_eq!(toks.len(), 2);
    assert_eq!(
        toks[0],
        Tok { line: 0, col: 5, len: 4, ty: TOKEN_KEYWORD, mods: 0 }
    );
    assert_eq!(
        toks[1],
        Tok { line: 0, col: 5, len: 4, ty: TOKEN_VARIABLE, mods: MODIFIER_DEFINITION }
    );
}

#[test]
fn jump_keyword_token_spans_leading_word_only() {
    let text = b"HOP loop".to_vec();
    let tree = SyntaxTree {
        nodes: vec![
            tn(NodeKind::Other, 0, 8, 0, vec![1], None, true),
            tn(NodeKind::Hop, 0, 8, 0, vec![2, 3], Some(3), true),
            tn(NodeKind::Hop, 0, 3, 1, vec![], None, false),
            tn(NodeKind::Identifier, 4, 8, 1, vec![], None, true),
        ],
    };
    assert!(tree.check_wf());
    let doc = Doc::new(text, 1, tree);
    let toks = build_semantic_tokens(&doc);
    // One keyword token over `HOP` alone; the jump-target identifier is
    // excluded from the generic variable rule.
    assert_eq!(toks.len(), 1);
    assert_eq!(
        toks[0],
        Tok { line: 0, col: 0, len: 3, ty: TOKEN_KEYWORD, mods: 0 }
    );
}

#[test]
fn operator_and_io_classification() {
    let text = b"ADD\nRIBBIT\nDUP".to_vec();
    let tree = SyntaxTree {
        nodes: vec![
            tn(NodeKind::Other, 0, 14, 0, vec![1, 2, 3], None, true),
            tn(NodeKind::AddOp, 0, 3, 0, vec![], None, true),
            tn(NodeKind::Ribbit, 4, 10, 0, vec![], None, true),
            tn(NodeKind::Dup, 11, 14, 0, vec![], None, true),
        ],
    };
    assert!(tree.check_wf());
    let doc = Doc::new(text, 1, tree);
    let toks = build_semantic_tokens(&doc);
    assert_eq!(toks.len(), 3);
    assert_eq!(toks[0].ty, TOKEN_OPERATOR);
    assert_eq!(toks[1].ty, TOKEN_PARAMETER);
    assert_eq!(toks[2].ty, TOKEN_KEYWORD);
}

#[test]
fn anonymous_keyword_node_is_not_tokenized_twice() {
    let doc = plop_doc();
    let toks = build_semantic_tokens(&doc);
    // The anonymous `PLOP` child shares its kind with the named rule but
    // is not named, so only the named rule contributes a token.
    assert_eq!(
        toks.iter().filter(|t| t.ty == TOKEN_KEYWORD).count(),
        1
    );
}

#[test]
fn multi_line_span_is_dropped() {
    let text = b"RIBBIT\nRIBBIT".to_vec();
    let tree = SyntaxTree {
        nodes: vec![
            tn(NodeKind::Other, 0, 13, 0, vec![1], None, true),
            // A comment spanning the line break: no token may cross a
            // line, so it is dropped entirely.
            tn(NodeKind::Comment, 0, 13, 0, vec![], None, true),
        ],
    };
    assert!(tree.check_wf());
    let doc = Doc::new(text, 1, tree);
    let toks = build_semantic_tokens(&doc);
    assert!(toks.is_empty());
}

#[test]
fn encoder_sorts_by_line_then_column() {
    let toks = vec![
        Tok { line: 1, col: 4, len: 2, ty: 1, mods: 0 },
        Tok { line: 0, col: 7, len: 3, ty: 0, mods: 0 },
        Tok { line: 0, col: 2, len: 1, ty: 2, mods: 0 },
    ];
    let encoded = encode_semantic_tokens(toks);
    assert_eq!(
        encoded,
        vec![enc(0, 2, 1, 2, 0), enc(0, 5, 3, 0, 0), enc(1, 4, 2, 1, 0)]
    );
}

#[test]
fn encoder_keeps_tie_order_stable() {
    let toks = vec![
        Tok { line: 0, col: 5, len: 4, ty: TOKEN_KEYWORD, mods: 0 },
        Tok { line: 0, col: 5, len: 4, ty: TOKEN_VARIABLE, mods: MODIFIER_DEFINITION },
    ];
    let encoded = encode_semantic_tokens(toks);
    assert_eq!(encoded[0].token_type, TOKEN_KEYWORD);
    assert_eq!(encoded[1].token_type, TOKEN_VARIABLE);
    assert_eq!(encoded[1].delta_line, 0);
    assert_eq!(encoded[1].delta_start, 0);
}

#[test]
fn encoder_on_empty_input() {
    assert!(encode_semantic_tokens(vec![]).is_empty());
}

#[test]
fn legend_lists_types_and_modifier() {
    let l = legend();
    assert_eq!(
        l.token_types,
        vec!["keyword", "number", "comment", "string", "variable", "operator", "parameter"]
    );
    assert_eq!(l.token_modifiers, vec!["definition"]);
}

#[test]
fn locator_falls_back_to_root() {
    let doc = plop_doc();
    // Past the end of the file nothing contains the offset.
    assert_eq!(doc.tree.find_node_at(6), 0);
    assert_eq!(doc.tree.find_node_at(100), 0);
    // Inside the literal, the innermost node is found.
    assert_eq!(doc.tree.find_node_at(5), 3);
}

#[test]
fn dfs_visit_lists_nodes_in_document_order() {
    let doc = plop_doc();
    assert_eq!(doc.tree.dfs_visit(), vec![0, 1, 2, 3]);
}
