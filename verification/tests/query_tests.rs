use lsp_froggy::diagnostics::{collect_diagnostics, diagnostic_source, Severity};
use lsp_froggy::document::Doc;
use lsp_froggy::index::{find_label_definition, find_label_references, Index};
use lsp_froggy::resolver::{document_symbol, goto_definition, hover, references};
use lsp_froggy::tree::{Node, NodeKind, SyntaxTree};
use lsp_froggy::{ByteRange, Position, Range};

fn n(
    kind: NodeKind,
    start: usize,
    end: usize,
    parent: usize,
    children: Vec<usize>,
    name_child: Option<usize>,
    is_named: bool,
) -> Node {
    Node {
        kind,
        start,
        end,
        parent,
        children,
        name_child,
        is_named,
        is_error: false,
        is_missing: false,
    }
}

fn pos(line: u32, character: u32) -> Position {
    Position { line, character }
}

fn range(l1: u32, c1: u32, l2: u32, c2: u32) -> Range {
    Range { start: pos(l1, c1), end: pos(l2, c2) }
}

/// `LILY loop\nHOP loop`: a definition and one jump to it.
fn def_and_hop() -> Doc {
    let text = b"LILY loop\nHOP loop".to_vec();
    let tree = SyntaxTree {
        nodes: vec![
            n(NodeKind::Other, 0, 18, 0, vec![1, 4], None, true),
            n(NodeKind::LabelDefinition, 0, 9, 0, vec![2, 3], Some(3), true),
            n(NodeKind::Lily, 0, 4, 1, vec![], None, false),
            n(NodeKind::Identifier, 5, 9, 1, vec![], None, true),
            n(NodeKind::Hop, 10, 18, 0, vec![5, 6], Some(6), true),
            n(NodeKind::Hop, 10, 13, 4, vec![], None, false),
            n(NodeKind::Identifier, 14, 18, 4, vec![], None, true),
        ],
    };
    assert!(tree.check_wf());
    Doc::new(text, 1, tree)
}

/// `LILY loop\nHOP loop\nLEAP loop`: one definition, two jumps.
fn def_and_two_jumps() -> Doc {
    let text = b"LILY loop\nHOP loop\nLEAP loop".to_vec();
    let tree = SyntaxTree {
        nodes: vec![
            n(NodeKind::Other, 0, 28, 0, vec![1, 4, 7], None, true),
            n(NodeKind::LabelDefinition, 0, 9, 0, vec![2, 3], Some(3), true),
            n(NodeKind::Lily, 0, 4, 1, vec![], None, false),
            n(NodeKind::Identifier, 5, 9, 1, vec![], None, true),
            n(NodeKind::Hop, 10, 18, 0, vec![5, 6], Some(6), true),
            n(NodeKind::Hop, 10, 13, 4, vec![], None, false),
            n(NodeKind::Identifier, 14, 18, 4, vec![], None, true),
            n(NodeKind::Leap, 19, 28, 0, vec![8, 9], Some(9), true),
            n(NodeKind::Leap, 19, 23, 7, vec![], None, false),
            n(NodeKind::Identifier, 24, 28, 7, vec![], None, true),
        ],
    };
    assert!(tree.check_wf());
    Doc::new(text, 1, tree)
}

/// `HOP missing`: a jump to a label that is never defined.
fn hop_without_def() -> Doc {
    let text = b"HOP missing".to_vec();
    let tree = SyntaxTree {
        nodes: vec![
            n(NodeKind::Other, 0, 11, 0, vec![1], None, true),
            n(NodeKind::Hop, 0, 11, 0, vec![2, 3], Some(3), true),
            n(NodeKind::Hop, 0, 3, 1, vec![], None, false),
            n(NodeKind::Identifier, 4, 11, 1, vec![], None, true),
        ],
    };
    assert!(tree.check_wf());
    Doc::new(text, 1, tree)
}

#[test]
fn goto_definition_finds_label() {
    let doc = def_and_hop();
    // At `loop` inside the HOP statement.
    let r = goto_definition(&doc, pos(1, 5));
    assert_eq!(r, Some(range(0, 0, 0, 9)));
}

#[test]
fn goto_definition_missing_label_returns_nothing() {
    let doc = hop_without_def();
    assert_eq!(goto_definition(&doc, pos(0, 5)), None);
}

#[test]
fn goto_definition_ignores_definition_site() {
    let doc = def_and_hop();
    // At `loop` inside the LILY statement: the parent is a definition,
    // not a jump, so the query does not fire.
    assert_eq!(goto_definition(&doc, pos(0, 6)), None);
}

#[test]
fn references_with_declaration_ordered() {
    let doc = def_and_two_jumps();
    let r = references(&doc, pos(1, 5), true).unwrap();
    assert_eq!(
        r,
        vec![range(0, 0, 0, 9), range(1, 4, 1, 8), range(2, 5, 2, 9)]
    );
}

#[test]
fn references_without_declaration() {
    let doc = def_and_two_jumps();
    let r = references(&doc, pos(1, 5), false).unwrap();
    assert_eq!(r, vec![range(1, 4, 1, 8), range(2, 5, 2, 9)]);
}

#[test]
fn references_on_non_identifier_returns_nothing() {
    let doc = def_and_two_jumps();
    // At the HOP keyword itself.
    assert_eq!(references(&doc, pos(1, 0), true), None);
}

#[test]
fn index_lookup_last_definition_wins() {
    // Two definitions of `loop`; the later one shadows the earlier.
    let text = b"LILY loop\nLILY loop".to_vec();
    let tree = SyntaxTree {
        nodes: vec![
            n(NodeKind::Other, 0, 19, 0, vec![1, 4], None, true),
            n(NodeKind::LabelDefinition, 0, 9, 0, vec![2, 3], Some(3), true),
            n(NodeKind::Lily, 0, 4, 1, vec![], None, false),
            n(NodeKind::Identifier, 5, 9, 1, vec![], None, true),
            n(NodeKind::LabelDefinition, 10, 19, 0, vec![5, 6], Some(6), true),
            n(NodeKind::Lily, 10, 14, 4, vec![], None, false),
            n(NodeKind::Identifier, 15, 19, 4, vec![], None, true),
        ],
    };
    assert!(tree.check_wf());
    let doc = Doc::new(text, 1, tree);
    assert_eq!(
        find_label_definition(&doc.index, b"loop"),
        Some(ByteRange { start: 10, end: 19 })
    );
    // And exactly one symbol survives, at the surviving definition.
    let syms = document_symbol(&doc);
    assert_eq!(syms.len(), 1);
    assert_eq!(syms[0].name, b"loop".to_vec());
    assert_eq!(syms[0].range, range(1, 0, 1, 9));
    assert_eq!(syms[0].selection_range, syms[0].range);
}

#[test]
fn index_references_absent_name() {
    let doc = def_and_two_jumps();
    assert_eq!(find_label_references(&doc.index, b"nowhere"), None);
    let refs = find_label_references(&doc.index, b"loop").unwrap();
    assert_eq!(
        refs,
        vec![ByteRange { start: 14, end: 18 }, ByteRange { start: 24, end: 28 }]
    );
}

#[test]
fn index_rebuild_is_idempotent() {
    let d1 = def_and_two_jumps();
    let mut d2 = def_and_two_jumps();
    assert_eq!(d1.index.label_defs, d2.index.label_defs);
    assert_eq!(d1.index.label_refs, d2.index.label_refs);
    // Updating with identical text and tree leaves the index contents
    // unchanged as well.
    let d3 = def_and_two_jumps();
    d2.update(d3.text.clone(), 2, SyntaxTree { nodes: d3.tree.nodes });
    assert_eq!(d1.index.label_defs, d2.index.label_defs);
    assert_eq!(d1.index.label_refs, d2.index.label_refs);
}

#[test]
fn document_symbols_in_document_order() {
    let text = b"LILY a\nLILY b".to_vec();
    let tree = SyntaxTree {
        nodes: vec![
            n(NodeKind::Other, 0, 13, 0, vec![1, 4], None, true),
            n(NodeKind::LabelDefinition, 0, 6, 0, vec![2, 3], Some(3), true),
            n(NodeKind::Lily, 0, 4, 1, vec![], None, false),
            n(NodeKind::Identifier, 5, 6, 1, vec![], None, true),
            n(NodeKind::LabelDefinition, 7, 13, 0, vec![5, 6], Some(6), true),
            n(NodeKind::Lily, 7, 11, 4, vec![], None, false),
            n(NodeKind::Identifier, 12, 13, 4, vec![], None, true),
        ],
    };
    assert!(tree.check_wf());
    let doc = Doc::new(text, 1, tree);
    let syms = document_symbol(&doc);
    assert_eq!(syms.len(), 2);
    assert_eq!(syms[0].name, b"a".to_vec());
    assert_eq!(syms[1].name, b"b".to_vec());
}

#[test]
fn hover_on_keyword_describes_instruction() {
    let doc = def_and_hop();
    // Over the HOP keyword: the innermost node is the anonymous keyword
    // token, whose kind is in the dispatch table.
    let h = hover(&doc, pos(1, 1)).unwrap();
    assert_eq!(
        h.message,
        b"HOP <Lilypad>: Unconditional jump to a lilypad".to_vec()
    );
    assert_eq!(h.range, range(1, 0, 1, 3));
}

#[test]
fn hover_on_definition_name() {
    let doc = def_and_hop();
    // Over `loop` in the LILY statement: the identifier is the
    // definition's name child, so the walk surfaces the definition.
    let h = hover(&doc, pos(0, 6)).unwrap();
    assert_eq!(h.message, b"Label definition: loop".to_vec());
    assert_eq!(h.range, range(0, 5, 0, 9));
}

#[test]
fn hover_on_plain_identifier_naming_a_label() {
    // A bare identifier `loop` outside any definition or jump, with a
    // definition present.
    let text = b"LILY loop\nloop".to_vec();
    let tree = SyntaxTree {
        nodes: vec![
            n(NodeKind::Other, 0, 14, 0, vec![1, 4], None, true),
            n(NodeKind::LabelDefinition, 0, 9, 0, vec![2, 3], Some(3), true),
            n(NodeKind::Lily, 0, 4, 1, vec![], None, false),
            n(NodeKind::Identifier, 5, 9, 1, vec![], None, true),
            n(NodeKind::Identifier, 10, 14, 0, vec![], None, true),
        ],
    };
    assert!(tree.check_wf());
    let doc = Doc::new(text, 1, tree);
    let h = hover(&doc, pos(1, 2)).unwrap();
    assert_eq!(h.message, b"Label: loop".to_vec());
    assert_eq!(h.range, range(1, 0, 1, 4));
}

#[test]
fn hover_with_no_match_returns_nothing() {
    let doc = hop_without_def();
    // Over the undefined jump target: its parent is a jump, so the
    // identifier rule skips it, and the walk reaches the root.
    // The HOP ancestor matches the keyword rule instead.
    let h = hover(&doc, pos(0, 5)).unwrap();
    assert_eq!(
        h.message,
        b"HOP <Lilypad>: Unconditional jump to a lilypad".to_vec()
    );
    // A bare undefined identifier resolves to nothing at all.
    let text = b"zzz".to_vec();
    let tree = SyntaxTree {
        nodes: vec![
            n(NodeKind::Other, 0, 3, 0, vec![1], None, true),
            n(NodeKind::Identifier, 0, 3, 0, vec![], None, true),
        ],
    };
    assert!(tree.check_wf());
    let doc2 = Doc::new(text, 1, tree);
    assert!(hover(&doc2, pos(0, 1)).is_none());
}

#[test]
fn diagnostics_one_entry_per_error_node() {
    let text = b"PLOP".to_vec();
    let tree = SyntaxTree {
        nodes: vec![
            n(NodeKind::Other, 0, 4, 0, vec![1], None, true),
            Node {
                kind: NodeKind::ErrorKind,
                start: 0,
                end: 4,
                parent: 0,
                children: vec![],
                name_child: None,
                is_named: true,
                is_error: true,
                is_missing: false,
            },
        ],
    };
    assert!(tree.check_wf());
    let doc = Doc::new(text, 1, tree);
    let diags = collect_diagnostics(&doc);
    assert_eq!(diags.len(), 1);
    assert!(matches!(diags[0].severity, Severity::Error));
    assert_eq!(diags[0].range, range(0, 0, 0, 4));
    assert_eq!(diags[0].message, b"Syntax error near `PLOP`".to_vec());
}

#[test]
fn diagnostics_nested_errors_each_reported() {
    let text = b"HOP ?".to_vec();
    let tree = SyntaxTree {
        nodes: vec![
            n(NodeKind::Other, 0, 5, 0, vec![1], None, true),
            Node {
                kind: NodeKind::ErrorKind,
                start: 0,
                end: 5,
                parent: 0,
                children: vec![2],
                name_child: None,
                is_named: true,
                is_error: true,
                is_missing: false,
            },
            Node {
                kind: NodeKind::Identifier,
                start: 4,
                end: 5,
                parent: 1,
                children: vec![],
                name_child: None,
                is_named: true,
                is_error: false,
                is_missing: true,
            },
        ],
    };
    assert!(tree.check_wf());
    let doc = Doc::new(text, 1, tree);
    let diags = collect_diagnostics(&doc);
    assert_eq!(diags.len(), 2);
    assert_eq!(diags[0].message, b"Syntax error near `HOP ?`".to_vec());
    assert_eq!(diags[1].message, b"Syntax error near `?`".to_vec());
}

#[test]
fn diagnostics_clean_tree_is_empty() {
    let doc = def_and_hop();
    assert!(collect_diagnostics(&doc).is_empty());
}

#[test]
fn diagnostic_source_name() {
    assert_eq!(diagnostic_source(), "froggy");
}

#[test]
fn update_replaces_whole_snapshot() {
    let mut doc = hop_without_def();
    assert!(document_symbol(&doc).is_empty());
    let fresh = def_and_hop();
    doc.update(fresh.text.clone(), 2, SyntaxTree { nodes: fresh.tree.nodes });
    assert_eq!(doc.version, 2);
    let syms = document_symbol(&doc);
    assert_eq!(syms.len(), 1);
    assert_eq!(syms[0].name, b"loop".to_vec());
    assert_eq!(goto_definition(&doc, pos(1, 5)), Some(range(0, 0, 0, 9)));
}

#[test]
fn empty_index_for_plain_text() {
    let text = b"RIBBIT".to_vec();
    let tree = SyntaxTree {
        nodes: vec![
            n(NodeKind::Other, 0, 6, 0, vec![1], None, true),
            n(NodeKind::Ribbit, 0, 6, 0, vec![], None, true),
        ],
    };
    assert!(tree.check_wf());
    let idx = Index::build(&tree, &b"RIBBIT".to_vec());
    assert!(idx.label_defs.is_empty());
    assert!(idx.label_refs.is_empty());
}

#[test]
fn malformed_tree_is_rejected_by_check() {
    // A child whose parent link does not point back.
    let tree = SyntaxTree {
        nodes: vec![
            n(NodeKind::Other, 0, 5, 0, vec![1], None, true),
            n(NodeKind::Identifier, 0, 5, 1, vec![], None, true),
        ],
    };
    assert!(!tree.check_wf());
    // A backwards byte range.
    let tree2 = SyntaxTree {
        nodes: vec![n(NodeKind::Other, 5, 2, 0, vec![], None, true)],
    };
    assert!(!tree2.check_wf());
    // An empty arena has no root.
    let tree3 = SyntaxTree { nodes: vec![] };
    assert!(!tree3.check_wf());
}

#[test]
fn empty_document_answers_every_query() {
    let text: Vec<u8> = Vec::new();
    let tree = SyntaxTree {
        nodes: vec![n(NodeKind::Other, 0, 0, 0, vec![], None, true)],
    };
    assert!(tree.check_wf());
    let doc = Doc::new(text, 1, tree);
    assert!(hover(&doc, pos(0, 0)).is_none());
    assert_eq!(goto_definition(&doc, pos(0, 0)), None);
    assert_eq!(references(&doc, pos(0, 0), true), None);
    assert!(document_symbol(&doc).is_empty());
    assert!(collect_diagnostics(&doc).is_empty());
}
