//! One open document: the text snapshot and every piece of derived state
//! the queries read — parse tree, label index, position mapper. All of
//! them are rebuilt and replaced together, so a reader never sees an
//! index or mapper built from another text.

use vstd::prelude::*;

use crate::{ByteRange, Position, Range};
use crate::index::Index;
use crate::position::{
    MAX_TEXT_LEN, PositionMapper, spec_offset_to_position, spec_position_to_offset,
};
use crate::tree::SyntaxTree;

verus! {

/// A document snapshot and its derived state.
#[derive(Debug)]
pub struct Doc {
    /// The UTF-8 text, as bytes, byte-addressed like the parse tree.
    pub text: Vec<u8>,
    /// The editor's version number of this snapshot.
    pub version: i32,
    /// The parse tree of exactly this text.
    pub tree: SyntaxTree,
    /// The label index built from exactly this tree and text.
    pub index: Index,
    /// The line-start table of exactly this text.
    pub line_index: PositionMapper,
}

impl Doc {
    /// The snapshot invariant: tree, index and mapper all correspond to
    /// the current text.
    pub open spec fn wf(self) -> bool {
        &&& self.text@.len() <= MAX_TEXT_LEN
        &&& self.tree.wf()
        &&& self.line_index.wf(self.text@)
        &&& self.index.matches(self.tree.nodes@, self.text@)
    }

    /// Builds the snapshot for a freshly opened document: index and
    /// mapper are derived from the given text and tree.
    pub fn new(text: Vec<u8>, version: i32, tree: SyntaxTree) -> (d: Doc)
        requires
            tree.wf(),
            text@.len() <= MAX_TEXT_LEN,
        ensures
            d.wf(),
            d.text@ == text@,
            d.version == version,
            d.tree == tree,
    {
        let line_index = PositionMapper::new(&text);
        let index = Index::build(&tree, &text);
        Doc { text, version, tree, index, line_index }
    }

    /// Replaces the whole snapshot: new text, new tree, and freshly
    /// rebuilt index and mapper, as one unit.
    pub fn update(&mut self, text: Vec<u8>, version: i32, tree: SyntaxTree)
        requires
            tree.wf(),
            text@.len() <= MAX_TEXT_LEN,
        ensures
            final (self).wf(),
            final (self).text@ == text@,
            final (self).version == version,
            final (self).tree == tree,
    {
        let line_index = PositionMapper::new(&text);
        let index = Index::build(&tree, &text);
        self.text = text;
        self.version = version;
        self.tree = tree;
        self.index = index;
        self.line_index = line_index;
    }

    /// Translates a protocol position (UTF-16 line/column) to a byte
    /// offset; nothing when the line does not exist. A column beyond the
    /// line's width is clamped to the line's end.
    pub fn lsp_position_to_offset(&self, position: Position) -> (r: Option<usize>)
        requires
            self.wf(),
        ensures
            position.line < self.line_index.line_starts@.len() ==> r == Some(
                spec_position_to_offset(
                    self.text@,
                    self.line_index.line_starts@,
                    position.line as int,
                    position.character as int,
                ) as usize,
            ),
            position.line >= self.line_index.line_starts@.len() ==> r is None,
    {
        match self.line_index.position_to_byte(&self.text, position) {
            Ok(o) => Some(o),
            Err(_) => None,
        }
    }

    /// Translates a byte offset to a protocol position; nothing when the
    /// offset lies beyond the end of the text.
    pub fn offset_to_lsp_position(&self, offset: usize) -> (r: Option<Position>)
        requires
            self.wf(),
        ensures
            offset <= self.text@.len() ==> r == Some(
                spec_offset_to_position(self.text@, self.line_index.line_starts@, offset as int),
            ),
            offset > self.text@.len() ==> r is None,
    {
        match self.line_index.byte_to_position(&self.text, offset) {
            Ok(p) => Some(p),
            Err(_) => None,
        }
    }
}

/// The protocol range a byte range maps to; an end that cannot be mapped
/// degrades to the zero position rather than failing the query.
pub open spec fn spec_range_of(t: Seq<u8>, sv: Seq<usize>, br: ByteRange) -> Range {
    Range {
        start: if br.start <= t.len() {
            spec_offset_to_position(t, sv, br.start as int)
        } else {
            Position { line: 0, character: 0 }
        },
        end: if br.end <= t.len() {
            spec_offset_to_position(t, sv, br.end as int)
        } else {
            Position { line: 0, character: 0 }
        },
    }
}

/// Maps a byte range (of a label definition or any other span) to a
/// protocol range.
pub fn labeldef_to_range(def: &ByteRange, doc: &Doc) -> (r: Range)
    requires
        doc.wf(),
    ensures
        r == spec_range_of(doc.text@, doc.line_index.line_starts@, *def),
{
    let start = match doc.offset_to_lsp_position(def.start) {
        Some(p) => p,
        None => Position { line: 0, character: 0 },
    };
    let end = match doc.offset_to_lsp_position(def.end) {
        Some(p) => p,
        None => Position { line: 0, character: 0 },
    };
    Range { start, end }
}

/// The byte offset a query position denotes: the mapped offset, or zero
/// when the position's line does not exist.
pub open spec fn spec_query_offset(doc: Doc, position: Position) -> int {
    if position.line < doc.line_index.line_starts@.len() {
        spec_position_to_offset(
            doc.text@,
            doc.line_index.line_starts@,
            position.line as int,
            position.character as int,
        )
    } else {
        0
    }
}

/// The node a query at `position` starts from: the innermost node
/// covering the position's byte offset, the root as fallback.
pub fn find_node_at_position(doc: &Doc, position: Position) -> (r: usize)
    requires
        doc.wf(),
    ensures
        r as int == doc.tree.spec_node_at(spec_query_offset(*doc, position)),
        r < doc.tree.nodes@.len(),
{
    let offset = match doc.lsp_position_to_offset(position) {
        Some(o) => o,
        None => 0,
    };
    proof {
        let sv = doc.line_index.line_starts@;
        let t = doc.text@;
        if position.line < sv.len() {
            crate::position::lemma_advance_bounds(
                t,
                sv[position.line as int] as int,
                crate::position::spec_line_content_end(sv, t, position.line as int),
                position.character as int,
            );
        }
    }
    doc.tree.find_node_at(offset)
}

/// Rebuilding derived state is deterministic: two snapshots holding the
/// same text and the same tree hold the same label index contents. In
/// particular, updating a document twice with identical text leaves the
/// index unchanged.
pub proof fn lemma_update_idempotent(d1: Doc, d2: Doc)
    requires
        d1.wf(),
        d2.wf(),
        d1.text@ == d2.text@,
        d1.tree.nodes@ == d2.tree.nodes@,
    ensures
        d1.index.defs_view() == d2.index.defs_view(),
        d1.index.refs_view() == d2.index.refs_view(),
{
}

} // verus!
