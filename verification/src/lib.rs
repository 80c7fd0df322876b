//! Query core of a language server for a small stack-based language.
//!
//! The library keeps, per open document, a text snapshot together with the
//! derived state that position-based editor queries need: a parse tree
//! (handed in by the surrounding program as plain data), a label index, and
//! a position mapper translating between byte offsets and UTF-16
//! line/column coordinates. Every query — hover, go-to-definition,
//! find-references, document symbols, diagnostics, semantic tokens — reads
//! one such snapshot.

use vstd::prelude::*;

pub mod diagnostics;
pub mod document;
pub mod encode;
pub mod index;
pub mod position;
pub mod resolver;
pub mod tokens;
pub mod tree;

verus! {

/// Why a coordinate translation failed.
#[derive(Clone, Copy, Debug, PartialEq, Eq, Structural)]
pub enum MapError {
    /// The byte offset lies outside `[0, len]` of the text.
    PositionOutOfRange,
    /// The requested line index is beyond the last line.
    LineNotFound,
}

/// Half-open byte interval `[start, end)` into a document's text.
#[derive(Clone, Copy, Debug, PartialEq, Eq, Structural)]
pub struct ByteRange {
    pub start: usize,
    pub end: usize,
}

impl ByteRange {
    /// A range is well formed when it does not run backwards.
    pub open spec fn wf(self) -> bool {
        self.start <= self.end
    }
}

/// A position in a document: 0-based line, 0-based column counted in
/// UTF-16 code units, as the editor protocol addresses text.
#[derive(Clone, Copy, Debug, PartialEq, Eq, Structural)]
pub struct Position {
    pub line: u32,
    pub character: u32,
}

/// A pair of positions delimiting a span of text.
#[derive(Clone, Copy, Debug, PartialEq, Eq, Structural)]
pub struct Range {
    pub start: Position,
    pub end: Position,
}

} // verus!
