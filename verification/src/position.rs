//! Position mapper: bidirectional translation between byte offsets into a
//! document's UTF-8 text and line/column coordinates whose columns are
//! counted in UTF-16 code units, as the editor protocol requires.
//!
//! The mapper is a table of line-start byte offsets, built once per text
//! snapshot. Columns are computed by summing, per byte, the number of
//! UTF-16 code units that the byte contributes: a continuation byte
//! contributes none, a leading byte contributes one, and a leading byte of
//! a four-byte sequence contributes two (a surrogate pair).

use vstd::prelude::*;

use crate::{MapError, Position};

verus! {

/// Largest text size the mapper accepts, so that every line and column
/// fits the protocol's 32-bit coordinates.
pub const MAX_TEXT_LEN: usize = 0x7fff_ffff;

/// The line-feed byte, the only line separator the mapper recognizes.
pub open spec fn is_line_break(b: u8) -> bool {
    b == 10
}

/// A UTF-8 continuation byte: the second and later bytes of a multi-byte
/// character.
pub open spec fn is_continuation(b: u8) -> bool {
    0x80 <= b < 0xc0
}

/// `offset` falls on a character boundary of `t` (or at either end).
pub open spec fn is_char_start(t: Seq<u8>, offset: int) -> bool {
    offset == t.len() || !is_continuation(t[offset])
}

/// UTF-16 code units contributed by one byte of UTF-8 text: the whole
/// character is charged to its leading byte.
pub open spec fn utf16_units(b: u8) -> int {
    (if is_continuation(b) {
        0int
    } else {
        1int
    }) + (if b >= 0xf0 {
        1int
    } else {
        0int
    })
}

/// UTF-16 code units contributed by the bytes of `t` in `[from, to)`.
pub open spec fn utf16_between(t: Seq<u8>, from: int, to: int) -> int
    decreases to - from,
{
    if from >= to {
        0
    } else {
        utf16_between(t, from, to - 1) + utf16_units(t[to - 1])
    }
}

pub proof fn lemma_utf16_between_nonneg(t: Seq<u8>, from: int, to: int)
    ensures
        0 <= utf16_between(t, from, to),
    decreases to - from,
{
    if from < to {
        lemma_utf16_between_nonneg(t, from, to - 1);
    }
}

/// Peeling the first byte instead of the last.
pub proof fn lemma_utf16_between_first(t: Seq<u8>, from: int, to: int)
    requires
        from < to,
    ensures
        utf16_between(t, from, to) == utf16_units(t[from]) + utf16_between(t, from + 1, to),
    decreases to - from,
{
    if from + 1 < to {
        lemma_utf16_between_first(t, from, to - 1);
    } else {
        assert(utf16_between(t, from, from) == 0);
        assert(utf16_between(t, from + 1, to) == 0);
    }
}

/// The column sum grows by at most two units per byte.
pub proof fn lemma_utf16_between_upper(t: Seq<u8>, from: int, to: int)
    requires
        from <= to,
    ensures
        utf16_between(t, from, to) <= 2 * (to - from),
    decreases to - from,
{
    if from < to {
        lemma_utf16_between_upper(t, from, to - 1);
    }
}

/// Unit counts over adjacent stretches add up.
pub proof fn lemma_utf16_between_additive(t: Seq<u8>, a: int, b: int, c: int)
    requires
        a <= b <= c,
    ensures
        utf16_between(t, a, c) == utf16_between(t, a, b) + utf16_between(t, b, c),
    decreases c - b,
{
    if b < c {
        lemma_utf16_between_additive(t, a, b, c - 1);
    }
}

/// A table of line starts matches the text when it lists, in increasing
/// order, offset 0 and every offset just after a line break, and nothing
/// else. These conditions pin the table down to exactly one value.
pub open spec fn starts_wf(sv: Seq<usize>, t: Seq<u8>) -> bool {
    &&& sv.len() >= 1
    &&& sv[0] == 0
    &&& forall|i: int| 0 <= i < sv.len() ==> #[trigger] sv[i] <= t.len()
    &&& forall|i: int, j: int| 0 <= i < j < sv.len() ==> #[trigger] sv[i] < #[trigger] sv[j]
    &&& forall|i: int| 1 <= i < sv.len() ==> is_line_break(t[#[trigger] sv[i] - 1])
    &&& forall|o: int|
        0 <= o < t.len() && is_line_break(t[o]) ==> exists|i: int|
            0 <= i < sv.len() && #[trigger] sv[i] == o + 1
}

/// The index of the line containing byte offset `o`: the unique entry of
/// the table at or before `o` whose successor, if any, lies beyond `o`.
pub open spec fn spec_line_of(sv: Seq<usize>, o: int) -> int {
    choose|l: int|
        0 <= l < sv.len() && #[trigger] sv[l] <= o && (l + 1 == sv.len() || o < sv[l + 1])
}

/// Entries grow at least as fast as their index, because the table is
/// strictly increasing from zero.
pub proof fn lemma_starts_entry_lower(sv: Seq<usize>, t: Seq<u8>, i: int)
    requires
        starts_wf(sv, t),
        0 <= i < sv.len(),
    ensures
        sv[i] >= i,
    decreases i,
{
    if i > 0 {
        lemma_starts_entry_lower(sv, t, i - 1);
    }
}

/// There are at most `len + 1` lines in a text of `len` bytes.
pub proof fn lemma_starts_len(sv: Seq<usize>, t: Seq<u8>)
    requires
        starts_wf(sv, t),
    ensures
        sv.len() <= t.len() + 1,
{
    lemma_starts_entry_lower(sv, t, sv.len() - 1);
}

/// Any index satisfying the line condition is the only one.
pub proof fn lemma_line_of_unique(sv: Seq<usize>, t: Seq<u8>, o: int, l: int)
    requires
        starts_wf(sv, t),
        0 <= l < sv.len(),
        sv[l] <= o,
        l + 1 == sv.len() || o < sv[l + 1],
    ensures
        spec_line_of(sv, o) == l,
{
    assert(exists|l2: int|
        0 <= l2 < sv.len() && #[trigger] sv[l2] <= o && (l2 + 1 == sv.len() || o < sv[l2 + 1])) by {
        assert(0 <= l < sv.len() && sv[l] <= o && (l + 1 == sv.len() || o < sv[l + 1]));
    }
    let l2 = spec_line_of(sv, o);
    if l2 < l {
        assert(sv[l2 + 1] <= sv[l]);
    }
    if l < l2 {
        assert(sv[l + 1] <= sv[l2]);
    }
}

/// Offset just past the content of line `l`: the position of the line
/// break that ends it, or the end of the text for the last line.
pub open spec fn spec_line_content_end(sv: Seq<usize>, t: Seq<u8>, l: int) -> int {
    if l + 1 < sv.len() {
        sv[l + 1] - 1
    } else {
        t.len() as int
    }
}

/// The column walk: starting at byte `o` with `rem` UTF-16 units still to
/// consume, advance until the units run out, but never step past `ce` and
/// never stop inside a multi-byte character.
pub open spec fn spec_advance(t: Seq<u8>, o: int, ce: int, rem: int) -> int
    decreases ce - o,
    when o <= ce
{
    if o >= ce {
        o
    } else if !is_continuation(t[o]) && utf16_units(t[o]) > rem {
        o
    } else {
        spec_advance(t, o + 1, ce, rem - utf16_units(t[o]))
    }
}

/// The column walk stays within the stretch it walks.
pub proof fn lemma_advance_bounds(t: Seq<u8>, o: int, ce: int, rem: int)
    requires
        0 <= o <= ce,
    ensures
        o <= spec_advance(t, o, ce, rem) <= ce,
    decreases ce - o,
{
    if o < ce && !(!is_continuation(t[o]) && utf16_units(t[o]) > rem) {
        lemma_advance_bounds(t, o + 1, ce, rem - utf16_units(t[o]));
    }
}

/// The position that maps byte offset `o` of text `t`: the line holding
/// `o`, and the UTF-16 width of the bytes between the line start and `o`.
pub open spec fn spec_offset_to_position(t: Seq<u8>, sv: Seq<usize>, o: int) -> Position {
    let l = spec_line_of(sv, o);
    Position {
        line: l as u32,
        character: utf16_between(t, sv[l] as int, o) as u32,
    }
}

/// The byte offset that maps line/column `(line, col)`: walk from the
/// line's start consuming `col` UTF-16 units, clamping at the line's end.
pub open spec fn spec_position_to_offset(t: Seq<u8>, sv: Seq<usize>, line: int, col: int) -> int {
    spec_advance(t, sv[line] as int, spec_line_content_end(sv, t, line), col)
}

/// Line-start table for one text snapshot; the bridge between the byte
/// offsets of the parse tree and the line/UTF-16-column coordinates of
/// the protocol.
#[derive(Debug)]
pub struct PositionMapper {
    pub line_starts: Vec<usize>,
}

impl PositionMapper {
    /// The mapper corresponds to text `t`.
    pub open spec fn wf(self, t: Seq<u8>) -> bool {
        &&& starts_wf(self.line_starts@, t)
        &&& t.len() <= MAX_TEXT_LEN
    }

    /// Builds the line-start table in one pass over the text.
    pub fn new(text: &Vec<u8>) -> (m: Self)
        requires
            text@.len() <= MAX_TEXT_LEN,
        ensures
            m.wf(text@),
    {
        let mut starts: Vec<usize> = Vec::new();
        starts.push(0);
        let n = text.len();
        let mut i: usize = 0;
        while i < n
            invariant
                n == text@.len() <= MAX_TEXT_LEN,
                i <= n,
                starts@.len() >= 1,
                starts@[0] == 0,
                forall|k: int| 0 <= k < starts@.len() ==> #[trigger] starts@[k] <= i,
                forall|k: int, j: int|
                    0 <= k < j < starts@.len() ==> #[trigger] starts@[k] < #[trigger] starts@[j],
                forall|k: int| 1 <= k < starts@.len() ==> is_line_break(text@[#[trigger] starts@[k] - 1]),
                forall|o: int|
                    0 <= o < i && is_line_break(text@[o]) ==> exists|k: int|
                        0 <= k < starts@.len() && #[trigger] starts@[k] == o + 1,
            decreases n - i,
        {
            if text[i] == 10 {
                let ghost old_starts = starts@;
                starts.push(i + 1);
                assert forall|o: int| 0 <= o < i + 1 && is_line_break(text@[o]) implies exists|k: int|
                    0 <= k < starts@.len() && #[trigger] starts@[k] == o + 1 by {
                    if o < i {
                        let k = choose|k: int| 0 <= k < old_starts.len() && old_starts[k] == o + 1;
                        assert(starts@[k] == o + 1);
                    } else {
                        assert(starts@[starts@.len() - 1] == i + 1);
                    }
                }
            }
            i = i + 1;
        }
        PositionMapper { line_starts: starts }
    }

    /// Number of lines of the text the mapper was built from.
    pub fn line_count(&self) -> (n: usize)
        ensures
            n == self.line_starts@.len(),
    {
        self.line_starts.len()
    }

    /// Translates a byte offset to a line/UTF-16-column position. Fails
    /// exactly when the offset lies beyond the end of the text.
    pub fn byte_to_position(&self, text: &Vec<u8>, offset: usize) -> (r: Result<Position, MapError>)
        requires
            self.wf(text@),
        ensures
            offset <= text@.len() ==> r == Ok::<Position, MapError>(
                spec_offset_to_position(text@, self.line_starts@, offset as int),
            ),
            offset > text@.len() ==> r == Err::<Position, MapError>(MapError::PositionOutOfRange),
    {
        if offset > text.len() {
            return Err(MapError::PositionOutOfRange);
        }
        let sv = &self.line_starts;
        let nl = sv.len();
        let mut l: usize = 0;
        while l + 1 < nl && sv[l + 1] <= offset
            invariant
                self.wf(text@),
                sv == &self.line_starts,
                nl == sv@.len(),
                0 <= l < sv@.len(),
                sv@[l as int] <= offset,
            decreases sv@.len() - l,
        {
            l = l + 1;
        }
        let ls = sv[l];
        let mut col: u32 = 0;
        let mut j: usize = ls;
        while j < offset
            invariant
                self.wf(text@),
                sv == &self.line_starts,
                offset <= text@.len(),
                0 <= l < sv@.len(),
                ls == sv@[l as int],
                ls <= offset,
                l + 1 == sv@.len() || offset < sv@[l + 1],
                ls <= j <= offset,
                col == utf16_between(text@, ls as int, j as int),
                col <= 2 * (j - ls),
            decreases offset - j,
        {
            let b = text[j];
            let u: u32 = if b < 0x80 {
                1
            } else if b < 0xc0 {
                0
            } else if b < 0xf0 {
                1
            } else {
                2
            };
            col = col + u;
            j = j + 1;
        }
        proof {
            lemma_line_of_unique(sv@, text@, offset as int, l as int);
            lemma_starts_len(sv@, text@);
        }
        Ok(Position { line: l as u32, character: col })
    }

    /// Translates a line/UTF-16-column position to a byte offset. A column
    /// beyond the line's width is clamped to the line's end; a column that
    /// would land inside a multi-byte character is rounded down to the
    /// character's start. Fails exactly when the line does not exist.
    pub fn position_to_byte(&self, text: &Vec<u8>, pos: Position) -> (r: Result<usize, MapError>)
        requires
            self.wf(text@),
        ensures
            pos.line < self.line_starts@.len() ==> r == Ok::<usize, MapError>(
                spec_position_to_offset(
                    text@,
                    self.line_starts@,
                    pos.line as int,
                    pos.character as int,
                ) as usize,
            ),
            pos.line >= self.line_starts@.len() ==> r == Err::<usize, MapError>(
                MapError::LineNotFound,
            ),
    {
        let sv = &self.line_starts;
        let line = pos.line as usize;
        if line >= sv.len() {
            return Err(MapError::LineNotFound);
        }
        let ls = sv[line];
        let ce: usize = if line + 1 < sv.len() {
            sv[line + 1] - 1
        } else {
            text.len()
        };
        let col = pos.character;
        let ghost t = text@;
        let mut o: usize = ls;
        let mut acc: u32 = 0;
        proof {
            lemma_utf16_between_nonneg(t, ls as int, ls as int);
        }
        while o < ce
            invariant
                self.wf(text@),
                t == text@,
                sv == &self.line_starts,
                0 <= line < sv@.len(),
                line == pos.line as usize,
                col == pos.character,
                ls == sv@[line as int],
                ce == spec_line_content_end(sv@, t, line as int),
                ce <= t.len(),
                ls <= o <= ce,
                acc <= col,
                spec_advance(t, ls as int, ce as int, col as int) == spec_advance(
                    t,
                    o as int,
                    ce as int,
                    col as int - acc as int,
                ),
            decreases ce - o,
        {
            let b = text[o];
            let u: u32 = if b < 0x80 {
                1
            } else if b < 0xc0 {
                0
            } else if b < 0xf0 {
                1
            } else {
                2
            };
            let is_cont = 0x80 <= b && b < 0xc0;
            if !is_cont && acc as u64 + u as u64 > col as u64 {
                proof {
                    assert(spec_advance(t, o as int, ce as int, col as int - acc as int) == o);
                }
                return Ok(o);
            }
            acc = acc + u;
            o = o + 1;
        }
        proof {
            assert(spec_advance(t, o as int, ce as int, col as int - acc as int) == o);
        }
        Ok(o)
    }
}

/// Two offsets on one line map to columns in the same order as the
/// offsets themselves.
pub proof fn lemma_same_line_col_monotone(t: Seq<u8>, sv: Seq<usize>, o1: int, o2: int)
    requires
        starts_wf(sv, t),
        t.len() <= MAX_TEXT_LEN,
        0 <= o1 <= o2 <= t.len(),
        spec_line_of(sv, o1) == spec_line_of(sv, o2),
    ensures
        spec_offset_to_position(t, sv, o1).character <= spec_offset_to_position(t, sv, o2).character,
        spec_offset_to_position(t, sv, o2).character as int - spec_offset_to_position(
            t,
            sv,
            o1,
        ).character as int == utf16_between(t, o1, o2),
{
    let l = spec_line_of(sv, o1);
    lemma_line_of_exists(sv, t, o1);
    let ls = sv[l] as int;
    lemma_utf16_between_additive(t, ls, o1, o2);
    lemma_utf16_between_nonneg(t, ls, o1);
    lemma_utf16_between_nonneg(t, o1, o2);
    lemma_utf16_between_upper(t, ls, o1);
    lemma_utf16_between_upper(t, ls, o2);
}

/// Whatever position a valid character-boundary offset maps to, mapping
/// that position back yields the same offset: the two coordinate systems
/// agree on every addressable point of the text.
pub proof fn lemma_position_round_trip(t: Seq<u8>, sv: Seq<usize>, o: int)
    requires
        starts_wf(sv, t),
        t.len() <= MAX_TEXT_LEN,
        0 <= o <= t.len(),
        is_char_start(t, o),
    ensures
        ({
            let p = spec_offset_to_position(t, sv, o);
            p.line < sv.len() && spec_position_to_offset(t, sv, p.line as int, p.character as int)
                == o
        }),
{
    let l = spec_line_of(sv, o);
    lemma_line_of_exists(sv, t, o);
    lemma_starts_len(sv, t);
    let ls = sv[l] as int;
    let ce = spec_line_content_end(sv, t, l);
    assert(o <= ce);
    let col = utf16_between(t, ls, o);
    lemma_utf16_between_nonneg(t, ls, o);
    lemma_utf16_between_upper(t, ls, o);
    assert(col as u32 as int == col);
    assert(l as u32 as int == l);
    lemma_advance_reaches(t, ls, o, ce);
}

/// There is a line containing any offset within the text, so
/// `spec_line_of` picks a witness with the stated properties.
pub proof fn lemma_line_of_exists(sv: Seq<usize>, t: Seq<u8>, o: int)
    requires
        starts_wf(sv, t),
        0 <= o,
    ensures
        ({
            let l = spec_line_of(sv, o);
            &&& 0 <= l < sv.len()
            &&& sv[l] <= o
            &&& l + 1 == sv.len() || o < sv[l + 1]
        }),
{
    lemma_find_line(sv, t, o, 0);
}

/// Walking up from a table entry at or before `o` finds the line of `o`.
proof fn lemma_find_line(sv: Seq<usize>, t: Seq<u8>, o: int, hi: int)
    requires
        starts_wf(sv, t),
        0 <= o,
        0 <= hi < sv.len(),
        sv[hi] <= o,
    ensures
        exists|l: int|
            0 <= l < sv.len() && #[trigger] sv[l] <= o && (l + 1 == sv.len() || o < sv[l + 1]),
    decreases sv.len() - hi,
{
    if hi + 1 == sv.len() || o < sv[hi + 1] {
        assert(0 <= hi < sv.len() && sv[hi] <= o && (hi + 1 == sv.len() || o < sv[hi + 1]));
    } else {
        lemma_find_line(sv, t, o, hi + 1);
    }
}

/// The column walk started at `cur` with exactly the UTF-16 width of
/// `[cur, o)` left to consume stops exactly at `o`, provided `o` is a
/// character boundary within reach.
proof fn lemma_advance_reaches(t: Seq<u8>, cur: int, o: int, ce: int)
    requires
        0 <= cur <= o <= ce <= t.len(),
        is_char_start(t, o),
    ensures
        spec_advance(t, cur, ce, utf16_between(t, cur, o)) == o,
    decreases o - cur,
{
    if cur == o {
        if o < ce {
            assert(!is_continuation(t[o]));
            assert(utf16_units(t[o]) >= 1);
        }
    } else {
        lemma_utf16_between_first(t, cur, o);
        lemma_utf16_between_nonneg(t, cur + 1, o);
        lemma_advance_reaches(t, cur + 1, o, ce);
    }
}

} // verus!
