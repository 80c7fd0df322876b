//! Wire encoding of semantic tokens: a stable sort by position, then
//! relative-delta compression as the protocol transmits them.

use vstd::prelude::*;

use crate::tokens::Tok;

verus! {

/// Token order on the wire: by line, then by column.
pub open spec fn tok_le(a: Tok, b: Tok) -> bool {
    a.line < b.line || (a.line == b.line && a.col <= b.col)
}

/// Stable insertion of a token into a sorted run: it lands after every
/// token at or before its position.
pub open spec fn insert_sorted(s: Seq<Tok>, x: Tok) -> Seq<Tok>
    decreases s.len(),
{
    if s.len() == 0 {
        seq![x]
    } else if tok_le(s.last(), x) {
        s.push(x)
    } else {
        insert_sorted(s.drop_last(), x).push(s.last())
    }
}

/// The first `n` tokens sorted stably by `(line, col)`.
pub open spec fn sort_toks_upto(s: Seq<Tok>, n: int) -> Seq<Tok>
    decreases n,
{
    if n <= 0 {
        Seq::empty()
    } else {
        insert_sorted(sort_toks_upto(s, n - 1), s[n - 1])
    }
}

/// The tokens sorted stably by `(line, col)` ascending.
pub open spec fn sort_toks(s: Seq<Tok>) -> Seq<Tok> {
    sort_toks_upto(s, s.len() as int)
}

/// Adjacent tokens are in wire order.
pub open spec fn spec_sorted(s: Seq<Tok>) -> bool {
    forall|k: int| 0 <= k < s.len() - 1 ==> tok_le(#[trigger] s[k], s[k + 1])
}

/// Inserting into a sorted run at the position an insertion scan finds
/// equals the stable insertion.
proof fn lemma_insert_at(s: Seq<Tok>, x: Tok, j: int)
    requires
        0 <= j <= s.len(),
        forall|q: int| j <= q < s.len() ==> !tok_le(#[trigger] s[q], x),
        j > 0 ==> tok_le(s[j - 1], x),
    ensures
        insert_sorted(s, x) == s.insert(j, x),
    decreases s.len() - j,
{
    if j == s.len() {
        if s.len() == 0 {
            assert(insert_sorted(s, x) =~= s.insert(j, x));
        } else {
            assert(tok_le(s.last(), x));
            assert(insert_sorted(s, x) =~= s.insert(j, x));
        }
    } else {
        assert(!tok_le(s.last(), x));
        lemma_insert_at(s.drop_last(), x, j);
        assert(insert_sorted(s.drop_last(), x).push(s.last()) =~= s.insert(j, x));
    }
}

/// Stable insertion preserves sortedness.
proof fn lemma_insert_sorted_keeps(s: Seq<Tok>, x: Tok, j: int)
    requires
        spec_sorted(s),
        0 <= j <= s.len(),
        forall|q: int| j <= q < s.len() ==> !tok_le(#[trigger] s[q], x),
        j > 0 ==> tok_le(s[j - 1], x),
    ensures
        spec_sorted(s.insert(j, x)),
{
    let r = s.insert(j, x);
    assert forall|k: int| 0 <= k < r.len() - 1 implies tok_le(#[trigger] r[k], r[k + 1]) by {
        if k + 1 < j {
            assert(r[k] == s[k] && r[k + 1] == s[k + 1]);
        } else if k + 1 == j {
            assert(r[k] == s[k] && r[k + 1] == x);
        } else if k == j {
            assert(r[k] == x && r[k + 1] == s[k]);
            assert(!tok_le(s[k], x));
        } else {
            assert(r[k] == s[k - 1] && r[k + 1] == s[k]);
        }
    }
}

/// Inserting adds exactly the inserted token to the run's contents.
proof fn lemma_insert_sorted_multiset(s: Seq<Tok>, x: Tok)
    ensures
        insert_sorted(s, x).to_multiset() == s.to_multiset().insert(x),
    decreases s.len(),
{
    broadcast use vstd::seq_lib::group_to_multiset_ensures;

    if s.len() == 0 {
        assert(insert_sorted(s, x) =~= s.push(x));
    } else if tok_le(s.last(), x) {
    } else {
        lemma_insert_sorted_multiset(s.drop_last(), x);
        assert(s.drop_last().push(s.last()) =~= s);
        assert(insert_sorted(s, x).to_multiset() =~= s.to_multiset().insert(x));
    }
}

/// Inserting into a sorted run keeps it sorted.
proof fn lemma_insert_sorted_is_sorted(s: Seq<Tok>, x: Tok)
    requires
        spec_sorted(s),
    ensures
        spec_sorted(insert_sorted(s, x)),
    decreases s.len(),
{
    if s.len() == 0 {
    } else if tok_le(s.last(), x) {
        let r = s.push(x);
        assert forall|k: int| 0 <= k < r.len() - 1 implies tok_le(#[trigger] r[k], r[k + 1]) by {
            if k < s.len() - 1 {
                assert(tok_le(s[k], s[k + 1]));
            }
        }
    } else {
        let d = s.drop_last();
        assert(spec_sorted(d)) by {
            assert forall|k: int| 0 <= k < d.len() - 1 implies tok_le(#[trigger] d[k], d[k + 1]) by {
                assert(tok_le(s[k], s[k + 1]));
            }
        }
        lemma_insert_sorted_is_sorted(d, x);
        let t = insert_sorted(d, x);
        let r = t.push(s.last());
        assert(t.len() >= 1);
        assert(tok_le(t.last(), s.last())) by {
            if d.len() == 0 {
                assert(t.last() == x);
            } else if tok_le(d.last(), x) {
                assert(t.last() == x);
            } else {
                assert(t.last() == d.last());
                assert(tok_le(s[s.len() - 2], s[s.len() - 1]));
            }
        }
        assert forall|k: int| 0 <= k < r.len() - 1 implies tok_le(#[trigger] r[k], r[k + 1]) by {
            if k < t.len() - 1 {
                assert(tok_le(t[k], t[k + 1]));
            }
        }
    }
}

/// The sorted runs built from longer and longer prefixes hold exactly
/// the prefix's tokens, in order.
proof fn lemma_sort_upto_correct(s: Seq<Tok>, n: int)
    requires
        0 <= n <= s.len(),
    ensures
        spec_sorted(sort_toks_upto(s, n)),
        sort_toks_upto(s, n).to_multiset() == s.subrange(0, n).to_multiset(),
    decreases n,
{
    broadcast use vstd::seq_lib::group_to_multiset_ensures;

    if n == 0 {
        assert(s.subrange(0, 0) =~= Seq::<Tok>::empty());
        assert(sort_toks_upto(s, 0).to_multiset() =~= s.subrange(0, 0).to_multiset());
    } else {
        lemma_sort_upto_correct(s, n - 1);
        lemma_insert_sorted_is_sorted(sort_toks_upto(s, n - 1), s[n - 1]);
        lemma_insert_sorted_multiset(sort_toks_upto(s, n - 1), s[n - 1]);
        assert(s.subrange(0, n - 1).push(s[n - 1]) =~= s.subrange(0, n));
    }
}

/// The encoder's sort really sorts: its result is ordered by line and
/// column and holds exactly the input's tokens.
pub proof fn lemma_sort_toks_correct(s: Seq<Tok>)
    ensures
        spec_sorted(sort_toks(s)),
        sort_toks(s).to_multiset() == s.to_multiset(),
        sort_toks(s).len() == s.len(),
{
    broadcast use vstd::seq_lib::group_to_multiset_ensures;

    lemma_sort_upto_correct(s, s.len() as int);
    assert(s.subrange(0, s.len() as int) =~= s);
    assert(sort_toks(s).to_multiset().len() == sort_toks(s).len());
    assert(s.to_multiset().len() == s.len());
}

/// One encoded token: line and column as deltas from the previous token
/// (column absolute at each new line), plus length, type and modifiers.
#[derive(Clone, Copy, Debug, PartialEq, Eq, Structural)]
pub struct EncodedToken {
    pub delta_line: u32,
    pub delta_start: u32,
    pub length: u32,
    pub token_type: u32,
    pub token_modifiers_bitset: u32,
}

/// The encoding of the `i`-th token of a sorted run: deltas are against
/// the previous token, and against `(0, 0)` for the first.
pub open spec fn spec_encode_at(s: Seq<Tok>, i: int) -> EncodedToken {
    let prev_line: int = if i == 0 {
        0
    } else {
        s[i - 1].line as int
    };
    let prev_col: int = if i == 0 {
        0
    } else {
        s[i - 1].col as int
    };
    EncodedToken {
        delta_line: (s[i].line - prev_line) as u32,
        delta_start: if s[i].line == prev_line {
            (s[i].col - prev_col) as u32
        } else {
            s[i].col
        },
        length: s[i].len,
        token_type: s[i].ty,
        token_modifiers_bitset: s[i].mods,
    }
}

/// The delta encoding of a sorted token run.
pub open spec fn spec_encode(s: Seq<Tok>) -> Seq<EncodedToken> {
    Seq::new(s.len(), |i: int| spec_encode_at(s, i))
}

/// Sorts the tokens by `(line, col)` ascending and serializes them with
/// relative-delta compression: each token's line and column are written
/// relative to the previous one, the first relative to `(0, 0)`.
pub fn encode_semantic_tokens(toks: Vec<Tok>) -> (r: Vec<EncodedToken>)
    ensures
        r@ == spec_encode(sort_toks(toks@)),
{
    let n = toks.len();
    let mut sorted: Vec<Tok> = Vec::new();
    let mut i: usize = 0;
    while i < n
        invariant
            n == toks@.len(),
            0 <= i <= n,
            sorted@ == sort_toks_upto(toks@, i as int),
            spec_sorted(sorted@),
        decreases n - i,
    {
        let x = toks[i];
        let mut j: usize = sorted.len();
        while j > 0 && !(sorted[j - 1].line < x.line || (sorted[j - 1].line == x.line
            && sorted[j - 1].col <= x.col))
            invariant
                0 <= j <= sorted@.len(),
                forall|q: int| j <= q < sorted@.len() ==> !tok_le(#[trigger] sorted@[q], x),
            decreases j,
        {
            j = j - 1;
        }
        proof {
            lemma_insert_at(sorted@, x, j as int);
            lemma_insert_sorted_keeps(sorted@, x, j as int);
        }
        sorted.insert(j, x);
        i = i + 1;
    }
    let mut out: Vec<EncodedToken> = Vec::new();
    let mut last_line: u32 = 0;
    let mut last_col: u32 = 0;
    let m = sorted.len();
    let mut k: usize = 0;
    while k < m
        invariant
            m == sorted@.len(),
            sorted@ == sort_toks(toks@),
            spec_sorted(sorted@),
            0 <= k <= m,
            out@.len() == k,
            forall|q: int| 0 <= q < k ==> #[trigger] out@[q] == spec_encode_at(sorted@, q),
            last_line as int == if k == 0 {
                0int
            } else {
                sorted@[k - 1].line as int
            },
            last_col as int == if k == 0 {
                0int
            } else {
                sorted@[k - 1].col as int
            },
        decreases m - k,
    {
        let t = sorted[k];
        proof {
            if k > 0 {
                assert(tok_le(sorted@[k as int - 1], sorted@[k as int]));
            }
        }
        let delta_line = t.line - last_line;
        let delta_start = if delta_line == 0 {
            t.col - last_col
        } else {
            t.col
        };
        out.push(
            EncodedToken {
                delta_line,
                delta_start,
                length: t.len,
                token_type: t.ty,
                token_modifiers_bitset: t.mods,
            },
        );
        last_line = t.line;
        last_col = t.col;
        k = k + 1;
    }
    proof {
        assert(out@ =~= spec_encode(sort_toks(toks@)));
    }
    out
}

} // verus!
