//! Locating the fixed six-byte frame marker inside a block of bytes.
//!
//! Every embedded frame of the container stream is opened by the byte
//! sequence `46 46 46 00 52 54`.  This module defines what it means for a
//! marker to start at a given offset, the sequence of all marker positions
//! in a block, and a verified scan that finds them.

use vstd::prelude::*;

verus! {

/// True when the fixed six-byte frame marker `46 46 46 00 52 54` starts at
/// offset `i` of `s`.
pub open spec fn is_marker_at(s: Seq<u8>, i: int) -> bool {
    &&& 0 <= i
    &&& i + 6 <= s.len()
    &&& s[i] == 0x46u8
    &&& s[i + 1] == 0x46u8
    &&& s[i + 2] == 0x46u8
    &&& s[i + 3] == 0x00u8
    &&& s[i + 4] == 0x52u8
    &&& s[i + 5] == 0x54u8
}

/// The starting offsets, in increasing order, of every marker of `s` whose
/// start lies below `n`.
pub open spec fn positions_below(s: Seq<u8>, n: int) -> Seq<int>
    decreases n,
{
    if n <= 0 {
        Seq::empty()
    } else if is_marker_at(s, n - 1) {
        positions_below(s, n - 1).push(n - 1)
    } else {
        positions_below(s, n - 1)
    }
}

/// The starting offsets of every marker of `s`, in increasing order.
///
/// The marker has no non-trivial prefix that is also a suffix, so its
/// occurrences cannot overlap ([`lemma_markers_disjoint`]): these offsets
/// are exactly what a left-to-right non-overlapping scan finds.
pub open spec fn marker_positions(s: Seq<u8>) -> Seq<int> {
    positions_below(s, s.len() as int)
}

/// Two marker occurrences never overlap.
pub proof fn lemma_markers_disjoint(s: Seq<u8>, i: int, j: int)
    requires
        is_marker_at(s, i),
        is_marker_at(s, j),
        i < j,
    ensures
        i + 6 <= j,
{
}

/// Every entry of `positions_below(s, n)` is a marker start below `n`, the
/// entries are strictly increasing, and every marker start below `n` is an
/// entry.
pub proof fn lemma_positions_below_props(s: Seq<u8>, n: int)
    ensures
        forall|j: int|
            0 <= j < positions_below(s, n).len() ==> is_marker_at(
                s,
                #[trigger] positions_below(s, n)[j],
            ) && positions_below(s, n)[j] < n,
        forall|j: int, k: int|
            0 <= j < k < positions_below(s, n).len() ==> positions_below(s, n)[j]
                < positions_below(s, n)[k],
        forall|p: int|
            #[trigger] is_marker_at(s, p) && p < n ==> positions_below(s, n).contains(p),
    decreases n,
{
    if n <= 0 {
    } else {
        lemma_positions_below_props(s, n - 1);
        let prev = positions_below(s, n - 1);
        let cur = positions_below(s, n);
        assert forall|j: int| 0 <= j < cur.len() implies is_marker_at(s, #[trigger] cur[j])
            && cur[j] < n by {
            if j < prev.len() {
                assert(cur[j] == prev[j]);
            }
        }
        assert forall|j: int, k: int| 0 <= j < k < cur.len() implies cur[j] < cur[k] by {
            if k < prev.len() {
                assert(cur[j] == prev[j] && cur[k] == prev[k]);
            } else {
                assert(cur[j] == prev[j] && cur[k] == n - 1);
                assert(prev[j] < n - 1);
            }
        }
        assert forall|p: int| #[trigger] is_marker_at(s, p) && p < n implies cur.contains(p) by {
            if p < n - 1 {
                assert(prev.contains(p));
                let j = choose|j: int| 0 <= j < prev.len() && #[trigger] prev[j] == p;
                assert(cur[j] == p);
            } else {
                assert(is_marker_at(s, n - 1));
                assert(cur[cur.len() - 1] == n - 1);
            }
        }
    }
}

/// If no marker starts in `[m, n)`, scanning up to `n` finds the same
/// positions as scanning up to `m`.
pub proof fn lemma_positions_below_stable(s: Seq<u8>, m: int, n: int)
    requires
        0 <= m <= n,
        forall|p: int| m <= p < n ==> !(#[trigger] is_marker_at(s, p)),
    ensures
        positions_below(s, n) == positions_below(s, m),
    decreases n - m,
{
    if m < n {
        lemma_positions_below_stable(s, m, n - 1);
    }
}

/// Between two consecutive found positions no further marker starts.
pub proof fn lemma_positions_adjacent(s: Seq<u8>, n: int, j: int, q: int)
    requires
        0 <= j < positions_below(s, n).len() - 1,
        positions_below(s, n)[j] < q < positions_below(s, n)[j + 1],
    ensures
        !is_marker_at(s, q),
{
    lemma_positions_below_props(s, n);
    if is_marker_at(s, q) {
        assert(positions_below(s, n).contains(q));
        let k = choose|k: int|
            0 <= k < positions_below(s, n).len() && #[trigger] positions_below(s, n)[k] == q;
        if k <= j {
            assert(positions_below(s, n)[k] <= positions_below(s, n)[j]);
        } else {
            assert(positions_below(s, n)[j + 1] <= positions_below(s, n)[k]);
        }
    }
}

/// Finds the starting offset of every marker in `block`, in increasing
/// order.
pub fn find_markers(block: &Vec<u8>) -> (r: Vec<usize>)
    ensures
        r@.len() == marker_positions(block@).len(),
        forall|j: int| 0 <= j < r@.len() ==> r@[j] as int == marker_positions(block@)[j],
{
    let n = block.len();
    let mut out: Vec<usize> = Vec::new();
    if n < 6 {
        proof {
            lemma_positions_below_stable(block@, 0, n as int);
        }
        return out;
    }
    let mut i: usize = 0;
    while i <= n - 6
        invariant
            block@.len() == n,
            6 <= n,
            i <= n - 5,
            out@.len() == positions_below(block@, i as int).len(),
            forall|j: int|
                0 <= j < out@.len() ==> out@[j] as int == positions_below(block@, i as int)[j],
        decreases n - i,
    {
        if block[i] == 0x46u8 && block[i + 1] == 0x46u8 && block[i + 2] == 0x46u8 && block[i + 3]
            == 0x00u8 && block[i + 4] == 0x52u8 && block[i + 5] == 0x54u8 {
            assert(is_marker_at(block@, i as int));
            out.push(i);
        } else {
            assert(!is_marker_at(block@, i as int));
        }
        i += 1;
    }
    proof {
        lemma_positions_below_stable(block@, i as int, n as int);
    }
    out
}

} // verus!
