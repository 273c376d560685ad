//! Stream-level laws of the frame splitter.
//!
//! These definitions model, purely at the level of byte sequences, what one
//! successful split buffers and carries, and how a whole stream cut into
//! blocks is partitioned into frames.  The laws proved here state that the
//! partition is exactly the sequence of marker-to-marker ranges of the
//! underlying stream, in stream order, independently of where the stream was
//! cut into blocks.

use vstd::prelude::*;

use crate::marker::{
    is_marker_at, lemma_positions_below_props, marker_positions, positions_below,
};

verus! {

/// The frames of a whole stream: one byte range per pair of consecutive
/// marker positions.  The bytes after the last marker are bounded by no
/// second marker and belong to no frame.
pub open spec fn frames_of(s: Seq<u8>) -> Seq<Seq<u8>> {
    let ps = marker_positions(s);
    if ps.len() == 0 {
        Seq::empty()
    } else {
        Seq::new((ps.len() - 1) as nat, |j: int| s.subrange(ps[j], ps[j + 1]))
    }
}

/// The frames that one successful split of `block` buffers, given the
/// carried `leftover`: the completed leftover frame when a leftover was
/// carried, then one frame per pair of consecutive markers of the block.
pub open spec fn block_frames(leftover: Seq<u8>, block: Seq<u8>) -> Seq<Seq<u8>>
    recommends
        marker_positions(block).len() >= 2,
{
    let ps = marker_positions(block);
    let pairs = Seq::new((ps.len() - 1) as nat, |j: int| block.subrange(ps[j], ps[j + 1]));
    if leftover.len() > 0 {
        seq![leftover + block.subrange(0, ps[0])] + pairs
    } else {
        pairs
    }
}

/// The leftover carried after feeding `block` to the splitter: the bytes
/// from the block's last marker on success, the old leftover unchanged when
/// the block could not be split.
pub open spec fn block_leftover(leftover: Seq<u8>, block: Seq<u8>) -> Seq<u8> {
    let ps = marker_positions(block);
    if ps.len() >= 2 {
        block.subrange(ps[ps.len() - 1], block.len() as int)
    } else {
        leftover
    }
}

/// All frames buffered by a run of the splitter over `blocks`, starting
/// from `leftover`, in order.
pub open spec fn run_frames(leftover: Seq<u8>, blocks: Seq<Seq<u8>>) -> Seq<Seq<u8>>
    decreases blocks.len(),
{
    if blocks.len() == 0 {
        Seq::empty()
    } else {
        block_frames(leftover, blocks[0]) + run_frames(
            block_leftover(leftover, blocks[0]),
            blocks.drop_first(),
        )
    }
}

/// The leftover carried out of a run of the splitter over `blocks`,
/// starting from `leftover`.
pub open spec fn run_leftover(leftover: Seq<u8>, blocks: Seq<Seq<u8>>) -> Seq<u8>
    decreases blocks.len(),
{
    if blocks.len() == 0 {
        leftover
    } else {
        run_leftover(block_leftover(leftover, blocks[0]), blocks.drop_first())
    }
}

/// Feeding one more block extends a run's frames by that block's frames
/// and carries that block's leftover.
pub proof fn lemma_run_snoc(leftover: Seq<u8>, blocks: Seq<Seq<u8>>, b: Seq<u8>)
    ensures
        run_frames(leftover, blocks.push(b)) == run_frames(leftover, blocks) + block_frames(
            run_leftover(leftover, blocks),
            b,
        ),
        run_leftover(leftover, blocks.push(b)) == block_leftover(
            run_leftover(leftover, blocks),
            b,
        ),
    decreases blocks.len(),
{
    if blocks.len() == 0 {
        assert(blocks.push(b)[0] == b);
        assert(blocks.push(b).drop_first() =~= Seq::<Seq<u8>>::empty());
        assert(run_leftover(leftover, blocks) == leftover);
        assert(run_frames(leftover, blocks) =~= Seq::<Seq<u8>>::empty());
        assert(run_frames(block_leftover(leftover, b), Seq::<Seq<u8>>::empty())
            =~= Seq::<Seq<u8>>::empty());
        assert(run_frames(leftover, blocks.push(b)) == block_frames(leftover, b) + run_frames(
            block_leftover(leftover, b),
            blocks.push(b).drop_first(),
        ));
        assert(run_frames(leftover, blocks.push(b)) =~= run_frames(leftover, blocks)
            + block_frames(run_leftover(leftover, blocks), b));
        assert(run_leftover(block_leftover(leftover, b), Seq::<Seq<u8>>::empty())
            == block_leftover(leftover, b));
        assert(run_leftover(leftover, blocks.push(b)) == block_leftover(leftover, b));
    } else {
        lemma_run_snoc(block_leftover(leftover, blocks[0]), blocks.drop_first(), b);
        assert(blocks.push(b)[0] == blocks[0]);
        assert(blocks.push(b).drop_first() =~= blocks.drop_first().push(b));
        assert(run_frames(leftover, blocks.push(b)) =~= run_frames(leftover, blocks)
            + block_frames(run_leftover(leftover, blocks), b));
        assert(run_leftover(leftover, blocks.push(b)) == run_leftover(
            block_leftover(leftover, blocks[0]),
            blocks.drop_first().push(b),
        ));
        assert(run_leftover(leftover, blocks) == run_leftover(
            block_leftover(leftover, blocks[0]),
            blocks.drop_first(),
        ));
    }
}

/// The blocks a stream is cut into by the given cut offsets.
pub open spec fn blocks_of(s: Seq<u8>, cuts: Seq<int>) -> Seq<Seq<u8>> {
    Seq::new((cuts.len() - 1) as nat, |t: int| s.subrange(cuts[t], cuts[t + 1]))
}

/// A well-formed cutting of a stream into blocks: the cuts cover the whole
/// stream in increasing order, no marker straddles a cut, and every block
/// holds at least two markers, so that every split succeeds.
pub open spec fn cuts_ok(s: Seq<u8>, cuts: Seq<int>) -> bool {
    &&& cuts.len() >= 2
    &&& cuts[0] == 0
    &&& cuts[cuts.len() - 1] == s.len()
    &&& forall|t: int| 0 <= t < cuts.len() - 1 ==> #[trigger] cuts[t] < cuts[t + 1]
    &&& forall|t: int, i: int|
        0 <= t < cuts.len() && #[trigger] is_marker_at(s, i) ==> i + 6 <= #[trigger] cuts[t]
            || cuts[t] <= i
    &&& forall|t: int|
        0 <= t < cuts.len() - 1 ==> marker_positions(
            #[trigger] s.subrange(cuts[t], cuts[t + 1]),
        ).len() >= 2
}

/// Scanning further only appends: `positions_below(s, n1)` is a prefix of
/// `positions_below(s, n2)` for `n1 <= n2`.
pub proof fn lemma_positions_below_prefix(s: Seq<u8>, n1: int, n2: int)
    requires
        n1 <= n2,
    ensures
        positions_below(s, n1).len() <= positions_below(s, n2).len(),
        forall|j: int|
            0 <= j < positions_below(s, n1).len() ==> #[trigger] positions_below(s, n2)[j]
                == positions_below(s, n1)[j],
    decreases n2 - n1,
{
    if n1 < n2 {
        lemma_positions_below_prefix(s, n1, n2 - 1);
    }
}

/// The markers a block of the stream holds are exactly the stream's markers
/// inside that block, shifted by the block's start, provided no marker
/// straddles either end of the block.
pub proof fn lemma_positions_below_split(s: Seq<u8>, c: int, n: int, c2: int)
    requires
        0 <= c <= n <= c2 <= s.len(),
        forall|i: int| #[trigger] is_marker_at(s, i) ==> i + 6 <= c || c <= i,
        forall|i: int| #[trigger] is_marker_at(s, i) ==> i + 6 <= c2 || c2 <= i,
    ensures
        positions_below(s, n) == positions_below(s, c) + positions_below(
            s.subrange(c, c2),
            n - c,
        ).map_values(|p: int| p + c),
    decreases n - c,
{
    let b = s.subrange(c, c2);
    if n == c {
        assert(positions_below(s, n) =~= positions_below(s, c) + positions_below(
            b,
            0,
        ).map_values(|p: int| p + c));
    } else {
        lemma_positions_below_split(s, c, n - 1, c2);
        if is_marker_at(s, n - 1) {
            assert(n - 1 + 6 <= c2);
            assert(is_marker_at(b, n - 1 - c));
        } else {
            assert(!is_marker_at(b, n - 1 - c)) by {
                if is_marker_at(b, n - 1 - c) {
                    assert(is_marker_at(s, n - 1));
                }
            }
        }
        assert(positions_below(s, n) =~= positions_below(s, c) + positions_below(
            b,
            n - c,
        ).map_values(|p: int| p + c));
    }
}

/// The cut offsets of a well-formed cutting are monotone.
proof fn lemma_cuts_monotone(s: Seq<u8>, cuts: Seq<int>, a: int, b: int)
    requires
        cuts_ok(s, cuts),
        0 <= a <= b < cuts.len(),
    ensures
        cuts[a] <= cuts[b],
    decreases b - a,
{
    if a < b {
        lemma_cuts_monotone(s, cuts, a, b - 1);
        assert(cuts[b - 1] < cuts[b]);
    }
}

/// No marker straddles the cut at index `t`.
proof fn lemma_no_straddle(s: Seq<u8>, cuts: Seq<int>, t: int)
    requires
        cuts_ok(s, cuts),
        0 <= t < cuts.len(),
    ensures
        forall|i: int| #[trigger] is_marker_at(s, i) ==> i + 6 <= cuts[t] || cuts[t] <= i,
{
    assert forall|i: int| #[trigger] is_marker_at(s, i) implies i + 6 <= cuts[t] || cuts[t]
        <= i by {
        assert(cuts[t] == cuts[t]);
    }
}

/// Boundary invariance of frame reassembly.
///
/// A frame bounded by markers at `p` and `q` of the stream may be cut at any
/// offset `c` between them into the tail of one block and the head of the
/// next.  Whatever `c` was, `q - c` is the first marker of the later block,
/// and the carried tail `s[p..c]` completed by that block's bytes up to its
/// first marker reassembles the very same frame `s[p..q]`.
pub proof fn lemma_boundary_invariance(s: Seq<u8>, p: int, q: int, c: int)
    requires
        0 <= p,
        p + 6 <= c <= q,
        q + 6 <= s.len(),
        is_marker_at(s, p),
        is_marker_at(s, q),
        forall|i: int| p < i < q ==> !(#[trigger] is_marker_at(s, i)),
    ensures
        marker_positions(s.subrange(c, s.len() as int)).len() >= 1,
        marker_positions(s.subrange(c, s.len() as int))[0] == q - c,
        s.subrange(p, c) + s.subrange(c, s.len() as int).subrange(0, q - c) == s.subrange(p, q),
{
    let b = s.subrange(c, s.len() as int);
    let ps = marker_positions(b);
    assert(is_marker_at(b, q - c));
    lemma_positions_below_props(b, b.len() as int);
    assert(ps.contains(q - c));
    let j = choose|j: int| 0 <= j < ps.len() && #[trigger] ps[j] == q - c;
    if j > 0 {
        assert(ps[0] < ps[j]);
        assert(is_marker_at(b, ps[0]));
        assert(is_marker_at(s, c + ps[0]));
        assert(p < c + ps[0] < q);
    }
    assert(ps[0] == q - c);
    assert(s.subrange(p, c) + b.subrange(0, q - c) =~= s.subrange(p, q));
}


/// One successful split extends the stream's frame sequence: with the
/// leftover carried from the stream's prefix up to `c`, splitting the block
/// `s[c..c2]` buffers exactly the stream's next frames and carries the tail
/// from the last marker below `c2`.
#[verifier::rlimit(50)]
proof fn lemma_block_step(s: Seq<u8>, c: int, c2: int)
    requires
        0 <= c < c2 <= s.len(),
        forall|i: int| #[trigger] is_marker_at(s, i) ==> i + 6 <= c || c <= i,
        forall|i: int| #[trigger] is_marker_at(s, i) ==> i + 6 <= c2 || c2 <= i,
        positions_below(s, c).len() >= 1,
        marker_positions(s.subrange(c, c2)).len() >= 2,
    ensures
        positions_below(s, c2).len() == positions_below(s, c).len() + marker_positions(
            s.subrange(c, c2),
        ).len(),
        block_frames(
            s.subrange(positions_below(s, c).last(), c),
            s.subrange(c, c2),
        ) =~~= frames_of(s).subrange(
            positions_below(s, c).len() - 1,
            positions_below(s, c2).len() - 1,
        ),
        block_leftover(
            s.subrange(positions_below(s, c).last(), c),
            s.subrange(c, c2),
        ) == s.subrange(positions_below(s, c2).last(), c2),
{
    let b = s.subrange(c, c2);
    let psb = marker_positions(b);
    let pc = positions_below(s, c);
    let m = pc.len() as int;
    let lp = pc.last();
    let leftover = s.subrange(lp, c);
    let pall = marker_positions(s);
    lemma_positions_below_split(s, c, c2, c2);
    let pc2 = positions_below(s, c2);
    assert(pc2 =~= pc + psb.map_values(|x: int| x + c));
    lemma_positions_below_props(b, b.len() as int);
    lemma_positions_below_props(s, c);
    lemma_positions_below_props(s, s.len() as int);
    lemma_positions_below_prefix(s, c2, s.len() as int);
    assert(pall.len() >= pc2.len());
    assert(lp < c);
    assert(leftover.len() > 0);
    assert(pall[m - 1] == pc[m - 1] == lp);
    assert(frames_of(s).len() == pall.len() - 1);
    // the completed leftover is the stream's frame opened at its last marker below c
    assert(leftover + b.subrange(0, psb[0]) =~= s.subrange(pall[m - 1], pall[m])) by {
        assert(pc2[m] == psb[0] + c);
        assert(pall[m] == pc2[m]);
        assert(0 <= psb[0] && psb[0] + 6 <= b.len());
    }
    // each marker pair of the block is the corresponding frame of the stream
    assert forall|j: int| 0 <= j < psb.len() - 1 implies b.subrange(#[trigger] psb[j], psb[j + 1])
        =~= s.subrange(pall[m + j], pall[m + j + 1]) by {
        assert(pc2[m + j] == psb[j] + c);
        assert(pall[m + j] == pc2[m + j]);
        assert(pc2[m + j + 1] == psb[j + 1] + c);
        assert(pall[m + j + 1] == pc2[m + j + 1]);
        assert(is_marker_at(b, psb[j]) && is_marker_at(b, psb[j + 1]));
        assert(psb[j] < psb[j + 1] < b.len());
    }
    assert(block_frames(leftover, b) =~~= frames_of(s).subrange(m - 1, m - 1 + psb.len()));
    assert(block_leftover(leftover, b) =~= s.subrange(pc2.last(), c2)) by {
        assert(pc2.last() == psb.last() + c);
        assert(psb.last() < b.len());
    }
}

/// The splitter partitions a stream into exactly its marker-to-marker
/// frames, in stream order.
///
/// For every well-formed cutting of a stream into blocks, a run of the
/// splitter over those blocks — started with no carried leftover — buffers
/// exactly `frames_of(s)`: one frame per pair of consecutive markers of the
/// whole stream, in order, however the stream was cut.
pub proof fn lemma_stream_frames_in_order(s: Seq<u8>, cuts: Seq<int>)
    requires
        cuts_ok(s, cuts),
    ensures
        run_frames(Seq::empty(), blocks_of(s, cuts)) == frames_of(s),
{
    let blocks = blocks_of(s, cuts);
    lemma_cuts_monotone(s, cuts, 1, cuts.len() - 1);
    assert(cuts[0] < cuts[1]);
    let b0 = s.subrange(cuts[0], cuts[1]);
    let ps0 = marker_positions(b0);
    assert(blocks[0] == b0);
    lemma_no_straddle(s, cuts, 0);
    lemma_no_straddle(s, cuts, 1);
    lemma_positions_below_split(s, 0, cuts[1], cuts[1]);
    let pc1 = positions_below(s, cuts[1]);
    assert(pc1 =~= ps0.map_values(|x: int| x + 0));
    assert forall|j: int| 0 <= j < ps0.len() implies #[trigger] pc1[j] == ps0[j] by {}
    lemma_positions_below_props(b0, b0.len() as int);
    lemma_positions_below_props(s, s.len() as int);
    lemma_positions_below_prefix(s, cuts[1], s.len() as int);
    let pall = marker_positions(s);
    assert(pall.len() >= pc1.len() == ps0.len());
    assert(frames_of(s).len() == pall.len() - 1);
    // the first block's marker pairs are the stream's first frames
    assert forall|j: int| 0 <= j < ps0.len() - 1 implies b0.subrange(#[trigger] ps0[j], ps0[j + 1])
        =~= s.subrange(pall[j], pall[j + 1]) by {
        assert(pall[j] == pc1[j]);
        assert(pall[j + 1] == pc1[j + 1]);
        assert(is_marker_at(b0, ps0[j]) && is_marker_at(b0, ps0[j + 1]));
        assert(ps0[j] < ps0[j + 1] < b0.len());
    }
    assert(block_frames(Seq::<u8>::empty(), b0) =~~= frames_of(s).subrange(0, ps0.len() - 1));
    assert(block_leftover(Seq::<u8>::empty(), b0) =~= s.subrange(pc1.last(), cuts[1])) by {
        assert(pc1.last() == ps0.last());
        assert(ps0.last() < b0.len());
    }
    assert(pc1.len() >= 2);
    lemma_run_frames_from(s, cuts, 1);
    assert(blocks.drop_first() =~= blocks.skip(1));
    assert(run_frames(Seq::empty(), blocks) =~~= frames_of(s));
}

/// Inductive step of [`lemma_stream_frames_in_order`]: from cut `t` onward,
/// with the leftover carried from the first `t` blocks, the run buffers
/// exactly the stream's remaining frames.
#[verifier::rlimit(100)]
proof fn lemma_run_frames_from(s: Seq<u8>, cuts: Seq<int>, t: int)
    requires
        cuts_ok(s, cuts),
        1 <= t < cuts.len(),
        positions_below(s, cuts[t]).len() >= 1,
    ensures
        run_frames(
            s.subrange(positions_below(s, cuts[t]).last(), cuts[t]),
            blocks_of(s, cuts).skip(t),
        ) == frames_of(s).skip(positions_below(s, cuts[t]).len() - 1),
    decreases cuts.len() - t,
{
    let blocks = blocks_of(s, cuts);
    let pall = marker_positions(s);
    let pc = positions_below(s, cuts[t]);
    let m = pc.len() as int;
    let leftover = s.subrange(pc.last(), cuts[t]);
    lemma_cuts_monotone(s, cuts, 0, t);
    lemma_cuts_monotone(s, cuts, t, cuts.len() - 1);
    lemma_positions_below_props(s, s.len() as int);
    lemma_positions_below_props(s, cuts[t]);
    lemma_positions_below_prefix(s, cuts[t], s.len() as int);
    if t == cuts.len() - 1 {
        assert(cuts[t] == s.len());
        assert(pc =~= pall);
        assert(blocks.skip(t) =~= Seq::<Seq<u8>>::empty());
        assert(frames_of(s).skip(m - 1) =~= Seq::<Seq<u8>>::empty());
    } else {
        let c = cuts[t];
        let c2 = cuts[t + 1];
        let b = s.subrange(c, c2);
        lemma_cuts_monotone(s, cuts, t + 1, cuts.len() - 1);
        assert(c < c2 <= s.len());
        lemma_no_straddle(s, cuts, t);
        lemma_no_straddle(s, cuts, t + 1);
        assert(marker_positions(b).len() >= 2);
        lemma_block_step(s, c, c2);
        let pc2 = positions_below(s, c2);
        assert(pc2.len() >= 1);
        lemma_positions_below_prefix(s, c2, s.len() as int);
        assert(pall.len() >= pc2.len());
        assert(frames_of(s).len() == pall.len() - 1);
        lemma_run_frames_from(s, cuts, t + 1);
        assert(blocks.skip(t)[0] == b);
        assert(blocks.skip(t).drop_first() =~= blocks.skip(t + 1));
        assert(run_frames(leftover, blocks.skip(t)) == block_frames(leftover, b) + run_frames(
            block_leftover(leftover, b),
            blocks.skip(t + 1),
        ));
        assert(frames_of(s).skip(m - 1) =~= frames_of(s).subrange(m - 1, pc2.len() - 1)
            + frames_of(s).skip(pc2.len() - 1));
        assert(run_frames(leftover, blocks.skip(t)) == frames_of(s).skip(m - 1));
    }
}

} // verus!
