//! The chunked frame splitter.
//!
//! The container stream is consumed in bounded-size blocks.  Each block is
//! scanned for the fixed frame marker: the region between two consecutive
//! markers is one complete raw frame, the region from the last marker to the
//! end of the block is carried as leftover, and the region before the first
//! marker completes the previous block's leftover into a frame.
//!
//! A block with no marker is malformed ([`SplitError::NoMarkerFound`]); a
//! block with a single marker cannot bound any frame by itself
//! ([`SplitError::InsufficientMarkers`]).  In both error cases this
//! implementation leaves the carried leftover unchanged and buffers no
//! frames: the rejected block's bytes are discarded and the caller must
//! retry with further data.

use vstd::prelude::*;

use crate::bytes::{append_range, copy_range};
use crate::marker::{
    find_markers, is_marker_at, lemma_positions_below_props, marker_positions, positions_below,
};
use crate::stream::{block_frames, block_leftover, lemma_run_snoc, run_frames, run_leftover};

verus! {

/// Why a block could not be split into frames.
#[derive(Clone, Copy, Debug, PartialEq, Eq, Structural)]
pub enum SplitError {
    /// The block contains no occurrence of the frame marker.
    NoMarkerFound,
    /// The block contains exactly one occurrence of the frame marker, so no
    /// pair of markers bounds a complete frame.
    InsufficientMarkers,
}

/// The error of the first block, in order, that cannot be split: one with
/// no marker, or with a single marker.
pub open spec fn first_split_error(blocks: Seq<Seq<u8>>) -> Option<SplitError>
    decreases blocks.len(),
{
    if blocks.len() == 0 {
        None
    } else if marker_positions(blocks[0]).len() == 0 {
        Some(SplitError::NoMarkerFound)
    } else if marker_positions(blocks[0]).len() == 1 {
        Some(SplitError::InsufficientMarkers)
    } else {
        first_split_error(blocks.drop_first())
    }
}

/// The stateful frame splitter: buffered frames from the current block and
/// the unresolved tail bytes carried to the next block.
pub struct CSQReader {
    /// Bytes from the last marker of the previous block to its end, still
    /// waiting for the next block's first marker to bound them.
    pub leftover: Vec<u8>,
    /// Complete raw frames recovered from the current block.
    pub imgs: Vec<Vec<u8>>,
    /// How many of `imgs` have already been handed out.
    pub index: usize,
}

impl CSQReader {
    /// A fresh splitter with no carried bytes and no buffered frames.
    pub fn new() -> (r: CSQReader)
        ensures
            r.leftover@.len() == 0,
            r.imgs@.len() == 0,
            r.index == 0,
    {
        CSQReader { leftover: Vec::new(), imgs: Vec::new(), index: 0 }
    }

    /// True when every buffered frame has been handed out, so the caller
    /// must read and split another block before the next frame.
    pub fn needs_refill(&self) -> (r: bool)
        ensures
            r == (self.index >= self.imgs@.len()),
    {
        self.index >= self.imgs.len()
    }

    /// Splits one freshly read block into frames.
    ///
    /// On success the buffered frames are: the carried leftover completed by
    /// the bytes up to the block's first marker (only when a leftover was
    /// carried; with no leftover those bytes precede the stream's first
    /// marker and are discarded), then one frame per pair of consecutive
    /// markers; the bytes from the last marker onward become the new
    /// leftover.  On error no frame is buffered and the leftover is kept
    /// unchanged.
    pub fn populate_list(&mut self, block: &Vec<u8>) -> (r: Result<(), SplitError>)
        ensures
            final(self).index == 0,
            r is Ok ==> final(self).imgs@.map_values(|v: Vec<u8>| v@) == block_frames(
                old(self).leftover@,
                block@,
            ),
            final(self).leftover@ == block_leftover(old(self).leftover@, block@),
            ({
                let ps = marker_positions(block@);
                let carry = old(self).leftover@.len() > 0;
                let base: int = if carry { 1int } else { 0int };
                match r {
                    Ok(()) => {
                        &&& ps.len() >= 2
                        &&& final(self).leftover@ == block@.subrange(
                            ps[ps.len() - 1],
                            block@.len() as int,
                        )
                        &&& final(self).imgs@.len() == base + ps.len() - 1
                        &&& (carry ==> final(self).imgs@[0]@ == old(self).leftover@
                            + block@.subrange(0, ps[0]))
                        &&& forall|j: int|
                            base <= j < final(self).imgs@.len()
                                ==> (#[trigger] final(self).imgs@[j])@
                                == block@.subrange(ps[j - base], ps[j - base + 1])
                    },
                    Err(SplitError::NoMarkerFound) => {
                        &&& ps.len() == 0
                        &&& final(self).imgs@.len() == 0
                        &&& final(self).leftover@ == old(self).leftover@
                    },
                    Err(SplitError::InsufficientMarkers) => {
                        &&& ps.len() == 1
                        &&& final(self).imgs@.len() == 0
                        &&& final(self).leftover@ == old(self).leftover@
                    },
                }
            }),
    {
        self.imgs = Vec::new();
        self.index = 0;
        let ms = find_markers(block);
        proof {
            lemma_positions_below_props(block@, block@.len() as int);
        }
        if ms.len() == 0 {
            return Err(SplitError::NoMarkerFound);
        }
        if ms.len() == 1 {
            return Err(SplitError::InsufficientMarkers);
        }
        let ghost ps = marker_positions(block@);
        let ghost old_leftover = self.leftover@;
        let ghost base: int = if old_leftover.len() > 0 { 1int } else { 0int };
        if self.leftover.len() > 0 {
            let mut head = copy_range(&self.leftover, 0, self.leftover.len());
            assert(head@ =~= old_leftover);
            append_range(&mut head, block, 0, ms[0]);
            self.imgs.push(head);
        }
        let mut k: usize = 0;
        while k < ms.len() - 1
            invariant
                ms@.len() == ps.len(),
                ps == marker_positions(block@),
                forall|j: int| 0 <= j < ms@.len() ==> ms@[j] as int == ps[j],
                forall|j: int|
                    0 <= j < ps.len() ==> is_marker_at(block@, #[trigger] ps[j]) && ps[j]
                        < block@.len(),
                forall|j: int, l: int| 0 <= j < l < ps.len() ==> ps[j] < ps[l],
                ps.len() >= 2,
                k <= ps.len() - 1,
                self.leftover@ == old_leftover,
                self.index == 0,
                base == if old_leftover.len() > 0 { 1int } else { 0int },
                self.imgs@.len() == base + k,
                old_leftover.len() > 0 ==> self.imgs@[0]@ == old_leftover + block@.subrange(
                    0,
                    ps[0],
                ),
                forall|j: int|
                    base <= j < self.imgs@.len() ==> (#[trigger] self.imgs@[j])@
                        == block@.subrange(ps[j - base], ps[j - base + 1]),
            decreases ms@.len() - k,
        {
            proof {
                assert(ps[k as int] < ps[k as int + 1]);
                assert(ps[k as int + 1] < block@.len());
                assert(ms@[k as int] as int == ps[k as int]);
                assert(ms@[k as int + 1] as int == ps[k as int + 1]);
            }
            let f = copy_range(block, ms[k], ms[k + 1]);
            self.imgs.push(f);
            k += 1;
        }
        self.leftover = copy_range(block, ms[ms.len() - 1], block.len());
        proof {
            assert(self.imgs@.map_values(|v: Vec<u8>| v@) =~~= block_frames(
                old_leftover,
                block@,
            ));
        }
        Ok(())
    }

    /// Hands out the next buffered frame, or `None` when the current block
    /// is exhausted and a refill is needed.
    pub fn next_raw_frame(&mut self) -> (r: Option<Vec<u8>>)
        ensures
            if old(self).index < old(self).imgs@.len() {
                &&& match r {
                    Some(f) => f@ == old(self).imgs@[old(self).index as int]@,
                    None => false,
                }
                &&& final(self).index == old(self).index + 1
                &&& final(self).imgs == old(self).imgs
                &&& final(self).leftover == old(self).leftover
            } else {
                &&& r is None
                &&& *final(self) == *old(self)
            },
    {
        if self.index < self.imgs.len() {
            let f = copy_range(&self.imgs[self.index], 0, self.imgs[self.index].len());
            assert(f@ =~= self.imgs@[self.index as int]@);
            self.index = self.index + 1;
            Some(f)
        } else {
            None
        }
    }
}

/// Splits a whole stream, given as the sequence of blocks read from it,
/// into every recovered frame, in stream order.  The first block that
/// cannot be split stops the run with that block's error.
pub fn collect_frames(blocks: &Vec<Vec<u8>>) -> (r: Result<Vec<Vec<u8>>, SplitError>)
    ensures
        ({
            let bb = blocks@.map_values(|b: Vec<u8>| b@);
            match r {
                Ok(frames) => {
                    &&& first_split_error(bb) is None
                    &&& frames@.map_values(|v: Vec<u8>| v@) == run_frames(Seq::empty(), bb)
                },
                Err(e) => first_split_error(bb) == Some(e),
            }
        }),
{
    let ghost bb = blocks@.map_values(|b: Vec<u8>| b@);
    let mut reader = CSQReader::new();
    let mut out: Vec<Vec<u8>> = Vec::new();
    let mut t: usize = 0;
    proof {
        assert(bb.take(0) =~= Seq::<Seq<u8>>::empty());
        assert(out@.map_values(|v: Vec<u8>| v@) =~= run_frames(Seq::empty(), bb.take(0)));
        assert(bb.skip(0) =~= bb);
    }
    while t < blocks.len()
        invariant
            t <= blocks@.len(),
            bb == blocks@.map_values(|b: Vec<u8>| b@),
            first_split_error(bb) == first_split_error(bb.skip(t as int)),
            out@.map_values(|v: Vec<u8>| v@) == run_frames(Seq::empty(), bb.take(t as int)),
            reader.leftover@ == run_leftover(Seq::empty(), bb.take(t as int)),
        decreases blocks@.len() - t,
    {
        proof {
            assert(bb.skip(t as int)[0] == bb[t as int]);
            assert(bb[t as int] == blocks@[t as int]@);
        }
        let ghost lo = reader.leftover@;
        match reader.populate_list(&blocks[t]) {
            Ok(()) => {},
            Err(e) => {
                return Err(e);
            },
        }
        proof {
            assert(bb.skip(t as int).drop_first() =~= bb.skip(t as int + 1));
            assert(reader.imgs@.map_values(|v: Vec<u8>| v@).take(0) =~= Seq::<Seq<u8>>::empty());
            assert(out@.map_values(|v: Vec<u8>| v@) + Seq::<Seq<u8>>::empty() =~= out@.map_values(
                |v: Vec<u8>| v@,
            ));
        }
        loop
            invariant
                reader.index <= reader.imgs@.len(),
                reader.leftover@ == block_leftover(lo, bb[t as int]),
                reader.imgs@.map_values(|v: Vec<u8>| v@) == block_frames(lo, bb[t as int]),
                out@.map_values(|v: Vec<u8>| v@) == run_frames(Seq::empty(), bb.take(t as int))
                    + reader.imgs@.map_values(|v: Vec<u8>| v@).take(reader.index as int),
            ensures
                reader.leftover@ == block_leftover(lo, bb[t as int]),
                out@.map_values(|v: Vec<u8>| v@) == run_frames(Seq::empty(), bb.take(t as int))
                    + block_frames(lo, bb[t as int]),
            decreases reader.imgs@.len() - reader.index,
        {
            let ghost prev = out@.map_values(|v: Vec<u8>| v@);
            let ghost imgs_map = reader.imgs@.map_values(|v: Vec<u8>| v@);
            let ghost idx = reader.index as int;
            match reader.next_raw_frame() {
                Some(f) => {
                    out.push(f);
                    proof {
                        assert(imgs_map.take(idx + 1) =~= imgs_map.take(idx).push(imgs_map[idx]));
                        assert(out@.map_values(|v: Vec<u8>| v@) =~= prev.push(f@));
                        assert(run_frames(Seq::empty(), bb.take(t as int)) + imgs_map.take(idx + 1)
                            =~= (run_frames(Seq::empty(), bb.take(t as int)) + imgs_map.take(
                            idx,
                        )).push(imgs_map[idx]));
                    }
                },
                None => {
                    proof {
                        assert(reader.imgs@.map_values(|v: Vec<u8>| v@).take(
                            reader.imgs@.len() as int,
                        ) =~= reader.imgs@.map_values(|v: Vec<u8>| v@));
                    }
                    break;
                },
            }
        }
        proof {
            lemma_run_snoc(Seq::empty(), bb.take(t as int), bb[t as int]);
            assert(bb.take(t as int).push(bb[t as int]) =~= bb.take(t as int + 1));
        }
        t += 1;
    }
    proof {
        assert(bb.take(bb.len() as int) =~= bb);
        assert(bb.skip(bb.len() as int) =~= Seq::<Seq<u8>>::empty());
    }
    Ok(out)
}

} // verus!
