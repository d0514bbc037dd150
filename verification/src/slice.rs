//! A slice: an immutable contiguous range of a shared frame buffer with a
//! mutable playback cursor.
//!
//! A slice stores no audio itself, only the `[start, end)` range it covers
//! and how far into that range playback has advanced.

use vstd::prelude::*;
use crate::envelope;
use crate::envelope::{SLICE_FADE_IN, SLICE_FADE_OUT};

verus! {

/// One playback grain over a shared frame buffer.
#[derive(Debug, Clone, Copy, PartialEq, Eq, Structural)]
pub struct Slice {
    /// Identifier of the slice within its map.
    pub id: usize,
    /// First frame index covered, inclusive.
    pub start: usize,
    /// Last frame index covered, exclusive.
    pub end: usize,
    /// Playback position within the slice, counted from `start`.
    pub cursor: usize,
}

/// What one call to [`Slice::next_frame`] produced: the frame read from the
/// buffer (`None` for silence) and the envelope gain to scale it by, in
/// units of [`crate::GAIN_ONE`].
#[derive(Debug, Clone, Copy)]
pub struct FrameOut<F> {
    /// The raw frame, or `None` when the slice yields silence.
    pub sample: Option<F>,
    /// Fixed-point amplitude to apply to the frame.
    pub gain: u64,
}

/// The effective slice length the fade-out ramp is measured against: when
/// playback runs faster than recorded the audible portion shrinks by the
/// tempo ratio, otherwise it is the full length.
pub open spec fn spec_eff_len(len: int, global_tempo: int, original_tempo: int) -> int {
    if global_tempo >= original_tempo {
        len * original_tempo / global_tempo
    } else {
        len
    }
}

impl Slice {
    /// Number of frames the slice covers.
    pub open spec fn spec_len(self) -> int {
        self.end - self.start
    }

    /// Structural invariant: the range is ordered and the cursor has not
    /// run past the end of the slice.
    pub open spec fn wf(self) -> bool {
        &&& self.start <= self.end
        &&& self.cursor <= self.end - self.start
    }

    /// Number of frames the slice covers.
    pub fn len(&self) -> (r: usize)
        requires
            self.start <= self.end,
        ensures
            r == self.spec_len(),
    {
        self.end - self.start
    }

    /// Whether the cursor has consumed the whole slice.
    pub fn is_consumed(&self) -> (r: bool)
        requires
            self.start <= self.end,
        ensures
            r == (self.cursor >= self.spec_len()),
    {
        self.cursor >= self.len()
    }

    /// How many frames are left before the slice is consumed.
    pub fn remaining(&self) -> (r: usize)
        requires
            self.start <= self.end,
        ensures
            r == if self.cursor < self.spec_len() {
                self.spec_len() - self.cursor
            } else {
                0
            },
    {
        if !self.is_consumed() {
            return self.len() - self.cursor;
        }
        0
    }

    /// Produce the frame under the cursor and advance the cursor one step
    /// (the cursor parks at the end once the slice is consumed).
    ///
    /// The frame read out of `frames` is returned unscaled together with
    /// the envelope gain for the new cursor position: the rising ramp over
    /// the first [`SLICE_FADE_IN`] samples, the falling ramp over the last
    /// [`SLICE_FADE_OUT`] samples of the effective length, and the makeup
    /// gain. A consumed slice, and an out-of-range read, yield silence.
    pub fn next_frame<F: Copy>(
        &mut self,
        global_tempo: u64,
        original_tempo: u64,
        frames: &Vec<F>,
    ) -> (out: FrameOut<F>)
        requires
            old(self).wf(),
            original_tempo >= 1,
        ensures
            final(self).wf(),
            final(self).id == old(self).id,
            final(self).start == old(self).start,
            final(self).end == old(self).end,
            final(self).cursor == if old(self).cursor < old(self).spec_len() {
                old(self).cursor + 1
            } else {
                old(self).cursor as int
            },
            out.sample == if old(self).cursor < old(self).spec_len()
                && old(self).start + old(self).cursor < frames.len() {
                Some(frames[old(self).start + old(self).cursor])
            } else {
                None::<F>
            },
            out.gain == envelope::spec_slice_gain(
                final(self).cursor as int,
                spec_eff_len(old(self).spec_len(), global_tempo as int, original_tempo as int),
            ),
            out.gain <= envelope::MAKEUP_GAIN,
    {
        let mut sample: Option<F> = None;

        if !self.is_consumed() {
            let frame_index: usize = self.cursor + self.start;
            if frame_index < frames.len() {
                sample = Some(frames[frame_index]);
            }
        }

        // advance, parking at the end of the slice once it is consumed
        if self.cursor < self.end - self.start {
            self.cursor = self.cursor + 1;
        }

        // the audible length shrinks when playing faster than recorded
        let len: usize = self.len();
        let eff_len: usize = if global_tempo >= original_tempo {
            proof {
                vstd::arithmetic::mul::lemma_mul_upper_bound(
                    len as int,
                    usize::MAX as int,
                    original_tempo as int,
                    u64::MAX as int,
                );
                vstd::arithmetic::mul::lemma_mul_inequality(
                    original_tempo as int,
                    global_tempo as int,
                    len as int,
                );
                vstd::arithmetic::mul::lemma_mul_is_commutative(
                    len as int,
                    original_tempo as int,
                );
                vstd::arithmetic::mul::lemma_mul_is_commutative(
                    len as int,
                    global_tempo as int,
                );
                vstd::arithmetic::div_mod::lemma_div_is_ordered(
                    len as int * original_tempo as int,
                    len as int * global_tempo as int,
                    global_tempo as int,
                );
                vstd::arithmetic::div_mod::lemma_div_multiples_vanish(
                    len as int,
                    global_tempo as int,
                );
                vstd::arithmetic::div_mod::lemma_div_pos_is_pos(
                    len as int * original_tempo as int,
                    global_tempo as int,
                );
            }
            ((len as u128) * (original_tempo as u128) / (global_tempo as u128)) as usize
        } else {
            len
        };

        FrameOut { sample, gain: envelope::slice_gain(self.cursor, eff_len) }
    }
}

} // verus!
