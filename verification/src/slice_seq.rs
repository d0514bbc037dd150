//! The slice sequencer: owns the local audio buffer copy, the clock, the
//! active slice maps, and the pending swap/transform state.
//!
//! An external tick re-anchors the clock; per produced frame the clock
//! advances fractionally; the sequencer resolves which slice covers the
//! clock position and lets it yield one enveloped frame. Buffer swaps and
//! transforms are deferred to slice boundaries.

use vstd::prelude::*;
use crate::envelope::MicroFadeOut;
use crate::shuffle;
use crate::slice::{FrameOut, Slice, spec_eff_len};
use crate::slice_map::{
    SliceMap, quant_count, spec_sel_index, sel_position, swapped_by, strictly_ascending,
};
use crate::smart_buffer::{PositionsMode, SmartBuffer, same_buffer};

verus! {

/// Ticks per quarter note of the external clock.
pub const PPQN: u64 = 24;

/// Fixed output sample rate, in frames per second.
pub const SAMPLE_RATE: u64 = 44_100;

/// A live reordering transform applied to the playing slice map.
#[derive(Debug, Clone, Copy, PartialEq, Eq, Structural)]
pub enum TransformType {
    /// Reset slices to original order.
    Reset(),
    /// Swap all the slices randomly, keeping the timing slots.
    RandSwap(),
    /// Repeat one slice at every multiple of a quantization step.
    QuantRepeat {
        /// Repeat period in samples.
        quant: usize,
        /// Key of the slice to repeat.
        slice_index: usize,
    },
}

/// The slice sequencer state machine.
pub struct SliceSeq<F> {
    /// Tick count of the last sync from the external clock.
    pub ticks: u64,
    /// Tempo of the external clock at the last sync, in beats per minute.
    pub global_tempo: u64,
    /// Frames produced since the last sync; stands in for the fractional
    /// elapsed-frame counter, which is `frames_since_sync` times the
    /// playback rate.
    pub frames_since_sync: u64,
    /// The local copy of the audio buffer, swapped only at slice
    /// boundaries so playback never reads a half-replaced buffer.
    pub local_sbuffer: Option<SmartBuffer<F>>,
    /// Which onset list slices are cut along.
    pub positions_mode: PositionsMode,
    /// Slices in original buffer order, rebuilt on every load.
    pub slices_orig: SliceMap,
    /// Scratch map reserved for transform staging.
    pub slices_temp: SliceMap,
    /// The slices playback currently draws from.
    pub slices_playing: SliceMap,
    /// The currently selected `(key, slice)` pair being consumed.
    pub curr_slice: (usize, Slice),
    /// A deferred buffer swap: the onset key covering the candidate
    /// buffer's clock at request time, and the following onset key.
    pub next_buffer_change: Option<(usize, usize)>,
    /// A latched transform, applied at the next slice boundary.
    pub next_transform: Option<TransformType>,
    /// A short fade to silence masking discontinuities, when armed.
    pub micro_fade_out: Option<MicroFadeOut>,
    /// The owned, seeded generator driving the random-swap transform.
    pub rng: rand::rngs::StdRng,
}

/// Every slice stored in the map is structurally sound.
pub open spec fn slices_values_wf(m: SliceMap) -> bool {
    forall|k: usize| m@.dom().contains(k) ==> (#[trigger] m@[k]).wf()
}

/// The frame position `ticks` ticks reach at `tempo`, wrapped into a
/// buffer of `frames_len` frames at the fixed sample rate.
pub open spec fn spec_wrapped_clock(ticks: int, tempo: int, frames_len: int) -> int {
    (ticks * 60 * (SAMPLE_RATE as int)) / (tempo * (PPQN as int)) % frames_len
}

/// The slice cut along the onset list `pos` at position `i`: it covers
/// `[pos[i], pos[i+1])`, carries id `i`, and starts rewound.
pub open spec fn slice_at(pos: Seq<usize>, i: int) -> Slice {
    Slice { id: i as usize, start: pos[i], end: pos[i + 1], cursor: 0 }
}

/// A slice map holds exactly the slices cut along the onset list `pos`:
/// one per adjacent onset pair, keyed at the left onset.
pub open spec fn rebuilt_from(m: SliceMap, pos: Seq<usize>) -> bool {
    &&& m.ord() == pos.drop_last()
    &&& forall|i: int| 0 <= i < pos.len() - 1 ==> m@[pos[i]] == #[trigger] slice_at(pos, i)
}

impl<F: Copy> SliceSeq<F> {
    /// The sequencer is in a usable state: maps hold their invariant and
    /// sound slices, and once a buffer is loaded it is non-empty and the
    /// maps are populated.
    pub open spec fn wf(self) -> bool {
        &&& self.slices_orig.wf()
        &&& self.slices_temp.wf()
        &&& self.slices_playing.wf()
        &&& slices_values_wf(self.slices_orig)
        &&& slices_values_wf(self.slices_playing)
        &&& self.curr_slice.1.wf()
        &&& match self.local_sbuffer {
            Some(b) => b.wf() && b.frames@.len() > 0 && self.slices_playing.ord().len() > 0
                && self.slices_orig.ord().len() > 0,
            None => true,
        }
        &&& match self.micro_fade_out {
            Some(f) => f.wf(),
            None => true,
        }
    }

    /// The whole-frame part of the fractional elapsed-frame counter: the
    /// frames produced since the last sync, scaled by the playback rate.
    pub open spec fn spec_elapsed(self) -> int {
        match self.local_sbuffer {
            Some(b) => (self.frames_since_sync as int) * (self.global_tempo as int)
                / (b.original_tempo as int),
            None => 0,
        }
    }

    /// The frame position within the local buffer: ticks converted to
    /// frames at the buffer's original tempo, wrapped modulo the buffer
    /// length, plus the elapsed frames since the last tick (saturating at
    /// the integer limit; 0 with no buffer loaded).
    pub open spec fn spec_local_clock(self) -> int {
        match self.local_sbuffer {
            Some(b) => {
                let c = spec_wrapped_clock(
                    self.ticks as int,
                    b.original_tempo as int,
                    b.frames@.len() as int,
                ) + self.spec_elapsed();
                if c > u64::MAX as int {
                    u64::MAX as int
                } else {
                    c
                }
            },
            None => 0,
        }
    }

    /// The playback rate as the exact ratio `global_tempo /
    /// original_tempo`, or the neutral ratio with no buffer loaded.
    pub open spec fn spec_playback_rate(self) -> (u64, u64) {
        match self.local_sbuffer {
            Some(b) => (self.global_tempo, b.original_tempo),
            None => (120, 120),
        }
    }

    /// A fresh sequencer: nothing loaded, neutral tempo, empty maps, and a
    /// shuffle generator seeded from `seed`.
    pub fn new(seed: u64) -> (r: SliceSeq<F>)
        ensures
            r.wf(),
            r.ticks == 0,
            r.global_tempo == 120,
            r.frames_since_sync == 0,
            r.local_sbuffer is None,
            r.positions_mode == PositionsMode::Bar8Mode(),
            r.slices_orig.ord() == Seq::<usize>::empty(),
            r.slices_orig@ == Map::<usize, Slice>::empty(),
            r.slices_temp.ord() == Seq::<usize>::empty(),
            r.slices_temp@ == Map::<usize, Slice>::empty(),
            r.slices_playing.ord() == Seq::<usize>::empty(),
            r.slices_playing@ == Map::<usize, Slice>::empty(),
            r.curr_slice == (0usize, Slice { id: 0, start: 0, end: 0, cursor: 0 }),
            r.next_buffer_change is None,
            r.next_transform is None,
            r.micro_fade_out is None,
    {
        SliceSeq {
            ticks: 0,
            global_tempo: 120,
            frames_since_sync: 0,
            local_sbuffer: None,
            positions_mode: PositionsMode::Bar8Mode(),
            slices_orig: SliceMap::new(),
            slices_temp: SliceMap::new(),
            slices_playing: SliceMap::new(),
            curr_slice: (0, Slice { id: 0, start: 0, end: 0, cursor: 0 }),
            next_buffer_change: None,
            next_transform: None,
            micro_fade_out: None,
            rng: shuffle::rng_from_seed(seed),
        }
    }

    /// Record the external tick and tempo and re-anchor the fine clock by
    /// resetting the elapsed-frame counter.
    pub fn sync(&mut self, global_tempo: u64, ticks: u64)
        ensures
            final(self).ticks == ticks,
            final(self).global_tempo == global_tempo,
            final(self).frames_since_sync == 0,
            final(self).local_sbuffer == old(self).local_sbuffer,
            final(self).positions_mode == old(self).positions_mode,
            final(self).slices_orig == old(self).slices_orig,
            final(self).slices_temp == old(self).slices_temp,
            final(self).slices_playing == old(self).slices_playing,
            final(self).curr_slice == old(self).curr_slice,
            final(self).next_buffer_change == old(self).next_buffer_change,
            final(self).next_transform == old(self).next_transform,
            final(self).micro_fade_out == old(self).micro_fade_out,
            final(self).rng == old(self).rng,
            old(self).wf() ==> final(self).wf(),
    {
        self.ticks = ticks;
        self.global_tempo = global_tempo;
        self.frames_since_sync = 0;
    }

    /// Count one produced frame towards the fractional clock, saturating
    /// rather than wrapping.
    pub fn new_frame(&mut self)
        ensures
            final(self).frames_since_sync == if old(self).frames_since_sync < u64::MAX {
                old(self).frames_since_sync + 1
            } else {
                old(self).frames_since_sync as int
            },
            final(self).ticks == old(self).ticks,
            final(self).global_tempo == old(self).global_tempo,
            final(self).local_sbuffer == old(self).local_sbuffer,
            final(self).positions_mode == old(self).positions_mode,
            final(self).slices_orig == old(self).slices_orig,
            final(self).slices_temp == old(self).slices_temp,
            final(self).slices_playing == old(self).slices_playing,
            final(self).curr_slice == old(self).curr_slice,
            final(self).next_buffer_change == old(self).next_buffer_change,
            final(self).next_transform == old(self).next_transform,
            final(self).micro_fade_out == old(self).micro_fade_out,
            final(self).rng == old(self).rng,
            old(self).wf() ==> final(self).wf(),
    {
        if self.frames_since_sync < u64::MAX {
            self.frames_since_sync = self.frames_since_sync + 1;
        }
    }

    /// Latch a transform (or clear the latch) to be applied at the next
    /// slice boundary.
    pub fn push_transform(&mut self, t: Option<TransformType>)
        ensures
            final(self).next_transform == t,
            final(self).ticks == old(self).ticks,
            final(self).global_tempo == old(self).global_tempo,
            final(self).frames_since_sync == old(self).frames_since_sync,
            final(self).local_sbuffer == old(self).local_sbuffer,
            final(self).positions_mode == old(self).positions_mode,
            final(self).slices_orig == old(self).slices_orig,
            final(self).slices_temp == old(self).slices_temp,
            final(self).slices_playing == old(self).slices_playing,
            final(self).curr_slice == old(self).curr_slice,
            final(self).next_buffer_change == old(self).next_buffer_change,
            final(self).micro_fade_out == old(self).micro_fade_out,
            final(self).rng == old(self).rng,
            old(self).wf() ==> final(self).wf(),
    {
        self.next_transform = t;
    }

    /// The current playback rate as a tempo ratio.
    pub fn playback_rate(&self) -> (r: (u64, u64))
        ensures
            r == self.spec_playback_rate(),
    {
        match &self.local_sbuffer {
            Some(lb) => (self.global_tempo, lb.original_tempo),
            None => (120, 120),
        }
    }

    /// The clock in frames, scaled and wrapped according to the local
    /// buffer. With the counter freshly reset by a sync, the result always
    /// lies inside the buffer.
    pub fn get_local_clock(&self) -> (r: u64)
        requires
            self.wf(),
        ensures
            r == self.spec_local_clock(),
            match self.local_sbuffer {
                Some(b) => self.frames_since_sync == 0 ==> r < b.frames@.len(),
                None => r == 0,
            },
    {
        match &self.local_sbuffer {
            Some(lb) => {
                let len: usize = lb.frames.len();
                let num: u128 = (self.ticks as u128) * 2_646_000u128;
                let den: u128 = (lb.original_tempo as u128) * 24u128;
                proof {
                    assert(num == self.ticks as int * 60 * (SAMPLE_RATE as int));
                    assert(den == lb.original_tempo as int * (PPQN as int));
                }
                let wrapped: u128 = (num / den) % (len as u128);
                proof {
                    vstd::arithmetic::div_mod::lemma_mod_bound(
                        (num / den) as int,
                        len as int,
                    );
                    vstd::arithmetic::div_mod::lemma_div_pos_is_pos(num as int, den as int);
                    vstd::arithmetic::mul::lemma_mul_upper_bound(
                        self.frames_since_sync as int,
                        u64::MAX as int,
                        self.global_tempo as int,
                        u64::MAX as int,
                    );
                }
                let elapsed: u128 = (self.frames_since_sync as u128)
                    * (self.global_tempo as u128) / (lb.original_tempo as u128);
                proof {
                    vstd::arithmetic::div_mod::lemma_div_pos_is_pos(
                        self.frames_since_sync as int * self.global_tempo as int,
                        lb.original_tempo as int,
                    );
                    vstd::arithmetic::div_mod::lemma_div_nonincreasing(
                        self.frames_since_sync as int * self.global_tempo as int,
                        lb.original_tempo as int,
                    );
                    if self.frames_since_sync == 0 {
                        vstd::arithmetic::div_mod::lemma_div_of0(lb.original_tempo as int);
                    }
                }
                let total: u128 = wrapped + elapsed;
                if total > u64::MAX as u128 {
                    u64::MAX
                } else {
                    total as u64
                }
            },
            None => 0,
        }
    }

    /// The clock in frames, scaled and wrapped according to a candidate
    /// buffer: where playback would sit if a pending swap to that buffer
    /// were already committed.
    pub fn get_next_clock(&self, next: &SmartBuffer<F>) -> (r: u64)
        requires
            next.wf(),
            next.frames@.len() > 0,
        ensures
            r == spec_wrapped_clock(
                self.ticks as int,
                next.original_tempo as int,
                next.frames@.len() as int,
            ),
            r < next.frames@.len(),
    {
        let len: usize = next.frames.len();
        let num: u128 = (self.ticks as u128) * 2_646_000u128;
        let den: u128 = (next.original_tempo as u128) * 24u128;
        proof {
            assert(num == self.ticks as int * 60 * (SAMPLE_RATE as int));
            assert(den == next.original_tempo as int * (PPQN as int));
        }
        let wrapped: u128 = (num / den) % (len as u128);
        proof {
            vstd::arithmetic::div_mod::lemma_mod_bound((num / den) as int, len as int);
            vstd::arithmetic::div_mod::lemma_div_pos_is_pos(num as int, den as int);
        }
        wrapped as u64
    }

    /// Copy a buffer into the local slot (allocating only the first time),
    /// rebuild the canonical slices from its onset list for the active
    /// mode, and reset the playing map to exactly that rebuilt original —
    /// discarding any previously applied transform.
    #[verifier::rlimit(60)]
    pub fn do_load_buffer(&mut self, buffer: &SmartBuffer<F>)
        requires
            old(self).wf(),
            buffer.wf(),
            buffer.frames@.len() > 0,
        ensures
            final(self).wf(),
            final(self).local_sbuffer matches Some(b) && same_buffer(b, *buffer),
            final(self).slices_orig.wf(),
            rebuilt_from(
                final(self).slices_orig,
                buffer.positions@[old(self).positions_mode.spec_mode_index()]@,
            ),
            final(self).slices_playing@ == final(self).slices_orig@,
            final(self).slices_playing.ord() == final(self).slices_orig.ord(),
            final(self).ticks == old(self).ticks,
            final(self).global_tempo == old(self).global_tempo,
            final(self).frames_since_sync == old(self).frames_since_sync,
            final(self).positions_mode == old(self).positions_mode,
            final(self).slices_temp == old(self).slices_temp,
            final(self).curr_slice == old(self).curr_slice,
            final(self).next_buffer_change == old(self).next_buffer_change,
            final(self).next_transform == old(self).next_transform,
            final(self).micro_fade_out == old(self).micro_fade_out,
            final(self).rng == old(self).rng,
    {
        let loaded: bool = self.local_sbuffer.is_some();
        if loaded {
            match &mut self.local_sbuffer {
                Some(local) => local.copy_from(buffer),
                None => (),
            }
        } else {
            let mut fresh: SmartBuffer<F> = SmartBuffer::new_empty();
            fresh.copy_from(buffer);
            self.local_sbuffer = Some(fresh);
        }

        let mode_idx: usize = self.positions_mode.mode_index();
        let positions: &Vec<usize> = &buffer.positions[mode_idx];
        rebuild_slices(&mut self.slices_orig, positions);
        self.slices_playing.copy_from(&self.slices_orig);
    }
}

impl<F: Copy> SliceSeq<F> {
    /// Length of the local buffer, 0 when none is loaded.
    pub open spec fn spec_local_len(self) -> int {
        match self.local_sbuffer {
            Some(b) => b.frames@.len() as int,
            None => 0,
        }
    }

    /// Whether a pending buffer swap must commit now: the onset covering
    /// the candidate buffer's wrapped clock differs from the onset
    /// captured when the swap was requested — the boundary was crossed.
    pub open spec fn spec_swap_due(self, gen: SmartBuffer<F>) -> bool {
        match self.next_buffer_change {
            Some(ch) => {
                let pos = gen.positions@[self.positions_mode.spec_mode_index()]@;
                let w = spec_wrapped_clock(
                    self.ticks as int,
                    gen.original_tempo as int,
                    gen.frames@.len() as int,
                );
                pos[spec_sel_index(pos, w)] != ch.0
            },
            None => false,
        }
    }

    /// Advance the sequencing state by one step: commit a pending buffer
    /// swap once its boundary is crossed, and re-resolve which slice the
    /// clock selects — applying a latched transform exactly when the
    /// selection crosses a slice boundary.
    pub fn update(&mut self, gen_buffer: &SmartBuffer<F>)
        requires
            old(self).wf(),
            gen_buffer.wf(),
            old(self).local_sbuffer is Some ==> gen_buffer.frames@.len() > 0,
        ensures
            final(self).wf(),
            final(self).ticks == old(self).ticks,
            final(self).global_tempo == old(self).global_tempo,
            final(self).frames_since_sync == old(self).frames_since_sync,
            final(self).positions_mode == old(self).positions_mode,
            final(self).slices_temp == old(self).slices_temp,
            old(self).local_sbuffer is None ==> *final(self) == *old(self),
            old(self).local_sbuffer is Some ==> {
                let due = old(self).spec_swap_due(*gen_buffer);
                &&& (due ==> {
                    &&& final(self).local_sbuffer matches Some(b) && same_buffer(b, *gen_buffer)
                    &&& rebuilt_from(
                        final(self).slices_orig,
                        gen_buffer.positions@[old(self).positions_mode.spec_mode_index()]@,
                    )
                    &&& final(self).next_buffer_change is None
                    &&& final(self).micro_fade_out is None
                })
                &&& (!due ==> {
                    &&& final(self).local_sbuffer == old(self).local_sbuffer
                    &&& final(self).slices_orig == old(self).slices_orig
                    &&& final(self).next_buffer_change == old(self).next_buffer_change
                    &&& final(self).micro_fade_out == old(self).micro_fade_out
                })
                &&& {
                    let clock = final(self).spec_local_clock();
                    let mid_ord = if due {
                        final(self).slices_orig.ord()
                    } else {
                        old(self).slices_playing.ord()
                    };
                    let key1 = mid_ord[spec_sel_index(mid_ord, clock)];
                    if key1 == old(self).curr_slice.0 {
                        &&& final(self).curr_slice == old(self).curr_slice
                        &&& final(self).next_transform == old(self).next_transform
                        &&& (due ==> final(self).slices_playing@ == final(self).slices_orig@
                            && final(self).slices_playing.ord() == final(self).slices_orig.ord())
                        &&& (!due ==> final(self).slices_playing == old(self).slices_playing)
                    } else {
                        &&& final(self).next_transform is None
                        &&& final(self).curr_slice.0 == final(self).slices_playing.ord()[
                            spec_sel_index(final(self).slices_playing.ord(), clock)
                        ]
                        &&& final(self).curr_slice.1 == final(self).slices_playing@[
                            final(self).curr_slice.0
                        ]
                        &&& match old(self).next_transform {
                            None => {
                                &&& (due ==> final(self).slices_playing@
                                    == final(self).slices_orig@
                                    && final(self).slices_playing.ord()
                                    == final(self).slices_orig.ord())
                                &&& (!due ==> final(self).slices_playing
                                    == old(self).slices_playing)
                            },
                            Some(t) => spec_transform_applied(
                                if due {
                                    final(self).slices_orig
                                } else {
                                    old(self).slices_playing
                                },
                                final(self).slices_orig,
                                final(self).slices_playing,
                                t,
                                final(self).spec_local_len(),
                            ),
                        }
                    }
                }
            },
    {
        if self.local_sbuffer.is_none() {
            return;
        }

        // a pending buffer swap commits the moment the candidate buffer's
        // clock leaves the onset captured at request time
        let pending: Option<(usize, usize)> = self.next_buffer_change;
        if let Some((change_req_idx, _next_idx)) = pending {
            let wrapped: u64 = self.get_next_clock(gen_buffer);
            let mode_idx: usize = self.positions_mode.mode_index();
            let next_buff_positions: &Vec<usize> = &gen_buffer.positions[mode_idx];
            let ci: usize = sel_position(next_buff_positions, wrapped);
            let curr_slice_idx: usize = next_buff_positions[ci];
            if curr_slice_idx != change_req_idx {
                self.do_load_buffer(gen_buffer);
                self.next_buffer_change = None;
                self.micro_fade_out = None;
            }
        }

        // which slice does the clock select now?
        let clock: u64 = self.get_local_clock();
        let new_key: usize = self.slices_playing.sel_key(clock);
        if new_key != self.curr_slice.0 {
            // slice boundary: apply the latched transform, then select on
            // the transformed map
            let t_opt: Option<TransformType> = self.next_transform;
            if let Some(t) = t_opt {
                match t {
                    TransformType::Reset() => self.do_reset(),
                    TransformType::RandSwap() => self.do_rand_swap(),
                    TransformType::QuantRepeat { quant, slice_index } => {
                        self.do_quant_repeat(quant, slice_index)
                    },
                }
                self.next_transform = None;
            }
            let key2: usize = self.slices_playing.sel_key(clock);
            let s: Slice = *self.slices_playing.get(&key2).unwrap();
            self.curr_slice = (key2, s);
        }
    }

    /// The exact relation one production step leaves between the state
    /// `pre` it started from, the state `post` it ended in, and the frame
    /// `out` it yielded, against the canonical buffer `gen`: the clock
    /// counted one frame; a pending swap committed exactly when its
    /// boundary was crossed; a latched transform applied exactly when the
    /// selection crossed a slice boundary; the selected slice advanced one
    /// cursor step and yielded its frame and envelope gain, attenuated by
    /// the forced fade when one is armed.
    pub open spec fn spec_frame_step(
        pre: SliceSeq<F>,
        post: SliceSeq<F>,
        out: FrameOut<F>,
        gen: SmartBuffer<F>,
    ) -> bool {
        &&& post.ticks == pre.ticks
        &&& post.global_tempo == pre.global_tempo
        &&& post.positions_mode == pre.positions_mode
        &&& post.slices_temp == pre.slices_temp
        &&& post.frames_since_sync == if pre.frames_since_sync < u64::MAX {
            pre.frames_since_sync + 1
        } else {
            pre.frames_since_sync as int
        }
        &&& (pre.local_sbuffer is None ==> {
            &&& out.sample is None
            &&& post.local_sbuffer is None
            &&& post.slices_orig == pre.slices_orig
            &&& post.slices_playing == pre.slices_playing
            &&& post.curr_slice == pre.curr_slice
            &&& post.next_buffer_change == pre.next_buffer_change
            &&& post.next_transform == pre.next_transform
            &&& post.micro_fade_out == pre.micro_fade_out
        })
        &&& (pre.local_sbuffer is Some ==> {
            let due = pre.spec_swap_due(gen);
            let clock = post.spec_local_clock();
            let mid_ord = if due {
                post.slices_orig.ord()
            } else {
                pre.slices_playing.ord()
            };
            let key1 = mid_ord[spec_sel_index(mid_ord, clock)];
            let played = if key1 == pre.curr_slice.0 {
                pre.curr_slice.1
            } else {
                post.slices_playing@[post.curr_slice.0]
            };
            let b = post.local_sbuffer.unwrap();
            &&& post.local_sbuffer is Some
            // a due swap commits: the local copy and the canonical slices
            // are rebuilt from the candidate buffer, the request and the
            // forced fade are cleared
            &&& (due ==> {
                &&& post.local_sbuffer matches Some(nb) && same_buffer(nb, gen)
                &&& rebuilt_from(
                    post.slices_orig,
                    gen.positions@[pre.positions_mode.spec_mode_index()]@,
                )
                &&& post.next_buffer_change is None
                &&& post.micro_fade_out is None
            })
            &&& (!due ==> {
                &&& post.local_sbuffer == pre.local_sbuffer
                &&& post.slices_orig == pre.slices_orig
                &&& post.next_buffer_change == pre.next_buffer_change
            })
            // an armed forced fade advances one sample per frame
            &&& (!due ==> match pre.micro_fade_out {
                None => post.micro_fade_out is None,
                Some(f) => post.micro_fade_out matches Some(f2) && {
                    &&& f2.active == f.active
                    &&& f2.len == f.len
                    &&& f2.pos == if f.active && f.pos < f.len {
                        f.pos + 1
                    } else {
                        f.pos as int
                    }
                },
            })
            // the latched transform applies exactly at a selection boundary
            &&& (key1 == pre.curr_slice.0 ==> {
                &&& post.next_transform == pre.next_transform
                &&& (due ==> post.slices_playing@ == post.slices_orig@
                    && post.slices_playing.ord() == post.slices_orig.ord())
                &&& (!due ==> post.slices_playing == pre.slices_playing)
            })
            &&& (key1 != pre.curr_slice.0 ==> {
                &&& post.next_transform is None
                &&& match pre.next_transform {
                    None => {
                        &&& (due ==> post.slices_playing@ == post.slices_orig@
                            && post.slices_playing.ord() == post.slices_orig.ord())
                        &&& (!due ==> post.slices_playing == pre.slices_playing)
                    },
                    Some(t) => spec_transform_applied(
                        if due {
                            post.slices_orig
                        } else {
                            pre.slices_playing
                        },
                        post.slices_orig,
                        post.slices_playing,
                        t,
                        post.spec_local_len(),
                    ),
                }
            })
            // the clock's slice is selected and advanced one cursor step
            &&& post.curr_slice.0 == post.slices_playing.ord()[
                spec_sel_index(post.slices_playing.ord(), clock)
            ]
            &&& post.curr_slice.1 == (Slice {
                id: played.id,
                start: played.start,
                end: played.end,
                cursor: if played.cursor < played.spec_len() {
                    (played.cursor + 1) as usize
                } else {
                    played.cursor
                },
            })
            &&& out.sample == if played.cursor < played.spec_len()
                && played.start + played.cursor < b.frames@.len() {
                Some(b.frames@[played.start + played.cursor])
            } else {
                None::<F>
            }
            &&& {
                let env = crate::envelope::spec_slice_gain(
                    post.curr_slice.1.cursor as int,
                    spec_eff_len(
                        played.spec_len(),
                        post.global_tempo as int,
                        b.original_tempo as int,
                    ),
                );
                out.gain == match post.micro_fade_out {
                    Some(f) => env * f.spec_gain() / (crate::GAIN_ONE as int),
                    None => env,
                }
            }
        })
    }

    /// Produce one frame: count it towards the clock, update the
    /// sequencing state, and let the selected slice yield its enveloped
    /// frame, further attenuated by the forced fade-out when one is armed.
    /// With no buffer loaded the output is silence.
    pub fn next_frame(&mut self, gen_buffer: &SmartBuffer<F>) -> (out: FrameOut<F>)
        requires
            old(self).wf(),
            gen_buffer.wf(),
            old(self).local_sbuffer is Some ==> gen_buffer.frames@.len() > 0,
        ensures
            final(self).wf(),
            Self::spec_frame_step(*old(self), *final(self), out, *gen_buffer),
    {
        self.new_frame();
        self.update(gen_buffer);

        if self.local_sbuffer.is_none() {
            return FrameOut { sample: None, gain: crate::GAIN_ONE };
        }

        let rate: (u64, u64) = self.playback_rate();
        let mut out: FrameOut<F> = match &self.local_sbuffer {
            Some(local_buff) => {
                self.curr_slice.1.next_frame(rate.0, rate.1, &local_buff.frames)
            },
            None => FrameOut { sample: None, gain: crate::GAIN_ONE },
        };

        match &mut self.micro_fade_out {
            None => {},
            Some(f) => {
                f.next_and_check();
                let mg: u64 = f.gain();
                proof {
                    vstd::arithmetic::mul::lemma_mul_upper_bound(
                        out.gain as int,
                        crate::envelope::MAKEUP_GAIN as int,
                        mg as int,
                        crate::GAIN_ONE as int,
                    );
                }
                let scaled: u128 = (out.gain as u128) * (mg as u128) / (crate::GAIN_ONE as u128);
                proof {
                    vstd::arithmetic::div_mod::lemma_div_is_ordered(
                        out.gain as int * mg as int,
                        crate::envelope::MAKEUP_GAIN as int * crate::GAIN_ONE as int,
                        crate::GAIN_ONE as int,
                    );
                    vstd::arithmetic::div_mod::lemma_div_multiples_vanish(
                        crate::envelope::MAKEUP_GAIN as int,
                        crate::GAIN_ONE as int,
                    );
                }
                out = FrameOut { sample: out.sample, gain: scaled as u64 };
            },
        }
        out
    }
}

/// Law: committing a load rebuilds the playing map as a function of the
/// buffer's onset list alone. Two maps rebuilt from the same onsets are
/// identical, whatever transforms had been applied to either before — so
/// a random swap followed by a reload leaves the playing map exactly as a
/// fresh load would.
pub proof fn lemma_commit_load_canonical(a: SliceMap, b: SliceMap, pos: Seq<usize>)
    requires
        a.wf(),
        b.wf(),
        pos.len() >= 1,
        rebuilt_from(a, pos),
        rebuilt_from(b, pos),
    ensures
        a@ == b@,
        a.ord() == b.ord(),
{
    a.lemma_wf();
    b.lemma_wf();
    assert(a@ =~= b@) by {
        assert(a@.dom() =~= b@.dom());
        assert forall|k: usize| a@.dom().contains(k) implies a@[k] == b@[k] by {
            assert(a.ord().to_set().contains(k));
            assert(a.ord().contains(k));
            let i = choose|i: int| 0 <= i < a.ord().len() && a.ord()[i] == k;
            assert(pos.drop_last() =~= pos.subrange(0, pos.len() - 1));
            assert(a.ord().len() == pos.len() - 1);
            assert(a.ord()[i] == pos.subrange(0, pos.len() - 1)[i]);
            assert(pos.subrange(0, pos.len() - 1)[i] == pos[i]);
            assert(a@[pos[i]] == slice_at(pos, i));
            assert(b@[pos[i]] == slice_at(pos, i));
        }
    }
}

/// Cut one slice per adjacent onset pair of `positions` into `map`,
/// replacing whatever it held.
/// What one transform leaves in the playing map `post`, given the playing
/// map `pre` and the canonical map `orig` it started from, and the local
/// buffer length `max`. A transform whose inputs would make it look up a
/// missing slice (or repeat with a zero step) is dropped, leaving the map
/// unchanged.
pub open spec fn spec_transform_applied(
    pre: SliceMap,
    orig: SliceMap,
    post: SliceMap,
    t: TransformType,
    max: int,
) -> bool {
    match t {
        TransformType::Reset() => post@ == orig@ && post.ord() == orig.ord(),
        TransformType::RandSwap() => if pre.ord().to_set().subset_of(orig@.dom()) {
            &&& post.ord() == pre.ord()
            &&& post@.dom() == pre@.dom()
            &&& exists|p: Seq<usize>| swapped_by(post@, pre.ord(), orig@, p)
        } else {
            post@ == pre@ && post.ord() == pre.ord()
        },
        TransformType::QuantRepeat { quant, slice_index } => if quant >= 1
            && pre@.dom().contains(slice_index) {
            &&& post.ord().len() == quant_count(quant as int, max)
            &&& (forall|i: int| 0 <= i < post.ord().len() ==> post.ord()[i] == i * quant)
            &&& (forall|i: int| 0 <= i < post.ord().len()
                ==> post@[#[trigger] post.ord()[i]] == (Slice {
                    id: i as usize,
                    start: pre@[slice_index].start,
                    end: pre@[slice_index].end,
                    cursor: pre@[slice_index].cursor,
                }))
        } else {
            post@ == pre@ && post.ord() == pre.ord()
        },
    }
}

impl<F: Copy> SliceSeq<F> {
    /// Reset the playing map to the original slice order.
    pub fn do_reset(&mut self)
        requires
            old(self).wf(),
        ensures
            final(self).wf(),
            spec_transform_applied(
                old(self).slices_playing,
                old(self).slices_orig,
                final(self).slices_playing,
                TransformType::Reset(),
                0,
            ),
            final(self).ticks == old(self).ticks,
            final(self).global_tempo == old(self).global_tempo,
            final(self).frames_since_sync == old(self).frames_since_sync,
            final(self).local_sbuffer == old(self).local_sbuffer,
            final(self).positions_mode == old(self).positions_mode,
            final(self).slices_orig == old(self).slices_orig,
            final(self).slices_temp == old(self).slices_temp,
            final(self).curr_slice == old(self).curr_slice,
            final(self).next_buffer_change == old(self).next_buffer_change,
            final(self).next_transform == old(self).next_transform,
            final(self).micro_fade_out == old(self).micro_fade_out,
            final(self).rng == old(self).rng,
    {
        self.slices_playing.copy_from(&self.slices_orig);
        proof {
            old(self).slices_orig.lemma_wf();
        }
    }

    /// Shuffle the playing slices, drawing the permutation from the owned
    /// generator. When the playing keys are not all present in the
    /// original map (after a repeat transform), the swap is dropped.
    pub fn do_rand_swap(&mut self)
        requires
            old(self).wf(),
        ensures
            final(self).wf(),
            spec_transform_applied(
                old(self).slices_playing,
                old(self).slices_orig,
                final(self).slices_playing,
                TransformType::RandSwap(),
                0,
            ),
            final(self).ticks == old(self).ticks,
            final(self).global_tempo == old(self).global_tempo,
            final(self).frames_since_sync == old(self).frames_since_sync,
            final(self).local_sbuffer == old(self).local_sbuffer,
            final(self).positions_mode == old(self).positions_mode,
            final(self).slices_orig == old(self).slices_orig,
            final(self).slices_temp == old(self).slices_temp,
            final(self).curr_slice == old(self).curr_slice,
            final(self).next_buffer_change == old(self).next_buffer_change,
            final(self).next_transform == old(self).next_transform,
            final(self).micro_fade_out == old(self).micro_fade_out,
    {
        if self.slices_playing.keys_within(&self.slices_orig) {
            self.slices_playing.rand_swap(&self.slices_orig, &mut self.rng);
            proof {
                old(self).slices_playing.lemma_wf();
                let p = choose|p: Seq<usize>| swapped_by(
                    self.slices_playing@,
                    old(self).slices_playing.ord(),
                    old(self).slices_orig@,
                    p,
                );
                assert forall|k: usize| self.slices_playing@.dom().contains(k)
                    implies (#[trigger] self.slices_playing@[k]).wf() by {
                    let keys = old(self).slices_playing.ord();
                    assert(keys.to_set().contains(k));
                    let i = choose|i: int| 0 <= i < keys.len() && keys[i] == k;
                    assert(self.slices_playing@[keys[i]] == old(self).slices_orig@[p[i]]);
                }
            }
        }
    }

    /// Freeze playback onto one repeating grain: repeat the slice under
    /// `slice_idx` at every `quant_samples` step across the local buffer.
    /// Without a local buffer, with a zero step, or with the slice
    /// missing, the transform is dropped.
    pub fn do_quant_repeat(&mut self, quant_samples: usize, slice_idx: usize)
        requires
            old(self).wf(),
        ensures
            final(self).wf(),
            match old(self).local_sbuffer {
                Some(b) => spec_transform_applied(
                    old(self).slices_playing,
                    old(self).slices_orig,
                    final(self).slices_playing,
                    TransformType::QuantRepeat { quant: quant_samples, slice_index: slice_idx },
                    b.frames@.len() as int,
                ),
                None => final(self).slices_playing == old(self).slices_playing,
            },
            final(self).ticks == old(self).ticks,
            final(self).global_tempo == old(self).global_tempo,
            final(self).frames_since_sync == old(self).frames_since_sync,
            final(self).local_sbuffer == old(self).local_sbuffer,
            final(self).positions_mode == old(self).positions_mode,
            final(self).slices_orig == old(self).slices_orig,
            final(self).slices_temp == old(self).slices_temp,
            final(self).curr_slice == old(self).curr_slice,
            final(self).next_buffer_change == old(self).next_buffer_change,
            final(self).next_transform == old(self).next_transform,
            final(self).micro_fade_out == old(self).micro_fade_out,
            final(self).rng == old(self).rng,
    {
        let max: usize = match &self.local_sbuffer {
            Some(b) => b.frames.len(),
            None => {
                return;
            },
        };
        if quant_samples < 1 {
            return;
        }
        if self.slices_playing.get(&slice_idx).is_none() {
            return;
        }
        let ghost target = self.slices_playing@[slice_idx];
        self.slices_playing.quant_repeat(quant_samples, slice_idx, max);
        proof {
            vstd::arithmetic::div_mod::lemma_div_pos_is_pos(
                max - 1,
                quant_samples as int,
            );
            self.slices_playing.lemma_wf();
            assert forall|k: usize| self.slices_playing@.dom().contains(k)
                implies (#[trigger] self.slices_playing@[k]).wf() by {
                let keys = self.slices_playing.ord();
                let i = choose|i: int| 0 <= i < keys.len() && keys[i] == k;
                assert(self.slices_playing@[keys[i]] == (Slice {
                    id: i as usize,
                    start: target.start,
                    end: target.end,
                    cursor: target.cursor,
                }));
                assert(target.wf());
            }
        }
    }

    /// Request a buffer swap. With no local buffer yet the load happens
    /// immediately; otherwise the onset key covering the candidate
    /// buffer's clock, and the following onset key, are recorded so the
    /// swap commits exactly when that boundary is crossed.
    pub fn sync_load_buffer(&mut self, next_buffer: &SmartBuffer<F>) -> (r: bool)
        requires
            old(self).wf(),
            next_buffer.wf(),
            next_buffer.frames@.len() > 0,
        ensures
            r,
            final(self).wf(),
            old(self).local_sbuffer is None ==> {
                &&& final(self).local_sbuffer matches Some(b) && same_buffer(b, *next_buffer)
                &&& rebuilt_from(
                    final(self).slices_orig,
                    next_buffer.positions@[old(self).positions_mode.spec_mode_index()]@,
                )
                &&& final(self).slices_playing@ == final(self).slices_orig@
                &&& final(self).slices_playing.ord() == final(self).slices_orig.ord()
                &&& final(self).next_buffer_change == old(self).next_buffer_change
            },
            old(self).local_sbuffer is Some ==> {
                let pos = next_buffer.positions@[old(self).positions_mode.spec_mode_index()]@;
                let w = spec_wrapped_clock(
                    old(self).ticks as int,
                    next_buffer.original_tempo as int,
                    next_buffer.frames@.len() as int,
                );
                let ci = spec_sel_index(pos, w);
                &&& final(self).next_buffer_change == Some((pos[ci], pos[ci + 1]))
                &&& final(self).local_sbuffer == old(self).local_sbuffer
                &&& final(self).slices_orig == old(self).slices_orig
                &&& final(self).slices_playing == old(self).slices_playing
                &&& final(self).curr_slice == old(self).curr_slice
            },
            final(self).ticks == old(self).ticks,
            final(self).global_tempo == old(self).global_tempo,
            final(self).frames_since_sync == old(self).frames_since_sync,
            final(self).positions_mode == old(self).positions_mode,
            final(self).slices_temp == old(self).slices_temp,
            final(self).next_transform == old(self).next_transform,
            final(self).micro_fade_out == old(self).micro_fade_out,
            final(self).rng == old(self).rng,
    {
        if self.local_sbuffer.is_none() {
            self.do_load_buffer(next_buffer);
            return true;
        }
        let wrapped: u64 = self.get_next_clock(next_buffer);
        let mode_idx: usize = self.positions_mode.mode_index();
        let next_buff_positions: &Vec<usize> = &next_buffer.positions[mode_idx];
        let ghost pos = next_buff_positions@;
        let np: usize = next_buff_positions.len();
        let ci: usize = sel_position(next_buff_positions, wrapped);
        proof {
            assert(np == pos.len());
            // the clock sits strictly before the last onset, so a
            // following onset exists
            assert(pos[0] == 0);
            assert(pos[pos.len() - 1] == next_buffer.frames@.len());
            assert(pos[ci as int] <= wrapped);
            assert(wrapped < next_buffer.frames@.len());
            assert(ci + 1 < pos.len());
        }
        let curr_slice_idx: usize = next_buff_positions[ci];
        let next_slice_idx: usize = next_buff_positions[ci + 1];
        self.next_buffer_change = Some((curr_slice_idx, next_slice_idx));
        true
    }
}

fn rebuild_slices(map: &mut SliceMap, positions: &Vec<usize>)
    requires
        old(map).wf(),
        positions@.len() >= 1,
        strictly_ascending(positions@),
    ensures
        final(map).wf(),
        rebuilt_from(*final(map), positions@),
        slices_values_wf(*final(map)),
        final(map).ord().len() == positions@.len() - 1,
{
    let ghost pos = positions@;
    map.clear();
    let n: usize = positions.len();
    let mut idx: usize = 0;
    while idx + 1 < n
        invariant
            idx < n,
            n == pos.len(),
            positions@ == pos,
            strictly_ascending(pos),
            map.wf(),
            map.ord() == pos.take(idx as int),
            forall|i: int| 0 <= i < idx ==> map@[pos[i]] == #[trigger] slice_at(pos, i),
        decreases n - idx,
    {
        let start: usize = positions[idx];
        let end: usize = positions[idx + 1];
        let ghost before = *map;
        proof {
            assert forall|i: int| 0 <= i < before.ord().len()
                implies before.ord()[i] < start by {
                assert(before.ord()[i] == pos[i]);
            }
        }
        map.insert(start, Slice { id: idx, start, end, cursor: 0 });
        proof {
            assert(map.ord() =~= pos.take(idx + 1));
            assert(map@[pos[idx as int]] == slice_at(pos, idx as int));
            assert forall|i: int| 0 <= i < idx + 1
                implies map@[pos[i]] == #[trigger] slice_at(pos, i) by {
                if i < idx {
                    assert(pos[i] < pos[idx as int]);
                    assert(map@[pos[i]] == before@[pos[i]]);
                }
            }
        }
        idx = idx + 1;
    }
    proof {
        assert(map.ord() =~= pos.drop_last());
        map.lemma_wf();
        assert forall|k: usize| map@.dom().contains(k)
            implies (#[trigger] map@[k]).wf() by {
            let i = choose|i: int| 0 <= i < map.ord().len() && map.ord()[i] == k;
            assert(map@[pos[i]] == slice_at(pos, i));
        }
    }
}

} // verus!
