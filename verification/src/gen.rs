//! The slicer generator facade: playback transport around one slice
//! sequencer, in the style of a beat slicer.
//!
//! It holds the shared transport state (playing flag, multipliers, its own
//! materialized copy of the canonical buffer) plus one [`SliceSeq`], and
//! exposes play / stop / sync / load / control-message handling. Per-frame
//! production goes through a single path: one sequencer frame per output
//! slot.

use vstd::prelude::*;
use crate::control::{ControlMessage, SlicerMessage};
use crate::slice::{FrameOut, Slice};
use crate::slice_map::spec_sel_index;
use crate::slice_seq::{SliceSeq, TransformType, rebuilt_from, spec_wrapped_clock};
use crate::smart_buffer::{PositionsMode, SmartBuffer, same_buffer};

verus! {

/// Shared transport state common to every generator variant.
pub struct SampleGen<F> {
    /// Current frame index within the buffer.
    pub frame_index: usize,
    /// Playback multiplier requested by the transport.
    pub playback_mult: u64,
    /// Current loop division.
    pub loop_div: u64,
    /// Loop division to adopt at the next loop boundary.
    pub next_loop_div: u64,
    /// Whether the generator produces audio or silence.
    pub playing: bool,
    /// The canonical buffer copy this generator materialized; the source
    /// of truth the sequencer previews pending swaps against.
    pub smartbuf: SmartBuffer<F>,
}

/// The slicer sample generator.
pub struct SlicerGen<F> {
    /// Shared transport state, by struct composition.
    pub sample_gen: SampleGen<F>,
    /// The slice sequencer doing the actual work.
    pub slice_seq: SliceSeq<F>,
}

/// The whole block is the chain of frames the sequencer produced, one
/// [`SliceSeq::spec_frame_step`] per output slot: `states` threads the
/// successive sequencer states from `pre` to `post`, and `outs[i]` is the
/// frame step `i` yielded.
pub open spec fn spec_block_chain<F: Copy>(
    pre: SliceSeq<F>,
    post: SliceSeq<F>,
    gen: SmartBuffer<F>,
    outs: Seq<FrameOut<F>>,
    states: Seq<SliceSeq<F>>,
) -> bool {
    &&& states.len() == outs.len() + 1
    &&& states[0] == pre
    &&& states[states.len() - 1] == post
    &&& forall|i: int| 0 <= i < outs.len()
        ==> SliceSeq::spec_frame_step(states[i], states[i + 1], #[trigger] outs[i], gen)
}

impl<F: Copy> SlicerGen<F> {
    /// The facade is usable: the sequencer and the canonical buffer are
    /// sound, and the two buffer materializations are loaded together —
    /// once the canonical buffer is non-empty the sequencer holds a local
    /// copy, and playback is only ever enabled with material loaded.
    pub open spec fn wf(self) -> bool {
        &&& self.slice_seq.wf()
        &&& self.sample_gen.smartbuf.wf()
        &&& (self.slice_seq.local_sbuffer is Some
            ==> self.sample_gen.smartbuf.frames@.len() > 0)
        &&& (self.sample_gen.smartbuf.frames@.len() > 0
            ==> self.slice_seq.local_sbuffer is Some)
        &&& (self.sample_gen.playing ==> self.sample_gen.smartbuf.frames@.len() > 0)
    }

    /// A fresh, silent generator: nothing loaded, neutral transport
    /// defaults, and a sequencer at its start state — tick count 0, tempo
    /// 120, elapsed counter 0, all slice maps empty, the default
    /// selection, no pending swap, no latched transform, no armed fade —
    /// with its shuffle generator seeded from `seed`.
    pub fn new(seed: u64) -> (r: SlicerGen<F>)
        ensures
            r.wf(),
            !r.sample_gen.playing,
            r.sample_gen.frame_index == 0,
            r.sample_gen.playback_mult == 0,
            r.sample_gen.loop_div == 1,
            r.sample_gen.next_loop_div == 1,
            r.sample_gen.smartbuf.frames@.len() == 0,
            r.slice_seq.ticks == 0,
            r.slice_seq.global_tempo == 120,
            r.slice_seq.frames_since_sync == 0,
            r.slice_seq.local_sbuffer is None,
            r.slice_seq.positions_mode == PositionsMode::Bar8Mode(),
            r.slice_seq.slices_orig.ord() == Seq::<usize>::empty(),
            r.slice_seq.slices_orig@ == Map::<usize, Slice>::empty(),
            r.slice_seq.slices_temp.ord() == Seq::<usize>::empty(),
            r.slice_seq.slices_temp@ == Map::<usize, Slice>::empty(),
            r.slice_seq.slices_playing.ord() == Seq::<usize>::empty(),
            r.slice_seq.slices_playing@ == Map::<usize, Slice>::empty(),
            r.slice_seq.curr_slice == (0usize, Slice { id: 0, start: 0, end: 0, cursor: 0 }),
            r.slice_seq.next_buffer_change is None,
            r.slice_seq.next_transform is None,
            r.slice_seq.micro_fade_out is None,
    {
        SlicerGen {
            sample_gen: SampleGen {
                frame_index: 0,
                playback_mult: 0,
                loop_div: 1,
                next_loop_div: 1,
                playing: false,
                smartbuf: SmartBuffer::new_empty(),
            },
            slice_seq: SliceSeq::new(seed),
        }
    }

    /// Compute the next frame using the slice sequencer.
    fn slicer_next_frame(&mut self) -> (out: FrameOut<F>)
        requires
            old(self).wf(),
        ensures
            final(self).wf(),
            final(self).sample_gen == old(self).sample_gen,
            SliceSeq::spec_frame_step(
                old(self).slice_seq,
                final(self).slice_seq,
                out,
                old(self).sample_gen.smartbuf,
            ),
            old(self).slice_seq.local_sbuffer is None ==> out.sample is None,
    {
        self.slice_seq.next_frame(&self.sample_gen.smartbuf)
    }

    /// Produce one frame, iterator-style; production always yields one,
    /// and the frame is exactly what one sequencer step produced.
    pub fn next(&mut self) -> (r: Option<FrameOut<F>>)
        requires
            old(self).wf(),
        ensures
            final(self).wf(),
            final(self).sample_gen == old(self).sample_gen,
            r is Some,
            SliceSeq::spec_frame_step(
                old(self).slice_seq,
                final(self).slice_seq,
                r.unwrap(),
                old(self).sample_gen.smartbuf,
            ),
            old(self).slice_seq.local_sbuffer is None ==> r.unwrap().sample is None,
    {
        let next_frame: FrameOut<F> = self.slicer_next_frame();
        Some(next_frame)
    }

    /// Fill a whole output block. Silent and without any state advance
    /// when the generator is stopped; otherwise every slot holds, in
    /// order, the frame one sequencer step produced for it — there is no
    /// second production path.
    pub fn next_block(&mut self, block_out: &mut Vec<FrameOut<F>>)
        requires
            old(self).wf(),
        ensures
            final(self).wf(),
            final(block_out)@.len() == old(block_out)@.len(),
            final(self).sample_gen == old(self).sample_gen,
            !old(self).sample_gen.playing ==> *final(self) == *old(self)
                && forall|i: int| 0 <= i < final(block_out)@.len()
                    ==> final(block_out)@[i].sample is None,
            old(self).sample_gen.playing ==> exists|states: Seq<SliceSeq<F>>|
                spec_block_chain(
                    old(self).slice_seq,
                    final(self).slice_seq,
                    old(self).sample_gen.smartbuf,
                    final(block_out)@,
                    states,
                ),
    {
        let n: usize = block_out.len();
        if !self.sample_gen.playing {
            let mut i: usize = 0;
            while i < n
                invariant
                    i <= n,
                    n == block_out@.len(),
                    forall|j: int| 0 <= j < i ==> block_out@[j].sample is None,
                decreases n - i,
            {
                block_out.set(i, FrameOut { sample: None, gain: crate::GAIN_ONE });
                i = i + 1;
            }
            return;
        }

        let ghost mut states: Seq<SliceSeq<F>> = seq![old(self).slice_seq];
        let mut i: usize = 0;
        while i < n
            invariant
                i <= n,
                n == block_out@.len(),
                self.wf(),
                self.sample_gen == old(self).sample_gen,
                states.len() == i + 1,
                states[0] == old(self).slice_seq,
                states[i as int] == self.slice_seq,
                forall|j: int| 0 <= j < i ==> SliceSeq::spec_frame_step(
                    states[j],
                    states[j + 1],
                    #[trigger] block_out@[j],
                    old(self).sample_gen.smartbuf,
                ),
            decreases n - i,
        {
            let f: FrameOut<F> = self.slicer_next_frame();
            block_out.set(i, f);
            proof {
                states = states.push(self.slice_seq);
            }
            i = i + 1;
        }
        proof {
            assert(spec_block_chain(
                old(self).slice_seq,
                self.slice_seq,
                old(self).sample_gen.smartbuf,
                block_out@,
                states,
            ));
        }
    }

    /// Load a buffer: hand it to the sequencer — which loads immediately
    /// when nothing is loaded yet, and otherwise records the boundary at
    /// which to swap — and materialize the facade's own copy.
    pub fn load_buffer(&mut self, smartbuf: &SmartBuffer<F>)
        requires
            old(self).wf(),
            smartbuf.wf(),
            smartbuf.frames@.len() > 0,
        ensures
            final(self).wf(),
            same_buffer(final(self).sample_gen.smartbuf, *smartbuf),
            final(self).sample_gen.frame_index == old(self).sample_gen.frame_index,
            final(self).sample_gen.playback_mult == old(self).sample_gen.playback_mult,
            final(self).sample_gen.loop_div == old(self).sample_gen.loop_div,
            final(self).sample_gen.next_loop_div == old(self).sample_gen.next_loop_div,
            final(self).sample_gen.playing == old(self).sample_gen.playing,
            final(self).slice_seq.local_sbuffer is Some,
            // with no buffer yet the sequencer loads immediately
            old(self).slice_seq.local_sbuffer is None ==> {
                &&& final(self).slice_seq.local_sbuffer matches Some(b)
                    && same_buffer(b, *smartbuf)
                &&& rebuilt_from(
                    final(self).slice_seq.slices_orig,
                    smartbuf.positions@[
                        old(self).slice_seq.positions_mode.spec_mode_index()
                    ]@,
                )
                &&& final(self).slice_seq.slices_playing@
                    == final(self).slice_seq.slices_orig@
                &&& final(self).slice_seq.slices_playing.ord()
                    == final(self).slice_seq.slices_orig.ord()
                &&& final(self).slice_seq.next_buffer_change
                    == old(self).slice_seq.next_buffer_change
            },
            // with one loaded the swap is deferred to the onset boundary
            // the candidate buffer's clock currently sits in
            old(self).slice_seq.local_sbuffer is Some ==> {
                let pos = smartbuf.positions@[
                    old(self).slice_seq.positions_mode.spec_mode_index()
                ]@;
                let w = spec_wrapped_clock(
                    old(self).slice_seq.ticks as int,
                    smartbuf.original_tempo as int,
                    smartbuf.frames@.len() as int,
                );
                let ci = spec_sel_index(pos, w);
                &&& final(self).slice_seq.next_buffer_change == Some((pos[ci], pos[ci + 1]))
                &&& final(self).slice_seq.local_sbuffer == old(self).slice_seq.local_sbuffer
                &&& final(self).slice_seq.slices_orig == old(self).slice_seq.slices_orig
                &&& final(self).slice_seq.slices_playing
                    == old(self).slice_seq.slices_playing
                &&& final(self).slice_seq.curr_slice == old(self).slice_seq.curr_slice
            },
            final(self).slice_seq.ticks == old(self).slice_seq.ticks,
            final(self).slice_seq.global_tempo == old(self).slice_seq.global_tempo,
            final(self).slice_seq.frames_since_sync
                == old(self).slice_seq.frames_since_sync,
            final(self).slice_seq.positions_mode == old(self).slice_seq.positions_mode,
            final(self).slice_seq.slices_temp == old(self).slice_seq.slices_temp,
            final(self).slice_seq.next_transform == old(self).slice_seq.next_transform,
            final(self).slice_seq.micro_fade_out == old(self).slice_seq.micro_fade_out,
            final(self).slice_seq.rng == old(self).slice_seq.rng,
    {
        self.slice_seq.sync_load_buffer(smartbuf);
        self.sample_gen.smartbuf.copy_from(smartbuf);
    }

    /// Sync the sequencer to the external clock — a silent no-op until a
    /// buffer has been loaded.
    pub fn sync(&mut self, global_tempo: u64, tick: u64)
        requires
            old(self).wf(),
        ensures
            final(self).wf(),
            final(self).sample_gen == old(self).sample_gen,
            old(self).slice_seq.local_sbuffer is Some ==> {
                &&& final(self).slice_seq.ticks == tick
                &&& final(self).slice_seq.global_tempo == global_tempo
                &&& final(self).slice_seq.frames_since_sync == 0
                &&& final(self).slice_seq.local_sbuffer == old(self).slice_seq.local_sbuffer
                &&& final(self).slice_seq.positions_mode
                    == old(self).slice_seq.positions_mode
                &&& final(self).slice_seq.slices_orig == old(self).slice_seq.slices_orig
                &&& final(self).slice_seq.slices_temp == old(self).slice_seq.slices_temp
                &&& final(self).slice_seq.slices_playing
                    == old(self).slice_seq.slices_playing
                &&& final(self).slice_seq.curr_slice == old(self).slice_seq.curr_slice
                &&& final(self).slice_seq.next_buffer_change
                    == old(self).slice_seq.next_buffer_change
                &&& final(self).slice_seq.next_transform
                    == old(self).slice_seq.next_transform
                &&& final(self).slice_seq.micro_fade_out
                    == old(self).slice_seq.micro_fade_out
                &&& final(self).slice_seq.rng == old(self).slice_seq.rng
            },
            old(self).slice_seq.local_sbuffer is None ==> *final(self) == *old(self),
    {
        if self.slice_seq.local_sbuffer.is_some() {
            self.slice_seq.sync(global_tempo, tick);
        }
    }

    /// Start playback, but only once a non-empty buffer is loaded;
    /// nothing else changes.
    pub fn play(&mut self)
        requires
            old(self).wf(),
        ensures
            final(self).wf(),
            final(self).sample_gen.playing == if old(self).sample_gen.smartbuf.frames@.len()
                > 0 {
                true
            } else {
                old(self).sample_gen.playing
            },
            final(self).sample_gen.frame_index == old(self).sample_gen.frame_index,
            final(self).sample_gen.playback_mult == old(self).sample_gen.playback_mult,
            final(self).sample_gen.loop_div == old(self).sample_gen.loop_div,
            final(self).sample_gen.next_loop_div == old(self).sample_gen.next_loop_div,
            final(self).sample_gen.smartbuf == old(self).sample_gen.smartbuf,
            final(self).slice_seq == old(self).slice_seq,
    {
        if self.sample_gen.smartbuf.frames.len() > 0 {
            self.sample_gen.playing = true;
        }
    }

    /// Stop playback, running the reset hook first; nothing else changes,
    /// so a second stop leaves the state identical.
    pub fn stop(&mut self)
        requires
            old(self).wf(),
        ensures
            final(self).wf(),
            !final(self).sample_gen.playing,
            final(self).sample_gen.frame_index == old(self).sample_gen.frame_index,
            final(self).sample_gen.playback_mult == old(self).sample_gen.playback_mult,
            final(self).sample_gen.loop_div == old(self).sample_gen.loop_div,
            final(self).sample_gen.next_loop_div == old(self).sample_gen.next_loop_div,
            final(self).sample_gen.smartbuf == old(self).sample_gen.smartbuf,
            final(self).slice_seq == old(self).slice_seq,
    {
        self.reset();
        self.sample_gen.playing = false;
    }

    /// Set the playback multiplier; nothing else changes.
    pub fn set_playback_mult(&mut self, playback_mult: u64)
        requires
            old(self).wf(),
        ensures
            final(self).wf(),
            final(self).sample_gen.playback_mult == playback_mult,
            final(self).sample_gen.frame_index == old(self).sample_gen.frame_index,
            final(self).sample_gen.loop_div == old(self).sample_gen.loop_div,
            final(self).sample_gen.next_loop_div == old(self).sample_gen.next_loop_div,
            final(self).sample_gen.playing == old(self).sample_gen.playing,
            final(self).sample_gen.smartbuf == old(self).sample_gen.smartbuf,
            final(self).slice_seq == old(self).slice_seq,
    {
        self.sample_gen.playback_mult = playback_mult;
    }

    /// Record the loop division to adopt at the next loop boundary;
    /// nothing else changes.
    pub fn set_loop_div(&mut self, loop_div: u64)
        requires
            old(self).wf(),
        ensures
            final(self).wf(),
            final(self).sample_gen.next_loop_div == loop_div,
            final(self).sample_gen.frame_index == old(self).sample_gen.frame_index,
            final(self).sample_gen.playback_mult == old(self).sample_gen.playback_mult,
            final(self).sample_gen.loop_div == old(self).sample_gen.loop_div,
            final(self).sample_gen.playing == old(self).sample_gen.playing,
            final(self).sample_gen.smartbuf == old(self).sample_gen.smartbuf,
            final(self).slice_seq == old(self).slice_seq,
    {
        self.sample_gen.next_loop_div = loop_div;
    }

    /// Return the generator to its start position. A hook point: the
    /// slicer derives its position from the clock, so there is nothing to
    /// rewind here yet.
    pub fn reset(&mut self)
        ensures
            *final(self) == *old(self),
    {
    }

    /// Handle a control message. Only slicer-targeted transform requests
    /// are acted on, and they only latch: a repeat request captures the
    /// currently selected slice key at arrival time as the grain to
    /// repeat, other transforms pass through unchanged, and no slice map
    /// is mutated yet — application waits for the next slice boundary.
    /// Anything else is silently dropped.
    pub fn push_control_message(&mut self, message: ControlMessage)
        requires
            old(self).wf(),
        ensures
            final(self).wf(),
            final(self).sample_gen == old(self).sample_gen,
            match message {
                ControlMessage::Slicer { tcode: _, track_num: _, message: m } => {
                    let SlicerMessage::Transform(t) = m;
                    let latched = match t {
                        TransformType::QuantRepeat { quant, slice_index: _ } =>
                            TransformType::QuantRepeat {
                                quant,
                                slice_index: old(self).slice_seq.curr_slice.0,
                            },
                        _ => t,
                    };
                    &&& final(self).slice_seq.next_transform == Some(latched)
                    &&& final(self).slice_seq.ticks == old(self).slice_seq.ticks
                    &&& final(self).slice_seq.global_tempo
                        == old(self).slice_seq.global_tempo
                    &&& final(self).slice_seq.frames_since_sync
                        == old(self).slice_seq.frames_since_sync
                    &&& final(self).slice_seq.local_sbuffer
                        == old(self).slice_seq.local_sbuffer
                    &&& final(self).slice_seq.positions_mode
                        == old(self).slice_seq.positions_mode
                    &&& final(self).slice_seq.slices_orig
                        == old(self).slice_seq.slices_orig
                    &&& final(self).slice_seq.slices_temp
                        == old(self).slice_seq.slices_temp
                    &&& final(self).slice_seq.slices_playing
                        == old(self).slice_seq.slices_playing
                    &&& final(self).slice_seq.curr_slice == old(self).slice_seq.curr_slice
                    &&& final(self).slice_seq.next_buffer_change
                        == old(self).slice_seq.next_buffer_change
                    &&& final(self).slice_seq.micro_fade_out
                        == old(self).slice_seq.micro_fade_out
                    &&& final(self).slice_seq.rng == old(self).slice_seq.rng
                },
                _ => *final(self) == *old(self),
            },
    {
        match message {
            ControlMessage::Slicer { tcode: _, track_num: _, message: m } => match m {
                SlicerMessage::Transform(t) => match t {
                    TransformType::QuantRepeat { quant, slice_index: _ } => {
                        let idx: usize = self.slice_seq.curr_slice.0;
                        self.slice_seq.push_transform(
                            Some(TransformType::QuantRepeat { quant, slice_index: idx }),
                        );
                    },
                    _ => {
                        self.slice_seq.push_transform(Some(t));
                    },
                },
            },
            _ => (),
        }
    }
}

} // verus!
