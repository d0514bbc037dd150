//! A beat-slicer sequencing engine.
//!
//! The library plays recorded audio back as a sequence of short grains
//! ("slices") locked to an externally driven tempo clock. It owns the
//! sample-accurate playback position, the slice selection rule, live
//! reordering transforms, and glitch-free swapping of the underlying
//! audio buffer while output continues.
//!
//! Audio samples are carried as an opaque frame type `F`; all gains are
//! fixed-point integers in units of [`GAIN_ONE`], so a caller scales the
//! frames it gets back by `gain / GAIN_ONE`.

use vstd::prelude::*;

pub mod control;
pub mod envelope;
pub mod gen;
pub mod shuffle;
pub mod slice;
pub mod slice_map;
pub mod slice_seq;
pub mod smart_buffer;

verus! {

/// Fixed-point scale for amplitude gains: a gain of `GAIN_ONE` leaves a
/// frame unchanged.
pub const GAIN_ONE: u64 = 1_000_000;

} // verus!
