//! Control messages the generator facade consumes. The slicer reacts only
//! to a slicer-targeted transform request; everything else is silently
//! ignored.

use vstd::prelude::*;
use crate::slice_seq::TransformType;

verus! {

/// A message addressed to the slicer engine.
#[derive(Debug, Clone, Copy, PartialEq, Eq, Structural)]
pub enum SlicerMessage {
    /// Apply a transform at the next slice boundary.
    Transform(TransformType),
}

/// A remote-control command routed to a track's generator.
#[derive(Debug, Clone, Copy, PartialEq, Eq, Structural)]
pub enum ControlMessage {
    /// Change a track's loop division.
    TrackLoopDiv {
        /// Message timecode.
        tcode: u64,
        /// The new loop division.
        val: u64,
        /// Which track the message addresses.
        track_num: usize,
    },
    /// Advance a track to its next sample.
    TrackNextSample {
        /// Message timecode.
        tcode: u64,
        /// Which track the message addresses.
        track_num: usize,
    },
    /// Return a track to its previous sample.
    TrackPrevSample {
        /// Message timecode.
        tcode: u64,
        /// Which track the message addresses.
        track_num: usize,
    },
    /// A message for the slicer engine itself.
    Slicer {
        /// Message timecode.
        tcode: u64,
        /// Which track the message addresses.
        track_num: usize,
        /// The slicer command carried.
        message: SlicerMessage,
    },
}

} // verus!
