//! The audio buffer the sequencer plays from: a sequence of frames, the
//! tempo the material was recorded at, and one ordered onset list per
//! boundary-detection mode.
//!
//! Frames are an opaque type `F`; the library never looks inside a frame,
//! it only selects and copies them.

use vstd::prelude::*;

verus! {

/// How many boundary-detection modes a buffer carries onsets for.
pub const MODE_COUNT: usize = 5;

/// Which onset list the slicer cuts the buffer along. Opaque to the
/// sequencing core: it only selects one of the buffer's onset lists.
#[derive(Debug, Clone, Copy, PartialEq, Eq, Structural)]
pub enum PositionsMode {
    /// Detected onsets.
    OnsetMode(),
    /// One slice per bar.
    BarMode(),
    /// Four slices per bar.
    Bar4Mode(),
    /// Eight slices per bar.
    Bar8Mode(),
    /// Sixteen slices per bar.
    Bar16Mode(),
}

impl PositionsMode {
    /// Position of this mode's onset list in [`SmartBuffer::positions`].
    pub open spec fn spec_mode_index(self) -> int {
        match self {
            PositionsMode::OnsetMode() => 0,
            PositionsMode::BarMode() => 1,
            PositionsMode::Bar4Mode() => 2,
            PositionsMode::Bar8Mode() => 3,
            PositionsMode::Bar16Mode() => 4,
        }
    }

    /// Position of this mode's onset list in [`SmartBuffer::positions`].
    pub fn mode_index(&self) -> (r: usize)
        ensures
            r == self.spec_mode_index(),
            r < MODE_COUNT,
    {
        match self {
            PositionsMode::OnsetMode() => 0,
            PositionsMode::BarMode() => 1,
            PositionsMode::Bar4Mode() => 2,
            PositionsMode::Bar8Mode() => 3,
            PositionsMode::Bar16Mode() => 4,
        }
    }
}

/// An onset list is usable when it starts at frame 0, ascends strictly,
/// and ends exactly at the end of the buffer, so that adjacent onsets tile
/// `[0, frames_len)` with non-overlapping slices.
pub open spec fn onsets_wf(p: Seq<usize>, frames_len: int) -> bool {
    &&& p.len() >= 1
    &&& p[0] == 0
    &&& forall|i: int, j: int| 0 <= i < j < p.len() ==> p[i] < p[j]
    &&& p[p.len() - 1] == frames_len
}

/// A stereo (or otherwise opaque) frame buffer with tempo and slice
/// boundary metadata.
pub struct SmartBuffer<F> {
    /// The audio frames.
    pub frames: Vec<F>,
    /// Tempo the material was recorded at, in beats per minute.
    pub original_tempo: u64,
    /// One onset list per [`PositionsMode`], indexed by
    /// [`PositionsMode::spec_mode_index`].
    pub positions: Vec<Vec<usize>>,
}

/// Two buffers hold the same frames, tempo and onset lists.
pub open spec fn same_buffer<F>(a: SmartBuffer<F>, b: SmartBuffer<F>) -> bool {
    &&& a.frames@ == b.frames@
    &&& a.original_tempo == b.original_tempo
    &&& a.positions@.len() == b.positions@.len()
    &&& forall|m: int| 0 <= m < a.positions@.len()
        ==> a.positions@[m]@ == b.positions@[m]@
}

impl<F: Copy> SmartBuffer<F> {
    /// The buffer is usable: positive tempo, one onset list per mode, each
    /// list tiling the frame range.
    pub open spec fn wf(self) -> bool {
        &&& self.original_tempo >= 1
        &&& self.positions@.len() == MODE_COUNT
        &&& forall|m: int| 0 <= m < MODE_COUNT
            ==> onsets_wf(#[trigger] self.positions@[m]@, self.frames@.len() as int)
    }

    /// An empty buffer at a neutral tempo: no frames, every onset list
    /// holding the single boundary 0.
    pub fn new_empty() -> (r: SmartBuffer<F>)
        ensures
            r.wf(),
            r.frames@.len() == 0,
            r.original_tempo == 120,
    {
        let mut positions: Vec<Vec<usize>> = Vec::with_capacity(MODE_COUNT);
        let mut m: usize = 0;
        while m < MODE_COUNT
            invariant
                m <= MODE_COUNT,
                positions@.len() == m,
                forall|i: int| 0 <= i < m ==> onsets_wf(#[trigger] positions@[i]@, 0),
            decreases MODE_COUNT - m,
        {
            let mut p: Vec<usize> = Vec::with_capacity(1);
            p.push(0);
            positions.push(p);
            m = m + 1;
        }
        SmartBuffer { frames: Vec::new(), original_tempo: 120, positions }
    }

    /// Deep-copy `other` into this buffer, reusing the backing storage.
    pub fn copy_from(&mut self, other: &SmartBuffer<F>)
        ensures
            same_buffer(*final(self), *other),
            other.wf() ==> final(self).wf(),
    {
        self.frames.clear();
        let n: usize = other.frames.len();
        let mut i: usize = 0;
        while i < n
            invariant
                i <= n,
                n == other.frames@.len(),
                self.frames@ == other.frames@.take(i as int),
            decreases n - i,
        {
            self.frames.push(other.frames[i]);
            proof {
                assert(self.frames@ =~= other.frames@.take(i + 1));
            }
            i = i + 1;
        }
        proof {
            assert(self.frames@ =~= other.frames@);
        }
        self.original_tempo = other.original_tempo;
        self.positions.clear();
        let nm: usize = other.positions.len();
        let mut m: usize = 0;
        while m < nm
            invariant
                m <= nm,
                nm == other.positions@.len(),
                self.positions@.len() == m,
                self.frames@ == other.frames@,
                self.original_tempo == other.original_tempo,
                forall|a: int| 0 <= a < m ==> self.positions@[a]@ == other.positions@[a]@,
            decreases nm - m,
        {
            let src: &Vec<usize> = &other.positions[m];
            let mut dst: Vec<usize> = Vec::with_capacity(src.len());
            let nk: usize = src.len();
            let mut k: usize = 0;
            while k < nk
                invariant
                    k <= nk,
                    nk == src@.len(),
                    dst@ == src@.take(k as int),
                decreases nk - k,
            {
                dst.push(src[k]);
                proof {
                    assert(dst@ =~= src@.take(k + 1));
                }
                k = k + 1;
            }
            proof {
                assert(dst@ =~= src@);
            }
            self.positions.push(dst);
            m = m + 1;
        }
        proof {
            if other.wf() {
                assert forall|a: int| 0 <= a < MODE_COUNT
                    implies onsets_wf(#[trigger] self.positions@[a]@, self.frames@.len() as int) by {
                    assert(self.positions@[a]@ == other.positions@[a]@);
                    assert(onsets_wf(other.positions@[a]@, other.frames@.len() as int));
                }
            }
        }
    }

    /// Build a buffer from frames, a tempo, and one onset list used for
    /// every mode. Returns `None`, leaving nothing built, when the inputs
    /// do not form a usable buffer: a zero tempo, or an onset list that
    /// does not start at 0, ascend strictly, and end at the buffer length.
    pub fn from_onsets(frames: Vec<F>, original_tempo: u64, onsets: Vec<usize>) -> (r: Option<
        SmartBuffer<F>,
    >)
        ensures
            match r {
                Some(b) => {
                    &&& b.wf()
                    &&& b.frames@ == frames@
                    &&& b.original_tempo == original_tempo
                    &&& forall|m: int| 0 <= m < MODE_COUNT
                        ==> b.positions@[m]@ == onsets@
                },
                None => !(original_tempo >= 1 && onsets_wf(onsets@, frames@.len() as int)),
            },
    {
        if original_tempo < 1 {
            return None;
        }
        if onsets.len() == 0 {
            return None;
        }
        if onsets[0] != 0 {
            return None;
        }
        if onsets[onsets.len() - 1] != frames.len() {
            return None;
        }
        let mut i: usize = 0;
        while i + 1 < onsets.len()
            invariant
                i < onsets@.len(),
                forall|a: int, b: int| 0 <= a < b <= i ==> onsets@[a] < onsets@[b],
            decreases onsets@.len() - i,
        {
            if onsets[i] >= onsets[i + 1] {
                return None;
            }
            proof {
                assert forall|a: int, b: int| 0 <= a < b <= i + 1
                    implies onsets@[a] < onsets@[b] by {
                    if b == i + 1 {
                        assert(onsets@[a] <= onsets@[i as int]);
                    }
                }
            }
            i = i + 1;
        }
        let mut positions: Vec<Vec<usize>> = Vec::with_capacity(MODE_COUNT);
        let mut m: usize = 0;
        while m < MODE_COUNT
            invariant
                m <= MODE_COUNT,
                positions@.len() == m,
                forall|a: int| 0 <= a < m ==> positions@[a]@ == onsets@,
            decreases MODE_COUNT - m,
        {
            let mut p: Vec<usize> = Vec::with_capacity(onsets.len());
            let nk: usize = onsets.len();
            let mut k: usize = 0;
            while k < nk
                invariant
                    k <= nk,
                    nk == onsets@.len(),
                    p@ == onsets@.take(k as int),
                decreases nk - k,
            {
                p.push(onsets[k]);
                proof {
                    assert(p@ =~= onsets@.take(k + 1));
                }
                k = k + 1;
            }
            proof {
                assert(p@ =~= onsets@);
            }
            positions.push(p);
            m = m + 1;
        }
        Some(SmartBuffer { frames, original_tempo, positions })
    }
}

} // verus!
