//! Envelope utilities: fade-in / fade-out amplitude multipliers applied to
//! every slice frame, and a short forced fade-to-silence helper used to mask
//! discontinuities.
//!
//! All gains are fixed-point integers in units of [`crate::GAIN_ONE`].

use vstd::prelude::*;
use crate::GAIN_ONE;

verus! {

/// Length, in samples, of the rising ramp at the start of every slice.
pub const SLICE_FADE_IN: usize = 64;

/// Length, in samples, of the falling ramp at the end of every slice.
pub const SLICE_FADE_OUT: usize = 128;

/// Length, in samples, of the forced fade-to-silence helper.
pub const SLICER_T_FADE_OUT: usize = 1024;

/// Makeup gain compensating the average attenuation of the overlapping
/// envelopes: 1.45 in units of `GAIN_ONE`.
pub const MAKEUP_GAIN: u64 = 1_450_000;

/// Rising ramp: 0 at cursor 0, full gain from cursor `fade` on.
pub open spec fn spec_fade_in(cursor: int, fade: int) -> int {
    if cursor >= fade {
        GAIN_ONE as int
    } else {
        cursor * (GAIN_ONE as int) / fade
    }
}

/// Falling ramp: full gain until `total - fade`, 0 from cursor `total` on.
pub open spec fn spec_fade_out(cursor: int, fade: int, total: int) -> int {
    if cursor >= total {
        0
    } else if total - cursor < fade {
        (total - cursor) * (GAIN_ONE as int) / fade
    } else {
        GAIN_ONE as int
    }
}

/// The whole per-frame slice envelope: fade-in times fade-out times makeup
/// gain, each product rescaled back into `GAIN_ONE` units.
pub open spec fn spec_slice_gain(cursor: int, eff_len: int) -> int {
    spec_fade_in(cursor, SLICE_FADE_IN as int)
        * spec_fade_out(cursor, SLICE_FADE_OUT as int, eff_len)
        / (GAIN_ONE as int)
        * (MAKEUP_GAIN as int)
        / (GAIN_ONE as int)
}

/// Fixed-point rising fade ramp.
pub fn fade_in_gain(cursor: usize, fade: usize) -> (r: u64)
    requires
        fade >= 1,
    ensures
        r == spec_fade_in(cursor as int, fade as int),
        r <= GAIN_ONE,
{
    if cursor >= fade {
        GAIN_ONE
    } else {
        let q: u128 = (cursor as u128) * (GAIN_ONE as u128) / (fade as u128);
        proof {
            vstd::arithmetic::div_mod::lemma_div_is_ordered(
                cursor as int * GAIN_ONE as int,
                fade as int * GAIN_ONE as int,
                fade as int,
            );
            vstd::arithmetic::div_mod::lemma_div_multiples_vanish(
                GAIN_ONE as int,
                fade as int,
            );
        }
        q as u64
    }
}

/// Fixed-point falling fade ramp over the last `fade` samples of `total`.
pub fn fade_out_gain(cursor: usize, fade: usize, total: usize) -> (r: u64)
    requires
        fade >= 1,
    ensures
        r == spec_fade_out(cursor as int, fade as int, total as int),
        r <= GAIN_ONE,
{
    if cursor >= total {
        0
    } else if total - cursor < fade {
        let q: u128 = ((total - cursor) as u128) * (GAIN_ONE as u128) / (fade as u128);
        proof {
            vstd::arithmetic::div_mod::lemma_div_is_ordered(
                (total - cursor) as int * GAIN_ONE as int,
                fade as int * GAIN_ONE as int,
                fade as int,
            );
            vstd::arithmetic::div_mod::lemma_div_multiples_vanish(
                GAIN_ONE as int,
                fade as int,
            );
        }
        q as u64
    } else {
        GAIN_ONE
    }
}

/// The gain applied to the frame read at `cursor` from a slice whose
/// effective length is `eff_len`.
pub fn slice_gain(cursor: usize, eff_len: usize) -> (r: u64)
    ensures
        r == spec_slice_gain(cursor as int, eff_len as int),
        r <= MAKEUP_GAIN,
{
    let fi: u64 = fade_in_gain(cursor, SLICE_FADE_IN);
    let fo: u64 = fade_out_gain(cursor, SLICE_FADE_OUT, eff_len);
    proof {
        vstd::arithmetic::mul::lemma_mul_upper_bound(
            fi as int,
            GAIN_ONE as int,
            fo as int,
            GAIN_ONE as int,
        );
    }
    let mixed: u128 = (fi as u128) * (fo as u128) / (GAIN_ONE as u128);
    proof {
        vstd::arithmetic::div_mod::lemma_div_is_ordered(
            fi as int * fo as int,
            GAIN_ONE as int * GAIN_ONE as int,
            GAIN_ONE as int,
        );
        vstd::arithmetic::div_mod::lemma_div_multiples_vanish(
            GAIN_ONE as int,
            GAIN_ONE as int,
        );
        vstd::arithmetic::mul::lemma_mul_upper_bound(
            mixed as int,
            GAIN_ONE as int,
            MAKEUP_GAIN as int,
            MAKEUP_GAIN as int,
        );
    }
    let scaled: u128 = mixed * (MAKEUP_GAIN as u128) / (GAIN_ONE as u128);
    proof {
        vstd::arithmetic::div_mod::lemma_div_is_ordered(
            mixed as int * MAKEUP_GAIN as int,
            GAIN_ONE as int * MAKEUP_GAIN as int,
            GAIN_ONE as int,
        );
        vstd::arithmetic::div_mod::lemma_div_multiples_vanish(
            MAKEUP_GAIN as int,
            GAIN_ONE as int,
        );
    }
    scaled as u64
}

/// The envelope is silent once the cursor has consumed the slice's
/// effective length: the gain at or past the end is exactly zero.
pub proof fn lemma_envelope_silent_when_consumed(cursor: int, eff_len: int)
    requires
        cursor >= eff_len,
    ensures
        spec_slice_gain(cursor, eff_len) == 0,
{
    assert(spec_fade_out(cursor, SLICE_FADE_OUT as int, eff_len) == 0);
    vstd::arithmetic::mul::lemma_mul_basics(spec_fade_in(cursor, SLICE_FADE_IN as int));
    vstd::arithmetic::div_mod::lemma_div_of0(GAIN_ONE as int);
}

/// The first audible frame of a slice is nearly silent: with the cursor
/// at 1 (it advances before the envelope is read) and the fade-out region
/// not yet reached, the gain is under one fortieth of unity.
pub proof fn lemma_envelope_first_frame_faint(eff_len: int)
    requires
        eff_len >= SLICE_FADE_OUT + 1,
    ensures
        spec_slice_gain(1, eff_len) * 40 <= GAIN_ONE,
{
    assert(spec_fade_in(1, SLICE_FADE_IN as int) == 15_625);
    assert(spec_fade_out(1, SLICE_FADE_OUT as int, eff_len) == GAIN_ONE);
    vstd::arithmetic::div_mod::lemma_div_multiples_vanish(15_625, GAIN_ONE as int);
    assert(15_625 * (GAIN_ONE as int) == (GAIN_ONE as int) * 15_625);
    assert(15_625 * (MAKEUP_GAIN as int) / (GAIN_ONE as int) == 22_656);
}

/// Away from both ramps the envelope applies exactly the makeup gain: once
/// the fade-in has completed and before the fade-out region begins, the gain
/// is `MAKEUP_GAIN`.
pub proof fn lemma_envelope_full_mid(cursor: int, eff_len: int)
    requires
        SLICE_FADE_IN <= cursor,
        cursor + SLICE_FADE_OUT <= eff_len,
    ensures
        spec_slice_gain(cursor, eff_len) == MAKEUP_GAIN,
{
    assert(spec_fade_in(cursor, SLICE_FADE_IN as int) == GAIN_ONE);
    assert(spec_fade_out(cursor, SLICE_FADE_OUT as int, eff_len) == GAIN_ONE);
    vstd::arithmetic::div_mod::lemma_div_multiples_vanish(GAIN_ONE as int, GAIN_ONE as int);
    vstd::arithmetic::div_mod::lemma_div_multiples_vanish(MAKEUP_GAIN as int, GAIN_ONE as int);
    assert(GAIN_ONE as int * MAKEUP_GAIN as int == GAIN_ONE as int * MAKEUP_GAIN as int);
}

/// Over the closing fade-out region the envelope never rises: for any two
/// cursors past the fade-in ramp and inside the final `SLICE_FADE_OUT`
/// samples of the effective length, the later gain is at most the earlier.
pub proof fn lemma_envelope_tail_monotone(c1: int, c2: int, eff_len: int)
    requires
        SLICE_FADE_IN <= c1 <= c2,
        eff_len - SLICE_FADE_OUT <= c1,
    ensures
        spec_slice_gain(c2, eff_len) <= spec_slice_gain(c1, eff_len),
{
    let g: int = GAIN_ONE as int;
    let fade: int = SLICE_FADE_OUT as int;
    let fo1: int = spec_fade_out(c1, fade, eff_len);
    let fo2: int = spec_fade_out(c2, fade, eff_len);
    assert(fo2 <= fo1) by {
        if c1 >= eff_len {
            assert(fo1 == 0 && fo2 == 0);
        } else if c2 >= eff_len {
            assert(fo2 == 0);
            if eff_len - c1 < fade {
                vstd::arithmetic::div_mod::lemma_div_pos_is_pos((eff_len - c1) * g, fade);
            }
        } else {
            if eff_len - c1 < fade {
                vstd::arithmetic::mul::lemma_mul_inequality(eff_len - c2, eff_len - c1, g);
                vstd::arithmetic::div_mod::lemma_div_is_ordered(
                    (eff_len - c2) * g,
                    (eff_len - c1) * g,
                    fade,
                );
            } else {
                assert(eff_len - c1 == fade);
                assert(fo1 == g);
                if eff_len - c2 < fade {
                    vstd::arithmetic::mul::lemma_mul_inequality(eff_len - c2, fade, g);
                    vstd::arithmetic::div_mod::lemma_div_is_ordered(
                        (eff_len - c2) * g,
                        fade * g,
                        fade,
                    );
                    vstd::arithmetic::div_mod::lemma_div_multiples_vanish(g, fade);
                }
            }
        }
    }
    assert(spec_fade_in(c1, SLICE_FADE_IN as int) == g);
    assert(spec_fade_in(c2, SLICE_FADE_IN as int) == g);
    vstd::arithmetic::div_mod::lemma_div_multiples_vanish(fo1, g);
    vstd::arithmetic::div_mod::lemma_div_multiples_vanish(fo2, g);
    assert(g * fo1 / g == fo1);
    assert(g * fo2 / g == fo2);
    vstd::arithmetic::mul::lemma_mul_inequality(fo2, fo1, MAKEUP_GAIN as int);
    vstd::arithmetic::div_mod::lemma_div_is_ordered(
        fo2 * MAKEUP_GAIN as int,
        fo1 * MAKEUP_GAIN as int,
        g,
    );
}

/// A short forced fade to silence, armed when a discontinuity is expected.
/// Inactive it is a neutral gain; once started it ramps from full gain down
/// to silence over `len` samples.
pub struct MicroFadeOut {
    /// Whether the fade is armed.
    pub active: bool,
    /// Samples elapsed since the fade started.
    pub pos: usize,
    /// Total length of the fade in samples.
    pub len: usize,
}

impl MicroFadeOut {
    /// The fade state is usable: an armed fade has a positive length and a
    /// cursor no further than its end.
    pub open spec fn wf(self) -> bool {
        self.active ==> self.len >= 1 && self.pos <= self.len
    }

    /// The gain this fade currently applies.
    pub open spec fn spec_gain(self) -> int {
        if !self.active {
            GAIN_ONE as int
        } else {
            spec_fade_out(self.pos as int, self.len as int, self.len as int)
        }
    }

    /// A fresh, disarmed fade.
    pub fn new() -> (r: MicroFadeOut)
        ensures
            !r.active,
            r.wf(),
    {
        MicroFadeOut { active: false, pos: 0, len: 0 }
    }

    /// Arm the fade over `len` samples.
    pub fn start(&mut self, len: usize)
        requires
            len >= 1,
        ensures
            final(self).active,
            final(self).pos == 0,
            final(self).len == len,
            final(self).wf(),
    {
        self.active = true;
        self.pos = 0;
        self.len = len;
    }

    /// Advance the fade by one sample; reports whether it is still fading
    /// (`false` once silence is reached).
    pub fn next_and_check(&mut self) -> (still: bool)
        requires
            old(self).wf(),
        ensures
            final(self).wf(),
            final(self).active == old(self).active,
            final(self).len == old(self).len,
            old(self).active ==> final(self).pos == if old(self).pos < old(self).len {
                old(self).pos + 1
            } else {
                old(self).pos as int
            },
            !old(self).active ==> *final(self) == *old(self),
            still == (final(self).active && final(self).pos < final(self).len),
    {
        if self.active && self.pos < self.len {
            self.pos = self.pos + 1;
        }
        self.active && self.pos < self.len
    }

    /// The gain to multiply the current frame by.
    pub fn gain(&self) -> (r: u64)
        requires
            self.wf(),
        ensures
            r == self.spec_gain(),
            r <= GAIN_ONE,
    {
        if !self.active {
            GAIN_ONE
        } else {
            fade_out_gain(self.pos, self.len, self.len)
        }
    }
}

} // verus!
