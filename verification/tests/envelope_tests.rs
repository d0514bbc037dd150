use slicer::envelope::{
    fade_in_gain, fade_out_gain, slice_gain, MicroFadeOut, MAKEUP_GAIN, SLICE_FADE_IN,
    SLICE_FADE_OUT,
};
use slicer::slice::Slice;
use slicer::GAIN_ONE;

#[test]
fn fade_in_ramp_values() {
    assert_eq!(fade_in_gain(0, 64), 0);
    assert_eq!(fade_in_gain(1, 64), GAIN_ONE / 64);
    assert_eq!(fade_in_gain(32, 64), GAIN_ONE / 2);
    assert_eq!(fade_in_gain(64, 64), GAIN_ONE);
    assert_eq!(fade_in_gain(1000, 64), GAIN_ONE);
}

#[test]
fn fade_out_ramp_values() {
    // full gain before the fade-out region
    assert_eq!(fade_out_gain(0, 128, 256), GAIN_ONE);
    assert_eq!(fade_out_gain(128, 128, 256), GAIN_ONE);
    // half way down the closing ramp
    assert_eq!(fade_out_gain(192, 128, 256), GAIN_ONE / 2);
    // silent at and past the end
    assert_eq!(fade_out_gain(256, 128, 256), 0);
    assert_eq!(fade_out_gain(300, 128, 256), 0);
}

#[test]
fn slice_gain_exact_values() {
    // mid-slice: exactly the makeup gain
    assert_eq!(slice_gain(64, 256), MAKEUP_GAIN);
    assert_eq!(slice_gain(128, 256), MAKEUP_GAIN);
    // one frame in: a small but non-zero gain
    assert_eq!(slice_gain(1, 256), 15_625 * MAKEUP_GAIN / GAIN_ONE);
    // deep in the fade-out region
    assert_eq!(slice_gain(200, 256), 437_500 * MAKEUP_GAIN / GAIN_ONE);
    // consumed boundary: silence
    assert_eq!(slice_gain(256, 256), 0);
}

#[test]
fn slice_envelope_shape() {
    // len=256, fade_in=64, fade_out=128, playback rate 1.0 (120/120):
    // frame 0 is nearly silent, full gain is reached by frame 64, and the
    // final 128 frames form a non-increasing ramp reaching 0 at the end.
    assert_eq!(SLICE_FADE_IN, 64);
    assert_eq!(SLICE_FADE_OUT, 128);
    let frames: Vec<f32> = vec![1.0f32; 256];
    let mut s = Slice { id: 0, start: 0, end: 256, cursor: 0 };
    let mut gains: Vec<u64> = Vec::new();
    for _ in 0..256 {
        let out = s.next_frame(120, 120, &frames);
        assert!(out.sample.is_some());
        gains.push(out.gain);
    }
    // frame 0 amplitude factor is (almost) zero: under 3% of unity
    assert!(gains[0] < GAIN_ONE * 3 / 100);
    // full gain from frame 64 up to the fade-out region
    assert_eq!(gains[63], MAKEUP_GAIN);
    for i in 63..128 {
        assert_eq!(gains[i], MAKEUP_GAIN);
    }
    // the last 128 frames never rise and end in silence
    for i in 128..255 {
        assert!(gains[i + 1] <= gains[i]);
    }
    assert_eq!(gains[255], 0);
    // past the end the slice is consumed: silence
    let out = s.next_frame(120, 120, &frames);
    assert!(out.sample.is_none());
    assert_eq!(out.gain, 0);
}

#[test]
fn slice_cursor_and_remaining() {
    let frames: Vec<f32> = vec![0.5f32; 100];
    let mut s = Slice { id: 3, start: 10, end: 20, cursor: 0 };
    assert_eq!(s.len(), 10);
    assert_eq!(s.remaining(), 10);
    assert!(!s.is_consumed());
    let out = s.next_frame(120, 120, &frames);
    assert_eq!(out.sample, Some(0.5f32));
    assert_eq!(s.cursor, 1);
    for _ in 0..9 {
        s.next_frame(120, 120, &frames);
    }
    assert!(s.is_consumed());
    assert_eq!(s.remaining(), 0);
    // the cursor parks at the end instead of growing without bound
    s.next_frame(120, 120, &frames);
    assert_eq!(s.cursor, 10);
}

#[test]
fn slice_out_of_range_read_is_silent() {
    // defensive: a slice pointing past the buffer yields silence
    let frames: Vec<f32> = vec![1.0f32; 4];
    let mut s = Slice { id: 0, start: 2, end: 8, cursor: 0 };
    let a = s.next_frame(120, 120, &frames);
    assert_eq!(a.sample, Some(1.0f32));
    let b = s.next_frame(120, 120, &frames);
    assert_eq!(b.sample, Some(1.0f32));
    let c = s.next_frame(120, 120, &frames);
    assert!(c.sample.is_none());
}

#[test]
fn faster_playback_shortens_envelope() {
    // at double tempo the effective length halves, so the fade-out sets
    // in earlier: by frame 200 the double-speed slice is already silent
    let frames: Vec<f32> = vec![1.0f32; 256];
    let mut normal = Slice { id: 0, start: 0, end: 256, cursor: 0 };
    let mut fast = Slice { id: 0, start: 0, end: 256, cursor: 0 };
    let mut g_normal: u64 = 0;
    let mut g_fast: u64 = 0;
    for _ in 0..200 {
        g_normal = normal.next_frame(120, 120, &frames).gain;
        g_fast = fast.next_frame(240, 120, &frames).gain;
    }
    assert_eq!(g_fast, 0);
    assert!(g_normal > 0);
}

#[test]
fn micro_fade_out_ramp() {
    let mut f = MicroFadeOut::new();
    assert_eq!(f.gain(), GAIN_ONE);
    f.start(4);
    assert_eq!(f.gain(), GAIN_ONE);
    assert!(f.next_and_check());
    assert_eq!(f.gain(), GAIN_ONE * 3 / 4);
    assert!(f.next_and_check());
    assert_eq!(f.gain(), GAIN_ONE / 2);
    assert!(f.next_and_check());
    assert_eq!(f.gain(), GAIN_ONE / 4);
    assert!(!f.next_and_check());
    assert_eq!(f.gain(), 0);
    assert!(!f.next_and_check());
    assert_eq!(f.gain(), 0);
}
