use slicer::control::{ControlMessage, SlicerMessage};
use slicer::gen::SlicerGen;
use slicer::slice::FrameOut;
use slicer::slice_seq::{SliceSeq, TransformType};
use slicer::smart_buffer::SmartBuffer;

/// A buffer of `len` frames all holding `value`, sliced every `step`
/// samples, recorded at `tempo` beats per minute.
fn test_buffer(len: usize, step: usize, tempo: u64, value: f32) -> SmartBuffer<f32> {
    let frames: Vec<f32> = vec![value; len];
    let mut onsets: Vec<usize> = Vec::new();
    let mut x = 0;
    while x < len {
        onsets.push(x);
        x += step;
    }
    onsets.push(len);
    SmartBuffer::from_onsets(frames, tempo, onsets).unwrap()
}

#[test]
fn from_onsets_rejects_bad_metadata() {
    // onsets must start at 0, ascend strictly, and end at the length
    assert!(SmartBuffer::from_onsets(vec![0.0f32; 10], 120, vec![1, 10]).is_none());
    assert!(SmartBuffer::from_onsets(vec![0.0f32; 10], 120, vec![0, 5, 5, 10]).is_none());
    assert!(SmartBuffer::from_onsets(vec![0.0f32; 10], 120, vec![0, 5, 9]).is_none());
    assert!(SmartBuffer::from_onsets(vec![0.0f32; 10], 0, vec![0, 10]).is_none());
    assert!(SmartBuffer::from_onsets(vec![0.0f32; 10], 120, vec![0, 5, 10]).is_some());
}

#[test]
fn local_clock_wraps_within_buffer() {
    // driving ticks past one full loop keeps the clock in [0, len)
    let buf = test_buffer(400, 100, 120, 1.0);
    let mut seq: SliceSeq<f32> = SliceSeq::new(1);
    seq.do_load_buffer(&buf);
    for tick in 0..2000u64 {
        seq.sync(120, tick);
        let clock = seq.get_local_clock();
        assert!(clock < 400);
    }
}

#[test]
fn local_clock_zero_without_buffer() {
    let mut seq: SliceSeq<f32> = SliceSeq::new(1);
    seq.sync(120, 99);
    assert_eq!(seq.get_local_clock(), 0);
}

#[test]
fn next_frame_is_silent_without_buffer() {
    let buf = test_buffer(400, 100, 120, 1.0);
    let mut seq: SliceSeq<f32> = SliceSeq::new(1);
    let out: FrameOut<f32> = seq.next_frame(&buf);
    assert!(out.sample.is_none());
}

#[test]
fn commit_load_resets_playing_after_transform() {
    // applying RandSwap then reloading leaves `playing` identical to a
    // fresh load with no transform applied
    let buf = test_buffer(400, 100, 120, 1.0);
    let mut seq: SliceSeq<f32> = SliceSeq::new(5);
    seq.do_load_buffer(&buf);
    seq.do_rand_swap();
    seq.do_load_buffer(&buf);

    let mut fresh: SliceSeq<f32> = SliceSeq::new(77);
    fresh.do_load_buffer(&buf);

    assert_eq!(
        seq.slices_playing.ord_keys(),
        fresh.slices_playing.ord_keys()
    );
    for k in seq.slices_playing.ord_keys() {
        let a = seq.slices_playing.get(k).unwrap();
        let b = fresh.slices_playing.get(k).unwrap();
        assert_eq!(a, b);
    }
}

#[test]
fn selection_follows_the_clock() {
    let buf = test_buffer(400, 100, 120, 1.0);
    let mut seq: SliceSeq<f32> = SliceSeq::new(1);
    seq.do_load_buffer(&buf);
    // tick 46 lands the wrapped clock at frame 262: slice 200 covers it
    seq.sync(120, 46);
    seq.update(&buf);
    assert_eq!(seq.curr_slice.0, 200);
    // tick 47 lands at frame 381: slice 300 covers it
    seq.sync(120, 47);
    seq.update(&buf);
    assert_eq!(seq.curr_slice.0, 300);
}

#[test]
fn deferred_swap_commits_at_boundary() {
    let buf_a = test_buffer(400, 100, 120, 1.0);
    let buf_b = test_buffer(800, 200, 120, 2.0);
    let mut gen: SlicerGen<f32> = SlicerGen::new(3);
    gen.load_buffer(&buf_a);
    gen.sync(120, 46);
    gen.play();
    gen.next();
    // requesting a second load defers: the local copy still holds A
    gen.load_buffer(&buf_b);
    assert_eq!(
        gen.slice_seq.local_sbuffer.as_ref().unwrap().frames.len(),
        400
    );
    assert!(gen.slice_seq.next_buffer_change.is_some());
    // crossing into the next slice of B's timeline commits the swap
    gen.sync(120, 48);
    gen.next();
    assert_eq!(
        gen.slice_seq.local_sbuffer.as_ref().unwrap().frames.len(),
        800
    );
    assert!(gen.slice_seq.next_buffer_change.is_none());
    // and the frames now come from B
    let out = gen.next().unwrap();
    assert_eq!(out.sample, Some(2.0f32));
}

#[test]
fn quant_repeat_end_to_end() {
    // a buffer with onsets [0,100,200,300,400]; a QuantRepeat issued while
    // slice 2 (keyed 200) plays yields four slices at keys 0,100,200,300,
    // all covering the source range [200,300)
    let buf = test_buffer(400, 100, 120, 1.0);
    let mut gen: SlicerGen<f32> = SlicerGen::new(9);
    gen.load_buffer(&buf);
    gen.play();
    gen.sync(120, 46);
    gen.next();
    assert_eq!(gen.slice_seq.curr_slice.0, 200);
    // the repeat request captures the currently selected slice key
    gen.push_control_message(ControlMessage::Slicer {
        tcode: 0,
        track_num: 0,
        message: SlicerMessage::Transform(TransformType::QuantRepeat {
            quant: 100,
            slice_index: 0,
        }),
    });
    assert_eq!(
        gen.slice_seq.next_transform,
        Some(TransformType::QuantRepeat { quant: 100, slice_index: 200 })
    );
    // the transform applies at the next slice boundary
    gen.sync(120, 47);
    gen.next();
    assert_eq!(gen.slice_seq.next_transform, None);
    let keys = gen.slice_seq.slices_playing.ord_keys().to_vec();
    assert_eq!(keys, vec![0, 100, 200, 300]);
    for (i, k) in keys.iter().enumerate() {
        let s = gen.slice_seq.slices_playing.get(k).unwrap();
        assert_eq!(s.id, i);
        assert_eq!(s.start, 200);
        assert_eq!(s.end, 300);
    }
}

#[test]
fn reset_transform_restores_original_order() {
    let buf = test_buffer(400, 100, 120, 1.0);
    let mut seq: SliceSeq<f32> = SliceSeq::new(11);
    seq.do_load_buffer(&buf);
    seq.do_quant_repeat(100, 100);
    seq.do_reset();
    for k in [0usize, 100, 200, 300] {
        let s = seq.slices_playing.get(&k).unwrap();
        assert_eq!(s.start, k);
        assert_eq!(s.end, k + 100);
    }
}

#[test]
fn stopped_generator_fills_silence_without_advancing() {
    let buf = test_buffer(400, 100, 120, 1.0);
    let mut gen: SlicerGen<f32> = SlicerGen::new(2);
    gen.load_buffer(&buf);
    gen.sync(120, 3);
    let ticks_before = gen.slice_seq.frames_since_sync;
    let mut block: Vec<FrameOut<f32>> = vec![
        FrameOut { sample: Some(9.0), gain: 1 };
        8
    ];
    gen.next_block(&mut block);
    for f in &block {
        assert!(f.sample.is_none());
    }
    assert_eq!(gen.slice_seq.frames_since_sync, ticks_before);
}

#[test]
fn playing_generator_fills_block_with_frames() {
    let buf = test_buffer(400, 100, 120, 0.25);
    let mut gen: SlicerGen<f32> = SlicerGen::new(2);
    // play before load is refused
    gen.play();
    gen.load_buffer(&buf);
    gen.sync(120, 46);
    gen.play();
    let mut block: Vec<FrameOut<f32>> = vec![
        FrameOut { sample: None, gain: 0 };
        64
    ];
    gen.next_block(&mut block);
    for f in &block {
        assert_eq!(f.sample, Some(0.25f32));
    }
    // the fractional clock advanced once per produced frame
    assert_eq!(gen.slice_seq.frames_since_sync, 64);
}

#[test]
fn unaddressed_messages_are_dropped() {
    let buf = test_buffer(400, 100, 120, 1.0);
    let mut gen: SlicerGen<f32> = SlicerGen::new(2);
    gen.load_buffer(&buf);
    gen.push_control_message(ControlMessage::TrackLoopDiv {
        tcode: 0,
        val: 4,
        track_num: 1,
    });
    gen.push_control_message(ControlMessage::TrackNextSample { tcode: 0, track_num: 1 });
    gen.push_control_message(ControlMessage::TrackPrevSample { tcode: 0, track_num: 1 });
    assert_eq!(gen.slice_seq.next_transform, None);
}

#[test]
fn transport_setters() {
    let mut gen: SlicerGen<f32> = SlicerGen::new(2);
    gen.set_playback_mult(3);
    gen.set_loop_div(8);
    assert_eq!(gen.sample_gen.playback_mult, 3);
    assert_eq!(gen.sample_gen.next_loop_div, 8);
    let buf = test_buffer(100, 50, 120, 1.0);
    gen.load_buffer(&buf);
    gen.play();
    gen.stop();
    let mut block: Vec<FrameOut<f32>> = vec![FrameOut { sample: None, gain: 0 }; 4];
    gen.next_block(&mut block);
    assert!(block.iter().all(|f| f.sample.is_none()));
}

#[test]
fn sync_resets_the_elapsed_counter() {
    // elapsed frames reset to 0 exactly on every sync and only grow
    // between syncs
    let buf = test_buffer(400, 100, 120, 1.0);
    let mut seq: SliceSeq<f32> = SliceSeq::new(4);
    seq.do_load_buffer(&buf);
    seq.sync(120, 0);
    let base = seq.get_local_clock();
    for _ in 0..10 {
        seq.next_frame(&buf);
    }
    assert_eq!(seq.frames_since_sync, 10);
    assert_eq!(seq.get_local_clock(), base + 10);
    seq.sync(120, 0);
    assert_eq!(seq.frames_since_sync, 0);
    assert_eq!(seq.get_local_clock(), base);
}

#[test]
fn playback_rate_follows_tempo_ratio() {
    let buf = test_buffer(400, 100, 90, 1.0);
    let mut seq: SliceSeq<f32> = SliceSeq::new(4);
    // a neutral ratio before anything is loaded
    let (num, den) = seq.playback_rate();
    assert_eq!(num, den);
    seq.do_load_buffer(&buf);
    seq.sync(135, 0);
    assert_eq!(seq.playback_rate(), (135, 90));
}

#[test]
fn quant_repeat_with_zero_step_is_dropped() {
    let buf = test_buffer(400, 100, 120, 1.0);
    let mut seq: SliceSeq<f32> = SliceSeq::new(6);
    seq.do_load_buffer(&buf);
    seq.do_quant_repeat(0, 100);
    assert_eq!(
        seq.slices_playing.ord_keys().to_vec(),
        vec![0, 100, 200, 300]
    );
}

#[test]
fn quant_repeat_on_missing_slice_is_dropped() {
    let buf = test_buffer(400, 100, 120, 1.0);
    let mut seq: SliceSeq<f32> = SliceSeq::new(6);
    seq.do_load_buffer(&buf);
    seq.do_quant_repeat(100, 123);
    assert_eq!(
        seq.slices_playing.ord_keys().to_vec(),
        vec![0, 100, 200, 300]
    );
}

#[test]
fn rand_swap_after_repeat_is_dropped() {
    // after a repeat the playing keys no longer all exist in the original
    // map, so a random swap has nothing sound to draw from and is dropped
    let buf = test_buffer(400, 150, 120, 1.0);
    let mut seq: SliceSeq<f32> = SliceSeq::new(6);
    seq.do_load_buffer(&buf);
    // original keys are 0, 150, 300; repeat re-keys to 0, 100, 200, 300
    seq.do_quant_repeat(100, 150);
    let before: Vec<usize> = seq
        .slices_playing
        .ord_keys()
        .iter()
        .map(|k| seq.slices_playing.get(k).unwrap().start)
        .collect();
    seq.do_rand_swap();
    let after: Vec<usize> = seq
        .slices_playing
        .ord_keys()
        .iter()
        .map(|k| seq.slices_playing.get(k).unwrap().start)
        .collect();
    assert_eq!(before, after);
}
