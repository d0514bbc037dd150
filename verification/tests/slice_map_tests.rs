use rand::SeedableRng;
use slicer::slice::Slice;
use slicer::slice_map::SliceMap;

fn slice(id: usize, start: usize, end: usize) -> Slice {
    Slice { id, start, end, cursor: 0 }
}

/// The collection invariant, checked from outside: both sides have the
/// same size, the ordering ascends strictly, and every ordering entry
/// resolves in the keyed collection.
fn check_invariant(m: &SliceMap) {
    let keys = m.ord_keys().to_vec();
    assert_eq!(m.len(), keys.len());
    for w in keys.windows(2) {
        assert!(w[0] < w[1]);
    }
    for k in &keys {
        assert!(m.get(k).is_some());
    }
}

#[test]
fn invariant_through_mutations() {
    let mut m = SliceMap::new();
    check_invariant(&m);
    m.insert(100, slice(1, 100, 200));
    m.insert(0, slice(0, 0, 100));
    m.insert(300, slice(3, 300, 400));
    m.insert(200, slice(2, 200, 300));
    check_invariant(&m);
    assert_eq!(m.ord_keys().to_vec(), vec![0, 100, 200, 300]);

    // upsert on an equal key replaces the value, never duplicates the key
    m.insert(200, slice(9, 150, 250));
    check_invariant(&m);
    assert_eq!(m.len(), 4);
    assert_eq!(m.get(&200).unwrap().id, 9);

    let mut copy = SliceMap::new();
    copy.copy_from(&m);
    check_invariant(&copy);
    assert_eq!(copy.ord_keys(), m.ord_keys());
    assert_eq!(copy.get(&200).unwrap().start, 150);

    m.clear();
    check_invariant(&m);
    assert_eq!(m.len(), 0);
    assert!(m.get(&0).is_none());
}

#[test]
fn quant_repeat_keys_and_ids() {
    // quant=100, slice at key k, max=400 yields exactly keys
    // {0,100,200,300}, each a copy of the slice, with ids 0,1,2,3
    let mut m = SliceMap::new();
    m.insert(0, slice(0, 0, 100));
    m.insert(100, slice(1, 100, 200));
    m.insert(250, slice(2, 250, 320));
    m.quant_repeat(100, 250, 400);
    check_invariant(&m);
    assert_eq!(m.ord_keys().to_vec(), vec![0, 100, 200, 300]);
    for (i, k) in [0usize, 100, 200, 300].iter().enumerate() {
        let s = m.get(k).unwrap();
        assert_eq!(s.id, i);
        assert_eq!(s.start, 250);
        assert_eq!(s.end, 320);
        assert_eq!(s.cursor, 0);
    }
}

#[test]
fn quant_repeat_uneven_step() {
    let mut m = SliceMap::new();
    m.insert(30, slice(0, 30, 60));
    m.quant_repeat(150, 30, 400);
    // keys 0, 150, 300 — the last multiple below 400
    assert_eq!(m.ord_keys().to_vec(), vec![0, 150, 300]);
    check_invariant(&m);
}

#[test]
fn rand_swap_preserves_value_multiset() {
    let mut playing = SliceMap::new();
    let mut orig = SliceMap::new();
    for i in 0..16usize {
        playing.insert(i * 50, slice(i, i * 50, i * 50 + 50));
        orig.insert(i * 50, slice(i, i * 50, i * 50 + 50));
    }
    let mut rng = rand::rngs::StdRng::seed_from_u64(42);
    playing.rand_swap(&orig, &mut rng);
    check_invariant(&playing);
    // the timing slots (keys) are untouched
    assert_eq!(playing.ord_keys(), orig.ord_keys());
    // the slice contents are a permutation of the originals
    let mut ids: Vec<usize> = playing
        .ord_keys()
        .iter()
        .map(|k| playing.get(k).unwrap().id)
        .collect();
    ids.sort();
    let expect: Vec<usize> = (0..16).collect();
    assert_eq!(ids, expect);
    // and the shuffle really moved something: with 16 slots and this
    // seed, at least one slice sits under a new key
    let moved = playing
        .ord_keys()
        .iter()
        .any(|k| playing.get(k).unwrap().start != *k);
    assert!(moved);
}

#[test]
fn rand_swap_reproducible_with_fixed_seed() {
    let mut orig = SliceMap::new();
    for i in 0..12usize {
        orig.insert(i * 10, slice(i, i * 10, i * 10 + 10));
    }
    let mut a = SliceMap::new();
    a.copy_from(&orig);
    let mut b = SliceMap::new();
    b.copy_from(&orig);
    let mut rng_a = rand::rngs::StdRng::seed_from_u64(7);
    let mut rng_b = rand::rngs::StdRng::seed_from_u64(7);
    a.rand_swap(&orig, &mut rng_a);
    b.rand_swap(&orig, &mut rng_b);
    for k in a.ord_keys() {
        assert_eq!(a.get(k).unwrap().id, b.get(k).unwrap().id);
    }
}

#[test]
fn sel_key_picks_covering_slice() {
    let mut m = SliceMap::new();
    for i in 0..4usize {
        m.insert(i * 100, slice(i, i * 100, i * 100 + 100));
    }
    // the greatest key at or below the clock
    assert_eq!(m.sel_key(0), 0);
    assert_eq!(m.sel_key(99), 0);
    assert_eq!(m.sel_key(100), 100);
    assert_eq!(m.sel_key(250), 200);
    assert_eq!(m.sel_key(399), 300);
    assert_eq!(m.sel_key(5000), 300);
}

#[test]
fn sel_key_wraps_to_last_before_first() {
    let mut m = SliceMap::new();
    m.insert(200, slice(0, 200, 300));
    m.insert(500, slice(1, 500, 600));
    // a clock before the first key falls back to the last key
    assert_eq!(m.sel_key(10), 500);
    assert_eq!(m.sel_key(300), 200);
}
