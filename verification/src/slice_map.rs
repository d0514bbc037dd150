//! An ordered, keyed collection of slices.
//!
//! A `SliceMap` pairs a keyed collection (key = slice start offset in the
//! original buffer) with an explicitly maintained ascending key ordering.
//! Its invariant — the key set of the keyed collection always equals the
//! set of ordering entries, with the ordering strictly ascending — is
//! established by the constructor and preserved by every mutator.

use vstd::prelude::*;
use std::collections::HashMap;
use crate::slice::Slice;
use crate::shuffle;

verus! {

broadcast use vstd::std_specs::hash::group_hash_axioms;

/// The keys appear in strictly ascending order.
pub open spec fn strictly_ascending(s: Seq<usize>) -> bool {
    forall|i: int, j: int| 0 <= i < j < s.len() ==> s[i] < s[j]
}

/// The slices a map holds, read out in the order its keys dictate.
pub open spec fn values_of(m: Map<usize, Slice>, keys: Seq<usize>) -> Seq<Slice> {
    Seq::new(keys.len(), |i: int| m[keys[i]])
}

/// How many keys `0, quant, 2*quant, ...` lie strictly below `max`.
pub open spec fn quant_count(quant: int, max: int) -> int {
    if max <= 0 {
        0
    } else {
        (max - 1) / quant + 1
    }
}

/// An ordered, keyed collection of slices. The view `self@` is the keyed
/// collection as a map; [`SliceMap::ord`] is the ascending key ordering.
#[derive(Debug, Clone)]
pub struct SliceMap {
    /// The slices, keyed but unordered.
    unord_slices: HashMap<usize, Slice>,
    /// An ascending copy of the keys.
    ord_keys: Vec<usize>,
    /// Scratch buffer for reordering transforms.
    mangle_keys: Vec<usize>,
}

impl View for SliceMap {
    type V = Map<usize, Slice>;

    closed spec fn view(&self) -> Map<usize, Slice> {
        self.unord_slices@
    }
}

impl SliceMap {
    /// The explicitly maintained ascending key ordering.
    pub closed spec fn ord(self) -> Seq<usize> {
        self.ord_keys@
    }

    /// The collection invariant: the ordering is strictly ascending and its
    /// entries are exactly the keys of the keyed collection.
    pub closed spec fn wf(self) -> bool {
        &&& strictly_ascending(self.ord_keys@)
        &&& self.unord_slices@.dom() == self.ord_keys@.to_set()
    }

    /// What the invariant gives a caller: the ordering ascends strictly, has
    /// no duplicates, and matches the keyed collection key-for-key, so the
    /// two sides always have the same size.
    pub proof fn lemma_wf(self)
        requires
            self.wf(),
        ensures
            strictly_ascending(self.ord()),
            self.ord().no_duplicates(),
            self@.dom() == self.ord().to_set(),
            self@.dom().len() == self.ord().len(),
            forall|i: int| 0 <= i < self.ord().len() ==> self@.dom().contains(#[trigger] self.ord()[i]),
    {
        assert(self.ord().no_duplicates());
        self.ord().unique_seq_to_set();
        assert forall|i: int| 0 <= i < self.ord().len()
            implies self@.dom().contains(#[trigger] self.ord()[i]) by {
            assert(self.ord().contains(self.ord()[i]));
        }
    }

    /// A fresh, empty map with room preallocated.
    pub fn new() -> (r: SliceMap)
        ensures
            r.wf(),
            r@ == Map::<usize, Slice>::empty(),
            r.ord() == Seq::<usize>::empty(),
    {
        let r = SliceMap {
            unord_slices: HashMap::with_capacity(128),
            ord_keys: Vec::with_capacity(128),
            mangle_keys: Vec::with_capacity(128),
        };
        proof {
            assert(r.unord_slices@.dom() =~= r.ord_keys@.to_set());
        }
        r
    }

    /// Number of entries.
    pub fn len(&self) -> (r: usize)
        ensures
            r == self.ord().len(),
    {
        self.ord_keys.len()
    }

    /// Empty both sides, keeping the backing storage.
    pub fn clear(&mut self)
        ensures
            final(self).wf(),
            final(self)@ == Map::<usize, Slice>::empty(),
            final(self).ord() == Seq::<usize>::empty(),
    {
        self.unord_slices.clear();
        self.ord_keys.clear();
        proof {
            assert(self.unord_slices@.dom() =~= self.ord_keys@.to_set());
        }
    }

    /// Look a slice up by key.
    pub fn get(&self, idx: &usize) -> (r: Option<&Slice>)
        ensures
            match r {
                Some(s) => self@.dom().contains(*idx) && *s == self@[*idx],
                None => !self@.dom().contains(*idx),
            },
    {
        self.unord_slices.get(idx)
    }

    /// The ascending key ordering.
    pub fn ord_keys(&self) -> (r: &[usize])
        ensures
            r@ == self.ord(),
    {
        self.ord_keys.as_slice()
    }

    /// Upsert: replace the slice under an existing key, or add the key to
    /// the ordering at its ascending position.
    pub fn insert(&mut self, k: usize, v: Slice)
        requires
            old(self).wf(),
        ensures
            final(self).wf(),
            final(self)@ == old(self)@.insert(k, v),
            final(self).ord().to_set() == old(self).ord().to_set().insert(k),
            old(self)@.dom().contains(k) ==> final(self).ord() == old(self).ord(),
            !old(self)@.dom().contains(k) ==> final(self).ord().len() == old(self).ord().len() + 1,
            (forall|i: int| 0 <= i < old(self).ord().len() ==> old(self).ord()[i] < k)
                ==> final(self).ord() == old(self).ord().push(k),
    {
        proof {
            old(self).lemma_wf();
        }
        let is_new: bool = !self.unord_slices.contains_key(&k);
        self.unord_slices.insert(k, v);
        if is_new {
            proof {
                // a key absent from the collection is absent from the ordering
                if old(self).ord().contains(k) {
                    let i = choose|i: int| 0 <= i < old(self).ord().len()
                        && old(self).ord()[i] == k;
                    assert(old(self)@.dom().contains(k));
                }
            }
            let ghost prior = self.ord_keys@;
            let mut i: usize = 0;
            while i < self.ord_keys.len() && self.ord_keys[i] < k
                invariant
                    i <= self.ord_keys@.len(),
                    self.ord_keys@ == prior,
                    forall|j: int| 0 <= j < i ==> self.ord_keys@[j] < k,
                decreases self.ord_keys@.len() - i,
            {
                i = i + 1;
            }
            self.ord_keys.insert(i, k);
            proof {
                let now = self.ord_keys@;
                assert(now == prior.insert(i as int, k));
                assert forall|a: int, b: int| 0 <= a < b < now.len()
                    implies now[a] < now[b] by {
                    if a < i && b > i {
                        assert(now[a] == prior[a] && now[b] == prior[b - 1]);
                    } else if b == i {
                        assert(now[a] == prior[a]);
                    } else if a == i {
                        assert(now[b] == prior[b - 1]);
                        assert(!prior.contains(k));
                        assert(prior[b - 1] != k);
                        if i < prior.len() {
                            assert(prior[i as int] >= k);
                            if b - 1 > i {
                                assert(prior[i as int] < prior[b - 1]);
                            }
                        }
                        assert(prior[b - 1] > k);
                    }
                }
                assert(now.to_set() =~= prior.to_set().insert(k)) by {
                    assert forall|x: usize| now.to_set().contains(x)
                        implies prior.to_set().contains(x) || x == k by {
                        let a = choose|a: int| 0 <= a < now.len() && now[a] == x;
                        if a < i {
                            assert(prior[a] == x);
                            assert(prior.contains(x));
                        } else if a > i {
                            assert(prior[a - 1] == x);
                            assert(prior.contains(x));
                        }
                    }
                    assert forall|x: usize| prior.to_set().contains(x)
                        implies now.to_set().contains(x) by {
                        let a = choose|a: int| 0 <= a < prior.len() && prior[a] == x;
                        if a < i {
                            assert(now[a] == x);
                        } else {
                            assert(now[a + 1] == x);
                        }
                        assert(now.contains(x));
                    }
                    assert(now.contains(k)) by {
                        assert(now[i as int] == k);
                    }
                }
                assert(self.unord_slices@.dom() =~= now.to_set());
                if forall|j: int| 0 <= j < prior.len() ==> prior[j] < k {
                    assert(i == prior.len());
                    assert(now =~= prior.push(k));
                }
            }
        } else {
            proof {
                assert(self.unord_slices@.dom() =~= self.ord_keys@.to_set());
                assert(self.ord_keys@.to_set() =~= old(self).ord().to_set().insert(k));
                if forall|j: int| 0 <= j < old(self).ord().len()
                    ==> old(self).ord()[j] < k {
                    assert(old(self).ord().contains(k));
                    let j = choose|j: int| 0 <= j < old(self).ord().len()
                        && old(self).ord()[j] == k;
                    assert(old(self).ord()[j] < k);
                }
            }
        }
    }

    /// Clear, then bulk-copy the entries and the ordering from `other`.
    pub fn copy_from(&mut self, other: &SliceMap)
        requires
            other.wf(),
        ensures
            final(self).wf(),
            final(self)@ == other@,
            final(self).ord() == other.ord(),
    {
        proof {
            other.lemma_wf();
        }
        self.unord_slices.clear();
        self.ord_keys.clear();
        let n: usize = other.ord_keys.len();
        let mut i: usize = 0;
        while i < n
            invariant
                i <= n,
                n == other.ord().len(),
                other.wf(),
                self.ord_keys@ == other.ord().take(i as int),
                self.unord_slices@.dom() == self.ord_keys@.to_set(),
                forall|j: int| 0 <= j < i
                    ==> self.unord_slices@[#[trigger] other.ord()[j]] == other@[other.ord()[j]],
            decreases n - i,
        {
            proof {
                other.lemma_wf();
                assert(other.ord().contains(other.ord()[i as int]));
            }
            let k: usize = other.ord_keys[i];
            let v: Slice = *other.unord_slices.get(&k).unwrap();
            let ghost pre_map = self.unord_slices@;
            let ghost prior = self.ord_keys@;
            self.unord_slices.insert(k, v);
            self.ord_keys.push(k);
            proof {
                let now = self.ord_keys@;
                assert(now =~= other.ord().take(i + 1));
                assert(now =~= prior.push(k));
                assert forall|x: usize| now.to_set().contains(x)
                    implies self.unord_slices@.dom().contains(x) by {
                    let a = choose|a: int| 0 <= a < now.len() && now[a] == x;
                    if a < i {
                        assert(prior[a] == x);
                        assert(prior.contains(x));
                    }
                }
                assert forall|x: usize| self.unord_slices@.dom().contains(x)
                    implies now.to_set().contains(x) by {
                    if x == k {
                        assert(now[i as int] == x);
                        assert(now.contains(x));
                    } else {
                        assert(pre_map.dom().contains(x));
                        assert(prior.to_set().contains(x));
                        let a = choose|a: int| 0 <= a < prior.len() && prior[a] == x;
                        assert(now[a] == x);
                        assert(now.contains(x));
                    }
                }
                assert(self.unord_slices@.dom() =~= now.to_set());
            }
            i = i + 1;
        }
        proof {
            assert(self.ord_keys@ =~= other.ord());
            assert(self.unord_slices@ =~= other.unord_slices@) by {
                other.lemma_wf();
                assert forall|x: usize| other@.dom().contains(x)
                    implies self.unord_slices@.dom().contains(x)
                        && self.unord_slices@[x] == other@[x] by {
                    let a = choose|a: int| 0 <= a < other.ord().len() && other.ord()[a] == x;
                    assert(self.unord_slices@[other.ord()[a]] == other@[other.ord()[a]]);
                }
                assert forall|x: usize| self.unord_slices@.dom().contains(x)
                    implies other@.dom().contains(x) by {
                    assert(self.ord_keys@.to_set().contains(x));
                    assert(other.ord().contains(x));
                }
            }
        }
    }
    /// Capture the slice under `slice_idx`, then rebuild the map so that a
    /// copy of it sits at every key `0, quant, 2*quant, ...` below `max`,
    /// with ids renumbered `0, 1, 2, ...` in key order.
    pub fn quant_repeat(&mut self, quant: usize, slice_idx: usize, max: usize)
        requires
            old(self).wf(),
            quant >= 1,
            old(self)@.dom().contains(slice_idx),
        ensures
            final(self).wf(),
            final(self).ord().len() == quant_count(quant as int, max as int),
            forall|i: int| 0 <= i < final(self).ord().len()
                ==> final(self).ord()[i] == i * quant,
            forall|i: int| 0 <= i < final(self).ord().len()
                ==> final(self)@[#[trigger] final(self).ord()[i]] == (Slice {
                    id: i as usize,
                    start: old(self)@[slice_idx].start,
                    end: old(self)@[slice_idx].end,
                    cursor: old(self)@[slice_idx].cursor,
                }),
    {
        let to_repeat: Slice = *self.get(&slice_idx).unwrap();
        self.clear();
        if max == 0 {
            return;
        }
        let count: usize = (max - 1) / quant + 1;
        proof {
            vstd::arithmetic::div_mod::lemma_div_pos_is_pos(max - 1, quant as int);
            vstd::arithmetic::div_mod::lemma_div_is_ordered(
                max - 1,
                usize::MAX - 1,
                quant as int,
            );
            vstd::arithmetic::div_mod::lemma_div_nonincreasing(usize::MAX - 1, quant as int);
        }
        let mut ct: usize = 0;
        while ct < count
            invariant
                ct <= count,
                quant >= 1,
                max >= 1,
                count == quant_count(quant as int, max as int),
                count >= 1,
                self.wf(),
                self.ord().len() == ct,
                forall|i: int| 0 <= i < ct ==> self.ord()[i] == i * quant,
                forall|i: int| 0 <= i < ct
                    ==> self@[#[trigger] self.ord()[i]] == (Slice {
                        id: i as usize,
                        start: to_repeat.start,
                        end: to_repeat.end,
                        cursor: to_repeat.cursor,
                    }),
            decreases count - ct,
        {
            proof {
                // ct * quant stays below max, so the key fits
                vstd::arithmetic::div_mod::lemma_fundamental_div_mod(max - 1, quant as int);
                vstd::arithmetic::div_mod::lemma_mod_bound(max - 1, quant as int);
                vstd::arithmetic::mul::lemma_mul_inequality(
                    ct as int,
                    (max - 1) / (quant as int),
                    quant as int,
                );
                assert forall|i: int| 0 <= i < ct
                    implies self.ord()[i] < (ct * quant) as int by {
                    vstd::arithmetic::mul::lemma_mul_strict_inequality(i, ct as int, quant as int);
                }
            }
            let key: usize = ct * quant;
            let s = Slice {
                id: ct,
                start: to_repeat.start,
                end: to_repeat.end,
                cursor: to_repeat.cursor,
            };
            let ghost before = *self;
            self.insert(key, s);
            proof {
                assert(self.ord() == before.ord().push(key));
                assert forall|i: int| 0 <= i < ct + 1
                    implies self@[#[trigger] self.ord()[i]] == (Slice {
                        id: i as usize,
                        start: to_repeat.start,
                        end: to_repeat.end,
                        cursor: to_repeat.cursor,
                    }) by {
                    if i < ct {
                        assert(self.ord()[i] == before.ord()[i]);
                        vstd::arithmetic::mul::lemma_mul_strict_inequality(
                            i,
                            ct as int,
                            quant as int,
                        );
                        assert(self.ord()[i] != key);
                    }
                }
            }
            ct = ct + 1;
        }
    }

    /// Replace the slice at each ordering position with the slice found in
    /// `prev_map` under a uniformly drawn permutation of the keys: the
    /// timing slots stay put, the audio content assigned to them is
    /// shuffled.
    pub fn rand_swap(&mut self, prev_map: &SliceMap, rng: &mut rand::rngs::StdRng)
        requires
            old(self).wf(),
            old(self).ord().to_set().subset_of(prev_map@.dom()),
        ensures
            final(self).wf(),
            final(self).ord() == old(self).ord(),
            final(self)@.dom() == old(self)@.dom(),
            exists|p: Seq<usize>| swapped_by(final(self)@, old(self).ord(), prev_map@, p),
    {
        proof {
            old(self).lemma_wf();
            broadcast use vstd::seq_lib::group_to_multiset_ensures;
        }
        self.mangle_keys.clear();
        let n: usize = self.ord_keys.len();
        let mut i: usize = 0;
        while i < n
            invariant
                i <= n,
                n == self.ord_keys@.len(),
                self.mangle_keys@ == self.ord_keys@.take(i as int),
                *self == (SliceMap { mangle_keys: self.mangle_keys, ..*old(self) }),
            decreases n - i,
        {
            let k: usize = self.ord_keys[i];
            self.mangle_keys.push(k);
            proof {
                assert(self.mangle_keys@ =~= self.ord_keys@.take(i + 1));
            }
            i = i + 1;
        }
        proof {
            assert(self.mangle_keys@ =~= self.ord_keys@);
        }
        shuffle::shuffle_keys(rng, &mut self.mangle_keys);
        let ghost perm = self.mangle_keys@;
        let ghost ord0 = self.ord_keys@;
        let ghost dom0 = self.unord_slices@.dom();
        let mut idx: usize = 0;
        while idx < n
            invariant
                idx <= n,
                n == ord0.len(),
                self.ord_keys@ == ord0,
                self.mangle_keys@ == perm,
                perm.to_multiset() == ord0.to_multiset(),
                perm.len() == n,
                strictly_ascending(ord0),
                self.unord_slices@.dom() == dom0,
                dom0 == ord0.to_set(),
                ord0.to_set().subset_of(prev_map@.dom()),
                forall|j: int| 0 <= j < idx
                    ==> prev_map@.dom().contains(#[trigger] perm[j])
                        && self.unord_slices@[ord0[j]] == prev_map@[perm[j]],
            decreases n - idx,
        {
            let mk: usize = self.mangle_keys[idx];
            proof {
                broadcast use vstd::seq_lib::group_to_multiset_ensures;
                assert(perm.contains(mk));
                assert(perm.to_multiset().count(mk) > 0);
                assert(ord0.contains(mk));
                assert(ord0.to_set().contains(mk));
            }
            let new_slice: Slice = *prev_map.get(&mk).unwrap();
            let key: usize = self.ord_keys[idx];
            proof {
                assert(ord0.contains(key));
                assert(dom0.contains(key));
            }
            let ghost pre = self.unord_slices@;
            self.unord_slices.insert(key, new_slice);
            proof {
                assert(self.unord_slices@.dom() =~= dom0);
                assert forall|j: int| 0 <= j < idx + 1
                    implies prev_map@.dom().contains(#[trigger] perm[j])
                        && self.unord_slices@[ord0[j]] == prev_map@[perm[j]] by {
                    if j < idx {
                        assert(ord0[j] != key);
                        assert(self.unord_slices@[ord0[j]] == pre[ord0[j]]);
                    }
                }
            }
            idx = idx + 1;
        }
        proof {
            assert(swapped_by(self@, old(self).ord(), prev_map@, perm));
        }
    }
}

/// Downward scan from position `i`: the greatest position at or below `i`
/// whose key does not exceed the clock, or 0 when the scan runs out.
pub open spec fn spec_sel_scan(keys: Seq<usize>, clock: int, i: int) -> int
    decreases i,
{
    if i <= 0 {
        0
    } else if keys[i] <= clock {
        i
    } else {
        spec_sel_scan(keys, clock, i - 1)
    }
}

/// The position a clock value selects in an ascending key sequence: the
/// greatest position whose key is at or below the clock, or — when the
/// clock sits before the first key, i.e. on wrap-around — the last
/// position.
pub open spec fn spec_sel_index(keys: Seq<usize>, clock: int) -> int {
    if keys.len() == 0 {
        0
    } else if keys[0] > clock {
        keys.len() - 1
    } else {
        spec_sel_scan(keys, clock, keys.len() - 1)
    }
}

/// Scan an ascending key list from the end for the position of the
/// greatest key at or below the clock, falling back to the last position
/// when the clock sits before the first key.
pub fn sel_position(keys: &Vec<usize>, clock: u64) -> (r: usize)
    requires
        keys@.len() > 0,
        strictly_ascending(keys@),
    ensures
        r == spec_sel_index(keys@, clock as int),
        r < keys@.len(),
        keys@[0] <= clock ==> keys@[r as int] <= clock
            && (forall|j: int| r < j < keys@.len() ==> keys@[j] > clock),
        keys@[0] > clock ==> r == keys@.len() - 1,
{
    let n: usize = keys.len();
    let mut i: usize = n - 1;
    while keys[i] as u64 > clock && i > 0
        invariant
            i < n,
            n == keys@.len(),
            n >= 1,
            forall|j: int| i < j < n ==> keys@[j] > clock,
            spec_sel_scan(keys@, clock as int, n - 1) == spec_sel_scan(keys@, clock as int, i as int),
        decreases i,
    {
        i = i - 1;
    }
    if keys[i] as u64 <= clock {
        i
    } else {
        n - 1
    }
}

impl SliceMap {
    /// The key of the slice that should play at `clock`: the greatest key
    /// at or below the clock, or the last key when the clock sits before
    /// the first (wrap-around).
    pub fn sel_key(&self, clock: u64) -> (r: usize)
        requires
            self.wf(),
            self.ord().len() > 0,
        ensures
            r == self.ord()[spec_sel_index(self.ord(), clock as int)],
            self.ord().contains(r),
            self@.dom().contains(r),
            self.ord()[0] <= clock ==> r <= clock
                && (forall|j: int| 0 <= j < self.ord().len() && self.ord()[j] <= clock
                    ==> self.ord()[j] <= r),
            self.ord()[0] > clock ==> r == self.ord()[self.ord().len() - 1],
    {
        proof {
            self.lemma_wf();
        }
        let i: usize = sel_position(&self.ord_keys, clock);
        let r: usize = self.ord_keys[i];
        proof {
            assert(self.ord().contains(r)) by {
                assert(self.ord()[i as int] == r);
            }
            if self.ord()[0] <= clock {
                assert forall|j: int| 0 <= j < self.ord().len() && self.ord()[j] <= clock
                    implies self.ord()[j] <= r by {
                    if j > i {
                        assert(self.ord()[j] > clock);
                    }
                }
            }
        }
        r
    }
}

impl SliceMap {
    /// Whether every key of this map's ordering is present in `other`.
    pub fn keys_within(&self, other: &SliceMap) -> (r: bool)
        requires
            self.wf(),
        ensures
            r == self.ord().to_set().subset_of(other@.dom()),
    {
        let n: usize = self.ord_keys.len();
        let mut i: usize = 0;
        while i < n
            invariant
                i <= n,
                n == self.ord().len(),
                self.wf(),
                forall|j: int| 0 <= j < i ==> other@.dom().contains(#[trigger] self.ord()[j]),
            decreases n - i,
        {
            let k: usize = self.ord_keys[i];
            if other.get(&k).is_none() {
                proof {
                    assert(self.ord()[i as int] == k);
                    assert(self.ord().contains(k));
                    assert(self.ord().to_set().contains(k));
                }
                return false;
            }
            i = i + 1;
        }
        proof {
            assert forall|x: usize| self.ord().to_set().contains(x)
                implies other@.dom().contains(x) by {
                let j = choose|j: int| 0 <= j < self.ord().len() && self.ord()[j] == x;
                assert(other@.dom().contains(self.ord()[j]));
            }
        }
        true
    }
}

/// The relation left behind by [`SliceMap::rand_swap`]: the slice at each
/// ordering position of `keys` in `newm` is the slice `prev` held under the
/// corresponding key of the permutation `p`.
pub open spec fn swapped_by(
    newm: Map<usize, Slice>,
    keys: Seq<usize>,
    prev: Map<usize, Slice>,
    p: Seq<usize>,
) -> bool {
    &&& p.to_multiset() == keys.to_multiset()
    &&& forall|i: int| 0 <= i < keys.len()
        ==> prev.dom().contains(#[trigger] p[i]) && newm[keys[i]] == prev[p[i]]
}

/// Reading a map at two key sequences with equal multisets yields value
/// sequences with equal multisets.
pub proof fn lemma_lookup_multiset(p: Seq<usize>, q: Seq<usize>, m: Map<usize, Slice>)
    requires
        p.to_multiset() == q.to_multiset(),
    ensures
        values_of(m, p).to_multiset() == values_of(m, q).to_multiset(),
    decreases p.len(),
{
    broadcast use vstd::seq_lib::group_to_multiset_ensures;
    broadcast use vstd::multiset::group_multiset_axioms;

    assert(p.to_multiset().len() == p.len());
    assert(q.to_multiset().len() == q.len());
    if p.len() == 0 {
        assert(q.len() == 0);
        assert(values_of(m, p) =~= values_of(m, q));
    } else {
        let x = p.last();
        assert(p.contains(x));
        assert(p.to_multiset().count(x) > 0);
        assert(q.contains(x));
        let j = choose|j: int| 0 <= j < q.len() && q[j] == x;
        let p1 = p.drop_last();
        let q1 = q.remove(j);
        assert(p.remove(p.len() - 1) =~= p1);
        assert(p1.to_multiset() == p.to_multiset().remove(x));
        assert(q1.to_multiset() == q.to_multiset().remove(x));
        lemma_lookup_multiset(p1, q1, m);
        assert(values_of(m, p1).push(m[x]) =~= values_of(m, p));
        assert(values_of(m, p).to_multiset() == values_of(m, p1).to_multiset().insert(m[x]));
        assert(values_of(m, q).remove(j) =~= values_of(m, q1));
        assert(values_of(m, q1).to_multiset() == values_of(m, q).to_multiset().remove(
            values_of(m, q)[j],
        ));
        assert(values_of(m, q)[j] == m[x]);
        assert(values_of(m, q).contains(m[x]));
        assert(values_of(m, q).to_multiset().count(m[x]) > 0);
        assert(values_of(m, p).to_multiset() =~= values_of(m, q).to_multiset());
    }
}

/// Law: the random-swap transform is permutation-preserving. Whatever
/// permutation the shuffle drew, the multiset of slice values in the
/// swapped map equals the multiset of the reference map's values read at
/// the same keys.
pub proof fn lemma_rand_swap_preserves_values(
    newm: Map<usize, Slice>,
    keys: Seq<usize>,
    prev: Map<usize, Slice>,
    p: Seq<usize>,
)
    requires
        swapped_by(newm, keys, prev, p),
    ensures
        values_of(newm, keys).to_multiset() == values_of(prev, keys).to_multiset(),
{
    broadcast use vstd::seq_lib::group_to_multiset_ensures;

    assert(p.to_multiset().len() == p.len());
    assert(keys.to_multiset().len() == keys.len());
    assert(p.len() == keys.len());
    assert(values_of(newm, keys) =~= values_of(prev, p));
    lemma_lookup_multiset(p, keys, prev);
}

} // verus!
