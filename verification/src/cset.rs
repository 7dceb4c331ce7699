//! Bucketed index of unresolved cells, keyed by the popcount ("entropy") of
//! the cell's constraint mask.
//!
//! The index supports inserting a position under a key, removing it, and
//! popping a position chosen at random from the bucket with the smallest
//! non-empty key. All three run in time independent of the bucket sizes: each
//! bucket pairs a dense vector of positions with a map from position to its
//! slot in that vector, and removal swaps the last entry into the freed slot.

use crate::prng::{xorshift_step, Xorshift64};
use std::collections::HashMap;
use vstd::prelude::*;

verus! {

broadcast use vstd::std_specs::hash::group_hash_axioms;

/// Number of buckets: one for each possible popcount of a 128-bit mask,
/// including zero.
pub const BUCKET_COUNT: usize = 129;

/// Largest position coordinate the index supports; two such coordinates are
/// packed into one 64-bit slot-map key.
pub const POS_LIMIT: usize = 0xffff_ffff;

/// Slot-map key of a position: the coordinates packed into one 64-bit word.
pub open spec fn pos_key(x: usize, y: usize) -> u64 {
    (x * 0x1_0000_0000 + y) as u64
}

/// Packing is injective on coordinates within [`POS_LIMIT`].
proof fn lemma_pos_key_injective(x1: usize, y1: usize, x2: usize, y2: usize)
    requires
        x1 <= POS_LIMIT,
        y1 <= POS_LIMIT,
        x2 <= POS_LIMIT,
        y2 <= POS_LIMIT,
        pos_key(x1, y1) == pos_key(x2, y2),
    ensures
        x1 == x2 && y1 == y2,
{
    assert(x1 * 0x1_0000_0000 + y1 < 0x1_0000_0000_0000_0000) by (nonlinear_arith)
        requires
            x1 <= 0xffff_ffffusize,
            y1 <= 0xffff_ffffusize,
    ;
    assert(x2 * 0x1_0000_0000 + y2 < 0x1_0000_0000_0000_0000) by (nonlinear_arith)
        requires
            x2 <= 0xffff_ffffusize,
            y2 <= 0xffff_ffffusize,
    ;
    assert(x1 * 0x1_0000_0000 + y1 == x2 * 0x1_0000_0000 + y2);
    assert(x1 == x2 && y1 == y2) by (nonlinear_arith)
        requires
            x1 * 0x1_0000_0000 + y1 == x2 * 0x1_0000_0000 + y2,
            y1 <= 0xffff_ffffusize,
            y2 <= 0xffff_ffffusize,
    ;
}

/// Pack a position into its 64-bit slot-map key.
fn key_of(x: usize, y: usize) -> (k: u64)
    requires
        x <= POS_LIMIT,
        y <= POS_LIMIT,
    ensures
        k == pos_key(x, y),
{
    proof {
        assert(x * 0x1_0000_0000 + y <= 0xffff_ffff_ffff_ffff) by (nonlinear_arith)
            requires
                x <= 0xffff_ffffusize,
                y <= 0xffff_ffffusize,
        ;
    }
    (x as u64) * 0x1_0000_0000 + (y as u64)
}

/// One bucket: the positions under one key, with the slot of each position.
struct Bucket {
    slots: HashMap<u64, usize>,
    items: Vec<(usize, usize)>,
}

impl Bucket {
    /// The slot map indexes exactly the stored positions.
    spec fn wf(self) -> bool {
        &&& forall|i: int|
            0 <= i < self.items@.len() ==> {
                let p = #[trigger] self.items@[i];
                &&& p.0 <= POS_LIMIT
                &&& p.1 <= POS_LIMIT
                &&& self.slots@.contains_key(pos_key(p.0, p.1))
                &&& self.slots@[pos_key(p.0, p.1)] == i
            }
        &&& forall|k: u64|
            self.slots@.contains_key(k) ==> {
                let i = #[trigger] self.slots@[k];
                &&& 0 <= i < self.items@.len()
                &&& pos_key(self.items@[i as int].0, self.items@[i as int].1) == k
            }
    }
}

/// Bucketed index of positions keyed by popcount, supporting uniform random
/// choice from the smallest non-empty bucket.
pub struct ConstraintSet {
    buckets: Vec<Bucket>,
}

impl ConstraintSet {
    /// There is one well-formed bucket for every possible key.
    pub closed spec fn wf(self) -> bool {
        &&& self.buckets@.len() == BUCKET_COUNT
        &&& forall|c: int| 0 <= c < BUCKET_COUNT ==> (#[trigger] self.buckets@[c]).wf()
    }

    /// The set of positions stored under key `c`.
    pub closed spec fn bucket(self, c: int) -> Set<(usize, usize)> {
        if 0 <= c < self.buckets@.len() {
            self.buckets@[c].items@.to_set()
        } else {
            Set::empty()
        }
    }

    /// The positions stored under key `c`, in slot order. This is the order
    /// random choice draws from.
    pub closed spec fn bucket_seq(self, c: int) -> Seq<(usize, usize)> {
        if 0 <= c < self.buckets@.len() {
            self.buckets@[c].items@
        } else {
            Seq::empty()
        }
    }

    /// Create an index with every bucket empty.
    pub fn new() -> (r: ConstraintSet)
        ensures
            r.wf(),
            forall|c: int| (#[trigger] r.bucket(c)).is_empty(),
    {
        let mut buckets: Vec<Bucket> = Vec::new();
        let mut i: usize = 0;
        while i < BUCKET_COUNT
            invariant
                i <= BUCKET_COUNT,
                buckets@.len() == i,
                forall|c: int|
                    0 <= c < i ==> (#[trigger] buckets@[c]).wf() && buckets@[c].items@.len() == 0,
            decreases BUCKET_COUNT - i,
        {
            buckets.push(Bucket { slots: HashMap::new(), items: Vec::new() });
            i = i + 1;
        }
        let r = ConstraintSet { buckets };
        proof {
            assert forall|c: int| (#[trigger] r.bucket(c)).is_empty() by {
                if 0 <= c < BUCKET_COUNT {
                    assert(r.bucket(c) =~= Set::empty());
                } else {
                    assert(r.bucket(c) =~= Set::empty());
                }
            }
        }
        r
    }

    /// Insert position `(x, y)` under key `c` unless it is already there;
    /// report whether it was newly inserted. A duplicate insert changes
    /// nothing.
    pub fn insert(&mut self, c: u32, x: usize, y: usize) -> (r: bool)
        requires
            old(self).wf(),
            c < BUCKET_COUNT,
            x <= POS_LIMIT,
            y <= POS_LIMIT,
        ensures
            final(self).wf(),
            r == !old(self).bucket(c as int).contains((x, y)),
            final(self).bucket(c as int) == old(self).bucket(c as int).insert((x, y)),
            forall|d: int| d != c ==> final(self).bucket(d) == old(self).bucket(d),
            r ==> final(self).bucket_seq(c as int) == old(self).bucket_seq(c as int).push((x, y)),
            !r ==> final(self).bucket_seq(c as int) == old(self).bucket_seq(c as int),
            forall|d: int| d != c ==> final(self).bucket_seq(d) == old(self).bucket_seq(d),
    {
        let k = key_of(x, y);
        let b = &mut self.buckets[c as usize];
        let ghost items0 = b.items@;
        let present = b.slots.contains_key(&k);
        if present {
            proof {
                let i = b.slots@[k];
                lemma_pos_key_injective(b.items@[i as int].0, b.items@[i as int].1, x, y);
                assert(b.items@.contains((x, y)));
                assert(old(self).bucket(c as int).contains((x, y)));
                assert(old(self).bucket(c as int).insert((x, y)) =~= old(self).bucket(c as int));
                assert(final(self).buckets@ =~= old(self).buckets@);
            }
            false
        } else {
            let i = b.items.len();
            b.items.push((x, y));
            b.slots.insert(k, i);
            proof {
                assert forall|j: int| 0 <= j < b.items@.len() implies {
                    let p = #[trigger] b.items@[j];
                    &&& p.0 <= POS_LIMIT
                    &&& p.1 <= POS_LIMIT
                    &&& b.slots@.contains_key(pos_key(p.0, p.1))
                    &&& b.slots@[pos_key(p.0, p.1)] == j
                } by {
                    if j < items0.len() {
                        assert(b.items@[j] == items0[j]);
                        let p = b.items@[j];
                        // the new key cannot collide with an existing entry
                        assert(pos_key(p.0, p.1) != k);
                    }
                }
                assert(b.wf());
                // the new bucket holds exactly the old positions plus (x, y)
                assert(!items0.contains((x, y)));
                assert forall|q: (usize, usize)|
                    b.items@.contains(q) <==> (items0.contains(q) || q == (x, y)) by {
                    if b.items@.contains(q) {
                        let j = choose|j: int| 0 <= j < b.items@.len() && b.items@[j] == q;
                        if j < items0.len() {
                            assert(items0[j] == q);
                        }
                    }
                    if items0.contains(q) {
                        let j = choose|j: int| 0 <= j < items0.len() && items0[j] == q;
                        assert(b.items@[j] == q);
                    }
                    if q == (x, y) {
                        assert(b.items@[items0.len() as int] == q);
                    }
                }
                assert(final(self).bucket(c as int) =~= old(self).bucket(c as int).insert((x, y)));
                assert forall|d: int| d != c implies final(self).bucket(d) == old(self).bucket(
                    d,
                ) by {
                    if 0 <= d < BUCKET_COUNT {
                        assert(final(self).buckets@[d] == old(self).buckets@[d]);
                    }
                }
            }
            true
        }
    }

    /// Remove position `(x, y)` from bucket `c` if present, swapping the last
    /// entry of the bucket into its slot; report whether it was present.
    pub fn remove(&mut self, c: u32, x: usize, y: usize) -> (r: bool)
        requires
            old(self).wf(),
            c < BUCKET_COUNT,
            x <= POS_LIMIT,
            y <= POS_LIMIT,
        ensures
            final(self).wf(),
            r == old(self).bucket(c as int).contains((x, y)),
            final(self).bucket(c as int) == old(self).bucket(c as int).remove((x, y)),
            forall|d: int| d != c ==> final(self).bucket(d) == old(self).bucket(d),
            r ==> exists|i: int|
                0 <= i < old(self).bucket_seq(c as int).len() && old(self).bucket_seq(c as int)[i]
                    == (x, y) && final(self).bucket_seq(c as int) == #[trigger] swap_removed(
                    old(self).bucket_seq(c as int),
                    i,
                ),
            !r ==> final(self).bucket_seq(c as int) == old(self).bucket_seq(c as int),
            forall|d: int| d != c ==> final(self).bucket_seq(d) == old(self).bucket_seq(d),
    {
        let k = key_of(x, y);
        let b = &mut self.buckets[c as usize];
        let ghost items0 = b.items@;
        let i_opt = b.slots.get(&k);
        match i_opt {
            Option::None => {
                proof {
                    assert forall|j: int| 0 <= j < items0.len() implies items0[j] != (x, y) by {
                        let p = items0[j];
                        assert(b.slots@.contains_key(pos_key(p.0, p.1)));
                    }
                    assert(!old(self).bucket(c as int).contains((x, y)));
                    assert(old(self).bucket(c as int).remove((x, y)) =~= old(self).bucket(
                        c as int,
                    ));
                    assert(final(self).buckets@ =~= old(self).buckets@);
                }
                false
            },
            Option::Some(i_ref) => {
                let i = *i_ref;
                proof {
                    lemma_pos_key_injective(b.items@[i as int].0, b.items@[i as int].1, x, y);
                    assert(items0[i as int] == (x, y));
                    // (x, y) appears only at slot i
                    assert forall|j: int|
                        0 <= j < items0.len() && j != i implies items0[j] != (x, y) by {
                        let p = items0[j];
                        if p == (x, y) {
                            assert(b.slots@[pos_key(p.0, p.1)] == j);
                        }
                    }
                }
                b.slots.remove(&k);
                let last = b.items.len() - 1;
                if i < last {
                    let moved = b.items[last];
                    b.items[i] = moved;
                    let _ = b.items.pop();
                    let mk = key_of(moved.0, moved.1);
                    b.slots.insert(mk, i);
                    proof {
                        assert(moved == items0[items0.len() - 1]);
                        assert(moved != (x, y));
                        assert(pos_key(moved.0, moved.1) != k);
                        let new_items = b.items@;
                        assert(new_items =~= items0.update(i as int, moved).drop_last());
                        assert forall|j: int| 0 <= j < new_items.len() implies {
                            let p = #[trigger] new_items[j];
                            &&& p.0 <= POS_LIMIT
                            &&& p.1 <= POS_LIMIT
                            &&& b.slots@.contains_key(pos_key(p.0, p.1))
                            &&& b.slots@[pos_key(p.0, p.1)] == j
                        } by {
                            if j == i {
                                assert(new_items[j] == moved);
                            } else {
                                assert(new_items[j] == items0[j]);
                                let p = items0[j];
                                assert(pos_key(p.0, p.1) != k);
                                assert(pos_key(p.0, p.1) != pos_key(moved.0, moved.1));
                            }
                        }
                        assert forall|kk: u64| b.slots@.contains_key(kk) implies {
                            let j = #[trigger] b.slots@[kk];
                            &&& 0 <= j < new_items.len()
                            &&& pos_key(new_items[j as int].0, new_items[j as int].1) == kk
                        } by {
                            if kk == pos_key(moved.0, moved.1) {
                                assert(b.slots@[kk] == i);
                            } else {
                                assert(kk != k);
                                let j = b.slots@[kk];
                                assert(old(self).buckets@[c as int].slots@[kk] == j);
                                assert(pos_key(items0[j as int].0, items0[j as int].1) == kk);
                                assert(j != i && j != items0.len() - 1);
                                assert(new_items[j as int] == items0[j as int]);
                            }
                        }
                        assert(b.wf());
                        assert forall|q: (usize, usize)|
                            new_items.contains(q) <==> (items0.contains(q) && q != (x, y)) by {
                            if new_items.contains(q) {
                                let j = choose|j: int|
                                    0 <= j < new_items.len() && new_items[j] == q;
                                if j == i {
                                    assert(items0[items0.len() - 1] == q);
                                } else {
                                    assert(items0[j] == q);
                                }
                            }
                            if items0.contains(q) && q != (x, y) {
                                let j = choose|j: int| 0 <= j < items0.len() && items0[j] == q;
                                if j == i {
                                    assert(items0[j] == (x, y));
                                } else if j == items0.len() - 1 {
                                    assert(new_items[i as int] == q);
                                } else {
                                    assert(new_items[j] == q);
                                }
                            }
                        }
                        assert(final(self).bucket(c as int) =~= old(self).bucket(c as int).remove(
                            (x, y),
                        ));
                        assert forall|d: int| d != c implies final(self).bucket(d) == old(
                            self,
                        ).bucket(d) by {
                            if 0 <= d < BUCKET_COUNT {
                                assert(final(self).buckets@[d] == old(self).buckets@[d]);
                            }
                        }
                        assert(old(self).bucket_seq(c as int) == items0);
                        assert(items0[i as int] == (x, y));
                        assert(new_items == swap_removed(items0, i as int));
                    }
                } else {
                    let _ = b.items.pop();
                    proof {
                        let new_items = b.items@;
                        assert(new_items =~= items0.drop_last());
                        assert forall|j: int| 0 <= j < new_items.len() implies {
                            let p = #[trigger] new_items[j];
                            &&& p.0 <= POS_LIMIT
                            &&& p.1 <= POS_LIMIT
                            &&& b.slots@.contains_key(pos_key(p.0, p.1))
                            &&& b.slots@[pos_key(p.0, p.1)] == j
                        } by {
                            assert(new_items[j] == items0[j]);
                            let p = items0[j];
                            assert(pos_key(p.0, p.1) != k);
                        }
                        assert forall|kk: u64| b.slots@.contains_key(kk) implies {
                            let j = #[trigger] b.slots@[kk];
                            &&& 0 <= j < new_items.len()
                            &&& pos_key(new_items[j as int].0, new_items[j as int].1) == kk
                        } by {
                            assert(kk != k);
                            let j = b.slots@[kk];
                            assert(pos_key(items0[j as int].0, items0[j as int].1) == kk);
                            assert(j != i);
                            assert(new_items[j as int] == items0[j as int]);
                        }
                        assert(b.wf());
                        assert forall|q: (usize, usize)|
                            new_items.contains(q) <==> (items0.contains(q) && q != (x, y)) by {
                            if new_items.contains(q) {
                                let j = choose|j: int|
                                    0 <= j < new_items.len() && new_items[j] == q;
                                assert(items0[j] == q);
                            }
                            if items0.contains(q) && q != (x, y) {
                                let j = choose|j: int| 0 <= j < items0.len() && items0[j] == q;
                                assert(j != i);
                                assert(new_items[j] == q);
                            }
                        }
                        assert(final(self).bucket(c as int) =~= old(self).bucket(c as int).remove(
                            (x, y),
                        ));
                        assert forall|d: int| d != c implies final(self).bucket(d) == old(
                            self,
                        ).bucket(d) by {
                            if 0 <= d < BUCKET_COUNT {
                                assert(final(self).buckets@[d] == old(self).buckets@[d]);
                            }
                        }
                        assert(old(self).bucket_seq(c as int) == items0);
                        assert(items0[i as int] == (x, y));
                        assert(i as int == items0.len() - 1);
                        assert(new_items == swap_removed(items0, i as int));
                    }
                }
                true
            },
        }
    }

    /// Pop a position chosen uniformly at random from the bucket with the
    /// smallest non-empty key, or report that every bucket is empty.
    pub fn pop(&mut self, prng: &mut Xorshift64) -> (r: Option<(u32, usize, usize)>)
        requires
            old(self).wf(),
        ensures
            final(self).wf(),
            r is None ==> {
                &&& forall|d: int| (#[trigger] old(self).bucket(d)).is_empty()
                &&& forall|d: int| #[trigger] final(self).bucket(d) == old(self).bucket(d)
                &&& forall|d: int| #[trigger] final(self).bucket_seq(d) == old(self).bucket_seq(d)
                &&& *final(prng) == *old(prng)
            },
            r matches Some((c, x, y)) ==> {
                &&& c < BUCKET_COUNT
                &&& old(self).bucket(c as int).contains((x, y))
                &&& forall|d: int| 0 <= d < c ==> (#[trigger] old(self).bucket(d)).is_empty()
                &&& final(self).bucket(c as int) == old(self).bucket(c as int).remove((x, y))
                &&& forall|d: int| d != c ==> final(self).bucket(d) == old(self).bucket(d)
                &&& final(prng).0 == xorshift_step(old(prng).0)
                // the choice is the single uniform draw: the popped position
                // is the entry at the drawn slot of the smallest bucket
                &&& ({
                    let b = old(self).bucket_seq(c as int);
                    let j = crate::prng::range_value(
                        xorshift_step(old(prng).0),
                        0,
                        b.len() as int,
                    );
                    &&& b.len() > 0
                    &&& 0 <= j < b.len()
                    &&& (x, y) == b[j]
                    &&& final(self).bucket_seq(c as int) == swap_removed(b, j)
                })
                &&& forall|d: int| d != c ==> final(self).bucket_seq(d) == old(self).bucket_seq(d)
            },
    {
        let mut c: usize = 0;
        while c < BUCKET_COUNT && self.buckets[c].items.len() == 0
            invariant
                old(self).wf(),
                *self == *old(self),
                c <= BUCKET_COUNT,
                forall|d: int| 0 <= d < c ==> (#[trigger] old(self).bucket(d)).is_empty(),
            decreases BUCKET_COUNT - c,
        {
            proof {
                assert(old(self).bucket(c as int) =~= Set::empty());
            }
            c = c + 1;
        }
        if c >= BUCKET_COUNT {
            proof {
                assert forall|d: int| (#[trigger] old(self).bucket(d)).is_empty() by {
                    if 0 <= d < BUCKET_COUNT {
                    } else {
                        assert(old(self).bucket(d) =~= Set::empty());
                    }
                }
            }
            return Option::None;
        }
        let len = self.buckets[c].items.len();
        let j = prng.range(0, len);
        let p = self.buckets[c].items[j];
        proof {
            assert(self.buckets@[c as int].items@.contains(self.buckets@[c as int].items@[j as int]));
        }
        let removed = self.remove(c as u32, p.0, p.1);
        proof {
            let bseq = old(self).bucket_seq(c as int);
            assert(bseq[j as int] == p);
            // the removal hit exactly the drawn slot: no position occupies
            // two slots of one bucket
            let i = choose|i: int|
                0 <= i < bseq.len() && bseq[i] == p && self.bucket_seq(c as int)
                    == #[trigger] swap_removed(bseq, i);
            lemma_items_distinct(old(self).buckets@[c as int], i, j as int);
        }
        Option::Some((c as u32, p.0, p.1))
    }
}

/// Removing slot `i`: the last entry is swapped into its place and the tail
/// is dropped.
pub open spec fn swap_removed(s: Seq<(usize, usize)>, i: int) -> Seq<(usize, usize)> {
    if i == s.len() - 1 {
        s.drop_last()
    } else {
        s.update(i, s.last()).drop_last()
    }
}

/// A bucket's set view is exactly its slot-order view, forgetting the order.
pub proof fn lemma_bucket_is_seq_set(s: ConstraintSet, c: int)
    ensures
        s.bucket(c) == s.bucket_seq(c).to_set(),
{
    if !(0 <= c < s.buckets@.len()) {
        assert(Seq::<(usize, usize)>::empty().to_set() =~= Set::<(usize, usize)>::empty());
    }
}

/// No position occupies two slots of one bucket.
proof fn lemma_items_distinct(b: Bucket, i: int, j: int)
    requires
        b.wf(),
        0 <= i < b.items@.len(),
        0 <= j < b.items@.len(),
        b.items@[i] == b.items@[j],
    ensures
        i == j,
{
    let p = b.items@[i];
    assert(b.slots@[pos_key(p.0, p.1)] == i);
    assert(b.slots@[pos_key(p.0, p.1)] == j);
}

/// Every bucket's contents form a finite set.
pub proof fn lemma_bucket_finite(s: ConstraintSet, c: int)
    ensures
        s.bucket(c).finite(),
{
    if 0 <= c < s.buckets@.len() {
        vstd::seq_lib::seq_to_set_is_finite(s.buckets@[c].items@);
    }
}

/// Law: inserting a position that a bucket does not hold and then removing it
/// restores the bucket's contents, matching the contracts of
/// [`ConstraintSet::insert`] and [`ConstraintSet::remove`].
pub proof fn lemma_insert_then_remove_restores(s: Set<(usize, usize)>, p: (usize, usize))
    requires
        !s.contains(p),
    ensures
        s.insert(p).remove(p) == s,
{
    assert(s.insert(p).remove(p) =~= s);
}

} // verus!
