//! Generational-handle storage: O(1) insert, lookup and removal with
//! stale-handle detection.
//!
//! A `Handle` pairs a slot index with a generation counter.  Removing an
//! element bumps the slot's generation, so a handle kept across a removal
//! stops resolving instead of silently aliasing whatever reuses the slot.
//! The store is specified through its view, a map from live handles to the
//! values they hold.

use vstd::prelude::*;

verus! {

/// A stable generational index into a [`GenArena`].
#[derive(Clone, Copy, Debug, PartialEq, Eq, Hash, Structural)]
pub struct Handle {
    pub idx: usize,
    pub generation: u64,
}

enum Slot<T> {
    Vacant { next_generation: u64 },
    Occupied { generation: u64, value: T },
}

/// A generational arena: values are held in slots, addressed by handles
/// that a removal invalidates.  The ghost set of retired handles records
/// every handle a removal has invalidated, so the contracts can say that
/// no such handle is ever live again — not even after its slot is reused.
pub struct GenArena<T: Copy> {
    slots: Vec<Slot<T>>,
    free: Vec<usize>,
    count: usize,
    retired: Ghost<Set<Handle>>,
}

spec fn slot_live<T: Copy>(s: Slot<T>, generation: u64) -> bool {
    match s {
        Slot::Occupied { generation: g, .. } => g == generation,
        Slot::Vacant { .. } => false,
    }
}

spec fn vacant_next<T: Copy>(s: Slot<T>) -> u64 {
    match s {
        Slot::Vacant { next_generation } => next_generation,
        Slot::Occupied { .. } => 0,
    }
}

spec fn slot_value<T: Copy>(s: Slot<T>) -> T {
    match s {
        Slot::Occupied { value, .. } => value,
        Slot::Vacant { .. } => arbitrary(),
    }
}

spec fn occupied_count<T: Copy>(s: Seq<Slot<T>>) -> nat
    decreases s.len(),
{
    if s.len() == 0 {
        0
    } else {
        occupied_count(s.drop_last()) + if s.last() is Occupied {
            1nat
        } else {
            0nat
        }
    }
}

proof fn lemma_occupied_count_le<T: Copy>(s: Seq<Slot<T>>)
    ensures
        occupied_count(s) <= s.len(),
    decreases s.len(),
{
    if s.len() > 0 {
        lemma_occupied_count_le(s.drop_last());
    }
}

proof fn lemma_occupied_count_update<T: Copy>(s: Seq<Slot<T>>, i: int, v: Slot<T>)
    requires
        0 <= i < s.len(),
    ensures
        occupied_count(s.update(i, v)) == occupied_count(s) + (if v is Occupied {
            1int
        } else {
            0int
        }) - (if s[i] is Occupied {
            1int
        } else {
            0int
        }),
    decreases s.len(),
{
    let t = s.update(i, v);
    assert(t.len() == s.len());
    if i == s.len() - 1 {
        assert(t.drop_last() =~= s.drop_last());
        assert(t.last() == v);
    } else {
        assert(t.drop_last() =~= s.drop_last().update(i, v));
        lemma_occupied_count_update(s.drop_last(), i, v);
        assert(t.last() == s.last());
    }
}

proof fn lemma_occupied_count_vacant_lt<T: Copy>(s: Seq<Slot<T>>, i: int)
    requires
        0 <= i < s.len(),
        !(s[i] is Occupied),
    ensures
        occupied_count(s) < s.len(),
    decreases s.len(),
{
    if i == s.len() - 1 {
        lemma_occupied_count_le(s.drop_last());
    } else {
        lemma_occupied_count_vacant_lt(s.drop_last(), i);
    }
}

proof fn lemma_occupied_count_occupied_pos<T: Copy>(s: Seq<Slot<T>>, i: int)
    requires
        0 <= i < s.len(),
        s[i] is Occupied,
    ensures
        occupied_count(s) >= 1,
    decreases s.len(),
{
    if i < s.len() - 1 {
        lemma_occupied_count_occupied_pos(s.drop_last(), i);
    }
}

spec fn live_upto<T: Copy>(s: Seq<Slot<T>>, n: int) -> Set<Handle> {
    Set::new(|h: Handle| h.idx < n && h.idx < s.len() && slot_live(s[h.idx as int], h.generation))
}

proof fn lemma_live_upto_card<T: Copy>(s: Seq<Slot<T>>, n: int)
    requires
        0 <= n <= s.len(),
        s.len() <= usize::MAX,
    ensures
        live_upto(s, n).finite(),
        live_upto(s, n).len() == occupied_count(s.take(n)),
    decreases n,
{
    if n == 0 {
        assert(live_upto(s, 0) =~= Set::<Handle>::empty());
        assert(s.take(0).len() == 0);
    } else {
        lemma_live_upto_card(s, n - 1);
        assert(s.take(n).drop_last() =~= s.take(n - 1));
        match s[n - 1] {
            Slot::Occupied { generation, .. } => {
                let h = Handle { idx: (n - 1) as usize, generation };
                assert(live_upto(s, n) =~= live_upto(s, n - 1).insert(h));
                assert(!live_upto(s, n - 1).contains(h));
            },
            Slot::Vacant { .. } => {
                assert(live_upto(s, n) =~= live_upto(s, n - 1));
            },
        }
    }
}

impl<T: Copy> View for GenArena<T> {
    type V = Map<Handle, T>;

    closed spec fn view(&self) -> Map<Handle, T> {
        Map::new(
            |h: Handle|
                h.idx < self.slots@.len() && slot_live(self.slots@[h.idx as int], h.generation),
            |h: Handle| slot_value(self.slots@[h.idx as int]),
        )
    }
}

impl<T: Copy> GenArena<T> {
    /// The store's internal bookkeeping is consistent: the count matches
    /// the occupied slots, the free list names distinct vacant slots, and
    /// every retired handle lags strictly behind its slot's generation, so
    /// it can never be re-issued or resolve again.
    pub closed spec fn wf(&self) -> bool {
        &&& self.count == occupied_count(self.slots@)
        &&& forall|i: int|
            0 <= i < self.free@.len() ==> (#[trigger] self.free@[i]) < self.slots@.len()
                && !(self.slots@[self.free@[i] as int] is Occupied)
        &&& forall|i: int, j: int|
            0 <= i < j < self.free@.len() ==> self.free@[i] != self.free@[j]
        &&& forall|h: Handle| #[trigger] self.retired@.contains(h) ==> h.idx < self.slots@.len()
        &&& forall|h: Handle| #[trigger]
            self.retired@.contains(h) ==> match self.slots@[h.idx as int] {
                Slot::Occupied { generation, .. } => h.generation < generation,
                Slot::Vacant { .. } => true,
            }
        &&& forall|j: int, h: Handle|
            #![trigger self.free@[j], self.retired@.contains(h)]
            0 <= j < self.free@.len() && self.retired@.contains(h) && h.idx == self.free@[j]
                ==> h.generation < vacant_next(self.slots@[self.free@[j] as int])
    }

    /// The handles that removals have invalidated, for the process
    /// lifetime.
    pub closed spec fn spec_retired(&self) -> Set<Handle> {
        self.retired@
    }

    /// A retired handle never resolves again: removal bumped its slot's
    /// generation past it, and any later occupant of the slot sits at a
    /// still higher generation.
    pub proof fn lemma_retired_never_resolves(&self, h: Handle)
        requires
            self.wf(),
            self.spec_retired().contains(h),
        ensures
            !self@.contains_key(h),
    {
    }

    /// How many values the store holds.
    pub closed spec fn spec_len(&self) -> nat {
        self.count as nat
    }

    /// The length the store reports is the number of live handles.
    pub proof fn lemma_len_is_view_len(&self)
        requires
            self.wf(),
        ensures
            self@.dom().finite(),
            self@.dom().len() == self.spec_len(),
    {
        vstd::std_specs::vec::axiom_spec_len(&self.slots);
        lemma_live_upto_card(self.slots@, self.slots@.len() as int);
        assert(self.slots@.take(self.slots@.len() as int) =~= self.slots@);
        assert(self@.dom() =~= live_upto(self.slots@, self.slots@.len() as int));
    }

    pub fn new() -> (a: Self)
        ensures
            a.wf(),
            a@ == Map::<Handle, T>::empty(),
            a.spec_len() == 0,
            a.spec_retired() == Set::<Handle>::empty(),
    {
        let a = GenArena {
            slots: Vec::new(),
            free: Vec::new(),
            count: 0,
            retired: Ghost(Set::empty()),
        };
        proof {
            assert(a@ =~= Map::<Handle, T>::empty());
        }
        a
    }

    pub fn len(&self) -> (n: usize)
        ensures
            n == self.spec_len(),
    {
        self.count
    }

    /// Whether the handle is live: it was returned by `insert` and has not
    /// been removed since.
    pub fn contains(&self, h: Handle) -> (b: bool)
        requires
            self.wf(),
        ensures
            b == self@.contains_key(h),
    {
        h.idx < self.slots.len() && match &self.slots[h.idx] {
            Slot::Occupied { generation, .. } => *generation == h.generation,
            Slot::Vacant { .. } => false,
        }
    }

    /// Looks a handle up; a stale or foreign handle yields `None`.
    pub fn get(&self, h: Handle) -> (r: Option<&T>)
        requires
            self.wf(),
        ensures
            match r {
                Some(v) => self@.contains_key(h) && *v == self@[h],
                None => !self@.contains_key(h),
            },
    {
        if h.idx < self.slots.len() {
            match &self.slots[h.idx] {
                Slot::Occupied { generation, value } => if *generation == h.generation {
                    Some(value)
                } else {
                    None
                },
                Slot::Vacant { .. } => None,
            }
        } else {
            None
        }
    }

    /// Stores a value, returning a fresh handle for it; no live handle is
    /// disturbed.
    pub fn insert(&mut self, value: T) -> (h: Handle)
        requires
            old(self).wf(),
        ensures
            final(self).wf(),
            !old(self)@.contains_key(h),
            !old(self).spec_retired().contains(h),
            final(self)@ == old(self)@.insert(h, value),
            final(self).spec_len() == old(self).spec_len() + 1,
            final(self).spec_retired() == old(self).spec_retired(),
    {
        proof {
            lemma_occupied_count_le(self.slots@);
        }
        let h: Handle = match self.free.pop() {
            Some(idx) => {
                let generation = match &self.slots[idx] {
                    Slot::Vacant { next_generation } => *next_generation,
                    Slot::Occupied { .. } => {
                        proof {
                            assert(false);
                        }
                        0
                    },
                };
                proof {
                    lemma_occupied_count_vacant_lt(self.slots@, idx as int);
                    lemma_occupied_count_update(
                        self.slots@,
                        idx as int,
                        Slot::Occupied { generation, value },
                    );
                }
                self.slots[idx] = Slot::Occupied { generation, value };
                proof {
                    vstd::std_specs::vec::axiom_spec_len(&self.slots);
                }
                self.count = self.count + 1;
                Handle { idx, generation }
            },
            None => {
                let idx = self.slots.len();
                self.slots.push(Slot::Occupied { generation: 0, value });
                proof {
                    assert(self.slots@.drop_last() =~= old(self).slots@);
                    vstd::std_specs::vec::axiom_spec_len(&self.slots);
                }
                self.count = self.count + 1;
                Handle { idx, generation: 0 }
            },
        };
        proof {
            assert(self@ =~= old(self)@.insert(h, value));
        }
        h
    }

    /// Replaces the value a live handle refers to.
    pub fn update(&mut self, h: Handle, value: T)
        requires
            old(self).wf(),
            old(self)@.contains_key(h),
        ensures
            final(self).wf(),
            final(self)@ == old(self)@.insert(h, value),
            final(self).spec_len() == old(self).spec_len(),
            final(self).spec_retired() == old(self).spec_retired(),
    {
        proof {
            lemma_occupied_count_update(
                self.slots@,
                h.idx as int,
                Slot::Occupied { generation: h.generation, value },
            );
        }
        self.slots[h.idx] = Slot::Occupied { generation: h.generation, value };
        proof {
            assert(self@ =~= old(self)@.insert(h, value));
        }
    }

    /// Takes a live handle's value out, invalidating the handle for good:
    /// the slot's generation is bumped past it (or the slot itself is
    /// retired once its generations run out), so the same handle never
    /// resolves again.
    pub fn remove(&mut self, h: Handle) -> (value: T)
        requires
            old(self).wf(),
            old(self)@.contains_key(h),
        ensures
            final(self).wf(),
            value == old(self)@[h],
            final(self)@ == old(self)@.remove(h),
            final(self).spec_len() == old(self).spec_len() - 1,
            final(self).spec_retired() == old(self).spec_retired().insert(h),
    {
        let value = match &self.slots[h.idx] {
            Slot::Occupied { value, .. } => *value,
            Slot::Vacant { .. } => {
                proof {
                    assert(false);
                }
                unreached()
            },
        };
        proof {
            lemma_occupied_count_occupied_pos(self.slots@, h.idx as int);
        }
        if h.generation < u64::MAX {
            let next_generation = h.generation + 1;
            proof {
                lemma_occupied_count_update(
                    self.slots@,
                    h.idx as int,
                    Slot::Vacant { next_generation },
                );
            }
            self.slots[h.idx] = Slot::Vacant { next_generation };
            self.free.push(h.idx);
        } else {
            // the slot's generation space is exhausted: leave it off the
            // free list, so no handle for it is ever issued again
            proof {
                lemma_occupied_count_update(
                    self.slots@,
                    h.idx as int,
                    Slot::Vacant { next_generation: u64::MAX },
                );
            }
            self.slots[h.idx] = Slot::Vacant { next_generation: u64::MAX };
        }
        self.count = self.count - 1;
        proof {
            self.retired@ = self.retired@.insert(h);
            assert(self@ =~= old(self)@.remove(h));
        }
        value
    }

    /// Every live handle, each exactly once, in slot order.
    pub fn handles(&self) -> (hs: Vec<Handle>)
        requires
            self.wf(),
        ensures
            forall|k: int| 0 <= k < hs@.len() ==> self@.contains_key(#[trigger] hs@[k]),
            forall|h: Handle| self@.contains_key(h) ==> hs@.contains(h),
            forall|k: int, l: int| 0 <= k < l < hs@.len() ==> hs@[k] != hs@[l],
    {
        let mut hs: Vec<Handle> = Vec::new();
        let mut i: usize = 0;
        while i < self.slots.len()
            invariant
                i <= self.slots@.len(),
                forall|k: int|
                    0 <= k < hs@.len() ==> self@.contains_key(#[trigger] hs@[k]) && hs@[k].idx < i,
                forall|h: Handle| self@.contains_key(h) && h.idx < i ==> hs@.contains(h),
                forall|k: int, l: int| 0 <= k < l < hs@.len() ==> hs@[k].idx < hs@[l].idx,
            decreases self.slots@.len() - i,
        {
            match &self.slots[i] {
                Slot::Occupied { generation, .. } => {
                    let h = Handle { idx: i, generation: *generation };
                    let ghost hs0 = hs@;
                    hs.push(h);
                    proof {
                        assert forall|h2: Handle|
                            self@.contains_key(h2) && h2.idx < i + 1 implies hs@.contains(h2) by {
                            if h2.idx < i {
                                assert(hs0.contains(h2));
                                let k = choose|k: int| 0 <= k < hs0.len() && hs0[k] == h2;
                                assert(hs@[k] == h2);
                            } else {
                                assert(h2 == h);
                                assert(hs@[hs@.len() - 1] == h2);
                            }
                        }
                    }
                },
                Slot::Vacant { .. } => {
                    proof {
                        assert forall|h2: Handle|
                            self@.contains_key(h2) && h2.idx < i + 1 implies hs@.contains(h2) by {
                            assert(h2.idx != i);
                        }
                    }
                },
            }
            i = i + 1;
        }
        hs
    }
}

} // verus!
