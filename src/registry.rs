//! The hazard registry: per-thread blocks of hazard slots, and the protocol that decides who
//! finalizes a handle once it has left its slot.
//!
//! Handles are encoded as words. `EMPTY` stands for no handle and `TRANSFERRED` marks a slot
//! whose reader has been handed the duty to finalize the handle it protected; every other
//! value is a handle. Each method is one atomic step of the protocol.
use vstd::prelude::*;

verus! {

/// The word of an empty slot.
pub const EMPTY: usize = 0;

/// The word a writer leaves in a reader's hazard slot when it hands that reader the duty to
/// finalize the handle the slot protected. The slot stays reserved until the reader drops
/// its observation.
pub const TRANSFERRED: usize = 1;

/// Hazard slots in one block of a thread entry.
pub const HAZARDS_PER_ENTRY: usize = 6;

/// Thread entries in one segment of the registry.
pub const ENTRIES_PER_SEGMENT: usize = 32;

/// A word that encodes a handle.
pub open spec fn is_handle(p: usize) -> bool {
    p != EMPTY && p != TRANSFERRED
}

/// A thread's hazard slots (its own block, then those of its extensions) and whether a thread
/// has claimed it.
pub struct ThreadEntry {
    hazards: Vec<usize>,
    in_use: bool,
}

/// The model of an entry: its hazard words, and whether it is claimed.
pub type EntryView = (Seq<usize>, bool);

impl View for ThreadEntry {
    type V = EntryView;

    closed spec fn view(&self) -> EntryView {
        (self.hazards@, self.in_use)
    }
}

/// A block of empty hazard slots.
pub open spec fn empty_block() -> Seq<usize> {
    Seq::new(HAZARDS_PER_ENTRY as nat, |k: int| EMPTY)
}

/// An entry that no thread has claimed.
pub open spec fn free_entry() -> EntryView {
    (empty_block(), false)
}

/// A segment of entries that no thread has claimed.
pub open spec fn free_segment() -> Seq<EntryView> {
    Seq::new(ENTRIES_PER_SEGMENT as nat, |k: int| free_entry())
}

/// The registry: segments of thread entries, appended as threads need them and never freed.
pub struct Registry {
    entries: Vec<ThreadEntry>,
}

impl View for Registry {
    type V = Seq<EntryView>;

    closed spec fn view(&self) -> Seq<EntryView> {
        self.entries@.map_values(|e: ThreadEntry| e@)
    }
}

/// Whole segments of entries, each entry holding whole blocks of slots, and every slot of an
/// entry that no thread has claimed empty.
pub open spec fn wf(r: Seq<EntryView>) -> bool {
    &&& r.len() % (ENTRIES_PER_SEGMENT as nat) == 0
    &&& forall|e: int|
        0 <= e < r.len() ==> {
            &&& #[trigger] r[e].0.len() >= HAZARDS_PER_ENTRY
            &&& r[e].0.len() % (HAZARDS_PER_ENTRY as nat) == 0
        }
    &&& forall|e: int, i: int|
        0 <= e < r.len() && !r[e].1 && 0 <= i < r[e].0.len() ==> #[trigger] r[e].0[i] == EMPTY
}

/// A claimed entry has a slot that holds `p`.
pub open spec fn protected(r: Seq<EntryView>, p: usize) -> bool {
    exists|e: usize, i: usize|
        e < r.len() && i < r[e as int].0.len() && r[e as int].1 && #[trigger] r[e as int].0[i as int]
            == p
}

/// `r` with the word of slot `i` of entry `e` set to `w`.
pub open spec fn with_slot(r: Seq<EntryView>, e: int, i: int, w: usize) -> Seq<EntryView> {
    r.update(e, (r[e].0.update(i, w), r[e].1))
}

/// `after` is `before` with one slot of a claimed entry turned from `p` to `TRANSFERRED`.
pub open spec fn transferred(before: Seq<EntryView>, after: Seq<EntryView>, p: usize) -> bool {
    exists|e: usize, i: usize|
        e < before.len() && i < before[e as int].0.len() && before[e as int].1 && before[e as int].0[i as int]
            == p && after == #[trigger] with_slot(before, e as int, i as int, TRANSFERRED)
}

/// An observation of a handle: the handle's word, and the hazard slot (entry, index) that
/// protects it, or none for an observation made by the writer that evicted the handle.
pub type Observation = (usize, Option<(usize, usize)>);

/// `after` and `finalize` are what ending observation `o` in `before` leads to.
pub open spec fn released(
    before: Seq<EntryView>,
    o: Observation,
    after: Seq<EntryView>,
    finalize: bool,
) -> bool {
    let inner = o.0;
    if !is_handle(inner) {
        !finalize && after == before
    } else {
        match o.1 {
            None => {
                &&& finalize == !protected(before, inner)
                &&& finalize ==> after == before
                &&& !finalize ==> transferred(before, after, inner)
            },
            Some((e, i)) => {
                let cleared = with_slot(before, e as int, i as int, EMPTY);
                if before[e as int].0[i as int] == inner {
                    !finalize && after == cleared
                } else {
                    &&& finalize == !protected(cleared, inner)
                    &&& finalize ==> after == cleared
                    &&& !finalize ==> transferred(cleared, after, inner)
                }
            },
        }
    }
}

/// `after` is `before` where a thread claimed entry `e`: the first free one, or the first
/// of a new segment when all were claimed.
pub open spec fn registered(before: Seq<EntryView>, after: Seq<EntryView>, e: int) -> bool {
    &&& 0 <= e < after.len()
    &&& after[e].1
    &&& forall|i: int| 0 <= i < after[e].0.len() ==> #[trigger] after[e].0[i] == EMPTY
    &&& forall|k: int| 0 <= k < e && k < before.len() ==> #[trigger] before[k].1
    &&& e < before.len() ==> !before[e].1 && after == before.update(e, (before[e].0, true))
    &&& e >= before.len() ==> e == before.len() && after == before + free_segment().update(
        0,
        (empty_block(), true),
    )
}

impl ThreadEntry {
    fn free() -> (r: ThreadEntry)
        ensures
            r@ == free_entry(),
    {
        let mut hazards: Vec<usize> = Vec::new();
        while hazards.len() < HAZARDS_PER_ENTRY
            invariant
                hazards.len() <= HAZARDS_PER_ENTRY,
                forall|k: int| 0 <= k < hazards.len() ==> hazards@[k] == EMPTY,
            decreases HAZARDS_PER_ENTRY - hazards.len(),
        {
            hazards.push(EMPTY);
        }
        assert(hazards@ =~= empty_block());
        ThreadEntry { hazards, in_use: false }
    }

    /// Appends a block of empty slots: the extension that serves a thread whose slots are
    /// all taken.
    fn extend(&mut self)
        requires
            old(self)@.0.len() + HAZARDS_PER_ENTRY <= usize::MAX,
        ensures
            final(self)@ == (old(self)@.0 + empty_block(), old(self)@.1),
    {
        let mut k: usize = 0;
        while k < HAZARDS_PER_ENTRY
            invariant
                k <= HAZARDS_PER_ENTRY,
                self.in_use == old(self).in_use,
                self.hazards@ =~= old(self).hazards@ + empty_block().subrange(0, k as int),
            decreases HAZARDS_PER_ENTRY - k,
        {
            self.hazards.push(EMPTY);
            k = k + 1;
            assert(self.hazards@ =~= old(self).hazards@ + empty_block().subrange(0, k as int));
        }
        assert(empty_block().subrange(0, HAZARDS_PER_ENTRY as int) =~= empty_block());
    }

    /// Finds an empty hazard slot: the first one, or the first of a new block when all are
    /// taken.
    pub fn allocate_hazard_slot(&mut self) -> (i: usize)
        requires
            old(self)@.0.len() + HAZARDS_PER_ENTRY <= usize::MAX,
        ensures
            i < final(self)@.0.len(),
            final(self)@.0[i as int] == EMPTY,
            forall|k: int| 0 <= k < i && k < old(self)@.0.len() ==> #[trigger] old(self)@.0[k] != EMPTY,
            i < old(self)@.0.len() ==> final(self)@ == old(self)@,
            i >= old(self)@.0.len() ==> i == old(self)@.0.len() && final(self)@ == (
                old(self)@.0 + empty_block(),
                old(self)@.1,
            ),
    {
        let mut i: usize = 0;
        while i < self.hazards.len()
            invariant
                self@ == old(self)@,
                i <= self.hazards.len(),
                forall|k: int| 0 <= k < i ==> #[trigger] self.hazards@[k] != EMPTY,
            decreases self.hazards.len() - i,
        {
            if self.hazards[i] == EMPTY {
                return i;
            }
            i = i + 1;
        }
        self.extend();
        i
    }

    /// Hands the duty to finalize `p` to this entry's thread: its first slot that holds `p`
    /// is turned to `TRANSFERRED`. Returns `false`, and changes nothing, when no slot holds `p`.
    pub fn try_transfer_drop_responsibility(&mut self, p: usize) -> (r: bool)
        ensures
            r == exists|i: usize| i < old(self)@.0.len() && #[trigger] old(self)@.0[i as int] == p,
            r ==> exists|i: usize|
                i < old(self)@.0.len() && old(self)@.0[i as int] == p && #[trigger] final(self)@.0
                    == old(self)@.0.update(i as int, TRANSFERRED),
            final(self)@.1 == old(self)@.1,
            !r ==> final(self)@ == old(self)@,
            !r ==> forall|k: int| 0 <= k < old(self)@.0.len() ==> #[trigger] old(self)@.0[k] != p,
    {
        let mut i: usize = 0;
        while i < self.hazards.len()
            invariant
                self@ == old(self)@,
                i <= self.hazards.len(),
                forall|k: int| 0 <= k < i ==> #[trigger] self.hazards@[k] != p,
            decreases self.hazards.len() - i,
        {
            if self.hazards[i] == p {
                self.hazards.set(i, TRANSFERRED);
                assert(self@.0 == old(self)@.0.update(i as int, TRANSFERRED));
                return true;
            }
            i = i + 1;
        }
        false
    }

    /// Writes `w` into slot `i` and returns the word it held.
    fn swap(&mut self, i: usize, w: usize) -> (prev: usize)
        requires
            i < old(self)@.0.len(),
        ensures
            prev == old(self)@.0[i as int],
            final(self)@ == (old(self)@.0.update(i as int, w), old(self)@.1),
    {
        let prev = self.hazards[i];
        self.hazards.set(i, w);
        prev
    }

    /// Gives the entry back: no thread uses it any more.
    pub fn unregister(&mut self)
        ensures
            final(self)@ == (old(self)@.0, false),
    {
        self.in_use = false;
    }
}

/// The model of entries, after entry `e` alone was changed.
proof fn lemma_entry_changed(before: Seq<ThreadEntry>, after: Seq<ThreadEntry>, e: int)
    requires
        0 <= e < before.len(),
        after == before.update(e, after[e]),
    ensures
        after.map_values(|t: ThreadEntry| t@) =~= before.map_values(|t: ThreadEntry| t@).update(
            e,
            after[e]@,
        ),
{
}

impl Registry {
    /// A registry without entries; the first segment comes with the first registration.
    pub fn new() -> (r: Registry)
        ensures
            r@ == Seq::<EntryView>::empty(),
    {
        let r = Registry { entries: Vec::new() };
        assert(r@ =~= Seq::<EntryView>::empty());
        r
    }

    /// Claims an entry for a thread: the first free one, or the first of a new segment.
    pub fn register(&mut self) -> (e: usize)
        requires
            wf(old(self)@),
            old(self)@.len() + ENTRIES_PER_SEGMENT <= usize::MAX,
        ensures
            wf(final(self)@),
            registered(old(self)@, final(self)@, e as int),
    {
        let ghost before = self@;
        let mut e: usize = 0;
        while e < self.entries.len()
            invariant
                self@ == before,
                before == old(self)@,
                wf(before),
                e <= self.entries.len(),
                forall|k: int| 0 <= k < e ==> #[trigger] before[k].1,
            decreases self.entries.len() - e,
        {
            assert(before[e as int] == self.entries@[e as int]@);
            if !self.entries[e].in_use {
                self.entries[e].in_use = true;
                assert(self@ =~= before.update(e as int, (before[e as int].0, true)));
                return e;
            }
            e = e + 1;
        }
        let mut k: usize = 0;
        while k < ENTRIES_PER_SEGMENT
            invariant
                wf(before),
                k <= ENTRIES_PER_SEGMENT,
                self.entries.len() == before.len() + k,
                before == old(self)@,
                e == before.len(),
                self@.len() == before.len() + k,
                forall|j: int| 0 <= j < before.len() ==> #[trigger] self@[j] == before[j],
                forall|j: int|
                    before.len() <= j < before.len() + k ==> #[trigger] self@[j] == free_entry(),
            decreases ENTRIES_PER_SEGMENT - k,
        {
            let entry = ThreadEntry::free();
            let ghost prior = self.entries@;
            let ghost prior_view = self@;
            self.entries.push(entry);
            assert(self.entries@ == prior.push(entry));
            assert forall|j: int| 0 <= j < prior.len() implies self@[j] == prior_view[j] by {
                assert(self.entries@[j] == prior[j]);
                assert(prior_view[j] == prior[j]@);
                assert(self@[j] == self.entries@[j]@);
            }
            assert(self@[before.len() + k] == free_entry());
            assert forall|j: int| 0 <= j < before.len() implies #[trigger] self@[j] == before[j] by {
                assert(self@[j] == prior_view[j]);
            }
            assert forall|j: int| before.len() <= j < before.len() + k + 1 implies #[trigger] self@[j]
                == free_entry() by {
                if j < before.len() + k {
                    assert(self@[j] == prior_view[j]);
                }
            }
            k = k + 1;
        }
        let ghost grown = self@;
        assert(self@[e as int] == self.entries@[e as int]@);
        self.entries[e].in_use = true;
        assert forall|j: int| 0 <= j < grown.len() && j != e implies self@[j] == grown[j] by {}
        let ghost target = before + free_segment().update(0, (empty_block(), true));
        assert forall|j: int| 0 <= j < target.len() implies self@[j] == target[j] by {
            if j >= before.len() && j != e {
                assert(free_segment()[j - before.len()] == free_entry());
                assert(grown[j] == free_entry());
            } else if j < before.len() {
                assert(grown[j] == before[j]);
            }
        }
        assert(self@ =~= target);
        e
    }

    /// Finds an empty hazard slot of entry `e`: the first one, or the first of a new block
    /// when all are taken.
    pub fn allocate_hazard_slot(&mut self, e: usize) -> (i: usize)
        requires
            wf(old(self)@),
            e < old(self)@.len(),
            old(self)@[e as int].0.len() + HAZARDS_PER_ENTRY <= usize::MAX,
        ensures
            wf(final(self)@),
            i < final(self)@[e as int].0.len(),
            final(self)@[e as int].0[i as int] == EMPTY,
            forall|k: int| 0 <= k < i && k < old(self)@[e as int].0.len() ==> #[trigger] old(self)@[e as int].0[k] != EMPTY,
            i < old(self)@[e as int].0.len() ==> final(self)@ == old(self)@,
            i >= old(self)@[e as int].0.len() ==> i == old(self)@[e as int].0.len() && final(self)@
                == old(self)@.update(
                e as int,
                (old(self)@[e as int].0 + empty_block(), old(self)@[e as int].1),
            ),
    {
        let ghost before = self.entries@;
        let i = self.entries[e].allocate_hazard_slot();
        proof {
            lemma_entry_changed(before, self.entries@, e as int);
        }
        i
    }

    /// Writes `p` into slot `i` of entry `e`: the thread that owns the entry publishes the
    /// handle it is about to read.
    pub fn publish(&mut self, e: usize, i: usize, p: usize)
        requires
            wf(old(self)@),
            e < old(self)@.len(),
            i < old(self)@[e as int].0.len(),
            old(self)@[e as int].1,
        ensures
            wf(final(self)@),
            final(self)@ == with_slot(old(self)@, e as int, i as int, p),
    {
        self.swap_slot(e, i, p);
    }

    /// Writes `w` into slot `i` of entry `e` and returns the word it held.
    fn swap_slot(&mut self, e: usize, i: usize, w: usize) -> (prev: usize)
        requires
            wf(old(self)@),
            e < old(self)@.len(),
            i < old(self)@[e as int].0.len(),
            w == EMPTY || old(self)@[e as int].1,
        ensures
            wf(final(self)@),
            prev == old(self)@[e as int].0[i as int],
            final(self)@ == with_slot(old(self)@, e as int, i as int, w),
    {
        let ghost before = self.entries@;
        let prev = self.entries[e].swap(i, w);
        proof {
            lemma_entry_changed(before, self.entries@, e as int);
        }
        prev
    }

    /// Hands the duty to finalize `p` to a reader that protects it: the first slot of a
    /// claimed entry that holds `p` is turned to `TRANSFERRED`. Returns `false`, and changes
    /// nothing, when no such slot exists.
    pub fn try_transfer_drop_responsibility(&mut self, p: usize) -> (r: bool)
        requires
            wf(old(self)@),
            is_handle(p),
        ensures
            wf(final(self)@),
            r == protected(old(self)@, p),
            r ==> transferred(old(self)@, final(self)@, p),
            !r ==> final(self)@ == old(self)@,
    {
        let ghost before = self@;
        let mut e: usize = 0;
        while e < self.entries.len()
            invariant
                self@ == before,
                before == old(self)@,
                wf(before),
                e <= self.entries.len(),
                forall|f: int, k: int|
                    0 <= f < e && 0 <= k < before[f].0.len() && before[f].1 ==> #[trigger] before[f].0[k] != p,
            decreases self.entries.len() - e,
        {
            assert(before[e as int] == self.entries@[e as int]@);
            if self.entries[e].in_use {
                let ghost entries = self.entries@;
                let found = self.entries[e].try_transfer_drop_responsibility(p);
                proof {
                    lemma_entry_changed(entries, self.entries@, e as int);
                }
                if found {
                    let ghost i = choose|i: usize|
                        i < before[e as int].0.len() && before[e as int].0[i as int] == p && #[trigger] self.entries@[e as int]@.0
                            == before[e as int].0.update(i as int, TRANSFERRED);
                    assert(self@ =~= with_slot(before, e as int, i as int, TRANSFERRED));
                    assert(before[e as int].1);
                    return true;
                }
                assert(self@ =~= before);
            }
            e = e + 1;
        }
        false
    }

    /// Ends an observation of `inner`, protected by hazard slot `slot` of the observing thread
    /// or by none (an observation made by a writer that evicted `inner`). Returns whether the
    /// caller must finalize `inner`, that is, drop the strong count the slot had owned.
    ///
    /// An observation without a slot owns the count: it hands the duty on to a reader that
    /// protects `inner`, or keeps it. An observation whose slot still holds `inner` owns
    /// nothing and only clears the slot. One whose slot a writer has marked `TRANSFERRED`
    /// was handed the duty: it clears the slot, then hands the duty on or keeps it.
    pub fn release(&mut self, inner: usize, slot: Option<(usize, usize)>) -> (finalize: bool)
        requires
            wf(old(self)@),
            slot matches Some((e, i)) ==> e < old(self)@.len() && i < old(self)@[e as int].0.len(),
        ensures
            wf(final(self)@),
            released(old(self)@, (inner, slot), final(self)@, finalize),
            finalize ==> !protected(final(self)@, inner),
    {
        if inner == EMPTY || inner == TRANSFERRED {
            return false;
        }
        match slot {
            None => !self.try_transfer_drop_responsibility(inner),
            Some((e, i)) => {
                let prev = self.swap_slot(e, i, EMPTY);
                if prev == inner {
                    false
                } else {
                    !self.try_transfer_drop_responsibility(inner)
                }
            },
        }
    }

    /// Releases the entry of a thread that no longer uses it; all its slots are empty by then.
    pub fn unregister(&mut self, e: usize)
        requires
            wf(old(self)@),
            e < old(self)@.len(),
            forall|i: int| 0 <= i < old(self)@[e as int].0.len() ==> #[trigger] old(self)@[e as int].0[i] == EMPTY,
        ensures
            wf(final(self)@),
            final(self)@ == old(self)@.update(e as int, (old(self)@[e as int].0, false)),
    {
        let ghost before = self.entries@;
        self.entries[e].unregister();
        proof {
            lemma_entry_changed(before, self.entries@, e as int);
        }
    }
}

/// A thread's claim on a registry entry, made when the thread first reads a slot.
pub struct Harness {
    entry: usize,
}

impl View for Harness {
    type V = nat;

    /// The claimed entry.
    closed spec fn view(&self) -> nat {
        self.entry as nat
    }
}

impl Harness {
    /// Claims an entry of `registry` for the calling thread.
    pub fn new(registry: &mut Registry) -> (h: Harness)
        requires
            wf(old(registry)@),
            old(registry)@.len() + ENTRIES_PER_SEGMENT <= usize::MAX,
        ensures
            wf(final(registry)@),
            registered(old(registry)@, final(registry)@, h@ as int),
    {
        Harness { entry: registry.register() }
    }

    /// Finds an empty hazard slot of the claimed entry.
    pub fn allocate_hazard_slot(&self, registry: &mut Registry) -> (i: usize)
        requires
            wf(old(registry)@),
            self@ < old(registry)@.len(),
            old(registry)@[self@ as int].0.len() + HAZARDS_PER_ENTRY <= usize::MAX,
        ensures
            wf(final(registry)@),
            i < final(registry)@[self@ as int].0.len(),
            final(registry)@[self@ as int].0[i as int] == EMPTY,
            i < old(registry)@[self@ as int].0.len() ==> final(registry)@ == old(registry)@,
            i >= old(registry)@[self@ as int].0.len() ==> final(registry)@ == old(registry)@.update(
                self@ as int,
                (old(registry)@[self@ as int].0 + empty_block(), old(registry)@[self@ as int].1),
            ),
    {
        registry.allocate_hazard_slot(self.entry)
    }

    /// Gives the claimed entry back when the thread ends, with all its slots empty.
    pub fn unregister(self, registry: &mut Registry)
        requires
            wf(old(registry)@),
            self@ < old(registry)@.len(),
            forall|i: int|
                0 <= i < old(registry)@[self@ as int].0.len() ==> #[trigger] old(registry)@[self@ as int].0[i] == EMPTY,
        ensures
            wf(final(registry)@),
            final(registry)@ == old(registry)@.update(
                self@ as int,
                (old(registry)@[self@ as int].0, false),
            ),
    {
        registry.unregister(self.entry)
    }
}

} // verus!
