//! Who holds the duty to finalize a handle, and how the protocol steps move that duty.
//!
//! The duty for a handle `p` lies with the slot while the slot holds `p`, with an observation
//! made by the writer that evicted `p`, and with a reader's observation of `p` whose hazard
//! slot no longer protects `p` because a writer marked it `TRANSFERRED`. The laws below show
//! that no step creates or loses that duty: a writer's replace moves it, a reader's publish
//! leaves it alone, and ending an observation hands it on, or leaves it with the one caller
//! that then finalizes the handle. Over a whole run of steps the duty is conserved, so a
//! handle evicted once is finalized exactly once.
use crate::registry::{
    empty_block, is_handle, released, with_slot, EntryView, Observation, EMPTY, TRANSFERRED,
};
use vstd::prelude::*;

verus! {

/// Observation `o` holds the duty to finalize `p`.
pub open spec fn owns(r: Seq<EntryView>, o: Observation, p: usize) -> bool {
    &&& is_handle(p)
    &&& o.0 == p
    &&& match o.1 {
        None => true,
        Some((e, i)) => r[e as int].0[i as int] != p,
    }
}

/// The hazard slot of observation `o` still holds the observed handle.
pub open spec fn slot_protects(r: Seq<EntryView>, o: Observation) -> bool {
    match o.1 {
        Some((e, i)) => r[e as int].0[i as int] == o.0,
        None => false,
    }
}

/// The number of observations in `obs` that hold the duty to finalize `p`.
pub open spec fn owning_observations(r: Seq<EntryView>, obs: Seq<Observation>, p: usize) -> nat
    decreases obs.len(),
{
    if obs.len() == 0 {
        0
    } else {
        owning_observations(r, obs.drop_last(), p) + if owns(r, obs.last(), p) {
            1nat
        } else {
            0nat
        }
    }
}

/// The number of parties that hold the duty to finalize `p`: the slot, when its word is `p`,
/// and the observations that own `p`.
pub open spec fn owners(r: Seq<EntryView>, word: usize, obs: Seq<Observation>, p: usize) -> nat {
    (if word == p && is_handle(p) {
        1nat
    } else {
        0nat
    }) + owning_observations(r, obs, p)
}

/// The observations agree with the registry: each slot-protected observation holds a handle
/// and has a slot of a claimed entry of its own, which holds that handle or `TRANSFERRED`;
/// and each busy slot of a claimed entry is the slot of an observation.
pub open spec fn consistent(r: Seq<EntryView>, obs: Seq<Observation>) -> bool {
    &&& forall|k: int|
        0 <= k < obs.len() && (#[trigger] obs[k]).1 is Some ==> {
            let (e, i) = obs[k].1->0;
            &&& is_handle(obs[k].0)
            &&& e < r.len()
            &&& i < r[e as int].0.len()
            &&& r[e as int].1
            &&& r[e as int].0[i as int] == obs[k].0 || r[e as int].0[i as int] == TRANSFERRED
        }
    &&& forall|k: int, j: int|
        0 <= k < obs.len() && 0 <= j < obs.len() && k != j && (#[trigger] obs[k]).1 is Some
            ==> obs[k].1 != (#[trigger] obs[j]).1
    &&& forall|e: usize, i: usize|
        e < r.len() && i < r[e as int].0.len() && r[e as int].1 && #[trigger] r[e as int].0[i as int]
            != EMPTY ==> exists|k: int| 0 <= k < obs.len() && #[trigger] obs[k].1 == Some((e, i))
}

/// Registries that agree on the slots of the observations give them the same duties.
proof fn lemma_same_slots(r1: Seq<EntryView>, r2: Seq<EntryView>, obs: Seq<Observation>, p: usize)
    requires
        forall|k: int|
            0 <= k < obs.len() && (#[trigger] obs[k]).1 is Some ==> {
                let (e, i) = obs[k].1->0;
                r1[e as int].0[i as int] == r2[e as int].0[i as int]
            },
    ensures
        owning_observations(r1, obs, p) == owning_observations(r2, obs, p),
    decreases obs.len(),
{
    if obs.len() > 0 {
        let rest = obs.drop_last();
        assert forall|k: int| 0 <= k < rest.len() && (#[trigger] rest[k]).1 is Some implies {
            let (e, i) = rest[k].1->0;
            r1[e as int].0[i as int] == r2[e as int].0[i as int]
        } by {
            assert(rest[k] == obs[k]);
        }
        lemma_same_slots(r1, r2, rest, p);
        assert(obs.last() == obs[obs.len() - 1]);
    }
}

/// Taking observation `k` out of `obs` takes its share of the duty out of the count.
proof fn lemma_remove(r: Seq<EntryView>, obs: Seq<Observation>, k: int, p: usize)
    requires
        0 <= k < obs.len(),
    ensures
        owning_observations(r, obs, p) == owning_observations(r, obs.remove(k), p) + if owns(
            r,
            obs[k],
            p,
        ) {
            1nat
        } else {
            0nat
        },
    decreases obs.len(),
{
    if k == obs.len() - 1 {
        assert(obs.remove(k) =~= obs.drop_last());
    } else {
        lemma_remove(r, obs.drop_last(), k, p);
        assert(obs.remove(k).drop_last() =~= obs.drop_last().remove(k));
        assert(obs.remove(k).last() == obs.last());
    }
}

/// Adding an observation adds its share of the duty to the count.
proof fn lemma_push(r: Seq<EntryView>, obs: Seq<Observation>, o: Observation, p: usize)
    ensures
        owning_observations(r, obs.push(o), p) == owning_observations(r, obs, p) + if owns(
            r,
            o,
            p,
        ) {
            1nat
        } else {
            0nat
        },
{
    assert(obs.push(o).drop_last() =~= obs);
}

/// Replacing the slot's handle `word` with a fresh handle `new`, for which nobody holds the
/// duty yet, hands the duty for `word` from the slot to the writer's observation and gives
/// the slot the duty for `new`. Every other count stays as it was.
pub proof fn lemma_replace_moves_duty(
    r: Seq<EntryView>,
    word: usize,
    obs: Seq<Observation>,
    new: usize,
)
    requires
        consistent(r, obs),
        is_handle(new) ==> owners(r, word, obs, new) == 0,
    ensures
        consistent(r, obs.push((word, None))),
        forall|p: usize|
            #[trigger] owners(r, new, obs.push((word, None)), p) == if p == new && is_handle(p) {
                1
            } else {
                owners(r, word, obs, p)
            },
{
    let after = obs.push((word, None));
    assert forall|p: usize| #[trigger] owners(r, new, after, p) == if p == new && is_handle(p) {
        1
    } else {
        owners(r, word, obs, p)
    } by {
        lemma_push(r, obs, (word, None), p);
    }
    assert forall|e: usize, i: usize|
        e < r.len() && i < r[e as int].0.len() && r[e as int].1 && #[trigger] r[e as int].0[i as int]
            != EMPTY implies exists|k: int| 0 <= k < after.len() && #[trigger] after[k].1 == Some((e, i)) by {
        let k = choose|k: int| 0 <= k < obs.len() && #[trigger] obs[k].1 == Some((e, i));
        assert(after[k] == obs[k]);
    }
    assert forall|k: int| 0 <= k < after.len() && (#[trigger] after[k]).1 is Some implies {
        let (e, i) = after[k].1->0;
        &&& is_handle(after[k].0)
        &&& e < r.len()
        &&& i < r[e as int].0.len()
        &&& r[e as int].1
        &&& r[e as int].0[i as int] == after[k].0 || r[e as int].0[i as int] == TRANSFERRED
    } by {
        assert(after[k] == obs[k]);
    }
    assert forall|k: int, j: int|
        0 <= k < after.len() && 0 <= j < after.len() && k != j && (#[trigger] after[k]).1 is Some
            implies after[k].1 != (#[trigger] after[j]).1 by {
        assert(after[k] == obs[k]);
        if j < obs.len() {
            assert(after[j] == obs[j]);
        }
    }
}

/// A reader that publishes a handle `p` in an empty hazard slot of its claimed entry, and
/// keeps the observation, takes no duty and moves none, whether or not `p` is still the
/// slot's handle `word`: every count stays as it was.
pub proof fn lemma_publish_keeps_duties(
    r: Seq<EntryView>,
    word: usize,
    obs: Seq<Observation>,
    p: usize,
    e: usize,
    i: usize,
)
    requires
        consistent(r, obs),
        is_handle(p),
        e < r.len(),
        i < r[e as int].0.len(),
        r[e as int].1,
        r[e as int].0[i as int] == EMPTY,
    ensures
        consistent(with_slot(r, e as int, i as int, p), obs.push((p, Some((e, i))))),
        forall|q: usize|
            #[trigger] owners(with_slot(r, e as int, i as int, p), word, obs.push((p, Some((e, i)))), q)
                == owners(r, word, obs, q),
{
    let r2 = with_slot(r, e as int, i as int, p);
    let o: Observation = (p, Some((e, i)));
    let after = obs.push(o);
    assert forall|k: int| 0 <= k < obs.len() && (#[trigger] obs[k]).1 is Some implies {
        let (f, j) = obs[k].1->0;
        r[f as int].0[j as int] == r2[f as int].0[j as int]
    } by {
        let (f, j) = obs[k].1->0;
        if f == e && j == i {
            assert(r[e as int].0[i as int] != EMPTY);
        }
    }
    assert forall|q: usize| #[trigger] owners(r2, word, after, q) == owners(r, word, obs, q) by {
        lemma_same_slots(r, r2, obs, q);
        lemma_push(r2, obs, o, q);
    }
    assert forall|k: int| 0 <= k < after.len() && (#[trigger] after[k]).1 is Some implies {
        let (f, j) = after[k].1->0;
        &&& is_handle(after[k].0)
        &&& f < r2.len()
        &&& j < r2[f as int].0.len()
        &&& r2[f as int].1
        &&& r2[f as int].0[j as int] == after[k].0 || r2[f as int].0[j as int] == TRANSFERRED
    } by {
        if k < obs.len() {
            assert(after[k] == obs[k]);
            let (f, j) = obs[k].1->0;
            if f == e && j == i {
                assert(r[e as int].0[i as int] != EMPTY);
            }
        }
    }
    assert forall|k: int, j: int|
        0 <= k < after.len() && 0 <= j < after.len() && k != j && (#[trigger] after[k]).1 is Some
            implies after[k].1 != (#[trigger] after[j]).1 by {
        if k < obs.len() {
            assert(after[k] == obs[k]);
            if j < obs.len() {
                assert(after[j] == obs[j]);
            } else {
                let (f, g) = obs[k].1->0;
                if f == e && g == i {
                    assert(r[e as int].0[i as int] != EMPTY);
                }
            }
        } else {
            assert(after[j] == obs[j]);
            if obs[j].1 is Some {
                let (f, g) = obs[j].1->0;
                if f == e && g == i {
                    assert(r[e as int].0[i as int] != EMPTY);
                }
            }
        }
    }
    assert forall|f: usize, j: usize|
        f < r2.len() && j < r2[f as int].0.len() && r2[f as int].1 && #[trigger] r2[f as int].0[j as int]
            != EMPTY implies exists|k: int| 0 <= k < after.len() && #[trigger] after[k].1 == Some((f, j)) by {
        if f == e && j == i {
            assert(after[obs.len() as int] == o);
        } else {
            assert(r2[f as int].0[j as int] == r[f as int].0[j as int]);
            let k = choose|k: int| 0 <= k < obs.len() && #[trigger] obs[k].1 == Some((f, j));
            assert(after[k] == obs[k]);
        }
    }
}

/// Giving a thread's entry a new block of empty slots moves no duty and keeps the state
/// consistent.
pub proof fn lemma_extend_keeps_duties(
    r: Seq<EntryView>,
    word: usize,
    obs: Seq<Observation>,
    e: usize,
)
    requires
        consistent(r, obs),
        e < r.len(),
    ensures
        consistent(r.update(e as int, (r[e as int].0 + empty_block(), r[e as int].1)), obs),
        forall|q: usize|
            #[trigger] owners(r.update(e as int, (r[e as int].0 + empty_block(), r[e as int].1)), word, obs, q)
                == owners(r, word, obs, q),
{
    let r2 = r.update(e as int, (r[e as int].0 + empty_block(), r[e as int].1));
    assert forall|k: int| 0 <= k < obs.len() && (#[trigger] obs[k]).1 is Some implies {
        let (f, g) = obs[k].1->0;
        r[f as int].0[g as int] == r2[f as int].0[g as int]
    } by {}
    assert forall|q: usize| #[trigger] owners(r2, word, obs, q) == owners(r, word, obs, q) by {
        lemma_same_slots(r, r2, obs, q);
    }
    assert forall|f: usize, g: usize|
        f < r2.len() && g < r2[f as int].0.len() && r2[f as int].1 && #[trigger] r2[f as int].0[g as int]
            != EMPTY implies exists|k: int| 0 <= k < obs.len() && #[trigger] obs[k].1 == Some((f, g)) by {
        assert(g < r[f as int].0.len());
        assert(r[f as int].0[g as int] != EMPTY);
    }
}

/// A thread that gives back its entry once all its slots are empty moves no duty and keeps
/// the state consistent.
pub proof fn lemma_unregister_keeps_duties(
    r: Seq<EntryView>,
    word: usize,
    obs: Seq<Observation>,
    e: usize,
)
    requires
        consistent(r, obs),
        e < r.len(),
        forall|i: int| 0 <= i < r[e as int].0.len() ==> #[trigger] r[e as int].0[i] == EMPTY,
    ensures
        consistent(r.update(e as int, (r[e as int].0, false)), obs),
        forall|q: usize|
            #[trigger] owners(r.update(e as int, (r[e as int].0, false)), word, obs, q) == owners(
                r,
                word,
                obs,
                q,
            ),
{
    let r2 = r.update(e as int, (r[e as int].0, false));
    assert forall|k: int| 0 <= k < obs.len() && (#[trigger] obs[k]).1 is Some implies {
        let (f, g) = obs[k].1->0;
        r[f as int].0[g as int] == r2[f as int].0[g as int]
    } by {}
    assert forall|q: usize| #[trigger] owners(r2, word, obs, q) == owners(r, word, obs, q) by {
        lemma_same_slots(r, r2, obs, q);
    }
    assert forall|k: int| 0 <= k < obs.len() && (#[trigger] obs[k]).1 is Some implies {
        let (f, g) = obs[k].1->0;
        &&& is_handle(obs[k].0)
        &&& f < r2.len()
        &&& g < r2[f as int].0.len()
        &&& r2[f as int].1
        &&& r2[f as int].0[g as int] == obs[k].0 || r2[f as int].0[g as int] == TRANSFERRED
    } by {
        let (f, g) = obs[k].1->0;
        if f == e {
            assert(r[e as int].0[g as int] == EMPTY);
        }
    }
}

/// A handle whose duty has a single holder is finalized once: the release that finalizes it
/// leaves nobody holding its duty, and only a holder of the duty is ever told to finalize.
pub proof fn lemma_finalized_once(
    r: Seq<EntryView>,
    word: usize,
    obs: Seq<Observation>,
    k: int,
    r2: Seq<EntryView>,
    finalize: bool,
)
    requires
        consistent(r, obs),
        0 <= k < obs.len(),
        released(r, obs[k], r2, finalize),
        owners(r, word, obs, obs[k].0) <= 1,
    ensures
        finalize ==> owners(r, word, obs, obs[k].0) == 1,
        finalize ==> owners(r2, word, obs.remove(k), obs[k].0) == 0,
{
    lemma_release_single_owner(r, word, obs, k, r2, finalize);
    lemma_remove(r, obs, k, obs[k].0);
}

/// While a reader's hazard slot still protects its handle, no other observation of that
/// handle is told to finalize it: the reader dereferences live memory.
pub proof fn lemma_protected_handle_survives(
    r: Seq<EntryView>,
    obs: Seq<Observation>,
    k: int,
    j: int,
    r2: Seq<EntryView>,
    finalize: bool,
)
    requires
        consistent(r, obs),
        0 <= k < obs.len(),
        0 <= j < obs.len(),
        j != k,
        obs[j].0 == obs[k].0,
        slot_protects(r, obs[j]),
        released(r, obs[k], r2, finalize),
    ensures
        !finalize,
{
    let (e, i) = obs[j].1->0;
    assert(obs[j].1 != obs[k].1);
    if finalize {
        let base = match obs[k].1 {
            Some((f, g)) => with_slot(r, f as int, g as int, EMPTY),
            None => r,
        };
        assert(base[e as int].0[i as int] == obs[j].0);
        assert(base[e as int].1);
    }
}

/// Where the observations of `obs` other than `k` stand once `k` is taken out.
proof fn lemma_remove_index(obs: Seq<Observation>, k: int, j: int)
    requires
        0 <= k < obs.len(),
        0 <= j < obs.len() - 1,
    ensures
        obs.remove(k)[j] == obs[if j < k {
            j
        } else {
            j + 1
        }],
{
}

/// Ending observation `k` of a consistent state keeps the duty for every handle where it
/// was, except that the caller told to finalize held the duty for the observed handle and
/// gives it up: a handle is finalized only by a party that held its duty, and its duty then
/// leaves the state.
pub proof fn lemma_release_single_owner(
    r: Seq<EntryView>,
    word: usize,
    obs: Seq<Observation>,
    k: int,
    r2: Seq<EntryView>,
    finalize: bool,
)
    requires
        consistent(r, obs),
        0 <= k < obs.len(),
        released(r, obs[k], r2, finalize),
    ensures
        consistent(r2, obs.remove(k)),
        finalize ==> owns(r, obs[k], obs[k].0),
        forall|p: usize|
            #[trigger] owners(r2, word, obs.remove(k), p) == owners(r, word, obs, p) - if finalize
                && p == obs[k].0 {
                1int
            } else {
                0int
            },
{
    let o = obs[k];
    let p0 = o.0;
    let rest = obs.remove(k);
    let base = match o.1 {
        Some((e, i)) => with_slot(r, e as int, i as int, EMPTY),
        None => r,
    };
    // `base` differs from `r` at the slot of `o` alone, which no other observation has.
    assert forall|j: int| 0 <= j < rest.len() && (#[trigger] rest[j]).1 is Some implies {
        let (f, g) = rest[j].1->0;
        r[f as int].0[g as int] == base[f as int].0[g as int]
    } by {
        lemma_remove_index(obs, k, j);
        let jj = if j < k { j } else { j + 1 };
        assert(obs[jj].1 != obs[k].1);
    }
    assert forall|p: usize| owning_observations(r, obs, p) == owning_observations(base, rest, p)
        + if owns(r, o, p) { 1nat } else { 0nat } by {
        lemma_remove(r, obs, k, p);
        lemma_same_slots(r, base, rest, p);
    }
    let kept = match o.1 {
        Some((e, i)) => r[e as int].0[i as int] == p0,
        None => false,
    };
    if is_handle(p0) && !finalize && !kept {
        // The duty for `p0` moves from `o` to the reader whose slot was marked.
        let (e2, i2) = choose|e2: usize, i2: usize|
            e2 < base.len() && i2 < base[e2 as int].0.len() && base[e2 as int].1 && base[e2 as int].0[i2 as int]
                == p0 && r2 == #[trigger] with_slot(base, e2 as int, i2 as int, TRANSFERRED);
        let same_slot = match o.1 {
            Some((e, i)) => e == e2 && i == i2,
            None => false,
        };
        assert(!same_slot) by {
            if same_slot {
                assert(base[e2 as int].0[i2 as int] == EMPTY);
            }
        }
        assert(r[e2 as int].0[i2 as int] == p0);
        assert(r[e2 as int].1);
        let jo = choose|jo: int| 0 <= jo < obs.len() && #[trigger] obs[jo].1 == Some((e2, i2));
        assert(jo != k);
        assert(obs[jo].0 == p0);
        let j = if jo < k { jo } else { jo - 1 };
        lemma_remove_index(obs, k, j);
        assert(rest[j] == obs[jo]);
        let others = rest.remove(j);
        assert forall|m: int| 0 <= m < others.len() && (#[trigger] others[m]).1 is Some implies {
            let (f, g) = others[m].1->0;
            base[f as int].0[g as int] == r2[f as int].0[g as int]
        } by {
            lemma_remove_index(rest, j, m);
            let mm = if m < j { m } else { m + 1 };
            lemma_remove_index(obs, k, mm);
            let oo = if mm < k { mm } else { mm + 1 };
            assert(obs[oo].1 != obs[jo].1);
        }
        assert forall|p: usize| owning_observations(r2, rest, p) == owning_observations(base, rest, p)
            + if p == p0 { 1nat } else { 0nat } by {
            lemma_remove(r2, rest, j, p);
            lemma_remove(base, rest, j, p);
            lemma_same_slots(base, r2, others, p);
        }
        assert forall|p: usize| #[trigger] owners(r2, word, rest, p) == owners(r, word, obs, p) - if finalize
            && p == p0 { 1int } else { 0int } by {}
        lemma_release_consistent(r, obs, k, base, r2, true, e2 as int, i2 as int);
    } else {
        assert(r2 == base);
        assert forall|p: usize| #[trigger] owners(r2, word, rest, p) == owners(r, word, obs, p) - if finalize
            && p == p0 { 1int } else { 0int } by {}
        lemma_release_consistent(r, obs, k, base, r2, false, 0, 0);
    }
}

/// Ending observation `k` keeps the state consistent: its slot is cleared, and at most one
/// slot, of another observation, turns from that observation's handle to `TRANSFERRED`.
proof fn lemma_release_consistent(
    r: Seq<EntryView>,
    obs: Seq<Observation>,
    k: int,
    base: Seq<EntryView>,
    r2: Seq<EntryView>,
    marked: bool,
    e2: int,
    i2: int,
)
    requires
        consistent(r, obs),
        0 <= k < obs.len(),
        base == match obs[k].1 {
            Some((e, i)) => with_slot(r, e as int, i as int, EMPTY),
            None => r,
        },
        marked ==> {
            &&& 0 <= e2 < base.len()
            &&& 0 <= i2 < base[e2].0.len()
            &&& base[e2].1
            &&& base[e2].0[i2] == obs[k].0
            &&& is_handle(obs[k].0)
            &&& r2 == with_slot(base, e2, i2, TRANSFERRED)
        },
        !marked ==> r2 == base,
    ensures
        consistent(r2, obs.remove(k)),
{
    let rest = obs.remove(k);
    assert(r2.len() == r.len());
    assert forall|f: int| 0 <= f < r.len() implies r2[f].1 == r[f].1 && r2[f].0.len() == r[f].0.len() by {}
    assert forall|j: int| 0 <= j < rest.len() && (#[trigger] rest[j]).1 is Some implies {
        let (f, g) = rest[j].1->0;
        &&& is_handle(rest[j].0)
        &&& f < r2.len()
        &&& g < r2[f as int].0.len()
        &&& r2[f as int].1
        &&& r2[f as int].0[g as int] == rest[j].0 || r2[f as int].0[g as int] == TRANSFERRED
    } by {
        lemma_remove_index(obs, k, j);
        let jj = if j < k { j } else { j + 1 };
        assert(obs[jj].1 != obs[k].1);
    }
    assert forall|j: int, m: int|
        0 <= j < rest.len() && 0 <= m < rest.len() && j != m && (#[trigger] rest[j]).1 is Some
            implies rest[j].1 != (#[trigger] rest[m]).1 by {
        lemma_remove_index(obs, k, j);
        lemma_remove_index(obs, k, m);
    }
    assert forall|f: usize, g: usize|
        f < r2.len() && g < r2[f as int].0.len() && r2[f as int].1 && #[trigger] r2[f as int].0[g as int]
            != EMPTY implies exists|j: int| 0 <= j < rest.len() && #[trigger] rest[j].1 == Some((f, g)) by {
        let own_slot = match obs[k].1 {
            Some((e, i)) => e == f && i == g,
            None => false,
        };
        let is_marked = marked && f as int == e2 && g as int == i2;
        assert(!own_slot) by {
            if own_slot {
                assert(base[f as int].0[g as int] == EMPTY);
                assert(!is_marked);
            }
        }
        assert(r[f as int].0[g as int] != EMPTY) by {
            if is_marked {
                assert(base[f as int].0[g as int] == obs[k].0);
            }
        }
        assert(r[f as int].1);
        let jo = choose|jo: int| 0 <= jo < obs.len() && #[trigger] obs[jo].1 == Some((f, g));
        assert(jo != k);
        let j = if jo < k { jo } else { jo - 1 };
        lemma_remove_index(obs, k, j);
        assert(rest[j] == obs[jo]);
    }
}

/// A state of the protocol: the registry, the slot's word, and the live observations.
pub type Config = (Seq<EntryView>, usize, Seq<Observation>);

/// The number of parties that hold the duty to finalize `p` in state `c`.
pub open spec fn duty(c: Config, p: usize) -> nat {
    owners(c.0, c.1, c.2, p)
}

/// One step of the protocol.
pub enum ProtocolStep {
    /// A writer stores the fresh handle `new` in the slot and keeps the evicted one.
    Replace { new: usize },
    /// A reader publishes `handle` in empty slot `slot` of its claimed entry `entry`.
    Publish { handle: usize, entry: usize, slot: usize },
    /// Observation `index` ends.
    Release { index: usize },
    /// Entry `entry` gets a new block of empty slots.
    Extend { entry: usize },
    /// Entry `entry`, all of whose slots are empty, is given back.
    Unregister { entry: usize },
}

/// Step `s` leads from `c` to `c2`, and `fin` is the handle it tells its caller to finalize,
/// if any.
pub open spec fn step(c: Config, s: ProtocolStep, c2: Config, fin: Option<usize>) -> bool {
    let (r, word, obs) = c;
    match s {
        ProtocolStep::Replace { new } => {
            &&& is_handle(new) ==> duty(c, new) == 0
            &&& c2 == (r, new, obs.push((word, None)))
            &&& fin is None
        },
        ProtocolStep::Publish { handle, entry, slot } => {
            &&& is_handle(handle)
            &&& entry < r.len()
            &&& slot < r[entry as int].0.len()
            &&& r[entry as int].1
            &&& r[entry as int].0[slot as int] == EMPTY
            &&& c2 == (
                with_slot(r, entry as int, slot as int, handle),
                word,
                obs.push((handle, Some((entry, slot)))),
            )
            &&& fin is None
        },
        ProtocolStep::Release { index } => {
            &&& index < obs.len()
            &&& released(r, obs[index as int], c2.0, fin is Some)
            &&& fin is Some ==> fin->0 == obs[index as int].0
            &&& c2.1 == word
            &&& c2.2 == obs.remove(index as int)
        },
        ProtocolStep::Extend { entry } => {
            &&& entry < r.len()
            &&& c2 == (r.update(entry as int, (r[entry as int].0 + empty_block(), r[entry as int].1)), word, obs)
            &&& fin is None
        },
        ProtocolStep::Unregister { entry } => {
            &&& entry < r.len()
            &&& forall|i: int| 0 <= i < r[entry as int].0.len() ==> #[trigger] r[entry as int].0[i] == EMPTY
            &&& c2 == (r.update(entry as int, (r[entry as int].0, false)), word, obs)
            &&& fin is None
        },
    }
}

/// Whether step `s` brings in the handle `p`.
pub open spec fn introduces(s: ProtocolStep, p: usize) -> bool {
    is_handle(p) && s == (ProtocolStep::Replace { new: p })
}

/// A run: `steps[j]` leads from `states[j]` to `states[j + 1]` and tells its caller to
/// finalize `fins[j]`.
pub open spec fn is_run(states: Seq<Config>, steps: Seq<ProtocolStep>, fins: Seq<Option<usize>>) -> bool {
    &&& states.len() == steps.len() + 1
    &&& fins.len() == steps.len()
    &&& forall|j: int| 0 <= j < steps.len() ==> #[trigger] step(states[j], steps[j], states[j + 1], fins[j])
}

/// How many steps of a run told their caller to finalize `p`.
pub open spec fn finalizations(fins: Seq<Option<usize>>, p: usize) -> nat
    decreases fins.len(),
{
    if fins.len() == 0 {
        0
    } else {
        finalizations(fins.drop_last(), p) + if fins.last() == Some(p) {
            1nat
        } else {
            0nat
        }
    }
}

/// How many steps of a run brought in `p`.
pub open spec fn introductions(steps: Seq<ProtocolStep>, p: usize) -> nat
    decreases steps.len(),
{
    if steps.len() == 0 {
        0
    } else {
        introductions(steps.drop_last(), p) + if introduces(steps.last(), p) {
            1nat
        } else {
            0nat
        }
    }
}

/// One step keeps the state consistent, and the duty for each handle is conserved: what it
/// brings in is added, what it tells its caller to finalize is taken away.
pub proof fn lemma_step_accounts(c: Config, s: ProtocolStep, c2: Config, fin: Option<usize>)
    requires
        consistent(c.0, c.2),
        step(c, s, c2, fin),
    ensures
        consistent(c2.0, c2.2),
        forall|p: usize|
            #[trigger] duty(c2, p) + (if fin == Some(p) { 1int } else { 0int }) == duty(c, p) + (
            if introduces(s, p) {
                1int
            } else {
                0int
            }),
{
    let (r, word, obs) = c;
    match s {
        ProtocolStep::Replace { new } => {
            lemma_replace_moves_duty(r, word, obs, new);
        },
        ProtocolStep::Publish { handle, entry, slot } => {
            lemma_publish_keeps_duties(r, word, obs, handle, entry, slot);
        },
        ProtocolStep::Release { index } => {
            lemma_release_single_owner(r, word, obs, index as int, c2.0, fin is Some);
        },
        ProtocolStep::Extend { entry } => {
            lemma_extend_keeps_duties(r, word, obs, entry);
        },
        ProtocolStep::Unregister { entry } => {
            lemma_unregister_keeps_duties(r, word, obs, entry);
        },
    }
}

/// Over a whole run from a consistent state, the duty for each handle is conserved: the
/// parties holding it at the start, plus the times it was brought in, equal the times a
/// caller was told to finalize it plus the parties holding it at the end. A handle that
/// nobody held at the start and that was brought in once is therefore finalized at most
/// once, and exactly once when nobody holds it at the end.
pub proof fn lemma_run_finalizes_once(
    states: Seq<Config>,
    steps: Seq<ProtocolStep>,
    fins: Seq<Option<usize>>,
)
    requires
        is_run(states, steps, fins),
        consistent(states[0].0, states[0].2),
    ensures
        consistent(states.last().0, states.last().2),
        forall|p: usize|
            #[trigger] finalizations(fins, p) + duty(states.last(), p) == duty(states[0], p)
                + introductions(steps, p),
    decreases steps.len(),
{
    let n = steps.len();
    if n == 0 {
        assert forall|p: usize| #[trigger] finalizations(fins, p) + duty(states.last(), p) == duty(states[0], p)
            + introductions(steps, p) by {}
    } else {
        let states0 = states.drop_last();
        let steps0 = steps.drop_last();
        let fins0 = fins.drop_last();
        assert forall|j: int| 0 <= j < steps0.len() implies #[trigger] step(states0[j], steps0[j], states0[j + 1], fins0[j]) by {
            assert(step(states[j], steps[j], states[j + 1], fins[j]));
        }
        lemma_run_finalizes_once(states0, steps0, fins0);
        let last = n - 1;
        assert(step(states[last], steps[last], states[last + 1], fins[last]));
        assert(states0.last() == states[last]);
        lemma_step_accounts(states[last], steps[last], states[last + 1], fins[last]);
        assert forall|p: usize| #[trigger] finalizations(fins, p) + duty(states.last(), p) == duty(states[0], p)
            + introductions(steps, p) by {
            assert(finalizations(fins0, p) + duty(states0.last(), p) == duty(states0[0], p) + introductions(steps0, p));
            assert(duty(states[last + 1], p) + (if fins[last] == Some(p) { 1int } else { 0int }) == duty(states[last], p) + (
                if introduces(steps[last], p) { 1int } else { 0int }));
        }
    }
}

/// A handle that nobody held at the start of a run and that the run brought in once is
/// finalized at most once; exactly once when, at the end, no slot and no observation holds it.
pub proof fn lemma_evicted_handle_finalized_once(
    states: Seq<Config>,
    steps: Seq<ProtocolStep>,
    fins: Seq<Option<usize>>,
    p: usize,
)
    requires
        is_run(states, steps, fins),
        consistent(states[0].0, states[0].2),
        duty(states[0], p) == 0,
        introductions(steps, p) == 1,
    ensures
        finalizations(fins, p) <= 1,
        duty(states.last(), p) == 0 ==> finalizations(fins, p) == 1,
{
    lemma_run_finalizes_once(states, steps, fins);
    assert(finalizations(fins, p) + duty(states.last(), p) == duty(states[0], p) + introductions(steps, p));
}

} // verus!
