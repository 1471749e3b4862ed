//! What holds of every pool and every request, proved from the contracts of
//! `NailgunPool` and `BorrowedNailgunProcess`.
use vstd::prelude::*;

use crate::fingerprint::FingerprintView;
use crate::pool::{
    acquire_outcome, distinct_workers, lemma_swept_shape, swept_ids, freed, has_idle, has_usable, inspected, is_first_usable, is_lru_idle, pool_wf,
    pruned, pruned_ids, swap_removed, taken, usable, EntryView, NailgunPool, PlanView, PoolView,
    StepView,
};

verus! {

/// The worker of every inspected slot at or above `k` is among those that
/// sweeping from `k` removes.
proof fn lemma_swept_ids_has(s: Seq<EntryView>, fp: FingerprintView, k: int, m: int)
    requires
        0 <= k <= m < s.len(),
        inspected(s[m], fp),
    ensures
        swept_ids(s, fp, k).contains(s[m].process.id),
    decreases m - k,
{
    if k == m {
        assert(swept_ids(s, fp, k).last() == s[m].process.id);
    } else {
        lemma_swept_ids_has(s, fp, k + 1, m);
        let d = swept_ids(s, fp, k + 1);
        let i = choose|i: int| 0 <= i < d.len() && d[i] == s[m].process.id;
        assert(swept_ids(s, fp, k)[i] == s[m].process.id);
    }
}

/// A well-formed pool never holds more slots than its capacity,
/// and every operation on it keeps it well-formed.
pub proof fn law_capacity(pool: &NailgunPool)
    requires
        pool.wf(),
    ensures
        pool@.entries.len() <= pool@.size,
        pool_wf(pool@),
{
    pool.reveal_wf();
}

/// A request that reuses a
/// worker takes it from a slot that no loan held, and marks that slot held.
pub proof fn law_reuse_takes_idle(
    s: Seq<EntryView>,
    size: nat,
    fp: FingerprintView,
    alive: Seq<bool>,
    now: u64,
    t: Seq<EntryView>,
    plan: PlanView,
)
    requires
        acquire_outcome(s, size, fp, alive, now, t, plan),
        plan.step is Reuse,
    ensures
        exists|k: int|
            0 <= k < s.len() && !s[k].in_use && t[k].in_use && plan.step == StepView::Reuse(
                Some(s[k].process),
            ),
{
    let k = choose|k: int| is_first_usable(s, fp, alive, k) && t == taken(s, fp, k, now) && plan == (PlanView {
        step: StepView::Reuse(Some(s[k].process)),
        dropped: Seq::empty(),
    });
    assert(t[k].in_use);
}

/// The worker that `insert_started` records
/// gets an identifier that no slot of a well-formed pool holds.
pub proof fn law_started_worker_is_fresh(p: PoolView)
    requires
        pool_wf(p),
    ensures
        forall|i: int| 0 <= i < p.entries.len() ==> p.entries[i].process.id != p.next_id,
{
}

/// Where an idle, alive worker matches the request, the
/// request reuses a worker, starts none and drops none; where that worker is
/// the only such one, it is that worker that comes back.
pub proof fn law_fingerprint_reuse(
    s: Seq<EntryView>,
    size: nat,
    fp: FingerprintView,
    alive: Seq<bool>,
    now: u64,
    t: Seq<EntryView>,
    plan: PlanView,
    k: int,
)
    requires
        acquire_outcome(s, size, fp, alive, now, t, plan),
        alive.len() == s.len(),
        0 <= k < s.len(),
        s[k].fingerprint == fp,
        !s[k].in_use,
        alive[k],
    ensures
        plan.step is Reuse,
        plan.dropped.len() == 0,
        t.len() == s.len(),
        (forall|j: int| 0 <= j < s.len() && j != k ==> !usable(s[j], fp, alive[j])) ==> plan.step
            == StepView::Reuse(Some(s[k].process)),
{
    assert(usable(s[k], fp, alive[k]));
    assert(has_usable(s, fp, alive));
    let k2 = choose|k2: int| is_first_usable(s, fp, alive, k2) && t == taken(s, fp, k2, now) && plan == (PlanView {
        step: StepView::Reuse(Some(s[k2].process)),
        dropped: Seq::empty(),
    });
}

/// A request never hands out the worker of a matching idle
/// slot that has died; where it reuses no worker, that slot is gone and its
/// worker is among those dropped.
pub proof fn law_dead_worker_reaped(
    s: Seq<EntryView>,
    size: nat,
    fp: FingerprintView,
    alive: Seq<bool>,
    now: u64,
    t: Seq<EntryView>,
    plan: PlanView,
    k: int,
)
    requires
        distinct_workers(s),
        acquire_outcome(s, size, fp, alive, now, t, plan),
        alive.len() == s.len(),
        0 <= k < s.len(),
        s[k].fingerprint == fp,
        !s[k].in_use,
        !alive[k],
    ensures
        plan.step != StepView::Reuse(Some(s[k].process)),
        !(plan.step is Reuse) ==> plan.dropped.contains(s[k].process.id),
        !(plan.step is Reuse) ==> forall|j: int| 0 <= j < t.len() ==> t[j].process.id != s[k].process.id,
{
    if has_usable(s, fp, alive) {
        let k2 = choose|k2: int| is_first_usable(s, fp, alive, k2) && t == taken(s, fp, k2, now) && plan == (PlanView {
            step: StepView::Reuse(Some(s[k2].process)),
            dropped: Seq::empty(),
        });
        assert(k2 != k);
        assert(s[k2].process.id != s[k].process.id);
    } else {
        let p = pruned(s, fp);
        let d = pruned_ids(s, fp);
        lemma_swept_shape(s, fp, 0);
        lemma_swept_ids_has(s, fp, 0, k);
        assert(forall|a: int| 0 <= a < p.len() ==> p[a].process.id != s[k].process.id) by {
            assert forall|a: int| 0 <= a < p.len() implies p[a].process.id != s[k].process.id by {
                let j = choose|j: int| 0 <= j < s.len() && !inspected(s[j], fp) && #[trigger] p[a] == s[j];
                assert(j != k);
            }
        }
        if p.len() < size {
        } else if has_idle(p) {
            let v = choose|v: int| is_lru_idle(p, v) && t == swap_removed(p, v) && plan == (PlanView {
                step: StepView::Spawn,
                dropped: d.push(p[v].process.id),
            });
            let i = choose|i: int| 0 <= i < d.len() && d[i] == s[k].process.id;
            assert(plan.dropped[i] == s[k].process.id);
            assert forall|j: int| 0 <= j < t.len() implies t[j].process.id != s[k].process.id by {
                if j == v {
                    assert(t[j] == p[p.len() - 1]);
                } else {
                    assert(t[j] == p[j]);
                }
            }
        }
    }
}

/// Where a full pool has no usable match, the slot evicted to
/// make room is an idle one whose last use is no later than that of any other
/// idle slot, and the first such.
pub proof fn law_lru_eviction(
    s: Seq<EntryView>,
    size: nat,
    fp: FingerprintView,
    alive: Seq<bool>,
    now: u64,
    t: Seq<EntryView>,
    plan: PlanView,
)
    requires
        acquire_outcome(s, size, fp, alive, now, t, plan),
        !has_usable(s, fp, alive),
        pruned(s, fp).len() >= size,
        has_idle(pruned(s, fp)),
    ensures
        plan.step is Spawn,
        exists|v: int|
            #![trigger pruned(s, fp)[v]]
            0 <= v < pruned(s, fp).len() && !pruned(s, fp)[v].in_use && plan.dropped == pruned_ids(s, fp).push(
                pruned(s, fp)[v].process.id,
            ) && t == swap_removed(pruned(s, fp), v) && (forall|j: int|
                0 <= j < pruned(s, fp).len() && !pruned(s, fp)[j].in_use ==> pruned(s, fp)[v].last_used
                    <= pruned(s, fp)[j].last_used),
{
    let p = pruned(s, fp);
    let v = choose|v: int| is_lru_idle(p, v) && t == swap_removed(p, v) && plan == (PlanView {
        step: StepView::Spawn,
        dropped: pruned_ids(s, fp).push(p[v].process.id),
    });
    assert(p[v] == pruned(s, fp)[v]);
}

/// Releasing a loan makes its worker's slot idle and changes no
/// other slot.
pub proof fn law_release_frees(s: Seq<EntryView>, id: u64)
    ensures
        freed(s, id).len() == s.len(),
        forall|j: int| 0 <= j < s.len() && s[j].process.id == id ==> !freed(s, id)[j].in_use,
        forall|j: int| 0 <= j < s.len() && s[j].process.id != id ==> freed(s, id)[j] == s[j],
{
}

} // verus!
