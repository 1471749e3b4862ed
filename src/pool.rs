//! The slot table: which worker a request reuses, which dead workers are
//! pruned, which idle worker makes room, and when a borrowed worker returns.
use vstd::prelude::*;

use crate::fingerprint::{FingerprintView, NailgunProcessFingerprint};

verus! {

/// A started worker as the pool knows it. `id` is the pool's name for the
/// worker's OS process, which the caller keeps.
#[derive(Clone, Debug)]
pub struct NailgunProcess {
    pub name: String,
    pub workdir: String,
    pub port: u16,
    pub id: u64,
}

pub struct ProcessView {
    pub name: Seq<char>,
    pub workdir: Seq<char>,
    pub port: u16,
    pub id: u64,
}

impl View for NailgunProcess {
    type V = ProcessView;

    open spec fn view(&self) -> ProcessView {
        ProcessView { name: self.name@, workdir: self.workdir@, port: self.port, id: self.id }
    }
}

impl NailgunProcess {
    fn duplicate(&self) -> (r: Self)
        ensures
            r@ == self@,
    {
        NailgunProcess {
            name: self.name.clone(),
            workdir: self.workdir.clone(),
            port: self.port,
            id: self.id,
        }
    }
}

/// One slot of the pool: the worker, the fingerprint it was started for, when
/// it was last inspected for reuse, and whether a borrow holds it.
struct PoolEntry {
    fingerprint: NailgunProcessFingerprint,
    last_used: u64,
    in_use: bool,
    process: NailgunProcess,
}

pub struct EntryView {
    pub fingerprint: FingerprintView,
    pub last_used: u64,
    pub in_use: bool,
    pub process: ProcessView,
}

impl View for PoolEntry {
    type V = EntryView;

    closed spec fn view(&self) -> EntryView {
        EntryView {
            fingerprint: self.fingerprint@,
            last_used: self.last_used,
            in_use: self.in_use,
            process: self.process@,
        }
    }
}

/// A bounded table of workers, each held by at most one borrow at a time.
///
/// Timestamps are ticks of a monotonic clock, supplied by the caller.
pub struct NailgunPool {
    workdir_base: String,
    size: usize,
    processes: Vec<PoolEntry>,
    next_id: u64,
}

pub struct PoolView {
    pub workdir_base: Seq<char>,
    pub size: nat,
    pub entries: Seq<EntryView>,
    /// The identifier that the next started worker gets.
    pub next_id: u64,
}

impl View for NailgunPool {
    type V = PoolView;

    closed spec fn view(&self) -> PoolView {
        PoolView {
            workdir_base: self.workdir_base@,
            size: self.size as nat,
            entries: self.processes@.map_values(|e: PoolEntry| e@),
            next_id: self.next_id,
        }
    }
}

/// No two slots hold the same worker.
pub open spec fn distinct_workers(s: Seq<EntryView>) -> bool {
    forall|i: int, j: int|
        0 <= i < s.len() && 0 <= j < s.len() && i != j ==> s[i].process.id != s[j].process.id
}

/// No more slots than the capacity, and every worker identifier issued once.
pub open spec fn pool_wf(p: PoolView) -> bool {
    &&& p.entries.len() <= p.size
    &&& forall|i: int| 0 <= i < p.entries.len() ==> p.entries[i].process.id < p.next_id
    &&& distinct_workers(p.entries)
}

/// A slot that a request for `fp` inspects: matching and idle.
pub open spec fn inspected(e: EntryView, fp: FingerprintView) -> bool {
    e.fingerprint == fp && !e.in_use
}

/// A slot that a request for `fp` can reuse: matching, idle, and alive.
pub open spec fn usable(e: EntryView, fp: FingerprintView, alive: bool) -> bool {
    inspected(e, fp) && alive
}

pub open spec fn has_usable(s: Seq<EntryView>, fp: FingerprintView, alive: Seq<bool>) -> bool {
    exists|k: int| 0 <= k < s.len() && usable(s[k], fp, alive[k])
}

pub open spec fn is_first_usable(
    s: Seq<EntryView>,
    fp: FingerprintView,
    alive: Seq<bool>,
    k: int,
) -> bool {
    &&& 0 <= k < s.len()
    &&& usable(s[k], fp, alive[k])
    &&& forall|j: int| 0 <= j < k ==> !usable(s[j], fp, alive[j])
}

/// The table after slot `k` is taken for `fp` at `now`: every inspected slot
/// up to `k` is stamped, and `k` is marked in use.
pub open spec fn taken(s: Seq<EntryView>, fp: FingerprintView, k: int, now: u64) -> Seq<EntryView> {
    Seq::new(
        s.len(),
        |j: int|
            if j == k {
                EntryView { last_used: now, in_use: true, ..s[j] }
            } else if j < k && inspected(s[j], fp) {
                EntryView { last_used: now, ..s[j] }
            } else {
                s[j]
            },
    )
}

/// The table after the slots at indices `k` and above that a request for
/// `fp` inspects are swap-removed, highest index first.
pub open spec fn swept(s: Seq<EntryView>, fp: FingerprintView, k: int) -> Seq<EntryView>
    decreases s.len() - k,
{
    if k >= s.len() {
        s
    } else if inspected(s[k], fp) {
        swap_removed(swept(s, fp, k + 1), k)
    } else {
        swept(s, fp, k + 1)
    }
}

/// The workers of the slots that `swept` removes, in the order of removal.
pub open spec fn swept_ids(s: Seq<EntryView>, fp: FingerprintView, k: int) -> Seq<u64>
    decreases s.len() - k,
{
    if k >= s.len() {
        Seq::empty()
    } else if inspected(s[k], fp) {
        swept_ids(s, fp, k + 1).push(s[k].process.id)
    } else {
        swept_ids(s, fp, k + 1)
    }
}

/// The table after every slot that a request for `fp` inspects is
/// swap-removed, highest index first.
pub open spec fn pruned(s: Seq<EntryView>, fp: FingerprintView) -> Seq<EntryView> {
    swept(s, fp, 0)
}

/// The workers of the slots that `pruned` removes, highest index first.
pub open spec fn pruned_ids(s: Seq<EntryView>, fp: FingerprintView) -> Seq<u64> {
    swept_ids(s, fp, 0)
}

/// Sweeping from `k` leaves the slots below `k` in place, and puts at or
/// above `k` only slots from there that are not inspected.
pub proof fn lemma_swept_shape(s: Seq<EntryView>, fp: FingerprintView, k: int)
    requires
        0 <= k <= s.len(),
    ensures
        swept(s, fp, k).len() >= k,
        forall|a: int| 0 <= a < k ==> #[trigger] swept(s, fp, k)[a] == s[a],
        forall|a: int|
            k <= a < swept(s, fp, k).len() ==> exists|j: int|
                k <= j < s.len() && !inspected(s[j], fp) && #[trigger] swept(s, fp, k)[a] == s[j],
    decreases s.len() - k,
{
    if k < s.len() {
        lemma_swept_shape(s, fp, k + 1);
        let t = swept(s, fp, k + 1);
        let u = swept(s, fp, k);
        if inspected(s[k], fp) {
            assert forall|a: int| k <= a < u.len() implies exists|j: int|
                k <= j < s.len() && !inspected(s[j], fp) && #[trigger] u[a] == s[j] by {
                if a == k {
                    assert(u[a] == t[t.len() - 1]);
                    assert(t.len() - 1 >= k + 1);
                } else {
                    assert(u[a] == t[a]);
                }
            }
        } else {
            assert(u[k] == s[k]);
        }
    }
}

/// Sweeping does not look at the stamps of the slots it removes.
proof fn lemma_swept_ignores_stamps(s: Seq<EntryView>, t: Seq<EntryView>, fp: FingerprintView, k: int)
    requires
        0 <= k <= s.len(),
        s.len() == t.len(),
        forall|j: int|
            0 <= j < s.len() ==> if inspected(s[j], fp) {
                inspected(t[j], fp) && t[j].process.id == s[j].process.id
            } else {
                t[j] == s[j]
            },
    ensures
        swept(t, fp, k).len() == swept(s, fp, k).len(),
        forall|a: int| k <= a < swept(s, fp, k).len() ==> swept(t, fp, k)[a] == swept(s, fp, k)[a],
        swept_ids(t, fp, k) == swept_ids(s, fp, k),
    decreases s.len() - k,
{
    lemma_swept_shape(s, fp, k);
    lemma_swept_shape(t, fp, k);
    if k < s.len() {
        lemma_swept_ignores_stamps(s, t, fp, k + 1);
        lemma_swept_shape(s, fp, k + 1);
        lemma_swept_shape(t, fp, k + 1);
        if !inspected(s[k], fp) {
            assert(swept(s, fp, k + 1)[k] == s[k]);
            assert(swept(t, fp, k + 1)[k] == t[k]);
        }
    }
}

pub open spec fn has_idle(s: Seq<EntryView>) -> bool {
    exists|j: int| 0 <= j < s.len() && !s[j].in_use
}

/// Slot `v` is the least recently used idle slot, the first of them on ties.
pub open spec fn is_lru_idle(s: Seq<EntryView>, v: int) -> bool {
    &&& 0 <= v < s.len()
    &&& !s[v].in_use
    &&& forall|j: int| 0 <= j < s.len() && !s[j].in_use ==> s[v].last_used <= s[j].last_used
    &&& forall|j: int| 0 <= j < v && !s[j].in_use ==> s[v].last_used < s[j].last_used
}

/// The table after slot `v` is swap-removed.
pub open spec fn swap_removed(s: Seq<EntryView>, v: int) -> Seq<EntryView> {
    s.update(v, s.last()).drop_last()
}

/// The table after the slot of worker `id`, if any, becomes idle.
pub open spec fn freed(s: Seq<EntryView>, id: u64) -> Seq<EntryView> {
    Seq::new(
        s.len(),
        |j: int|
            if s[j].process.id == id {
                EntryView { in_use: false, ..s[j] }
            } else {
                s[j]
            },
    )
}

enum TryUse {
    Usable,
    Busy,
    Dead,
}

impl NailgunPool {
    pub closed spec fn wf(&self) -> bool {
        &&& pool_wf(self@)
        &&& self.processes@.len() == self@.entries.len()
    }

    /// A well-formed pool's view is well-formed.
    pub proof fn reveal_wf(&self)
        requires
            self.wf(),
        ensures
            pool_wf(self@),
    {
    }

    /// An empty pool of at most `size` workers, whose working directories are
    /// made under `workdir_base`.
    pub fn new(workdir_base: String, size: usize) -> (r: Self)
        ensures
            r.wf(),
            r@ == (PoolView { workdir_base: workdir_base@, size: size as nat, entries: seq![], next_id: 0 }),
    {
        let r = NailgunPool { workdir_base, size, processes: Vec::new(), next_id: 0 };
        assert(r@.entries =~= seq![]);
        r
    }

    pub fn size(&self) -> (r: usize)
        ensures
            r == self@.size,
    {
        self.size
    }

    /// The number of slots.
    pub fn len(&self) -> (r: usize)
        requires
            self.wf(),
        ensures
            r == self@.entries.len(),
    {
        self.processes.len()
    }

    /// For each slot in order, whether a request for `fingerprint` inspects
    /// it (matching and idle): only those slots' workers need to be polled.
    pub fn inspected_slots(&self, fingerprint: &NailgunProcessFingerprint) -> (r: Vec<bool>)
        requires
            self.wf(),
        ensures
            r@.len() == self@.entries.len(),
            forall|i: int| 0 <= i < r@.len() ==> r@[i] == inspected(self@.entries[i], fingerprint@),
    {
        let mut r: Vec<bool> = Vec::new();
        let mut i: usize = 0;
        while i < self.processes.len()
            invariant
                self.wf(),
                i <= self@.entries.len(),
                r@.len() == i,
                forall|j: int| 0 <= j < i ==> r@[j] == inspected(self@.entries[j], fingerprint@),
            decreases self@.entries.len() - i,
        {
            proof {
                assert(self@.entries[i as int] == self.processes@[i as int]@);
            }
            let same = self.processes[i].fingerprint.matches(fingerprint);
            r.push(same && !self.processes[i].in_use);
            i = i + 1;
        }
        r
    }

    /// Whether `insert_started` can record one more worker.
    pub fn has_room(&self) -> (r: bool)
        requires
            self.wf(),
        ensures
            r == (self@.entries.len() < self@.size && self@.next_id < u64::MAX),
    {
        self.processes.len() < self.size && self.next_id < u64::MAX
    }

    pub fn workdir_base(&self) -> (r: &str)
        ensures
            r@ == self@.workdir_base,
    {
        self.workdir_base.as_str()
    }

    /// The worker of each slot, in slot order.
    pub fn worker_ids(&self) -> (r: Vec<u64>)
        requires
            self.wf(),
        ensures
            r@.len() == self@.entries.len(),
            forall|i: int| 0 <= i < r@.len() ==> r@[i] == self@.entries[i].process.id,
    {
        let mut r: Vec<u64> = Vec::new();
        let mut i: usize = 0;
        while i < self.processes.len()
            invariant
                self.wf(),
                i <= self@.entries.len(),
                r@.len() == i,
                forall|j: int| 0 <= j < i ==> r@[j] == self@.entries[j].process.id,
            decreases self@.entries.len() - i,
        {
            r.push(self.processes[i].process.id);
            i = i + 1;
        }
        r
    }
}


impl NailgunPool {
    /// Inspects slot `i` for reuse: a held slot is busy; an idle one is
    /// stamped with `now`, then taken if its worker is alive, or found dead.
    fn try_use(&mut self, i: usize, alive: bool, now: u64) -> (r: TryUse)
        requires
            old(self).wf(),
            i < old(self)@.entries.len(),
        ensures
            final(self).wf(),
            final(self)@.size == old(self)@.size,
            final(self)@.workdir_base == old(self)@.workdir_base,
            final(self)@.next_id == old(self)@.next_id,
            old(self)@.entries[i as int].in_use ==> r is Busy && final(self)@.entries == old(self)@.entries,
            !old(self)@.entries[i as int].in_use && alive ==> r is Usable
                && final(self)@.entries == old(self)@.entries.update(
                i as int,
                EntryView { last_used: now, in_use: true, ..old(self)@.entries[i as int] },
            ),
            !old(self)@.entries[i as int].in_use && !alive ==> r is Dead
                && final(self)@.entries == old(self)@.entries.update(
                i as int,
                EntryView { last_used: now, ..old(self)@.entries[i as int] },
            ),
    {
        if self.processes[i].in_use {
            return TryUse::Busy;
        }
        self.processes[i].last_used = now;
        let r = if alive {
            self.processes[i].in_use = true;
            TryUse::Usable
        } else {
            TryUse::Dead
        };
        proof {
            let e = old(self)@.entries[i as int];
            if alive {
                assert(self@.entries =~= old(self)@.entries.update(
                    i as int,
                    EntryView { last_used: now, in_use: true, ..e },
                ));
            } else {
                assert(self@.entries =~= old(self)@.entries.update(
                    i as int,
                    EntryView { last_used: now, ..e },
                ));
            }
        }
        r
    }

    /// Swap-removes every slot that a request for `fingerprint` inspects
    /// (matching and idle), highest index first, and appends their workers to
    /// `dropped` in that order.
    fn prune_inspected(&mut self, fingerprint: &NailgunProcessFingerprint, dropped: &mut Vec<u64>)
        requires
            old(self).wf(),
        ensures
            final(self).wf(),
            final(self)@.size == old(self)@.size,
            final(self)@.workdir_base == old(self)@.workdir_base,
            final(self)@.next_id == old(self)@.next_id,
            final(self)@.entries == pruned(old(self)@.entries, fingerprint@),
            final(dropped)@ == old(dropped)@ + pruned_ids(old(self)@.entries, fingerprint@),
    {
        let ghost s0 = self@.entries;
        let ghost d0 = dropped@;
        let ghost fp: FingerprintView = fingerprint@;
        let mut i: usize = self.processes.len();
        proof {
            lemma_swept_shape(s0, fp, i as int);
        }
        while i > 0
            invariant
                self.wf(),
                fp == fingerprint@,
                s0 == old(self)@.entries,
                i <= s0.len(),
                self@.size == old(self)@.size,
                self@.workdir_base == old(self)@.workdir_base,
                self@.next_id == old(self)@.next_id,
                self@.entries == swept(s0, fp, i as int),
                dropped@ == d0 + swept_ids(s0, fp, i as int),
            decreases i,
        {
            i = i - 1;
            let ghost before = self@.entries;
            proof {
                lemma_swept_shape(s0, fp, i + 1);
                assert(before[i as int] == s0[i as int]);
                assert(before[i as int] == self.processes@[i as int]@);
            }
            let same = self.processes[i].fingerprint.matches(fingerprint);
            let idle = !self.processes[i].in_use;
            proof {
                assert(same == (before[i as int].fingerprint == fp));
                assert(idle == !before[i as int].in_use);
            }
            if same && idle {
                let e = self.processes.swap_remove(i);
                dropped.push(e.process.id);
                proof {
                    assert(e@ == before[i as int]);
                    assert(self@.entries =~= swap_removed(before, i as int));
                    assert(dropped@ =~= d0 + swept_ids(s0, fp, i as int));
                    assert(pool_wf(self@)) by {
                        assert forall|a: int| 0 <= a < self@.entries.len() implies
                            #[trigger] self@.entries[a] == before[if a == i { before.len() - 1 } else { a }] by {}
                    }
                }
            }
        }
    }
}


impl NailgunPool {
    /// Walks the slots in order and takes the first one that matches
    /// `fingerprint`, is idle, and whose worker is alive (`alive[i]` for slot
    /// `i`), stamping every matching idle slot inspected on the way. Where none
    /// is found, the matching idle slots (all dead) are swap-removed,
    /// highest index first, and their workers appended to `dropped`.
    fn find_usable(
        &mut self,
        fingerprint: &NailgunProcessFingerprint,
        alive: &Vec<bool>,
        now: u64,
        dropped: &mut Vec<u64>,
    ) -> (r: Option<usize>)
        requires
            old(self).wf(),
            alive@.len() == old(self)@.entries.len(),
        ensures
            final(self).wf(),
            final(self)@.size == old(self)@.size,
            final(self)@.workdir_base == old(self)@.workdir_base,
            final(self)@.next_id == old(self)@.next_id,
            match r {
                Some(k) => {
                    &&& is_first_usable(old(self)@.entries, fingerprint@, alive@, k as int)
                    &&& final(self)@.entries == taken(old(self)@.entries, fingerprint@, k as int, now)
                    &&& final(dropped)@ == old(dropped)@
                },
                None => {
                    &&& !has_usable(old(self)@.entries, fingerprint@, alive@)
                    &&& final(self)@.entries == pruned(old(self)@.entries, fingerprint@)
                    &&& final(dropped)@ == old(dropped)@ + pruned_ids(old(self)@.entries, fingerprint@)
                },
            },
    {
        let ghost s0 = self@.entries;
        let ghost fp: FingerprintView = fingerprint@;
        let n = self.processes.len();
        let mut i: usize = 0;
        while i < n
            invariant
                self.wf(),
                fp == fingerprint@,
                s0 == old(self)@.entries,
                n == s0.len(),
                alive@.len() == n,
                self@.entries.len() == n,
                i <= n,
                self@.size == old(self)@.size,
                self@.workdir_base == old(self)@.workdir_base,
                self@.next_id == old(self)@.next_id,
                dropped@ == old(dropped)@,
                forall|j: int| 0 <= j < i ==> !usable(s0[j], fp, alive@[j]),
                forall|j: int|
                    0 <= j < n ==> self@.entries[j] == if j < i && inspected(s0[j], fp) {
                        EntryView { last_used: now, ..s0[j] }
                    } else {
                        s0[j]
                    },
            decreases n - i,
        {
            let ghost before = self@.entries;
            proof {
                assert(before[i as int] == self.processes@[i as int]@);
            }
            if self.processes[i].fingerprint.matches(fingerprint) {
                match self.try_use(i, alive[i], now) {
                    TryUse::Usable => {
                        proof {
                            assert(self@.entries =~= taken(s0, fp, i as int, now));
                        }
                        return Some(i);
                    },
                    TryUse::Busy => {},
                    TryUse::Dead => {},
                }
            }
            i = i + 1;
        }
        let ghost s1 = self@.entries;
        proof {
            lemma_swept_ignores_stamps(s0, s1, fp, 0);
            lemma_swept_shape(s0, fp, 0);
            lemma_swept_shape(s1, fp, 0);
            assert(pruned(s1, fp) =~= pruned(s0, fp));
        }
        self.prune_inspected(fingerprint, dropped);
        None
    }

    /// The least recently used idle slot, the first of them on ties.
    fn find_lru_idle(&self) -> (r: Option<usize>)
        requires
            self.wf(),
        ensures
            r is None ==> !has_idle(self@.entries),
            r is Some ==> is_lru_idle(self@.entries, r->Some_0 as int),
    {
        let ghost s = self@.entries;
        let n = self.processes.len();
        let mut lru: Option<usize> = None;
        let mut i: usize = 0;
        while i < n
            invariant
                self.wf(),
                s == self@.entries,
                n == s.len(),
                i <= n,
                lru is None ==> forall|j: int| 0 <= j < i ==> s[j].in_use,
                lru is Some ==> {
                    let v = lru->Some_0 as int;
                    &&& v < i
                    &&& !s[v].in_use
                    &&& forall|j: int| 0 <= j < i && !s[j].in_use ==> s[v].last_used <= s[j].last_used
                    &&& forall|j: int| 0 <= j < v && !s[j].in_use ==> s[v].last_used < s[j].last_used
                },
            decreases n - i,
        {
            proof {
                assert(s[i as int] == self.processes@[i as int]@);
            }
            if !self.processes[i].in_use {
                match lru {
                    None => {
                        lru = Some(i);
                    },
                    Some(v) => {
                        proof {
                            assert(s[v as int] == self.processes@[v as int]@);
                        }
                        if self.processes[i].last_used < self.processes[v].last_used {
                            lru = Some(i);
                        }
                    },
                }
            }
            i = i + 1;
        }
        lru
    }
}


/// A scoped, exclusive loan of a worker. It ends with `release`, which
/// returns the worker to the pool, or with `abandon`, after which the caller
/// kills the worker.
pub struct BorrowedNailgunProcess {
    process: Option<NailgunProcess>,
}

impl View for BorrowedNailgunProcess {
    /// The worker held, or `None` once the loan has ended.
    type V = Option<ProcessView>;

    closed spec fn view(&self) -> Option<ProcessView> {
        match self.process {
            Some(p) => Some(p@),
            None => None,
        }
    }
}

/// The IPv4 loopback address and a port.
#[derive(Clone, Copy, Debug)]
pub struct LocalAddress {
    pub ip: [u8; 4],
    pub port: u16,
}

/// What a request for a worker comes to.
pub enum Step {
    /// A running worker was taken; here is its loan.
    Reuse(BorrowedNailgunProcess),
    /// A new worker is to be started and handed to `insert_started`.
    Spawn,
    /// The pool is full and every worker is in use.
    NoIdleSlots,
}

/// The outcome of `acquire`: the step to take, and the workers whose slots
/// were removed, which the caller kills and reaps.
pub struct Plan {
    pub step: Step,
    pub dropped: Vec<u64>,
}

pub enum StepView {
    Reuse(Option<ProcessView>),
    Spawn,
    NoIdleSlots,
}

pub struct PlanView {
    pub step: StepView,
    pub dropped: Seq<u64>,
}

impl View for Plan {
    type V = PlanView;

    open spec fn view(&self) -> PlanView {
        PlanView {
            step: match self.step {
                Step::Reuse(b) => StepView::Reuse(b@),
                Step::Spawn => StepView::Spawn,
                Step::NoIdleSlots => StepView::NoIdleSlots,
            },
            dropped: self.dropped@,
        }
    }
}

/// What a request for `fp` does to the slots `s` of a pool of `size` slots at
/// `now`, given which workers are alive, leaving the slots `t` and the plan
/// `plan`: reuse the first usable slot; else prune the matching idle slots,
/// then, if the pool is still full, evict the least recently used idle slot
/// to make room; if there is none, report that.
pub open spec fn acquire_outcome(
    s: Seq<EntryView>,
    size: nat,
    fp: FingerprintView,
    alive: Seq<bool>,
    now: u64,
    t: Seq<EntryView>,
    plan: PlanView,
) -> bool {
    if has_usable(s, fp, alive) {
        exists|k: int|
            #![trigger is_first_usable(s, fp, alive, k)]
            is_first_usable(s, fp, alive, k) && t == taken(s, fp, k, now) && plan == (PlanView {
                step: StepView::Reuse(Some(s[k].process)),
                dropped: Seq::empty(),
            })
    } else {
        let p = pruned(s, fp);
        let d = pruned_ids(s, fp);
        if p.len() < size {
            t == p && plan == (PlanView { step: StepView::Spawn, dropped: d })
        } else if has_idle(p) {
            exists|v: int|
                #![trigger is_lru_idle(p, v)]
                is_lru_idle(p, v) && t == swap_removed(p, v) && plan == (PlanView {
                    step: StepView::Spawn,
                    dropped: d.push(p[v].process.id),
                })
        } else {
            t == p && plan == (PlanView { step: StepView::NoIdleSlots, dropped: d })
        }
    }
}

impl NailgunPool {
    /// Decides how to serve a request for a worker configured as
    /// `fingerprint`, given, for each slot in order, whether its worker is
    /// still alive, and the time `now`. The pool keeps at most `size` slots,
    /// and hands out only slots that no borrow holds.
    pub fn acquire(&mut self, fingerprint: &NailgunProcessFingerprint, alive: &Vec<bool>, now: u64) -> (r: Plan)
        requires
            old(self).wf(),
            alive@.len() == old(self)@.entries.len(),
        ensures
            final(self).wf(),
            final(self)@.size == old(self)@.size,
            final(self)@.workdir_base == old(self)@.workdir_base,
            final(self)@.next_id == old(self)@.next_id,
            acquire_outcome(
                old(self)@.entries,
                old(self)@.size,
                fingerprint@,
                alive@,
                now,
                final(self)@.entries,
                r@,
            ),
    {
        let ghost s = self@.entries;
        let ghost fp: FingerprintView = fingerprint@;
        let mut dropped: Vec<u64> = Vec::new();
        match self.find_usable(fingerprint, alive, now, &mut dropped) {
            Some(k) => {
                proof {
                    assert(self@.entries[k as int] == self.processes@[k as int]@);
                }
                let b = BorrowedNailgunProcess { process: Some(self.processes[k].process.duplicate()) };
                let r = Plan { step: Step::Reuse(b), dropped };
                proof {
                    assert(dropped@ =~= Seq::<u64>::empty());
                    assert(is_first_usable(s, fp, alive@, k as int));
                    assert(has_usable(s, fp, alive@));
                }
                return r;
            },
            None => {},
        }
        proof {
            assert(dropped@ =~= pruned_ids(s, fp));
        }
        if self.processes.len() >= self.size {
            match self.find_lru_idle() {
                None => {
                    return Plan { step: Step::NoIdleSlots, dropped };
                },
                Some(v) => {
                    let ghost p = self@.entries;
                    let e = self.processes.swap_remove(v);
                    proof {
                        assert(e@ == p[v as int]);
                        assert(self@.entries =~= swap_removed(p, v as int));
                        assert(pool_wf(self@)) by {
                            assert forall|a: int| 0 <= a < self@.entries.len() implies
                                #[trigger] self@.entries[a] == p[if a == v { p.len() - 1 } else { a }] by {}
                        }
                    }
                    dropped.push(e.process.id);
                    let r = Plan { step: Step::Spawn, dropped };
                    proof {
                        assert(is_lru_idle(p, v as int));
                    }
                    return r;
                },
            }
        }
        Plan { step: Step::Spawn, dropped }
    }

    /// Records a worker that was started for `fingerprint` as a new slot,
    /// held from the start, and hands out its loan, given the outcome of
    /// clearing its working directory after startup. Where clearing failed,
    /// its error is returned and nothing is recorded.
    pub fn insert_started(
        &mut self,
        fingerprint: NailgunProcessFingerprint,
        name: String,
        workdir: String,
        port: u16,
        cleared: Result<(), String>,
        now: u64,
    ) -> (r: Result<BorrowedNailgunProcess, String>)
        requires
            old(self).wf(),
            old(self)@.entries.len() < old(self)@.size,
            old(self)@.next_id < u64::MAX,
        ensures
            final(self).wf(),
            final(self)@.size == old(self)@.size,
            final(self)@.workdir_base == old(self)@.workdir_base,
            cleared is Err ==> r == Err::<BorrowedNailgunProcess, String>(cleared->Err_0)
                && final(self)@ == old(self)@,
            cleared is Ok ==> r is Ok && final(self)@.next_id == old(self)@.next_id + 1
                && r->Ok_0@ == Some(ProcessView { name: name@, workdir: workdir@, port, id: old(self)@.next_id })
                && final(self)@.entries == old(self)@.entries.push(
                EntryView {
                    fingerprint: fingerprint@,
                    last_used: now,
                    in_use: true,
                    process: r->Ok_0@->Some_0,
                },
            ),
    {
        match cleared {
            Err(e) => Err(e),
            Ok(()) => {
                let id = self.next_id;
                let process = NailgunProcess { name, workdir, port, id };
                let b = BorrowedNailgunProcess { process: Some(process.duplicate()) };
                self.processes.push(PoolEntry { fingerprint, last_used: now, in_use: true, process });
                self.next_id = id + 1;
                proof {
                    assert(self@.entries =~= old(self)@.entries.push(
                        EntryView { fingerprint: fingerprint@, last_used: now, in_use: true, process: b@->Some_0 },
                    ));
                }
                Ok(b)
            },
        }
    }

    /// Makes the slot of worker `id`, if there is one, idle.
    fn free(&mut self, id: u64)
        requires
            old(self).wf(),
        ensures
            final(self).wf(),
            final(self)@.size == old(self)@.size,
            final(self)@.workdir_base == old(self)@.workdir_base,
            final(self)@.next_id == old(self)@.next_id,
            final(self)@.entries == freed(old(self)@.entries, id),
    {
        let ghost s = self@.entries;
        let n = self.processes.len();
        let mut i: usize = 0;
        while i < n
            invariant
                self.wf(),
                s == old(self)@.entries,
                n == s.len(),
                self@.entries.len() == n,
                i <= n,
                self@.size == old(self)@.size,
                self@.workdir_base == old(self)@.workdir_base,
                self@.next_id == old(self)@.next_id,
                forall|j: int|
                    0 <= j < n ==> self@.entries[j] == if j < i && s[j].process.id == id {
                        EntryView { in_use: false, ..s[j] }
                    } else {
                        s[j]
                    },
            decreases n - i,
        {
            proof {
                assert(self@.entries[i as int] == self.processes@[i as int]@);
            }
            let ghost before = self@.entries;
            if self.processes[i].process.id == id {
                self.processes[i].in_use = false;
                proof {
                    assert(self@.entries =~= before.update(
                        i as int,
                        EntryView { in_use: false, ..before[i as int] },
                    ));
                }
            }
            i = i + 1;
        }
        proof {
            assert(self@.entries =~= freed(s, id));
        }
    }
}

impl BorrowedNailgunProcess {
    fn held(&self) -> (r: &NailgunProcess)
        requires
            self@ is Some,
        ensures
            self@ == Some(r@),
    {
        self.process.as_ref().unwrap()
    }

    pub fn name(&self) -> (r: &str)
        requires
            self@ is Some,
        ensures
            r@ == self@->Some_0.name,
    {
        self.held().name.as_str()
    }

    pub fn port(&self) -> (r: u16)
        requires
            self@ is Some,
        ensures
            r == self@->Some_0.port,
    {
        self.held().port
    }

    /// Where the worker listens: the IPv4 loopback address and its port.
    pub fn address(&self) -> (r: LocalAddress)
        requires
            self@ is Some,
        ensures
            r.ip@ == seq![127u8, 0u8, 0u8, 1u8],
            r.port == self@->Some_0.port,
    {
        let r = LocalAddress { ip: [127, 0, 0, 1], port: self.port() };
        assert(r.ip@ =~= seq![127u8, 0u8, 0u8, 1u8]);
        r
    }

    pub fn workdir_path(&self) -> (r: &str)
        requires
            self@ is Some,
        ensures
            r@ == self@->Some_0.workdir,
    {
        self.held().workdir.as_str()
    }

    /// The identifier of the worker held, under which the caller keeps its
    /// OS process.
    pub fn id(&self) -> (r: u64)
        requires
            self@ is Some,
        ensures
            r == self@->Some_0.id,
    {
        self.held().id
    }

    /// Whether the loan is still held.
    pub fn is_held(&self) -> (r: bool)
        ensures
            r == self@ is Some,
    {
        self.process.is_some()
    }

    /// Returns the worker to `pool`, given the outcome of clearing its working
    /// directory. Where clearing failed, its error is returned and the loan is
    /// kept, with the slot still in use.
    pub fn release(&mut self, pool: &mut NailgunPool, cleared: Result<(), String>) -> (r: Result<(), String>)
        requires
            old(self)@ is Some,
            old(pool).wf(),
        ensures
            final(pool).wf(),
            final(pool)@.size == old(pool)@.size,
            final(pool)@.workdir_base == old(pool)@.workdir_base,
            final(pool)@.next_id == old(pool)@.next_id,
            r == cleared,
            cleared is Err ==> final(self)@ == old(self)@ && final(pool)@ == old(pool)@,
            cleared is Ok ==> final(self)@ is None && final(pool)@.entries == freed(
                old(pool)@.entries,
                old(self)@->Some_0.id,
            ),
    {
        if cleared.is_err() {
            return cleared;
        }
        let id = self.id();
        self.process = None;
        pool.free(id);
        cleared
    }

    /// Ends the loan without returning the worker in a known state: its slot
    /// becomes idle, and the worker, returned here, is to be killed, so that
    /// the pool finds it dead and prunes it. Nothing happens to a loan that
    /// has already ended.
    pub fn abandon(&mut self, pool: &mut NailgunPool) -> (r: Option<u64>)
        requires
            old(pool).wf(),
        ensures
            final(pool).wf(),
            final(pool)@.size == old(pool)@.size,
            final(pool)@.workdir_base == old(pool)@.workdir_base,
            final(pool)@.next_id == old(pool)@.next_id,
            final(self)@ is None,
            old(self)@ is None ==> r is None && final(pool)@ == old(pool)@,
            old(self)@ is Some ==> r == Some(old(self)@->Some_0.id) && final(pool)@.entries == freed(
                old(pool)@.entries,
                old(self)@->Some_0.id,
            ),
    {
        match self.process.take() {
            None => None,
            Some(p) => {
                pool.free(p.id);
                Some(p.id)
            },
        }
    }
}

} // verus!
