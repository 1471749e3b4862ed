use nailgun_pool::fingerprint::NailgunProcessFingerprint;
use nailgun_pool::pool::{BorrowedNailgunProcess, NailgunPool, Plan, Step};

fn fp(name: &str, tag: u8) -> NailgunProcessFingerprint {
    NailgunProcessFingerprint::new(name.to_string(), [tag; 32])
}

fn all_alive(pool: &NailgunPool) -> Vec<bool> {
    vec![true; pool.len()]
}

fn spawn(pool: &mut NailgunPool, f: &NailgunProcessFingerprint, port: u16, now: u64) -> BorrowedNailgunProcess {
    let alive = all_alive(pool);
    let plan = pool.acquire(f, &alive, now);
    assert!(matches!(plan.step, Step::Spawn));
    pool.insert_started(f.clone(), f.name.clone(), format!("/work/{}", port), port, Ok(()), now)
        .unwrap()
}

fn reused(plan: Plan) -> BorrowedNailgunProcess {
    match plan.step {
        Step::Reuse(b) => b,
        _ => panic!("expected a reused worker"),
    }
}

#[test]
fn fingerprints_compare_both_fields() {
    assert!(fp("a", 1).matches(&fp("a", 1)));
    assert!(!fp("a", 1).matches(&fp("b", 1)));
    let mut d = [1u8; 32];
    d[31] = 2;
    assert!(!fp("a", 1).matches(&NailgunProcessFingerprint::new("a".to_string(), d)));
}

#[test]
fn warm_reuse() {
    let f1 = fp("F1", 1);
    let mut pool = NailgunPool::new("/work".to_string(), 2);
    let mut w1 = spawn(&mut pool, &f1, 1000, 1);
    let id = w1.id();
    assert_eq!(w1.release(&mut pool, Ok(())), Ok(()));
    let alive = all_alive(&pool);
    let plan = pool.acquire(&f1, &alive, 2);
    assert!(plan.dropped.is_empty());
    let again = reused(plan);
    assert_eq!(again.id(), id);
    assert_eq!(again.port(), 1000);
    assert_eq!(again.name(), "F1");
    assert_eq!(again.workdir_path(), "/work/1000");
    assert_eq!(pool.len(), 1);
}

#[test]
fn eviction() {
    let f1 = fp("F1", 1);
    let f2 = fp("F2", 2);
    let mut pool = NailgunPool::new("/work".to_string(), 1);
    let mut w1 = spawn(&mut pool, &f1, 1000, 1);
    let first = w1.id();
    let first_addr = w1.address();
    w1.release(&mut pool, Ok(())).unwrap();
    let alive = all_alive(&pool);
    let plan = pool.acquire(&f2, &alive, 2);
    assert!(matches!(plan.step, Step::Spawn));
    assert_eq!(plan.dropped, vec![first]);
    assert_eq!(pool.len(), 0);
    let w2 = pool
        .insert_started(f2.clone(), "F2".to_string(), "/work/2000".to_string(), 2000, Ok(()), 3)
        .unwrap();
    assert_ne!(w2.id(), first);
    assert_eq!(w2.address().ip, [127, 0, 0, 1]);
    assert_ne!(w2.address().port, first_addr.port);
    assert_eq!(pool.len(), 1);
}

#[test]
fn concurrent_reuse_and_spawn() {
    let f1 = fp("F1", 1);
    let mut pool = NailgunPool::new("/work".to_string(), 2);
    let mut w1 = spawn(&mut pool, &f1, 1000, 1);
    let id = w1.id();
    w1.release(&mut pool, Ok(())).unwrap();
    let alive = all_alive(&pool);
    let second = reused(pool.acquire(&f1, &alive, 2));
    assert_eq!(second.id(), id);
    assert_eq!(pool.len(), 1);
}

#[test]
fn busy_worker_is_not_shared() {
    let f1 = fp("F1", 1);
    let mut pool = NailgunPool::new("/work".to_string(), 2);
    let w1 = spawn(&mut pool, &f1, 1000, 1);
    let alive = all_alive(&pool);
    let plan = pool.acquire(&f1, &alive, 2);
    assert!(matches!(plan.step, Step::Spawn));
    assert!(plan.dropped.is_empty());
    let w2 = pool
        .insert_started(f1.clone(), "F1".to_string(), "/work/1001".to_string(), 1001, Ok(()), 2)
        .unwrap();
    assert_ne!(w1.id(), w2.id());
    assert_eq!(pool.len(), 2);
}

#[test]
fn startup_failure_leaves_pool_size() {
    let f1 = fp("F1", 1);
    let f2 = fp("F2", 2);
    let mut pool = NailgunPool::new("/work".to_string(), 2);
    let _w1 = spawn(&mut pool, &f1, 1000, 1);
    let alive = all_alive(&pool);
    let plan = pool.acquire(&f2, &alive, 2);
    assert!(matches!(plan.step, Step::Spawn));
    // The start failed: nothing is recorded.
    assert_eq!(pool.len(), 1);
}

#[test]
fn cancellation_kills_child() {
    let f1 = fp("F1", 1);
    let mut pool = NailgunPool::new("/work".to_string(), 2);
    let mut w1 = spawn(&mut pool, &f1, 1000, 1);
    let id = w1.id();
    assert_eq!(w1.abandon(&mut pool), Some(id));
    assert!(!w1.is_held());
    assert_eq!(w1.abandon(&mut pool), None);
    let plan = pool.acquire(&f1, &vec![false], 2);
    assert!(matches!(plan.step, Step::Spawn));
    assert_eq!(plan.dropped, vec![id]);
    assert_eq!(pool.len(), 0);
    let w2 = pool
        .insert_started(f1.clone(), "F1".to_string(), "/work/1001".to_string(), 1001, Ok(()), 3)
        .unwrap();
    assert_ne!(w2.id(), id);
}

#[test]
fn dead_workers_pruned_only_on_miss() {
    let f1 = fp("F1", 1);
    let mut pool = NailgunPool::new("/work".to_string(), 3);
    let mut a = spawn(&mut pool, &f1, 1, 1);
    let mut b = spawn(&mut pool, &f1, 2, 2);
    let (ida, idb) = (a.id(), b.id());
    a.release(&mut pool, Ok(())).unwrap();
    b.release(&mut pool, Ok(())).unwrap();
    // The first is dead, the second alive: the second is reused and the dead one stays.
    let c = reused(pool.acquire(&f1, &vec![false, true], 3));
    assert_eq!(c.id(), idb);
    assert_eq!(pool.len(), 2);
    assert_eq!(pool.worker_ids(), vec![ida, idb]);
}

#[test]
fn lru_eviction_picks_oldest_idle() {
    let f1 = fp("F1", 1);
    let f2 = fp("F2", 2);
    let f3 = fp("F3", 3);
    let mut pool = NailgunPool::new("/work".to_string(), 2);
    let mut a = spawn(&mut pool, &f1, 1, 5);
    let mut b = spawn(&mut pool, &f2, 2, 1);
    let (ida, idb) = (a.id(), b.id());
    a.release(&mut pool, Ok(())).unwrap();
    b.release(&mut pool, Ok(())).unwrap();
    let plan = pool.acquire(&f3, &vec![true, true], 10);
    assert!(matches!(plan.step, Step::Spawn));
    assert_eq!(plan.dropped, vec![idb]);
    assert_eq!(pool.worker_ids(), vec![ida]);
}

#[test]
fn lru_eviction_skips_busy() {
    let f1 = fp("F1", 1);
    let f2 = fp("F2", 2);
    let f3 = fp("F3", 3);
    let mut pool = NailgunPool::new("/work".to_string(), 2);
    let mut a = spawn(&mut pool, &f1, 1, 5);
    let _b = spawn(&mut pool, &f2, 2, 1);
    let ida = a.id();
    a.release(&mut pool, Ok(())).unwrap();
    let plan = pool.acquire(&f3, &vec![true, true], 10);
    assert_eq!(plan.dropped, vec![ida]);
}

#[test]
fn no_idle_slots() {
    let f1 = fp("F1", 1);
    let f2 = fp("F2", 2);
    let mut pool = NailgunPool::new("/work".to_string(), 1);
    let _w1 = spawn(&mut pool, &f1, 1000, 1);
    let plan = pool.acquire(&f2, &vec![true], 2);
    assert!(matches!(plan.step, Step::NoIdleSlots));
    assert!(plan.dropped.is_empty());
    assert_eq!(pool.len(), 1);
}

#[test]
fn zero_capacity_has_no_idle_slots() {
    let mut pool = NailgunPool::new("/work".to_string(), 0);
    let plan = pool.acquire(&fp("F1", 1), &vec![], 0);
    assert!(matches!(plan.step, Step::NoIdleSlots));
    assert_eq!(pool.size(), 0);
}

#[test]
fn failed_clear_keeps_loan() {
    let f1 = fp("F1", 1);
    let mut pool = NailgunPool::new("/work".to_string(), 1);
    let mut w1 = spawn(&mut pool, &f1, 1000, 1);
    let err = "Failed to move x to garbage".to_string();
    assert_eq!(w1.release(&mut pool, Err(err.clone())), Err(err));
    assert!(w1.is_held());
    // Still in use: a second request finds no idle slot.
    let plan = pool.acquire(&f1, &vec![true], 2);
    assert!(matches!(plan.step, Step::NoIdleSlots));
    assert_eq!(w1.release(&mut pool, Ok(())), Ok(()));
    assert!(!w1.is_held());
    assert!(matches!(pool.acquire(&f1, &vec![true], 3).step, Step::Reuse(_)));
}

#[test]
fn failed_startup_clear_records_nothing() {
    let f1 = fp("F1", 1);
    let mut pool = NailgunPool::new("/work".to_string(), 1);
    let plan = pool.acquire(&f1, &vec![], 1);
    assert!(matches!(plan.step, Step::Spawn));
    let err = "Failed to read nailgun process directory".to_string();
    let r = pool.insert_started(f1.clone(), "F1".to_string(), "/work/1".to_string(), 1, Err(err.clone()), 2);
    assert!(matches!(r, Err(e) if e == err));
    assert_eq!(pool.len(), 0);
    let w = pool.insert_started(f1.clone(), "F1".to_string(), "/work/1".to_string(), 1, Ok(()), 3).unwrap();
    assert_eq!(w.id(), 0);
    assert_eq!(pool.len(), 1);
}

#[test]
fn dead_matches_are_swap_removed_from_the_top() {
    let f = fp("F", 1);
    let mut pool = NailgunPool::new("/work".to_string(), 3);
    let mut a = spawn(&mut pool, &f, 1, 1);
    let mut b = spawn(&mut pool, &fp("G", 2), 2, 2);
    let mut c = spawn(&mut pool, &fp("H", 3), 3, 3);
    let (ida, idb, idc) = (a.id(), b.id(), c.id());
    a.release(&mut pool, Ok(())).unwrap();
    b.release(&mut pool, Ok(())).unwrap();
    c.release(&mut pool, Ok(())).unwrap();
    let plan = pool.acquire(&f, &vec![false, true, true], 4);
    assert!(matches!(plan.step, Step::Spawn));
    assert_eq!(plan.dropped, vec![ida]);
    assert_eq!(pool.worker_ids(), vec![idc, idb]);
}

#[test]
fn several_dead_matches_removed_highest_first() {
    let f = fp("F", 1);
    let mut pool = NailgunPool::new("/work".to_string(), 4);
    let mut ws = vec![
        spawn(&mut pool, &f, 1, 1),
        spawn(&mut pool, &fp("G", 2), 2, 2),
        spawn(&mut pool, &f, 3, 3),
        spawn(&mut pool, &fp("H", 3), 4, 4),
    ];
    let ids: Vec<u64> = ws.iter().map(|w| w.id()).collect();
    for w in ws.iter_mut() {
        w.release(&mut pool, Ok(())).unwrap();
    }
    let plan = pool.acquire(&f, &vec![false, true, false, true], 5);
    assert!(matches!(plan.step, Step::Spawn));
    assert_eq!(plan.dropped, vec![ids[2], ids[0]]);
    assert_eq!(pool.worker_ids(), vec![ids[3], ids[1]]);
}

#[test]
fn inspected_slots_are_matching_and_idle() {
    let f = fp("F", 1);
    let mut pool = NailgunPool::new("/work".to_string(), 3);
    let mut a = spawn(&mut pool, &f, 1, 1);
    let _b = spawn(&mut pool, &f, 2, 2);
    let _c = spawn(&mut pool, &fp("G", 2), 3, 3);
    a.release(&mut pool, Ok(())).unwrap();
    assert_eq!(pool.inspected_slots(&f), vec![true, false, false]);
}
