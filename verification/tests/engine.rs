//! Component-level tests: aggregate merging, ranking, the multiplexer's
//! fair scheduling, and the rate-limited forwarder.

use dirscan::aggregate::{sat_add, Cache};
use dirscan::forward::{Forwarder, TICK_MS};
use dirscan::mux::{Multiplexer, BATCH_BOUND};
use dirscan::rank::{sort_results, TOP_N};

fn named(s: &str) -> String {
    s.to_string()
}

#[test]
fn aggregate_additive_merge() {
    let mut c = Cache::new();
    c.add_delta(&named("a"), 10);
    c.add_delta(&named("b"), 5);
    c.add_delta(&named("a"), 7);
    assert_eq!(c.get(&named("a")), Some(17));
    assert_eq!(c.get(&named("b")), Some(5));
    assert_eq!(c.get(&named("c")), None);
    assert_eq!(c.len(), 2);
    assert_eq!(c.total(), 22);
}

#[test]
fn aggregate_monotone_growth() {
    // P-style check on concrete values: a tracked total never shrinks.
    let mut c = Cache::new();
    c.add_delta(&named("a"), 3);
    let mut last = c.get(&named("a")).unwrap();
    for _ in 0..20 {
        c.add_delta(&named("a"), 1);
        let now = c.get(&named("a")).unwrap();
        assert!(now >= last);
        last = now;
    }
    assert_eq!(last, 23);
}

#[test]
fn aggregate_insert_overwrites() {
    let mut c = Cache::new();
    c.insert(&named("k"), 9);
    c.insert(&named("k"), 2);
    assert_eq!(c.get(&named("k")), Some(2));
    assert_eq!(c.len(), 1);
}

#[test]
fn aggregate_batch_applied_once() {
    let mut c = Cache::from_keys(&vec![named("a"), named("b")]);
    assert_eq!(c.get(&named("a")), Some(0));
    let batch = vec![(named("a"), 4), (named("b"), 6), (named("a"), 1)];
    c.apply_batch(&batch);
    assert_eq!(c.get(&named("a")), Some(5));
    assert_eq!(c.get(&named("b")), Some(6));
    assert_eq!(c.total(), 11);
}

#[test]
fn aggregate_saturates_at_max() {
    assert_eq!(sat_add(u64::MAX - 1, 1), u64::MAX);
    assert_eq!(sat_add(u64::MAX, 7), u64::MAX);
    let mut c = Cache::new();
    c.add_delta(&named("big"), u64::MAX);
    c.add_delta(&named("big"), 5);
    assert_eq!(c.get(&named("big")), Some(u64::MAX));
    c.add_delta(&named("other"), 3);
    assert_eq!(c.total(), u64::MAX);
}

#[test]
fn ranking_sorts_descending_and_clamps() {
    let mut c = Cache::new();
    for i in 1..=12u64 {
        c.add_delta(&format!("c{i:02}"), i);
    }
    let ranked = sort_results(&c);
    assert_eq!(ranked.len(), TOP_N);
    let sizes: Vec<u64> = ranked.iter().map(|e| e.1).collect();
    assert_eq!(sizes, vec![12, 11, 10, 9, 8, 7, 6, 5, 4, 3]);
    assert_eq!(ranked[0].0, "c12");
    // The total row is over all tracked children, not only the ten shown.
    assert_eq!(c.total(), 78);
}

#[test]
fn ranking_keeps_ties_and_short_lists() {
    let mut c = Cache::new();
    c.add_delta(&named("x"), 5);
    c.add_delta(&named("y"), 5);
    c.add_delta(&named("z"), 1);
    let ranked = sort_results(&c);
    assert_eq!(ranked.len(), 3);
    assert_eq!(ranked[0].1, 5);
    assert_eq!(ranked[1].1, 5);
    assert_eq!(ranked[2].1, 1);
    let names: Vec<&str> = ranked.iter().map(|e| e.0.as_str()).collect();
    assert!(names.contains(&"x") && names.contains(&"y") && names.contains(&"z"));
}

#[test]
fn mux_visits_every_active_child_each_pass() {
    let keys = vec![named("a"), named("b"), named("c")];
    let mut mux = Multiplexer::new(keys);
    assert_eq!(mux.plan_pass(), vec![0, 1, 2]);
    // Child b yields an empty batch: exhausted and skipped from then on.
    let d = mux.record_batch(1, 0, 0);
    assert!(d.is_none());
    assert_eq!(mux.plan_pass(), vec![0, 2]);
    assert!(!mux.all_exhausted());
    // A non-empty batch yields the child's delta and keeps it active.
    let d = mux.record_batch(0, 3, 123);
    assert_eq!(d, Some((named("a"), 123)));
    assert_eq!(mux.plan_pass(), vec![0, 2]);
    let _ = mux.record_batch(0, 0, 0);
    let _ = mux.record_batch(2, 0, 0);
    assert!(mux.all_exhausted());
    assert_eq!(mux.plan_pass(), Vec::<usize>::new());
}

#[test]
fn mux_batch_bound_is_an_entry_count() {
    assert!(BATCH_BOUND > 0);
    let mut mux = Multiplexer::new(vec![named("only")]);
    // A full slice keeps the child active; only an empty one exhausts it.
    let d = mux.record_batch(0, BATCH_BOUND, 999);
    assert_eq!(d, Some((named("only"), 999)));
    assert_eq!(mux.plan_pass(), vec![0]);
}

#[test]
fn forwarder_flushes_once_per_elapsed_tick() {
    let mut f = Forwarder::new();
    f.push_delta(named("a"), 10);
    f.push_delta(named("b"), 20);
    // The interval has not elapsed: silent, nothing emitted.
    assert!(f.tick(TICK_MS - 1).is_none());
    // Elapsed: everything accumulated leaves as one batch.
    let batch = f.tick(TICK_MS).unwrap();
    assert_eq!(batch, vec![(named("a"), 10), (named("b"), 20)]);
    // Nothing pending: the tick is silent even after the interval.
    assert!(f.tick(10 * TICK_MS).is_none());
}
