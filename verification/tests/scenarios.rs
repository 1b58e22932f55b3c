//! End-to-end scenarios: a synthetic directory tree is fed through the
//! verified engine — controller, multiplexer, forwarder, aggregator — over a
//! real channel, exactly as the display host would drive it.

use std::sync::mpsc::{channel, Sender};

use dirscan::controller::{Phase, Snapshot, TemplateApp};
use dirscan::forward::{Forwarder, TICK_MS};
use dirscan::mux::{Multiplexer, BATCH_BOUND};
use dirscan::state::Message;

fn named(s: &str) -> String {
    s.to_string()
}

/// Run the whole worker side synchronously: multiplex the children's file
/// sizes in fair bounded slices, forward one batch per tick, then signal
/// completion. Every message queues in the channel for the polls to drain.
fn run_worker(tx: &Sender<Message>, children: &[(String, Vec<u64>)]) {
    let keys: Vec<String> = children.iter().map(|c| c.0.clone()).collect();
    let mut mux = Multiplexer::new(keys);
    let mut fwd = Forwarder::new();
    let mut cursors = vec![0usize; children.len()];
    loop {
        let plan = mux.plan_pass();
        if plan.is_empty() {
            break;
        }
        for &i in plan.iter() {
            let files = &children[i].1;
            let mut count = 0usize;
            let mut bytes = 0u64;
            while count < BATCH_BOUND && cursors[i] < files.len() {
                bytes += files[cursors[i]];
                cursors[i] += 1;
                count += 1;
            }
            if let Some((key, sum)) = mux.record_batch(i, count, bytes) {
                fwd.push_delta(key, sum);
            }
        }
        if let Some(batch) = fwd.tick(TICK_MS) {
            tx.send(Message::Intermediate(batch)).unwrap();
        }
    }
    assert!(mux.all_exhausted());
    tx.send(Message::Done).unwrap();
}

/// Poll until the scan completes, with a generous bound on the number of
/// polls, and hand back the final snapshot.
fn poll_to_done(app: &mut TemplateApp) -> Snapshot {
    for _ in 0..100_000 {
        app.poll();
        let snap = app.snapshot();
        if snap.phase == Phase::Done {
            return snap;
        }
    }
    panic!("scan did not complete");
}

fn scan_tree(children: &[(String, Vec<u64>)]) -> Snapshot {
    let mut app = TemplateApp::default();
    let (tx, rx) = channel();
    let keys: Vec<String> = children.iter().map(|c| c.0.clone()).collect();
    app.start(Ok(keys), rx);
    run_worker(&tx, children);
    poll_to_done(&mut app)
}

#[test]
fn empty_root_completes_with_nothing() {
    let snap = scan_tree(&[]);
    assert_eq!(snap.phase, Phase::Done);
    assert!(snap.entries.is_empty());
    assert_eq!(snap.total, 0);
}

#[test]
fn flat_root_totals_and_fractions() {
    let children = vec![
        (named("a"), vec![100]),
        (named("b"), vec![50]),
        (named("c"), vec![]),
    ];
    let snap = scan_tree(&children);
    assert_eq!(snap.phase, Phase::Done);
    let rows: Vec<(String, u64)> = snap.entries.clone();
    assert_eq!(
        rows,
        vec![(named("a"), 100), (named("b"), 50), (named("c"), 0)]
    );
    assert_eq!(snap.total, 150);
    let fractions: Vec<f64> = rows
        .iter()
        .map(|r| r.1 as f64 / snap.total as f64)
        .collect();
    assert_eq!(fractions[0], 100.0 / 150.0);
    assert_eq!(fractions[1], 50.0 / 150.0);
    assert_eq!(fractions[2], 0.0);
}

#[test]
fn top_n_clamp_keeps_full_total() {
    // Twelve children of sizes 1..=12: ten rows shown, total over all twelve.
    let children: Vec<(String, Vec<u64>)> = (1..=12u64)
        .map(|i| (format!("c{i:02}"), vec![i]))
        .collect();
    let snap = scan_tree(&children);
    assert_eq!(snap.entries.len(), 10);
    let sizes: Vec<u64> = snap.entries.iter().map(|e| e.1).collect();
    assert_eq!(sizes, vec![12, 11, 10, 9, 8, 7, 6, 5, 4, 3]);
    assert_eq!(snap.total, 78);
}

#[test]
fn unreadable_child_is_omitted_silently() {
    // The unreadable child never makes it into the listing; the scan
    // neither reports an error nor shows the child.
    let children = vec![(named("a"), vec![10])];
    let snap = scan_tree(&children);
    assert_eq!(snap.phase, Phase::Done);
    assert_eq!(snap.entries, vec![(named("a"), 10)]);
    assert_eq!(snap.total, 10);
    assert!(snap.message.is_empty());
    assert_eq!(snap.entries[0].1 as f64 / snap.total as f64, 1.0);
}

#[test]
fn failed_root_reports_error() {
    let mut app = TemplateApp::default();
    let (_tx, rx) = channel();
    app.start(Err(named("no such directory: /does/not/exist")), rx);
    app.poll();
    let snap = app.snapshot();
    assert_eq!(snap.phase, Phase::Error);
    assert!(!snap.message.is_empty());
    assert!(snap.entries.is_empty());
    assert_eq!(snap.total, 0);
}

#[test]
fn cancel_mid_scan_goes_idle_and_stays_idle() {
    let children: Vec<(String, Vec<u64>)> =
        (0..5).map(|i| (format!("child{i}"), vec![1u64; 10_000])).collect();
    let mut app = TemplateApp::default();
    let (tx, rx) = channel();
    let keys: Vec<String> = children.iter().map(|c| c.0.clone()).collect();
    app.start(Ok(keys), rx);
    run_worker(&tx, &children);
    // Poll until some aggregate is visible, then cancel.
    loop {
        app.poll();
        let snap = app.snapshot();
        if snap.phase == Phase::Scanning && snap.total > 0 {
            break;
        }
        assert_eq!(snap.phase, Phase::Scanning);
    }
    app.cancel();
    // Messages are still queued, and the worker may still send: none of it
    // is ever applied again.
    tx.send(Message::Intermediate(vec![(named("child0"), 999)])).ok();
    for _ in 0..50 {
        app.poll();
        let snap = app.snapshot();
        assert_eq!(snap.phase, Phase::Idle);
        assert!(snap.entries.is_empty());
        assert_eq!(snap.total, 0);
    }
}

#[test]
fn small_subtree_converges_before_large_one() {
    let children = vec![
        (named("small"), vec![5u64; 10]),
        (named("large"), vec![1u64; 3000]),
    ];
    let mut app = TemplateApp::default();
    let (tx, rx) = channel();
    let keys: Vec<String> = children.iter().map(|c| c.0.clone()).collect();
    app.start(Ok(keys), rx);
    run_worker(&tx, &children);
    // The first delivered batch holds the whole of `small` and a bounded,
    // non-zero slice of `large`: neither starves the other.
    app.poll();
    let snap = app.snapshot();
    assert_eq!(snap.phase, Phase::Scanning);
    let get = |name: &str| -> Option<u64> {
        snap.entries.iter().find(|e| e.0 == name).map(|e| e.1)
    };
    assert_eq!(get("small"), Some(50));
    let large = get("large").unwrap();
    assert!(large > 0 && large < 3000);
    assert_eq!(large, BATCH_BOUND as u64);
    let done = poll_to_done(&mut app);
    assert_eq!(done.entries[0], (named("large"), 3000));
    assert_eq!(done.entries[1], (named("small"), 50));
}

#[test]
fn scanning_snapshot_ranks_partial_results() {
    let mut app = TemplateApp::default();
    let (tx, rx) = channel();
    app.start(Ok(vec![named("a"), named("b")]), rx);
    let snap = app.snapshot();
    assert_eq!(snap.phase, Phase::Scanning);
    assert_eq!(snap.total, 0);
    tx.send(Message::Intermediate(vec![(named("b"), 7)])).unwrap();
    app.poll();
    let snap = app.snapshot();
    assert_eq!(snap.phase, Phase::Scanning);
    assert_eq!(snap.entries[0], (named("b"), 7));
    assert_eq!(snap.total, 7);
}

#[test]
fn tracked_totals_never_shrink_across_polls() {
    let children = vec![
        (named("one"), vec![7u64; 2000]),
        (named("two"), vec![3u64; 1500]),
    ];
    let mut app = TemplateApp::default();
    let (tx, rx) = channel();
    let keys: Vec<String> = children.iter().map(|c| c.0.clone()).collect();
    app.start(Ok(keys), rx);
    run_worker(&tx, &children);
    let mut seen: Vec<(String, u64)> = Vec::new();
    loop {
        app.poll();
        let snap = app.snapshot();
        for (name, bytes) in &snap.entries {
            match seen.iter_mut().find(|e| e.0 == *name) {
                Some(e) => {
                    assert!(*bytes >= e.1);
                    e.1 = *bytes;
                }
                None => seen.push((name.clone(), *bytes)),
            }
        }
        if snap.phase == Phase::Done {
            assert_eq!(snap.total, 7 * 2000 + 3 * 1500);
            break;
        }
    }
}

#[test]
fn restart_after_done_and_after_error() {
    let snap = scan_tree(&[(named("a"), vec![1])]);
    assert_eq!(snap.phase, Phase::Done);
    let mut app = TemplateApp::default();
    let (_tx, rx) = channel();
    app.start(Err(named("bad root")), rx);
    assert_eq!(app.snapshot().phase, Phase::Error);
    let (tx2, rx2) = channel();
    app.start(Ok(vec![named("a")]), rx2);
    assert_eq!(app.snapshot().phase, Phase::Scanning);
    tx2.send(Message::Done).unwrap();
    app.poll();
    assert_eq!(app.snapshot().phase, Phase::Done);
}

#[test]
fn path_is_editable_while_idle() {
    let mut app = TemplateApp::default();
    assert_eq!(app.path(), "C:\\Projects\\rust");
    app.set_path(named("/tmp/data"));
    assert_eq!(app.path(), "/tmp/data");
    assert_eq!(app.snapshot().phase, Phase::Idle);
}
