use rusync::filters::Filters;
use rusync::progress::ProgressMessage;
use rusync::workers::walk_worker::{decide, WalkCounts, WalkDecision};

fn parts(path: &str) -> Vec<String> {
    path.split('/').map(|s| s.to_string()).collect()
}

fn filters(include_list: &[&str], exclude_list: &[&str]) -> Filters {
    let i: Vec<String> = include_list.iter().map(|s| s.to_string()).collect();
    let e: Vec<String> = exclude_list.iter().map(|s| s.to_string()).collect();
    Filters::new(&i, &e).expect("valid patterns")
}

#[test]
fn directories_are_descended_unless_pruned() {
    let f = filters(&[r"^docs/"], &[r"(^|/)target$"]);
    assert_eq!(decide(&f, true, &parts("sub")), WalkDecision::Descend);
    assert_eq!(decide(&f, true, &parts("sub/target")), WalkDecision::PruneDir);
    // Include patterns never prevent descent:
    assert_eq!(decide(&f, true, &parts("other")), WalkDecision::Descend);
}

#[test]
fn files_are_synced_when_they_pass() {
    let f = filters(&[r"^docs/"], &[r"\.log$"]);
    assert_eq!(decide(&f, false, &parts("docs/a.txt")), WalkDecision::SyncFile);
    assert_eq!(decide(&f, false, &parts("docs/b.log")), WalkDecision::SkipFile);
    assert_eq!(decide(&f, false, &parts("plain.txt")), WalkDecision::SkipFile);
}

#[test]
fn counts_add_up_and_snapshots_come_every_32_entries() {
    let mut counts = WalkCounts::new();
    let mut snapshots = 0;
    for i in 0..64u64 {
        let decision = match i % 4 {
            0 => WalkDecision::Descend,
            1 => WalkDecision::PruneDir,
            2 => WalkDecision::SyncFile,
            _ => WalkDecision::SkipFile,
        };
        assert!(counts.can_record(decision, 10));
        counts.record(decision, 10);
        if counts.snapshot_due() {
            snapshots += 1;
        }
    }
    assert_eq!(snapshots, 2);
    assert_eq!(counts.seen, 64);
    assert_eq!(counts.num_files, 16);
    assert_eq!(counts.total_size, 160);
    assert_eq!(counts.excluded_dirs, 16);
    assert_eq!(counts.excluded_files, 16);
    assert!(counts.num_files + counts.excluded_files + counts.excluded_dirs <= counts.seen);
    match counts.snapshot(true) {
        ProgressMessage::Walk { seen, num_files, total_size, finished, .. } => {
            assert_eq!(seen, 64);
            assert_eq!(num_files, 16);
            assert_eq!(total_size, 160);
            assert!(finished);
        }
        _ => panic!("expected a walk snapshot"),
    }
}

#[test]
fn a_scan_ends_with_two_snapshots_the_last_one_finished() {
    let mut counts = WalkCounts::new();
    counts.record(WalkDecision::SyncFile, 7);
    let last = counts.final_snapshots();
    assert_eq!(last.len(), 2);
    match (&last[0], &last[1]) {
        (
            ProgressMessage::Walk { seen: s0, num_files: n0, finished: f0, .. },
            ProgressMessage::Walk { seen: s1, num_files: n1, finished: f1, .. },
        ) => {
            assert_eq!((*s0, *n0, *f0), (1, 1, false));
            assert_eq!((*s1, *n1, *f1), (1, 1, true));
        }
        _ => panic!("expected walk snapshots"),
    }
}
