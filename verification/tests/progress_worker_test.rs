use rusync::progress::ProgressMessage;
use rusync::sync::SyncOutcome;
use rusync::workers::progress_worker::{compute_eta, display_total, ProgressAction, ProgressWorker};

fn walk(num_files: u64, total_size: usize) -> ProgressMessage {
    ProgressMessage::Walk {
        seen: num_files + 1,
        num_files,
        total_size,
        excluded_files: 1,
        excluded_dirs: 0,
        finished: false,
    }
}

fn handle(worker: &mut ProgressWorker, msg: ProgressMessage, at: u64) -> ProgressAction {
    assert!(worker.accepts(&msg, at));
    worker.handle(msg, at)
}

#[test]
fn eta_scales_the_elapsed_time() {
    // Half of the bytes in 10 seconds: 10 more seconds to go.
    assert_eq!(compute_eta(10, 100, 50), 10);
    assert_eq!(compute_eta(10, 100, 100), 0);
    assert_eq!(compute_eta(10, 100, 0), 0);
    assert_eq!(compute_eta(10, 0, 50), 0);
    // More done, less to go:
    assert!(compute_eta(10, 100, 80) <= compute_eta(10, 100, 20));
}

#[test]
fn display_total_is_never_below_the_index() {
    assert_eq!(display_total(3, 5), 5);
    assert_eq!(display_total(7, 5), 7);
}

#[test]
fn walk_snapshots_become_scanning_calls() {
    let mut worker = ProgressWorker::new();
    match handle(&mut worker, walk(4, 40), 0) {
        ProgressAction::Scanning(info) => {
            assert_eq!(info.seen, 5);
            assert_eq!(info.num_files, 4);
            assert_eq!(info.excluded_files, 1);
            assert!(!info.finished);
        }
        _ => panic!("expected a scanning notification"),
    }
    let stats = worker.finish(1500);
    assert_eq!(stats.num_files, 4);
    assert_eq!(stats.total_size, 40);
    assert_eq!(stats.excluded_files, 1);
    assert_eq!(stats.duration_secs, 1);
}

#[test]
fn a_run_counts_files_outcomes_and_errors() {
    let mut worker = ProgressWorker::new();
    handle(&mut worker, walk(2, 3000), 0);
    let start = ProgressMessage::StartSync {
        description: String::from("a.txt"),
        size: 2000,
    };
    match handle(&mut worker, start, 0) {
        ProgressAction::NewFile(p) => {
            assert_eq!(p.current_file, "a.txt");
            assert_eq!(p.index, 1);
            assert_eq!(p.num_files, 2);
            assert_eq!(p.file_done, 0);
            assert_eq!(p.file_size, 2000);
            assert_eq!(p.eta, 0);
        }
        _ => panic!("expected a new file notification"),
    }
    let chunk = |done: usize| ProgressMessage::Syncing {
        description: String::from("a.txt"),
        size: 2000,
        done,
    };
    handle(&mut worker, chunk(1000), 0);
    match handle(&mut worker, chunk(1000), 1000) {
        ProgressAction::Progress(p) => {
            assert_eq!(p.file_done, 2000);
            assert_eq!(p.total_done, 2000);
            assert_eq!(p.elapsed, 1);
            // 2000 bytes within the last two seconds:
            assert_eq!(p.current_speed, 1000);
            // 2000 bytes in one second:
            assert_eq!(p.average_speed, 2000);
            // 2000 of 3000 bytes in one second: half a second to go, rounded down.
            assert_eq!(p.eta, 0);
        }
        _ => panic!("expected a progress notification"),
    }
    assert!(matches!(
        handle(&mut worker, ProgressMessage::DoneSyncing(SyncOutcome::FileCopied), 1000),
        ProgressAction::DoneSyncing
    ));
    let start = ProgressMessage::StartSync {
        description: String::from("b.txt"),
        size: 0,
    };
    match handle(&mut worker, start, 5000) {
        ProgressAction::NewFile(p) => {
            assert_eq!(p.index, 2);
            assert_eq!(p.file_size, 1);
            // Nothing transferred for more than two seconds:
            assert_eq!(p.current_speed, 0);
        }
        _ => panic!("expected a new file notification"),
    }
    let error = ProgressMessage::SyncError {
        entry: String::from("b.txt"),
        details: String::from("permission denied"),
    };
    match handle(&mut worker, error, 5000) {
        ProgressAction::Error { entry, details } => {
            assert_eq!(entry, "b.txt");
            assert_eq!(details, "permission denied");
        }
        _ => panic!("expected an error notification"),
    }
    handle(&mut worker, ProgressMessage::DoneSyncing(SyncOutcome::UpToDate), 5000);
    let stats = worker.finish(6000);
    assert_eq!(stats.num_synced, 2);
    assert_eq!(stats.copied, 1);
    assert_eq!(stats.up_to_date, 1);
    assert_eq!(stats.errors, 1);
    assert_eq!(stats.total_transfered, 2000);
    assert_eq!(
        stats.num_synced,
        stats.up_to_date + stats.copied + stats.symlink_created + stats.symlink_updated
    );
    assert_eq!(stats.duration_secs, 6);
}

#[test]
fn counters_at_their_limit_are_refused() {
    let worker = ProgressWorker::new();
    let huge = ProgressMessage::Syncing {
        description: String::from("a"),
        size: 1,
        done: usize::MAX,
    };
    assert!(worker.accepts(&huge, 0));
    let mut worker = worker;
    worker.handle(huge, 0);
    let more = ProgressMessage::Syncing {
        description: String::from("a"),
        size: 1,
        done: 1,
    };
    assert!(!worker.accepts(&more, 0));
}

#[test]
fn bytes_of_a_failed_file_do_not_carry_over() {
    let mut worker = ProgressWorker::new();
    let start = |name: &str| ProgressMessage::StartSync {
        description: name.to_string(),
        size: 10,
    };
    let chunk = |done: usize| ProgressMessage::Syncing {
        description: String::new(),
        size: 10,
        done,
    };
    handle(&mut worker, start("a"), 0);
    handle(&mut worker, chunk(5), 0);
    let error = ProgressMessage::SyncError {
        entry: String::from("a"),
        details: String::from("disk full"),
    };
    handle(&mut worker, error, 0);
    handle(&mut worker, start("b"), 0);
    match handle(&mut worker, chunk(3), 0) {
        ProgressAction::Progress(p) => {
            assert_eq!(p.current_file, "b");
            assert_eq!(p.file_done, 3);
            assert_eq!(p.total_done, 8);
        }
        _ => panic!("expected a progress notification"),
    }
}
