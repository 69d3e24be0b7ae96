use rusync::console_info::{human_seconds, scanning_line, sleep_progress_line, truncate_lossy};
use rusync::progress::WalkInfo;

#[test]
fn test_truncate_string() {
    let new_text = truncate_lossy("ééé", 2);
    assert_eq!(new_text, "é");
}

#[test]
fn scanning_line_without_filters() {
    let info = WalkInfo {
        seen: 12,
        num_files: 10,
        excluded_files: 0,
        excluded_dirs: 0,
        finished: false,
    };
    assert_eq!(scanning_line(&info), "scanning … 12 entries, 10 to sync");
}

#[test]
fn scanning_line_with_filters() {
    let info = WalkInfo {
        seen: 15,
        num_files: 10,
        excluded_files: 2,
        excluded_dirs: 1,
        finished: false,
    };
    assert_eq!(
        scanning_line(&info),
        "scanning … 15 entries, 10 to sync, 3 skipped by filters"
    );
}

#[test]
fn test_human_seconds() {
    assert_eq!("00:00:05", human_seconds(5));
    assert_eq!("00:00:42", human_seconds(42));
    assert_eq!("00:03:05", human_seconds(185));
    assert_eq!("02:04:05", human_seconds(7445));
    assert_eq!("200:00:02", human_seconds(720_002));
}

#[test]
fn sleep_progress_line_at_start() {
    let line = sleep_progress_line(0, 60, "2026-08-20 17:32:00", 10);
    assert_eq!(
        line,
        "waiting [..........]   0% (00:00:00/00:01:00) next sync at 2026-08-20 17:32:00"
    );
}

#[test]
fn sleep_progress_line_half_way() {
    let line = sleep_progress_line(30, 60, "2026-08-20 17:32:00", 10);
    assert_eq!(
        line,
        "waiting [#####.....]  50% (00:00:30/00:01:00) next sync at 2026-08-20 17:32:00"
    );
}

#[test]
fn sleep_progress_line_rounds_the_bar_down() {
    let line = sleep_progress_line(45, 120, "2026-08-20 17:32:00", 4);
    assert_eq!(
        line,
        "waiting [#...]  37% (00:00:45/00:02:00) next sync at 2026-08-20 17:32:00"
    );
}

#[test]
fn sleep_progress_line_complete() {
    let line = sleep_progress_line(60, 60, "2026-08-20 17:32:00", 10);
    assert_eq!(
        line,
        "waiting [##########] 100% (00:01:00/00:01:00) next sync at 2026-08-20 17:32:00"
    );
}

#[test]
fn sleep_progress_line_uses_hours() {
    let line = sleep_progress_line(0, 24 * 3600, "2026-08-21 17:32:00", 10);
    assert_eq!(
        line,
        "waiting [..........]   0% (00:00:00/24:00:00) next sync at 2026-08-21 17:32:00"
    );
}
