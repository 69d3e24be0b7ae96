use rusync::console_info::{
    padded_scanning_line, progress_line, summary, truncate_lossy, ConsoleState, RenderClock,
    ScreenAction,
};
use rusync::progress::{Progress, WalkInfo};
use rusync::sync::Stats;

fn stats() -> Stats {
    Stats {
        num_files: 4,
        total_size: 40000,
        excluded_files: 0,
        excluded_dirs: 0,
        num_synced: 4,
        up_to_date: 1,
        copied: 2,
        symlink_created: 1,
        symlink_updated: 0,
        errors: 0,
        total_transfered: 40000,
        duration_secs: 2,
    }
}

#[test]
fn summary_reports_counts_size_and_speed() {
    let lines = summary(&stats());
    assert_eq!(lines.synced, " Synced 4 files (1 up to date)");
    assert_eq!(
        lines.details,
        "2 files copied, 1 symlinks created, 0 symlinks updated"
    );
    assert!(lines.skipped.is_none());
    // Sizes and durations are written by humansize and humantime:
    assert_eq!(lines.transfer, "40 KB copied in 2s (avg 20 KB/s)");
    assert!(lines.errors.is_none());
}

#[test]
fn summary_mentions_filters_and_errors_when_there_are_any() {
    let mut s = stats();
    s.excluded_files = 3;
    s.excluded_dirs = 1;
    s.errors = 2;
    s.duration_secs = 0;
    let lines = summary(&s);
    assert_eq!(
        lines.skipped.as_deref(),
        Some("3 files skipped by filters (1 directories pruned)")
    );
    assert_eq!(lines.errors.as_deref(), Some("2 errors occurred"));
    // A run shorter than a second counts as one second:
    assert_eq!(lines.transfer, "40 KB copied in 0s (avg 40 KB/s)");
}

fn progress(current_file: &str) -> Progress {
    Progress {
        current_file: current_file.to_string(),
        file_done: 500,
        file_size: 1000,
        total_done: 1070000000,
        total_size: 2000000000,
        index: 13,
        num_files: 24,
        eta: 5,
        current_speed: 1180000000,
        average_speed: 1160000000,
        elapsed: 83,
    }
}

#[test]
fn progress_line_shows_speeds_elapsed_and_eta() {
    let line = progress_line(&progress("Downloads/archlinux.iso"), 110);
    assert_eq!(line.chars().count(), 109);
    assert!(line.starts_with(" 50% 13/24 Downloads/archlinux.iso "));
    assert!(line.ends_with(
        " 1.07 GB 1.18 GB/s avg 1.16 GB/s elapsed 00:01:23 eta 00:00:05"
    ));
}

#[test]
fn progress_line_cuts_long_names_and_gives_up_on_narrow_terminals() {
    let line = progress_line(&progress("a-very-long-file-name.txt"), 80);
    assert_eq!(line.chars().count(), 79);
    assert!(line.starts_with(" 50% 13/24 a-very 1.07 GB"));
    let narrow = progress_line(&progress("name.txt"), 10);
    assert!(narrow.starts_with(" 50% 13/24  1.07 GB"));
}

#[test]
fn scanning_line_is_padded_to_the_terminal() {
    let info = WalkInfo {
        seen: 1,
        num_files: 1,
        excluded_files: 0,
        excluded_dirs: 0,
        finished: false,
    };
    let line = padded_scanning_line(&info, 40);
    assert_eq!(line.chars().count(), 40);
    assert!(line.starts_with("scanning … 1 entries, 1 to sync "));
}

#[test]
fn a_cut_character_becomes_a_replacement_character() {
    assert_eq!(truncate_lossy("éé", 3), "é\u{FFFD}");
    assert_eq!(truncate_lossy("abc", 0), "");
    assert_eq!(truncate_lossy("abc", 10), "abc");
}

#[test]
fn rendering_is_throttled_to_ten_lines_a_second() {
    let mut clock = RenderClock::new();
    assert!(clock.should_render(5));
    assert!(!clock.should_render(50));
    assert!(clock.should_render(105));
    assert_eq!(clock.last_render_ms, Some(105));
}

fn walk_info(finished: bool) -> WalkInfo {
    WalkInfo {
        seen: 3,
        num_files: 2,
        excluded_files: 1,
        excluded_dirs: 0,
        finished,
    }
}

#[test]
fn scanning_lines_are_throttled_then_erased_once_finished() {
    let mut state = ConsoleState::new();
    match state.scanning(&walk_info(false), 0, 60) {
        ScreenAction::Draw(line) => {
            assert_eq!(line.chars().count(), 60);
            assert!(line.starts_with("scanning … 3 entries, 2 to sync, 1 skipped by filters"));
        }
        _ => panic!("the first scanning line is drawn"),
    }
    assert!(matches!(state.scanning(&walk_info(false), 50, 50), ScreenAction::Nothing));
    assert!(matches!(state.scanning(&walk_info(true), 60, 50), ScreenAction::EraseLine));
    // Nothing left to erase:
    assert!(matches!(state.scanning(&walk_info(true), 70, 50), ScreenAction::Nothing));
}

#[test]
fn progress_lines_are_throttled_and_erased_when_a_file_is_done() {
    let mut state = ConsoleState::new();
    assert!(matches!(state.erase_line_if_dirty(), ScreenAction::Nothing));
    match state.progress(&progress("x.txt"), 0, 110) {
        ScreenAction::Draw(line) => assert!(line.starts_with(" 50% 13/24 x.txt ")),
        _ => panic!("the first progress line is drawn"),
    }
    assert!(matches!(state.progress(&progress("x.txt"), 99, 110), ScreenAction::Nothing));
    assert!(matches!(state.progress(&progress("x.txt"), 100, 110), ScreenAction::Draw(_)));
    assert!(matches!(state.erase_line_if_dirty(), ScreenAction::EraseLine));
    assert!(!state.line_dirty);
}
