//! The progress worker: turns the messages of the other workers into
//! statistics and notifications for a `ProgressInfo`.
//!
//! The worker is a state machine: each message, with the time at which it is
//! handled, gives the next state and one notification. The loop that receives
//! the messages runs around it and hands each notification to the
//! `ProgressInfo` (see `ProgressAction` for the calls each one stands for),
//! then the final statistics to its `end`.
use crate::progress::{Progress, ProgressMessage, WalkInfo};
use crate::sync::{stats_with_outcome, Stats, SyncOutcome};
use vstd::prelude::*;

verus! {

/// The length of the window over which the current speed is measured, in
/// milliseconds.
pub const SPEED_WINDOW_MS: u64 = 2000;

/// A message, in terms of plain values.
pub enum MessageView {
    DoneSyncing(SyncOutcome),
    StartSync { description: Seq<char>, size: usize },
    Walk {
        seen: u64,
        num_files: u64,
        total_size: usize,
        excluded_files: u64,
        excluded_dirs: u64,
        finished: bool,
    },
    Syncing { size: usize, done: usize },
    SyncError { entry: Seq<char>, details: Seq<char> },
}

impl View for ProgressMessage {
    type V = MessageView;

    open spec fn view(&self) -> MessageView {
        match self {
            ProgressMessage::DoneSyncing(o) => MessageView::DoneSyncing(*o),
            ProgressMessage::StartSync { description, size } => MessageView::StartSync {
                description: description@,
                size: *size,
            },
            ProgressMessage::Walk {
                seen,
                num_files,
                total_size,
                excluded_files,
                excluded_dirs,
                finished,
            } => MessageView::Walk {
                seen: *seen,
                num_files: *num_files,
                total_size: *total_size,
                excluded_files: *excluded_files,
                excluded_dirs: *excluded_dirs,
                finished: *finished,
            },
            ProgressMessage::Syncing { size, done, .. } => MessageView::Syncing {
                size: *size,
                done: *done,
            },
            ProgressMessage::SyncError { entry, details } => MessageView::SyncError {
                entry: entry@,
                details: details@,
            },
        }
    }
}

/// A `Progress`, in terms of plain values.
pub struct ProgressView {
    pub current_file: Seq<char>,
    pub file_done: usize,
    pub file_size: usize,
    pub total_done: usize,
    pub total_size: usize,
    pub index: usize,
    pub num_files: usize,
    pub eta: usize,
    pub current_speed: usize,
    pub average_speed: usize,
    pub elapsed: usize,
}

impl View for Progress {
    type V = ProgressView;

    open spec fn view(&self) -> ProgressView {
        ProgressView {
            current_file: self.current_file@,
            file_done: self.file_done,
            file_size: self.file_size,
            total_done: self.total_done,
            total_size: self.total_size,
            index: self.index,
            num_files: self.num_files,
            eta: self.eta,
            current_speed: self.current_speed,
            average_speed: self.average_speed,
            elapsed: self.elapsed,
        }
    }
}

/// What the worker tells its `ProgressInfo` after a message: each variant
/// stands for the calls named on it, in that order.
pub enum ProgressAction {
    /// `scanning` with this snapshot.
    Scanning(WalkInfo),
    /// `new_file` with the name of the file, then `progress`.
    NewFile(Progress),
    /// `done_syncing`.
    DoneSyncing,
    /// `error` with the entry and the details.
    Error { entry: String, details: String },
    /// `progress`.
    Progress(Progress),
}

/// A notification, in terms of plain values.
pub enum ActionView {
    Scanning(WalkInfo),
    NewFile(ProgressView),
    DoneSyncing,
    Error { entry: Seq<char>, details: Seq<char> },
    Progress(ProgressView),
}

impl View for ProgressAction {
    type V = ActionView;

    open spec fn view(&self) -> ActionView {
        match self {
            ProgressAction::Scanning(i) => ActionView::Scanning(*i),
            ProgressAction::NewFile(p) => ActionView::NewFile(p@),
            ProgressAction::DoneSyncing => ActionView::DoneSyncing,
            ProgressAction::Error { entry, details } => ActionView::Error {
                entry: entry@,
                details: details@,
            },
            ProgressAction::Progress(p) => ActionView::Progress(p@),
        }
    }
}

/// The number of files to display: `num_files` may lag behind (walk
/// snapshots are batched), while `index` files are already known to exist.
pub open spec fn spec_display_total(num_files: u64, index: usize) -> usize {
    let n = num_files as usize;
    if n < index {
        index
    } else {
        n
    }
}

/// The number of files to display.
pub fn display_total(num_files: u64, index: usize) -> (r: usize)
    ensures
        r == spec_display_total(num_files, index),
{
    let n = num_files as usize;
    if n < index {
        index
    } else {
        n
    }
}

/// The estimated time left, in seconds: the elapsed time scaled by the
/// share of the total size that is done, minus the elapsed time (0 when
/// nothing is done yet or the size is unknown).
pub open spec fn spec_compute_eta(elapsed_secs: usize, total_size: usize, total_done: usize) -> nat {
    if total_done == 0 || total_size == 0 {
        0
    } else {
        let scaled = (elapsed_secs * total_size) / (total_done as int);
        if scaled > elapsed_secs {
            (scaled - elapsed_secs) as nat
        } else {
            0
        }
    }
}

/// The estimate at the current rate: once something is done, the elapsed
/// time plus the time left is the time the whole size takes at the rate so
/// far, rounded down (`elapsed * total_size / total_done`), unless that is
/// already past, in which case nothing is left. The time left is not bounded
/// by the elapsed time: a quarter done in 10 seconds leaves 30.
pub proof fn lemma_eta_is_time_at_current_rate(elapsed: usize, total_size: usize, total_done: usize)
    requires
        total_done > 0,
        total_size > 0,
    ensures
        spec_compute_eta(elapsed, total_size, total_done) > 0 ==> {
            let whole = elapsed + spec_compute_eta(elapsed, total_size, total_done);
            &&& whole * total_done <= elapsed * total_size
            &&& elapsed * total_size < (whole + 1) * total_done
        },
        spec_compute_eta(elapsed, total_size, total_done) == 0 ==> elapsed * total_size < (
        elapsed + 1) * total_done,
        4 * total_done == total_size ==> spec_compute_eta(elapsed, total_size, total_done) == 3
            * elapsed,
{
    let p = elapsed * total_size;
    let q = p / (total_done as int);
    assert(q * total_done <= p && p < (q + 1) * total_done) by (nonlinear_arith)
        requires
            total_done > 0,
            p >= 0,
            q == p / (total_done as int),
    ;
    if q <= elapsed {
        assert((q + 1) * total_done <= (elapsed + 1) * total_done) by (nonlinear_arith)
            requires
                q <= elapsed,
                total_done > 0,
        ;
    }
    if 4 * total_done == total_size {
        assert(p == (4 * elapsed) * total_done) by (nonlinear_arith)
            requires
                p == elapsed * total_size,
                4 * total_done == total_size,
        ;
        assert(q == 4 * elapsed) by (nonlinear_arith)
            requires
                p == (4 * elapsed) * total_done,
                total_done > 0,
                q == p / (total_done as int),
        ;
    }
}

/// The estimated time left, in seconds.
pub fn compute_eta(elapsed_secs: usize, total_size: usize, total_done: usize) -> (r: usize)
    requires
        elapsed_secs * total_size <= usize::MAX,
    ensures
        r == spec_compute_eta(elapsed_secs, total_size, total_done),
{
    if total_done == 0 || total_size == 0 {
        return 0;
    }
    ((elapsed_secs * total_size) / total_done).saturating_sub(elapsed_secs)
}

/// Whether a transfer at time `t` is within the speed window at time `now`.
pub open spec fn in_window(t: u64, now: u64) -> bool {
    t <= now && now - t < SPEED_WINDOW_MS
}

/// The bytes of the transfers of `samples` that are within the window at `now`.
pub open spec fn window_bytes(samples: Seq<(u64, usize)>, now: u64) -> nat
    decreases samples.len(),
{
    if samples.len() == 0 {
        0
    } else {
        let last = samples.last();
        window_bytes(samples.drop_last(), now) + if in_window(last.0, now) {
            last.1 as nat
        } else {
            0
        }
    }
}

/// The transfers of `samples` that are within the window at `now`.
pub open spec fn window_samples(samples: Seq<(u64, usize)>, now: u64) -> Seq<(u64, usize)> {
    samples.filter(|s: (u64, usize)| in_window(s.0, now))
}

/// The current speed at `now`: the bytes transferred within the window,
/// per second (capped to `usize`).
pub open spec fn spec_current_speed(samples: Seq<(u64, usize)>, now: u64) -> usize {
    let b = window_bytes(samples, now);
    let capped = if b > usize::MAX {
        usize::MAX as nat
    } else {
        b
    };
    (capped * 1000 / (SPEED_WINDOW_MS as nat)) as usize
}

/// The average speed over `now_ms` milliseconds, in bytes per second (capped
/// to `usize`; 0 at time 0).
pub open spec fn spec_average_speed(total_done: usize, now_ms: u64) -> usize {
    if now_ms == 0 {
        0
    } else {
        let avg = total_done * 1000 / (now_ms as int);
        if avg > usize::MAX {
            usize::MAX
        } else {
            avg as usize
        }
    }
}

/// The current speed decays to 0 when nothing was transferred within the
/// window.
pub proof fn lemma_speed_decays(samples: Seq<(u64, usize)>, now: u64)
    requires
        forall|i: int| 0 <= i < samples.len() ==> !in_window(#[trigger] samples[i].0, now),
    ensures
        window_bytes(samples, now) == 0,
        spec_current_speed(samples, now) == 0,
    decreases samples.len(),
{
    if samples.len() > 0 {
        let rest = samples.drop_last();
        assert forall|i: int| 0 <= i < rest.len() implies !in_window(#[trigger] rest[i].0, now) by {
            assert(rest[i] == samples[i]);
        }
        lemma_speed_decays(rest, now);
        assert(!in_window(samples[samples.len() - 1].0, now));
    }
}

/// The state of the progress worker, in terms of plain values.
pub struct WorkerState {
    pub stats: Stats,
    pub file_done: usize,
    pub current_file: Seq<char>,
    pub index: usize,
    pub total_done: usize,
    pub samples: Seq<(u64, usize)>,
}

/// The state before the first message.
pub open spec fn initial_state() -> WorkerState {
    WorkerState {
        stats: crate::sync::zero_stats(),
        file_done: 0,
        current_file: Seq::empty(),
        index: 0,
        total_done: 0,
        samples: Seq::empty(),
    }
}

/// The whole seconds in `now_ms` milliseconds.
pub open spec fn secs_of(now_ms: u64) -> usize {
    (now_ms / 1000) as usize
}

/// The detailed progress shown in state `s` at `now_ms`.
pub open spec fn progress_view(
    s: WorkerState,
    now_ms: u64,
    file_done: usize,
    file_size: usize,
) -> ProgressView {
    ProgressView {
        current_file: s.current_file,
        file_done,
        file_size,
        total_done: s.total_done,
        total_size: s.stats.total_size,
        index: s.index,
        num_files: spec_display_total(s.stats.num_files, s.index),
        eta: spec_compute_eta(secs_of(now_ms), s.stats.total_size, s.total_done) as usize,
        current_speed: spec_current_speed(s.samples, now_ms),
        average_speed: spec_average_speed(s.total_done, now_ms),
        elapsed: secs_of(now_ms),
    }
}

/// Whether handling `msg` in state `s` at `now_ms` stays within the integer
/// types (the counters and the estimate of the time left).
pub open spec fn spec_accepts(s: WorkerState, msg: MessageView, now_ms: u64) -> bool {
    match msg {
        MessageView::DoneSyncing(_) => s.stats.can_add_outcome(),
        MessageView::StartSync { .. } => {
            &&& s.index < usize::MAX
            &&& now_ms / 1000 <= usize::MAX
            &&& secs_of(now_ms) * s.stats.total_size <= usize::MAX
        },
        MessageView::Walk { .. } => true,
        MessageView::Syncing { done, .. } => {
            &&& s.file_done + done <= usize::MAX
            &&& s.total_done + done <= usize::MAX
            &&& s.stats.total_transfered + done <= u64::MAX
            &&& now_ms / 1000 <= usize::MAX
            &&& secs_of(now_ms) * s.stats.total_size <= usize::MAX
        },
        MessageView::SyncError { .. } => s.stats.errors < u64::MAX,
    }
}

/// The state after handling `msg` in state `s` at `now_ms`.
pub open spec fn next_state(s: WorkerState, msg: MessageView, now_ms: u64) -> WorkerState {
    match msg {
        MessageView::Walk { num_files, total_size, excluded_files, excluded_dirs, .. } => {
            WorkerState {
                stats: Stats { num_files, total_size, excluded_files, excluded_dirs, ..s.stats },
                ..s
            }
        },
        MessageView::StartSync { description, .. } => WorkerState {
            current_file: description,
            file_done: 0,
            index: (s.index + 1) as usize,
            samples: window_samples(s.samples, now_ms),
            ..s
        },
        MessageView::DoneSyncing(outcome) => WorkerState {
            stats: stats_with_outcome(s.stats, outcome),
            file_done: 0,
            ..s
        },
        MessageView::SyncError { .. } => WorkerState {
            stats: Stats { errors: (s.stats.errors + 1) as u64, ..s.stats },
            ..s
        },
        MessageView::Syncing { done, .. } => WorkerState {
            stats: Stats {
                total_transfered: (s.stats.total_transfered + done) as u64,
                ..s.stats
            },
            file_done: (s.file_done + done) as usize,
            total_done: (s.total_done + done) as usize,
            samples: window_samples(s.samples.push((now_ms, done)), now_ms),
            ..s
        },
    }
}

/// The notification for `msg` in state `s` at `now_ms`.
pub open spec fn next_action(s: WorkerState, msg: MessageView, now_ms: u64) -> ActionView {
    let t = next_state(s, msg, now_ms);
    match msg {
        MessageView::Walk {
            seen,
            num_files,
            excluded_files,
            excluded_dirs,
            finished,
            ..
        } => ActionView::Scanning(
            WalkInfo { seen, num_files, excluded_files, excluded_dirs, finished },
        ),
        MessageView::StartSync { size, .. } => ActionView::NewFile(
            progress_view(
                t,
                now_ms,
                0,
                if size < 1 {
                    1
                } else {
                    size
                },
            ),
        ),
        MessageView::DoneSyncing(_) => ActionView::DoneSyncing,
        MessageView::SyncError { entry, details } => ActionView::Error { entry, details },
        MessageView::Syncing { size, .. } => ActionView::Progress(
            progress_view(t, now_ms, t.file_done, size),
        ),
    }
}

/// The progress worker: the statistics of the run and what the progress
/// line shows, fed one message at a time.
pub struct ProgressWorker {
    stats: Stats,
    file_done: usize,
    current_file: String,
    index: usize,
    total_done: usize,
    samples: Vec<(u64, usize)>,
}

impl ProgressWorker {
    /// The state of the worker, in terms of plain values.
    pub closed spec fn state(&self) -> WorkerState {
        WorkerState {
            stats: self.stats,
            file_done: self.file_done,
            current_file: self.current_file@,
            index: self.index,
            total_done: self.total_done,
            samples: self.samples@,
        }
    }

    /// A worker before any message.
    pub fn new() -> (r: Self)
        ensures
            r.state() == initial_state(),
    {
        ProgressWorker {
            stats: Stats::new(),
            file_done: 0,
            current_file: String::new(),
            index: 0,
            total_done: 0,
            samples: Vec::new(),
        }
    }

    /// Whether `msg` can be handled at `now_ms` (see `spec_accepts`).
    pub fn accepts(&self, msg: &ProgressMessage, now_ms: u64) -> (r: bool)
        ensures
            r == spec_accepts(self.state(), msg@, now_ms),
    {
        match msg {
            ProgressMessage::DoneSyncing(_) => {
                self.stats.num_synced < u64::MAX && self.stats.copied < u64::MAX
                    && self.stats.symlink_updated < u64::MAX && self.stats.symlink_created
                    < u64::MAX && self.stats.up_to_date < u64::MAX
            },
            ProgressMessage::StartSync { .. } => {
                self.index < usize::MAX && now_ms / 1000 <= usize::MAX as u64
                    && self.eta_fits(now_ms)
            },
            ProgressMessage::Walk { .. } => true,
            ProgressMessage::Syncing { done, .. } => {
                *done <= usize::MAX - self.file_done && *done <= usize::MAX - self.total_done
                    && (*done as u64) <= u64::MAX - self.stats.total_transfered && now_ms / 1000
                    <= usize::MAX as u64 && self.eta_fits(now_ms)
            },
            ProgressMessage::SyncError { .. } => self.stats.errors < u64::MAX,
        }
    }

    /// Whether the elapsed seconds times the total size fits in `usize`.
    fn eta_fits(&self, now_ms: u64) -> (r: bool)
        ensures
            r == (now_ms / 1000 <= usize::MAX && secs_of(now_ms) * self.stats.total_size
                <= usize::MAX),
    {
        if now_ms / 1000 > usize::MAX as u64 {
            return false;
        }
        let secs = (now_ms / 1000) as usize;
        if secs == 0 {
            proof {
                assert(secs_of(now_ms) == 0);
                assert(secs_of(now_ms) * self.stats.total_size == 0);
            }
            return true;
        }
        let ok = self.stats.total_size <= usize::MAX / secs;
        proof {
            assert(secs_of(now_ms) == secs);
            lemma_fits(secs as nat, self.stats.total_size as nat, usize::MAX as nat);
        }
        ok
    }

    /// The current speed at `now_ms`.
    fn current_speed(&self, now_ms: u64) -> (r: usize)
        ensures
            r == spec_current_speed(self.samples@, now_ms),
    {
        let mut acc: usize = 0;
        let mut i: usize = 0;
        while i < self.samples.len()
            invariant
                i <= self.samples@.len(),
                acc == (if window_bytes(self.samples@.take(i as int), now_ms) > usize::MAX {
                    usize::MAX as nat
                } else {
                    window_bytes(self.samples@.take(i as int), now_ms)
                }),
            decreases self.samples.len() - i,
        {
            let (t, b) = self.samples[i];
            proof {
                assert(self.samples@.take(i + 1).drop_last() =~= self.samples@.take(i as int));
                assert(self.samples@.take(i + 1).last() == self.samples@[i as int]);
            }
            if t <= now_ms && now_ms - t < SPEED_WINDOW_MS {
                acc = acc.saturating_add(b);
            }
            i = i + 1;
        }
        proof {
            assert(self.samples@.take(self.samples@.len() as int) =~= self.samples@);
        }
        // bytes per second over the window of two seconds
        acc / 2
    }

    /// Keeps only the transfers within the window at `now_ms`.
    fn prune_samples(&mut self, now_ms: u64)
        ensures
            final(self).samples@ == window_samples(old(self).samples@, now_ms),
            final(self).stats == old(self).stats,
            final(self).file_done == old(self).file_done,
            final(self).current_file == old(self).current_file,
            final(self).index == old(self).index,
            final(self).total_done == old(self).total_done,
    {
        let mut kept: Vec<(u64, usize)> = Vec::new();
        let mut i: usize = 0;
        while i < self.samples.len()
            invariant
                i <= self.samples@.len(),
                kept@ == window_samples(self.samples@.take(i as int), now_ms),
            decreases self.samples.len() - i,
        {
            let (t, b) = self.samples[i];
            let ghost prefix = self.samples@.take(i as int);
            let ghost next = self.samples@.take(i + 1);
            proof {
                assert(next =~= prefix.push(self.samples@[i as int]));
                assert(next.drop_last() =~= prefix);
                lemma_filter_push(prefix, self.samples@[i as int], now_ms);
            }
            if t <= now_ms && now_ms - t < SPEED_WINDOW_MS {
                let ghost before = kept@;
                kept.push((t, b));
                proof {
                    assert(kept@.drop_last() =~= before);
                }
            }
            i = i + 1;
        }
        proof {
            assert(self.samples@.take(self.samples@.len() as int) =~= self.samples@);
        }
        self.samples = kept;
    }

    /// The detailed progress at `now_ms`, once the state is updated.
    fn progress_now(&self, now_ms: u64, file_done: usize, file_size: usize) -> (r: Progress)
        requires
            now_ms / 1000 <= usize::MAX,
            secs_of(now_ms) * self.stats.total_size <= usize::MAX,
        ensures
            r@ == progress_view(self.state(), now_ms, file_done, file_size),
    {
        let elapsed = (now_ms / 1000) as usize;
        let eta = compute_eta(elapsed, self.stats.total_size, self.total_done);
        let average_speed = if now_ms == 0 {
            0
        } else {
            let avg = (self.total_done as u128) * 1000 / (now_ms as u128);
            if avg > usize::MAX as u128 {
                usize::MAX
            } else {
                avg as usize
            }
        };
        Progress {
            file_done,
            file_size,
            total_done: self.total_done,
            total_size: self.stats.total_size,
            index: self.index,
            num_files: display_total(self.stats.num_files, self.index),
            current_file: self.current_file.clone(),
            eta,
            current_speed: self.current_speed(now_ms),
            average_speed,
            elapsed,
        }
    }

    /// Handles one message received at `now_ms` (milliseconds since the start
    /// of the run): updates the statistics and returns what to tell the
    /// `ProgressInfo`.
    pub fn handle(&mut self, msg: ProgressMessage, now_ms: u64) -> (action: ProgressAction)
        requires
            spec_accepts(old(self).state(), msg@, now_ms),
        ensures
            final(self).state() == next_state(old(self).state(), msg@, now_ms),
            action@ == next_action(old(self).state(), msg@, now_ms),
    {
        let ghost s0 = self.state();
        let ghost m = msg@;
        let action = match msg {
            ProgressMessage::Walk {
                seen,
                num_files,
                total_size,
                excluded_files,
                excluded_dirs,
                finished,
            } => {
                self.stats.num_files = num_files;
                self.stats.total_size = total_size;
                self.stats.excluded_files = excluded_files;
                self.stats.excluded_dirs = excluded_dirs;
                let info = WalkInfo { seen, num_files, excluded_files, excluded_dirs, finished };
                ProgressAction::Scanning(info)
            },
            ProgressMessage::StartSync { description, size } => {
                self.current_file = description;
                self.file_done = 0;
                self.index = self.index + 1;
                self.prune_samples(now_ms);
                // Render a per-file line right away, so that a run
                // where every file is up to date still shows progress:
                let file_size = if size < 1 {
                    1
                } else {
                    size
                };
                let detailed = self.progress_now(now_ms, 0, file_size);
                ProgressAction::NewFile(detailed)
            },
            ProgressMessage::DoneSyncing(x) => {
                self.stats.add_outcome(&x);
                self.file_done = 0;
                ProgressAction::DoneSyncing
            },
            ProgressMessage::SyncError { entry, details } => {
                self.stats.add_error();
                ProgressAction::Error { entry, details }
            },
            ProgressMessage::Syncing { done, size, .. } => {
                self.file_done = self.file_done + done;
                self.total_done = self.total_done + done;
                self.stats.total_transfered = self.stats.total_transfered + done as u64;
                self.samples.push((now_ms, done));
                self.prune_samples(now_ms);
                let detailed = self.progress_now(now_ms, self.file_done, size);
                ProgressAction::Progress(detailed)
            },
        };
        proof {
            assert(self.state() =~~= next_state(s0, m, now_ms));
        }
        action
    }

    /// Ends the run at `now_ms`: the statistics, with the duration of the
    /// run, that the `ProgressInfo` gets last, through its `end`.
    pub fn finish(self, now_ms: u64) -> (r: Stats)
        ensures
            r == (Stats { duration_secs: now_ms / 1000, ..self.state().stats }),
    {
        let mut stats = self.stats;
        stats.duration_secs = now_ms / 1000;
        stats
    }
}

/// `a * b <= m` exactly when `b <= m / a`.
proof fn lemma_fits(a: nat, b: nat, m: nat)
    requires
        a > 0,
    ensures
        (a * b <= m) == (b <= m / a),
{
    if b <= m / a {
        assert(a * b <= a * (m / a)) by (nonlinear_arith)
            requires
                a > 0,
                b <= m / a,
        ;
        assert(a * (m / a) <= m) by (nonlinear_arith)
            requires
                a > 0,
        ;
    } else {
        assert(a * b >= a * (m / a + 1)) by (nonlinear_arith)
            requires
                a > 0,
                b >= m / a + 1,
        ;
        assert(a * (m / a + 1) > m) by (nonlinear_arith)
            requires
                a > 0,
        ;
    }
}

/// Filtering extends one sample at a time.
proof fn lemma_filter_push(prefix: Seq<(u64, usize)>, s: (u64, usize), now: u64)
    ensures
        window_samples(prefix.push(s), now) == if in_window(s.0, now) {
            window_samples(prefix, now).push(s)
        } else {
            window_samples(prefix, now)
        },
{
    reveal(Seq::filter);
    assert(prefix.push(s).drop_last() =~= prefix);
}

/// The state after handling each message of `msgs` in turn, the i-th at
/// `times[i]`.
pub open spec fn run(s: WorkerState, msgs: Seq<MessageView>, times: Seq<u64>) -> WorkerState
    decreases msgs.len(),
{
    if msgs.len() == 0 || times.len() == 0 {
        s
    } else {
        run(next_state(s, msgs[0], times[0]), msgs.drop_first(), times.drop_first())
    }
}

/// The number of messages that report a synchronized entry.
pub open spec fn count_done(msgs: Seq<MessageView>) -> nat
    decreases msgs.len(),
{
    if msgs.len() == 0 {
        0
    } else {
        (if msgs[0] is DoneSyncing {
            1nat
        } else {
            0nat
        }) + count_done(msgs.drop_first())
    }
}

/// The number of messages that report an entry that could not be synchronized.
pub open spec fn count_errors(msgs: Seq<MessageView>) -> nat
    decreases msgs.len(),
{
    if msgs.len() == 0 {
        0
    } else {
        (if msgs[0] is SyncError {
            1nat
        } else {
            0nat
        }) + count_errors(msgs.drop_first())
    }
}

/// The number of messages that start the synchronization of an entry.
pub open spec fn count_starts(msgs: Seq<MessageView>) -> nat
    decreases msgs.len(),
{
    if msgs.len() == 0 {
        0
    } else {
        (if msgs[0] is StartSync {
            1nat
        } else {
            0nat
        }) + count_starts(msgs.drop_first())
    }
}

/// The bytes that the messages report as copied.
pub open spec fn bytes_done(msgs: Seq<MessageView>) -> nat
    decreases msgs.len(),
{
    if msgs.len() == 0 {
        0
    } else {
        (match msgs[0] {
            MessageView::Syncing { done, .. } => done as nat,
            _ => 0nat,
        }) + bytes_done(msgs.drop_first())
    }
}

/// Over a run of messages, the statistics count exactly the entries
/// synchronized and the errors, the index counts the files started, and the
/// bytes done add up the bytes reported (as long as the counters fit).
pub proof fn lemma_run_counts(s: WorkerState, msgs: Seq<MessageView>, times: Seq<u64>)
    requires
        times.len() == msgs.len(),
        s.stats.num_synced + count_done(msgs) <= u64::MAX,
        s.stats.errors + count_errors(msgs) <= u64::MAX,
        s.index + count_starts(msgs) <= usize::MAX,
        s.total_done + bytes_done(msgs) <= usize::MAX,
    ensures
        run(s, msgs, times).stats.num_synced == s.stats.num_synced + count_done(msgs),
        run(s, msgs, times).stats.errors == s.stats.errors + count_errors(msgs),
        run(s, msgs, times).index == s.index + count_starts(msgs),
        run(s, msgs, times).total_done == s.total_done + bytes_done(msgs),
    decreases msgs.len(),
{
    if msgs.len() > 0 {
        let t = next_state(s, msgs[0], times[0]);
        lemma_run_counts(t, msgs.drop_first(), times.drop_first());
    }
}

/// Whether none of `msgs` starts or ends the synchronization of an entry.
pub open spec fn within_one_file(msgs: Seq<MessageView>) -> bool {
    forall|i: int| 0 <= i < msgs.len() ==> !(#[trigger] msgs[i] is StartSync) && !(msgs[i] is DoneSyncing)
}

/// The bytes shown for the current file are those reported since it
/// started: a new file starts at 0, whatever the previous one left (even
/// when it ended in an error), and each chunk of the file adds its bytes.
pub proof fn lemma_current_file_bytes(
    s: WorkerState,
    start: MessageView,
    msgs: Seq<MessageView>,
    times: Seq<u64>,
)
    requires
        start is StartSync,
        times.len() == msgs.len() + 1,
        within_one_file(msgs),
        bytes_done(msgs) <= usize::MAX,
        s.total_done + bytes_done(msgs) <= usize::MAX,
    ensures
        run(s, seq![start] + msgs, times).file_done == bytes_done(msgs),
{
    let t = next_state(s, start, times[0]);
    assert(t.file_done == 0);
    assert((seq![start] + msgs).drop_first() =~= msgs);
    lemma_file_bytes_add_up(t, msgs, times.drop_first());
}

/// Within one file, the bytes shown for it add up the chunks reported.
proof fn lemma_file_bytes_add_up(s: WorkerState, msgs: Seq<MessageView>, times: Seq<u64>)
    requires
        times.len() == msgs.len(),
        within_one_file(msgs),
        s.file_done + bytes_done(msgs) <= usize::MAX,
        s.total_done + bytes_done(msgs) <= usize::MAX,
    ensures
        run(s, msgs, times).file_done == s.file_done + bytes_done(msgs),
    decreases msgs.len(),
{
    if msgs.len() > 0 {
        let t = next_state(s, msgs[0], times[0]);
        let rest = msgs.drop_first();
        assert(!(msgs[0] is StartSync) && !(msgs[0] is DoneSyncing));
        assert forall|i: int| 0 <= i < rest.len() implies !(#[trigger] rest[i] is StartSync) && !(
        rest[i] is DoneSyncing) by {
            assert(rest[i] == msgs[i + 1]);
        }
        lemma_file_bytes_add_up(t, rest, times.drop_first());
    }
}

/// Whether every entry synchronized is counted under exactly one outcome.
pub open spec fn outcomes_add_up(stats: Stats) -> bool {
    stats.num_synced == stats.up_to_date + stats.copied + stats.symlink_created
        + stats.symlink_updated
}

/// Each synchronized entry is counted under exactly one outcome: this holds
/// at the start and every accepted message keeps it.
pub proof fn lemma_outcomes_add_up(s: WorkerState, msg: MessageView, now_ms: u64)
    requires
        outcomes_add_up(s.stats),
        spec_accepts(s, msg, now_ms),
    ensures
        outcomes_add_up(initial_state().stats),
        outcomes_add_up(next_state(s, msg, now_ms).stats),
{
}

/// The total shown is never below the index of the current file, nor below
/// the number of files found (when it fits in `usize`).
pub proof fn lemma_display_total_bounds(num_files: u64, index: usize)
    ensures
        spec_display_total(num_files, index) >= index,
        num_files <= usize::MAX ==> spec_display_total(num_files, index) >= num_files,
        spec_display_total(num_files, index) == index || spec_display_total(num_files, index)
            == num_files as usize,
{
}

/// Nothing done, or an unknown size, gives no estimate; otherwise the
/// estimate shrinks as more is done.
pub proof fn lemma_eta_bounds(elapsed: usize, total_size: usize, d1: usize, d2: usize)
    requires
        0 < d1 <= d2,
        elapsed * total_size <= usize::MAX,
    ensures
        spec_compute_eta(elapsed, total_size, 0) == 0,
        spec_compute_eta(elapsed, 0, d1) == 0,
        spec_compute_eta(elapsed, total_size, d2) <= spec_compute_eta(elapsed, total_size, d1),
{
    let p = elapsed * total_size;
    assert(p / (d2 as int) <= p / (d1 as int)) by (nonlinear_arith)
        requires
            0 < d1 <= d2,
            p >= 0,
    ;
}

} // verus!
