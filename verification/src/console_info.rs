//! console_info
//!
//! The lines that display transfer progress on the command line.
use crate::progress::{Progress, WalkInfo};
use humansize::FileSize;
use crate::sync::Stats;
use crate::text::{
    decimal, decimal_string, pad_left, pad_right, push_char, push_decimal, push_padded_left,
    push_padded_right, push_str, repeat_char,
};
use crate::workers::progress_worker::ProgressView;
use vstd::prelude::*;

verus! {

/// `s` seconds as `HH:MM:SS` (hours may take more than two digits).
pub open spec fn spec_human_seconds(s: nat) -> Seq<char> {
    pad_left(decimal(s / 3600), 2, '0') + seq![':'] + pad_left(decimal((s / 60) % 60), 2, '0')
        + seq![':'] + pad_left(decimal(s % 60), 2, '0')
}

/// Appends `n`, zero-padded to two digits.
fn push_two_digits(s: &mut String, n: u64)
    ensures
        final(s)@ == old(s)@ + pad_left(decimal(n as nat), 2, '0'),
{
    let d = decimal_string(n);
    push_padded_left(s, d.as_str(), 2, '0');
}

/// Formats a number of seconds as `HH:MM:SS`.
pub fn human_seconds(s: usize) -> (r: String)
    ensures
        r@ == spec_human_seconds(s as nat),
{
    let hours = s / 3600;
    let minutes = (s / 60) % 60;
    let seconds = s % 60;
    let mut r = String::new();
    push_two_digits(&mut r, hours as u64);
    push_char(&mut r, ':');
    push_two_digits(&mut r, minutes as u64);
    push_char(&mut r, ':');
    push_two_digits(&mut r, seconds as u64);
    proof {
        assert(r@ =~= spec_human_seconds(s as nat));
    }
    r
}

/// The bar of `width` cells, the first `filled` of them filled.
pub open spec fn progress_bar(filled: nat, width: nat) -> Seq<char> {
    repeat_char('#', filled) + repeat_char('.', (width - filled) as nat)
}

/// The percentage shown while sleeping: computed on 128 bits, then cut to
/// 64 bits.
pub open spec fn sleep_percent(elapsed_secs: u64, total_secs: u64) -> nat {
    let total = if total_secs == 0 {
        1
    } else {
        total_secs as int
    };
    ((elapsed_secs * 100 / total) % 0x1_0000_0000_0000_0000) as nat
}

/// The number of filled cells of the sleep bar: computed on 128 bits, cut to
/// the size of `usize`, and never more than the bar.
pub open spec fn sleep_filled(elapsed_secs: u64, total_secs: u64, bar_width: usize) -> nat {
    let total = if total_secs == 0 {
        1
    } else {
        total_secs as int
    };
    let filled = ((elapsed_secs * bar_width / total) % (usize::MAX + 1)) as nat;
    if filled < bar_width {
        filled
    } else {
        bar_width as nat
    }
}

/// One line of the progress bar displayed while sleeping between two syncs.
pub open spec fn spec_sleep_progress_line(
    elapsed_secs: u64,
    total_secs: u64,
    next_sync_at: Seq<char>,
    bar_width: usize,
) -> Seq<char> {
    "waiting ["@ + progress_bar(sleep_filled(elapsed_secs, total_secs, bar_width), bar_width as nat)
        + "] "@ + pad_left(decimal(sleep_percent(elapsed_secs, total_secs)), 3, ' ') + "% ("@
        + spec_human_seconds((elapsed_secs as usize) as nat) + "/"@ + spec_human_seconds(
        (total_secs as usize) as nat,
    ) + ") next sync at "@ + next_sync_at
}

/// One line of the progress bar displayed while sleeping between two syncs.
pub fn sleep_progress_line(
    elapsed_secs: u64,
    total_secs: u64,
    next_sync_at: &str,
    bar_width: usize,
) -> (r: String)
    ensures
        r@ == spec_sleep_progress_line(elapsed_secs, total_secs, next_sync_at@, bar_width),
{
    // The interval is at least one second, so this is never zero:
    let total: u128 = if total_secs == 0 {
        1
    } else {
        total_secs as u128
    };
    let elapsed = elapsed_secs as u128;
    let percent = ((elapsed * 100 / total) % 0x1_0000_0000_0000_0000u128) as u64;
    proof {
        assert(elapsed * bar_width <= 0xffff_ffff_ffff_ffff * 0xffff_ffff_ffff_ffffu128)
            by (nonlinear_arith)
            requires
                elapsed <= 0xffff_ffff_ffff_ffff,
                bar_width <= 0xffff_ffff_ffff_ffff,
        ;
    }
    let scaled = elapsed * (bar_width as u128) / total;
    let cut = (scaled % (usize::MAX as u128 + 1)) as usize;
    let filled = if cut < bar_width {
        cut
    } else {
        bar_width
    };
    let mut bar = String::new();
    let mut i: usize = 0;
    while i < bar_width
        invariant
            i <= bar_width,
            filled <= bar_width,
            bar@ == (if i <= filled {
                repeat_char('#', i as nat)
            } else {
                repeat_char('#', filled as nat) + repeat_char('.', (i - filled) as nat)
            }),
        decreases bar_width - i,
    {
        if i < filled {
            push_char(&mut bar, '#');
            proof {
                assert(repeat_char('#', (i + 1) as nat) =~= repeat_char('#', i as nat).push('#'));
            }
        } else {
            push_char(&mut bar, '.');
            proof {
                assert(repeat_char('.', (i + 1 - filled) as nat) =~= repeat_char(
                    '.',
                    (i - filled) as nat,
                ).push('.'));
                if i == filled {
                    assert(repeat_char('.', 0) =~= Seq::<char>::empty());
                    assert(repeat_char('#', filled as nat) =~= repeat_char('#', filled as nat)
                        + repeat_char('.', 0));
                }
            }
        }
        i = i + 1;
    }
    proof {
        if bar_width <= filled {
            assert(repeat_char('.', 0) =~= Seq::<char>::empty());
            assert(bar@ =~= progress_bar(filled as nat, bar_width as nat));
        }
        assert(bar@ =~= progress_bar(filled as nat, bar_width as nat));
        assert(filled == sleep_filled(elapsed_secs, total_secs, bar_width));
        assert(percent == sleep_percent(elapsed_secs, total_secs));
    }
    let percent_str = decimal_string(percent);
    let elapsed_str = human_seconds(elapsed_secs as usize);
    let total_str = human_seconds(total_secs as usize);
    let mut r = String::new();
    push_str(&mut r, "waiting [");
    push_str(&mut r, bar.as_str());
    push_str(&mut r, "] ");
    push_padded_left(&mut r, percent_str.as_str(), 3, ' ');
    push_str(&mut r, "% (");
    push_str(&mut r, elapsed_str.as_str());
    push_str(&mut r, "/");
    push_str(&mut r, total_str.as_str());
    push_str(&mut r, ") next sync at ");
    push_str(&mut r, next_sync_at);
    proof {
        assert(r@ =~= spec_sleep_progress_line(elapsed_secs, total_secs, next_sync_at@, bar_width));
    }
    r
}

/// The sleep bar never has more filled cells than it has cells, and once
/// the whole interval has elapsed it is full and shows 100%.
pub proof fn lemma_sleep_bar(elapsed_secs: u64, total_secs: u64, bar_width: usize)
    ensures
        sleep_filled(elapsed_secs, total_secs, bar_width) <= bar_width,
        elapsed_secs == total_secs && total_secs > 0 ==> sleep_filled(
            elapsed_secs,
            total_secs,
            bar_width,
        ) == bar_width && sleep_percent(elapsed_secs, total_secs) == 100,
{
    if elapsed_secs == total_secs && total_secs > 0 {
        let t = total_secs as int;
        let w = bar_width as int;
        assert(t * w / t == w) by (nonlinear_arith)
            requires
                t > 0,
        ;
        assert(t * 100 / t == 100) by (nonlinear_arith)
            requires
                t > 0,
        ;
        assert(elapsed_secs * bar_width == t * w);
        vstd::arithmetic::div_mod::lemma_small_mod(w as nat, (usize::MAX + 1) as nat);
    }
}

/// Whether a scanning line reports entries skipped by filters, and how many.
pub open spec fn spec_scanning_line(info: WalkInfo) -> Seq<char> {
    let head = "scanning … "@ + decimal(info.seen as nat) + " entries, "@ + decimal(
        info.num_files as nat,
    ) + " to sync"@;
    if info.excluded_files > 0 || info.excluded_dirs > 0 {
        head + ", "@ + decimal((info.excluded_files + info.excluded_dirs) as nat)
            + " skipped by filters"@
    } else {
        head
    }
}

/// The scanning line reports the entries seen and the files to sync, and,
/// as soon as the filters skipped anything (files or directories), ends
/// with the number of entries they skipped; otherwise it ends after the
/// files to sync.
pub proof fn lemma_scanning_line_reports_skipped(info: WalkInfo)
    requires
        info.excluded_files + info.excluded_dirs <= u64::MAX,
    ensures
        info.excluded_files + info.excluded_dirs > 0 ==> exists|head: Seq<char>|
            spec_scanning_line(info) == head + ", "@ + decimal(
                (info.excluded_files + info.excluded_dirs) as nat,
            ) + " skipped by filters"@,
        info.excluded_dirs > 0 ==> spec_scanning_line(info).len() > ("scanning … "@ + decimal(
            info.seen as nat,
        ) + " entries, "@ + decimal(info.num_files as nat) + " to sync"@).len(),
        info.excluded_files + info.excluded_dirs == 0 ==> spec_scanning_line(info)
            == "scanning … "@ + decimal(info.seen as nat) + " entries, "@ + decimal(
            info.num_files as nat,
        ) + " to sync"@,
{
    let head = "scanning … "@ + decimal(info.seen as nat) + " entries, "@ + decimal(
        info.num_files as nat,
    ) + " to sync"@;
    if info.excluded_files + info.excluded_dirs > 0 {
        assert(spec_scanning_line(info) == head + ", "@ + decimal(
            (info.excluded_files + info.excluded_dirs) as nat,
        ) + " skipped by filters"@);
    }
    if info.excluded_dirs > 0 {
        reveal_strlit(", ");
        assert(spec_scanning_line(info).len() >= head.len() + 2);
    }
}

/// The line displayed while the source tree is being scanned.
pub fn scanning_line(info: &WalkInfo) -> (r: String)
    requires
        info.excluded_files + info.excluded_dirs <= u64::MAX,
    ensures
        r@ == spec_scanning_line(*info),
{
    let mut line = String::new();
    push_str(&mut line, "scanning … ");
    push_decimal(&mut line, info.seen);
    push_str(&mut line, " entries, ");
    push_decimal(&mut line, info.num_files);
    push_str(&mut line, " to sync");
    if info.excluded_files > 0 || info.excluded_dirs > 0 {
        push_str(&mut line, ", ");
        push_decimal(&mut line, info.excluded_files + info.excluded_dirs);
        push_str(&mut line, " skipped by filters");
    }
    proof {
        assert(line@ =~= spec_scanning_line(*info));
    }
    line
}

/// The number of bytes of the UTF-8 encoding of `c`.
pub open spec fn utf8_len(c: char) -> nat {
    let u = c as u32;
    if u < 0x80 {
        1
    } else if u < 0x800 {
        2
    } else if u < 0x10000 {
        3
    } else {
        4
    }
}

/// What is left of `chars` once their UTF-8 encoding is cut to `budget`
/// bytes and decoded lossily: the characters that fit whole, then one
/// U+FFFD for the start of a character that was cut, if any.
pub open spec fn spec_truncate_lossy(chars: Seq<char>, budget: nat) -> Seq<char>
    decreases chars.len(),
{
    if chars.len() == 0 {
        Seq::empty()
    } else if utf8_len(chars[0]) <= budget {
        seq![chars[0]] + spec_truncate_lossy(chars.drop_first(), (budget - utf8_len(chars[0])) as nat)
    } else if budget > 0 {
        seq!['\u{FFFD}']
    } else {
        Seq::empty()
    }
}

fn utf8_len_exec(c: char) -> (r: usize)
    ensures
        r == utf8_len(c),
{
    let u = c as u32;
    if u < 0x80 {
        1
    } else if u < 0x800 {
        2
    } else if u < 0x10000 {
        3
    } else {
        4
    }
}

/// Cuts `text` to at most `maxsize` bytes of UTF-8 without splitting a
/// character: a character that would be cut becomes U+FFFD (the text is
/// cut as bytes, then decoded lossily).
pub fn truncate_lossy(text: &str, maxsize: usize) -> (r: String)
    ensures
        r@ == spec_truncate_lossy(text@, maxsize as nat),
{
    let chars = crate::text::chars_of(text);
    let mut r = String::new();
    let mut budget = maxsize;
    let mut i: usize = 0;
    proof {
        assert(chars@.skip(0) =~= chars@);
    }
    while i < chars.len()
        invariant
            i <= chars.len(),
            chars@ == text@,
            r@ + spec_truncate_lossy(chars@.skip(i as int), budget as nat) == spec_truncate_lossy(
                chars@,
                maxsize as nat,
            ),
        decreases chars.len() - i,
    {
        let c = chars[i];
        let n = utf8_len_exec(c);
        let ghost rest = chars@.skip(i as int);
        proof {
            assert(rest[0] == c);
            assert(rest.drop_first() =~= chars@.skip(i + 1));
        }
        if n <= budget {
            push_char(&mut r, c);
            budget = budget - n;
            i = i + 1;
        } else {
            let ghost before = r@;
            let ghost tail = spec_truncate_lossy(rest, budget as nat);
            if budget > 0 {
                push_char(&mut r, '\u{FFFD}');
                proof {
                    assert(tail == seq!['\u{FFFD}']);
                    assert(r@ =~= before + tail);
                }
            } else {
                proof {
                    assert(tail == Seq::<char>::empty());
                    assert(r@ =~= before + tail);
                }
            }
            return r;
        }
    }
    proof {
        assert(chars@.skip(i as int).len() == 0);
        assert(r@ + Seq::<char>::empty() =~= r@);
    }
    r
}

/// Minimum delay between two rendered progress lines, in milliseconds.
/// Rendering on every event is both slow (terminal writes) and flickery; for
/// trees with many small files the events come in thousands per second.
pub const MIN_RENDER_INTERVAL_MS: u64 = 100;

/// When a line was last rendered, to throttle rendering.
#[derive(Debug, Clone, Copy, PartialEq, Eq)]
pub struct RenderClock {
    /// Time of the last rendered line, in milliseconds, if any.
    pub last_render_ms: Option<u64>,
}

impl RenderClock {
    /// A clock that has rendered nothing yet.
    pub fn new() -> (r: RenderClock)
        ensures
            r.last_render_ms is None,
    {
        RenderClock { last_render_ms: None }
    }

    /// Whether a line would be rendered at `now_ms`.
    pub fn is_ready(&self, now_ms: u64) -> (r: bool)
        ensures
            r == clock_ready(self.last_render_ms, now_ms),
    {
        match self.last_render_ms {
            None => true,
            Some(last) => last <= now_ms && now_ms - last >= MIN_RENDER_INTERVAL_MS,
        }
    }

    /// Whether a line should be rendered at `now_ms`; also updates the
    /// render clock. The first line is always rendered.
    pub fn should_render(&mut self, now_ms: u64) -> (r: bool)
        ensures
            r == clock_ready(old(self).last_render_ms, now_ms),
            final(self).last_render_ms == if r {
                Some(now_ms)
            } else {
                old(self).last_render_ms
            },
    {
        let ready = self.is_ready(now_ms);
        if ready {
            self.last_render_ms = Some(now_ms);
        }
        ready
    }
}

/// Whether a line can be rendered at `now_ms`, the last one having been
/// rendered at `last` (if ever): at least `MIN_RENDER_INTERVAL_MS` later.
pub open spec fn clock_ready(last: Option<u64>, now_ms: u64) -> bool {
    match last {
        None => true,
        Some(l) => l <= now_ms && now_ms - l >= MIN_RENDER_INTERVAL_MS,
    }
}

/// What to do with the progress line on the terminal.
pub enum ScreenAction {
    /// Leave it as it is.
    Nothing,
    /// Blank it out.
    EraseLine,
    /// Write this line over it.
    Draw(String),
}

/// The state of the progress display: when each kind of line was last
/// rendered, and whether a line is shown that must be erased.
#[derive(Debug, Clone, Copy, PartialEq, Eq)]
pub struct ConsoleState {
    /// Clock of the transfer progress lines
    pub render: RenderClock,
    /// Clock of the scanning lines, so that a busy transfer phase cannot
    /// starve the scanning display
    pub scan_render: RenderClock,
    /// Whether a progress line is shown
    pub line_dirty: bool,
}

impl ConsoleState {
    /// Nothing rendered yet.
    pub fn new() -> (r: ConsoleState)
        ensures
            r.render.last_render_ms is None,
            r.scan_render.last_render_ms is None,
            !r.line_dirty,
    {
        ConsoleState { render: RenderClock::new(), scan_render: RenderClock::new(), line_dirty: false }
    }

    /// Erase the line if one is shown.
    pub fn erase_line_if_dirty(&mut self) -> (r: ScreenAction)
        ensures
            (r is EraseLine) == old(self).line_dirty,
            (r is Nothing) == !old(self).line_dirty,
            *final(self) == (ConsoleState { line_dirty: false, ..*old(self) }),
    {
        if self.line_dirty {
            self.line_dirty = false;
            ScreenAction::EraseLine
        } else {
            ScreenAction::Nothing
        }
    }

    /// The display of a scan snapshot at `now_ms`, on a terminal of `width`
    /// columns: a finished scan erases its line; otherwise the scanning line
    /// is drawn, padded to the width, unless one was drawn too recently.
    pub fn scanning(&mut self, info: &WalkInfo, now_ms: u64, width: usize) -> (r: ScreenAction)
        requires
            !info.finished && clock_ready(old(self).scan_render.last_render_ms, now_ms)
                ==> info.excluded_files + info.excluded_dirs <= u64::MAX,
        ensures
            info.finished ==> (r is EraseLine) == old(self).line_dirty && (r is Nothing)
                == !old(self).line_dirty && *final(self) == (ConsoleState {
                line_dirty: false,
                ..*old(self)
            }),
            !info.finished && !clock_ready(old(self).scan_render.last_render_ms, now_ms) ==> (r is Nothing
                && *final(self) == *old(self)),
            !info.finished && clock_ready(old(self).scan_render.last_render_ms, now_ms) ==> (r matches ScreenAction::Draw(line) && line@ == pad_right(spec_scanning_line(*info), width as nat)
                && *final(self) == (ConsoleState {
                scan_render: RenderClock { last_render_ms: Some(now_ms) },
                line_dirty: true,
                ..*old(self)
            })),
    {
        if info.finished {
            return self.erase_line_if_dirty();
        }
        if !self.scan_render.should_render(now_ms) {
            return ScreenAction::Nothing;
        }
        // Pad to the terminal width so that a previous, longer progress
        // line is fully overwritten:
        let line = padded_scanning_line(info, width);
        self.line_dirty = true;
        ScreenAction::Draw(line)
    }

    /// The display of detailed progress at `now_ms`, on a terminal of `width`
    /// columns: the progress line, unless one was drawn too recently.
    pub fn progress(&mut self, progress: &Progress, now_ms: u64, width: usize) -> (r: ScreenAction)
        requires
            clock_ready(old(self).render.last_render_ms, now_ms) ==> progress.file_done * 100
                <= usize::MAX,
        ensures
            !clock_ready(old(self).render.last_render_ms, now_ms) ==> (r is Nothing && *final(self)
                == *old(self)),
            clock_ready(old(self).render.last_render_ms, now_ms) ==> (r matches ScreenAction::Draw(line) && line@ == spec_progress_line(progress@, width)
                && *final(self) == (ConsoleState {
                render: RenderClock { last_render_ms: Some(now_ms) },
                line_dirty: true,
                ..*old(self)
            })),
    {
        if !self.render.should_render(now_ms) {
            return ScreenAction::Nothing;
        }
        let line = progress_line(progress, width);
        self.line_dirty = true;
        ScreenAction::Draw(line)
    }
}

/// The text that `humansize` gives for a number of bytes, with its decimal
/// options (`1.07 GB`, `40 KB`, `0 B`).
pub uninterp spec fn human_size_text(bytes: u64) -> Seq<char>;

/// The text that `humantime::format_duration` gives for a number of whole
/// seconds (`2s`, `1m 5s`).
pub uninterp spec fn human_duration_text(secs: u64) -> Seq<char>;

/// Calls `humansize`'s `FileSize::file_size` with the decimal options. For
/// an unsigned number it never fails (the crate only refuses negative
/// numbers); its text is named by `human_size_text`.
#[verifier::external_body]
pub(crate) fn human_size(bytes: u64) -> (r: String)
    ensures
        r@ == human_size_text(bytes),
{
    bytes.file_size(humansize::file_size_opts::DECIMAL).unwrap()
}

/// Calls `humantime::format_duration` on a duration of `secs` seconds; its
/// text is named by `human_duration_text`.
#[verifier::external_body]
pub(crate) fn human_duration(secs: u64) -> (r: String)
    ensures
        r@ == human_duration_text(secs),
{
    humantime::format_duration(std::time::Duration::from_secs(secs)).to_string()
}

/// The progress in the current file, in percent.
pub open spec fn file_percent(p: ProgressView) -> nat {
    let size = if p.file_size < 1 {
        1nat
    } else {
        p.file_size as nat
    };
    (p.file_done * 100 / size as int) as nat
}

/// The start of a progress line: percent and file index.
pub open spec fn progress_head(p: ProgressView) -> Seq<char> {
    pad_left(decimal(file_percent(p)), 3, ' ') + "% "@ + decimal(p.index as nat) + "/"@
        + decimal(p.num_files as nat) + " "@
}

/// The end of a progress line: bytes done, speeds, elapsed time and time left.
pub open spec fn progress_tail(p: ProgressView) -> Seq<char> {
    " "@ + human_size_text(p.total_done as u64) + " "@ + human_size_text(
        p.current_speed as u64,
    ) + "/s avg "@ + human_size_text(p.average_speed as u64) + "/s elapsed "@
        + spec_human_seconds(p.elapsed as nat) + " eta "@ + spec_human_seconds(p.eta as nat)
}

/// The width left for the file name in a line of `line_width` columns (one
/// column is kept free; none is left when the rest does not fit).
pub open spec fn file_width(p: ProgressView, line_width: usize) -> nat {
    let used = progress_head(p).len() + progress_tail(p).len() + 1;
    if line_width >= used {
        (line_width - used) as nat
    } else {
        0
    }
}

/// One line of transfer progress, `line_width` columns wide: the file name
/// is cut (as bytes) and padded to the width left by the rest.
pub open spec fn spec_progress_line(p: ProgressView, line_width: usize) -> Seq<char> {
    let w = file_width(p, line_width);
    progress_head(p) + pad_right(spec_truncate_lossy(p.current_file, w), w) + progress_tail(p)
}

/// One line of transfer progress for a terminal of `line_width` columns.
pub fn progress_line(progress: &Progress, line_width: usize) -> (r: String)
    requires
        progress.file_done * 100 <= usize::MAX,
    ensures
        r@ == spec_progress_line(progress@, line_width),
{
    let file_size = if progress.file_size < 1 {
        1
    } else {
        progress.file_size
    };
    let percent = (progress.file_done * 100) / file_size;
    let mut head = String::new();
    let percent_str = decimal_string(percent as u64);
    push_padded_left(&mut head, percent_str.as_str(), 3, ' ');
    push_str(&mut head, "% ");
    push_decimal(&mut head, progress.index as u64);
    push_str(&mut head, "/");
    push_decimal(&mut head, progress.num_files as u64);
    push_str(&mut head, " ");
    let mut tail = String::new();
    push_str(&mut tail, " ");
    push_str(&mut tail, human_size(progress.total_done as u64).as_str());
    push_str(&mut tail, " ");
    push_str(&mut tail, human_size(progress.current_speed as u64).as_str());
    push_str(&mut tail, "/s avg ");
    push_str(&mut tail, human_size(progress.average_speed as u64).as_str());
    push_str(&mut tail, "/s elapsed ");
    push_str(&mut tail, human_seconds(progress.elapsed).as_str());
    push_str(&mut tail, " eta ");
    push_str(&mut tail, human_seconds(progress.eta).as_str());
    proof {
        assert(head@ =~= progress_head(progress@));
        assert(tail@ =~= progress_tail(progress@));
    }
    let head_len = head.as_str().unicode_len();
    let tail_len = tail.as_str().unicode_len();
    let width = if head_len < line_width && tail_len < line_width - head_len && 1 <= line_width
        - head_len - tail_len {
        line_width - head_len - tail_len - 1
    } else {
        0
    };
    proof {
        assert(width == file_width(progress@, line_width));
    }
    let file = truncate_lossy(progress.current_file.as_str(), width);
    let mut r = head;
    push_padded_right(&mut r, file.as_str(), width);
    push_str(&mut r, tail.as_str());
    proof {
        assert(r@ =~= spec_progress_line(progress@, line_width));
    }
    r
}

/// The scanning line, padded with spaces to `width` columns so that it
/// covers a previous, longer line.
pub fn padded_scanning_line(info: &WalkInfo, width: usize) -> (r: String)
    requires
        info.excluded_files + info.excluded_dirs <= u64::MAX,
    ensures
        r@ == pad_right(spec_scanning_line(*info), width as nat),
{
    let line = scanning_line(info);
    let mut r = String::new();
    push_padded_right(&mut r, line.as_str(), width);
    proof {
        assert(r@ =~= pad_right(spec_scanning_line(*info), width as nat));
    }
    r
}

/// The lines printed at the end of a synchronization.
pub struct Summary {
    /// How many entries were synchronized, and how many were up to date
    pub synced: String,
    /// What was done to them
    pub details: String,
    /// What the filters skipped, if they skipped anything
    pub skipped: Option<String>,
    /// How much was copied, in how long, and how fast
    pub transfer: String,
    /// How many errors occurred, if any did
    pub errors: Option<String>,
}

/// The average speed of a whole run, in bytes per second.
pub open spec fn run_average_speed(stats: Stats) -> u64 {
    let secs = if stats.duration_secs == 0 {
        1
    } else {
        stats.duration_secs as int
    };
    (stats.total_transfered as int / secs) as u64
}

/// The first summary line, after its check mark.
pub open spec fn summary_synced(stats: Stats) -> Seq<char> {
    " Synced "@ + decimal(stats.num_synced as nat) + " files ("@ + decimal(
        stats.up_to_date as nat,
    ) + " up to date)"@
}

/// What was done to the entries.
pub open spec fn summary_details(stats: Stats) -> Seq<char> {
    decimal(stats.copied as nat) + " files copied, "@ + decimal(stats.symlink_created as nat)
        + " symlinks created, "@ + decimal(stats.symlink_updated as nat)
        + " symlinks updated"@
}

/// What the filters skipped.
pub open spec fn summary_skipped(stats: Stats) -> Seq<char> {
    decimal(stats.excluded_files as nat) + " files skipped by filters ("@ + decimal(
        stats.excluded_dirs as nat,
    ) + " directories pruned)"@
}

/// How much was copied, in how long, and how fast.
pub open spec fn summary_transfer(stats: Stats) -> Seq<char> {
    human_size_text(stats.total_transfered) + " copied in "@ + human_duration_text(
        stats.duration_secs,
    ) + " (avg "@ + human_size_text(run_average_speed(stats)) + "/s)"@
}

/// How many errors occurred.
pub open spec fn summary_errors(stats: Stats) -> Seq<char> {
    decimal(stats.errors as nat) + " errors occurred"@
}

/// The lines printed at the end of a synchronization.
pub fn summary(stats: &Stats) -> (r: Summary)
    ensures
        r.synced@ == summary_synced(*stats),
        r.details@ == summary_details(*stats),
        r.skipped is Some <==> (stats.excluded_files > 0 || stats.excluded_dirs > 0),
        r.skipped matches Some(s) ==> s@ == summary_skipped(*stats),
        r.transfer@ == summary_transfer(*stats),
        r.errors is Some <==> stats.errors != 0,
        r.errors matches Some(s) ==> s@ == summary_errors(*stats),
{
    let mut synced = String::new();
    push_str(&mut synced, " Synced ");
    push_decimal(&mut synced, stats.num_synced);
    push_str(&mut synced, " files (");
    push_decimal(&mut synced, stats.up_to_date);
    push_str(&mut synced, " up to date)");
    let mut details = String::new();
    push_decimal(&mut details, stats.copied);
    push_str(&mut details, " files copied, ");
    push_decimal(&mut details, stats.symlink_created);
    push_str(&mut details, " symlinks created, ");
    push_decimal(&mut details, stats.symlink_updated);
    push_str(&mut details, " symlinks updated");
    let skipped = if stats.excluded_files > 0 || stats.excluded_dirs > 0 {
        let mut s = String::new();
        push_decimal(&mut s, stats.excluded_files);
        push_str(&mut s, " files skipped by filters (");
        push_decimal(&mut s, stats.excluded_dirs);
        push_str(&mut s, " directories pruned)");
        proof {
            assert(s@ =~= summary_skipped(*stats));
        }
        Some(s)
    } else {
        None
    };
    let secs = if stats.duration_secs == 0 {
        1
    } else {
        stats.duration_secs
    };
    let mut transfer = human_size(stats.total_transfered);
    push_str(&mut transfer, " copied in ");
    push_str(&mut transfer, human_duration(stats.duration_secs).as_str());
    push_str(&mut transfer, " (avg ");
    push_str(&mut transfer, human_size(stats.total_transfered / secs).as_str());
    push_str(&mut transfer, "/s)");
    let errors = if stats.errors != 0 {
        let mut s = String::new();
        push_decimal(&mut s, stats.errors);
        push_str(&mut s, " errors occurred");
        proof {
            assert(s@ =~= summary_errors(*stats));
        }
        Some(s)
    } else {
        None
    };
    proof {
        assert(synced@ =~= summary_synced(*stats));
        assert(details@ =~= summary_details(*stats));
        assert(transfer@ =~= summary_transfer(*stats));
    }
    Summary { synced, details, skipped, transfer, errors }
}

} // verus!
