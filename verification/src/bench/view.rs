//! What the dashboard looks like: its texts, and what part of a log it shows.

use vstd::prelude::*;

use crate::bench::{Board, JobStats, Trial, TrialStatus};
use crate::bench;
use crate::bench::log::LogKind;
use crate::text;

verus! {

#[derive(Debug, Clone, Copy, PartialEq, Eq, Structural)]
pub struct Rgb {
    pub r: u8,
    pub g: u8,
    pub b: u8,
}

pub open spec fn rgb(r: u8, g: u8, b: u8) -> Rgb {
    Rgb { r, g, b }
}

fn color(r: u8, g: u8, b: u8) -> (c: Rgb)
    ensures
        c == rgb(r, g, b),
{
    Rgb { r, g, b }
}

/// The colour of the outcome of a trial.
pub open spec fn status_color(s: TrialStatus) -> Rgb {
    match s {
        TrialStatus::Passed => rgb(100, 200, 100),
        TrialStatus::Failed => rgb(220, 80, 80),
        TrialStatus::Running => rgb(220, 180, 80),
        TrialStatus::Pending => rgb(100, 100, 110),
    }
}

/// The sign and the colour of the outcome of a trial.
pub fn status_mark(s: TrialStatus) -> (r: (&'static str, Rgb))
    ensures
        r.0@ == match s {
            TrialStatus::Passed => "✅"@,
            TrialStatus::Failed => "❌"@,
            TrialStatus::Running => "⏳"@,
            TrialStatus::Pending => "○ "@,
        },
        r.1 == status_color(s),
{
    match s {
        TrialStatus::Passed => ("✅", color(100, 200, 100)),
        TrialStatus::Failed => ("❌", color(220, 80, 80)),
        TrialStatus::Running => ("⏳", color(220, 180, 80)),
        TrialStatus::Pending => ("○ ", color(100, 100, 110)),
    }
}

/// The sign and the colour of an assertion, by the outcome of its trial.
pub fn assertion_mark(s: Option<TrialStatus>) -> (r: (&'static str, Rgb))
    ensures
        match s {
            Some(TrialStatus::Passed) => r.0@ == "✓"@ && r.1 == status_color(TrialStatus::Passed),
            Some(TrialStatus::Failed) => r.0@ == "✗"@ && r.1 == status_color(TrialStatus::Failed),
            _ => r.0@ == "○"@ && r.1 == status_color(TrialStatus::Pending),
        },
{
    match s {
        Some(TrialStatus::Passed) => ("✓", color(100, 200, 100)),
        Some(TrialStatus::Failed) => ("✗", color(220, 80, 80)),
        _ => ("○", color(100, 100, 110)),
    }
}

/// The colour of a line of a log.
pub fn log_color(k: LogKind) -> (c: Rgb)
    ensures
        c == match k {
            LogKind::Thinking => rgb(80, 80, 100),
            LogKind::Text => rgb(170, 200, 240),
            LogKind::ToolCall => rgb(140, 160, 220),
            LogKind::ToolOk => rgb(120, 190, 120),
            LogKind::ToolErr => rgb(220, 80, 80),
            LogKind::ToolBody => rgb(100, 100, 110),
            LogKind::Nudge => rgb(200, 160, 80),
            LogKind::Tokens => rgb(80, 80, 100),
        },
{
    match k {
        LogKind::Thinking => color(80, 80, 100),
        LogKind::Text => color(170, 200, 240),
        LogKind::ToolCall => color(140, 160, 220),
        LogKind::ToolOk => color(120, 190, 120),
        LogKind::ToolErr => color(220, 80, 80),
        LogKind::ToolBody => color(100, 100, 110),
        LogKind::Nudge => color(200, 160, 80),
        LogKind::Tokens => color(80, 80, 100),
    }
}

/// A text that fits into so many bytes, or its start with dots behind it.
pub open spec fn fitted(s: Seq<char>, max: int) -> Seq<char> {
    if text::utf8_len(s) > max {
        text::clip(
            s,
            if max > 0 {
                max - 1
            } else {
                0
            },
        ) + "…"@
    } else {
        s
    }
}

/// A text that fits into so many bytes, or its start with dots behind it.
pub fn fit(s: &str, max: usize) -> (r: String)
    ensures
        r@ == fitted(s@, max as int),
{
    if text::byte_len(s) > max {
        let n: usize = if max > 0 {
            max - 1
        } else {
            0
        };
        let short = text::clip_bytes(s, n);
        text::cat2(&short, "…")
    } else {
        s.to_owned()
    }
}

pub open spec fn less(a: int, b: int) -> int {
    if a > b {
        a - b
    } else {
        0
    }
}

/// The name of a task in a list of a width.
pub fn task_label(t: &Trial, width: u16) -> (r: String)
    ensures
        r@ == fitted(t.task@, less(width as int, 8)),
{
    let max: usize = if width > 8 {
        (width - 8) as usize
    } else {
        0
    };
    fit(&t.task, max)
}

/// An assertion in a list of a width.
pub fn assertion_label(said: &str, width: u16) -> (r: String)
    ensures
        r@ == fitted(said@, less(width as int, 6)),
{
    let max: usize = if width > 6 {
        (width - 6) as usize
    } else {
        0
    };
    fit(said, max)
}

/// Two digits at least.
pub open spec fn two_digits(n: nat) -> Seq<char> {
    if n < 10 {
        "0"@ + text::decimal(n)
    } else {
        text::decimal(n)
    }
}

fn two(n: u64) -> (r: String)
    ensures
        r@ == two_digits(n as nat),
{
    let s = text::number(n);
    if n < 10 {
        text::cat2("0", &s)
    } else {
        s
    }
}

/// A time in seconds as hours, minutes and seconds.
pub open spec fn clock(secs: nat) -> Seq<char> {
    two_digits(secs / 3600) + ":"@ + two_digits((secs % 3600) / 60) + ":"@ + two_digits(secs % 60)
}

/// How long a job has run: since its start by the calendar, or by the clock, or
/// not at all.
pub fn elapsed(wall_secs: Option<i64>, clock_secs: Option<u64>) -> (r: String)
    ensures
        r@ == match wall_secs {
            Some(n) => clock(
                if n > 0 {
                    n as nat
                } else {
                    0
                },
            ),
            None => match clock_secs {
                Some(n) => clock(n as nat),
                None => "00:00:00"@,
            },
        },
{
    let secs: u64 = match wall_secs {
        Some(n) => if n > 0 {
            n as u64
        } else {
            0
        },
        None => match clock_secs {
            Some(n) => n,
            None => {
                return "00:00:00".to_owned();
            },
        },
    };
    let h = two(secs / 3600);
    let m = two((secs % 3600) / 60);
    let s = two(secs % 60);
    text::cat5(&h, ":", &m, ":", &s)
}

/// The name of a model without the path before it.
pub fn model_short(model: &str) -> (r: String)
    ensures
        r@ == text::behind_last(model@, "/"@),
{
    text::after_last(model, "/")
}

/// Whether a job is over.
pub fn status_icon(finished: bool) -> (r: &'static str)
    ensures
        r@ == (if finished {
            "✓ done"@
        } else {
            "⏳ running"@
        }),
{
    if finished {
        "✓ done"
    } else {
        "⏳ running"
    }
}

/// How many lines the contract takes under the list of trials.
pub open spec fn contract_height(assertions: int, height: int) -> int {
    if assertions == 0 {
        0
    } else if assertions + 3 < height / 2 {
        assertions + 3
    } else {
        height / 2
    }
}

/// How many lines the list of trials and the contract under it take.
pub fn left_heights(assertions: usize, height: u16) -> (r: (u16, u16))
    ensures
        r.1 == contract_height(assertions as int, height as int),
        r.0 + r.1 == height,
{
    let half: u16 = height / 2;
    let lower: u16 = if assertions == 0 {
        0
    } else if assertions < 0x1_0000 && assertions + 3 < half as usize {
        (assertions + 3) as u16
    } else {
        half
    };
    (height - lower, lower)
}

/// The title of the list of trials.
pub fn trials_title(stats: &JobStats) -> (r: String)
    ensures
        r@ == " Trials ("@ + text::decimal(stats.completed as nat) + "/"@ + text::decimal(
            stats.total as nat,
        ) + ") "@,
{
    let a = text::number(stats.completed as u64);
    let b = text::number(stats.total as u64);
    text::cat5(" Trials (", &a, "/", &b, ") ")
}

/// The title of the log.
pub fn log_title(b: &Board) -> (r: String)
    ensures
        r@ == match bench::selected_in(*b) {
            Some(i) => " "@ + b.trials@[i].name@ + " "@,
            None => " Select a trial "@,
        },
{
    match b.selected_trial() {
        Some(t) => text::cat3(" ", &t.name, " "),
        None => " Select a trial ".to_owned(),
    }
}

/// The part of a log of `total` lines that a box of `height` lines shows when
/// the line at `scroll` is its last: from where to where.
pub open spec fn log_window(total: int, height: int, scroll: int) -> (int, int) {
    let end = if scroll + 1 < total {
        scroll + 1
    } else {
        total
    };
    (less(end, less(height, 2)), end)
}

/// The part of the log that a box shows: from where to where.
pub fn shown_log(b: &Board, height: u16) -> (r: (usize, usize))
    ensures
        (r.0 as int, r.1 as int) == log_window(
            b.log_lines@.len() as int,
            height as int,
            b.log_scroll as int,
        ),
        r.0 <= r.1 <= b.log_lines@.len(),
{
    let total: usize = b.log_lines.len();
    let end: usize = if b.log_scroll < total && b.log_scroll + 1 < total {
        b.log_scroll + 1
    } else {
        total
    };
    let room: usize = if height > 2 {
        (height - 2) as usize
    } else {
        0
    };
    let start: usize = if end > room {
        end - room
    } else {
        0
    };
    (start, end)
}

/// Where one is in a log that is longer than its box.
pub fn log_position(b: &Board, height: u16) -> (r: String)
    ensures
        ({
            let total = b.log_lines@.len() as int;
            r@ == (if total > less(height as int, 2) {
                " "@ + text::decimal(
                    log_window(total, height as int, b.log_scroll as int).1 as nat,
                ) + "/"@ + text::decimal(total as nat) + " "@
            } else {
                Seq::empty()
            })
        }),
{
    let total: usize = b.log_lines.len();
    let room: usize = if height > 2 {
        (height - 2) as usize
    } else {
        0
    };
    let (_, end) = shown_log(b, height);
    if total > room {
        let a = text::number(end as u64);
        let c = text::number(total as u64);
        text::cat5(" ", &a, "/", &c, " ")
    } else {
        let r = String::new();
        assert(r@ =~= Seq::<char>::empty());
        r
    }
}

/// No more of a log is shown than fits.
pub proof fn law_window_fits(total: int, height: int, scroll: int)
    requires
        0 <= total,
        0 <= scroll,
        height >= 2,
    ensures
        ({
            let (start, end) = log_window(total, height, scroll);
            &&& 0 <= start <= end <= total
            &&& end - start <= height - 2
        }),
{
}

/// The pieces of the footer: how far the job is, and how many trials passed,
/// failed and run.
#[derive(Debug)]
pub struct Footer {
    pub done: String,
    pub passed: String,
    pub failed: String,
    pub running: String,
    /// The mean reward, or nothing.
    pub mean: String,
}

/// The footer of a board. The mean has three digits behind the point.
pub fn footer(b: &Board, mean: &Option<String>) -> (r: Footer)
    ensures
        r.done@ == text::decimal(b.stats.completed as nat) + "/"@ + text::decimal(
            b.stats.total as nat,
        ) + " done"@,
        r.passed@ == text::decimal(bench::count_in(b.trials@, TrialStatus::Passed)) + "✅"@,
        r.failed@ == text::decimal(bench::count_in(b.trials@, TrialStatus::Failed)) + "❌"@,
        r.running@ == text::decimal(bench::count_in(b.trials@, TrialStatus::Running)) + "⏳"@,
        r.mean@ == match *mean {
            Some(m) => "  │  mean "@ + m@,
            None => Seq::empty(),
        },
{
    let a = text::number(b.stats.completed as u64);
    let c = text::number(b.stats.total as u64);
    let p = text::number(bench::count_trials(&b.trials, TrialStatus::Passed) as u64);
    let f = text::number(bench::count_trials(&b.trials, TrialStatus::Failed) as u64);
    let n = text::number(bench::count_trials(&b.trials, TrialStatus::Running) as u64);
    let mean = match mean {
        Some(m) => text::cat2("  │  mean ", m),
        None => {
            let r = String::new();
            assert(r@ =~= Seq::<char>::empty());
            r
        },
    };
    Footer {
        done: text::cat4(&a, "/", &c, " done"),
        passed: text::cat2(&p, "✅"),
        failed: text::cat2(&f, "❌"),
        running: text::cat2(&n, "⏳"),
        mean,
    }
}

pub const KEYS_TEXT: &'static str =
    "[q]uit  [↑↓]trial  [PgUp/Dn]log  [g/G]top/bot  [K]ill  [r]eload";

/// Whether a message that was set some milliseconds ago is still shown.
pub fn shows_message(age_ms: Option<u64>) -> (r: bool)
    ensures
        r == (age_ms matches Some(n) && n < 4000),
{
    match age_ms {
        Some(n) => n < 4000,
        None => false,
    }
}

/// Text that fits is shown whole; else as much of it as fits before a mark.
pub proof fn law_fitted(s: Seq<char>, max: int)
    requires
        max >= 1,
    ensures
        text::utf8_len(s) <= max ==> fitted(s, max) == s,
        text::utf8_len(s) > max ==> fitted(s, max).last() == '…' && fitted(
            s,
            max,
        ).drop_last().is_prefix_of(s) && text::utf8_len(fitted(s, max).drop_last()) <= max - 1,
{
    reveal_strlit("…");
    text::law_clip(s, max - 1);
    let c = text::clip(s, max - 1);
    assert((c + "…"@).drop_last() =~= c);
    assert((c + "…"@).last() == '…');
}

/// Time is shown in hours, minutes and seconds, which add up to it.
pub proof fn law_clock(h: nat, m: nat, s: nat)
    requires
        m < 60,
        s < 60,
    ensures
        clock(h * 3600 + m * 60 + s) == two_digits(h) + ":"@ + two_digits(m) + ":"@ + two_digits(s),
        two_digits(s).len() == 2,
{
    let n = h * 3600 + m * 60 + s;
    assert(n / 3600 == h && (n % 3600) / 60 == m && n % 60 == s);
    reveal_with_fuel(text::decimal, 3);
    reveal_strlit("0");
}

/// The lines that are shown end with the one that was scrolled to, or with the
/// last.
pub proof fn law_log_window(total: int, height: int, scroll: int)
    requires
        0 <= total,
        0 <= scroll,
        height >= 2,
    ensures
        scroll < total ==> log_window(total, height, scroll).1 == scroll + 1,
        scroll >= total ==> log_window(total, height, scroll).1 == total,
        ({
            let (start, end) = log_window(total, height, scroll);
            end >= height - 2 ==> end - start == height - 2
        }),
        ({
            let (start, end) = log_window(total, height, scroll);
            end < height - 2 ==> start == 0
        }),
{
}

/// The assertions take their room, but never more than half.
pub proof fn law_heights(n: usize, height: u16, r: (u16, u16))
    requires
        call_ensures(left_heights, (n, height), r),
    ensures
        r.0 + r.1 == height,
        n == 0 ==> r.1 == 0,
        r.1 <= height / 2,
        n > 0 && n + 3 < height / 2 ==> r.1 == n + 3,
{
}

/// Each status has a mark of its own.
pub proof fn law_status_marks(a: TrialStatus, b: TrialStatus, r: (&'static str, Rgb), s: (&'static str, Rgb))
    requires
        call_ensures(status_mark, (a,), r),
        call_ensures(status_mark, (b,), s),
        a != b,
    ensures
        r.0@ != s.0@,
        r.1 != s.1,
        a is Passed ==> r.0@ == "✅"@,
        a is Failed ==> r.0@ == "❌"@,
{
    reveal_strlit("✅");
    reveal_strlit("❌");
    reveal_strlit("⏳");
    reveal_strlit("○ ");
    assert("✅"@[0] == '✅' && "❌"@[0] == '❌' && "⏳"@[0] == '⏳' && "○ "@[0] == '○');
}

/// A message is shown for four seconds.
pub proof fn law_messages_fade(age: Option<u64>, r: bool)
    requires
        call_ensures(shows_message, (age,), r),
    ensures
        age matches Some(n) ==> (n < 4000 ==> r) && (n >= 4000 ==> !r),
        age is None ==> !r,
{
}

} // verus!
