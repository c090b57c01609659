//! The dashboard for benchmark runs: its trials, and how one moves among them.

use vstd::prelude::*;

use crate::bench::log::LogLine;
use crate::json;
use crate::json::Json;
use crate::outside;
use crate::text;

pub mod log;
pub mod view;

verus! {

// ---------------------------------------------------------------------------
// Trials
// ---------------------------------------------------------------------------

#[derive(Debug, Clone, Copy, PartialEq, Eq, Structural)]
pub enum TrialStatus {
    Pending,
    Running,
    Passed,
    Failed,
}

/// An assertion that a trial has to meet.
#[derive(Debug)]
pub struct ContractAssertion {
    pub id: String,
    pub text: String,
}

/// One attempt at a task.
#[derive(Debug)]
pub struct Trial {
    pub name: String,
    pub task: String,
    pub status: TrialStatus,
    /// The reward with one digit behind the point, when there is one.
    pub reward: Option<String>,
    pub contract: Vec<ContractAssertion>,
}

/// How many trials are where.
#[derive(Debug, Clone, Copy, PartialEq, Eq, Structural)]
pub struct JobStats {
    pub total: usize,
    pub completed: usize,
    pub errored: usize,
    pub running: usize,
}

/// The task of a trial, by the name of its directory: what stands before the
/// last two underscores.
pub open spec fn task_in(dir: Seq<char>) -> Option<Seq<char>> {
    match text::last_at(dir, "__"@, dir.len() as int) {
        Some(i) => Some(dir.take(i)),
        None => None,
    }
}

/// The task of a trial, by the name of its directory.
pub fn task_of(dir: &str) -> (r: Option<String>)
    ensures
        text::opt_text(r) == task_in(dir@),
{
    proof {
        text::lemma_last_at(dir@, "__"@, dir@.len() as int);
        reveal_strlit("__");
    }
    let rest = text::after_last(dir, "__");
    let v = text::chars(dir);
    let w = text::chars(&rest);
    let n: usize = v.len();
    if !text::contains(dir, "__") {
        proof {
            match text::last_at(dir@, "__"@, dir@.len() as int) {
                Some(i) => {
                    assert(text::at(dir@, "__"@, i));
                },
                None => {},
            }
        }
        return None;
    }
    proof {
        let j = choose|j: int| text::at(dir@, "__"@, j);
        assert(j <= dir@.len());
        assert(text::last_at(dir@, "__"@, dir@.len() as int) is Some);
    }
    let k: usize = n - w.len() - 2;
    let r = text::string_of(&v, 0, k);
    assert(r@ =~= dir@.take(k as int));
    Some(r)
}

/// Where a trial stands: it is over when there is a reward, and under way when
/// there are chats.
pub fn status_of(rewarded: bool, passed: bool, has_chats: bool) -> (r: TrialStatus)
    ensures
        r == (if rewarded {
            if passed {
                TrialStatus::Passed
            } else {
                TrialStatus::Failed
            }
        } else if has_chats {
            TrialStatus::Running
        } else {
            TrialStatus::Pending
        }),
{
    if rewarded {
        if passed {
            TrialStatus::Passed
        } else {
            TrialStatus::Failed
        }
    } else if has_chats {
        TrialStatus::Running
    } else {
        TrialStatus::Pending
    }
}

/// How many trials are in a state.
pub open spec fn count_in(v: Seq<Trial>, s: TrialStatus) -> nat
    decreases v.len(),
{
    if v.len() == 0 {
        0
    } else {
        count_in(v.drop_last(), s) + (if v.last().status == s {
            1nat
        } else {
            0nat
        })
    }
}

/// How many trials are in a state.
pub fn count_trials(v: &Vec<Trial>, s: TrialStatus) -> (n: usize)
    ensures
        n == count_in(v@, s),
{
    let mut n: usize = 0;
    let mut i: usize = 0;
    assert(v@.take(0) =~= Seq::<Trial>::empty());
    while i < v.len()
        invariant
            i <= v.len(),
            n <= i,
            n == count_in(v@.take(i as int), s),
        decreases v.len() - i,
    {
        assert(v@.take(i + 1).drop_last() =~= v@.take(i as int));
        if v[i].status == s {
            n = n + 1;
        }
        i = i + 1;
    }
    assert(v@.take(i as int) =~= v@);
    n
}

// ---------------------------------------------------------------------------
// The order of trials
// ---------------------------------------------------------------------------

/// Some trials, in order, with one more behind all that do not come after it.
pub open spec fn placed(v: Seq<Trial>, t: Trial) -> Seq<Trial>
    decreases v.len(),
{
    if v.len() == 0 {
        seq![t]
    } else if text::ordered(v.last().name@, t.name@) {
        v.push(t)
    } else {
        placed(v.drop_last(), t).push(v.last())
    }
}

fn place(v: &mut Vec<Trial>, t: Trial)
    ensures
        final(v)@ == placed(old(v)@, t),
{
    let ghost start = v@;
    let mut i: usize = v.len();
    while i > 0 && !text::text_le(&v[i - 1].name, &t.name)
        invariant
            i <= v.len(),
            v@ == start,
            forall|k: int|
                i <= k < v@.len() ==> !text::ordered((#[trigger] v@[k]).name@, t.name@),
        decreases i,
    {
        i = i - 1;
    }
    proof {
        let a = start.take(i as int);
        let b = start.skip(i as int);
        assert(start =~= a + b);
        lemma_placed(a, b, t);
        assert(placed(a, t) == a.push(t)) by {
            if a.len() > 0 {
                assert(a.last() == start[i - 1]);
            } else {
                assert(a.push(t) =~= seq![t]);
            }
        }
        assert(start.insert(i as int, t) =~= a.push(t) + b);
    }
    v.insert(i, t);
}

proof fn lemma_placed(v: Seq<Trial>, w: Seq<Trial>, t: Trial)
    requires
        forall|i: int| 0 <= i < w.len() ==> !text::ordered((#[trigger] w[i]).name@, t.name@),
    ensures
        placed(v + w, t) == placed(v, t) + w,
    decreases w.len(),
{
    if w.len() > 0 {
        let rest = w.drop_last();
        assert((v + w).drop_last() =~= v + rest);
        assert((v + w).last() == w.last());
        assert(!text::ordered(w[w.len() - 1].name@, t.name@));
        lemma_placed(v, rest, t);
        assert(placed(v, t) + w =~= (placed(v, t) + rest).push(w.last()));
    } else {
        assert(v + w =~= v);
        assert(placed(v, t) + w =~= placed(v, t));
    }
}

// ---------------------------------------------------------------------------
// The board
// ---------------------------------------------------------------------------

/// What the dashboard shows.
#[derive(Debug)]
pub struct Board {
    pub job_name: String,
    pub model: String,
    pub trials: Vec<Trial>,
    pub stats: JobStats,
    pub selected: Option<usize>,
    pub log_scroll: usize,
    pub log_lines: Vec<LogLine>,
    pub finished: bool,
    /// The trial whose log is shown, and how many chats it had then.
    pub last_log_trial: String,
    pub last_log_file_count: usize,
}

/// The last line of a log.
pub open spec fn last_line(n: nat) -> usize {
    if n > 0 {
        (n - 1) as usize
    } else {
        0
    }
}

/// A board with the log to be loaded anew, at its end.
pub open spec fn log_reset(b: Board, now: Board) -> bool {
    &&& now.log_scroll == last_line(b.log_lines@.len())
    &&& now.last_log_file_count == 0
    &&& now == (Board {
        selected: now.selected,
        log_scroll: now.log_scroll,
        last_log_file_count: 0,
        ..b
    })
}

/// The selected trial, if there is one.
pub open spec fn selected_in(b: Board) -> Option<int> {
    match b.selected {
        Some(i) => if i < b.trials@.len() {
            Some(i as int)
        } else {
            None
        },
        None => None,
    }
}

/// A key of the dashboard.
#[derive(Debug, Clone, Copy, PartialEq, Eq, Structural)]
pub enum BoardKey {
    Quit,
    Down,
    Up,
    PageDown,
    PageUp,
    Bottom,
    Top,
    Reload,
    Kill,
    Other,
}

/// The key that a character stands for, alone or with Control.
pub fn key_of(c: char, ctrl: bool) -> (r: BoardKey)
    ensures
        r == (if c == 'q' || (c == 'c' && ctrl) {
            BoardKey::Quit
        } else if c == 'j' {
            BoardKey::Down
        } else if c == 'k' {
            BoardKey::Up
        } else if c == 'd' && ctrl {
            BoardKey::PageDown
        } else if c == 'u' && ctrl {
            BoardKey::PageUp
        } else if c == 'G' {
            BoardKey::Bottom
        } else if c == 'g' {
            BoardKey::Top
        } else if c == 'r' {
            BoardKey::Reload
        } else if c == 'K' {
            BoardKey::Kill
        } else {
            BoardKey::Other
        }),
{
    if c == 'q' || (c == 'c' && ctrl) {
        BoardKey::Quit
    } else if c == 'j' {
        BoardKey::Down
    } else if c == 'k' {
        BoardKey::Up
    } else if c == 'd' && ctrl {
        BoardKey::PageDown
    } else if c == 'u' && ctrl {
        BoardKey::PageUp
    } else if c == 'G' {
        BoardKey::Bottom
    } else if c == 'g' {
        BoardKey::Top
    } else if c == 'r' {
        BoardKey::Reload
    } else if c == 'K' {
        BoardKey::Kill
    } else {
        BoardKey::Other
    }
}

/// A position in a log, some lines further down, as far as there are lines.
pub open spec fn scrolled_down(at: int, lines: int, by: nat) -> int
    decreases by,
{
    if by == 0 {
        at
    } else {
        let before = scrolled_down(at, lines, (by - 1) as nat);
        if before + 1 < lines {
            before + 1
        } else {
            before
        }
    }
}

impl Board {
    /// An empty board.
    pub fn new(job_name: String, model: String) -> (r: Board)
        ensures
            r.job_name == job_name,
            r.model == model,
            r.trials@.len() == 0,
            r.stats == (JobStats { total: 0, completed: 0, errored: 0, running: 0 }),
            r.selected is None,
            r.log_scroll == usize::MAX,
            r.log_lines@.len() == 0,
            !r.finished,
            r.last_log_trial@.len() == 0,
            r.last_log_file_count == 0,
    {
        Board {
            job_name,
            model,
            trials: Vec::new(),
            stats: JobStats { total: 0, completed: 0, errored: 0, running: 0 },
            selected: None,
            log_scroll: usize::MAX,
            log_lines: Vec::new(),
            finished: false,
            last_log_trial: String::new(),
            last_log_file_count: 0,
        }
    }

    /// The selected trial, if there is one.
    pub fn selected_trial(&self) -> (r: Option<&Trial>)
        ensures
            match r {
                Some(t) => selected_in(*self) matches Some(i) && *t == self.trials@[i],
                None => selected_in(*self) is None,
            },
    {
        match self.selected {
            Some(i) => if i < self.trials.len() {
                Some(&self.trials[i])
            } else {
                None
            },
            None => None,
        }
    }

    fn reset_log(&mut self)
        ensures
            log_reset(*old(self), *final(self)),
            final(self).selected == old(self).selected,
    {
        let n: usize = self.log_lines.len();
        self.log_scroll = if n > 0 {
            n - 1
        } else {
            0
        };
        self.last_log_file_count = 0;
    }

    /// Selects the next trial; the last one stays selected.
    pub fn scroll_down(&mut self)
        ensures
            ({
                let n = old(self).trials@.len();
                if n == 0 {
                    *final(self) == *old(self)
                } else {
                    log_reset(*old(self), *final(self)) && final(self).selected == Some(
                        match old(self).selected {
                            Some(i) => if i < n - 1 {
                                (i + 1) as usize
                            } else {
                                (n - 1) as usize
                            },
                            None => 0usize,
                        },
                    )
                }
            }),
    {
        let n: usize = self.trials.len();
        if n == 0 {
            return;
        }
        let next: usize = match self.selected {
            Some(i) => if i < n - 1 {
                i + 1
            } else {
                n - 1
            },
            None => 0,
        };
        self.selected = Some(next);
        self.reset_log();
    }

    /// Selects the trial before; the first one stays selected.
    pub fn scroll_up(&mut self)
        ensures
            log_reset(*old(self), *final(self)),
            final(self).selected == Some(
                match old(self).selected {
                    Some(i) => if i > 0 {
                        (i - 1) as usize
                    } else {
                        0usize
                    },
                    None => 0usize,
                },
            ),
    {
        let prev: usize = match self.selected {
            Some(i) => if i > 0 {
                i - 1
            } else {
                0
            },
            None => 0,
        };
        self.selected = Some(prev);
        self.reset_log();
    }

    /// Moves the log down by one line.
    pub fn log_scroll_down(&mut self)
        ensures
            final(self).log_scroll == scrolled_down(
                old(self).log_scroll as int,
                old(self).log_lines@.len() as int,
                1,
            ),
            *final(self) == (Board { log_scroll: final(self).log_scroll, ..*old(self) }),
    {
        proof {
            reveal_with_fuel(scrolled_down, 2);
        }
        let n: usize = self.log_lines.len();
        if self.log_scroll < usize::MAX && self.log_scroll + 1 < n {
            self.log_scroll = self.log_scroll + 1;
        }
    }

    /// Moves the log up by one line.
    pub fn log_scroll_up(&mut self)
        ensures
            final(self).log_scroll == (if old(self).log_scroll > 0 {
                old(self).log_scroll - 1
            } else {
                0
            }),
            *final(self) == (Board { log_scroll: final(self).log_scroll, ..*old(self) }),
    {
        if self.log_scroll > 0 {
            self.log_scroll = self.log_scroll - 1;
        }
    }

    /// Moves the log down by ten lines.
    pub fn log_page_down(&mut self)
        ensures
            final(self).log_scroll == scrolled_down(
                old(self).log_scroll as int,
                old(self).log_lines@.len() as int,
                10,
            ),
            *final(self) == (Board { log_scroll: final(self).log_scroll, ..*old(self) }),
    {
        let ghost start = *self;
        let mut i: u32 = 0;
        while i < 10
            invariant
                i <= 10,
                self.log_scroll == scrolled_down(
                    start.log_scroll as int,
                    start.log_lines@.len() as int,
                    i as nat,
                ),
                *self == (Board { log_scroll: self.log_scroll, ..start }),
            decreases 10 - i,
        {
            proof {
                reveal_with_fuel(scrolled_down, 2);
            }
            self.log_scroll_down();
            i = i + 1;
        }
    }

    /// Moves the log up by ten lines.
    pub fn log_page_up(&mut self)
        ensures
            final(self).log_scroll == (if old(self).log_scroll > 10 {
                old(self).log_scroll - 10
            } else {
                0
            }),
            *final(self) == (Board { log_scroll: final(self).log_scroll, ..*old(self) }),
    {
        self.log_scroll = if self.log_scroll > 10 {
            self.log_scroll - 10
        } else {
            0
        };
    }

    /// Moves the log to its last line.
    pub fn log_bottom(&mut self)
        ensures
            *final(self) == (Board {
                log_scroll: last_line(old(self).log_lines@.len()),
                ..*old(self)
            }),
    {
        let n: usize = self.log_lines.len();
        self.log_scroll = if n > 0 {
            n - 1
        } else {
            0
        };
    }

    /// Moves the log to its first line.
    pub fn log_top(&mut self)
        ensures
            *final(self) == (Board { log_scroll: 0, ..*old(self) }),
    {
        self.log_scroll = 0;
    }

    /// Whether the log is to be loaded: another trial is selected, or it has
    /// other chats than before.
    pub fn log_changed(&self, trial: &str, file_count: usize) -> (r: bool)
        ensures
            r == (trial@ != self.last_log_trial@ || file_count != self.last_log_file_count),
    {
        !text::same(trial, &self.last_log_trial) || file_count != self.last_log_file_count
    }

    /// Takes a log that was loaded. Where the end of the old one was shown, the
    /// end of the new one is.
    pub fn take_log(&mut self, lines: Vec<LogLine>, trial: &str, file_count: usize)
        ensures
            final(self).log_lines == lines,
            final(self).last_log_trial@ == trial@,
            final(self).last_log_file_count == file_count,
            ({
                let n = old(self).log_lines@.len() as int;
                let at_end = old(self).log_scroll + 5 >= (if n > 1 {
                    n
                } else {
                    1
                });
                final(self).log_scroll == (if at_end {
                    last_line(lines@.len())
                } else {
                    old(self).log_scroll
                })
            }),
            *final(self) == (Board {
                log_lines: final(self).log_lines,
                log_scroll: final(self).log_scroll,
                last_log_trial: final(self).last_log_trial,
                last_log_file_count: file_count,
                ..*old(self)
            }),
    {
        let n: usize = self.log_lines.len();
        let least: usize = if n > 1 {
            n
        } else {
            1
        };
        let at_end = self.log_scroll >= least || least - self.log_scroll <= 5;
        let m: usize = lines.len();
        self.log_lines = lines;
        self.last_log_trial = trial.to_owned();
        self.last_log_file_count = file_count;
        if at_end {
            self.log_scroll = if m > 0 {
                m - 1
            } else {
                0
            };
        }
    }
}

// ---------------------------------------------------------------------------
// Taking over trials
// ---------------------------------------------------------------------------

/// Some trials in the order of their names.
pub open spec fn sorted(v: Seq<Trial>) -> Seq<Trial>
    decreases v.len(),
{
    if v.len() == 0 {
        Seq::empty()
    } else {
        placed(sorted(v.drop_last()), v.last())
    }
}

fn sort_trials(v: Vec<Trial>) -> (r: Vec<Trial>)
    ensures
        r@ == sorted(v@),
{
    let ghost all = v@;
    let mut rest = v;
    let mut r: Vec<Trial> = Vec::new();
    let ghost mut done: int = 0;
    assert(all.skip(0) =~= all);
    assert(all.take(0) =~= Seq::<Trial>::empty());
    while rest.len() > 0
        invariant
            0 <= done <= all.len(),
            rest@ == all.skip(done),
            r@ == sorted(all.take(done)),
        decreases rest.len(),
    {
        let t = rest.remove(0);
        proof {
            assert(t == all[done]);
            assert(rest@ =~= all.skip(done + 1));
            assert(all.take(done + 1).drop_last() =~= all.take(done));
            done = done + 1;
        }
        place(&mut r, t);
    }
    assert(all.take(done) =~= all);
    r
}

/// Where the trial with a name stands, from the `i`th on.
pub open spec fn named_from(v: Seq<Trial>, name: Seq<char>, i: int) -> Option<int>
    decreases v.len() - i,
{
    if i < 0 || i >= v.len() {
        None
    } else if v[i].name@ == name {
        Some(i)
    } else {
        named_from(v, name, i + 1)
    }
}

/// Where the trial with a name stands.
pub fn find_trial(v: &Vec<Trial>, name: &str) -> (r: Option<usize>)
    ensures
        match r {
            Some(i) => i < v.len() && named_from(v@, name@, 0) == Some(i as int),
            None => named_from(v@, name@, 0) is None,
        },
{
    let mut i: usize = 0;
    while i < v.len()
        invariant
            i <= v.len(),
            named_from(v@, name@, 0) == named_from(v@, name@, i as int),
        decreases v.len() - i,
    {
        if text::same(&v[i].name, name) {
            return Some(i);
        }
        i = i + 1;
    }
    None
}

/// Which trial is selected after others were taken over: the one of the same
/// name, or else the first.
pub open spec fn reselected(b: Board, trials: Seq<Trial>) -> Option<usize> {
    let start = if b.selected is None && trials.len() > 0 {
        Some(0usize)
    } else {
        b.selected
    };
    match selected_in(b) {
        Some(i) => match named_from(trials, b.trials@[i].name@, 0) {
            Some(k) => Some(k as usize),
            None => start,
        },
        None => start,
    }
}

impl Board {
    /// Takes over the trials that were found, in the order of their names. The
    /// selected one stays selected.
    pub fn take_trials(&mut self, trials: Vec<Trial>)
        ensures
            final(self).trials@ == sorted(trials@),
            final(self).selected == reselected(*old(self), sorted(trials@)),
            *final(self) == (Board {
                trials: final(self).trials,
                selected: final(self).selected,
                ..*old(self)
            }),
    {
        let ghost start = *self;
        let name: Option<String> = match self.selected_trial() {
            Some(t) => Some(t.name.clone()),
            None => None,
        };
        let found = sort_trials(trials);
        self.trials = found;
        if self.selected.is_none() && self.trials.len() > 0 {
            self.selected = Some(0);
        }
        match &name {
            Some(n) => match find_trial(&self.trials, n) {
                Some(i) => {
                    self.selected = Some(i);
                },
                None => {},
            },
            None => {},
        }
    }
}

// ---------------------------------------------------------------------------
// Containers
// ---------------------------------------------------------------------------

/// The names, one on each line, that belong to a trial, whatever their case.
pub open spec fn belonging(lines: Seq<Seq<char>>, prefix: Seq<char>) -> Seq<Seq<char>>
    decreases lines.len(),
{
    if lines.len() == 0 {
        Seq::empty()
    } else if text::starts(outside::lowered(lines.last()), prefix) {
        belonging(lines.drop_last(), prefix).push(lines.last())
    } else {
        belonging(lines.drop_last(), prefix)
    }
}

/// The containers of a trial among some names, one on each line.
pub fn containers_of(trial: &str, names: &str) -> (r: Vec<String>)
    ensures
        text::texts(r@) == belonging(text::lines(names@), outside::lowered(trial@) + "-"@),
{
    let low = outside::to_lowercase(trial);
    let prefix = text::cat2(&low, "-");
    let lines = text::lines_of(names);
    let ghost all = text::texts(lines@);
    let mut r: Vec<String> = Vec::new();
    let mut i: usize = 0;
    assert(text::texts(r@) =~= belonging(all.take(0), prefix@));
    while i < lines.len()
        invariant
            i <= lines.len(),
            all == text::texts(lines@),
            text::texts(r@) == belonging(all.take(i as int), prefix@),
        decreases lines.len() - i,
    {
        assert(all.take(i + 1).drop_last() =~= all.take(i as int));
        assert(all.take(i + 1).last() == lines@[i as int]@);
        let l = outside::to_lowercase(&lines[i]);
        if text::starts_with(&l, &prefix) {
            let s = lines[i].clone();
            proof {
                text::lemma_texts_push(r@, s);
            }
            r.push(s);
        }
        i = i + 1;
    }
    assert(all.take(i as int) =~= all);
    r
}

/// The report when the containers could not be listed.
pub fn list_failed(reason: &str) -> (r: String)
    ensures
        r@ == "docker ps failed: "@ + reason@,
{
    text::cat2("docker ps failed: ", reason)
}

/// What the user is told when the containers of a trial were ended.
pub fn kill_report(trial: &str, killed: &Vec<String>, failed: &Vec<String>) -> (r: String)
    ensures
        r@ == (if killed@.len() == 0 && failed@.len() == 0 {
            "no containers found for "@ + trial@
        } else if failed@.len() == 0 {
            "killed: "@ + text::join(text::texts(killed@), ", "@)
        } else {
            "killed: "@ + text::join(text::texts(killed@), ", "@) + "  failed: "@ + text::join(
                text::texts(failed@),
                ", "@,
            )
        }),
{
    if killed.len() == 0 && failed.len() == 0 {
        text::cat2("no containers found for ", trial)
    } else if failed.len() == 0 {
        let a = text::join_with(killed, ", ");
        text::cat2("killed: ", &a)
    } else {
        let a = text::join_with(killed, ", ");
        let b = text::join_with(failed, ", ");
        text::cat4("killed: ", &a, "  failed: ", &b)
    }
}

// ---------------------------------------------------------------------------
// Jobs
// ---------------------------------------------------------------------------

/// What a job is called that was started at a time.
pub fn job_name(tasks: &Vec<String>, attempts: u32, time: &str) -> (r: String)
    ensures
        r@ == (if tasks@.len() == 0 {
            "all"@
        } else if tasks@.len() == 1 {
            tasks@[0]@
        } else {
            text::decimal(tasks@.len()) + "-tasks"@
        }) + "-"@ + text::decimal(attempts as nat) + "x-"@ + time@,
{
    let part = if tasks.len() == 0 {
        "all".to_owned()
    } else if tasks.len() == 1 {
        tasks[0].clone()
    } else {
        let n = text::number(tasks.len() as u64);
        text::cat2(&n, "-tasks")
    };
    let k = text::number(attempts as u64);
    text::cat5(&part, "-", &k, "x-", time)
}

/// The options that name the tasks of a job.
pub open spec fn task_options(tasks: Seq<Seq<char>>) -> Seq<Seq<char>>
    decreases tasks.len(),
{
    if tasks.len() == 0 {
        Seq::empty()
    } else {
        task_options(tasks.drop_last()).push("--include-task-name"@).push(tasks.last())
    }
}

/// The command line that starts a job.
pub open spec fn job_arguments(
    tasks: Seq<Seq<char>>,
    model: Seq<char>,
    attempts: nat,
    concurrent: nat,
    jobs_dir: Seq<char>,
    name: Seq<char>,
) -> Seq<Seq<char>> {
    seq![
        "run"@,
        "--with"@,
        "harbor"@,
        "harbor"@,
        "run"@,
        "--dataset"@,
        "terminal-bench@2.0"@,
        "--agent-import-path"@,
        "itsy_agent:ItsyAgent"@,
        "--model"@,
        model,
        "--n-attempts"@,
        text::decimal(attempts),
        "--n-concurrent"@,
        text::decimal(concurrent),
        "--jobs-dir"@,
        jobs_dir,
        "--job-name"@,
        name,
    ] + task_options(tasks)
}

/// The command line that starts a job.
pub fn harbor_arguments(
    tasks: &Vec<String>,
    model: &str,
    attempts: u32,
    concurrent: u32,
    jobs_dir: &str,
    name: &str,
) -> (r: Vec<String>)
    ensures
        text::texts(r@) == job_arguments(
            text::texts(tasks@),
            model@,
            attempts as nat,
            concurrent as nat,
            jobs_dir@,
            name@,
        ),
{
    let mut r = vec![
        "run".to_owned(),
        "--with".to_owned(),
        "harbor".to_owned(),
        "harbor".to_owned(),
        "run".to_owned(),
        "--dataset".to_owned(),
        "terminal-bench@2.0".to_owned(),
        "--agent-import-path".to_owned(),
        "itsy_agent:ItsyAgent".to_owned(),
        "--model".to_owned(),
        model.to_owned(),
        "--n-attempts".to_owned(),
        text::number(attempts as u64),
        "--n-concurrent".to_owned(),
        text::number(concurrent as u64),
        "--jobs-dir".to_owned(),
        jobs_dir.to_owned(),
        "--job-name".to_owned(),
        name.to_owned(),
    ];
    let ghost head = text::texts(r@);
    let ghost all = text::texts(tasks@);
    let mut i: usize = 0;
    assert(head + task_options(all.take(0)) =~= head);
    while i < tasks.len()
        invariant
            i <= tasks.len(),
            all == text::texts(tasks@),
            text::texts(r@) == head + task_options(all.take(i as int)),
        decreases tasks.len() - i,
    {
        assert(all.take(i + 1).drop_last() =~= all.take(i as int));
        assert(all.take(i + 1).last() == tasks@[i as int]@);
        let ghost before = text::texts(r@);
        let option = "--include-task-name".to_owned();
        let task = tasks[i].clone();
        proof {
            text::lemma_texts_push(r@, option);
        }
        r.push(option);
        proof {
            text::lemma_texts_push(r@, task);
        }
        r.push(task);
        assert(text::texts(r@) =~= head + task_options(all.take(i + 1)));
        i = i + 1;
    }
    assert(all.take(i as int) =~= all);
    assert(head =~= job_arguments(
        Seq::empty(),
        model@,
        attempts as nat,
        concurrent as nat,
        jobs_dir@,
        name@,
    ));
    r
}

/// The model that the name of an evaluation tells of: what stands between its
/// first two pairs of underscores.
pub open spec fn model_in(key: Seq<char>) -> Option<Seq<char>> {
    match text::first_at(key, "__"@, 0) {
        Some(i) => {
            let rest = key.skip(i + 2);
            match text::first_at(rest, "__"@, 0) {
                Some(k) => Some(rest.take(k)),
                None => Some(rest),
            }
        },
        None => None,
    }
}

fn model_of(key: &str) -> (r: Option<String>)
    ensures
        text::opt_text(r) == model_in(key@),
{
    proof {
        reveal_strlit("__");
        text::lemma_first_at(key@, "__"@, 0);
    }
    let v = text::chars(key);
    let p = text::chars("__");
    match text::find_from(&v, &p, 0) {
        Some(i) => {
            let n: usize = v.len();
            let rest = text::string_of(&v, i + 2, n);
            assert(rest@ =~= key@.skip(i + 2));
            let w = text::chars(&rest);
            proof {
                text::lemma_first_at(rest@, "__"@, 0);
            }
            match text::find_from(&w, &p, 0) {
                Some(k) => {
                    let m = text::string_of(&w, 0, k);
                    assert(m@ =~= rest@.take(k as int));
                    Some(m)
                },
                None => Some(rest),
            }
        },
        None => None,
    }
}

/// The model that the result of a job tells of: by the name of its first
/// evaluation.
pub open spec fn detected_model(j: json::JsonText) -> Seq<char> {
    match json::pointed(j, "stats/evals"@) {
        Some(json::JsonText::Table(t)) => if t.len() > 0 {
            match model_in(t[0].0) {
                Some(m) => m,
                None => "unknown"@,
            }
        } else {
            "unknown"@
        },
        _ => "unknown"@,
    }
}

/// The model that the result of a job tells of.
pub fn detect_model(result: &Json) -> (r: String)
    ensures
        r@ == detected_model(result@),
{
    match result.pointer("stats/evals") {
        Some(evals) => match evals.as_object() {
            Some(t) => {
                assert(json::members(t@).len() == t@.len());
                if t.len() > 0 {
                    assert(json::members(t@)[0].0 == t@[0].0@);
                    match model_of(&t[0].0) {
                        Some(m) => m,
                        None => "unknown".to_owned(),
                    }
                } else {
                    "unknown".to_owned()
                }
            },
            None => "unknown".to_owned(),
        },
        None => "unknown".to_owned(),
    }
}

/// The model that the file with the result of a job tells of.
pub fn read_model(source: &str) -> (r: String)
    ensures
        r@ == match outside::json_value(source@) {
            Some(j) => detected_model(j),
            None => "unknown"@,
        },
{
    match outside::json_parse(source) {
        Some(j) => detect_model(&j),
        None => "unknown".to_owned(),
    }
}

// ---------------------------------------------------------------------------
// Time
// ---------------------------------------------------------------------------

/// When a job was started: what is known of it already, or else what its result
/// says.
pub fn settle_start(known: Option<i64>, started: &Option<String>) -> (r: Option<i64>)
    ensures
        r == match known {
            Some(t) => Some(t),
            None => match *started {
                Some(s) => outside::rfc3339_of(s@),
                None => None,
            },
        },
{
    match known {
        Some(t) => Some(t),
        None => match started {
            Some(s) => outside::rfc3339_millis(s),
            None => None,
        },
    }
}

/// How many whole seconds lie between two times in milliseconds; less than none
/// when the first comes later.
pub open spec fn seconds_between(start: int, now: int) -> int {
    if now >= start {
        (now - start) / 1000
    } else {
        -((start - now) / 1000)
    }
}

/// How many whole seconds lie between two times in milliseconds.
pub fn seconds_since(start: i64, now: i64) -> (r: i64)
    ensures
        r == seconds_between(start as int, now as int),
{
    if now >= start {
        ((now as i128 - start as i128) / 1000) as i64
    } else {
        let n: i64 = ((start as i128 - now as i128) / 1000) as i64;
        -n
    }
}

/// The selected trial is one of those that there are, as long as there are any.
pub proof fn law_selection_is_valid(b: Board, trials: Seq<Trial>)
    requires
        b.selected matches Some(i) ==> i < b.trials@.len(),
        trials.len() >= b.trials@.len(),
    ensures
        reselected(b, trials) matches Some(k) ==> k < trials.len(),
{
    match selected_in(b) {
        Some(i) => {
            lemma_named(trials, b.trials@[i].name@, 0);
        },
        None => {},
    }
}

proof fn lemma_named(v: Seq<Trial>, name: Seq<char>, i: int)
    requires
        0 <= i,
    ensures
        named_from(v, name, i) matches Some(k) ==> i <= k < v.len() && v[k].name@ == name,
    decreases v.len() - i,
{
    if i < v.len() && v[i].name@ != name {
        lemma_named(v, name, i + 1);
    }
}

// ---------------------------------------------------------------------------
// Laws
// ---------------------------------------------------------------------------

/// A trial that was rewarded has passed or failed; one that has not runs once it
/// has chats.
pub proof fn law_statuses(rewarded: bool, passed: bool, has_chats: bool, r: TrialStatus)
    requires
        call_ensures(status_of, (rewarded, passed, has_chats), r),
    ensures
        r is Passed <==> rewarded && passed,
        r is Failed <==> rewarded && !passed,
        r is Running <==> !rewarded && has_chats,
        r is Pending <==> !rewarded && !has_chats,
{
}

/// Counting trials counts each in its status, once.
pub proof fn law_trials_are_counted(v: Seq<Trial>, t: Trial, s: TrialStatus)
    ensures
        count_in(Seq::empty(), s) == 0,
        t.status == s ==> count_in(v.push(t), s) == count_in(v, s) + 1,
        t.status != s ==> count_in(v.push(t), s) == count_in(v, s),
        count_in(v, TrialStatus::Passed) + count_in(v, TrialStatus::Failed) + count_in(
            v,
            TrialStatus::Running,
        ) + count_in(v, TrialStatus::Pending) == v.len(),
    decreases v.len(),
{
    assert(v.push(t).drop_last() =~= v);
    if v.len() > 0 {
        law_trials_are_counted(v.drop_last(), t, s);
    }
}

/// The keys of the board.
pub proof fn law_board_keys(c: char, ctrl: bool, r: BoardKey)
    requires
        call_ensures(key_of, (c, ctrl), r),
    ensures
        c == 'q' ==> r is Quit,
        c == 'c' && ctrl ==> r is Quit,
        c == 'j' ==> r is Down,
        c == 'k' ==> r is Up,
        c == 'd' && ctrl ==> r is PageDown,
        c == 'u' && ctrl ==> r is PageUp,
        c == 'G' ==> r is Bottom,
        c == 'g' ==> r is Top,
        c == 'r' ==> r is Reload,
        c == 'K' ==> r is Kill,
        !ctrl && (c == 'c' || c == 'd' || c == 'u') ==> r is Other,
{
}

/// Scrolling down goes as far as it can, and not beyond the last line.
pub proof fn law_scrolling(at: int, lines: int, by: nat)
    requires
        0 <= at < lines,
    ensures
        at + by < lines ==> scrolled_down(at, lines, by) == at + by,
        at + by >= lines ==> scrolled_down(at, lines, by) == lines - 1,
    decreases by,
{
    if by > 0 {
        law_scrolling(at, lines, (by - 1) as nat);
    }
}

/// The trial that was selected stays selected wherever it stands now.
pub proof fn law_selection_stays(b: Board, trials: Seq<Trial>, i: int, k: int)
    requires
        b.selected == Some(i as usize),
        0 <= i < b.trials@.len() <= usize::MAX,
        0 <= k < trials.len() <= usize::MAX,
        trials[k].name@ == b.trials@[i].name@,
        forall|m: int| 0 <= m < k ==> (#[trigger] trials[m]).name@ != b.trials@[i].name@,
    ensures
        reselected(b, trials) == Some(k as usize),
{
    lemma_named_at(trials, b.trials@[i].name@, 0, k);
}

proof fn lemma_named_at(v: Seq<Trial>, name: Seq<char>, i: int, k: int)
    requires
        0 <= i <= k < v.len(),
        v[k].name@ == name,
        forall|m: int| 0 <= m < k ==> (#[trigger] v[m]).name@ != name,
    ensures
        named_from(v, name, i) == Some(k),
    decreases k - i,
{
    if i < k {
        assert(v[i].name@ != name);
        lemma_named_at(v, name, i + 1, k);
    }
}

/// Where nothing was selected the first trial is.
pub proof fn law_first_is_selected(b: Board, trials: Seq<Trial>)
    requires
        b.selected is None,
    ensures
        trials.len() > 0 ==> reselected(b, trials) == Some(0usize),
        trials.len() == 0 ==> reselected(b, trials) is None,
{
}

proof fn lemma_placed_keeps(v: Seq<Trial>, t: Trial)
    ensures
        placed(v, t).to_multiset() == v.to_multiset().insert(t),
    decreases v.len(),
{
    broadcast use vstd::seq_lib::group_to_multiset_ensures;

    if v.len() == 0 {
        assert(seq![t] =~= v.push(t));
    } else if !text::ordered(v.last().name@, t.name@) {
        lemma_placed_keeps(v.drop_last(), t);
        assert(v =~= v.drop_last().push(v.last()));
    }
}

/// Sorting the trials loses and adds none.
pub proof fn law_sorting_keeps_trials(v: Seq<Trial>)
    ensures
        sorted(v).to_multiset() == v.to_multiset(),
    decreases v.len(),
{
    broadcast use vstd::seq_lib::group_to_multiset_ensures;

    if v.len() > 0 {
        law_sorting_keeps_trials(v.drop_last());
        lemma_placed_keeps(sorted(v.drop_last()), v.last());
        assert(v =~= v.drop_last().push(v.last()));
    }
}

/// The containers of a trial are those whose names start with its own.
pub proof fn law_containers(lines: Seq<Seq<char>>, l: Seq<char>, prefix: Seq<char>)
    ensures
        belonging(Seq::empty(), prefix).len() == 0,
        text::starts(outside::lowered(l), prefix) ==> belonging(lines.push(l), prefix) == belonging(
            lines,
            prefix,
        ).push(l),
        !text::starts(outside::lowered(l), prefix) ==> belonging(lines.push(l), prefix) == belonging(
            lines,
            prefix,
        ),
{
    assert(lines.push(l).drop_last() =~= lines);
}

/// What became of the containers of a trial is told, each by its name.
pub proof fn law_kills_are_told(trial: &str, killed: &Vec<String>, failed: &Vec<String>, r: String, i: int)
    requires
        call_ensures(kill_report, (trial, killed, failed), r),
    ensures
        killed@.len() == 0 && failed@.len() == 0 ==> text::ends(r@, trial@),
        0 <= i < killed@.len() ==> text::has(r@, killed@[i]@),
        0 <= i < failed@.len() ==> text::has(r@, failed@[i]@),
{
    let v = text::texts(killed@);
    let w = text::texts(failed@);
    let a = text::join(v, ", "@);
    let b = text::join(w, ", "@);
    text::law_affixes(trial@, "no containers found for "@, Seq::empty());
    if 0 <= i < killed@.len() {
        assert(v[i] == killed@[i]@);
        text::lemma_joined_part(v, ", "@, i);
        let tail = if failed@.len() == 0 {
            Seq::empty()
        } else {
            "  failed: "@ + b
        };
        assert(r@ =~= "killed: "@ + a + tail);
        text::lemma_has_within(r@, "killed: "@, a, tail, v[i]);
    }
    if 0 <= i < failed@.len() {
        assert(w[i] == failed@[i]@);
        text::lemma_joined_part(w, ", "@, i);
        let head = "killed: "@ + a + "  failed: "@;
        assert(r@ =~= head + b + Seq::empty());
        text::lemma_has_within(r@, head, b, Seq::empty(), w[i]);
    }
}

/// A job is told its model, how often and how many at a time each task is tried,
/// where it keeps what it finds, its name, and each task.
pub proof fn law_jobs(
    tasks: Seq<Seq<char>>,
    model: Seq<char>,
    attempts: nat,
    concurrent: nat,
    dir: Seq<char>,
    name: Seq<char>,
    i: int,
)
    ensures
        ({
            let v = job_arguments(tasks, model, attempts, concurrent, dir, name);
            &&& v.len() == 19 + 2 * tasks.len()
            &&& v[9] == "--model"@ && v[10] == model
            &&& v[11] == "--n-attempts"@ && v[12] == text::decimal(attempts)
            &&& v[13] == "--n-concurrent"@ && v[14] == text::decimal(concurrent)
            &&& v[15] == "--jobs-dir"@ && v[16] == dir
            &&& v[17] == "--job-name"@ && v[18] == name
            &&& 0 <= i < tasks.len() ==> v[19 + 2 * i] == "--include-task-name"@ && v[20 + 2 * i]
                == tasks[i]
        }),
{
    lemma_task_options(tasks, i);
}

proof fn lemma_task_options(tasks: Seq<Seq<char>>, i: int)
    ensures
        task_options(tasks).len() == 2 * tasks.len(),
        0 <= i < tasks.len() ==> task_options(tasks)[2 * i] == "--include-task-name"@
            && task_options(tasks)[2 * i + 1] == tasks[i],
    decreases tasks.len(),
{
    if tasks.len() > 0 {
        lemma_task_options(tasks.drop_last(), i);
    }
}

/// A job is named by its tasks, how often they are tried, and when.
pub proof fn law_job_names(tasks: &Vec<String>, attempts: u32, time: &str, r: String)
    requires
        call_ensures(job_name, (tasks, attempts, time), r),
    ensures
        tasks@.len() == 0 ==> text::starts(r@, "all-"@),
        tasks@.len() == 1 ==> text::starts(r@, tasks@[0]@),
        tasks@.len() > 1 ==> text::starts(r@, text::decimal(tasks@.len()) + "-tasks"@),
        text::ends(r@, text::decimal(attempts as nat) + "x-"@ + time@),
{
    let x = text::decimal(attempts as nat) + "x-"@ + time@;
    let a = if tasks@.len() == 0 {
        "all"@
    } else if tasks@.len() == 1 {
        tasks@[0]@
    } else {
        text::decimal(tasks@.len()) + "-tasks"@
    };
    assert(r@ =~= (a + "-"@) + x);
    text::law_affixes(x, a + "-"@, Seq::empty());
    assert(r@ =~= a + ("-"@ + x));
    text::law_affixes(a, "-"@ + x, Seq::empty());
    reveal_strlit("all");
    reveal_strlit("-");
    reveal_strlit("all-");
    assert("all"@ + "-"@ =~= "all-"@);
    text::law_affixes("all-"@, x, Seq::empty());
}

/// The model of a job stands between the first two separators of its key.
pub proof fn law_models_in_keys(agent: Seq<char>, model: Seq<char>, rest: Seq<char>, key: Seq<char>)
    requires
        !agent.contains('_'),
        !model.contains('_'),
    ensures
        model_in(agent + "__"@ + model) == Some(model),
        model_in(agent + "__"@ + model + "__"@ + rest) == Some(model),
        !text::has(key, "__"@) ==> model_in(key) is None,
{
    reveal_strlit("__");
    lemma_first_separator(agent, model);
    lemma_first_separator(agent, model + "__"@ + rest);
    assert(agent + "__"@ + model + "__"@ + rest =~= agent + "__"@ + (model + "__"@ + rest));
    lemma_first_separator(model, rest);
    let k1 = agent + "__"@ + model;
    assert(k1.skip(agent.len() as int + 2) =~= model);
    text::lemma_first_at(model, "__"@, 0);
    match text::first_at(model, "__"@, 0) {
        Some(i) => {
            assert(model.subrange(i, i + 2)[0] == model[i]);
            assert(model.contains('_'));
        },
        None => {},
    }
    let k2 = agent + "__"@ + (model + "__"@ + rest);
    assert(k2.skip(agent.len() as int + 2) =~= model + "__"@ + rest);
    assert((model + "__"@ + rest).take(model.len() as int) =~= model);
    text::lemma_first_at(key, "__"@, 0);
}

proof fn lemma_first_separator(a: Seq<char>, b: Seq<char>)
    requires
        !a.contains('_'),
    ensures
        text::first_at(a + "__"@ + b, "__"@, 0) == Some(a.len() as int),
{
    reveal_strlit("__");
    assert("__"@.len() == 2 && "__"@[0] == '_');
    lemma_first_of(a, "__"@, b);
}

proof fn lemma_no_start(a: Seq<char>, p: Seq<char>, b: Seq<char>, i: int)
    requires
        p.len() == 2,
        !a.contains(p[0]),
        0 <= i < a.len(),
    ensures
        !text::at(a + p + b, p, i),
{
    let s = a + p + b;
    if text::at(s, p, i) {
        let t = s.subrange(i, i + 2);
        assert(t == p);
        assert(t[0] == s[i]);
        assert(s[i] == a[i]);
        assert(a.contains(a[i]));
    }
}

proof fn lemma_first_of(a: Seq<char>, p: Seq<char>, b: Seq<char>)
    requires
        p.len() == 2,
        !a.contains(p[0]),
    ensures
        text::first_at(a + p + b, p, 0) == Some(a.len() as int),
{
    let s = a + p + b;
    let n = a.len() as int;
    assert(s.subrange(n, n + 2) =~= p);
    assert(text::at(s, p, n));
    text::lemma_first_at(s, p, 0);
    let f = text::first_at(s, p, 0);
    if f is None {
        assert(!text::at(s, p, n));
    } else {
        let i = f->0;
        assert(text::at(s, p, i));
        if i < n {
            lemma_no_start(a, p, b, i);
        } else if i > n {
            assert(!text::at(s, p, n));
        }
    }
}

/// Whole seconds have passed; the time of a job that is known stays.
pub proof fn law_times(start: int, now: int, known: Option<i64>, s: &Option<String>, r: Option<i64>)
    requires
        call_ensures(settle_start, (known, s), r),
    ensures
        now >= start ==> 1000 * seconds_between(start, now) <= now - start < 1000 * (seconds_between(
            start,
            now,
        ) + 1),
        seconds_between(start, now) == -seconds_between(now, start),
        known is Some ==> r == known,
        known is None && *s is None ==> r is None,
{
}

/// The task of a trial is what stands before the last separator in the name of
/// its directory.
pub proof fn law_tasks_of_trials(task: Seq<char>, id: Seq<char>)
    requires
        !id.contains('_'),
    ensures
        task_in(task + "__"@ + id) == Some(task),
{
    reveal_strlit("__");
    let p = "__"@;
    let s = task + p + id;
    let n = task.len() as int;
    assert(p.len() == 2 && p[0] == '_' && p[1] == '_');
    assert(s.subrange(n, n + 2) =~= p);
    assert(text::at(s, p, n));
    text::lemma_last_at(s, p, s.len() as int);
    match text::last_at(s, p, s.len() as int) {
        Some(i) => {
            if i > n {
                assert(s.subrange(i, i + 2)[1] == s[i + 1]);
                assert(id[i + 1 - n - 2] == s[i + 1]);
                assert(id.contains('_'));
            }
            assert(s.take(n) =~= task);
        },
        None => {},
    }
}

/// The names of some trials.
pub open spec fn names(v: Seq<Trial>) -> Seq<Seq<char>> {
    v.map_values(|t: Trial| t.name@)
}

proof fn lemma_placed_names(v: Seq<Trial>, t: Trial)
    ensures
        names(placed(v, t)) == text::placed(names(v), t.name@),
    decreases v.len(),
{
    if v.len() == 0 {
        assert(names(placed(v, t)) =~= text::placed(names(v), t.name@));
    } else if text::ordered(v.last().name@, t.name@) {
        assert(names(v).last() == v.last().name@);
        assert(names(v.push(t)) =~= names(v).push(t.name@));
    } else {
        let d = v.drop_last();
        lemma_placed_names(d, t);
        assert(names(v).last() == v.last().name@);
        assert(names(v).drop_last() =~= names(d));
        assert(names(placed(d, t).push(v.last())) =~= names(placed(d, t)).push(v.last().name@));
    }
}

/// The trials stand in the order of their names.
pub proof fn law_trials_are_in_order(v: Seq<Trial>)
    ensures
        names(sorted(v)) == text::sorted(names(v)),
        text::in_order(names(sorted(v))),
    decreases v.len(),
{
    text::law_sorted(names(v));
    if v.len() > 0 {
        let d = v.drop_last();
        law_trials_are_in_order(d);
        lemma_placed_names(sorted(d), v.last());
        assert(names(v).drop_last() =~= names(d));
        assert(names(v).last() == v.last().name@);
    } else {
        assert(names(sorted(v)) =~= text::sorted(names(v)));
    }
}

/// Going down and up selects the next trial and the one before, and not beyond
/// the ends; the log is shown from its end.
pub proof fn law_trials_are_gone_through()
    ensures
        forall|b: &mut Board| #[trigger]
            call_ensures(Board::scroll_down, (b,), ()) ==> {
                &&& final(b).trials == b.trials
                &&& b.trials@.len() > 0 && b.selected is None ==> final(b).selected == Some(0usize)
                &&& b.selected matches Some(i) ==> (i + 1 < b.trials@.len() ==> final(b).selected
                    == Some((i + 1) as usize))
                &&& b.selected matches Some(i) ==> (i + 1 == b.trials@.len() ==> final(b).selected
                    == Some(i))
            },
        forall|b: &mut Board| #[trigger]
            call_ensures(Board::scroll_up, (b,), ()) ==> {
                &&& final(b).trials == b.trials
                &&& b.selected matches Some(i) ==> (i > 0 ==> final(b).selected == Some(
                    (i - 1) as usize,
                ))
                &&& b.selected == Some(0usize) ==> final(b).selected == Some(0usize)
            },
{
}

/// Scrolling in the log goes one line or ten, and to its two ends; a log that was
/// shown to its end stays there when it grows.
pub proof fn law_log_is_gone_through()
    ensures
        forall|b: &mut Board| #[trigger]
            call_ensures(Board::log_scroll_up, (b,), ()) ==> (b.log_scroll > 0
                ==> final(b).log_scroll == b.log_scroll - 1) && (b.log_scroll == 0
                ==> final(b).log_scroll == 0) && final(b).selected == b.selected,
        forall|b: &mut Board| #[trigger]
            call_ensures(Board::log_page_up, (b,), ()) ==> (b.log_scroll >= 10
                ==> final(b).log_scroll == b.log_scroll - 10) && (b.log_scroll < 10
                ==> final(b).log_scroll == 0),
        forall|b: &mut Board| #[trigger]
            call_ensures(Board::log_top, (b,), ()) ==> final(b).log_scroll == 0 && final(b).log_lines
                == b.log_lines,
        forall|b: &mut Board| #[trigger]
            call_ensures(Board::log_bottom, (b,), ()) ==> (0 < b.log_lines@.len() <= usize::MAX
                ==> final(b).log_scroll == b.log_lines@.len() - 1),
        forall|b: &mut Board, lines: Vec<LogLine>, t: &str, n: usize| #[trigger]
            call_ensures(Board::take_log, (b, lines, t, n), ()) ==> {
                &&& final(b).log_lines == lines
                &&& final(b).trials == b.trials
                &&& b.log_scroll + 5 < b.log_lines@.len() ==> final(b).log_scroll == b.log_scroll
                &&& b.log_scroll + 5 >= b.log_lines@.len() && b.log_scroll >= 0 && b.log_lines@.len()
                    > 1 && 0 < lines@.len() <= usize::MAX ==> final(b).log_scroll == lines@.len() - 1
            },
        forall|b: &Board, t: &str, n: usize, r: bool| #[trigger]
            call_ensures(Board::log_changed, (b, t, n), r) ==> (t@ == b.last_log_trial@ && n
                == b.last_log_file_count ==> !r) && (n != b.last_log_file_count ==> r),
{
}

} // verus!
