//! What the agent does to the view: messages, tools, diffs, streams.

use vstd::prelude::*;

use crate::fullscreen::{
    ChatLine, ChatRole, FullscreenState, PendingModal, SelectionResult, SessionTab, Theme,
    ToolStatus,
};
use crate::fullscreen;
use crate::text;

verus! {

/// The view as the agent sees it.
#[derive(Debug)]
pub struct Fullscreen {
    pub state: FullscreenState,
}

/// The status that a word stands for.
pub open spec fn status_of(word: Seq<char>) -> ToolStatus {
    if word == "ok"@ {
        ToolStatus::Done
    } else if word == "err"@ || word == "error"@ {
        ToolStatus::Failed
    } else {
        ToolStatus::Running
    }
}

fn read_status(word: &str) -> (r: ToolStatus)
    ensures
        r == status_of(word@),
{
    if text::same(word, "ok") {
        ToolStatus::Done
    } else if text::same(word, "err") || text::same(word, "error") {
        ToolStatus::Failed
    } else {
        ToolStatus::Running
    }
}

/// The latest entry of a running tool.
pub open spec fn running_line(lines: Seq<fullscreen::LineText>, name: Seq<char>) -> Option<int>
    decreases lines.len(),
{
    if lines.len() == 0 {
        None
    } else if lines.last() is Tool && lines.last()->Tool_name == name
        && lines.last()->Tool_status == ToolStatus::Running {
        Some(lines.len() - 1)
    } else {
        running_line(lines.drop_last(), name)
    }
}

/// A chat in which a tool has come to its end: its running entry is changed, or
/// one is added when there is none.
pub open spec fn tool_finished(
    t: fullscreen::TabText,
    name: Seq<char>,
    status: ToolStatus,
    msg: Seq<char>,
) -> fullscreen::TabText {
    let line = fullscreen::LineText::Tool { name, status, msg };
    fullscreen::TabText {
        lines: match running_line(t.lines, name) {
            Some(i) => t.lines.update(i, line),
            None => t.lines.push(line),
        },
        ..t
    }
}

/// The first eight lines of one side of a diff, and how many are left out.
pub open spec fn diff_side(parts: Seq<Seq<char>>, added: bool) -> Seq<fullscreen::LineText> {
    let n = if parts.len() <= 8 {
        parts.len() as int
    } else {
        8
    };
    let shown = Seq::new(
        n as nat,
        |i: int|
            if added {
                fullscreen::LineText::DiffNew(parts[i])
            } else {
                fullscreen::LineText::DiffOld(parts[i])
            },
    );
    if parts.len() > 8 {
        shown.push(
            fullscreen::LineText::DiffMore(
                "... ("@ + text::decimal((parts.len() - 8) as nat) + " more)"@,
            ),
        )
    } else {
        shown
    }
}

/// The entries of a diff.
pub open spec fn diff_lines(
    path: Seq<char>,
    old_str: Seq<char>,
    new_str: Seq<char>,
    line: u32,
) -> Seq<fullscreen::LineText> {
    seq![fullscreen::LineText::DiffHeader { path, line }] + diff_side(
        text::split(old_str, '\n'),
        false,
    ) + diff_side(text::split(new_str, '\n'), true) + seq![fullscreen::LineText::Spacer]
}

/// The view after several entries were added.
pub open spec fn all_pushed(
    st: fullscreen::StateText,
    ls: Seq<fullscreen::LineText>,
) -> fullscreen::StateText
    decreases ls.len(),
{
    if ls.len() == 0 {
        st
    } else {
        fullscreen::pushed(all_pushed(st, ls.drop_last()), ls.last())
    }
}

proof fn lemma_all_pushed_add(
    st: fullscreen::StateText,
    a: Seq<fullscreen::LineText>,
    b: Seq<fullscreen::LineText>,
)
    ensures
        all_pushed(st, a + b) == all_pushed(all_pushed(st, a), b),
    decreases b.len(),
{
    if b.len() == 0 {
        assert(a + b =~= a);
    } else {
        assert((a + b).drop_last() =~= a + b.drop_last());
        lemma_all_pushed_add(st, a, b.drop_last());
    }
}

/// The last entry is a text of the assistant.
pub open spec fn ends_in_reply(t: fullscreen::TabText) -> bool {
    t.lines.len() > 0 && t.lines.last() is Text && t.lines.last()->role == ChatRole::Assistant
}

/// The view with a piece of the assistant's text at the end of its last entry.
pub open spec fn reply_extended(st: fullscreen::StateText, token: Seq<char>) -> fullscreen::StateText {
    let st1 = if ends_in_reply(fullscreen::active_tab(st)) {
        st
    } else {
        fullscreen::pushed(
            st,
            fullscreen::LineText::Text { role: ChatRole::Assistant, text: Seq::empty() },
        )
    };
    let tab = fullscreen::active_tab(st1);
    fullscreen::with_active(
        st1,
        fullscreen::TabText {
            lines: tab.lines.update(
                tab.lines.len() - 1,
                fullscreen::LineText::Text {
                    role: ChatRole::Assistant,
                    text: tab.lines.last()->text + token,
                },
            ),
            scroll: 0,
            ..tab
        },
    )
}

/// The view with a piece of thinking at the end of its last entry.
pub open spec fn thought_extended(
    st: fullscreen::StateText,
    token: Seq<char>,
) -> fullscreen::StateText {
    let t0 = fullscreen::active_tab(st);
    let st1 = if t0.lines.len() > 0 && t0.lines.last() is Thinking {
        st
    } else {
        fullscreen::pushed(st, fullscreen::LineText::Thinking(Seq::empty()))
    };
    let tab = fullscreen::active_tab(st1);
    fullscreen::with_active(
        st1,
        fullscreen::TabText {
            lines: tab.lines.update(
                tab.lines.len() - 1,
                fullscreen::LineText::Thinking(tab.lines.last()->Thinking_0 + token),
            ),
            scroll: 0,
            ..tab
        },
    )
}

fn copy_lines_side(fs: &mut FullscreenState, parts: &Vec<String>, added: bool)
    requires
        old(fs).wf(),
    ensures
        final(fs)@ == all_pushed(old(fs)@, diff_side(text::texts(parts@), added)),
        final(fs).wf(),
{
    let ghost start = fs@;
    let ghost all = text::texts(parts@);
    let n: usize = if parts.len() <= 8 {
        parts.len()
    } else {
        8
    };
    assert(all.len() == parts@.len());
    let ghost shown = Seq::new(
        n as nat,
        |i: int|
            if added {
                fullscreen::LineText::DiffNew(all[i])
            } else {
                fullscreen::LineText::DiffOld(all[i])
            },
    );
    let mut i: usize = 0;
    assert(shown.take(0) =~= Seq::<fullscreen::LineText>::empty());
    while i < n
        invariant
            i <= n <= parts.len(),
            fs.wf(),
            all == text::texts(parts@),
            shown == Seq::new(
                n as nat,
                |i: int|
                    if added {
                        fullscreen::LineText::DiffNew(all[i])
                    } else {
                        fullscreen::LineText::DiffOld(all[i])
                    },
            ),
            fs@ == all_pushed(start, shown.take(i as int)),
        decreases n - i,
    {
        let s = parts[i].clone();
        assert(all[i as int] == s@);
        let l = if added {
            ChatLine::DiffNew(s)
        } else {
            ChatLine::DiffOld(s)
        };
        assert(shown.take(i + 1).drop_last() =~= shown.take(i as int));
        assert(shown.take(i + 1).last() == l@);
        fs.push_line(l);
        i = i + 1;
    }
    assert(shown.take(i as int) =~= shown);
    if parts.len() > 8 {
        let mut s: String = "... (".to_owned();
        s.push_str(&text::number((parts.len() - 8) as u64));
        s.push_str(" more)");
        let l = ChatLine::DiffMore(s);
        assert(diff_side(all, added) =~= shown.push(l@));
        assert(diff_side(all, added).drop_last() =~= shown);
        fs.push_line(l);
    } else {
        assert(diff_side(all, added) =~= shown);
    }
}

impl Fullscreen {
    pub fn new() -> (f: Fullscreen)
        ensures
            f.state@ == fullscreen::initial(Theme::dark_theme(), "unknown"@, false),
            f.state.wf(),
    {
        Fullscreen { state: FullscreenState::new(Theme::dark(), "unknown".to_owned(), false) }
    }

    pub fn with_theme(theme: Theme) -> (f: Fullscreen)
        ensures
            f.state@ == fullscreen::initial(theme, "unknown"@, false),
            f.state.wf(),
    {
        Fullscreen { state: FullscreenState::new(theme, "unknown".to_owned(), false) }
    }

    /// Adds a message and an empty line behind it.
    pub fn add_chat(&mut self, role: ChatRole, text: String)
        requires
            old(self).state.wf(),
        ensures
            final(self).state@ == fullscreen::pushed(
                fullscreen::pushed(
                    old(self).state@,
                    fullscreen::LineText::Text { role, text: text@ },
                ),
                fullscreen::LineText::Spacer,
            ),
            final(self).state.wf(),
    {
        self.state.push_line(ChatLine::Text { role, text });
        self.state.push_line(ChatLine::Spacer);
    }

    /// Adds a tool with its status.
    pub fn add_tool(&mut self, name: &str, status: &str, msg: &str)
        requires
            old(self).state.wf(),
        ensures
            final(self).state@ == fullscreen::pushed(
                old(self).state@,
                fullscreen::LineText::Tool { name: name@, status: status_of(status@), msg: msg@ },
            ),
            final(self).state.wf(),
    {
        let s = read_status(status);
        self.state.push_line(
            ChatLine::Tool { name: name.to_owned(), status: s, msg: msg.to_owned() },
        );
    }

    /// Brings the latest running entry of a tool to its end; adds an entry when
    /// there is none, so that the result is always seen.
    pub fn finish_tool(&mut self, name: &str, status: &str, msg: &str)
        requires
            old(self).state.wf(),
        ensures
            final(self).state@ == fullscreen::with_active(
                old(self).state@,
                tool_finished(
                    fullscreen::active_tab(old(self).state@),
                    name@,
                    status_of(status@),
                    msg@,
                ),
            ),
            final(self).state.wf(),
    {
        let s = read_status(status);
        let idx: usize = self.state.active_session;
        let ghost start = self.state@;
        let ghost before = self.state.sessions@;
        assert(start.sessions[idx as int] == before[idx as int]@);
        let line = ChatLine::Tool { name: name.to_owned(), status: s, msg: msg.to_owned() };
        let tab = &mut self.state.sessions[idx];
        let ghost all = fullscreen::line_texts(tab.chat_lines@);
        let mut n: usize = tab.chat_lines.len();
        let mut found: Option<usize> = None;
        assert(all.take(n as int) =~= all);
        while n > 0 && found.is_none()
            invariant
                n <= tab.chat_lines.len(),
                *tab == before[idx as int],
                all == fullscreen::line_texts(tab.chat_lines@),
                match found {
                    Some(i) => running_line(all, name@) == Some(i as int) && i
                        < tab.chat_lines.len(),
                    None => running_line(all, name@) == running_line(all.take(n as int), name@),
                },
            decreases n,
        {
            assert(all.take(n as int).drop_last() =~= all.take(n - 1));
            assert(all.take(n as int).last() == tab.chat_lines@[n - 1]@);
            match &tab.chat_lines[n - 1] {
                ChatLine::Tool { name: other, status: st, msg: _ } => {
                    if text::same(other, name) && *st == ToolStatus::Running {
                        found = Some(n - 1);
                    }
                },
                _ => {},
            }
            n = n - 1;
        }
        match found {
            Some(i) => {
                tab.chat_lines.set(i, line);
                assert(fullscreen::line_texts(tab.chat_lines@) =~= all.update(i as int, line@));
            },
            None => {
                tab.chat_lines.push(line);
                assert(fullscreen::line_texts(tab.chat_lines@) =~= all.push(line@));
            },
        }
        let ghost done = tool_finished(before[idx as int]@, name@, s, msg@);
        assert(tab@ == done);
        assert(self.state@.sessions =~= start.sessions.update(idx as int, done));
        proof {
            fullscreen::lemma_valid_active(start, done);
        }
    }

    /// Adds a diff: both sides, eight lines of each at most.
    pub fn add_diff(&mut self, path: &str, old_str: &str, new_str: &str, line: u32)
        requires
            old(self).state.wf(),
        ensures
            final(self).state@ == all_pushed(
                old(self).state@,
                diff_lines(path@, old_str@, new_str@, line),
            ),
            final(self).state.wf(),
    {
        let ghost start = self.state@;
        let old_lines = text::split_char(old_str, '\n');
        let new_lines = text::split_char(new_str, '\n');
        let header = ChatLine::DiffHeader { path: path.to_owned(), line };
        let ghost h = seq![header@];
        let ghost o = diff_side(text::texts(old_lines@), false);
        let ghost n = diff_side(text::texts(new_lines@), true);
        self.state.push_line(header);
        proof {
            assert(h.drop_last() =~= Seq::<fullscreen::LineText>::empty());
            reveal_with_fuel(all_pushed, 2);
            assert(self.state@ == all_pushed(start, h));
        }
        copy_lines_side(&mut self.state, &old_lines, false);
        proof {
            lemma_all_pushed_add(start, h, o);
        }
        copy_lines_side(&mut self.state, &new_lines, true);
        proof {
            lemma_all_pushed_add(start, h + o, n);
        }
        self.state.push_line(ChatLine::Spacer);
        proof {
            let whole = diff_lines(path@, old_str@, new_str@, line);
            assert(whole =~= (h + o + n).push(fullscreen::LineText::Spacer));
            assert(whole.drop_last() =~= h + o + n);
        }
    }

    pub fn set_streaming(&mut self, s: bool)
        requires
            old(self).state.wf(),
        ensures
            final(self).state@ == fullscreen::with_active(
                old(self).state@,
                fullscreen::TabText {
                    streaming: s,
                    ..fullscreen::active_tab(old(self).state@)
                },
            ),
            final(self).state.wf(),
    {
        let idx: usize = self.state.active_session;
        let ghost start = self.state@;
        let ghost before = self.state.sessions@;
        assert(start.sessions[idx as int] == before[idx as int]@);
        let tab = &mut self.state.sessions[idx];
        tab.streaming = s;
        let ghost done = fullscreen::TabText { streaming: s, ..before[idx as int]@ };
        assert(self.state@.sessions =~= start.sessions.update(idx as int, done));
        proof {
            fullscreen::lemma_valid_active(start, done);
        }
    }

    /// Adds a piece of the assistant's text.
    pub fn stream_token(&mut self, token: &str)
        requires
            old(self).state.wf(),
        ensures
            final(self).state@ == reply_extended(old(self).state@, token@),
            final(self).state.wf(),
    {
        let idx: usize = self.state.active_session;
        let ghost orig = self.state@;
        let in_reply = {
            let tab = self.state.active();
            let n: usize = tab.chat_lines.len();
            assert(fullscreen::line_texts(tab.chat_lines@).len() == n);
            if n == 0 {
                false
            } else {
                assert(tab@.lines.last() == tab.chat_lines@[n - 1]@);
                match &tab.chat_lines[n - 1] {
                    ChatLine::Text { role, text: _ } => *role == ChatRole::Assistant,
                    _ => false,
                }
            }
        };
        if !in_reply {
            let e = String::new();
            assert(e@ =~= Seq::<char>::empty());
            self.state.push_line(ChatLine::Text { role: ChatRole::Assistant, text: e });
        }
        let ghost start = self.state@;
        let ghost before = self.state.sessions@;
        proof {
            let t = fullscreen::active_tab(start);
            assert(start.sessions[idx as int] == before[idx as int]@);
            assert(t.lines.len() > 0 && t.lines.last() is Text && t.lines.last()->role
                == ChatRole::Assistant);
        }
        let tab = &mut self.state.sessions[idx];
        let n: usize = tab.chat_lines.len();
        let ghost all = fullscreen::line_texts(tab.chat_lines@);
        assert(all.last() == tab.chat_lines@[n - 1]@);
        let mut grown: String = match &tab.chat_lines[n - 1] {
            ChatLine::Text { role: _, text } => text.clone(),
            _ => String::new(),
        };
        grown.push_str(token);
        let line = ChatLine::Text { role: ChatRole::Assistant, text: grown };
        tab.chat_lines.set(n - 1, line);
        tab.scroll = 0;
        assert(fullscreen::line_texts(tab.chat_lines@) =~= all.update(n - 1, line@));
        let ghost done = fullscreen::TabText {
            lines: all.update(n - 1, line@),
            scroll: 0,
            ..before[idx as int]@
        };
        assert(self.state@.sessions =~= start.sessions.update(idx as int, done));
        proof {
            fullscreen::lemma_valid_active(start, done);
        }
    }

    /// Ends the assistant's text with an empty line.
    pub fn end_stream(&mut self)
        requires
            old(self).state.wf(),
        ensures
            final(self).state@ == fullscreen::pushed(
                fullscreen::with_active(
                    old(self).state@,
                    fullscreen::TabText {
                        streaming: false,
                        ..fullscreen::active_tab(old(self).state@)
                    },
                ),
                fullscreen::LineText::Spacer,
            ),
            final(self).state.wf(),
    {
        self.set_streaming(false);
        self.state.push_line(ChatLine::Spacer);
    }

    /// Shows a status; `now` is the time in milliseconds.
    pub fn set_status(&mut self, status: String, now: u64)
        requires
            old(self).state.wf(),
        ensures
            final(self).state@ == (fullscreen::StateText {
                status: status@,
                status_set_at: Some(now),
                ..old(self).state@
            }),
            final(self).state.wf(),
    {
        self.state.status = status;
        self.state.status_set_at = Some(now);
    }

    /// Takes the status away when it was shown for longer than five seconds.
    pub fn expire_status(&mut self, now: u64)
        requires
            old(self).state.wf(),
        ensures
            final(self).state@ == (match old(self).state@.status_set_at {
                Some(at) => if now - at > fullscreen::STATUS_MILLIS {
                    fullscreen::StateText {
                        status: Seq::empty(),
                        status_set_at: None,
                        ..old(self).state@
                    }
                } else {
                    old(self).state@
                },
                None => old(self).state@,
            }),
            final(self).state.wf(),
    {
        match self.state.status_set_at {
            Some(at) => {
                if now >= at && now - at > fullscreen::STATUS_MILLIS {
                    self.state.status = String::new();
                    assert(self.state.status@ =~= Seq::<char>::empty());
                    self.state.status_set_at = None;
                }
            },
            None => {},
        }
    }

    pub fn set_model(&mut self, name: String)
        requires
            old(self).state.wf(),
        ensures
            final(self).state@ == (fullscreen::StateText { model: name@, ..old(self).state@ }),
            final(self).state.wf(),
    {
        self.state.model = name;
    }

    pub fn set_token_count(&mut self, prompt: u32, completion: u32)
        requires
            old(self).state.wf(),
        ensures
            final(self).state@ == (fullscreen::StateText {
                token_prompt: prompt,
                token_completion: completion,
                ..old(self).state@
            }),
            final(self).state.wf(),
    {
        self.state.token_prompt = prompt;
        self.state.token_completion = completion;
    }

    pub fn set_task_type(&mut self, s: String)
        requires
            old(self).state.wf(),
        ensures
            final(self).state@ == (fullscreen::StateText { task_type: s@, ..old(self).state@ }),
            final(self).state.wf(),
    {
        self.state.task_type = s;
    }

    pub fn set_latency(&mut self, ms: u64)
        requires
            old(self).state.wf(),
        ensures
            final(self).state@ == (fullscreen::StateText { latency_ms: ms, ..old(self).state@ }),
            final(self).state.wf(),
    {
        self.state.latency_ms = ms;
    }

    /// Adds what the model thought.
    pub fn add_thinking(&mut self, text: String)
        requires
            old(self).state.wf(),
        ensures
            final(self).state@ == fullscreen::pushed(
                old(self).state@,
                fullscreen::LineText::Thinking(text@),
            ),
            final(self).state.wf(),
    {
        self.state.push_line(ChatLine::Thinking(text));
    }

    /// Adds a piece of what the model thinks.
    pub fn stream_thinking_token(&mut self, token: &str)
        requires
            old(self).state.wf(),
        ensures
            final(self).state@ == thought_extended(old(self).state@, token@),
            final(self).state.wf(),
    {
        let idx: usize = self.state.active_session;
        let in_thought = {
            let tab = self.state.active();
            let n: usize = tab.chat_lines.len();
            assert(fullscreen::line_texts(tab.chat_lines@).len() == n);
            if n == 0 {
                false
            } else {
                assert(tab@.lines.last() == tab.chat_lines@[n - 1]@);
                match &tab.chat_lines[n - 1] {
                    ChatLine::Thinking(_) => true,
                    _ => false,
                }
            }
        };
        if !in_thought {
            let e = String::new();
            assert(e@ =~= Seq::<char>::empty());
            self.state.push_line(ChatLine::Thinking(e));
        }
        let ghost start = self.state@;
        let ghost before = self.state.sessions@;
        proof {
            let t = fullscreen::active_tab(start);
            assert(start.sessions[idx as int] == before[idx as int]@);
            assert(t.lines.len() > 0 && t.lines.last() is Thinking);
        }
        let tab = &mut self.state.sessions[idx];
        let n: usize = tab.chat_lines.len();
        let ghost all = fullscreen::line_texts(tab.chat_lines@);
        assert(all.last() == tab.chat_lines@[n - 1]@);
        let mut grown: String = match &tab.chat_lines[n - 1] {
            ChatLine::Thinking(s) => s.clone(),
            _ => String::new(),
        };
        grown.push_str(token);
        let line = ChatLine::Thinking(grown);
        tab.chat_lines.set(n - 1, line);
        tab.scroll = 0;
        assert(fullscreen::line_texts(tab.chat_lines@) =~= all.update(n - 1, line@));
        let ghost done = fullscreen::TabText {
            lines: all.update(n - 1, line@),
            scroll: 0,
            ..before[idx as int]@
        };
        assert(self.state@.sessions =~= start.sessions.update(idx as int, done));
        proof {
            fullscreen::lemma_valid_active(start, done);
        }
    }

    pub fn toggle_thinking(&mut self)
        requires
            old(self).state.wf(),
        ensures
            final(self).state@ == (fullscreen::StateText {
                show_thinking: !old(self).state@.show_thinking,
                ..old(self).state@
            }),
            final(self).state.wf(),
    {
        self.state.show_thinking = !self.state.show_thinking;
    }

    pub fn set_show_thinking(&mut self, on: bool)
        requires
            old(self).state.wf(),
        ensures
            final(self).state@ == (fullscreen::StateText {
                show_thinking: on,
                ..old(self).state@
            }),
            final(self).state.wf(),
    {
        self.state.show_thinking = on;
    }

    /// Counts a turn, up to what the counter can hold.
    pub fn record_turn(&mut self)
        requires
            old(self).state.wf(),
        ensures
            final(self).state@ == (fullscreen::StateText {
                turn_count: crate::agent::tally::one_more(old(self).state@.turn_count),
                ..old(self).state@
            }),
            final(self).state.wf(),
    {
        if self.state.turn_count < u32::MAX {
            self.state.turn_count = self.state.turn_count + 1;
        }
    }

    /// Counts a tool call, up to what the counter can hold.
    pub fn record_tool_call(&mut self)
        requires
            old(self).state.wf(),
        ensures
            final(self).state@ == (fullscreen::StateText {
                tool_count: crate::agent::tally::one_more(old(self).state@.tool_count),
                ..old(self).state@
            }),
            final(self).state.wf(),
    {
        if self.state.tool_count < u32::MAX {
            self.state.tool_count = self.state.tool_count + 1;
        }
    }

    pub fn set_context_window(&mut self, window: u32)
        requires
            old(self).state.wf(),
        ensures
            final(self).state@ == (fullscreen::StateText {
                context_window: window,
                ..old(self).state@
            }),
            final(self).state.wf(),
    {
        self.state.context_window = window;
    }

    /// Opens a session and shows it.
    pub fn new_session(&mut self, title: String)
        requires
            old(self).state.wf(),
        ensures
            final(self).state@ == (fullscreen::StateText {
                sessions: old(self).state@.sessions.push(fullscreen::fresh_tab(title@)),
                active: old(self).state@.sessions.len() as usize,
                ..old(self).state@
            }),
            final(self).state.wf(),
    {
        let ghost start = self.state@;
        let n: usize = self.state.sessions.len();
        let tab = SessionTab::new(title);
        self.state.sessions.push(tab);
        self.state.active_session = n;
        assert(self.state@.sessions =~= start.sessions.push(tab@));
    }

    /// Puts a question to the user.
    pub fn ask(&mut self, prompt: String, options: Vec<String>)
        requires
            old(self).state.wf(),
        ensures
            final(self).state@ == (fullscreen::StateText {
                modal: Some(
                    fullscreen::ModalText {
                        prompt: prompt@,
                        options: text::texts(options@),
                        selection: 0,
                        resolved: None,
                    },
                ),
                ..old(self).state@
            }),
            final(self).state.wf(),
    {
        self.state.modal = Some(PendingModal { prompt, options, selection: 0, resolved: None });
    }

    /// Takes the answer to the question, once there is one; the question is
    /// then gone.
    pub fn show_modal(&mut self) -> (r: Option<SelectionResult>)
        requires
            old(self).state.wf(),
        ensures
            r == (match old(self).state@.modal {
                Some(m) => m.resolved,
                None => None,
            }),
            final(self).state@ == (if r is Some {
                fullscreen::StateText { modal: None, ..old(self).state@ }
            } else {
                old(self).state@
            }),
            final(self).state.wf(),
    {
        let answer: Option<SelectionResult> = match &self.state.modal {
            Some(m) => m.resolved,
            None => None,
        };
        if answer.is_some() {
            self.state.modal = None;
        }
        answer
    }

    pub fn request_quit(&mut self)
        requires
            old(self).state.wf(),
        ensures
            final(self).state@ == (fullscreen::StateText { quit: true, ..old(self).state@ }),
            final(self).state.wf(),
    {
        self.state.quit = true;
    }
}

// ---------------------------------------------------------------------------
// Laws
// ---------------------------------------------------------------------------

/// A chat never keeps more than its five thousand entries when one is added,
/// and the entry that was added is the last one.
pub proof fn law_chat_is_bounded(t: fullscreen::TabText, l: fullscreen::LineText)
    ensures
        fullscreen::tab_pushed(t, l).lines.len() <= fullscreen::MAX_CHAT_LINES,
        fullscreen::tab_pushed(t, l).lines.last() == l,
{
}

/// Streaming a text in two pieces is the same as streaming it in one.
pub proof fn law_stream_is_seamless(st: fullscreen::StateText, a: Seq<char>, b: Seq<char>)
    requires
        fullscreen::valid(st),
    ensures
        reply_extended(reply_extended(st, a), b) == reply_extended(st, a + b),
{
    let one = reply_extended(st, a);
    let t1 = fullscreen::active_tab(one);
    assert(t1.lines.len() > 0);
    assert(t1.lines.last() is Text);
    let two = reply_extended(one, b);
    let whole = reply_extended(st, a + b);
    assert(two.sessions.len() == whole.sessions.len());
    let old_text = if ends_in_reply(fullscreen::active_tab(st)) {
        fullscreen::active_tab(st).lines.last()->text
    } else {
        Seq::<char>::empty()
    };
    assert((old_text + a) + b =~= old_text + (a + b));
    assert(fullscreen::active_tab(two).lines =~= fullscreen::active_tab(whole).lines);
    assert(fullscreen::active_tab(two) == fullscreen::active_tab(whole));
    assert(two.sessions =~= whole.sessions);
}

/// A tool that was shown as running, and nothing else of that name since, is
/// changed in place when it ends: no entry is added.
pub proof fn law_tool_ends_in_place(
    t: fullscreen::TabText,
    name: Seq<char>,
    msg: Seq<char>,
    status: ToolStatus,
    result: Seq<char>,
)
    requires
        t.lines.len() < fullscreen::MAX_CHAT_LINES,
    ensures
        ({
            let running = fullscreen::tab_pushed(
                t,
                fullscreen::LineText::Tool { name, status: ToolStatus::Running, msg },
            );
            let ended = tool_finished(running, name, status, result);
            &&& ended.lines.len() == running.lines.len()
            &&& ended.lines == t.lines.push(
                fullscreen::LineText::Tool { name, status, msg: result },
            )
        }),
{
    let running = fullscreen::tab_pushed(
        t,
        fullscreen::LineText::Tool { name, status: ToolStatus::Running, msg },
    );
    let ended = tool_finished(running, name, status, result);
    assert(ended.lines =~= t.lines.push(fullscreen::LineText::Tool { name, status, msg: result }));
}

/// How a tool stands, by the word for it.
pub proof fn law_tool_statuses(w: Seq<char>)
    ensures
        status_of("ok"@) is Done,
        status_of("err"@) is Failed && status_of("error"@) is Failed,
        w != "ok"@ && w != "err"@ && w != "error"@ ==> status_of(w) is Running,
{
    reveal_strlit("ok");
    reveal_strlit("err");
    reveal_strlit("error");
    assert("ok"@.len() == 2 && "err"@.len() == 3 && "error"@.len() == 5);
}

/// The tool that ends is the last one of its name that runs; without one a line
/// is added.
pub proof fn law_running_tools(lines: Seq<fullscreen::LineText>, l: fullscreen::LineText, name: Seq<char>, msg: Seq<char>)
    ensures
        running_line(Seq::empty(), name) is None,
        l == (fullscreen::LineText::Tool { name, status: ToolStatus::Running, msg }) ==> running_line(
            lines.push(l),
            name,
        ) == Some(lines.len() as int),
        !(l is Tool) ==> running_line(lines.push(l), name) == running_line(lines, name),
        l is Tool && (l->Tool_name != name || l->Tool_status != ToolStatus::Running)
            ==> running_line(lines.push(l), name) == running_line(lines, name),
        running_line(lines, name) matches Some(i) ==> 0 <= i < lines.len() && lines[i] is Tool
            && lines[i]->Tool_name == name && lines[i]->Tool_status == ToolStatus::Running,
    decreases lines.len(),
{
    assert(lines.push(l).drop_last() =~= lines);
    if lines.len() > 0 {
        law_running_tools(lines.drop_last(), l, name, msg);
    }
}

/// A change is shown with its file and its line, up to eight lines that went and
/// eight that came, and how many more there were.
pub proof fn law_changes_are_shown(path: Seq<char>, a: Seq<char>, b: Seq<char>, line: u32, i: int)
    ensures
        diff_lines(path, a, b, line)[0] == (fullscreen::LineText::DiffHeader { path, line }),
        diff_lines(path, a, b, line).last() is Spacer,
        0 <= i < text::split(a, '\n').len() && i < 8 ==> diff_lines(path, a, b, line).contains(
            fullscreen::LineText::DiffOld(text::split(a, '\n')[i]),
        ),
        0 <= i < text::split(b, '\n').len() && i < 8 ==> diff_lines(path, a, b, line).contains(
            fullscreen::LineText::DiffNew(text::split(b, '\n')[i]),
        ),
        text::split(a, '\n').len() > 8 ==> diff_lines(path, a, b, line)[9]
            == fullscreen::LineText::DiffMore(
            "... ("@ + text::decimal((text::split(a, '\n').len() - 8) as nat) + " more)"@,
        ),
        text::split(a, '\n').len() <= 8 && text::split(b, '\n').len() <= 8 ==> diff_lines(
            path,
            a,
            b,
            line,
        ).len() == text::split(a, '\n').len() + text::split(b, '\n').len() + 2,
{
    let v = diff_lines(path, a, b, line);
    let x = diff_side(text::split(a, '\n'), false);
    let y = diff_side(text::split(b, '\n'), true);
    if 0 <= i < text::split(a, '\n').len() && i < 8 {
        assert(x[i] == fullscreen::LineText::DiffOld(text::split(a, '\n')[i]));
        assert(v[1 + i] == x[i]);
    }
    if 0 <= i < text::split(b, '\n').len() && i < 8 {
        assert(y[i] == fullscreen::LineText::DiffNew(text::split(b, '\n')[i]));
        assert(v[1 + x.len() + i] == y[i]);
    }
    if text::split(a, '\n').len() > 8 {
        assert(v[9] == x[8]);
    }
}

/// What streams in stands at the end of the reply, and of the thought, that is
/// shown.
pub proof fn law_tokens_are_shown(st: fullscreen::StateText, token: Seq<char>, s: Seq<char>)
    requires
        fullscreen::valid(st),
    ensures
        ({
            let t = fullscreen::active_tab(reply_extended(st, token));
            &&& t.lines.len() > 0 && t.lines.last() is Text && t.lines.last()->role
                == ChatRole::Assistant
            &&& text::ends(t.lines.last()->text, token)
            &&& t.scroll == 0
        }),
        ({
            let t = fullscreen::active_tab(thought_extended(st, token));
            t.lines.len() > 0 && t.lines.last() is Thinking && text::ends(
                t.lines.last()->Thinking_0,
                token,
            )
        }),
        !ends_in_reply(fullscreen::active_tab(st)) ==> fullscreen::active_tab(
            reply_extended(st, token),
        ).lines.last()->text == token,
        ends_in_reply(fullscreen::active_tab(st)) ==> fullscreen::active_tab(
            reply_extended(st, token),
        ).lines.last()->text == fullscreen::active_tab(st).lines.last()->text + token,
{
    let tab = fullscreen::active_tab(st);
    let a = if ends_in_reply(tab) {
        tab.lines.last()->text
    } else {
        Seq::empty()
    };
    text::law_affixes(token, a, Seq::empty());
    let b = if tab.lines.len() > 0 && tab.lines.last() is Thinking {
        tab.lines.last()->Thinking_0
    } else {
        Seq::empty()
    };
    text::law_affixes(token, b, Seq::empty());
    assert(Seq::<char>::empty() + token =~= token);
    fullscreen::law_lines_are_added(
        st,
        fullscreen::LineText::Text { role: ChatRole::Assistant, text: Seq::empty() },
        0,
    );
    fullscreen::law_lines_are_added(st, fullscreen::LineText::Thinking(Seq::empty()), 0);
}

/// What is set on the view is shown there and changes nothing else.
pub proof fn law_settings_of_the_view()
    ensures
        forall|f: &mut Fullscreen, s: String, now: u64| #[trigger]
            call_ensures(Fullscreen::set_status, (f, s, now), ()) && f.state.wf()
                ==> final(f).state@.status == s@ && final(f).state@.status_set_at == Some(now)
                && final(f).state@.sessions == f.state@.sessions && final(f).state@.input
                == f.state@.input,
        forall|f: &mut Fullscreen, now: u64| #[trigger]
            call_ensures(Fullscreen::expire_status, (f, now), ()) && f.state.wf() ==> {
                &&& f.state@.status_set_at matches Some(at) ==> (now - at > 5000
                    ==> final(f).state@.status.len() == 0) && (now - at <= 5000 ==> final(f).state@
                    == f.state@)
                &&& f.state@.status_set_at is None ==> final(f).state@ == f.state@
            },
        forall|f: &mut Fullscreen, a: u32, b: u32| #[trigger]
            call_ensures(Fullscreen::set_token_count, (f, a, b), ()) && f.state.wf()
                ==> final(f).state@.token_prompt == a && final(f).state@.token_completion == b,
        forall|f: &mut Fullscreen| #[trigger]
            call_ensures(Fullscreen::toggle_thinking, (f,), ()) && f.state.wf()
                ==> final(f).state@.show_thinking == !f.state@.show_thinking,
        forall|f: &mut Fullscreen| #[trigger]
            call_ensures(Fullscreen::request_quit, (f,), ()) && f.state.wf() ==> final(f).state@.quit,
        forall|f: &mut Fullscreen, t: String| #[trigger]
            call_ensures(Fullscreen::new_session, (f, t), ()) && f.state.wf()
                && f.state@.sessions.len() < usize::MAX ==> final(f).state@.sessions.len()
                == f.state@.sessions.len() + 1 && fullscreen::active_tab(final(f).state@).title == t@
                && fullscreen::active_tab(final(f).state@).lines.len() == 0,
        forall|f: &mut Fullscreen, p: String, o: Vec<String>| #[trigger]
            call_ensures(Fullscreen::ask, (f, p, o), ()) && f.state.wf() ==> (final(f).state@.modal matches Some(m) && m.prompt == p@ && m.selection == 0 && m.resolved is None
                && m.options == text::texts(o@)),
        forall|f: &mut Fullscreen, r: Option<SelectionResult>| #[trigger]
            call_ensures(Fullscreen::show_modal, (f,), r) && f.state.wf() ==> (f.state@.modal is None
                ==> r is None) && (f.state@.modal matches Some(m) ==> r == m.resolved && (
            m.resolved is None ==> final(f).state@.modal == f.state@.modal) && (m.resolved is Some
                ==> final(f).state@.modal is None)),
{
}

} // verus!
