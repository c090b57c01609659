//! What the keys and the mouse wheel do.

use vstd::prelude::*;

use crate::fullscreen::{ChatLine, ChatRole, FullscreenState, SelectionResult};
use crate::fullscreen::input;
use crate::fullscreen;
use crate::text;

verus! {

/// A key.
#[derive(Debug, Clone, Copy, PartialEq, Eq, Structural)]
pub enum Key {
    Up,
    Down,
    Left,
    Right,
    Home,
    End,
    PageUp,
    PageDown,
    Tab,
    BackTab,
    Esc,
    Enter,
    Backspace,
    Delete,
    Char(char),
    Other,
}

/// What is to be done outside the view.
#[derive(Debug)]
pub enum KeyAction {
    Nothing,
    /// A message is to be sent to the model.
    Submit(String),
    /// A command is to be run.
    Command(String),
}

pub ghost enum ActionText {
    Nothing,
    Submit(Seq<char>),
    Command(Seq<char>),
}

impl View for KeyAction {
    type V = ActionText;

    open spec fn view(&self) -> ActionText {
        match self {
            KeyAction::Nothing => ActionText::Nothing,
            KeyAction::Submit(s) => ActionText::Submit(s@),
            KeyAction::Command(s) => ActionText::Command(s@),
        }
    }
}

// ---------------------------------------------------------------------------
// Scrolling
// ---------------------------------------------------------------------------

/// How far a chat of `n` entries can be scrolled up.
pub open spec fn furthest_up(n: nat) -> int {
    if n == 0 {
        0
    } else if n - 1 <= i32::MAX {
        -(n - 1)
    } else {
        -(i32::MAX as int)
    }
}

/// A position in a chat, `by` entries further up.
pub open spec fn scrolled_up(t: fullscreen::TabText, by: int) -> fullscreen::TabText {
    let far = furthest_up(t.lines.len());
    fullscreen::TabText {
        scroll: if t.scroll - by > far {
            (t.scroll - by) as i32
        } else {
            far as i32
        },
        ..t
    }
}

/// A position in a chat, `by` entries further down.
pub open spec fn scrolled_down(t: fullscreen::TabText, by: int) -> fullscreen::TabText {
    fullscreen::TabText {
        scroll: if t.scroll + by < 0 {
            (t.scroll + by) as i32
        } else {
            0
        },
        ..t
    }
}

impl FullscreenState {
    fn scroll_up(&mut self, by: i32)
        requires
            old(self).wf(),
            0 <= by <= 10,
        ensures
            final(self)@ == fullscreen::with_active(
                old(self)@,
                scrolled_up(fullscreen::active_tab(old(self)@), by as int),
            ),
            final(self).wf(),
    {
        let idx: usize = self.active_session;
        let ghost start = self@;
        let ghost before = self.sessions@;
        assert(start.sessions[idx as int] == before[idx as int]@);
        let tab = &mut self.sessions[idx];
        let n: usize = tab.chat_lines.len();
        assert(fullscreen::line_texts(tab.chat_lines@).len() == n);
        let far: i64 = if n == 0 {
            0
        } else if n - 1 <= 0x7fff_ffff {
            -((n - 1) as i64)
        } else {
            -0x7fff_ffff
        };
        let to: i64 = tab.scroll as i64 - by as i64;
        tab.scroll = if to > far {
            to as i32
        } else {
            far as i32
        };
        let ghost done = scrolled_up(before[idx as int]@, by as int);
        assert(self@.sessions =~= start.sessions.update(idx as int, done));
        proof {
            fullscreen::lemma_valid_active(start, done);
        }
    }

    fn scroll_down(&mut self, by: i32)
        requires
            old(self).wf(),
            0 <= by <= 10,
        ensures
            final(self)@ == fullscreen::with_active(
                old(self)@,
                scrolled_down(fullscreen::active_tab(old(self)@), by as int),
            ),
            final(self).wf(),
    {
        let idx: usize = self.active_session;
        let ghost start = self@;
        let ghost before = self.sessions@;
        assert(start.sessions[idx as int] == before[idx as int]@);
        let tab = &mut self.sessions[idx];
        let to: i64 = tab.scroll as i64 + by as i64;
        tab.scroll = if to < 0 {
            to as i32
        } else {
            0
        };
        let ghost done = scrolled_down(before[idx as int]@, by as int);
        assert(self@.sessions =~= start.sessions.update(idx as int, done));
        proof {
            fullscreen::lemma_valid_active(start, done);
        }
    }

    /// The mouse wheel: three entries up or down.
    pub fn handle_mouse(&mut self, up: bool)
        requires
            old(self).wf(),
        ensures
            final(self)@ == fullscreen::with_active(
                old(self)@,
                if up {
                    scrolled_up(fullscreen::active_tab(old(self)@), 3)
                } else {
                    scrolled_down(fullscreen::active_tab(old(self)@), 3)
                },
            ),
            final(self).wf(),
    {
        if up {
            self.scroll_up(3);
        } else {
            self.scroll_down(3);
        }
    }
}

// ---------------------------------------------------------------------------
// Keys
// ---------------------------------------------------------------------------

/// What a key does to a question to the user.
pub open spec fn modal_key(m: fullscreen::ModalText, key: Key) -> fullscreen::ModalText {
    match key {
        Key::Up => if m.selection > 0 {
            fullscreen::ModalText { selection: (m.selection - 1) as usize, ..m }
        } else {
            m
        },
        Key::Down => if m.selection + 1 < m.options.len() {
            fullscreen::ModalText { selection: (m.selection + 1) as usize, ..m }
        } else {
            m
        },
        Key::Enter => fullscreen::ModalText {
            resolved: Some(SelectionResult::Selected(m.selection)),
            ..m
        },
        Key::Esc => fullscreen::ModalText { resolved: Some(SelectionResult::Cancelled), ..m },
        Key::Char(c) => if c == 'y' || c == 'Y' {
            fullscreen::ModalText { resolved: Some(SelectionResult::Selected(0)), ..m }
        } else if c == 'n' || c == 'N' {
            fullscreen::ModalText { resolved: Some(SelectionResult::Cancelled), ..m }
        } else if text::is_digit(c) {
            let d = text::digit_value(c);
            let idx: int = if d > 0 {
                d - 1
            } else {
                0
            };
            if idx < m.options.len() {
                fullscreen::ModalText {
                    resolved: Some(SelectionResult::Selected(idx as usize)),
                    ..m
                }
            } else {
                m
            }
        } else {
            m
        },
        _ => m,
    }
}

/// What a key does while the user is asked whether to quit.
pub open spec fn quit_key(st: fullscreen::StateText, key: Key) -> fullscreen::StateText {
    match key {
        Key::Char(c) => if c == 'y' || c == 'Y' {
            fullscreen::StateText { quit: true, ..st }
        } else if c == 'n' || c == 'N' {
            fullscreen::StateText { quit_confirm: false, ..st }
        } else {
            st
        },
        Key::Esc => fullscreen::StateText { quit_confirm: false, ..st },
        _ => st,
    }
}

/// What a key does together with Control; nothing when it does what it does
/// without.
pub open spec fn control_key(st: fullscreen::StateText, key: Key) -> Option<fullscreen::StateText> {
    match key {
        Key::Char(c) => if c == 'c' || c == 'd' {
            Some(fullscreen::StateText { quit: true, ..st })
        } else if c == 'q' {
            Some(fullscreen::StateText { quit_confirm: true, ..st })
        } else if c == 'l' {
            Some(st)
        } else if c == 'a' {
            Some(fullscreen::StateText { cursor: 0, ..st })
        } else if c == 'e' {
            Some(at_end(st))
        } else if c == 't' {
            Some(fullscreen::StateText { show_thinking: !st.show_thinking, ..st })
        } else if c == 'u' {
            Some(
                fullscreen::StateText {
                    input: Seq::empty(),
                    cursor: 0,
                    palette_open: false,
                    ..st
                },
            )
        } else {
            None
        },
        _ => None,
    }
}

/// The view with the cursor behind the input.
pub open spec fn at_end(st: fullscreen::StateText) -> fullscreen::StateText {
    fullscreen::StateText { cursor: text::utf8_len(st.input) as usize, ..st }
}

/// The view with the list of commands closed.
pub open spec fn palette_closed(st: fullscreen::StateText) -> fullscreen::StateText {
    fullscreen::StateText {
        palette_open: false,
        palette_selection: 0,
        palette_scroll: 0,
        ..st
    }
}

/// The view with the list of commands open exactly when a command is typed.
pub open spec fn palette_matched(st: fullscreen::StateText) -> fullscreen::StateText {
    if text::starts(st.input, "/"@) {
        fullscreen::StateText { palette_open: true, ..st }
    } else {
        palette_closed(st)
    }
}

/// The view with the command that is picked from the list as its input.
pub open spec fn picked(st: fullscreen::StateText) -> fullscreen::StateText {
    if st.palette_open {
        let f = input::filtered(st.input);
        let sel = if st.palette_selection < f.len() {
            st.palette_selection as int
        } else {
            f.len() - 1
        };
        palette_closed(
            if f.len() > 0 {
                at_end(fullscreen::StateText { input: f[sel].cmd, ..st })
            } else {
                st
            },
        )
    } else {
        st
    }
}

/// The view with a line in its history, and the place in the history behind it.
pub open spec fn remembered(st: fullscreen::StateText, line: Seq<char>) -> fullscreen::StateText {
    let h = fullscreen::last_of(st.history.push(line), fullscreen::MAX_HISTORY as int);
    fullscreen::StateText { history: h, history_idx: h.len() as usize, ..st }
}

/// What Enter does.
pub open spec fn entered(st: fullscreen::StateText) -> (fullscreen::StateText, ActionText) {
    let st1 = picked(st);
    let line = text::trimmed(st1.input);
    let st2 = fullscreen::StateText { input: Seq::empty(), cursor: 0, ..st1 };
    if line.len() == 0 {
        (st2, ActionText::Nothing)
    } else if text::starts(line, "/"@) {
        (remembered(st2, line), ActionText::Command(line))
    } else {
        (
            fullscreen::pushed(
                fullscreen::pushed(
                    remembered(st2, line),
                    fullscreen::LineText::Text { role: ChatRole::User, text: line },
                ),
                fullscreen::LineText::Spacer,
            ),
            ActionText::Submit(line),
        )
    }
}

/// The view with the line of the history at `i` as its input.
pub open spec fn recalled(st: fullscreen::StateText, i: int) -> fullscreen::StateText {
    at_end(
        fullscreen::StateText {
            history_idx: i as usize,
            input: if 0 <= i < st.history.len() {
                st.history[i]
            } else {
                Seq::empty()
            },
            ..st
        },
    )
}

/// What a key does by itself.
pub open spec fn plain_key(st: fullscreen::StateText, key: Key) -> (
    fullscreen::StateText,
    ActionText,
) {
    match key {
        Key::Enter => entered(st),
        Key::Tab => (
            fullscreen::StateText {
                active: ((st.active + 1) % st.sessions.len() as int) as usize,
                ..st
            },
            ActionText::Nothing,
        ),
        Key::BackTab => (
            fullscreen::StateText {
                active: if st.active == 0 {
                    (st.sessions.len() - 1) as usize
                } else {
                    (st.active - 1) as usize
                },
                ..st
            },
            ActionText::Nothing,
        ),
        Key::Esc => (
            if st.palette_open {
                palette_closed(st)
            } else {
                fullscreen::StateText { quit_confirm: true, ..st }
            },
            ActionText::Nothing,
        ),
        Key::Backspace => (
            palette_matched(
                fullscreen::StateText {
                    input: input::without_previous(st.input, st.cursor as int),
                    cursor: input::previous_position(st.input, st.cursor as int) as usize,
                    ..st
                },
            ),
            ActionText::Nothing,
        ),
        Key::Delete => (
            fullscreen::StateText { input: input::without_next(st.input, st.cursor as int), ..st },
            ActionText::Nothing,
        ),
        Key::Left => (
            fullscreen::StateText {
                cursor: input::boundary_before(
                    st.input,
                    st.cursor as int,
                    st.input.len() as int,
                ) as usize,
                ..st
            },
            ActionText::Nothing,
        ),
        Key::Right => (
            fullscreen::StateText {
                cursor: input::boundary_after(st.input, st.cursor as int, 0) as usize,
                ..st
            },
            ActionText::Nothing,
        ),
        Key::Home => (fullscreen::StateText { cursor: 0, ..st }, ActionText::Nothing),
        Key::End => (at_end(st), ActionText::Nothing),
        Key::Up => (
            if st.palette_open {
                let sel = if st.palette_selection > 0 {
                    (st.palette_selection - 1) as usize
                } else {
                    st.palette_selection
                };
                fullscreen::StateText {
                    palette_selection: sel,
                    palette_scroll: if sel < st.palette_scroll {
                        sel
                    } else {
                        st.palette_scroll
                    },
                    ..st
                }
            } else if st.history_idx > 0 {
                recalled(st, st.history_idx - 1)
            } else {
                st
            },
            ActionText::Nothing,
        ),
        Key::Down => (
            if st.palette_open {
                if st.palette_selection + 1 < input::filtered(st.input).len() {
                    fullscreen::StateText {
                        palette_selection: (st.palette_selection + 1) as usize,
                        ..st
                    }
                } else {
                    st
                }
            } else if st.history_idx + 1 < st.history.len() {
                recalled(st, st.history_idx + 1)
            } else {
                recalled(st, st.history.len() as int)
            },
            ActionText::Nothing,
        ),
        Key::PageUp => (
            fullscreen::with_active(st, scrolled_up(fullscreen::active_tab(st), 10)),
            ActionText::Nothing,
        ),
        Key::PageDown => (
            fullscreen::with_active(st, scrolled_down(fullscreen::active_tab(st), 10)),
            ActionText::Nothing,
        ),
        Key::Char(c) => (
            palette_matched(
                fullscreen::StateText {
                    input: input::inserted(st.input, st.cursor as int, seq![c]),
                    cursor: (st.cursor + text::width(c)) as usize,
                    ..st
                },
            ),
            ActionText::Nothing,
        ),
        Key::Other => (st, ActionText::Nothing),
    }
}

/// What a key does: a question to the user comes first, then the question
/// whether to quit, then the keys that go with Control.
pub open spec fn handled(st: fullscreen::StateText, key: Key, ctrl: bool) -> (
    fullscreen::StateText,
    ActionText,
) {
    match st.modal {
        Some(m) => (
            fullscreen::StateText { modal: Some(modal_key(m, key)), ..st },
            ActionText::Nothing,
        ),
        None => if st.quit_confirm {
            (quit_key(st, key), ActionText::Nothing)
        } else if ctrl && control_key(st, key) is Some {
            (control_key(st, key)->0, ActionText::Nothing)
        } else {
            plain_key(st, key)
        },
    }
}

proof fn lemma_end_boundary(s: Seq<char>)
    ensures
        text::is_boundary(s, text::utf8_len(s) as int),
        text::is_boundary(s, 0),
{
    assert(s.take(s.len() as int) =~= s);
    text::lemma_index_of_take(s, s.len() as int);
    assert(s.take(0) =~= Seq::<char>::empty());
    text::lemma_index_of_take(s, 0);
}

impl FullscreenState {
    fn key_in_modal(&mut self, key: Key)
        requires
            old(self).wf(),
            old(self)@.modal is Some,
        ensures
            final(self)@ == (fullscreen::StateText {
                modal: Some(modal_key(old(self)@.modal->0, key)),
                ..old(self)@
            }),
            final(self).wf(),
    {
        let ghost start = self@;
        match &mut self.modal {
            Some(m) => {
                let n: usize = m.options.len();
                assert(text::texts(m.options@).len() == n);
                match key {
                    Key::Up => {
                        if m.selection > 0 {
                            m.selection = m.selection - 1;
                        }
                    },
                    Key::Down => {
                        if n > 0 && m.selection < n - 1 {
                            m.selection = m.selection + 1;
                        }
                    },
                    Key::Enter => {
                        m.resolved = Some(SelectionResult::Selected(m.selection));
                    },
                    Key::Esc => {
                        m.resolved = Some(SelectionResult::Cancelled);
                    },
                    Key::Char(c) => {
                        if c == 'y' || c == 'Y' {
                            m.resolved = Some(SelectionResult::Selected(0));
                        } else if c == 'n' || c == 'N' {
                            m.resolved = Some(SelectionResult::Cancelled);
                        } else if '0' <= c && c <= '9' {
                            let d: usize = (c as u32 - 48) as usize;
                            let idx: usize = if d > 0 {
                                d - 1
                            } else {
                                0
                            };
                            if idx < n {
                                m.resolved = Some(SelectionResult::Selected(idx));
                            }
                        }
                    },
                    _ => {},
                }
            },
            None => {},
        }
    }

    fn key_in_quit(&mut self, key: Key)
        requires
            old(self).wf(),
        ensures
            final(self)@ == quit_key(old(self)@, key),
            final(self).wf(),
    {
        match key {
            Key::Char(c) => {
                if c == 'y' || c == 'Y' {
                    self.quit = true;
                } else if c == 'n' || c == 'N' {
                    self.quit_confirm = false;
                }
            },
            Key::Esc => {
                self.quit_confirm = false;
            },
            _ => {},
        }
    }

    fn cursor_to_end(&mut self)
        requires
            old(self)@.active < old(self)@.sessions.len(),
            old(self)@.history_idx <= old(self)@.history.len(),
            forall|i: int|
                0 <= i < old(self)@.sessions.len() ==> (#[trigger] old(self)@.sessions[i]).scroll
                    <= 0,
        ensures
            final(self)@ == at_end(old(self)@),
            final(self).wf(),
    {
        self.input_cursor = text::byte_len(&self.input);
        proof {
            lemma_end_boundary(self.input@);
        }
    }

    fn key_with_control(&mut self, key: Key) -> (taken: bool)
        requires
            old(self).wf(),
        ensures
            taken == (control_key(old(self)@, key) is Some),
            final(self)@ == (if taken {
                control_key(old(self)@, key)->0
            } else {
                old(self)@
            }),
            final(self).wf(),
    {
        proof {
            lemma_end_boundary(self.input@);
            lemma_end_boundary(Seq::<char>::empty());
        }
        match key {
            Key::Char(c) => {
                if c == 'c' || c == 'd' {
                    self.quit = true;
                    true
                } else if c == 'q' {
                    self.quit_confirm = true;
                    true
                } else if c == 'l' {
                    true
                } else if c == 'a' {
                    self.input_cursor = 0;
                    true
                } else if c == 'e' {
                    self.cursor_to_end();
                    true
                } else if c == 't' {
                    self.show_thinking = !self.show_thinking;
                    true
                } else if c == 'u' {
                    self.input = String::new();
                    assert(self.input@ =~= Seq::<char>::empty());
                    self.input_cursor = 0;
                    self.palette_open = false;
                    true
                } else {
                    false
                }
            },
            _ => false,
        }
    }

    fn close_palette(&mut self)
        requires
            old(self).wf(),
        ensures
            final(self)@ == palette_closed(old(self)@),
            final(self).wf(),
    {
        self.palette_open = false;
        self.palette_selection = 0;
        self.palette_scroll = 0;
    }

    fn match_palette(&mut self)
        requires
            old(self).wf(),
        ensures
            final(self)@ == palette_matched(old(self)@),
            final(self).wf(),
    {
        if text::starts_with(&self.input, "/") {
            self.palette_open = true;
        } else {
            self.close_palette();
        }
    }

    fn remember(&mut self, line: String)
        requires
            old(self).wf(),
        ensures
            final(self)@ == remembered(old(self)@, line@),
            final(self).wf(),
    {
        let ghost all = text::texts(self.history@).push(line@);
        proof {
            text::lemma_texts_push(self.history@, line);
        }
        self.history.push(line);
        let ghost mut dropped: int = 0;
        let ghost rest = self@;
        assert(all.skip(0) =~= all);
        while self.history.len() > fullscreen::MAX_HISTORY
            invariant
                0 <= dropped <= all.len(),
                text::texts(self.history@) == all.skip(dropped),
                dropped > 0 ==> self.history@.len() >= fullscreen::MAX_HISTORY,
                self@ == (fullscreen::StateText { history: text::texts(self.history@), ..rest }),
            decreases self.history.len(),
        {
            let ghost before = self.history@;
            let _ = self.history.remove(0);
            proof {
                assert(text::texts(self.history@) =~= text::texts(before).drop_first());
                assert(all.skip(dropped).drop_first() =~= all.skip(dropped + 1));
                dropped = dropped + 1;
            }
        }
        proof {
            assert(text::texts(self.history@).len() == self.history@.len());
            assert(text::texts(self.history@) =~= fullscreen::last_of(
                all,
                fullscreen::MAX_HISTORY as int,
            ));
        }
        self.history_idx = self.history.len();
    }

    fn pick(&mut self)
        requires
            old(self).wf(),
        ensures
            final(self)@ == picked(old(self)@),
            final(self).wf(),
    {
        if self.palette_open {
            let f = input::filtered_commands(&self.input);
            assert(input::command_texts(f@).len() == f@.len());
            if f.len() > 0 {
                let sel: usize = if self.palette_selection < f.len() {
                    self.palette_selection
                } else {
                    f.len() - 1
                };
                assert(input::command_texts(f@)[sel as int] == f@[sel as int]@);
                self.input = f[sel].cmd.to_owned();
                self.cursor_to_end();
            }
            self.close_palette();
        }
    }

    fn enter(&mut self) -> (r: KeyAction)
        requires
            old(self).wf(),
        ensures
            (final(self)@, r@) == entered(old(self)@),
            final(self).wf(),
    {
        self.pick();
        let line = text::trim(&self.input);
        self.input = String::new();
        assert(self.input@ =~= Seq::<char>::empty());
        self.input_cursor = 0;
        proof {
            lemma_end_boundary(self.input@);
        }
        if line.as_str().is_empty() {
            return KeyAction::Nothing;
        }
        let copy = line.clone();
        self.remember(copy);
        if text::starts_with(&line, "/") {
            return KeyAction::Command(line);
        }
        let shown = line.clone();
        self.push_line(ChatLine::Text { role: ChatRole::User, text: shown });
        self.push_line(ChatLine::Spacer);
        KeyAction::Submit(line)
    }

    fn recall(&mut self, i: usize)
        requires
            old(self).wf(),
            i <= old(self)@.history.len(),
        ensures
            final(self)@ == recalled(old(self)@, i as int),
            final(self).wf(),
    {
        assert(text::texts(self.history@).len() == self.history@.len());
        self.history_idx = i;
        if i < self.history.len() {
            assert(text::texts(self.history@)[i as int] == self.history@[i as int]@);
            self.input = self.history[i].clone();
        } else {
            self.input = String::new();
            assert(self.input@ =~= Seq::<char>::empty());
        }
        self.cursor_to_end();
    }

    fn backspace(&mut self)
        requires
            old(self).wf(),
        ensures
            final(self)@ == plain_key(old(self)@, Key::Backspace).0,
            final(self).wf(),
    {
        proof {
            input::law_edits_keep_the_cursor(
                self.input@,
                self.input_cursor as int,
                Seq::empty(),
            );
        }
        let at = input::remove_prev_char(&mut self.input, self.input_cursor);
        self.input_cursor = at;
        self.match_palette();
    }

    fn delete(&mut self)
        requires
            old(self).wf(),
        ensures
            final(self)@ == plain_key(old(self)@, Key::Delete).0,
            final(self).wf(),
    {
        proof {
            input::law_edits_keep_the_cursor(
                self.input@,
                self.input_cursor as int,
                Seq::empty(),
            );
        }
        input::remove_next_char(&mut self.input, self.input_cursor);
    }

    fn left(&mut self)
        requires
            old(self).wf(),
        ensures
            final(self)@ == plain_key(old(self)@, Key::Left).0,
            final(self).wf(),
    {
        let to = input::prev_char_boundary(&self.input, self.input_cursor);
        proof {
            lemma_end_boundary(self.input@);
            text::lemma_index_at(self.input@, self.input_cursor as int);
            let i = text::index_at(self.input@, self.input_cursor as int)->0;
            if i > 0 {
                input::law_previous_boundary(self.input@, i);
                text::lemma_index_of_take(self.input@, i - 1);
            } else {
                assert(self.input@.take(0) =~= Seq::<char>::empty());
                input::lemma_before_start(self.input@, self.input@.len() as int);
            }
        }
        self.input_cursor = to;
    }

    fn right(&mut self)
        requires
            old(self).wf(),
        ensures
            final(self)@ == plain_key(old(self)@, Key::Right).0,
            final(self).wf(),
    {
        let to = input::next_char_boundary(&self.input, self.input_cursor);
        proof {
            lemma_end_boundary(self.input@);
            text::lemma_index_at(self.input@, self.input_cursor as int);
            let i = text::index_at(self.input@, self.input_cursor as int)->0;
            if i < self.input@.len() {
                input::law_next_boundary(self.input@, i);
                text::lemma_index_of_take(self.input@, i + 1);
            } else {
                assert(self.input@.take(i) =~= self.input@);
                input::lemma_after_end(self.input@, self.input_cursor as int, 0);
            }
        }
        self.input_cursor = to;
    }

    fn type_char(&mut self, c: char)
        requires
            old(self).wf(),
        ensures
            final(self)@ == plain_key(old(self)@, Key::Char(c)).0,
            final(self).wf(),
    {
        let mut s: String = String::new();
        s.push(c);
        assert(s@ =~= seq![c]);
        proof {
            input::law_edits_keep_the_cursor(self.input@, self.input_cursor as int, s@);
            text::lemma_utf8_len_push(Seq::<char>::empty(), c);
            assert(Seq::<char>::empty().push(c) =~= seq![c]);
        }
        let pos: usize = self.input_cursor;
        let w = text::char_width(c);
        input::insert_str_at(&mut self.input, pos, &s);
        let size = text::byte_len(&self.input);
        proof {
            text::lemma_index_at(self.input@, pos + w);
            let j = text::index_at(self.input@, pos + w)->0;
            text::lemma_utf8_len_take(self.input@, j, self.input@.len() as int);
            assert(self.input@.take(self.input@.len() as int) =~= self.input@);
        }
        self.input_cursor = pos + w;
        self.match_palette();
    }

    fn change_session(&mut self, on: bool)
        requires
            old(self).wf(),
        ensures
            final(self)@ == plain_key(
                old(self)@,
                if on {
                    Key::Tab
                } else {
                    Key::BackTab
                },
            ).0,
            final(self).wf(),
    {
        let ghost start = self@;
        assert(fullscreen::tab_texts(self.sessions@).len() == self.sessions@.len());
        let n: usize = self.sessions.len();
        if on {
            if self.active_session + 1 == n {
                self.active_session = 0;
            } else {
                self.active_session = self.active_session + 1;
            }
            assert((start.active + 1) % (n as int) == self.active_session) by {
                if start.active + 1 == n {
                    vstd::arithmetic::div_mod::lemma_mod_self_0(n as int);
                } else {
                    vstd::arithmetic::div_mod::lemma_small_mod(
                        (start.active + 1) as nat,
                        n as nat,
                    );
                }
            }
        } else if self.active_session == 0 {
            self.active_session = n - 1;
        } else {
            self.active_session = self.active_session - 1;
        }
    }

    fn up(&mut self)
        requires
            old(self).wf(),
        ensures
            final(self)@ == plain_key(old(self)@, Key::Up).0,
            final(self).wf(),
    {
        if self.palette_open {
            if self.palette_selection > 0 {
                self.palette_selection = self.palette_selection - 1;
            }
            if self.palette_selection < self.palette_scroll {
                self.palette_scroll = self.palette_selection;
            }
        } else if self.history_idx > 0 {
            self.recall(self.history_idx - 1);
        }
    }

    fn down(&mut self)
        requires
            old(self).wf(),
        ensures
            final(self)@ == plain_key(old(self)@, Key::Down).0,
            final(self).wf(),
    {
        if self.palette_open {
            let f = input::filtered_commands(&self.input);
            assert(input::command_texts(f@).len() == f@.len());
            if f.len() > 0 && self.palette_selection < f.len() - 1 {
                self.palette_selection = self.palette_selection + 1;
            }
        } else {
            let n: usize = self.history.len();
            assert(text::texts(self.history@).len() == n);
            if n > 0 && self.history_idx < n - 1 {
                self.recall(self.history_idx + 1);
            } else {
                self.recall(n);
            }
        }
    }

    fn key_by_itself(&mut self, key: Key) -> (r: KeyAction)
        requires
            old(self).wf(),
        ensures
            (final(self)@, r@) == plain_key(old(self)@, key),
            final(self).wf(),
    {
        match key {
            Key::Enter => {
                return self.enter();
            },
            Key::Tab => self.change_session(true),
            Key::BackTab => self.change_session(false),
            Key::Esc => {
                if self.palette_open {
                    self.close_palette();
                } else {
                    self.quit_confirm = true;
                }
            },
            Key::Backspace => self.backspace(),
            Key::Delete => self.delete(),
            Key::Left => self.left(),
            Key::Right => self.right(),
            Key::Home => {
                proof {
                    lemma_end_boundary(self.input@);
                }
                self.input_cursor = 0;
            },
            Key::End => self.cursor_to_end(),
            Key::Up => self.up(),
            Key::Down => self.down(),
            Key::PageUp => self.scroll_up(10),
            Key::PageDown => self.scroll_down(10),
            Key::Char(c) => self.type_char(c),
            Key::Other => {},
        }
        KeyAction::Nothing
    }

    /// What a key does, with or without Control.
    pub fn handle_key(&mut self, key: Key, ctrl: bool) -> (r: KeyAction)
        requires
            old(self).wf(),
        ensures
            (final(self)@, r@) == handled(old(self)@, key, ctrl),
            final(self).wf(),
    {
        if self.modal.is_some() {
            self.key_in_modal(key);
            return KeyAction::Nothing;
        }
        if self.quit_confirm {
            self.key_in_quit(key);
            return KeyAction::Nothing;
        }
        if ctrl {
            if self.key_with_control(key) {
                return KeyAction::Nothing;
            }
        }
        self.key_by_itself(key)
    }
}

// ---------------------------------------------------------------------------
// Laws
// ---------------------------------------------------------------------------

/// While the user is asked something, no key reaches the input, the chats or
/// the sessions.
pub proof fn law_question_comes_first(st: fullscreen::StateText, key: Key, ctrl: bool)
    requires
        st.modal is Some || st.quit_confirm,
    ensures
        handled(st, key, ctrl).0.input == st.input,
        handled(st, key, ctrl).0.sessions == st.sessions,
        handled(st, key, ctrl).0.active == st.active,
        handled(st, key, ctrl).1 == ActionText::Nothing,
{
}

/// A line goes to the model or is run as a command only when it is not blank,
/// and it is run as a command exactly when it starts with a slash.
pub proof fn law_enter(st: fullscreen::StateText)
    ensures
        match entered(st).1 {
            ActionText::Nothing => text::trimmed(picked(st).input).len() == 0,
            ActionText::Submit(s) => s.len() > 0 && !text::starts(s, "/"@),
            ActionText::Command(s) => text::starts(s, "/"@),
        },
        entered(st).0.input.len() == 0,
        entered(st).0.cursor == 0,
{
    if text::starts(text::trimmed(picked(st).input), "/"@) {
    }
}

/// The history keeps its last five hundred lines.
pub proof fn law_history_is_bounded(st: fullscreen::StateText, line: Seq<char>)
    ensures
        remembered(st, line).history.len() <= fullscreen::MAX_HISTORY,
        remembered(st, line).history.last() == line,
        remembered(st, line).history_idx == remembered(st, line).history.len(),
{
}

/// Going once round the sessions comes back to where one was.
pub proof fn law_tab_and_back(st: fullscreen::StateText)
    requires
        fullscreen::valid(st),
        st.sessions.len() <= usize::MAX,
    ensures
        plain_key(plain_key(st, Key::Tab).0, Key::BackTab).0 == st,
{
    let n = st.sessions.len() as int;
    if st.active + 1 == n {
        vstd::arithmetic::div_mod::lemma_mod_self_0(n);
    } else {
        vstd::arithmetic::div_mod::lemma_small_mod((st.active + 1) as nat, n as nat);
    }
}

/// A letter stands in the text where the cursor is, and the cursor behind it;
/// a slash at the start opens the list of commands.
pub proof fn law_letters_are_written(st: fullscreen::StateText, a: Seq<char>, b: Seq<char>, c: char)
    requires
        fullscreen::valid(st),
        st.modal is None,
        !st.quit_confirm,
        st.input == a + b,
        st.cursor == text::utf8_len(a),
        text::utf8_len(a) + 4 <= usize::MAX,
    ensures
        ({
            let next = handled(st, Key::Char(c), false).0;
            &&& next.input == a + seq![c] + b
            &&& next.cursor == text::utf8_len(a.push(c))
            &&& next.palette_open <==> (a + seq![c] + b)[0] == '/'
            &&& next.sessions == st.sessions && next.history == st.history
        }),
        handled(st, Key::Char(c), false).1 is Nothing,
{
    let n = a.len() as int;
    assert(st.input.take(n) =~= a);
    assert(st.input.skip(n) =~= b);
    text::lemma_index_of_take(st.input, n);
    text::lemma_utf8_len_push(a, c);
    let t = a + seq![c] + b;
    reveal_strlit("/");
    assert(t.subrange(0, 1)[0] == t[0]);
    if t[0] == '/' {
        assert(t.subrange(0, 1) =~= "/"@);
    }
    assert("/"@.len() == 1 && "/"@[0] == '/');
}

/// Backspace takes the character before the cursor, and Delete the one behind
/// it.
pub proof fn law_characters_are_taken(st: fullscreen::StateText, a: Seq<char>, c: char, b: Seq<char>)
    requires
        fullscreen::valid(st),
        st.modal is None,
        !st.quit_confirm,
        st.input == a + seq![c] + b,
        text::utf8_len(a + seq![c] + b) <= usize::MAX,
    ensures
        st.cursor == text::utf8_len(a.push(c)) ==> handled(st, Key::Backspace, false).0.input == a + b
            && handled(st, Key::Backspace, false).0.cursor == text::utf8_len(a),
        st.cursor == text::utf8_len(a) ==> handled(st, Key::Delete, false).0.input == a + b
            && handled(st, Key::Delete, false).0.cursor == st.cursor,
        st.cursor == text::utf8_len(a) ==> handled(st, Key::Right, false).0.cursor
            == text::utf8_len(a.push(c)),
        st.cursor == text::utf8_len(a.push(c)) ==> handled(st, Key::Left, false).0.cursor
            == text::utf8_len(a),
        handled(st, Key::Home, false).0.cursor == 0,
        handled(st, Key::End, false).0.cursor == text::utf8_len(st.input),
{
    let s = st.input;
    let n = a.len() as int;
    assert(s.take(n) =~= a);
    assert(s.take(n + 1) =~= a.push(c));
    assert(s.skip(n + 1) =~= b);
    assert(s.skip(n) =~= seq![c] + b);
    assert(s[n] == c);
    text::lemma_index_of_take(s, n);
    text::lemma_index_of_take(s, n + 1);
    text::lemma_utf8_len_push(a, c);
    text::lemma_utf8_len_take(s, n, n + 1);
    text::lemma_utf8_len_take(s, n + 1, s.len() as int);
    assert(s.take(s.len() as int) =~= s);
    input::law_next_boundary(s, n);
    input::law_previous_boundary(s, n + 1);
}

/// What is entered is remembered and said, or done where it is a command; what
/// says nothing is neither.
pub proof fn law_lines_are_entered(st: fullscreen::StateText, line: Seq<char>)
    requires
        fullscreen::valid(st),
        st.modal is None,
        !st.quit_confirm,
        !st.palette_open,
        line == text::trimmed(st.input),
    ensures
        ({
            let (next, action) = handled(st, Key::Enter, false);
            &&& line.len() == 0 ==> action is Nothing && next.history == st.history && next.sessions
                == st.sessions
            &&& line.len() > 0 && line[0] == '/' ==> action == ActionText::Command(line)
                && next.history.last() == line && next.sessions == st.sessions
            &&& line.len() > 0 && line[0] != '/' ==> action == ActionText::Submit(line)
                && next.history.last() == line
            &&& next.input.len() == 0 && next.cursor == 0
        }),
{
    reveal_strlit("/");
    assert("/"@.len() == 1 && "/"@[0] == '/');
    if line.len() > 0 {
        assert(line.subrange(0, 1)[0] == line[0]);
        if line[0] == '/' {
            assert(line.subrange(0, 1) =~= "/"@);
        }
        law_history_is_bounded(
            fullscreen::StateText { input: Seq::empty(), cursor: 0, ..picked(st) },
            line,
        );
    }
}

/// What was written before is called up again, the last first; behind the last
/// the line is empty.
pub proof fn law_history_is_recalled(st: fullscreen::StateText, i: int)
    requires
        st.modal is None,
        !st.quit_confirm,
        !st.palette_open,
        st.history_idx == i,
        0 <= i <= st.history.len() <= usize::MAX,
    ensures
        i > 0 ==> handled(st, Key::Up, false).0.input == st.history[i - 1] && handled(
            st,
            Key::Up,
            false,
        ).0.history_idx == i - 1,
        i == 0 ==> handled(st, Key::Up, false).0 == st,
        i + 1 < st.history.len() ==> handled(st, Key::Down, false).0.input == st.history[i + 1],
        i + 1 >= st.history.len() ==> handled(st, Key::Down, false).0.input.len() == 0,
        handled(st, Key::Up, false).0.history == st.history,
{
}

/// A page up and a page down go ten lines, within what there is.
pub proof fn law_pages(t: fullscreen::TabText)
    requires
        t.scroll <= 0,
        t.lines.len() <= 5000,
        t.scroll >= -5000,
    ensures
        t.scroll - 10 >= 1 - t.lines.len() ==> scrolled_up(t, 10).scroll == t.scroll - 10,
        t.lines.len() > 0 ==> scrolled_up(t, 10).scroll >= 1 - t.lines.len(),
        t.scroll <= -10 ==> scrolled_down(t, 10).scroll == t.scroll + 10,
        t.scroll > -10 ==> scrolled_down(t, 10).scroll == 0,
        scrolled_up(t, 10).lines == t.lines && scrolled_down(t, 10).lines == t.lines,
{
}

/// A question is answered by the selection, by a number, or with yes and no.
pub proof fn law_questions(m: fullscreen::ModalText)
    requires
        m.selection < usize::MAX,
    ensures
        modal_key(m, Key::Enter).resolved == Some(SelectionResult::Selected(m.selection)),
        modal_key(m, Key::Esc).resolved == Some(SelectionResult::Cancelled),
        modal_key(m, Key::Char('y')).resolved == Some(SelectionResult::Selected(0)),
        modal_key(m, Key::Char('n')).resolved == Some(SelectionResult::Cancelled),
        m.options.len() >= 1 ==> modal_key(m, Key::Char('1')).resolved == Some(
            SelectionResult::Selected(0),
        ),
        m.options.len() >= 3 ==> modal_key(m, Key::Char('3')).resolved == Some(
            SelectionResult::Selected(2),
        ),
        m.options.len() < 3 ==> modal_key(m, Key::Char('3')) == m,
        m.selection > 0 ==> modal_key(m, Key::Up).selection == m.selection - 1,
        m.selection == 0 ==> modal_key(m, Key::Up) == m,
        m.selection + 1 < m.options.len() ==> modal_key(m, Key::Down).selection == m.selection + 1,
        m.selection + 1 >= m.options.len() ==> modal_key(m, Key::Down) == m,
        modal_key(m, Key::Char('x')) == m,
{
}

/// The program is left after a yes, or at once with the usual keys; a no goes
/// back.
pub proof fn law_leaving(st: fullscreen::StateText)
    ensures
        st.modal is None && st.quit_confirm ==> handled(st, Key::Char('y'), false).0.quit
            && !handled(st, Key::Char('n'), false).0.quit_confirm && !handled(
            st,
            Key::Esc,
            false,
        ).0.quit_confirm && handled(st, Key::Char('n'), false).0.quit == st.quit,
        st.modal is None && !st.quit_confirm ==> handled(st, Key::Char('c'), true).0.quit && handled(
            st,
            Key::Char('d'),
            true,
        ).0.quit && handled(st, Key::Char('q'), true).0.quit_confirm,
        st.modal is None && !st.quit_confirm && !st.palette_open ==> handled(
            st,
            Key::Esc,
            false,
        ).0.quit_confirm,
        st.modal is None && !st.quit_confirm && st.palette_open ==> !handled(
            st,
            Key::Esc,
            false,
        ).0.palette_open && !handled(st, Key::Esc, false).0.quit_confirm,
{
}

/// The other keys with control: to the start and the end of the line, the line
/// away, the thoughts shown or not.
pub proof fn law_control_keys(st: fullscreen::StateText)
    requires
        st.modal is None,
        !st.quit_confirm,
        text::utf8_len(st.input) <= usize::MAX,
    ensures
        handled(st, Key::Char('a'), true).0.cursor == 0,
        handled(st, Key::Char('e'), true).0.cursor == text::utf8_len(st.input),
        handled(st, Key::Char('u'), true).0.input.len() == 0 && handled(
            st,
            Key::Char('u'),
            true,
        ).0.cursor == 0,
        handled(st, Key::Char('t'), true).0.show_thinking == !st.show_thinking,
        handled(st, Key::Char('l'), true).0 == st,
        handled(st, Key::Char('a'), true).0.input == st.input,
{
}

/// The command that is selected is taken from the list.
pub proof fn law_commands_are_picked(st: fullscreen::StateText, i: int)
    requires
        st.palette_open,
        st.palette_selection == i,
        0 <= i < input::filtered(st.input).len(),
    ensures
        picked(st).input == input::filtered(st.input)[i].cmd,
        !picked(st).palette_open,
        picked(fullscreen::StateText { palette_open: false, ..st }) == (fullscreen::StateText {
            palette_open: false,
            ..st
        }),
{
}

/// The list is gone through one by one and not beyond its ends.
pub proof fn law_list_is_gone_through(st: fullscreen::StateText)
    requires
        st.modal is None,
        !st.quit_confirm,
        st.palette_open,
        st.palette_selection < usize::MAX,
    ensures
        st.palette_selection > 0 ==> handled(st, Key::Up, false).0.palette_selection
            == st.palette_selection - 1,
        st.palette_selection == 0 ==> handled(st, Key::Up, false).0.palette_selection == 0,
        st.palette_selection + 1 < input::filtered(st.input).len() ==> handled(
            st,
            Key::Down,
            false,
        ).0.palette_selection == st.palette_selection + 1,
        st.palette_selection + 1 >= input::filtered(st.input).len() ==> handled(
            st,
            Key::Down,
            false,
        ).0 == st,
        handled(st, Key::Up, false).0.input == st.input,
{
}

/// Up to five hundred lines are remembered; then the oldest goes.
pub proof fn law_lines_are_remembered(st: fullscreen::StateText, line: Seq<char>)
    ensures
        st.history.len() < 500 ==> remembered(st, line).history == st.history.push(line),
        st.history.len() == 500 ==> remembered(st, line).history == st.history.skip(1).push(line),
        remembered(st, line).input == st.input && remembered(st, line).sessions == st.sessions,
{
    if st.history.len() == 500 {
        assert(st.history.push(line).skip(1) =~= st.history.skip(1).push(line));
    }
}

} // verus!
