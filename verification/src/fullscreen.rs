//! The full-screen view: what it shows, and how it changes.

use vstd::prelude::*;

use crate::text;

pub mod chat;
pub mod input;
pub mod keys;
pub mod render;

verus! {

// ---------------------------------------------------------------------------
// Themes
// ---------------------------------------------------------------------------

#[derive(Debug, Clone, Copy, PartialEq, Eq, Structural)]
pub enum Color {
    Reset,
    Gray,
    DarkGray,
    Green,
    Red,
    Yellow,
    White,
    Magenta,
    Rgb(u8, u8, u8),
}

#[derive(Debug, Clone, Copy, PartialEq, Eq, Structural)]
pub struct Theme {
    pub bg: Color,
    pub fg: Color,
    pub accent: Color,
    pub muted: Color,
    pub success: Color,
    pub error: Color,
    pub warning: Color,
    pub border: Color,
    pub status_bg: Color,
    pub input_bg: Color,
    pub brand: Color,
    pub brand_dim: Color,
    pub cmd_highlight: Color,
}

impl Theme {
    pub open spec fn dark_theme() -> Theme {
        Theme {
            bg: Color::Rgb(15, 15, 15),
            fg: Color::Rgb(190, 190, 195),
            accent: Color::Rgb(180, 180, 185),
            muted: Color::Rgb(90, 90, 100),
            success: Color::Rgb(140, 200, 140),
            error: Color::Rgb(220, 90, 90),
            warning: Color::Rgb(220, 180, 80),
            border: Color::Rgb(50, 50, 55),
            status_bg: Color::Rgb(20, 20, 22),
            input_bg: Color::Rgb(18, 18, 20),
            brand: Color::Rgb(220, 220, 225),
            brand_dim: Color::Rgb(120, 120, 130),
            cmd_highlight: Color::Rgb(160, 140, 200),
        }
    }

    pub open spec fn light_theme() -> Theme {
        Theme {
            bg: Color::Rgb(250, 250, 252),
            fg: Color::Rgb(30, 30, 40),
            accent: Color::Rgb(60, 60, 70),
            muted: Color::Rgb(140, 140, 160),
            success: Color::Rgb(20, 160, 60),
            error: Color::Rgb(200, 40, 40),
            warning: Color::Rgb(180, 130, 0),
            border: Color::Rgb(200, 200, 210),
            status_bg: Color::Rgb(235, 235, 240),
            input_bg: Color::Rgb(245, 245, 248),
            brand: Color::Rgb(40, 40, 50),
            brand_dim: Color::Rgb(120, 120, 130),
            cmd_highlight: Color::Rgb(100, 80, 160),
        }
    }

    pub open spec fn minimal_theme() -> Theme {
        Theme {
            bg: Color::Reset,
            fg: Color::Reset,
            accent: Color::Gray,
            muted: Color::DarkGray,
            success: Color::Green,
            error: Color::Red,
            warning: Color::Yellow,
            border: Color::DarkGray,
            status_bg: Color::Reset,
            input_bg: Color::Reset,
            brand: Color::White,
            brand_dim: Color::Gray,
            cmd_highlight: Color::Magenta,
        }
    }

    pub fn dark() -> (r: Theme)
        ensures
            r == Theme::dark_theme(),
    {
        Theme {
            bg: Color::Rgb(15, 15, 15),
            fg: Color::Rgb(190, 190, 195),
            accent: Color::Rgb(180, 180, 185),
            muted: Color::Rgb(90, 90, 100),
            success: Color::Rgb(140, 200, 140),
            error: Color::Rgb(220, 90, 90),
            warning: Color::Rgb(220, 180, 80),
            border: Color::Rgb(50, 50, 55),
            status_bg: Color::Rgb(20, 20, 22),
            input_bg: Color::Rgb(18, 18, 20),
            brand: Color::Rgb(220, 220, 225),
            brand_dim: Color::Rgb(120, 120, 130),
            cmd_highlight: Color::Rgb(160, 140, 200),
        }
    }

    pub fn light() -> (r: Theme)
        ensures
            r == Theme::light_theme(),
    {
        Theme {
            bg: Color::Rgb(250, 250, 252),
            fg: Color::Rgb(30, 30, 40),
            accent: Color::Rgb(60, 60, 70),
            muted: Color::Rgb(140, 140, 160),
            success: Color::Rgb(20, 160, 60),
            error: Color::Rgb(200, 40, 40),
            warning: Color::Rgb(180, 130, 0),
            border: Color::Rgb(200, 200, 210),
            status_bg: Color::Rgb(235, 235, 240),
            input_bg: Color::Rgb(245, 245, 248),
            brand: Color::Rgb(40, 40, 50),
            brand_dim: Color::Rgb(120, 120, 130),
            cmd_highlight: Color::Rgb(100, 80, 160),
        }
    }

    pub fn minimal() -> (r: Theme)
        ensures
            r == Theme::minimal_theme(),
    {
        Theme {
            bg: Color::Reset,
            fg: Color::Reset,
            accent: Color::Gray,
            muted: Color::DarkGray,
            success: Color::Green,
            error: Color::Red,
            warning: Color::Yellow,
            border: Color::DarkGray,
            status_bg: Color::Reset,
            input_bg: Color::Reset,
            brand: Color::White,
            brand_dim: Color::Gray,
            cmd_highlight: Color::Magenta,
        }
    }

    /// The theme with a name; any other name gives the dark one.
    pub fn from_name(name: &str) -> (r: Theme)
        ensures
            r == (if name@ == "light"@ {
                Theme::light_theme()
            } else if name@ == "minimal"@ {
                Theme::minimal_theme()
            } else {
                Theme::dark_theme()
            }),
    {
        if text::same(name, "light") {
            Theme::light()
        } else if text::same(name, "minimal") {
            Theme::minimal()
        } else {
            Theme::dark()
        }
    }
}

// ---------------------------------------------------------------------------
// What is shown
// ---------------------------------------------------------------------------

#[derive(Debug, Clone, Copy, PartialEq, Eq, Structural)]
pub enum ChatRole {
    User,
    Assistant,
    System,
    Tool,
}

#[derive(Debug, Clone, Copy, PartialEq, Eq, Structural)]
pub enum ToolStatus {
    Running,
    Done,
    Failed,
}

/// One entry of the chat.
#[derive(Debug)]
pub enum ChatLine {
    /// A text, which may hold line feeds.
    Text { role: ChatRole, text: String },
    /// What the model thought; shown only on request.
    Thinking(String),
    Tool { name: String, status: ToolStatus, msg: String },
    DiffHeader { path: String, line: u32 },
    DiffOld(String),
    DiffNew(String),
    /// How many lines of a diff are left out.
    DiffMore(String),
    Spacer,
}

pub ghost enum LineText {
    Text { role: ChatRole, text: Seq<char> },
    Thinking(Seq<char>),
    Tool { name: Seq<char>, status: ToolStatus, msg: Seq<char> },
    DiffHeader { path: Seq<char>, line: u32 },
    DiffOld(Seq<char>),
    DiffNew(Seq<char>),
    DiffMore(Seq<char>),
    Spacer,
}

impl View for ChatLine {
    type V = LineText;

    open spec fn view(&self) -> LineText {
        match self {
            ChatLine::Text { role, text } => LineText::Text { role: *role, text: text@ },
            ChatLine::Thinking(s) => LineText::Thinking(s@),
            ChatLine::Tool { name, status, msg } => LineText::Tool {
                name: name@,
                status: *status,
                msg: msg@,
            },
            ChatLine::DiffHeader { path, line } => LineText::DiffHeader {
                path: path@,
                line: *line,
            },
            ChatLine::DiffOld(s) => LineText::DiffOld(s@),
            ChatLine::DiffNew(s) => LineText::DiffNew(s@),
            ChatLine::DiffMore(s) => LineText::DiffMore(s@),
            ChatLine::Spacer => LineText::Spacer,
        }
    }
}

pub open spec fn line_texts(v: Seq<ChatLine>) -> Seq<LineText> {
    v.map_values(|l: ChatLine| l@)
}

/// A session with its chat.
#[derive(Debug)]
pub struct SessionTab {
    pub title: String,
    pub chat_lines: Vec<ChatLine>,
    /// Zero when the chat is shown to its end, negative when it is scrolled up.
    pub scroll: i32,
    pub streaming: bool,
}

pub ghost struct TabText {
    pub title: Seq<char>,
    pub lines: Seq<LineText>,
    pub scroll: i32,
    pub streaming: bool,
}

impl View for SessionTab {
    type V = TabText;

    open spec fn view(&self) -> TabText {
        TabText {
            title: self.title@,
            lines: line_texts(self.chat_lines@),
            scroll: self.scroll,
            streaming: self.streaming,
        }
    }
}

pub open spec fn tab_texts(v: Seq<SessionTab>) -> Seq<TabText> {
    v.map_values(|t: SessionTab| t@)
}

/// An empty session.
pub open spec fn fresh_tab(title: Seq<char>) -> TabText {
    TabText { title, lines: Seq::empty(), scroll: 0, streaming: false }
}

impl SessionTab {
    pub fn new(title: String) -> (t: SessionTab)
        ensures
            t@ == fresh_tab(title@),
    {
        let t = SessionTab { title, chat_lines: Vec::new(), scroll: 0, streaming: false };
        assert(t@.lines =~= Seq::<LineText>::empty());
        t
    }
}

impl Default for SessionTab {
    fn default() -> (t: SessionTab)
        ensures
            t@ == fresh_tab(Seq::empty()),
    {
        SessionTab::new(String::new())
    }
}

/// A command that can be typed.
#[derive(Debug, Clone, Copy)]
pub struct CommandSpec {
    pub cmd: &'static str,
    pub alias: Option<&'static str>,
    pub desc: &'static str,
}

/// The outcome of a question to the user.
#[derive(Debug, Clone, Copy, PartialEq, Eq, Structural)]
pub enum SelectionResult {
    Selected(usize),
    Cancelled,
}

/// A question to the user.
#[derive(Debug)]
pub struct PendingModal {
    pub prompt: String,
    pub options: Vec<String>,
    pub selection: usize,
    /// The answer, once it was given.
    pub resolved: Option<SelectionResult>,
}

pub ghost struct ModalText {
    pub prompt: Seq<char>,
    pub options: Seq<Seq<char>>,
    pub selection: usize,
    pub resolved: Option<SelectionResult>,
}

impl View for PendingModal {
    type V = ModalText;

    open spec fn view(&self) -> ModalText {
        ModalText {
            prompt: self.prompt@,
            options: text::texts(self.options@),
            selection: self.selection,
            resolved: self.resolved,
        }
    }
}

/// A chat keeps this many entries.
pub const MAX_CHAT_LINES: usize = 5000;

/// The input keeps this many earlier lines.
pub const MAX_HISTORY: usize = 500;

/// How long a status stays, in milliseconds.
pub const STATUS_MILLIS: u64 = 5000;

/// Everything that is shown.
#[derive(Debug)]
pub struct FullscreenState {
    pub theme: Theme,
    pub sessions: Vec<SessionTab>,
    pub active_session: usize,
    pub input: String,
    /// Where the next character goes, in bytes.
    pub input_cursor: usize,
    pub history: Vec<String>,
    pub history_idx: usize,
    pub palette_open: bool,
    pub palette_selection: usize,
    pub palette_scroll: usize,
    pub status: String,
    /// When the status was set, in milliseconds.
    pub status_set_at: Option<u64>,
    pub model: String,
    pub token_prompt: u32,
    pub token_completion: u32,
    pub task_type: String,
    pub latency_ms: u64,
    pub modal: Option<PendingModal>,
    pub quit_confirm: bool,
    pub quit: bool,
    pub show_thinking: bool,
    pub turn_count: u32,
    pub tool_count: u32,
    pub context_window: u32,
}

pub ghost struct StateText {
    pub theme: Theme,
    pub sessions: Seq<TabText>,
    pub active: usize,
    pub input: Seq<char>,
    pub cursor: usize,
    pub history: Seq<Seq<char>>,
    pub history_idx: usize,
    pub palette_open: bool,
    pub palette_selection: usize,
    pub palette_scroll: usize,
    pub status: Seq<char>,
    pub status_set_at: Option<u64>,
    pub model: Seq<char>,
    pub token_prompt: u32,
    pub token_completion: u32,
    pub task_type: Seq<char>,
    pub latency_ms: u64,
    pub modal: Option<ModalText>,
    pub quit_confirm: bool,
    pub quit: bool,
    pub show_thinking: bool,
    pub turn_count: u32,
    pub tool_count: u32,
    pub context_window: u32,
}

impl View for FullscreenState {
    type V = StateText;

    open spec fn view(&self) -> StateText {
        StateText {
            theme: self.theme,
            sessions: tab_texts(self.sessions@),
            active: self.active_session,
            input: self.input@,
            cursor: self.input_cursor,
            history: text::texts(self.history@),
            history_idx: self.history_idx,
            palette_open: self.palette_open,
            palette_selection: self.palette_selection,
            palette_scroll: self.palette_scroll,
            status: self.status@,
            status_set_at: self.status_set_at,
            model: self.model@,
            token_prompt: self.token_prompt,
            token_completion: self.token_completion,
            task_type: self.task_type@,
            latency_ms: self.latency_ms,
            modal: match self.modal {
                Some(m) => Some(m@),
                None => None,
            },
            quit_confirm: self.quit_confirm,
            quit: self.quit,
            show_thinking: self.show_thinking,
            turn_count: self.turn_count,
            tool_count: self.tool_count,
            context_window: self.context_window,
        }
    }
}

/// What holds of the view at all times: there is a session to show, the cursor
/// stands between two characters of the input, the place in the history is
/// within it, and no chat is scrolled beyond its end.
pub open spec fn valid(st: StateText) -> bool {
    &&& st.active < st.sessions.len()
    &&& text::is_boundary(st.input, st.cursor as int)
    &&& st.history_idx <= st.history.len()
    &&& forall|i: int| 0 <= i < st.sessions.len() ==> (#[trigger] st.sessions[i]).scroll <= 0
}

/// The last `n` items of a sequence.
pub open spec fn last_of<A>(s: Seq<A>, n: int) -> Seq<A> {
    if s.len() <= n {
        s
    } else {
        s.skip(s.len() - n)
    }
}

/// A chat with one more entry, shown to its end.
pub open spec fn tab_pushed(t: TabText, l: LineText) -> TabText {
    TabText { lines: last_of(t.lines.push(l), MAX_CHAT_LINES as int), scroll: 0, ..t }
}

pub open spec fn active_tab(st: StateText) -> TabText {
    st.sessions[st.active as int]
}

pub open spec fn with_active(st: StateText, t: TabText) -> StateText {
    StateText { sessions: st.sessions.update(st.active as int, t), ..st }
}

pub open spec fn pushed(st: StateText, l: LineText) -> StateText {
    with_active(st, tab_pushed(active_tab(st), l))
}

/// The view at the start.
pub open spec fn initial(theme: Theme, model: Seq<char>, show_thinking: bool) -> StateText {
    StateText {
        theme,
        sessions: seq![fresh_tab("main"@)],
        active: 0,
        input: Seq::empty(),
        cursor: 0,
        history: Seq::empty(),
        history_idx: 0,
        palette_open: false,
        palette_selection: 0,
        palette_scroll: 0,
        status: Seq::empty(),
        status_set_at: None,
        model,
        token_prompt: 0,
        token_completion: 0,
        task_type: Seq::empty(),
        latency_ms: 0,
        modal: None,
        quit_confirm: false,
        quit: false,
        show_thinking,
        turn_count: 0,
        tool_count: 0,
        context_window: 0,
    }
}

pub proof fn lemma_valid_active(st: StateText, t: TabText)
    requires
        valid(st),
        t.scroll <= 0,
    ensures
        valid(with_active(st, t)),
{
}

impl FullscreenState {
    pub open spec fn wf(&self) -> bool {
        valid(self@)
    }

    /// The view at the start.
    pub fn new(theme: Theme, model: String, show_thinking: bool) -> (s: FullscreenState)
        ensures
            s@ == initial(theme, model@, show_thinking),
            s.wf(),
    {
        let mut sessions: Vec<SessionTab> = Vec::new();
        sessions.push(SessionTab::new("main".to_owned()));
        let s = FullscreenState {
            theme,
            sessions,
            active_session: 0,
            input: String::new(),
            input_cursor: 0,
            history: Vec::new(),
            history_idx: 0,
            palette_open: false,
            palette_selection: 0,
            palette_scroll: 0,
            status: String::new(),
            status_set_at: None,
            model,
            token_prompt: 0,
            token_completion: 0,
            task_type: String::new(),
            latency_ms: 0,
            modal: None,
            quit_confirm: false,
            quit: false,
            show_thinking,
            turn_count: 0,
            tool_count: 0,
            context_window: 0,
        };
        proof {
            assert(s@.sessions =~= seq![fresh_tab("main"@)]);
            assert(s@.history =~= Seq::<Seq<char>>::empty());
            assert(s@.input.take(0) =~= Seq::<char>::empty());
            text::lemma_index_of_take(s@.input, 0);
        }
        s
    }

    /// The session that is shown.
    pub fn active(&self) -> (t: &SessionTab)
        requires
            self.wf(),
        ensures
            t@ == active_tab(self@),
    {
        assert(self@.sessions[self.active_session as int] == self.sessions@[self.active_session as int]@);
        &self.sessions[self.active_session]
    }

    /// Adds an entry to the chat that is shown.
    pub fn push_line(&mut self, line: ChatLine)
        requires
            old(self).wf(),
        ensures
            final(self)@ == pushed(old(self)@, line@),
            final(self).wf(),
    {
        let idx: usize = self.active_session;
        let ghost before = self.sessions@;
        let ghost start = self@;
        assert(start.sessions[idx as int] == before[idx as int]@);
        let tab = &mut self.sessions[idx];
        let ghost old_lines = tab.chat_lines@;
        tab.chat_lines.push(line);
        tab.scroll = 0;
        let ghost all = tab.chat_lines@;
        assert(line_texts(all) =~= line_texts(old_lines).push(line@));
        let ghost mut dropped: int = 0;
        while tab.chat_lines.len() > MAX_CHAT_LINES
            invariant
                0 <= dropped <= all.len(),
                tab.chat_lines@ == all.skip(dropped),
                dropped > 0 ==> tab.chat_lines@.len() >= MAX_CHAT_LINES,
                tab.scroll == 0,
                tab.title == before[idx as int].title,
                tab.streaming == before[idx as int].streaming,
            decreases tab.chat_lines.len(),
        {
            let _ = tab.chat_lines.remove(0);
            proof {
                assert(tab.chat_lines@ =~= all.skip(dropped + 1));
                dropped = dropped + 1;
            }
        }
        proof {
            assert(line_texts(tab.chat_lines@) =~= last_of(
                line_texts(all),
                MAX_CHAT_LINES as int,
            ));
            assert(tab@ == tab_pushed(before[idx as int]@, line@));
        }
        assert(self@.sessions =~= start.sessions.update(idx as int, tab_pushed(before[idx as int]@, line@)));
        proof {
            lemma_valid_active(start, tab_pushed(active_tab(start), line@));
        }
    }
}

/// A line is added behind the others of the session that is shown; while there is
/// room nothing goes, and the other sessions stay.
pub proof fn law_lines_are_added(st: StateText, l: LineText, i: int)
    requires
        valid(st),
    ensures
        active_tab(pushed(st, l)).lines.last() == l,
        active_tab(pushed(st, l)).scroll == 0,
        active_tab(st).lines.len() < 5000 ==> active_tab(pushed(st, l)).lines
            == active_tab(st).lines.push(l),
        active_tab(st).lines.len() == 5000 ==> active_tab(pushed(st, l)).lines
            == active_tab(st).lines.skip(1).push(l),
        0 <= i < st.sessions.len() && i != st.active ==> pushed(st, l).sessions[i] == st.sessions[i],
        pushed(st, l).input == st.input && pushed(st, l).history == st.history && pushed(st, l).modal
            == st.modal && pushed(st, l).active == st.active && pushed(st, l).cursor == st.cursor,
{
    let t = active_tab(st);
    let all = t.lines.push(l);
    if t.lines.len() == MAX_CHAT_LINES {
        assert(all.skip(1) =~= t.lines.skip(1).push(l));
    }
}

/// The view at the start shows one empty session, nothing written and no
/// question.
pub proof fn law_start(theme: Theme, model: Seq<char>, thinking: bool)
    ensures
        ({
            let st = initial(theme, model, thinking);
            &&& st.sessions.len() == 1 && st.active == 0 && active_tab(st).lines.len() == 0
            &&& active_tab(st).title == "main"@
            &&& st.input.len() == 0 && st.cursor == 0 && st.history.len() == 0
            &&& st.modal is None && !st.quit && !st.quit_confirm && !st.palette_open
            &&& st.model == model && st.theme == theme && st.show_thinking == thinking
            &&& st.token_prompt == 0 && st.token_completion == 0 && st.turn_count == 0
                && st.tool_count == 0
        }),
{
}

/// The last so many of some are their end.
pub proof fn law_last<A>(s: Seq<A>, n: int, i: int)
    requires
        0 <= n,
    ensures
        s.len() <= n ==> last_of(s, n) == s,
        s.len() > n ==> last_of(s, n).len() == n,
        0 <= i < last_of(s, n).len() ==> last_of(s, n)[i] == s[s.len() - last_of(s, n).len() + i],
{
}

/// The themes by their names: an unknown name gives the dark one.
pub proof fn law_themes(name: &str, r: Theme)
    requires
        call_ensures(Theme::from_name, (name,), r),
    ensures
        name@ == "light"@ ==> r.bg == Color::Rgb(250, 250, 252),
        name@ == "minimal"@ ==> r.bg == Color::Reset,
        name@ != "light"@ && name@ != "minimal"@ ==> r.bg == Color::Rgb(15, 15, 15),
{
    reveal_strlit("light");
    reveal_strlit("minimal");
    assert("light"@.len() == 5 && "minimal"@.len() == 7);
}

} // verus!
