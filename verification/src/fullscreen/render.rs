//! What the view looks like: its lines, their styles, and where its boxes lie.

use vstd::prelude::*;

use crate::fullscreen::{ChatLine, ChatRole, Color, FullscreenState, PendingModal, Theme, ToolStatus};
use crate::fullscreen;
use crate::fullscreen::input;
use crate::outside;
use crate::text;

verus! {

// ---------------------------------------------------------------------------
// Styled text
// ---------------------------------------------------------------------------

#[derive(Debug, Clone, Copy, PartialEq, Eq, Structural)]
pub struct Style {
    pub fg: Option<Color>,
    pub bold: bool,
    /// Slanted and dim.
    pub faint: bool,
    pub reversed: bool,
    pub underlined: bool,
}

/// No style at all.
pub open spec fn raw() -> Style {
    Style { fg: None, bold: false, faint: false, reversed: false, underlined: false }
}

/// A colour.
pub open spec fn colored(c: Color) -> Style {
    Style { fg: Some(c), ..raw() }
}

/// A colour, in bold.
pub open spec fn strong(c: Color) -> Style {
    Style { bold: true, ..colored(c) }
}

/// A piece of text in one style.
#[derive(Debug)]
pub struct Span {
    pub text: String,
    pub style: Style,
}

pub ghost struct SpanText {
    pub text: Seq<char>,
    pub style: Style,
}

impl View for Span {
    type V = SpanText;

    open spec fn view(&self) -> SpanText {
        SpanText { text: self.text@, style: self.style }
    }
}

/// One line of the view.
#[derive(Debug)]
pub struct Row {
    pub spans: Vec<Span>,
}

impl View for Row {
    type V = Seq<SpanText>;

    open spec fn view(&self) -> Seq<SpanText> {
        self.spans@.map_values(|s: Span| s@)
    }
}

pub open spec fn rows(v: Seq<Row>) -> Seq<Seq<SpanText>> {
    v.map_values(|r: Row| r@)
}

pub open spec fn span(text: Seq<char>, style: Style) -> SpanText {
    SpanText { text, style }
}

fn no_style() -> (s: Style)
    ensures
        s == raw(),
{
    Style { fg: None, bold: false, faint: false, reversed: false, underlined: false }
}

fn in_color(c: Color) -> (s: Style)
    ensures
        s == colored(c),
{
    Style { fg: Some(c), bold: false, faint: false, reversed: false, underlined: false }
}

fn in_bold(c: Color) -> (s: Style)
    ensures
        s == strong(c),
{
    Style { fg: Some(c), bold: true, faint: false, reversed: false, underlined: false }
}

fn piece(text: String, style: Style) -> (s: Span)
    ensures
        s@ == span(text@, style),
{
    Span { text, style }
}

fn word(text: &str, style: Style) -> (s: Span)
    ensures
        s@ == span(text@, style),
{
    Span { text: text.to_owned(), style }
}

fn row1(a: Span) -> (r: Row)
    ensures
        r@ == seq![a@],
{
    let r = Row { spans: vec![a] };
    assert(r@ =~= seq![a@]);
    r
}

fn row2(a: Span, b: Span) -> (r: Row)
    ensures
        r@ == seq![a@, b@],
{
    let r = Row { spans: vec![a, b] };
    assert(r@ =~= seq![a@, b@]);
    r
}

fn row3(a: Span, b: Span, c: Span) -> (r: Row)
    ensures
        r@ == seq![a@, b@, c@],
{
    let r = Row { spans: vec![a, b, c] };
    assert(r@ =~= seq![a@, b@, c@]);
    r
}

fn add_row(out: &mut Vec<Row>, r: Row)
    ensures
        rows(final(out)@) == rows(old(out)@).push(r@),
{
    let ghost before = out@;
    out.push(r);
    assert(rows(out@) =~= rows(before).push(r@));
}

// ---------------------------------------------------------------------------
// The chat
// ---------------------------------------------------------------------------

/// How what someone said is introduced.
pub open spec fn role_prefix(role: ChatRole, theme: Theme) -> SpanText {
    match role {
        ChatRole::User => span(" You: "@, strong(theme.accent)),
        ChatRole::Assistant => span(" AI:  "@, strong(theme.success)),
        ChatRole::System => span("      "@, colored(theme.muted)),
        ChatRole::Tool => span("      "@, colored(theme.accent)),
    }
}

pub open spec fn body_style(role: ChatRole, theme: Theme) -> Style {
    match role {
        ChatRole::System => colored(theme.muted),
        _ => colored(theme.fg),
    }
}

/// The lines of a text, the first with one thing before it and the others with
/// another.
pub open spec fn indented(
    parts: Seq<Seq<char>>,
    first: SpanText,
    other: SpanText,
    style: Style,
) -> Seq<Seq<SpanText>> {
    Seq::new(
        parts.len(),
        |i: int|
            seq![
                if i == 0 {
                    first
                } else {
                    other
                },
                span(parts[i], style),
            ],
    )
}

pub open spec fn faint(c: Color) -> Style {
    Style { faint: true, ..colored(c) }
}

pub open spec fn glyph(status: ToolStatus, theme: Theme) -> SpanText {
    match status {
        ToolStatus::Running => span("⚙"@, colored(theme.accent)),
        ToolStatus::Done => span("✓"@, colored(theme.success)),
        ToolStatus::Failed => span("✗"@, colored(theme.error)),
    }
}

/// The line of a tool.
pub open spec fn tool_row(
    name: Seq<char>,
    status: ToolStatus,
    msg: Seq<char>,
    theme: Theme,
) -> Seq<SpanText> {
    let start = seq![
        span(" ["@, raw()),
        glyph(status, theme),
        span(" "@, raw()),
        span(name, colored(theme.accent)),
        span("] "@, raw()),
    ];
    let named = if status == ToolStatus::Running && !text::has(msg, "running"@) {
        start.push(span("running... "@, colored(theme.muted)))
    } else {
        start
    };
    named.push(span(msg, colored(theme.muted)))
}

/// The lines that an entry of the chat takes.
pub open spec fn entry_rows(
    line: fullscreen::LineText,
    theme: Theme,
    show_thinking: bool,
    thinking: Color,
) -> Seq<Seq<SpanText>> {
    match line {
        fullscreen::LineText::Text { role, text } => indented(
            text::split(text, '\n'),
            role_prefix(role, theme),
            span("      "@, raw()),
            body_style(role, theme),
        ),
        fullscreen::LineText::Tool { name, status, msg } => seq![tool_row(name, status, msg, theme)],
        fullscreen::LineText::DiffHeader { path, line } => seq![
            seq![
                span("  ┌─ "@, colored(theme.border)),
                span(path + ":"@ + text::decimal(line as nat), strong(theme.accent)),
            ],
        ],
        fullscreen::LineText::DiffOld(s) => seq![
            seq![span("  │ "@, colored(theme.border)), span("- "@ + s, colored(theme.error))],
        ],
        fullscreen::LineText::DiffNew(s) => seq![
            seq![span("  │ "@, colored(theme.border)), span("+ "@ + s, colored(theme.success))],
        ],
        fullscreen::LineText::DiffMore(s) => seq![
            seq![span("  │ "@, colored(theme.border)), span(s, colored(theme.muted))],
        ],
        fullscreen::LineText::Thinking(text) => if show_thinking {
            indented(
                text::split(text, '\n'),
                span(" ⠁ "@, colored(thinking)),
                span("   "@, colored(thinking)),
                faint(thinking),
            )
        } else {
            Seq::empty()
        },
        fullscreen::LineText::Spacer => seq![seq![span(Seq::empty(), raw())]],
    }
}

/// The lines that a chat takes.
pub open spec fn chat_rows(
    lines: Seq<fullscreen::LineText>,
    theme: Theme,
    show_thinking: bool,
    thinking: Color,
) -> Seq<Seq<SpanText>>
    decreases lines.len(),
{
    if lines.len() == 0 {
        Seq::empty()
    } else {
        chat_rows(lines.drop_last(), theme, show_thinking, thinking) + entry_rows(
            lines.last(),
            theme,
            show_thinking,
            thinking,
        )
    }
}

/// What stands before a line of a text.
struct Lead {
    text: &'static str,
    style: Style,
}

fn add_indented(out: &mut Vec<Row>, text: &str, first: Lead, other: Lead, style: Style)
    ensures
        rows(final(out)@) == rows(old(out)@) + indented(
            text::split(text@, '\n'),
            span(first.text@, first.style),
            span(other.text@, other.style),
            style,
        ),
{
    let parts = text::split_char(text, '\n');
    let ghost start = rows(out@);
    let ghost all = indented(
        text::split(text@, '\n'),
        span(first.text@, first.style),
        span(other.text@, other.style),
        style,
    );
    let mut i: usize = 0;
    assert(start + all.take(0) =~= start);
    while i < parts.len()
        invariant
            i <= parts.len(),
            text::texts(parts@) == text::split(text@, '\n'),
            all == indented(
                text::split(text@, '\n'),
                span(first.text@, first.style),
                span(other.text@, other.style),
                style,
            ),
            rows(out@) == start + all.take(i as int),
        decreases parts.len() - i,
    {
        assert(text::texts(parts@)[i as int] == parts@[i as int]@);
        let lead = if i == 0 {
            word(first.text, first.style)
        } else {
            word(other.text, other.style)
        };
        let body = word(&parts[i], style);
        let row = row2(lead, body);
        assert(row@ == all[i as int]);
        add_row(out, row);
        assert(start + all.take(i + 1) =~= (start + all.take(i as int)).push(all[i as int]));
        i = i + 1;
    }
    assert(all.take(i as int) =~= all);
}

fn tool_line(name: &str, status: ToolStatus, msg: &str, theme: &Theme) -> (r: Row)
    ensures
        r@ == tool_row(name@, status, msg@, *theme),
{
    let g = match status {
        ToolStatus::Running => word("⚙", in_color(theme.accent)),
        ToolStatus::Done => word("✓", in_color(theme.success)),
        ToolStatus::Failed => word("✗", in_color(theme.error)),
    };
    let mut spans = vec![
        word(" [", no_style()),
        g,
        word(" ", no_style()),
        word(name, in_color(theme.accent)),
        word("] ", no_style()),
    ];
    if status == ToolStatus::Running && !text::contains(msg, "running") {
        spans.push(word("running... ", in_color(theme.muted)));
    }
    spans.push(word(msg, in_color(theme.muted)));
    let r = Row { spans };
    assert(r@ =~= tool_row(name@, status, msg@, *theme));
    r
}

fn add_entry(
    out: &mut Vec<Row>,
    line: &ChatLine,
    theme: &Theme,
    show_thinking: bool,
    thinking: Color,
)
    ensures
        rows(final(out)@) == rows(old(out)@) + entry_rows(line@, *theme, show_thinking, thinking),
{
    let ghost start = rows(out@);
    match line {
        ChatLine::Text { role, text } => {
            let first = match role {
                ChatRole::User => Lead { text: " You: ", style: in_bold(theme.accent) },
                ChatRole::Assistant => Lead { text: " AI:  ", style: in_bold(theme.success) },
                ChatRole::System => Lead { text: "      ", style: in_color(theme.muted) },
                ChatRole::Tool => Lead { text: "      ", style: in_color(theme.accent) },
            };
            let style = match role {
                ChatRole::System => in_color(theme.muted),
                _ => in_color(theme.fg),
            };
            let other = Lead { text: "      ", style: no_style() };
            add_indented(out, text, first, other, style);
        },
        ChatLine::Tool { name, status, msg } => {
            let row = tool_line(name, *status, msg, theme);
            add_row(out, row);
            assert(rows(out@) =~= start + seq![row@]);
        },
        ChatLine::DiffHeader { path, line } => {
            let n = text::number(*line as u64);
            let place = text::cat3(path, ":", &n);
            let row = row2(
                word("  ┌─ ", in_color(theme.border)),
                piece(place, in_bold(theme.accent)),
            );
            add_row(out, row);
            assert(rows(out@) =~= start + seq![row@]);
        },
        ChatLine::DiffOld(s) => {
            let row = row2(
                word("  │ ", in_color(theme.border)),
                piece(text::cat2("- ", s), in_color(theme.error)),
            );
            add_row(out, row);
            assert(rows(out@) =~= start + seq![row@]);
        },
        ChatLine::DiffNew(s) => {
            let row = row2(
                word("  │ ", in_color(theme.border)),
                piece(text::cat2("+ ", s), in_color(theme.success)),
            );
            add_row(out, row);
            assert(rows(out@) =~= start + seq![row@]);
        },
        ChatLine::DiffMore(s) => {
            let row = row2(word("  │ ", in_color(theme.border)), word(s, in_color(theme.muted)));
            add_row(out, row);
            assert(rows(out@) =~= start + seq![row@]);
        },
        ChatLine::Thinking(text) => {
            if show_thinking {
                let first = Lead { text: " ⠁ ", style: in_color(thinking) };
                let other = Lead { text: "   ", style: in_color(thinking) };
                let style = Style {
                    fg: Some(thinking),
                    bold: false,
                    faint: true,
                    reversed: false,
                    underlined: false,
                };
                add_indented(out, text, first, other, style);
            } else {
                assert(start + Seq::<Seq<SpanText>>::empty() =~= start);
            }
        },
        ChatLine::Spacer => {
            let empty = String::new();
            assert(empty@ =~= Seq::<char>::empty());
            let row = row1(piece(empty, no_style()));
            add_row(out, row);
            assert(rows(out@) =~= start + seq![row@]);
        },
    }
}

/// The lines of a chat. What the model thought is left out unless it is asked
/// for.
pub fn render_chat_lines(
    lines: &Vec<ChatLine>,
    theme: &Theme,
    show_thinking: bool,
    thinking: Color,
) -> (out: Vec<Row>)
    ensures
        rows(out@) == chat_rows(fullscreen::line_texts(lines@), *theme, show_thinking, thinking),
{
    let mut out: Vec<Row> = Vec::new();
    let ghost all = fullscreen::line_texts(lines@);
    let mut i: usize = 0;
    assert(rows(out@) =~= chat_rows(all.take(0), *theme, show_thinking, thinking));
    while i < lines.len()
        invariant
            i <= lines.len(),
            all == fullscreen::line_texts(lines@),
            rows(out@) == chat_rows(all.take(i as int), *theme, show_thinking, thinking),
        decreases lines.len() - i,
    {
        assert(all.take(i + 1).drop_last() =~= all.take(i as int));
        assert(all.take(i + 1).last() == lines@[i as int]@);
        add_entry(&mut out, &lines[i], theme, show_thinking, thinking);
        i = i + 1;
    }
    assert(all.take(i as int) =~= all);
    out
}

/// A chat shows the same whether the model's thoughts are hidden or were never
/// there.
pub proof fn law_thoughts_are_hidden(
    lines: Seq<fullscreen::LineText>,
    theme: Theme,
    thinking: Color,
)
    ensures
        chat_rows(lines, theme, false, thinking) == chat_rows(
            lines.filter(|l: fullscreen::LineText| !(l is Thinking)),
            theme,
            false,
            thinking,
        ),
    decreases lines.len(),
{
    reveal(Seq::filter);
    let shown = |l: fullscreen::LineText| !(l is Thinking);
    if lines.len() > 0 {
        law_thoughts_are_hidden(lines.drop_last(), theme, thinking);
        let kept = lines.drop_last().filter(shown);
        if lines.last() is Thinking {
            assert(chat_rows(lines, theme, false, thinking) =~= chat_rows(
                lines.drop_last(),
                theme,
                false,
                thinking,
            ));
        } else {
            assert(kept.push(lines.last()).drop_last() =~= kept);
        }
    }
}

// ---------------------------------------------------------------------------
// The start page
// ---------------------------------------------------------------------------

pub open spec fn logo(width: u16) -> Seq<Seq<char>> {
    if width >= 80 {
        seq![
            "██╗████████╗███████╗██╗   ██╗"@,
            "██║╚══██╔══╝██╔════╝╚██╗ ██╔╝"@,
            "██║   ██║   ███████╗ ╚████╔╝ "@,
            "██║   ██║   ╚════██║  ╚██╔╝  "@,
            "██║   ██║   ███████║   ██║   "@,
            "╚═╝   ╚═╝   ╚══════╝   ╚═╝   "@,
        ]
    } else {
        seq!["i t s y"@]
    }
}

pub open spec fn blank_row() -> Seq<SpanText> {
    seq![span(Seq::empty(), raw())]
}

pub open spec fn hint_row(
    theme: Theme,
    command: Seq<char>,
    meaning: Seq<char>,
    shortcut: Seq<char>,
) -> Seq<SpanText> {
    seq![
        span("  "@ + text::left_aligned(command, 10), colored(theme.cmd_highlight)),
        span(" "@ + text::left_aligned(meaning, 18), colored(theme.fg)),
        span(shortcut, colored(theme.muted)),
    ]
}

/// What an empty chat shows.
pub open spec fn welcome_rows(theme: Theme, width: u16, version: Seq<char>) -> Seq<Seq<SpanText>> {
    seq![blank_row()] + Seq::new(
        logo(width).len(),
        |i: int| seq![span(logo(width)[i], strong(theme.brand))],
    ) + seq![
        blank_row(),
        seq![span("v"@ + version, colored(theme.muted))],
        blank_row(),
        hint_row(theme, "/help"@, "show help"@, "ctrl+l"@),
        hint_row(theme, "/model"@, "switch model"@, ""@),
        hint_row(theme, "/memory"@, "project memory"@, ""@),
        hint_row(theme, "/skill"@, "manage skills"@, ""@),
        hint_row(theme, "/quit"@, "exit"@, "ctrl+c"@),
    ]
}

fn blank() -> (r: Row)
    ensures
        r@ == blank_row(),
{
    let empty = String::new();
    assert(empty@ =~= Seq::<char>::empty());
    row1(piece(empty, no_style()))
}

fn hint(theme: &Theme, command: &str, meaning: &str, shortcut: &str) -> (r: Row)
    ensures
        r@ == hint_row(*theme, command@, meaning@, shortcut@),
{
    let c = text::pad_end(command, 10);
    let m = text::pad_end(meaning, 18);
    row3(
        piece(text::cat2("  ", &c), in_color(theme.cmd_highlight)),
        piece(text::cat2(" ", &m), in_color(theme.fg)),
        word(shortcut, in_color(theme.muted)),
    )
}

fn add_logo(out: &mut Vec<Row>, theme: &Theme, logo: &Vec<&'static str>)
    ensures
        rows(final(out)@) == rows(old(out)@) + Seq::new(
            logo@.len(),
            |i: int| seq![span(logo@[i]@, strong(theme.brand))],
        ),
{
    let ghost start = rows(out@);
    let ghost all = Seq::new(logo@.len(), |i: int| seq![span(logo@[i]@, strong(theme.brand))]);
    let mut i: usize = 0;
    assert(start + all.take(0) =~= start);
    while i < logo.len()
        invariant
            i <= logo.len(),
            all == Seq::new(logo@.len(), |i: int| seq![span(logo@[i]@, strong(theme.brand))]),
            rows(out@) == start + all.take(i as int),
        decreases logo.len() - i,
    {
        let row = row1(word(logo[i], in_bold(theme.brand)));
        assert(row@ == all[i as int]);
        add_row(out, row);
        assert(start + all.take(i + 1) =~= (start + all.take(i as int)).push(all[i as int]));
        i = i + 1;
    }
    assert(all.take(i as int) =~= all);
}

/// What an empty chat shows.
pub fn render_welcome(theme: &Theme, width: u16, version: &str) -> (out: Vec<Row>)
    ensures
        rows(out@) == welcome_rows(*theme, width, version@),
{
    let art: Vec<&'static str> = if width >= 80 {
        vec![
            "██╗████████╗███████╗██╗   ██╗",
            "██║╚══██╔══╝██╔════╝╚██╗ ██╔╝",
            "██║   ██║   ███████╗ ╚████╔╝ ",
            "██║   ██║   ╚════██║  ╚██╔╝  ",
            "██║   ██║   ███████║   ██║   ",
            "╚═╝   ╚═╝   ╚══════╝   ╚═╝   ",
        ]
    } else {
        vec!["i t s y"]
    };
    let mut out: Vec<Row> = Vec::new();
    add_row(&mut out, blank());
    add_logo(&mut out, theme, &art);
    add_row(&mut out, blank());
    add_row(&mut out, row1(piece(text::cat2("v", version), in_color(theme.muted))));
    add_row(&mut out, blank());
    add_row(&mut out, hint(theme, "/help", "show help", "ctrl+l"));
    add_row(&mut out, hint(theme, "/model", "switch model", ""));
    add_row(&mut out, hint(theme, "/memory", "project memory", ""));
    add_row(&mut out, hint(theme, "/skill", "manage skills", ""));
    add_row(&mut out, hint(theme, "/quit", "exit", "ctrl+c"));
    assert(rows(out@) =~= welcome_rows(*theme, width, version@));
    out
}

// ---------------------------------------------------------------------------
// The input and the status
// ---------------------------------------------------------------------------

/// The title of the input box.
pub open spec fn input_title(palette_open: bool, show_thinking: bool) -> Seq<char> {
    (if palette_open {
        "itsy  ↑↓ navigate  enter select  esc cancel"@
    } else {
        "itsy"@
    }) + (if show_thinking {
        "  · thinking on  (ctrl+t)"@
    } else {
        Seq::empty()
    })
}

/// What the status line says is going on, when anything is.
pub open spec fn busy(status: Seq<char>, task_type: Seq<char>) -> Option<Seq<char>> {
    if status.len() > 0 {
        Some(status)
    } else if task_type.len() > 0 {
        Some(task_type)
    } else {
        None
    }
}

/// What the input box shows: its title and its line.
#[derive(Debug)]
pub struct InputBox {
    pub title: String,
    pub line: Row,
}

/// The input box.
pub fn render_input(st: &FullscreenState) -> (b: InputBox)
    ensures
        b.title@ == input_title(st@.palette_open, st@.show_thinking),
        b.line@ == seq![
            span(" > "@, colored(st@.theme.muted)),
            span(st@.input, colored(st@.theme.fg)),
        ],
{
    let mut title: String = if st.palette_open {
        "itsy  ↑↓ navigate  enter select  esc cancel".to_owned()
    } else {
        "itsy".to_owned()
    };
    let ghost plain = title@;
    if st.show_thinking {
        title.push_str("  · thinking on  (ctrl+t)");
    } else {
        assert(plain + Seq::<char>::empty() =~= plain);
    }
    let line = row2(
        word(" > ", in_color(st.theme.muted)),
        word(&st.input, in_color(st.theme.fg)),
    );
    InputBox { title, line }
}

/// What the status line says is going on, when anything is.
pub fn busy_label(st: &FullscreenState) -> (r: Option<String>)
    ensures
        text::opt_text(r) == busy(st@.status, st@.task_type),
{
    if !st.status.as_str().is_empty() {
        Some(st.status.clone())
    } else if !st.task_type.as_str().is_empty() {
        Some(st.task_type.clone())
    } else {
        None
    }
}

/// Whether the status line shows that something goes on.
pub fn shows_spinner(st: &FullscreenState) -> (r: bool)
    requires
        st.wf(),
    ensures
        r == (fullscreen::active_tab(st@).streaming || busy(st@.status, st@.task_type) is Some),
{
    st.active().streaming || busy_label(st).is_some()
}

/// How many columns a text takes before the cursor, at most all that there
/// are.
pub open spec fn cursor_column(x: int, width: int, columns: int) -> int {
    let at = x + 4 + columns;
    let last = x + width - 1;
    if at < last {
        at
    } else {
        last
    }
}

/// Where the cursor of an input box stands that starts at the column `x`, when
/// the text before the cursor takes `columns` columns and the view is `width`
/// columns wide.
pub fn cursor_at(x: u16, width: u16, columns: usize) -> (r: u16)
    requires
        width > 0,
        x + width <= u16::MAX,
    ensures
        r == cursor_column(x as int, width as int, columns as int),
{
    let last: u16 = x + (width - 1);
    if columns < 0x1_0000 && x as usize + 4 + columns < last as usize {
        (x as usize + 4 + columns) as u16
    } else {
        last
    }
}

/// Where the cursor stands.
pub fn render_cursor(st: &FullscreenState, x: u16, width: u16) -> (r: u16)
    requires
        width > 0,
        x + width <= u16::MAX,
    ensures
        r == cursor_column(
            x as int,
            width as int,
            outside::columns_of(
                text::head(
                    st@.input,
                    input::starts_before(
                        st@.input,
                        st@.cursor as int,
                        st@.input.len() as int,
                    ) as int,
                ),
            ) as int,
        ),
{
    let n = input::cursor_byte_to_char_idx(&st.input, st.input_cursor);
    let before = text::take_chars(&st.input, n);
    cursor_at(x, width, outside::text_columns(&before))
}

// ---------------------------------------------------------------------------
// Boxes
// ---------------------------------------------------------------------------

#[derive(Debug, Clone, Copy, PartialEq, Eq, Structural)]
pub struct Rect {
    pub x: u16,
    pub y: u16,
    pub width: u16,
    pub height: u16,
}

pub open spec fn at_most(a: int, b: int) -> int {
    if a < b {
        a
    } else {
        b
    }
}

pub open spec fn at_least(a: int, b: int) -> int {
    if a > b {
        a
    } else {
        b
    }
}

/// Where a box starts that is to stand in the middle of an extent.
pub open spec fn centered(start: int, extent: int, size: int) -> int {
    start + at_least(extent - size, 0) / 2
}

/// An area that ends within the screen.
pub open spec fn on_screen(area: Rect) -> bool {
    area.x + area.width <= u16::MAX && area.y + area.height <= u16::MAX
}

fn center(start: u16, extent: u16, size: u16) -> (r: u16)
    requires
        start + extent <= u16::MAX,
    ensures
        r == centered(start as int, extent as int, size as int),
{
    if extent > size {
        start + (extent - size) / 2
    } else {
        start
    }
}

/// The lines of a question to the user.
pub open spec fn modal_rows(m: fullscreen::ModalText, theme: Theme) -> Seq<Seq<SpanText>> {
    seq![seq![span(m.prompt, strong(theme.accent))], blank_row()] + Seq::new(
        m.options.len(),
        |i: int|
            seq![
                span(
                    " "@ + text::decimal((i + 1) as nat) + ". "@ + m.options[i] + " "@,
                    if i == m.selection {
                        Style { reversed: true, ..colored(theme.accent) }
                    } else {
                        colored(theme.fg)
                    },
                ),
            ],
    ) + seq![
        blank_row(),
        seq![span("  ↑↓ select   enter confirm   esc cancel "@, colored(theme.muted))],
    ]
}

/// Where a question with `n` answers stands.
pub open spec fn modal_rect(area: Rect, n: nat) -> Rect {
    let w = at_least(20, at_most(area.width as int, 60));
    let h = at_least(at_most(n as int + 5, at_least(area.height - 2, 0)), 5);
    Rect {
        x: centered(area.x as int, area.width as int, w) as u16,
        y: centered(area.y as int, area.height as int, h) as u16,
        width: w as u16,
        height: h as u16,
    }
}

fn add_options(out: &mut Vec<Row>, m: &PendingModal, theme: &Theme)
    requires
        m.options.len() < u16::MAX - 5,
    ensures
        rows(final(out)@) == rows(old(out)@) + modal_rows(m@, *theme).subrange(
            2,
            2 + m@.options.len() as int,
        ),
{
    let ghost start = rows(out@);
    let ghost all = modal_rows(m@, *theme);
    let n: usize = m.options.len();
    assert(m@.options.len() == n);
    let mut i: usize = 0;
    assert(start + all.subrange(2, 2) =~= start);
    while i < n
        invariant
            i <= n,
            n == m.options.len(),
            n == m@.options.len(),
            n < u16::MAX,
            all == modal_rows(m@, *theme),
            rows(out@) == start + all.subrange(2, 2 + i),
        decreases n - i,
    {
        assert(m@.options[i as int] == m.options@[i as int]@);
        let style = if i == m.selection {
            Style {
                fg: Some(theme.accent),
                bold: false,
                faint: false,
                reversed: true,
                underlined: false,
            }
        } else {
            in_color(theme.fg)
        };
        let k = text::number((i + 1) as u64);
        let row = row1(piece(text::cat5(" ", &k, ". ", &m.options[i], " "), style));
        assert(row@ =~= all[2 + i]);
        add_row(out, row);
        assert(start + all.subrange(2, 3 + i) =~= (start + all.subrange(2, 2 + i)).push(all[2 + i]));
        i = i + 1;
    }
}

/// A question to the user: its lines, and where it stands.
pub fn render_modal(m: &PendingModal, area: Rect, theme: &Theme) -> (r: (Vec<Row>, Rect))
    requires
        on_screen(area),
        m.options.len() < u16::MAX - 5,
    ensures
        rows(r.0@) == modal_rows(m@, *theme),
        r.1 == modal_rect(area, m@.options.len()),
{
    let mut out: Vec<Row> = Vec::new();
    assert(m@.options.len() == m.options.len());
    add_row(&mut out, row1(word(&m.prompt, in_bold(theme.accent))));
    add_row(&mut out, blank());
    add_options(&mut out, m, theme);
    add_row(&mut out, blank());
    add_row(
        &mut out,
        row1(word("  ↑↓ select   enter confirm   esc cancel ", in_color(theme.muted))),
    );
    assert(rows(out@) =~= modal_rows(m@, *theme));
    let w: u16 = if area.width > 60 {
        60
    } else if area.width < 20 {
        20
    } else {
        area.width
    };
    let wanted: u16 = m.options.len() as u16 + 5;
    let room: u16 = if area.height > 2 {
        area.height - 2
    } else {
        0
    };
    let fitting: u16 = if wanted < room {
        wanted
    } else {
        room
    };
    let h: u16 = if fitting > 5 {
        fitting
    } else {
        5
    };
    let x = center(area.x, area.width, w);
    let y = center(area.y, area.height, h);
    (out, Rect { x, y, width: w, height: h })
}

/// The lines of the question whether to quit.
pub open spec fn quit_rows(theme: Theme) -> Seq<Seq<SpanText>> {
    seq![
        blank_row(),
        seq![span("Quit itsy?"@, strong(theme.warning))],
        blank_row(),
        seq![span("  y to confirm    n / esc to cancel  "@, colored(theme.muted))],
    ]
}

/// Where the question whether to quit stands.
pub open spec fn quit_rect(area: Rect) -> Rect {
    let w = at_most(36, at_least(area.width - 2, 0));
    let h = at_most(6, at_least(area.height - 2, 0));
    Rect {
        x: centered(area.x as int, area.width as int, w) as u16,
        y: centered(area.y as int, area.height as int, h) as u16,
        width: w as u16,
        height: h as u16,
    }
}

fn inner(extent: u16, most: u16) -> (r: u16)
    ensures
        r == at_most(most as int, at_least(extent - 2, 0)),
{
    let room: u16 = if extent > 2 {
        extent - 2
    } else {
        0
    };
    if most < room {
        most
    } else {
        room
    }
}

/// The question whether to quit: its lines, and where it stands.
pub fn render_quit_confirm(area: Rect, theme: &Theme) -> (r: (Vec<Row>, Rect))
    requires
        on_screen(area),
    ensures
        rows(r.0@) == quit_rows(*theme),
        r.1 == quit_rect(area),
{
    let mut out: Vec<Row> = Vec::new();
    add_row(&mut out, blank());
    add_row(&mut out, row1(word("Quit itsy?", in_bold(theme.warning))));
    add_row(&mut out, blank());
    add_row(
        &mut out,
        row1(word("  y to confirm    n / esc to cancel  ", in_color(theme.muted))),
    );
    assert(rows(out@) =~= quit_rows(*theme));
    let w = inner(area.width, 36);
    let h = inner(area.height, 6);
    let x = center(area.x, area.width, w);
    let y = center(area.y, area.height, h);
    (out, Rect { x, y, width: w, height: h })
}

/// A box that is centered in an area reaches beyond it only when it is larger
/// than the area.
pub proof fn law_boxes_stay_inside(area: Rect, n: nat)
    requires
        on_screen(area),
        area.width >= 20,
        area.height >= 7,
    ensures
        area.x <= modal_rect(area, n).x,
        modal_rect(area, n).x + modal_rect(area, n).width <= area.x + area.width,
        area.y <= modal_rect(area, n).y,
        modal_rect(area, n).y + modal_rect(area, n).height <= area.y + area.height,
        area.x <= quit_rect(area).x,
        quit_rect(area).x + quit_rect(area).width <= area.x + area.width,
        area.y <= quit_rect(area).y,
        quit_rect(area).y + quit_rect(area).height <= area.y + area.height,
{
}

/// How many commands the list shows at most above an input box.
pub open spec fn palette_room(height: int) -> int {
    at_least(3, at_most(at_least(height - 2, 0), 12))
}

/// Where the list of commands stands when `n` commands match.
pub open spec fn palette_rect(area: Rect, n: nat) -> Rect {
    let h = at_least(at_most(n as int, palette_room(area.height as int)), 1) + 2;
    Rect {
        x: area.x,
        y: at_least(area.y - h, 0) as u16,
        width: at_most(area.width as int, 70) as u16,
        height: h as u16,
    }
}

/// The list of commands.
#[derive(Debug, Clone, Copy, PartialEq, Eq, Structural)]
pub struct Palette {
    /// How many commands are shown at most.
    pub room: usize,
    /// The command that is marked.
    pub selection: usize,
    pub rect: Rect,
}

/// The list of commands above an input box, when `n` commands match: the mark
/// never points past the last of them.
pub fn render_palette(st: &FullscreenState, area: Rect, n: usize) -> (p: Palette)
    ensures
        p.room == palette_room(area.height as int),
        p.selection == at_most(st@.palette_selection as int, at_least(n - 1, 0)),
        p.rect == palette_rect(area, n as nat),
{
    let inner: u16 = if area.height > 2 {
        area.height - 2
    } else {
        0
    };
    let room: u16 = if inner > 12 {
        12
    } else if inner < 3 {
        3
    } else {
        inner
    };
    let shown: u16 = if n < room as usize {
        n as u16
    } else {
        room
    };
    let last: usize = if n > 0 {
        n - 1
    } else {
        0
    };
    let selection: usize = if st.palette_selection < last {
        st.palette_selection
    } else {
        last
    };
    let h: u16 = if shown > 1 {
        shown + 2
    } else {
        3
    };
    let y: u16 = if area.y > h {
        area.y - h
    } else {
        0
    };
    let width: u16 = if area.width > 70 {
        70
    } else {
        area.width
    };
    Palette { room: room as usize, selection, rect: Rect { x: area.x, y, width, height: h } }
}

// ---------------------------------------------------------------------------
// The screen
// ---------------------------------------------------------------------------

/// The first line of a chat of `total` lines that a view of `height` lines
/// shows: the end of the chat, unless it is scrolled up.
pub open spec fn top_line(total: int, height: int, scroll: int) -> int {
    let last = at_least(total - height, 0);
    at_least(0, at_most(last + scroll, last))
}

/// The first line of a chat that is shown, in the sixteen bits that a scroll
/// offset has.
pub fn first_shown(total: usize, height: u16, scroll: i32) -> (r: u16)
    requires
        total <= i32::MAX,
    ensures
        r == top_line(total as int, height as int, scroll as int) % 0x1_0000,
{
    let rest: i64 = total as i64 - height as i64;
    let last: i64 = if rest > 0 {
        rest
    } else {
        0
    };
    let at: i64 = last + scroll as i64;
    if at < 0 {
        0
    } else if at > last {
        (last % 0x1_0000) as u16
    } else {
        (at % 0x1_0000) as u16
    }
}

/// The names of the sessions, the active one marked.
pub open spec fn tab_rows(
    tabs: Seq<fullscreen::TabText>,
    active: int,
    theme: Theme,
) -> Seq<Seq<SpanText>> {
    Seq::new(
        tabs.len(),
        |i: int|
            seq![
                span(
                    " "@ + tabs[i].title + " "@,
                    if i == active {
                        Style { underlined: true, ..strong(theme.brand) }
                    } else {
                        colored(theme.muted)
                    },
                ),
            ],
    )
}

/// The names of the sessions, the active one marked.
pub fn render_tabs(st: &FullscreenState) -> (out: Vec<Row>)
    ensures
        rows(out@) == tab_rows(st@.sessions, st@.active as int, st@.theme),
{
    let mut out: Vec<Row> = Vec::new();
    let ghost all = tab_rows(st@.sessions, st@.active as int, st@.theme);
    let theme = st.theme;
    assert(st@.sessions.len() == st.sessions.len());
    let mut i: usize = 0;
    assert(rows(out@) =~= all.take(0));
    while i < st.sessions.len()
        invariant
            i <= st.sessions.len(),
            st@.sessions.len() == st.sessions.len(),
            theme == st.theme,
            all == tab_rows(st@.sessions, st@.active as int, st@.theme),
            rows(out@) == all.take(i as int),
        decreases st.sessions.len() - i,
    {
        assert(st@.sessions[i as int] == st.sessions@[i as int]@);
        let style = if i == st.active_session {
            Style {
                fg: Some(theme.brand),
                bold: true,
                faint: false,
                reversed: false,
                underlined: true,
            }
        } else {
            in_color(theme.muted)
        };
        let row = row1(piece(text::cat3(" ", &st.sessions[i].title, " "), style));
        assert(row@ =~= all[i as int]);
        add_row(&mut out, row);
        assert(all.take(i + 1) =~= all.take(i as int).push(all[i as int]));
        i = i + 1;
    }
    assert(all.take(i as int) =~= all);
    out
}

/// The lines between the names of the sessions and the input: the chat, or the
/// start page when it is empty.
pub fn render_body(st: &FullscreenState, width: u16, version: &str, thinking: Color) -> (out: Vec<
    Row,
>)
    requires
        st.wf(),
    ensures
        rows(out@) == (if fullscreen::active_tab(st@).lines.len() == 0 {
            welcome_rows(st@.theme, width, version@)
        } else {
            chat_rows(
                fullscreen::active_tab(st@).lines,
                st@.theme,
                st@.show_thinking,
                thinking,
            )
        }),
{
    let tab = st.active();
    assert(fullscreen::line_texts(tab.chat_lines@).len() == tab.chat_lines@.len());
    if tab.chat_lines.len() == 0 {
        render_welcome(&st.theme, width, version)
    } else {
        render_chat_lines(&tab.chat_lines, &st.theme, st.show_thinking, thinking)
    }
}

/// What was said is shown line by line, with who said it before the first.
pub proof fn law_words_are_shown(role: ChatRole, s: Seq<char>, theme: Theme, show: bool, c: Color, i: int)
    requires
        0 <= i < text::split(s, '\n').len(),
    ensures
        ({
            let r = entry_rows(fullscreen::LineText::Text { role, text: s }, theme, show, c);
            &&& r.len() == text::split(s, '\n').len()
            &&& r[i].len() == 2 && r[i][1].text == text::split(s, '\n')[i]
            &&& role == ChatRole::User ==> r[0][0].text == " You: "@
            &&& role == ChatRole::Assistant ==> r[0][0].text == " AI:  "@
            &&& i > 0 ==> r[i][0].text == "      "@
        }),
{
}

/// A tool is shown with its name, what is said of it, and how it stands.
pub proof fn law_tools_are_shown(name: Seq<char>, status: ToolStatus, msg: Seq<char>, theme: Theme)
    ensures
        ({
            let r = tool_row(name, status, msg, theme);
            &&& r[3].text == name
            &&& r.last().text == msg
            &&& status is Done ==> r[1].text == "✓"@ && r[1].style.fg == Some(theme.success)
            &&& status is Failed ==> r[1].text == "✗"@ && r[1].style.fg == Some(theme.error)
            &&& status is Running ==> r[1].text == "⚙"@
            &&& status is Running && !text::has(msg, "running"@) ==> r.len() == 7 && r[5].text
                == "running... "@
            &&& !(status is Running) ==> r.len() == 6
        }),
{
}

/// A change is shown with its place, what went behind a minus and what came
/// behind a plus.
pub proof fn law_changes_are_shown(p: Seq<char>, n: u32, theme: Theme, show: bool, c: Color)
    ensures
        entry_rows(fullscreen::LineText::DiffHeader { path: p, line: n }, theme, show, c)[0][1].text
            == p + ":"@ + text::decimal(n as nat),
        entry_rows(fullscreen::LineText::DiffOld(p), theme, show, c)[0][1].text == "- "@ + p,
        entry_rows(fullscreen::LineText::DiffOld(p), theme, show, c)[0][1].style.fg == Some(
            theme.error,
        ),
        entry_rows(fullscreen::LineText::DiffNew(p), theme, show, c)[0][1].text == "+ "@ + p,
        entry_rows(fullscreen::LineText::DiffNew(p), theme, show, c)[0][1].style.fg == Some(
            theme.success,
        ),
        entry_rows(fullscreen::LineText::DiffMore(p), theme, show, c)[0][1].text == p,
        entry_rows(fullscreen::LineText::Spacer, theme, show, c).len() == 1,
{
}

/// The chat is shown entry by entry, in its order.
pub proof fn law_entries_are_shown(
    lines: Seq<fullscreen::LineText>,
    l: fullscreen::LineText,
    theme: Theme,
    show: bool,
    c: Color,
)
    ensures
        chat_rows(Seq::empty(), theme, show, c).len() == 0,
        chat_rows(lines.push(l), theme, show, c) == chat_rows(lines, theme, show, c) + entry_rows(
            l,
            theme,
            show,
            c,
        ),
{
    assert(lines.push(l).drop_last() =~= lines);
}

/// A question shows its options with their numbers, and the selected one stands
/// out.
pub proof fn law_questions_are_shown(m: fullscreen::ModalText, theme: Theme, i: int)
    requires
        0 <= i < m.options.len(),
    ensures
        modal_rows(m, theme)[0][0].text == m.prompt,
        modal_rows(m, theme)[2 + i][0].text == " "@ + text::decimal((i + 1) as nat) + ". "@
            + m.options[i] + " "@,
        modal_rows(m, theme)[2 + i][0].style.reversed <==> i == m.selection,
{
}

/// The sessions are shown by their titles, and the active one stands out.
pub proof fn law_tabs_are_shown(tabs: Seq<fullscreen::TabText>, active: int, theme: Theme, i: int)
    requires
        0 <= i < tabs.len(),
    ensures
        tab_rows(tabs, active, theme).len() == tabs.len(),
        tab_rows(tabs, active, theme)[i][0].text == " "@ + tabs[i].title + " "@,
        tab_rows(tabs, active, theme)[i][0].style.underlined <==> i == active,
{
}

/// Without scrolling the last lines are shown; scrolling up moves by as many
/// lines, and not beyond the first.
pub proof fn law_top_line(total: int, height: int, up: int)
    requires
        0 <= total,
        0 <= height,
        0 <= up,
    ensures
        total <= height ==> top_line(total, height, -up) == 0,
        total > height ==> top_line(total, height, 0) == total - height,
        total > height && up <= total - height ==> top_line(total, height, -up) == total - height
            - up,
        total > height && up > total - height ==> top_line(total, height, -up) == 0,
{
}

/// The cursor stands behind what is before it, and stays in the box.
pub proof fn law_cursor_column(x: int, width: int, columns: int)
    requires
        0 <= columns,
        width >= 1,
    ensures
        columns + 5 <= width ==> cursor_column(x, width, columns) == x + 4 + columns,
        cursor_column(x, width, columns) <= x + width - 1,
{
}

/// The list of commands has room for three to twelve of them, and stands above
/// the line.
pub proof fn law_list_of_commands(area: Rect, n: nat)
    requires
        on_screen(area),
    ensures
        3 <= palette_room(area.height as int) <= 12,
        palette_rect(area, n).width <= 70,
        palette_rect(area, n).width <= area.width,
        area.y >= 14 ==> palette_rect(area, n).y + palette_rect(area, n).height == area.y,
        1 <= n <= 3 ==> palette_rect(area, n).height == n + 2,
        palette_rect(area, n).x == area.x,
{
}

/// What is going on is the status, or else the task.
pub proof fn law_busy(status: Seq<char>, task: Seq<char>)
    ensures
        status.len() > 0 ==> busy(status, task) == Some(status),
        status.len() == 0 && task.len() > 0 ==> busy(status, task) == Some(task),
        status.len() == 0 && task.len() == 0 ==> busy(status, task) is None,
{
}

/// The welcome shows the logo that fits, the version and the first commands.
pub proof fn law_welcome(theme: Theme, width: u16, version: Seq<char>)
    ensures
        width >= 80 ==> welcome_rows(theme, width, version).len() == 15 && welcome_rows(
            theme,
            width,
            version,
        )[8][0].text == "v"@ + version,
        width < 80 ==> welcome_rows(theme, width, version).len() == 10 && welcome_rows(
            theme,
            width,
            version,
        )[3][0].text == "v"@ + version && welcome_rows(theme, width, version)[1][0].text
            == "i t s y"@,
{
}

} // verus!
