//! The full-screen view.

use itsy::fullscreen::chat::Fullscreen;
use itsy::fullscreen::input::{
    cursor_byte_to_char_idx, filtered_commands, insert_str_at, next_char_boundary,
    prev_char_boundary, remove_next_char, remove_prev_char,
};
use itsy::fullscreen::keys::{Key, KeyAction};
use itsy::fullscreen::render;
use itsy::fullscreen::{ChatLine, ChatRole, Color, SelectionResult, Theme, ToolStatus};

#[test]
fn cursor_movement_is_char_boundary_aware() {
    let mut s = String::from("a日b");
    let p = next_char_boundary(&s, 0);
    assert_eq!(p, 1);
    let p2 = next_char_boundary(&s, p);
    assert_eq!(p2, 4);
    let len = s.len();
    let new = remove_prev_char(&mut s, len);
    assert_eq!(s, "a日");
    assert_eq!(new, 4);
}

#[test]
fn filtered_commands_matches_quit() {
    let m = filtered_commands("q");
    assert!(m.iter().any(|c| c.cmd == "/quit"));
}

#[test]
fn stream_token_appends_to_assistant_line() {
    let mut fs = Fullscreen::new();
    fs.stream_token("hello ");
    fs.stream_token("world");
    match fs.state.active().chat_lines.last().unwrap() {
        ChatLine::Text { role: ChatRole::Assistant, text } => {
            assert_eq!(text, "hello world");
        }
        _ => panic!("expected trailing assistant line"),
    }
}

#[test]
fn add_diff_emits_expected_lines() {
    let mut fs = Fullscreen::new();
    fs.add_diff("foo.rs", "a\nb", "c\nd", 7);
    let lines = &fs.state.active().chat_lines;
    assert!(matches!(lines.first(), Some(ChatLine::DiffHeader { .. })));
    let has_old = lines.iter().any(|l| matches!(l, ChatLine::DiffOld(s) if s == "a"));
    let has_new = lines.iter().any(|l| matches!(l, ChatLine::DiffNew(s) if s == "d"));
    assert!(has_old && has_new);
}

#[test]
fn set_token_count_updates_state() {
    let mut fs = Fullscreen::new();
    fs.set_token_count(10, 20);
    assert_eq!(fs.state.token_prompt, 10);
    assert_eq!(fs.state.token_completion, 20);
}

#[test]
fn theme_from_name_handles_known_names() {
    let light = Theme::from_name("light");
    let dark = Theme::from_name("dark");
    let _minimal = Theme::from_name("minimal");
    assert!(
        light.bg != dark.bg || light.fg != dark.fg,
        "light/dark themes must differ somewhere"
    );
}

#[test]
fn theme_from_name_falls_back_to_dark() {
    let unknown = Theme::from_name("nonsense");
    let dark = Theme::from_name("dark");
    assert_eq!(unknown.bg, dark.bg);
    assert_eq!(unknown.fg, dark.fg);
}

#[test]
fn add_chat_inserts_message_and_spacer() {
    let mut fs = Fullscreen::new();
    fs.add_chat(ChatRole::User, "hi".to_string());
    let lines = &fs.state.active().chat_lines;
    assert_eq!(lines.len(), 2, "must push message + spacer");
    match &lines[0] {
        ChatLine::Text { role: ChatRole::User, text } => assert_eq!(text, "hi"),
        other => panic!("expected user text, got {other:?}"),
    }
    assert!(matches!(lines[1], ChatLine::Spacer));
}

#[test]
fn add_tool_maps_status_strings() {
    let mut fs = Fullscreen::new();
    fs.add_tool("bash", "ok", "completed");
    fs.add_tool("read", "err", "failed");
    fs.add_tool("patch", "running", "...");
    fs.add_tool("write", "something_unknown", "msg");
    let lines = &fs.state.active().chat_lines;
    let tools: Vec<&ToolStatus> = lines
        .iter()
        .filter_map(|l| match l {
            ChatLine::Tool { status, .. } => Some(status),
            _ => None,
        })
        .collect();
    assert_eq!(tools.len(), 4);
    assert_eq!(tools[0], &ToolStatus::Done);
    assert_eq!(tools[1], &ToolStatus::Failed);
    assert_eq!(tools[2], &ToolStatus::Running);
    assert_eq!(tools[3], &ToolStatus::Running);
}

#[test]
fn finish_tool_updates_running_line_in_place() {
    let mut fs = Fullscreen::new();
    fs.add_tool("bash", "running", "");
    fs.finish_tool("bash", "ok", "$ ls (12ms)");
    let tool_lines: Vec<&ChatLine> = fs
        .state
        .active()
        .chat_lines
        .iter()
        .filter(|l| matches!(l, ChatLine::Tool { .. }))
        .collect();
    assert_eq!(tool_lines.len(), 1, "should mutate, not push a second line");
    match tool_lines[0] {
        ChatLine::Tool { name, status, msg } => {
            assert_eq!(name, "bash");
            assert_eq!(*status, ToolStatus::Done);
            assert_eq!(msg, "$ ls (12ms)");
        }
        _ => unreachable!(),
    }
}

#[test]
fn finish_tool_pushes_when_no_running_line() {
    let mut fs = Fullscreen::new();
    fs.finish_tool("bash", "ok", "no prior running line");
    let n = fs
        .state
        .active()
        .chat_lines
        .iter()
        .filter(|l| matches!(l, ChatLine::Tool { .. }))
        .count();
    assert_eq!(n, 1);
}

#[test]
fn finish_tool_picks_most_recent_matching_running() {
    let mut fs = Fullscreen::new();
    fs.add_tool("bash", "running", "");
    fs.add_tool("read_file", "running", "");
    fs.add_tool("bash", "running", "");
    fs.finish_tool("bash", "ok", "done");
    let bash_lines: Vec<&ChatLine> = fs
        .state
        .active()
        .chat_lines
        .iter()
        .filter(|l| matches!(l, ChatLine::Tool { name, .. } if name == "bash"))
        .collect();
    assert_eq!(bash_lines.len(), 2);
    match bash_lines[0] {
        ChatLine::Tool { status, .. } => assert_eq!(*status, ToolStatus::Running),
        _ => unreachable!(),
    }
    match bash_lines[1] {
        ChatLine::Tool { status, msg, .. } => {
            assert_eq!(*status, ToolStatus::Done);
            assert_eq!(msg, "done");
        }
        _ => unreachable!(),
    }
}

#[test]
fn add_diff_truncates_long_blocks() {
    let mut fs = Fullscreen::new();
    let old: String = (0..20).map(|i| format!("o{i}")).collect::<Vec<_>>().join("\n");
    let new: String = (0..20).map(|i| format!("n{i}")).collect::<Vec<_>>().join("\n");
    fs.add_diff("big.rs", &old, &new, 1);
    let lines = &fs.state.active().chat_lines;
    let more_count = lines.iter().filter(|l| matches!(l, ChatLine::DiffMore(_))).count();
    assert_eq!(more_count, 2, "must emit a 'more' marker for both old and new (20>8)");
    let old_count = lines.iter().filter(|l| matches!(l, ChatLine::DiffOld(_))).count();
    let new_count = lines.iter().filter(|l| matches!(l, ChatLine::DiffNew(_))).count();
    assert_eq!(old_count, 8, "must cap old lines at 8");
    assert_eq!(new_count, 8, "must cap new lines at 8");
    assert!(lines.iter().any(|l| matches!(l, ChatLine::DiffMore(s) if s == "... (12 more)")));
}

#[test]
fn add_diff_short_blocks_unchanged() {
    let mut fs = Fullscreen::new();
    fs.add_diff("a.rs", "a\nb", "c\nd", 1);
    let lines = &fs.state.active().chat_lines;
    assert!(
        !lines.iter().any(|l| matches!(l, ChatLine::DiffMore(_))),
        "short diff must NOT show truncation marker"
    );
}

#[test]
fn stream_token_starts_new_line_after_other_role() {
    let mut fs = Fullscreen::new();
    fs.add_chat(ChatRole::User, "hi".to_string());
    fs.stream_token("hello");
    let lines = &fs.state.active().chat_lines;
    let last_text = lines
        .iter()
        .rev()
        .find_map(|l| match l {
            ChatLine::Text { role, text } => Some((role, text)),
            _ => None,
        })
        .expect("must have a text line");
    assert_eq!(last_text.0, &ChatRole::Assistant);
    assert_eq!(last_text.1, "hello");
}

#[test]
fn end_stream_appends_spacer() {
    let mut fs = Fullscreen::new();
    fs.stream_token("hello");
    fs.set_streaming(true);
    fs.end_stream();
    assert!(!fs.state.active().streaming);
    assert!(matches!(fs.state.active().chat_lines.last(), Some(ChatLine::Spacer)));
}

#[test]
fn new_session_switches_active() {
    let mut fs = Fullscreen::new();
    let before = fs.state.sessions.len();
    fs.new_session("Second".to_string());
    assert_eq!(fs.state.sessions.len(), before + 1);
    assert_eq!(fs.state.active_session, fs.state.sessions.len() - 1);
    assert_eq!(fs.state.sessions.last().unwrap().title, "Second");
}

#[test]
fn set_status_records_text_and_timestamp() {
    let mut fs = Fullscreen::new();
    fs.set_status("doing thing".to_string(), 100);
    assert_eq!(fs.state.status, "doing thing");
    assert!(fs.state.status_set_at.is_some());
}

#[test]
fn set_model_records_name() {
    let mut fs = Fullscreen::new();
    fs.set_model("qwen-3-coder".to_string());
    assert_eq!(fs.state.model, "qwen-3-coder");
}

#[test]
fn set_task_type_records_value() {
    let mut fs = Fullscreen::new();
    fs.set_task_type("coding".to_string());
    assert_eq!(fs.state.task_type, "coding");
}

#[test]
fn set_latency_records_ms() {
    let mut fs = Fullscreen::new();
    fs.set_latency(150);
    assert_eq!(fs.state.latency_ms, 150);
}

#[test]
fn filtered_commands_empty_returns_all() {
    let m = filtered_commands("");
    assert!(m.len() >= 10, "must return many commands; got {}", m.len());
    assert_eq!(m.len(), 26);
}

#[test]
fn filtered_commands_matches_alias() {
    let m = filtered_commands("/q");
    assert!(
        m.iter().any(|c| c.cmd == "/quit"),
        "filter '/q' must match /quit via alias or prefix"
    );
}

#[test]
fn filtered_commands_no_match_is_empty() {
    let m = filtered_commands("xyzabc-no-such-command");
    assert!(m.is_empty());
}

#[test]
fn filtered_commands_ignore_case() {
    let m = filtered_commands("/VERSION");
    assert_eq!(m.len(), 1);
    assert_eq!(m[0].cmd, "/version");
}

#[test]
fn prev_char_boundary_multibyte() {
    let s = "a日b";
    assert_eq!(prev_char_boundary(s, 5), 4);
    assert_eq!(prev_char_boundary(s, 4), 1);
    assert_eq!(prev_char_boundary(s, 1), 0);
    assert_eq!(prev_char_boundary(s, 0), 0, "at start, must not go negative");
}

#[test]
fn next_char_boundary_at_end_is_clamped() {
    let s = "abc";
    assert_eq!(next_char_boundary(s, 3), 3, "at end, must not exceed len");
}

#[test]
fn boundaries_from_inside_a_character() {
    let s = "a日b";
    assert_eq!(next_char_boundary(s, 2), 4);
    assert_eq!(prev_char_boundary(s, 3), 1);
    assert_eq!(prev_char_boundary(s, 9), 5);
}

#[test]
fn insert_str_at_appends_correctly() {
    let mut s = String::from("hello");
    insert_str_at(&mut s, 5, " world");
    assert_eq!(s, "hello world");
}

#[test]
fn insert_str_at_middle_position() {
    let mut s = String::from("hello world");
    insert_str_at(&mut s, 6, "tiny ");
    assert_eq!(s, "hello tiny world");
}

#[test]
fn remove_next_char_drops_one_char() {
    let mut s = String::from("abc");
    remove_next_char(&mut s, 1);
    assert_eq!(s, "ac");
}

#[test]
fn remove_next_char_multibyte() {
    let mut s = String::from("a日b");
    remove_next_char(&mut s, 1);
    assert_eq!(s, "ab");
}

#[test]
fn nothing_is_removed_beyond_the_end() {
    let mut s = String::from("a日");
    remove_next_char(&mut s, 4);
    assert_eq!(s, "a日");
    remove_next_char(&mut s, 9);
    assert_eq!(s, "a日");
    insert_str_at(&mut s, 1, "é");
    remove_next_char(&mut s, 1);
    assert_eq!(s, "a日");
}

#[test]
fn cursor_byte_to_char_idx_mapping() {
    let s = "a日b";
    assert_eq!(cursor_byte_to_char_idx(s, 0), 0);
    assert_eq!(cursor_byte_to_char_idx(s, 1), 1);
    assert_eq!(cursor_byte_to_char_idx(s, 4), 2);
}

fn press(fs: &mut Fullscreen, keys: &str) {
    for c in keys.chars() {
        fs.state.handle_key(Key::Char(c), false);
    }
}

#[test]
fn typing_and_taking_back() {
    let mut fs = Fullscreen::new();
    press(&mut fs, "a日");
    assert_eq!(fs.state.input, "a日");
    assert_eq!(fs.state.input_cursor, 4);
    fs.state.handle_key(Key::Left, false);
    assert_eq!(fs.state.input_cursor, 1);
    press(&mut fs, "x");
    assert_eq!(fs.state.input, "ax日");
    fs.state.handle_key(Key::Backspace, false);
    assert_eq!(fs.state.input, "a日");
    assert_eq!(fs.state.input_cursor, 1);
    fs.state.handle_key(Key::Delete, false);
    assert_eq!(fs.state.input, "a");
    fs.state.handle_key(Key::Char('u'), true);
    assert_eq!(fs.state.input, "");
    assert_eq!(fs.state.input_cursor, 0);
}

#[test]
fn enter_submits_and_remembers() {
    let mut fs = Fullscreen::new();
    press(&mut fs, "  hi there ");
    match fs.state.handle_key(Key::Enter, false) {
        KeyAction::Submit(s) => assert_eq!(s, "hi there"),
        other => panic!("expected a message, got {other:?}"),
    }
    assert_eq!(fs.state.history, vec!["hi there".to_string()]);
    assert_eq!(fs.state.history_idx, 1);
    assert_eq!(fs.state.active().chat_lines.len(), 2);
    fs.state.handle_key(Key::Up, false);
    assert_eq!(fs.state.input, "hi there");
    fs.state.handle_key(Key::Down, false);
    assert_eq!(fs.state.input, "");
    assert!(matches!(fs.state.handle_key(Key::Enter, false), KeyAction::Nothing));
}

#[test]
fn palette_picks_a_command() {
    let mut fs = Fullscreen::new();
    press(&mut fs, "/mem");
    assert!(fs.state.palette_open);
    match fs.state.handle_key(Key::Enter, false) {
        KeyAction::Command(s) => assert_eq!(s, "/memory"),
        other => panic!("expected a command, got {other:?}"),
    }
    assert!(!fs.state.palette_open);
    assert!(fs.state.active().chat_lines.is_empty());
}

#[test]
fn palette_selection_stays_in_range() {
    let mut fs = Fullscreen::new();
    press(&mut fs, "/se");
    let n = filtered_commands("/se").len();
    for _ in 0..50 {
        fs.state.handle_key(Key::Down, false);
    }
    assert_eq!(fs.state.palette_selection, n - 1);
    for _ in 0..50 {
        fs.state.handle_key(Key::Up, false);
    }
    assert_eq!(fs.state.palette_selection, 0);
    fs.state.handle_key(Key::Esc, false);
    assert!(!fs.state.palette_open);
}

#[test]
fn history_keeps_five_hundred_lines() {
    let mut fs = Fullscreen::new();
    for i in 0..510 {
        press(&mut fs, &format!("m{i}"));
        fs.state.handle_key(Key::Enter, false);
    }
    assert_eq!(fs.state.history.len(), 500);
    assert_eq!(fs.state.history[0], "m10");
    assert_eq!(fs.state.history_idx, 500);
}

#[test]
fn question_takes_the_keys() {
    let mut fs = Fullscreen::new();
    fs.ask("Go on?".to_string(), vec!["yes".to_string(), "no".to_string()]);
    fs.state.handle_key(Key::Char('a'), false);
    assert_eq!(fs.state.input, "");
    fs.state.handle_key(Key::Down, false);
    fs.state.handle_key(Key::Down, false);
    fs.state.handle_key(Key::Enter, false);
    let m = fs.state.modal.as_ref().unwrap();
    assert_eq!(m.resolved, Some(SelectionResult::Selected(1)));
    let mut fs = Fullscreen::new();
    fs.ask("Go on?".to_string(), vec!["yes".to_string(), "no".to_string()]);
    fs.state.handle_key(Key::Char('3'), false);
    assert_eq!(fs.state.modal.as_ref().unwrap().resolved, None);
    fs.state.handle_key(Key::Char('2'), false);
    assert_eq!(
        fs.state.modal.as_ref().unwrap().resolved,
        Some(SelectionResult::Selected(1))
    );
    fs.state.handle_key(Key::Esc, false);
    assert_eq!(
        fs.state.modal.as_ref().unwrap().resolved,
        Some(SelectionResult::Cancelled)
    );
}

#[test]
fn quitting_is_confirmed() {
    let mut fs = Fullscreen::new();
    fs.state.handle_key(Key::Esc, false);
    assert!(fs.state.quit_confirm);
    fs.state.handle_key(Key::Char('x'), false);
    assert_eq!(fs.state.input, "");
    fs.state.handle_key(Key::Char('n'), false);
    assert!(!fs.state.quit_confirm);
    fs.state.handle_key(Key::Char('q'), true);
    fs.state.handle_key(Key::Char('y'), false);
    assert!(fs.state.quit);
    let mut fs = Fullscreen::new();
    fs.state.handle_key(Key::Char('c'), true);
    assert!(fs.state.quit);
}

#[test]
fn sessions_go_round() {
    let mut fs = Fullscreen::new();
    fs.new_session("b".to_string());
    fs.new_session("c".to_string());
    assert_eq!(fs.state.active_session, 2);
    fs.state.handle_key(Key::Tab, false);
    assert_eq!(fs.state.active_session, 0);
    fs.state.handle_key(Key::BackTab, false);
    assert_eq!(fs.state.active_session, 2);
}

#[test]
fn scrolling_stays_within_the_chat() {
    let mut fs = Fullscreen::new();
    for i in 0..4 {
        fs.add_thinking(format!("t{i}"));
    }
    fs.state.handle_mouse(true);
    assert_eq!(fs.state.active().scroll, -3);
    fs.state.handle_key(Key::PageUp, false);
    assert_eq!(fs.state.active().scroll, -3);
    fs.state.handle_key(Key::PageDown, false);
    assert_eq!(fs.state.active().scroll, 0);
    fs.state.handle_mouse(false);
    assert_eq!(fs.state.active().scroll, 0);
}

#[test]
fn status_expires() {
    let mut fs = Fullscreen::new();
    fs.set_status("busy".to_string(), 1000);
    fs.expire_status(6000);
    assert_eq!(fs.state.status, "busy");
    fs.expire_status(6001);
    assert_eq!(fs.state.status, "");
    assert!(fs.state.status_set_at.is_none());
}

#[test]
fn chat_is_rendered_line_by_line() {
    let theme = Theme::dark();
    let lines = vec![
        ChatLine::Text { role: ChatRole::User, text: "a\nb".to_string() },
        ChatLine::Thinking("hm".to_string()),
        ChatLine::Tool {
            name: "bash".to_string(),
            status: ToolStatus::Running,
            msg: "$ ls".to_string(),
        },
        ChatLine::DiffHeader { path: "x.rs".to_string(), line: 3 },
        ChatLine::DiffOld("o".to_string()),
        ChatLine::DiffNew("n".to_string()),
        ChatLine::Spacer,
    ];
    let hidden = render::render_chat_lines(&lines, &theme, false, Color::Gray);
    assert_eq!(hidden.len(), 7);
    assert_eq!(hidden[0].spans[0].text, " You: ");
    assert!(hidden[0].spans[0].style.bold);
    assert_eq!(hidden[0].spans[1].text, "a");
    assert_eq!(hidden[1].spans[0].text, "      ");
    assert_eq!(hidden[1].spans[1].text, "b");
    let tool: String = hidden[2].spans.iter().map(|s| s.text.as_str()).collect();
    assert_eq!(tool, " [⚙ bash] running... $ ls");
    assert_eq!(hidden[3].spans[1].text, "x.rs:3");
    assert_eq!(hidden[4].spans[1].text, "- o");
    assert_eq!(hidden[5].spans[1].text, "+ n");
    let shown = render::render_chat_lines(&lines, &theme, true, Color::Gray);
    assert_eq!(shown.len(), 8);
    assert_eq!(shown[2].spans[0].text, " ⠁ ");
    assert!(shown[2].spans[1].style.faint);
}

#[test]
fn welcome_fits_the_width() {
    let theme = Theme::dark();
    let wide = render::render_welcome(&theme, 80, "1.2.3");
    let narrow = render::render_welcome(&theme, 79, "1.2.3");
    assert_eq!(wide.len(), 15);
    assert_eq!(narrow.len(), 10);
    assert_eq!(narrow[1].spans[0].text, "i t s y");
    assert_eq!(narrow[3].spans[0].text, "v1.2.3");
    assert_eq!(narrow[5].spans[0].text, "  /help     ");
    assert_eq!(narrow[5].spans[1].text, " show help         ");
}

#[test]
fn input_box_tells_what_goes_on() {
    let mut fs = Fullscreen::new();
    fs.state.show_thinking = false;
    assert_eq!(render::render_input(&fs.state).title, "itsy");
    fs.state.show_thinking = true;
    assert_eq!(render::render_input(&fs.state).title, "itsy  · thinking on  (ctrl+t)");
    press(&mut fs, "日x");
    assert_eq!(render::render_cursor(&fs.state, 0, 80), 7);
    assert_eq!(render::render_cursor(&fs.state, 0, 5), 4);
    assert_eq!(render::cursor_at(10, 40, 3), 17);
    assert!(render::busy_label(&fs.state).is_none());
    fs.set_task_type("coding".to_string());
    assert_eq!(render::busy_label(&fs.state).unwrap(), "coding");
    assert!(render::shows_spinner(&fs.state));
}

#[test]
fn boxes_are_centered() {
    let area = render::Rect { x: 0, y: 0, width: 100, height: 40 };
    let (_, quit) = render::render_quit_confirm(area, &Theme::dark());
    assert_eq!(quit, render::Rect { x: 32, y: 17, width: 36, height: 6 });
    let mut fs = Fullscreen::new();
    fs.ask("Pick".to_string(), vec!["a".to_string(), "b".to_string()]);
    let (rows, rect) = render::render_modal(fs.state.modal.as_ref().unwrap(), area, &Theme::dark());
    assert_eq!(rows.len(), 6);
    assert_eq!(rows[2].spans[0].text, " 1. a ");
    assert!(rows[2].spans[0].style.reversed);
    assert_eq!(rect, render::Rect { x: 20, y: 16, width: 60, height: 7 });
    let p = render::render_palette(&fs.state, render::Rect { x: 2, y: 20, width: 90, height: 3 }, 5);
    assert_eq!(p.room, 3);
    assert_eq!(p.rect, render::Rect { x: 2, y: 15, width: 70, height: 5 });
    assert_eq!(render::first_shown(100, 20, 0), 80);
    assert_eq!(render::first_shown(100, 20, -30), 50);
    assert_eq!(render::first_shown(10, 20, -3), 0);
}

#[test]
fn tabs_mark_the_active_session() {
    let mut fs = Fullscreen::new();
    fs.new_session("two".to_string());
    let rows = render::render_tabs(&fs.state);
    assert_eq!(rows.len(), 2);
    assert_eq!(rows[1].spans[0].text, " two ");
    assert!(rows[1].spans[0].style.underlined);
    assert!(!rows[0].spans[0].style.underlined);
    let body = render::render_body(&fs.state, 40, "0", Color::Gray);
    assert_eq!(body.len(), 10);
}

#[test]
fn thoughts_are_streamed_and_toggled() {
    let mut fs = Fullscreen::new();
    fs.stream_thinking_token("hm ");
    fs.stream_thinking_token("well");
    assert_eq!(fs.state.active().chat_lines.len(), 1);
    assert!(matches!(&fs.state.active().chat_lines[0], ChatLine::Thinking(s) if s == "hm well"));
    fs.set_show_thinking(false);
    fs.toggle_thinking();
    assert!(fs.state.show_thinking);
}

#[test]
fn answers_to_questions_are_handed_out() {
    let mut fs = Fullscreen::new();
    assert!(fs.show_modal().is_none());
    fs.ask("Go on?".to_string(), vec!["yes".to_string()]);
    assert!(fs.show_modal().is_none());
    fs.state.handle_key(Key::Enter, false);
    assert_eq!(fs.show_modal(), Some(SelectionResult::Selected(0)));
    assert!(fs.state.modal.is_none());
    assert!(fs.show_modal().is_none());
}

#[test]
fn the_chat_keeps_five_thousand_lines() {
    let mut fs = Fullscreen::new();
    for i in 0..5010 {
        fs.add_thinking(format!("t{i}"));
    }
    let lines = &fs.state.active().chat_lines;
    assert_eq!(lines.len(), 5000);
    assert!(matches!(&lines[0], ChatLine::Thinking(s) if s == "t10"));
}

#[test]
fn typing_more_narrows_the_commands() {
    let names = |f: &str| filtered_commands(f).iter().map(|c| c.cmd).collect::<Vec<_>>();
    assert_eq!(names("/se"), names("se"));
    assert_eq!(names("/SE"), names("/se"));
    assert_eq!(names("s"), names("S"));
    let all = names("/s");
    let some = names("/ses");
    assert_eq!(some, vec!["/sessions", "/session"]);
    let mut rest = all.iter();
    assert!(some.iter().all(|c| rest.any(|d| d == c)));
}
