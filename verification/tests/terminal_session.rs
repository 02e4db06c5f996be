use std::collections::VecDeque;
use std::io;

use shell_ai::history::{height, picker_colors, picker_items, PromptItem};
use shell_ai::input::{InputBuffer, TerminalEvent};
use shell_ai::input::TerminalEvent as E;
use shell_ai::keys::{map_key, KeyCode, KeyEvent, KeyEventKind, ALT, CONTROL, SHIFT, SUPER};
use shell_ai::session::{
    HistoryStyle, MenuStyle, RenderFrame, Session, SessionAction, SessionConfig, SessionInput,
    SessionResult,
};
use shell_ai::terminal::{
    clear_sequence, disable_paste_sequence, input_column, menu_item, menu_prompt, nested_menu_header,
    picker_gap, render_frame, render_wrapped, restore_terminal, setup_sequence, setup_with_raw_mode,
    Screen,
};
use shell_ai::wrap::{room_of, window_of, wrap_cells};
use shell_ai::theme::{AppTheme, Colors};

fn config() -> SessionConfig {
    SessionConfig {
        prompt: "AI› ".to_owned(),
        prompt_color: Some(250),
        input_color: Some(252),
        error_color: Some(203),
        history_key: '!',
        menu_key: '/',
        history_style: HistoryStyle {
            prompt: Some(250),
            input: Some(252),
            item: Some(252),
            matched: Some(110),
            active: Some(110),
            active_match: Some(110),
        },
        menu_style: MenuStyle {
            prompt: Some(250),
            item: Some(252),
            active: Some(110),
        },
    }
}

/// What a scripted run of a session saw and did.
struct Run {
    completion_requests: Vec<(String, usize)>,
    result: SessionResult,
    frames: Vec<RenderFrame>,
    history: Vec<String>,
    history_styles: Vec<HistoryStyle>,
    menu_styles: Vec<MenuStyle>,
    state: String,
}

/// The provider side of a scripted session.
struct Script {
    events: VecDeque<TerminalEvent>,
    history_selections: VecDeque<Option<String>>,
    menu_selections: VecDeque<Option<usize>>,
    providers: Vec<String>,
    models: Vec<(String, Vec<String>)>,
    suggestion: Result<String, String>,
    state: String,
    completions: VecDeque<Option<String>>,
    edits: VecDeque<Result<String, String>>,
    completion_requests: Vec<(String, usize)>,
}

impl Script {
    fn new(events: impl IntoIterator<Item = TerminalEvent>) -> Self {
        Script {
            events: events.into_iter().collect(),
            history_selections: VecDeque::new(),
            menu_selections: VecDeque::new(),
            providers: vec!["test".to_owned()],
            models: vec![("test".to_owned(), vec!["model".to_owned()])],
            suggestion: Ok("unused".to_owned()),
            state: "test/model".to_owned(),
            completions: VecDeque::new(),
            edits: VecDeque::new(),
            completion_requests: Vec::new(),
        }
    }

    fn run(mut self, config: SessionConfig, history: Vec<String>) -> Run {
        let menu_style = config.menu_style;
        let history_style = config.history_style;
        let mut session = Session::new(config, history);
        let mut frames = Vec::new();
        let mut history_styles = Vec::new();
        let mut menu_styles = Vec::new();
        let mut action = session.start();
        loop {
            let input = match action {
                SessionAction::ReadEvent => {
                    frames.push(session.frame());
                    SessionInput::Event(self.events.pop_front().expect("no event"))
                }
                SessionAction::SelectHistory => {
                    history_styles.push(history_style);
                    SessionInput::HistoryChoice(self.history_selections.pop_front().flatten())
                }
                SessionAction::SelectMenu { redraw } => {
                    if redraw {
                        frames.push(session.redraw_frame());
                    }
                    menu_styles.push(menu_style);
                    SessionInput::MenuChoice(self.menu_selections.pop_front().flatten())
                }
                SessionAction::ListProviders => SessionInput::Providers(self.providers.clone()),
                SessionAction::CurrentModel => SessionInput::CurrentModel(self.state.clone()),
                SessionAction::SelectProvider { .. } => {
                    menu_styles.push(menu_style);
                    SessionInput::ProviderChoice(self.menu_selections.pop_front().flatten())
                }
                SessionAction::ListModels { provider } => SessionInput::Models(
                    self.models
                        .iter()
                        .find(|(p, _)| *p == provider)
                        .map(|(_, m)| m.clone())
                        .unwrap_or_default(),
                ),
                SessionAction::SelectModel { .. } => {
                    menu_styles.push(menu_style);
                    SessionInput::ModelChoice(self.menu_selections.pop_front().flatten())
                }
                SessionAction::ApplyModel { selection } => {
                    self.state = selection;
                    SessionInput::ModelApplied
                }
                SessionAction::Suggest { .. } => SessionInput::Suggestion(self.suggestion.clone()),
                SessionAction::Complete { text, cursor } => {
                    self.completion_requests.push((text, cursor));
                    SessionInput::Completion(self.completions.pop_front().flatten())
                }
                SessionAction::EditExternally { .. } => {
                    SessionInput::Edited(self.edits.pop_front().expect("no edit"))
                }
                SessionAction::Finish(result) => {
                    return Run {
                        completion_requests: self.completion_requests,
                        result,
                        frames,
                        history: session.history().clone(),
                        history_styles,
                        menu_styles,
                        state: self.state,
                    };
                }
            };
            action = session.resume(input);
        }
    }
}

fn model_script(events: impl IntoIterator<Item = TerminalEvent>) -> Script {
    let mut script = Script::new(events);
    script.providers = vec!["other".to_owned(), "test".to_owned()];
    script.models = vec![
        ("other".to_owned(), vec!["third".to_owned()]),
        ("test".to_owned(), vec!["first".to_owned(), "second".to_owned()]),
    ];
    script.state = "test/first".to_owned();
    script
}

#[test]
fn terminal_setup_restores_normal_mode_when_setup_fails() {
    let mut raw_mode_disabled = false;

    assert!(
        setup_with_raw_mode(
            || Ok(()),
            || {
                raw_mode_disabled = true;
                Ok(())
            },
            || Err::<(), _>(io::Error::other("setup failed")),
        )
        .is_err()
    );
    assert!(raw_mode_disabled);
}

#[test]
fn terminal_setup_keeps_raw_mode_when_setup_succeeds() {
    let mut raw_mode_disabled = false;
    let result = setup_with_raw_mode(
        || Ok::<(), io::Error>(()),
        || {
            raw_mode_disabled = true;
            Ok(())
        },
        || Ok(7),
    );
    assert_eq!(result.unwrap(), 7);
    assert!(!raw_mode_disabled);
    let mut set_up = false;
    assert!(setup_with_raw_mode(
        || Err::<(), _>(io::Error::other("no tty")),
        || Ok(()),
        || {
            set_up = true;
            Ok(())
        },
    )
    .is_err());
    assert!(!set_up);
}

#[test]
fn request_session_does_not_switch_to_the_alternate_screen() {
    assert_eq!(setup_sequence().as_bytes(), b"\x1b7\x1b[?2004h");
}

#[test]
fn clearing_the_inline_session_removes_the_request_line() {
    assert_eq!(clear_sequence().as_bytes(), b"\x1b8\x1b[J");
}

/// A writer that keeps what it is given, or that always fails.
struct Output {
    bytes: std::cell::RefCell<Vec<u8>>,
    fails: bool,
}

impl Output {
    fn write(&self, text: String) -> io::Result<()> {
        if self.fails {
            return Err(io::Error::other("write failed"));
        }
        self.bytes.borrow_mut().extend_from_slice(text.as_bytes());
        Ok(())
    }
}

#[test]
fn terminal_cleanup_disables_raw_mode_after_clearing_the_inline_session() {
    let output = Output { bytes: std::cell::RefCell::new(Vec::new()), fails: false };
    let mut raw_mode_disabled = false;

    restore_terminal(
        |text| output.write(text),
        |text| output.write(text),
        || {
            raw_mode_disabled = true;
            Ok(())
        },
    )
    .unwrap();

    assert_eq!(*output.bytes.borrow(), b"\x1b8\x1b[J\x1b[?2004l");
    assert!(raw_mode_disabled);
}

#[test]
fn terminal_cleanup_disables_raw_mode_when_inline_cleanup_fails() {
    let output = Output { bytes: std::cell::RefCell::new(Vec::new()), fails: true };
    let mut raw_mode_disabled = false;

    assert!(
        restore_terminal(
            |text| output.write(text),
            |text| output.write(text),
            || {
                raw_mode_disabled = true;
                Ok(())
            },
        )
        .is_err()
    );
    assert!(raw_mode_disabled);
}

#[test]
fn terminal_cleanup_reports_the_first_failure() {
    let output = Output { bytes: std::cell::RefCell::new(Vec::new()), fails: false };
    let outcome = restore_terminal(
        |text| output.write(text).map_err(|_| "write"),
        |_| Err("paste"),
        || Err("raw"),
    );
    assert_eq!(outcome, Err("paste"));
    assert_eq!(*output.bytes.borrow(), b"\x1b8\x1b[J");
}

#[test]
fn menu_picker_starts_below_the_visible_ai_prompt() {
    assert_eq!(picker_gap().as_bytes(), b"\r\n");
}

#[test]
fn history_picker_starts_below_the_visible_shell_and_ai_prompts() {
    assert_eq!(picker_gap().as_bytes(), b"\r\n");
}

#[test]
fn nested_model_picker_renders_an_indented_model_menu() {
    assert_eq!(nested_menu_header("model:", &MenuStyle::default()).as_bytes(), b"model:\r\n");
}

#[test]
fn session_menu_marks_and_indents_items() {
    let style = MenuStyle { prompt: None, item: Some(252), active: Some(110) };
    assert_eq!(menu_item("  ", "model", true, &style), "\x1b[38;5;110m  › model\x1b[0m");
    assert_eq!(menu_item("", "model", false, &MenuStyle::default()), "  model");
    assert_eq!(menu_prompt("menu:", &MenuStyle::default()), "menu:");
}

#[test]
fn renders_cursor_using_display_width_not_byte_length() {
    let mut input = InputBuffer::new();
    input.insert("界éx");
    input.edit(TerminalEvent::Left);
    let c = config();
    let frame = RenderFrame {
        prefix: c.prompt.clone(),
        prefix_color: c.prompt_color,
        input: input.text(),
        cursor: input.cursor_chars(),
        input_color: c.input_color,
        error: Some("error".to_owned()),
        error_color: c.error_color,
    };
    assert_eq!(input_column(&frame), 7);
    let output = render_frame(&frame);
    assert!(output.as_bytes().ends_with(b"\x1b8\x1b[7C"));
    assert!(output.starts_with("\x1b8\x1b[J\x1b[38;5;250mAI› \x1b[0m\x1b[38;5;252m界éx\x1b[0m\r\n\x1b[38;5;203merror\x1b[0m"));
}

#[test]
fn an_empty_request_draws_only_the_prompt() {
    let frame = RenderFrame {
        prefix: "> ".to_owned(),
        prefix_color: None,
        input: String::new(),
        cursor: 0,
        input_color: Some(1),
        error: None,
        error_color: None,
    };
    assert_eq!(render_frame(&frame), "\x1b8\x1b[J> \x1b8\x1b[2C");
}

#[test]
fn edits_at_utf8_boundaries_and_stops_at_line_edges() {
    let mut input = InputBuffer::new();
    input.edit(TerminalEvent::Backspace);
    input.edit(TerminalEvent::Delete);
    input.edit(TerminalEvent::Left);
    input.edit(TerminalEvent::Right);
    assert_eq!(input.cursor(), 0);
    input.insert("a界é");
    input.edit(TerminalEvent::Left);
    assert_eq!(input.cursor(), 4);
    input.edit(TerminalEvent::Character('!'));
    assert_eq!(input.text(), "a界!é");
    input.edit(TerminalEvent::Delete);
    assert_eq!(input.text(), "a界!");
    input.edit(TerminalEvent::Backspace);
    input.edit(TerminalEvent::Backspace);
    assert_eq!(input.text(), "a");
    input.edit(TerminalEvent::Home);
    input.edit(TerminalEvent::Character('é'));
    input.edit(TerminalEvent::End);
    input.edit(TerminalEvent::Right);
    assert_eq!((input.text().as_str(), input.cursor()), ("éa", 3));
}

#[test]
fn moves_by_words_and_restores_killed_text_at_the_cursor() {
    let mut input = InputBuffer::new();
    input.insert("one  世界 three  ");
    input.edit(TerminalEvent::WordLeft);
    assert_eq!(&input.text()[input.cursor()..], "three  ");
    input.edit(TerminalEvent::WordLeft);
    assert_eq!(&input.text()[input.cursor()..], "世界 three  ");
    input.edit(TerminalEvent::WordRight);
    assert_eq!(&input.text()[input.cursor()..], " three  ");
    input.edit(TerminalEvent::KillWord);
    assert_eq!(input.text(), "one   three  ");
    input.edit(TerminalEvent::Yank);
    assert_eq!(input.text(), "one  世界 three  ");
    input.edit(TerminalEvent::KillStart);
    assert_eq!(input.text(), " three  ");
    input.edit(TerminalEvent::KillStart);
    input.edit(TerminalEvent::Yank);
    input.edit(TerminalEvent::KillEnd);
    assert_eq!(input.text(), "one  世界");
    input.edit(TerminalEvent::Home);
    input.edit(TerminalEvent::Yank);
    assert_eq!(input.text(), " three  one  世界");
}

#[test]
fn maps_supported_shortcuts_without_binding_clipboard_controls() {
    const NONE: u8 = 0;
    let cases = [
        (KeyCode::Left, NONE, TerminalEvent::Left),
        (KeyCode::Right, NONE, TerminalEvent::Right),
        (KeyCode::Home, NONE, TerminalEvent::Home),
        (KeyCode::End, NONE, TerminalEvent::End),
        (KeyCode::Backspace, NONE, TerminalEvent::Backspace),
        (KeyCode::Delete, NONE, TerminalEvent::Delete),
        (KeyCode::Char('a'), CONTROL, TerminalEvent::Home),
        (KeyCode::Char('e'), CONTROL, TerminalEvent::End),
        (KeyCode::Char('w'), CONTROL, TerminalEvent::KillWord),
        (KeyCode::Char('u'), CONTROL, TerminalEvent::KillStart),
        (KeyCode::Char('k'), CONTROL, TerminalEvent::KillEnd),
        (KeyCode::Char('y'), CONTROL, TerminalEvent::Yank),
        (KeyCode::Left, CONTROL, TerminalEvent::WordLeft),
        (KeyCode::Right, CONTROL, TerminalEvent::WordRight),
        (KeyCode::Left, ALT, TerminalEvent::WordLeft),
        (KeyCode::Right, ALT, TerminalEvent::WordRight),
        (KeyCode::Char('b'), ALT, TerminalEvent::WordLeft),
        (KeyCode::Char('f'), ALT, TerminalEvent::WordRight),
        (KeyCode::Char('A'), SHIFT, TerminalEvent::Character('A')),
    ];
    for (code, modifiers, expected) in cases {
        assert_eq!(map_key(KeyEvent::new(code, modifiers)), Some(expected));
    }
    for (code, modifiers) in [
        (KeyCode::Char('c'), CONTROL | SHIFT),
        (KeyCode::Char('v'), CONTROL | SHIFT),
        (KeyCode::Char('c'), SUPER),
        (KeyCode::Char('v'), SUPER),
        (KeyCode::Char('v'), CONTROL),
        (KeyCode::Insert, SHIFT),
        (KeyCode::Left, SHIFT),
    ] {
        assert_eq!(map_key(KeyEvent::new(code, modifiers)), None);
    }
    assert_eq!(
        map_key(KeyEvent::new_with_kind(KeyCode::Left, NONE, KeyEventKind::Release)),
        None
    );
    assert_eq!(
        map_key(KeyEvent::new_with_kind(KeyCode::Left, NONE, KeyEventKind::Repeat)),
        Some(TerminalEvent::Left)
    );
}

#[test]
fn paste_is_sanitized_without_submission_or_menu_actions() {
    let run = Script::new([
        TerminalEvent::Paste("/one\r\ntwo\rthree\tfour\x1b\x00".to_owned()),
        TerminalEvent::Home,
        TerminalEvent::Character('!'),
        TerminalEvent::Enter,
    ])
    .run(config(), Vec::new());
    assert_eq!(run.frames[1].input, "/one two three four");
    assert_eq!(run.history, ["!/one two three four"]);
    assert!(run.menu_styles.is_empty());
    assert!(run.history_styles.is_empty());
}

#[test]
fn history_restores_the_draft_and_cursor_and_allows_edits() {
    let run = Script::new([
        TerminalEvent::Paste("draft".to_owned()),
        TerminalEvent::Left,
        TerminalEvent::Up,
        TerminalEvent::Up,
        TerminalEvent::Up,
        TerminalEvent::Down,
        TerminalEvent::Down,
        TerminalEvent::Character('!'),
        TerminalEvent::Up,
        TerminalEvent::Left,
        TerminalEvent::Backspace,
        TerminalEvent::Enter,
    ])
    .run(config(), vec!["first".to_owned(), "last".to_owned()]);
    assert_eq!(run.frames[5].input, "first");
    assert_eq!(run.frames[7].input, "draft");
    assert_eq!(run.frames[7].cursor, 4);
    assert_eq!(run.frames[8].input, "draf!t");
    assert_eq!(run.history.last().unwrap(), "lat");
}

#[test]
fn escape_clears_a_typed_request_before_cancelling_the_session() {
    let mut script = Script::new([
        TerminalEvent::Character('l'),
        TerminalEvent::Escape,
        TerminalEvent::Escape,
    ]);
    script.suggestion = Ok("ls".to_owned());
    let run = script.run(config(), Vec::new());

    assert_eq!(run.result, SessionResult::Cancelled);
    assert_eq!(run.frames[0].input, "");
    assert_eq!(run.frames[0].prefix, "AI› ");
    assert_eq!(run.frames[1].input, "l");
    assert_eq!(run.frames[2].input, "");
}

#[test]
fn records_a_submitted_request_and_returns_its_suggested_command() {
    let mut script = Script::new([
        TerminalEvent::Character('l'),
        TerminalEvent::Character('s'),
        TerminalEvent::Enter,
    ]);
    script.suggestion = Ok("ls -la".to_owned());
    let run = script.run(config(), vec!["pwd".to_owned()]);

    assert_eq!(run.result, SessionResult::Command("ls -la".to_owned()));
    assert_eq!(run.history, ["pwd", "ls"]);
}

#[test]
fn recalls_history_and_returns_to_an_empty_request() {
    let run = Script::new([TerminalEvent::Up, TerminalEvent::Down, TerminalEvent::Escape])
        .run(config(), vec!["pwd".to_owned(), "git status".to_owned()]);

    assert_eq!(run.result, SessionResult::Cancelled);
    assert_eq!(run.frames[1].input, "git status");
    assert_eq!(run.frames[2].input, "");
}

#[test]
fn escape_leaves_history_navigation_before_cancelling_the_session() {
    let run = Script::new([TerminalEvent::Up, TerminalEvent::Escape, TerminalEvent::Escape])
        .run(config(), vec!["pwd".to_owned(), "git status".to_owned()]);

    assert_eq!(run.result, SessionResult::Cancelled);
    assert_eq!(run.frames[1].input, "git status");
    assert_eq!(run.frames[2].input, "");
}

#[test]
fn escape_clears_recalled_history_before_cancelling_the_session() {
    let mut script = Script::new([
        TerminalEvent::Character('!'),
        TerminalEvent::Character('!'),
        TerminalEvent::Escape,
        TerminalEvent::Escape,
    ]);
    script.history_selections.push_back(Some("git status".to_owned()));
    let run = script.run(config(), vec!["git status".to_owned()]);

    assert_eq!(run.result, SessionResult::Cancelled);
    assert_eq!(run.frames[1].input, "git status");
    assert_eq!(run.frames[2].input, "git status!");
    assert_eq!(run.frames[3].input, "");
    assert_eq!(run.history_styles, [config().history_style]);
}

#[test]
fn selects_a_model_from_the_configured_menu_key() {
    let mut config = config();
    config.menu_key = '@';
    let mut script = model_script([TerminalEvent::Character('@'), TerminalEvent::Escape]);
    script.menu_selections.extend([Some(0), Some(1), Some(1)]);
    let run = script.run(config.clone(), Vec::new());

    assert_eq!(run.result, SessionResult::Cancelled);
    assert_eq!(run.state, "test/second");
    assert_eq!(run.menu_styles, [config.menu_style, config.menu_style, config.menu_style]);
}

#[test]
fn escape_from_a_nested_menu_returns_to_its_parent_menu() {
    let mut script = model_script([TerminalEvent::Character('/'), TerminalEvent::Escape]);
    script.menu_selections.extend([Some(0), Some(0), None, None]);
    let run = script.run(config(), Vec::new());

    assert_eq!(run.result, SessionResult::Cancelled);
    assert_eq!(
        run.menu_styles,
        [config().menu_style, config().menu_style, config().menu_style, config().menu_style]
    );
    assert_eq!(run.frames.len(), 3);
    assert_eq!(run.state, "test/first");
}

#[test]
fn renders_a_themed_error_and_keeps_the_request_editable() {
    let mut script = Script::new([
        TerminalEvent::Character('l'),
        TerminalEvent::Enter,
        TerminalEvent::Escape,
        TerminalEvent::Escape,
    ]);
    script.suggestion = Err("provider failed".to_owned());
    let run = script.run(config(), Vec::new());

    assert_eq!(run.result, SessionResult::Cancelled);
    let error_frame = &run.frames[2];
    assert_eq!(error_frame.input, "l");
    assert_eq!(error_frame.error.as_deref(), Some("provider failed"));
    assert_eq!(error_frame.error_color, Some(203));
}

#[test]
fn input_theme_has_no_spacing_or_completion_prompt() {
    let theme = AppTheme { colors: Colors::default() };
    let mut prompt = String::new();
    theme.format_input_prompt(&mut prompt, "AI› ", None);
    assert_eq!(prompt, "AI› ");

    let mut selection = String::new();
    theme.format_input_prompt_selection(&mut selection, "AI", "list files");
    assert_eq!(selection, "AIlist files");
}

#[test]
fn command_menu_theme_displays_the_requested_labels() {
    let mut prompt = String::new();
    let theme = AppTheme { colors: Colors::default() };
    theme.format_select_prompt(&mut prompt, "menu:");

    assert_eq!(prompt, "menu:");

    let mut active_item = String::new();
    theme.format_select_prompt_item(&mut active_item, "model", true);
    assert_eq!(active_item, "› model");

    let mut model_prompt = String::new();
    theme.format_select_prompt(&mut model_prompt, "model:");
    assert_eq!(model_prompt, "model:");
}

#[test]
fn themed_text_is_wrapped_in_palette_colors() {
    let theme = AppTheme { colors: Colors { ai_prompt: Some(250), menu_item: Some(7), ..Colors::default() } };
    let mut prompt = String::new();
    theme.format_input_prompt(&mut prompt, "AI", Some("ignored"));
    assert_eq!(prompt, "\x1b[38;5;250mAI\x1b[0m");
    let mut item = String::new();
    theme.format_select_prompt_item(&mut item, "model", false);
    assert_eq!(item, "\x1b[38;5;7m  model\x1b[0m");
}

#[test]
fn history_picker_uses_a_small_fixed_viewport() {
    assert_eq!(height(), "10");
}

#[test]
fn history_picker_shows_recent_prompts_first_on_one_line() {
    let items = picker_items(&vec!["first line\nsecond line".to_owned(), "next prompt".to_owned()]);
    assert_eq!(items.len(), 2);
    assert_eq!(items[0].output(), "next prompt");
    assert_eq!(items[1].text(), "first line ↵ second line");
    assert_eq!(items[1].output(), "first line\nsecond line");
    assert_eq!(PromptItem::new("a\nb".to_owned()).text(), "a ↵ b");
}

#[test]
fn history_picker_colors_name_only_the_set_parts() {
    assert_eq!(picker_colors(&HistoryStyle::default()), None);
    let style = HistoryStyle {
        prompt: Some(250),
        input: None,
        item: Some(252),
        matched: None,
        active: None,
        active_match: Some(110),
    };
    assert_eq!(picker_colors(&style).as_deref(), Some("prompt:250,fg:252,current_match:110"));
}

#[test]
fn undo_and_redo_restore_text_and_cursor() {
    let run = Script::new([
        E::Character('a'),
        E::Character('b'),
        E::Left,
        E::Undo,
        E::Undo,
        E::Redo,
        E::Left,
        E::Redo,
        E::Escape,
        E::Undo,
        E::Enter,
    ])
    .run(config(), Vec::new());
    assert_eq!(run.frames[3].input, "ab");
    assert_eq!(run.frames[3].cursor, 1);
    assert_eq!(run.frames[4].input, "a");
    assert_eq!(run.frames[4].cursor, 1);
    assert_eq!(run.frames[5].input, "");
    assert_eq!(run.frames[6].input, "a");
    assert_eq!(run.frames[8].input, "ab");
    assert_eq!(run.frames[9].input, "");
    assert_eq!(run.frames[10].input, "ab");
    assert_eq!(run.history, ["ab"]);
}

#[test]
fn a_new_change_forgets_what_was_undone() {
    let run = Script::new([
        E::Character('a'),
        E::Undo,
        E::Character('b'),
        E::Redo,
        E::Escape,
        E::Escape,
    ])
    .run(config(), Vec::new());
    assert_eq!(run.frames[3].input, "b");
    assert_eq!(run.frames[4].input, "b");
}

#[test]
fn ctrl_c_closes_the_session_without_a_request() {
    let run = Script::new([E::Character('l'), E::Interrupt]).run(config(), Vec::new());
    assert_eq!(run.result, SessionResult::Cancelled);
    assert!(run.history.is_empty());
}

#[test]
fn history_search_finds_newer_matches_first_and_wraps() {
    let history = vec!["git status".to_owned(), "ls".to_owned(), "git log".to_owned()];
    let run = Script::new([
        E::Paste("draft".to_owned()),
        E::Search,
        E::Character('g'),
        E::Character('i'),
        E::Search,
        E::Search,
        E::Character('x'),
        E::Backspace,
        E::Enter,
        E::Escape,
        E::Escape,
    ])
    .run(config(), history.clone());
    assert_eq!(run.frames[2].prefix, "search ``: ");
    assert_eq!(run.frames[2].input, "git log");
    assert_eq!(run.frames[4].input, "git log");
    assert_eq!(run.frames[4].prefix, "search `gi`: ");
    assert_eq!(run.frames[5].input, "git status");
    assert_eq!(run.frames[6].input, "git log");
    assert_eq!(run.frames[7].input, "");
    assert_eq!(run.frames[8].input, "git log");
    assert_eq!(run.frames[9].prefix, "AI› ");
    assert_eq!(run.frames[9].input, "git log");
    assert_eq!(run.history, history);
}

#[test]
fn leaving_history_search_restores_the_draft() {
    let run = Script::new([
        E::Paste("draft".to_owned()),
        E::Left,
        E::Search,
        E::Character('l'),
        E::Escape,
        E::Search,
        E::Character('z'),
        E::Enter,
        E::Interrupt,
    ])
    .run(config(), vec!["ls".to_owned()]);
    assert_eq!(run.frames[5].input, "draft");
    assert_eq!(run.frames[5].cursor, 4);
    assert_eq!(run.frames[8].input, "draft");
    assert_eq!(run.result, SessionResult::Cancelled);
}

#[test]
fn completion_inserts_at_the_cursor_and_can_be_undone() {
    let mut script = Script::new([
        E::Paste("open fol later".to_owned()),
        E::WordLeft,
        E::Left,
        E::Complete,
        E::Undo,
        E::Complete,
        E::Escape,
        E::Escape,
    ]);
    script.completions.extend([Some("der/".to_owned()), None]);
    let run = script.run(config(), Vec::new());
    assert_eq!(run.completion_requests[0], ("open fol later".to_owned(), 8));
    assert_eq!(run.frames[4].input, "open folder/ later");
    assert_eq!(run.frames[4].cursor, 12);
    assert_eq!(run.frames[5].input, "open fol later");
    assert_eq!(run.frames[5].cursor, 8);
    assert_eq!(run.frames[6].input, "open fol later");
}

#[test]
fn completion_cursor_counts_bytes() {
    let mut script = Script::new([E::Paste("ré".to_owned()), E::Complete, E::Escape, E::Escape]);
    script.completions.push_back(Some("sumé".to_owned()));
    let run = script.run(config(), Vec::new());
    assert_eq!(run.completion_requests[0], ("ré".to_owned(), 3));
    assert_eq!(run.frames[2].input, "résumé");
}

#[test]
fn editor_output_replaces_the_prompt_without_submitting() {
    let mut script = Script::new([
        E::Paste("draft".to_owned()),
        E::EditExternally,
        E::EditExternally,
        E::Undo,
        E::Escape,
        E::Escape,
    ]);
    script.edits.extend([Ok("changed\ntext\n".to_owned()), Err("EDITOR exited with exit status: 1; prompt was not changed".to_owned())]);
    let run = script.run(config(), Vec::new());
    assert_eq!(run.frames[2].input, "changed text ");
    assert!(run.frames[3].error.as_deref().unwrap().starts_with("EDITOR exited"));
    assert_eq!(run.frames[3].input, "changed text ");
    assert_eq!(run.frames[4].input, "draft");
    assert_eq!(run.result, SessionResult::Cancelled);
}

#[test]
fn maps_the_documented_editing_shortcuts() {
    assert_eq!(map_key(KeyEvent::new(KeyCode::Char('c'), CONTROL)), Some(TerminalEvent::Interrupt));
    assert_eq!(map_key(KeyEvent::new(KeyCode::Char('r'), CONTROL)), Some(TerminalEvent::Search));
    assert_eq!(map_key(KeyEvent::new(KeyCode::Char('7'), CONTROL)), Some(TerminalEvent::Undo));
    assert_eq!(map_key(KeyEvent::new(KeyCode::Char('_'), CONTROL)), Some(TerminalEvent::Undo));
    assert_eq!(map_key(KeyEvent::new(KeyCode::Char('u'), ALT)), Some(TerminalEvent::Undo));
    assert_eq!(map_key(KeyEvent::new(KeyCode::Char('r'), ALT)), Some(TerminalEvent::Redo));
    assert_eq!(map_key(KeyEvent::new(KeyCode::Char('e'), ALT)), Some(TerminalEvent::EditExternally));
    assert_eq!(map_key(KeyEvent::new(KeyCode::Tab, 0)), Some(TerminalEvent::Complete));
    assert_eq!(map_key(KeyEvent::new(KeyCode::Char('z'), CONTROL)), None);
}

fn plain_frame(prefix: &str, input: &str, cursor: usize) -> RenderFrame {
    RenderFrame {
        prefix: prefix.to_owned(),
        prefix_color: None,
        input: input.to_owned(),
        cursor,
        input_color: None,
        error: None,
        error_color: None,
    }
}

#[test]
fn long_requests_wrap_to_the_terminal_width() {
    let frame = plain_frame("> ", "abcdefgh", 8);
    let screen = Screen { columns: 5, rows: 10, start_column: 0 };
    assert_eq!(
        render_wrapped(&frame, screen),
        "\x1b8\n\n\x1b[2A\x1b7\x1b[J> abc\r\ndefgh\x1b8\r\x1b[2B"
    );
}

#[test]
fn a_prompt_taller_than_the_terminal_shows_the_rows_around_the_cursor() {
    let frame = plain_frame("> ", "abcdefghijkl", 12);
    let screen = Screen { columns: 5, rows: 2, start_column: 0 };
    assert_eq!(
        render_wrapped(&frame, screen),
        "\x1b8\n\x1b[1A\x1b7\r\x1b[Jdefgh\r\nijkl\x1b8\r\x1b[1B\x1b[4C"
    );
}

#[test]
fn moving_home_in_a_tall_prompt_shows_its_first_rows() {
    let frame = plain_frame("> ", "abcdefghijkl", 0);
    let screen = Screen { columns: 5, rows: 2, start_column: 0 };
    assert_eq!(
        render_wrapped(&frame, screen),
        "\x1b8\n\x1b[1A\x1b7\x1b[J> abc\r\ndefgh\x1b8\r\x1b[2C"
    );
}

#[test]
fn wrapped_rows_keep_colors_the_start_column_and_the_error() {
    let frame = RenderFrame {
        prefix: "AI› ".to_owned(),
        prefix_color: Some(250),
        input: "hello".to_owned(),
        cursor: 5,
        input_color: Some(252),
        error: Some("bad".to_owned()),
        error_color: Some(203),
    };
    let screen = Screen { columns: 8, rows: 5, start_column: 2 };
    assert_eq!(
        render_wrapped(&frame, screen),
        "\x1b8\n\n\x1b[2A\x1b7\x1b[J\x1b[38;5;250mAI› \x1b[0m\x1b[38;5;252mhe\r\nllo\x1b[0m\r\n\x1b[38;5;203mbad\x1b[0m\x1b8\r\x1b[1B\x1b[3C"
    );
}

#[test]
fn a_wide_character_that_does_not_fit_starts_the_next_row() {
    let frame = plain_frame("", "ab界", 3);
    let screen = Screen { columns: 3, rows: 10, start_column: 0 };
    assert_eq!(
        render_wrapped(&frame, screen),
        "\x1b8\n\x1b[1A\x1b7\x1b[Jab\r\n界\x1b8\r\x1b[1B\x1b[2C"
    );
}

#[test]
fn a_short_request_stays_on_one_row() {
    let frame = plain_frame("> ", "ls", 1);
    let screen = Screen { columns: 80, rows: 24, start_column: 0 };
    assert_eq!(render_wrapped(&frame, screen), "\x1b8\x1b7\x1b[J> ls\x1b8\r\x1b[3C");
}

#[test]
fn cells_fill_each_row_before_the_next() {
    let wrapped = wrap_cells(&vec![1, 1, 1, 1, 1, 1], 6, 0, 4);
    assert_eq!(wrapped.rows, vec![0, 0, 0, 0, 1, 1]);
    assert_eq!(wrapped.end_row, 1);
    assert_eq!((wrapped.cursor_row, wrapped.cursor_column), (1, 2));
    let full = wrap_cells(&vec![2, 2], 2, 0, 4);
    assert_eq!(full.rows, vec![0, 0]);
    assert_eq!((full.cursor_row, full.cursor_column), (1, 0));
}

#[test]
fn the_shown_rows_follow_the_cursor() {
    assert_eq!(window_of(5, 5, 2), (4, 2));
    assert_eq!(window_of(5, 0, 2), (0, 2));
    assert_eq!(window_of(1, 1, 10), (0, 2));
    assert_eq!(room_of(10, true), 9);
    assert_eq!(room_of(10, false), 10);
    assert_eq!(room_of(1, true), 1);
    assert_eq!(room_of(0, false), 1);
}

#[test]
fn a_resize_draws_the_request_again() {
    let run = Script::new([E::Character('a'), E::Resize, E::Left, E::Resize, E::Enter]).run(config(), Vec::new());
    assert_eq!(run.frames[2], run.frames[1]);
    assert_eq!(run.frames[4], run.frames[3]);
    assert_eq!(run.frames[4].cursor, 0);
    assert_eq!(run.result, SessionResult::Command("unused".to_owned()));
    assert_eq!(run.history, vec!["a".to_owned()]);
}

#[test]
fn undo_takes_back_a_prompt_picked_from_history() {
    let mut script = Script::new([E::Character('!'), E::Undo, E::Character('x'), E::Enter]);
    script.history_selections = VecDeque::from([Some("ls -la".to_owned())]);
    let run = script.run(config(), vec!["ls -la".to_owned()]);
    assert_eq!(run.frames[1].input, "ls -la");
    assert_eq!(run.frames[2].input, "");
    assert_eq!(run.frames[3].input, "x");
    assert_eq!(run.history, vec!["ls -la".to_owned(), "x".to_owned()]);
}
