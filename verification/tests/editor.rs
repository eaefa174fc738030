use editor_core::command::{KeyCode, KeyEvent, KeyModifiers};
use editor_core::editor::{
    ClipboardRead, ClipboardWrite, Editor, EditorAction, EditorMode, Event, KeyEventKind, MouseButton,
    MouseEvent, MouseEventKind,
};
use editor_core::lsp::HoverContents;
use editor_core::prelude::{Position, Size};
use editor_core::view::{LspPosition, TextEdit};

fn editor_with(name: &str, text: &str) -> Editor {
    let mut e = Editor::new(Size { height: 24, width: 80 });
    e.open_initial_file(name, Some(text));
    e
}

fn key(c: char) -> Event {
    Event::Key(KeyEvent::new(KeyCode::Char(c), KeyModifiers::none()), KeyEventKind::Press)
}

fn ctrl(c: char) -> Event {
    Event::Key(KeyEvent::new(KeyCode::Char(c), KeyModifiers::control()), KeyEventKind::Press)
}

fn code(k: KeyCode) -> Event {
    Event::Key(KeyEvent::new(k, KeyModifiers::none()), KeyEventKind::Press)
}

fn typed(e: &mut Editor, s: &str) {
    for c in s.chars() {
        e.evaluate_event(key(c));
    }
}

fn command(e: &mut Editor, line: &str) {
    e.evaluate_event(key(':'));
    typed(e, line);
    e.evaluate_event(code(KeyCode::Enter));
}

fn text(e: &Editor) -> String {
    e.current_view().get_text()
}

fn caret(e: &Editor) -> (usize, usize) {
    let l = e.current_view().text_location();
    (l.line_idx, l.grapheme_idx)
}

#[test]
fn typing_in_insert_mode_inserts_at_the_caret() {
    let mut e = editor_with("a.txt", "hello");
    assert_eq!(text(&e), "hello");
    e.evaluate_event(key('i'));
    assert_eq!(e.mode(), EditorMode::Insert);
    e.evaluate_event(key('X'));
    assert_eq!(text(&e), "Xhello");
    e.evaluate_event(code(KeyCode::Esc));
    assert_eq!(e.mode(), EditorMode::Normal);
    assert_eq!(caret(&e), (0, 1));
}

#[test]
fn append_moves_right_and_escape_moves_back() {
    let mut e = editor_with("a.txt", "hello");
    e.evaluate_event(key('a'));
    assert_eq!(caret(&e), (0, 1));
    assert_eq!(e.mode(), EditorMode::Insert);
    e.evaluate_event(code(KeyCode::Esc));
    assert_eq!(caret(&e), (0, 0));
}

#[test]
fn a_count_repeats_a_move() {
    let mut e = editor_with("a.txt", "a\nb\nc\nd");
    typed(&mut e, "2j");
    assert_eq!(caret(&e), (2, 0));
    typed(&mut e, "k");
    assert_eq!(caret(&e), (1, 0));
}

#[test]
fn a_count_before_g_goes_to_that_line() {
    let mut e = editor_with("a.txt", "a\nb\nc\nd");
    typed(&mut e, "3g");
    assert_eq!(caret(&e), (2, 0));
    typed(&mut e, "gg");
    assert_eq!(caret(&e), (0, 0));
}

#[test]
fn jumping_back_and_forward_returns_to_the_same_place() {
    let mut e = editor_with("a.txt", "a\nb\nc\nd");
    typed(&mut e, "ge");
    assert_eq!(caret(&e).0, 3);
    e.evaluate_event(ctrl('o'));
    assert_eq!(caret(&e), (0, 0));
    e.evaluate_event(ctrl('i'));
    assert_eq!(caret(&e).0, 3);
}

#[test]
fn yank_copies_the_selection_and_paste_backward_inserts_it() {
    let mut e = editor_with("a.txt", "hello");
    typed(&mut e, "vly");
    assert_eq!(e.mode(), EditorMode::Visual);
    assert_eq!(e.message(), Some("Text copied to clipboard."));
    e.evaluate_event(code(KeyCode::Esc));
    assert_eq!(e.mode(), EditorMode::Normal);
    assert_eq!(e.message(), Some(""));
    typed(&mut e, "P");
    assert_eq!(text(&e), "hheello");
    assert_eq!(e.mode(), EditorMode::Normal);
}

#[test]
fn delete_without_selection_deletes_the_character() {
    let mut e = editor_with("a.txt", "hello");
    typed(&mut e, "d");
    assert_eq!(text(&e), "ello");
}

#[test]
fn undo_and_redo_keys() {
    let mut e = editor_with("a.txt", "hello");
    typed(&mut e, "ia");
    e.evaluate_event(code(KeyCode::Esc));
    assert_eq!(text(&e), "ahello");
    typed(&mut e, "u");
    assert_eq!(text(&e), "hello");
    typed(&mut e, "U");
    assert_eq!(text(&e), "ahello");
}

#[test]
fn replace_key_and_replace_mode() {
    let mut e = editor_with("a.txt", "hello");
    typed(&mut e, "rx");
    assert_eq!(text(&e), "xello");
    typed(&mut e, "R");
    assert_eq!(e.mode(), EditorMode::Replace);
    typed(&mut e, "ab");
    assert_eq!(text(&e), "abllo");
    e.evaluate_event(code(KeyCode::Esc));
    assert_eq!(e.mode(), EditorMode::Normal);
}

#[test]
fn open_line_below_starts_insert_mode_on_a_new_line() {
    let mut e = editor_with("a.txt", "ab\ncd");
    typed(&mut e, "o");
    assert_eq!(text(&e), "ab\n\ncd");
    assert_eq!(caret(&e), (1, 0));
    assert_eq!(e.mode(), EditorMode::Insert);
}

#[test]
fn quit_without_changes_quits() {
    let mut e = editor_with("a.txt", "hello");
    command(&mut e, "q");
    assert!(e.should_quit());
}

#[test]
fn quit_with_changes_warns_twice_then_quits() {
    let mut e = editor_with("a.txt", "hello");
    typed(&mut e, "ix");
    e.evaluate_event(code(KeyCode::Esc));
    command(&mut e, "q");
    assert!(!e.should_quit());
    assert_eq!(e.message(), Some("WARNING! 1 buffer(s) have unsaved changes. Type :q 2 more times to quit."));
    assert!(!e.in_prompt());
    command(&mut e, "q");
    assert!(!e.should_quit());
    assert_eq!(e.message(), Some("WARNING! 1 buffer(s) have unsaved changes. Type :q 1 more times to quit."));
    command(&mut e, "q");
    assert!(e.should_quit());
}

#[test]
fn force_quit_quits_at_once() {
    let mut e = editor_with("a.txt", "hello");
    typed(&mut e, "ix");
    e.evaluate_event(code(KeyCode::Esc));
    command(&mut e, "q!");
    assert!(e.should_quit());
}

#[test]
fn saving_without_a_name_is_refused() {
    let mut e = Editor::new(Size { height: 24, width: 80 });
    command(&mut e, "w");
    assert_eq!(e.message(), Some("ERR: Can't save without filename!"));
    assert_eq!(e.take_actions().len(), 0);
}

#[test]
fn saving_asks_to_write_the_file_and_reports_the_outcome() {
    let mut e = editor_with("a.txt", "hello");
    command(&mut e, "w");
    let actions = e.take_actions();
    assert_eq!(actions.len(), 1);
    match &actions[0] {
        EditorAction::WriteFile { view_idx, path, contents, rename, then_quit } => {
            assert_eq!(*view_idx, 0);
            assert_eq!(path, "a.txt");
            assert_eq!(contents, "hello\n");
            assert!(!*rename);
            assert!(!*then_quit);
        },
        _ => panic!("expected a file to be written"),
    }
    e.file_written(0, "a.txt", false, false, true);
    assert_eq!(e.message(), Some("File saved successfully."));
    e.file_written(0, "a.txt", false, false, false);
    assert_eq!(e.message(), Some("Error writing file!"));
}

#[test]
fn write_and_quit_quits_once_saved() {
    let mut e = editor_with("a.txt", "hello");
    typed(&mut e, "ix");
    e.evaluate_event(code(KeyCode::Esc));
    command(&mut e, "wq");
    assert!(!e.should_quit());
    let actions = e.take_actions();
    match &actions[0] {
        EditorAction::WriteFile { contents, then_quit, .. } => {
            assert_eq!(contents, "xhello\n");
            assert!(*then_quit);
        },
        _ => panic!("expected a file to be written"),
    }
    e.file_written(0, "a.txt", false, true, true);
    assert!(e.should_quit());
}

#[test]
fn opening_a_file_adds_a_view_and_next_and_prev_cycle() {
    let mut e = editor_with("a.txt", "first");
    command(&mut e, "o b.txt");
    let actions = e.take_actions();
    match &actions[0] {
        EditorAction::ReadFile { path } => assert_eq!(path, "b.txt"),
        _ => panic!("expected a file to be read"),
    }
    e.file_read("b.txt", Some("x\ny"));
    assert_eq!(e.view_count(), 2);
    assert_eq!(text(&e), "x\ny");
    assert_eq!(e.message(), Some("Opened file: b.txt"));
    e.file_read("c.txt", None);
    assert_eq!(e.message(), Some("ERR: Could not open file: c.txt"));
    assert_eq!(e.view_count(), 2);
    command(&mut e, "n");
    assert_eq!(text(&e), "first");
    command(&mut e, "p");
    assert_eq!(text(&e), "x\ny");
}

#[test]
fn open_without_a_name_is_refused() {
    let mut e = editor_with("a.txt", "first");
    command(&mut e, "o");
    assert_eq!(e.message(), Some("ERR: No file name provided"));
}

#[test]
fn help_opens_in_a_view_of_its_own() {
    let mut e = editor_with("a.txt", "first");
    command(&mut e, "help");
    assert_eq!(e.view_count(), 2);
    assert_eq!(e.message(), Some("Opened help"));
    assert_eq!(e.status().file_name, "HELP");
    assert!(text(&e).starts_with("HELP - ALL COMMANDS"));
}

#[test]
fn unknown_commands_are_reported() {
    let mut e = editor_with("a.txt", "first");
    command(&mut e, "foo bar");
    assert_eq!(e.message(), Some("ERR: Unknown command: foo"));
}

#[test]
fn search_moves_to_the_match_and_escape_goes_back() {
    let mut e = editor_with("a.txt", "hello\nworld");
    typed(&mut e, "/");
    assert!(e.in_prompt());
    typed(&mut e, "wo");
    assert_eq!(caret(&e), (1, 0));
    e.evaluate_event(code(KeyCode::Esc));
    assert!(!e.in_prompt());
    assert_eq!(caret(&e), (0, 0));
    typed(&mut e, "/wo");
    e.evaluate_event(code(KeyCode::Enter));
    assert!(!e.in_prompt());
    assert_eq!(caret(&e), (1, 0));
}

#[test]
fn tab_completes_command_names() {
    let mut e = editor_with("a.txt", "first");
    typed(&mut e, ":sy");
    e.evaluate_event(code(KeyCode::Tab));
    assert_eq!(e.command_bar().value(), "syntax");
}

#[test]
fn tab_cycles_through_several_matches() {
    let mut e = editor_with("a.txt", "first");
    typed(&mut e, ":q");
    e.evaluate_event(code(KeyCode::Tab));
    assert_eq!(e.command_bar().value(), "q");
    e.evaluate_event(code(KeyCode::Tab));
    assert_eq!(e.command_bar().value(), "q");
    e.evaluate_event(code(KeyCode::Tab));
    assert_eq!(e.command_bar().value(), "quit");
    e.evaluate_event(code(KeyCode::Tab));
    assert_eq!(e.command_bar().value(), "q!");
}

#[test]
fn tab_completes_file_names_from_the_directory_listing() {
    let mut e = editor_with("a.txt", "first");
    typed(&mut e, ":w ");
    e.evaluate_event(code(KeyCode::Tab));
    let actions = e.take_actions();
    match &actions[0] {
        EditorAction::ListDirectory { dir, prefix, original, index } => {
            assert_eq!(dir, ".");
            assert_eq!(prefix, "");
            assert_eq!(original, "w ");
            assert_eq!(*index, None);
            e.complete_with_entries(".", "", "w ", None, &vec![("main.rs".to_string(), false)]);
        },
        _ => panic!("expected a directory listing"),
    }
    assert_eq!(e.command_bar().value(), "w main.rs");
}

#[test]
fn system_clipboard_copy_reports_the_outcome() {
    let mut e = editor_with("a.txt", "hello");
    typed(&mut e, " y");
    let actions = e.take_actions();
    match &actions[0] {
        EditorAction::WriteSystemClipboard { text, purpose } => {
            assert_eq!(text, "h");
            assert_eq!(*purpose, ClipboardWrite::Yank { selection: false });
        },
        _ => panic!("expected the system clipboard to be written"),
    }
    e.system_clipboard_written(ClipboardWrite::Yank { selection: false }, None);
    assert_eq!(e.message(), Some("Character copied to system clipboard."));
    e.system_clipboard_written(ClipboardWrite::Yank { selection: false }, Some("busy"));
    assert_eq!(e.message(), Some("ERR: Clipboard error: busy"));
}

#[test]
fn system_clipboard_paste_pastes_what_was_read() {
    let mut e = editor_with("a.txt", "hello");
    typed(&mut e, " p");
    let actions = e.take_actions();
    match &actions[0] {
        EditorAction::ReadSystemClipboard { purpose } => assert_eq!(*purpose, ClipboardRead::Paste),
        _ => panic!("expected the system clipboard to be read"),
    }
    e.system_clipboard_read(ClipboardRead::Paste, Some("XY"));
    assert_eq!(text(&e), "hXYello");
}

#[test]
fn right_click_opens_a_menu_and_a_click_chooses_from_it() {
    let mut e = editor_with("a.txt", "hello");
    let at = Position { col: 5, row: 2 };
    e.evaluate_event(Event::Mouse(MouseEvent { kind: MouseEventKind::Down(MouseButton::Right), column: 5, row: 2 }));
    let actions = e.take_actions();
    match &actions[0] {
        EditorAction::ReadSystemClipboard { purpose } => assert_eq!(*purpose, ClipboardRead::OpenMenu(at)),
        _ => panic!("expected the system clipboard to be read"),
    }
    e.system_clipboard_read(ClipboardRead::OpenMenu(at), None);
    let entries = e.context_menu().unwrap().entries_to_draw();
    assert_eq!(entries.len(), 1);
    assert!(entries[0].0.contains("Select All"));
    e.evaluate_event(Event::Mouse(MouseEvent { kind: MouseEventKind::Down(MouseButton::Left), column: 5, row: 2 }));
    assert!(e.context_menu().is_none());
    assert_eq!(e.mode(), EditorMode::Visual);
    assert!(e.current_view().has_selection());
}

#[test]
fn hover_shows_a_popup_until_the_next_key() {
    let mut e = editor_with("a.txt", "hello");
    e.show_hover(0, &HoverContents::Scalar("documentation".to_string()));
    assert!(e.info_popup().is_some());
    e.show_hover(0, &HoverContents::Markup(String::new()));
    e.evaluate_event(key('l'));
    assert!(e.info_popup().is_none());
}

#[test]
fn formatting_edits_apply_last_first() {
    let mut e = editor_with("a.txt", "xy\nzw");
    let edits = vec![
        TextEdit {
            start: LspPosition { line: 0, character: 0 },
            end: LspPosition { line: 0, character: 0 },
            new_text: "A".to_string(),
        },
        TextEdit {
            start: LspPosition { line: 1, character: 0 },
            end: LspPosition { line: 1, character: 0 },
            new_text: "B".to_string(),
        },
    ];
    e.apply_formatting(0, edits);
    assert_eq!(text(&e), "Ay\nBw");
    assert_eq!(e.take_actions().len(), 0);
}

#[test]
fn rust_files_are_reported_to_the_language_server() {
    let mut e = editor_with("main.rs", "fn main() {}");
    let opened = e.take_actions();
    assert!(matches!(opened[0], EditorAction::LspDidOpen { view_idx: 0 }));
    typed(&mut e, "ix");
    let changed = e.take_actions();
    assert!(matches!(changed[0], EditorAction::LspDidChange { view_idx: 0 }));
    e.evaluate_event(code(KeyCode::Esc));
    typed(&mut e, " k");
    let asked = e.take_actions();
    assert!(matches!(asked[0], EditorAction::LspHover { view_idx: 0 }));
}

#[test]
fn going_to_a_definition_in_a_new_file() {
    let mut e = editor_with("a.txt", "hello");
    e.show_definition(None, "b.txt", Some("one\ntwo"), LspPosition { line: 1, character: 2 });
    assert_eq!(e.view_count(), 2);
    assert_eq!(caret(&e), (1, 2));
    e.show_definition(Some(0), "a.txt", None, LspPosition { line: 0, character: 3 });
    assert_eq!(caret(&e), (0, 3));
    assert_eq!(text(&e), "hello");
}

#[test]
fn resizing_takes_the_new_size() {
    let mut e = editor_with("a.txt", "hello");
    e.evaluate_event(Event::Resize(100, 30));
    assert_eq!(e.terminal_size(), Size { height: 30, width: 100 });
}

#[test]
fn status_shows_mode_and_file() {
    let mut e = editor_with("a.txt", "one\ntwo");
    let s = e.status();
    assert_eq!(s.mode, "NORMAL");
    assert_eq!(s.file_name, "a.txt");
    assert_eq!(s.total_lines, 2);
    assert!(!s.is_modified);
    e.evaluate_event(key('i'));
    assert_eq!(e.status().mode, "INSERT");
}

#[test]
fn pending_keys_show_in_the_message_bar() {
    let mut e = editor_with("a.txt", "one\ntwo");
    typed(&mut e, "12 ");
    e.refresh_status();
    let row = e.message_row().unwrap();
    assert!(row.ends_with("12<space>"));
}

#[test]
fn release_events_are_ignored() {
    let mut e = editor_with("a.txt", "hello");
    e.evaluate_event(Event::Key(KeyEvent::new(KeyCode::Char('i'), KeyModifiers::none()), KeyEventKind::Release));
    assert_eq!(e.mode(), EditorMode::Normal);
}

#[test]
fn the_first_file_opens_in_the_first_view() {
    let mut e = Editor::new(Size { height: 24, width: 80 });
    e.open_initial_file("missing.txt", None);
    assert_eq!(e.message(), Some("ERR: Could not open file: missing.txt"));
    e.open_initial_file("a.txt", Some("A"));
    e.open_initial_file("b.txt", Some("B"));
    assert_eq!(e.view_count(), 2);
    assert_eq!(text(&e), "A");
}
