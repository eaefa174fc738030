use editor_core::command::Edit;
use editor_core::commandbar::CommandBar;
use editor_core::contextmenu::{ContextMenu, ContextMenuAction};
use editor_core::documentstatus::DocumentStatus;
use editor_core::filetype::FileType;
use editor_core::infopopup::InfoPopup;
use editor_core::messagebar::MessageBar;
use editor_core::prelude::{Position, Size};

#[test]
fn history_up_then_down_restores_the_input() {
    let mut bar = CommandBar::new();
    bar.add_to_history("w".to_string());
    bar.add_to_history("q".to_string());
    bar.set_value("typed");
    bar.navigate_history_up();
    assert_eq!(bar.value(), "q");
    bar.navigate_history_up();
    assert_eq!(bar.value(), "w");
    bar.navigate_history_down();
    assert_eq!(bar.value(), "q");
    bar.navigate_history_down();
    assert_eq!(bar.value(), "typed");
}

#[test]
fn command_bar_edits_at_the_caret() {
    let mut bar = CommandBar::new();
    bar.handle_edit_command(Edit::Insert('a'));
    bar.handle_edit_command(Edit::Insert('c'));
    bar.move_caret_left();
    bar.handle_edit_command(Edit::Insert('b'));
    assert_eq!(bar.value(), "abc");
    bar.handle_edit_command(Edit::DeleteBackward);
    assert_eq!(bar.value(), "ac");
}

#[test]
fn messages_expire_after_five_seconds() {
    let mut bar = MessageBar::new();
    bar.set_size(Size { height: 1, width: 20 });
    bar.update_message("saved", 1000);
    assert!(bar.needs_redraw(1000));
    let row = bar.render_row(1000);
    assert!(row.starts_with("saved"));
    bar.set_needs_redraw(false);
    assert!(!bar.needs_redraw(6000));
    assert!(bar.needs_redraw(6001));
    let row = bar.render_row(6001);
    assert!(!row.contains("saved"));
    assert!(!bar.needs_redraw(7000));
}

#[test]
fn context_menu_offers_what_is_possible() {
    let menu = ContextMenu::new(Position { col: 78, row: 23 }, Size { height: 24, width: 80 }, true, false, true, false);
    let entries = menu.entries_to_draw();
    let labels: Vec<&str> = entries.iter().map(|(s, _)| s.trim()).collect();
    assert_eq!(labels, vec!["Copy", "Delete", "Select All", "Undo"]);
    let p = menu.position();
    assert!(p.col + 12 <= 80);
    assert!(p.row + 4 <= 24);
    assert_eq!(menu.handle_click(p), Some(ContextMenuAction::Copy));
    assert_eq!(menu.handle_click(Position { col: 0, row: 0 }), None);
}

#[test]
fn popup_lines_are_padded_to_the_widest() {
    let popup = InfoPopup::new(Position { col: 0, row: 0 }, Size { height: 24, width: 80 }, "ab\nabcd");
    let lines = popup.lines();
    assert_eq!(lines.len(), 2);
    assert_eq!(lines[0].chars().count(), lines[1].chars().count());
    assert!(lines[1].contains("abcd"));
}

#[test]
fn status_strings() {
    let s = DocumentStatus {
        total_lines: 10,
        current_line_idx: 2,
        current_col_idx: 4,
        is_modified: true,
        file_name: "a.rs".to_string(),
        file_type: FileType::Rust,
        mode: "NORMAL".to_string(),
    };
    assert_eq!(s.modified_indicator_to_string(), " [+]");
    assert_eq!(s.position_indicator_to_string(), "3:5");
    assert_eq!(s.file_type_to_string(), "Rust");
}
