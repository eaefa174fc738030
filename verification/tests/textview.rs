use editor_core::command::{Edit, Move};
use editor_core::prelude::{Location, Size};
use editor_core::view::{sort_edits, LspPosition, TextEdit, TextView};

fn view(text: &str) -> TextView {
    TextView::new_with_content(text, "test", Size { height: 10, width: 40 })
}

fn at(v: &TextView) -> (usize, usize) {
    let l = v.text_location();
    (l.line_idx, l.grapheme_idx)
}

#[test]
fn word_moves() {
    let mut v = view("foo bar.baz");
    v.handle_move_command(Move::WordForward);
    assert_eq!(at(&v), (0, 3));
    v.handle_move_command(Move::WordEnd);
    assert_eq!(at(&v), (0, 6));
    v.handle_move_command(Move::WordBackward);
    assert_eq!(at(&v), (0, 4));
}

#[test]
fn moves_stay_in_the_text() {
    let mut v = view("ab\nlonger line\nc");
    v.handle_move_command(Move::Down(1));
    v.handle_move_command(Move::EndOfLine);
    assert_eq!(at(&v), (1, 10));
    v.handle_move_command(Move::Down(1));
    assert_eq!(at(&v), (2, 1));
    v.handle_move_command(Move::Down(5));
    assert_eq!(at(&v).0, 2);
    v.handle_move_command(Move::BufferStart);
    assert_eq!(at(&v), (0, 0));
}

#[test]
fn select_all_then_delete_empties_the_text() {
    let mut v = view("one\ntwo");
    v.select_all();
    assert_eq!(v.get_selected_text().unwrap(), "one\ntwo\n");
    v.delete_selection();
    assert_eq!(v.get_text(), "");
    assert!(v.can_undo());
    v.handle_edit_command(Edit::Undo);
    assert_eq!(v.get_text(), "one\ntwo");
}

#[test]
fn typing_an_opening_bracket_adds_the_closing_one() {
    let mut v = view("");
    v.handle_edit_command(Edit::Insert('('));
    assert_eq!(v.get_text(), "()");
    assert_eq!(at(&v), (0, 1));
    v.handle_edit_command(Edit::Insert(')'));
    assert_eq!(v.get_text(), "()");
    assert_eq!(at(&v), (0, 2));
}

#[test]
fn searching_finds_the_next_match_and_wraps() {
    let mut v = view("abc\nabc");
    v.enter_search();
    v.search("b");
    assert_eq!(at(&v), (0, 1));
    assert!(v.search_next());
    assert_eq!(at(&v), (1, 1));
    assert!(v.search_next());
    assert_eq!(at(&v), (0, 1));
    v.exit_search();
    assert!(v.search_prev());
}

#[test]
fn language_server_positions_count_utf16_units() {
    let mut v = view("a😀b\nx");
    v.set_lsp_location(LspPosition { line: 0, character: 3 });
    assert_eq!(at(&v), (0, 2));
    v.set_lsp_location(LspPosition { line: 9, character: 0 });
    assert_eq!(at(&v), (1, 0));
}

#[test]
fn edits_sort_last_first_keeping_ties_in_order() {
    let e = |line: u32, character: u32, t: &str| TextEdit {
        start: LspPosition { line, character },
        end: LspPosition { line, character },
        new_text: t.to_string(),
    };
    let sorted = sort_edits(vec![e(0, 1, "a"), e(2, 0, "b"), e(0, 1, "c"), e(1, 5, "d")]);
    let texts: Vec<&str> = sorted.iter().map(|x| x.new_text.as_str()).collect();
    assert_eq!(texts, vec!["b", "d", "a", "c"]);
}

#[test]
fn the_caret_location_is_kept_in_the_text() {
    let mut v = view("short\nx");
    v.set_text_location(Location { line_idx: 5, grapheme_idx: 9, preferred_grapheme_idx: 9 });
    assert_eq!(at(&v), (1, 1));
}
