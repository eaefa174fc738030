use editor_core::buffer::Buffer;
use editor_core::fileinfo::FileInfo;
use editor_core::line::Line;
use editor_core::prelude::Location;

fn line_text(buffer: &Buffer, idx: usize) -> String {
    buffer.get_line(idx).unwrap().to_string()
}

#[test]
fn test_insert_enter_indentation() {
    let mut buffer = Buffer::new_with_lines(vec![Line::from("    hello")], FileInfo::empty());
    let at = Location { line_idx: 0, grapheme_idx: 9, preferred_grapheme_idx: 9 };
    buffer.insert_enter(at);
    assert_eq!(buffer.height(), 2);
    assert_eq!(line_text(&buffer, 0), "    hello");
    assert_eq!(line_text(&buffer, 1), "    ");
}

#[test]
fn test_insert_enter_mid_indentation() {
    let mut buffer = Buffer::new_with_lines(vec![Line::from("    hello")], FileInfo::empty());
    let at = Location { line_idx: 0, grapheme_idx: 2, preferred_grapheme_idx: 2 };
    buffer.insert_enter(at);
    assert_eq!(buffer.height(), 2);
    assert_eq!(line_text(&buffer, 0), "  ");
    assert_eq!(line_text(&buffer, 1), "    hello");
}

#[test]
fn undo_after_an_edit_restores_the_text_and_redo_repeats_it() {
    let mut buffer = Buffer::load("one\ntwo", "notes.txt");
    buffer.insert_char('!', Location { line_idx: 1, grapheme_idx: 3, preferred_grapheme_idx: 3 });
    assert_eq!(line_text(&buffer, 1), "two!");
    assert!(buffer.is_dirty());
    assert!(buffer.undo());
    assert_eq!(line_text(&buffer, 1), "two");
    assert!(!buffer.is_dirty());
    assert!(buffer.can_redo());
    assert!(buffer.redo());
    assert_eq!(line_text(&buffer, 1), "two!");
    assert!(!buffer.redo());
}

#[test]
fn delete_at_line_end_joins_lines() {
    let mut buffer = Buffer::load("ab\ncd", "x.txt");
    buffer.delete(Location { line_idx: 0, grapheme_idx: 2, preferred_grapheme_idx: 2 });
    assert_eq!(buffer.height(), 1);
    assert_eq!(line_text(&buffer, 0), "abcd");
}

#[test]
fn delete_range_includes_both_ends() {
    let mut buffer = Buffer::load("hello\nworld", "x.txt");
    buffer.delete_range(
        Location { line_idx: 0, grapheme_idx: 3, preferred_grapheme_idx: 3 },
        Location { line_idx: 1, grapheme_idx: 1, preferred_grapheme_idx: 1 },
    );
    assert_eq!(buffer.height(), 1);
    assert_eq!(line_text(&buffer, 0), "helrld");
}

#[test]
fn insert_string_splits_at_newlines() {
    let mut buffer = Buffer::load("ad", "x.txt");
    buffer.insert_string("b\nc", Location { line_idx: 0, grapheme_idx: 1, preferred_grapheme_idx: 1 });
    assert_eq!(buffer.height(), 2);
    assert_eq!(line_text(&buffer, 0), "ab");
    assert_eq!(line_text(&buffer, 1), "cd");
}

#[test]
fn get_range_spans_lines() {
    let buffer = Buffer::load("hello\nworld", "x.txt");
    let text = buffer.get_range(
        Location { line_idx: 0, grapheme_idx: 3, preferred_grapheme_idx: 3 },
        Location { line_idx: 1, grapheme_idx: 1, preferred_grapheme_idx: 1 },
    );
    assert_eq!(text, "lo\nwo");
}

#[test]
fn search_forward_and_backward_find_matches_across_lines() {
    let buffer = Buffer::load("abc\nxbcx\nbc", "x.txt");
    let from = Location { line_idx: 0, grapheme_idx: 2, preferred_grapheme_idx: 2 };
    let found = buffer.search_forward("bc", from).unwrap();
    assert_eq!((found.line_idx, found.grapheme_idx), (1, 1));
    let back = buffer.search_backward("bc", from).unwrap();
    assert_eq!((back.line_idx, back.grapheme_idx), (2, 0));
    assert!(buffer.search_forward("zz", from).is_none());
}

#[test]
fn file_contents_end_every_line_with_a_newline() {
    let buffer = Buffer::load("a\nb", "x.txt");
    assert_eq!(buffer.file_contents(), "a\nb\n");
    assert_eq!(buffer.as_string(), "a\nb");
}

#[test]
fn saving_clears_the_changes() {
    let mut buffer = Buffer::load("a", "x.txt");
    buffer.insert_char('b', Location { line_idx: 0, grapheme_idx: 1, preferred_grapheme_idx: 1 });
    assert!(buffer.is_dirty());
    buffer.save();
    assert!(!buffer.is_dirty());
    assert!(!buffer.can_undo());
}

#[test]
fn default_buffer_holds_one_empty_line() {
    let b = Buffer::default();
    assert_eq!(b.height(), 1);
    assert_eq!(b.as_string(), "");
    assert!(!b.is_dirty());
    assert!(!b.is_file_loaded());
}

#[test]
fn undo_restores_an_edit_and_redo_repeats_it() {
    let mut b = Buffer::load("ab\ncd", "x.txt");
    let s0 = b.as_string();
    let d0 = b.is_dirty();
    let at = Location { line_idx: 1, grapheme_idx: 1, preferred_grapheme_idx: 1 };
    b.insert_char('X', at);
    let s1 = b.as_string();
    assert_eq!(s1, "ab\ncXd");
    assert!(b.undo());
    assert_eq!(b.as_string(), s0);
    assert_eq!(b.is_dirty(), d0);
    assert!(b.redo());
    assert_eq!(b.as_string(), s1);
    assert!(b.is_dirty());
    assert!(!b.redo());
    assert_eq!(b.as_string(), s1);
    assert!(b.undo());
    b.insert_char('Y', at);
    assert!(!b.redo());
}

#[test]
fn as_string_split_at_newlines_gives_the_lines_back() {
    let b = Buffer::load("ab\ncd\n\nx", "x.txt");
    let s = b.as_string();
    let pieces: Vec<&str> = s.split('\n').collect();
    assert_eq!(pieces.len(), b.height());
    for (i, piece) in pieces.iter().enumerate() {
        assert_eq!(*piece, line_text(&b, i));
    }
}

#[test]
fn delete_removes_what_get_range_reports() {
    let at = Location { line_idx: 0, grapheme_idx: 1, preferred_grapheme_idx: 1 };
    let mut b = Buffer::load("ab\ncd", "x.txt");
    let t = b.as_string();
    let r = b.get_range(at, at);
    assert_eq!(r, "b");
    b.delete(at);
    assert_eq!(b.as_string(), format!("{}{}", &t[..1], &t[1 + r.len()..]));

    let end = Location { line_idx: 0, grapheme_idx: 2, preferred_grapheme_idx: 2 };
    let mut b = Buffer::load("ab\ncd", "x.txt");
    let t = b.as_string();
    let r = b.get_range(end, end);
    assert_eq!(r, "\n");
    b.delete(end);
    assert_eq!(b.as_string(), format!("{}{}", &t[..2], &t[2 + r.len()..]));
    assert_eq!(b.as_string(), "abcd");

    let last = Location { line_idx: 1, grapheme_idx: 2, preferred_grapheme_idx: 2 };
    let mut b = Buffer::load("ab\ncd", "x.txt");
    b.delete(last);
    assert_eq!(b.as_string(), "ab\ncd");
}

#[test]
fn edits_without_line_breaks_keep_as_string_split_into_lines() {
    let mut b = Buffer::load("ab\ncd", "x.txt");
    b.insert_char('x', Location { line_idx: 0, grapheme_idx: 1, preferred_grapheme_idx: 1 });
    b.insert_enter(Location { line_idx: 1, grapheme_idx: 1, preferred_grapheme_idx: 1 });
    b.delete(Location { line_idx: 0, grapheme_idx: 3, preferred_grapheme_idx: 3 });
    let s = b.as_string();
    let pieces: Vec<&str> = s.split('\n').collect();
    assert_eq!(pieces.len(), b.height());
    for (i, piece) in pieces.iter().enumerate() {
        assert_eq!(*piece, line_text(&b, i));
    }
}

#[test]
fn delete_range_removes_what_get_range_reports() {
    let s = Location { line_idx: 0, grapheme_idx: 1, preferred_grapheme_idx: 1 };
    let e = Location { line_idx: 1, grapheme_idx: 0, preferred_grapheme_idx: 0 };
    for (a, b) in [(s, e), (e, s)] {
        let mut buf = Buffer::load("ab\ncd\nef", "x.txt");
        let t = buf.as_string();
        let r = buf.get_range(a, b);
        assert_eq!(r, "b\nc");
        buf.delete_range(a, b);
        assert_eq!(buf.as_string(), format!("{}{}", &t[..1], &t[1 + r.len()..]));
        assert!(buf.is_dirty());
    }
    let end = Location { line_idx: 0, grapheme_idx: 2, preferred_grapheme_idx: 2 };
    let mut buf = Buffer::load("ab\ncd\nef", "x.txt");
    let r = buf.get_range(s, end);
    assert_eq!(r, "b\n");
    buf.delete_range(s, end);
    assert_eq!(buf.as_string(), "acd\nef");
}

#[test]
fn delete_range_cut_that_resegments_keeps_more() {
    // Once the control character is gone, the prepended sign joins the `x`
    // and the cut leaves it in place.
    let at = Location { line_idx: 0, grapheme_idx: 1, preferred_grapheme_idx: 1 };
    let mut buf = Buffer::load("\u{600}\u{1}x", "x.txt");
    assert_eq!(buf.get_range(at, at), "\u{1}");
    buf.delete_range(at, at);
    assert_eq!(buf.as_string(), "\u{600}xx");
}
