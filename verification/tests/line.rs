use editor_core::annotation::{Annotation, AnnotationType};
use editor_core::line::Line;

#[test]
fn test_line_from() {
    let line = Line::from("hello");
    assert_eq!(line.to_string(), "hello");
    assert_eq!(line.grapheme_count(), 5);
}

#[test]
fn test_insert_char() {
    let mut line = Line::from("hello");
    line.insert_char('!', 5);
    assert_eq!(line.to_string(), "hello!");
    line.insert_char(' ', 0);
    assert_eq!(line.to_string(), " hello!");
}

#[test]
fn test_delete() {
    let mut line = Line::from("hello");
    line.delete(0);
    assert_eq!(line.to_string(), "ello");
    line.delete(3);
    assert_eq!(line.to_string(), "ell");
}

#[test]
fn test_replace_char() {
    let mut line = Line::from("hello");
    line.replace_char('H', 0);
    assert_eq!(line.to_string(), "Hello");
    line.replace_char('!', 4);
    assert_eq!(line.to_string(), "Hell!");
}

#[test]
fn test_append() {
    let mut line1 = Line::from("hello ");
    let line2 = Line::from("world");
    line1.append(&line2);
    assert_eq!(line1.to_string(), "hello world");
}

#[test]
fn test_split() {
    let mut line = Line::from("hello world");
    let line2 = line.split(6);
    assert_eq!(line.to_string(), "hello ");
    assert_eq!(line2.to_string(), "world");
}

#[test]
fn test_search_forward() {
    let line = Line::from("hello world hello");
    assert_eq!(line.search_forward("hello", 0), Some(0));
    assert_eq!(line.search_forward("hello", 1), Some(12));
    assert_eq!(line.search_forward("world", 0), Some(6));
    assert_eq!(line.search_forward("xyz", 0), None);
}

#[test]
fn test_search_backward() {
    let line = Line::from("hello world hello");
    assert_eq!(line.search_backward("hello", 17), Some(12));
    assert_eq!(line.search_backward("hello", 11), Some(0));
    assert_eq!(line.search_backward("world", 17), Some(6));
}

#[test]
fn test_grapheme_width() {
    // "a" is width 1, "👍" is width 2
    let line = Line::from("a👍b");
    assert_eq!(line.width_until(0), 0);
    assert_eq!(line.width_until(1), 1); // "a"
    assert_eq!(line.width_until(2), 3); // "a👍"
    assert_eq!(line.width_until(3), 4); // "a👍b"
}

#[test]
fn test_grapheme_at_width() {
    let line = Line::from("a👍b");
    assert_eq!(line.grapheme_at_width(0), 0);
    assert_eq!(line.grapheme_at_width(1), 1);
    assert_eq!(line.grapheme_at_width(2), 1); // inside "👍"
    assert_eq!(line.grapheme_at_width(3), 2);
    assert_eq!(line.grapheme_at_width(4), 3);
}

#[test]
fn test_search_out_of_bounds() {
    let line = Line::from("");
    assert_eq!(line.search_forward("h", 0), None);
    assert_eq!(line.search_forward("h", 1), None);
    assert_eq!(line.search_backward("h", 0), None);
    assert_eq!(line.search_backward("h", 1), None);

    let line = Line::from("h");
    assert_eq!(line.search_forward("h", 1), None);
    assert_eq!(line.search_forward("h", 2), None);
    assert_eq!(line.search_backward("h", 0), None);
    assert_eq!(line.search_backward("h", 2), Some(0));
}

#[test]
fn test_get_annotated_visible_substr() {
    let line = Line::from("hello");
    let annotations = vec![Annotation {
        annotation_type: AnnotationType::Selection,
        start: 0,
        end: 6, // includes virtual space
    }];

    // Full visible
    let res = line.get_annotated_visible_substr(0..10, Some(&annotations));
    assert_eq!(res.to_string(), "hello ");

    // Clipped right (virtual space removed)
    let res = line.get_annotated_visible_substr(0..5, Some(&annotations));
    assert_eq!(res.to_string(), "hello");

    // Clipped right (in text)
    let res = line.get_annotated_visible_substr(0..3, Some(&annotations));
    assert_eq!(res.to_string(), "hel");

    // Clipped left
    let res = line.get_annotated_visible_substr(2..10, Some(&annotations));
    assert_eq!(res.to_string(), "llo ");
}

#[test]
fn test_tabs() {
    let line = Line::from("\t");
    assert_eq!(line.width(), 8);
    assert_eq!(line.get_visible_graphemes(0..8), "|       ");

    let line = Line::from("a\t");
    assert_eq!(line.width(), 8);
    assert_eq!(line.get_visible_graphemes(0..8), "a|      ");

    let line = Line::from("abcd\t");
    assert_eq!(line.width(), 8);
    assert_eq!(line.get_visible_graphemes(0..8), "abcd|   ");

    // Clipping
    let line = Line::from("\t");
    assert_eq!(line.get_visible_graphemes(0..2), "⋯"); // Partially visible on the right
    assert_eq!(line.get_visible_graphemes(6..8), "⋯"); // Partially visible on the left
}

#[test]
fn visible_annotations_follow_the_text() {
    let line = Line::from("a b");
    let annotations = vec![Annotation {
        annotation_type: AnnotationType::Match,
        start: 2,
        end: 3,
    }];
    let res = line.get_annotated_visible_substr(0..10, Some(&annotations));
    // The space is shown as a middle dot (two bytes), so "b" moves one byte right.
    assert_eq!(res.to_string(), "a\u{b7}b ");
    assert!(res.annotations().iter().any(|a| a.annotation_type == AnnotationType::Match && a.start == 3 && a.end == 4));
    assert!(res.annotations().iter().any(|a| a.annotation_type == AnnotationType::Replacement && a.start == 1 && a.end == 3));
}

#[test]
fn visible_empty_range_is_empty() {
    let line = Line::from("hello");
    assert_eq!(line.get_visible_graphemes(3..3), "");
    assert_eq!(line.get_visible_graphemes(4..2), "");
}

#[test]
fn split_then_append_gives_the_line_back() {
    let mut line = Line::from("héllo wörld");
    let rest = line.split(4);
    assert_eq!(line.to_string(), "héll");
    line.append(&rest);
    assert_eq!(line.to_string(), "héllo wörld");
}

#[test]
fn search_reports_the_query_where_it_stands() {
    // "e" followed by a combining acute accent is one grapheme.
    let line = Line::from("ae\u{301}x e\u{301} e");
    let q = "e\u{301}";
    let forward = line.search_forward(q, 2).unwrap();
    assert_eq!(forward, 4);
    assert_eq!(line.get_substring(forward..forward + 1), q);
    let backward = line.search_backward(q, 4).unwrap();
    assert_eq!(backward, 1);
    assert_eq!(line.get_substring(backward..backward + 1), q);
    // A bare "e" matches only where it stands on its own, not inside "e\u{301}".
    assert_eq!(line.search_forward("e", 0), Some(6));
}

#[test]
fn grapheme_at_width_finds_the_grapheme_covering_the_column() {
    let line = Line::from("ab\u{1F600}c");
    let g = line.grapheme_at_width(3);
    assert_eq!(g, 2);
    assert!(line.width_until(g) <= 3);
    assert!(line.width_until(g + 1) > 3);
    for k in 0..=line.grapheme_count() {
        assert_eq!(line.grapheme_at_width(line.width_until(k)), k);
    }
    assert_eq!(line.grapheme_at_width(100), line.grapheme_count());
}
