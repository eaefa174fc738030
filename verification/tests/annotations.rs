use editor_core::annotatedstring::AnnotatedString;
use editor_core::annotation::{Annotation, AnnotationType};
use editor_core::attribute::{Attribute, Rgb};
use editor_core::highlighter::{SearchResultHighlighter, SelectionHighlighter};
use editor_core::line::Line;
use editor_core::prelude::Location;

fn loc(line_idx: usize, grapheme_idx: usize) -> Location {
    Location { line_idx, grapheme_idx, preferred_grapheme_idx: grapheme_idx }
}

#[test]
fn annotations_move_with_the_text_they_follow() {
    let mut s = AnnotatedString::from("hello world");
    s.add_annotation(AnnotationType::Match, 6, 11);
    s.replace(0, 5, "HI");
    assert_eq!(s.to_string(), "HI world");
    assert_eq!(s.annotations().len(), 1);
    assert_eq!((s.annotations()[0].start, s.annotations()[0].end), (3, 8));
}

#[test]
fn truncating_drops_annotations_left_of_the_text() {
    let mut s = AnnotatedString::from("abcdef");
    s.add_annotation(AnnotationType::Keyword, 0, 2);
    s.add_annotation(AnnotationType::Number, 4, 6);
    s.truncate_left_until(3);
    assert_eq!(s.to_string(), "def");
    assert_eq!(s.annotations().len(), 1);
    assert_eq!(s.annotations()[0].annotation_type, AnnotationType::Number);
    assert_eq!((s.annotations()[0].start, s.annotations()[0].end), (1, 3));
    s.truncate_right_from(1);
    assert_eq!(s.to_string(), "d");
    assert_eq!(s.annotations().len(), 0);
}

#[test]
fn a_selection_within_a_line_covers_its_bytes() {
    let h = SelectionHighlighter::new(loc(0, 1), loc(0, 3));
    let line = Line::from("hello");
    let anns = h.get_annotations(0, &line).unwrap();
    assert_eq!(anns, vec![Annotation { annotation_type: AnnotationType::Selection, start: 1, end: 3 }]);
    assert!(h.get_annotations(1, &line).is_none());
}

#[test]
fn a_selection_over_lines_covers_whole_middle_lines() {
    let h = SelectionHighlighter::new(loc(0, 2), loc(2, 1));
    let line = Line::from("abc");
    let anns = h.get_annotations(1, &line).unwrap();
    assert_eq!((anns[0].start, anns[0].end), (0, 4));
    let first = h.get_annotations(0, &line).unwrap();
    assert_eq!((first[0].start, first[0].end), (2, 4));
}

#[test]
fn search_matches_are_annotated() {
    let mut h = SearchResultHighlighter::new("lo", None);
    h.highlight(0, &Line::from("hello lo"));
    let anns = h.get_annotations(0).unwrap();
    assert_eq!(
        anns,
        &vec![
            Annotation { annotation_type: AnnotationType::Match, start: 3, end: 5 },
            Annotation { annotation_type: AnnotationType::Match, start: 6, end: 8 },
        ]
    );
    assert!(h.get_annotations(1).is_none());
}

#[test]
fn the_selected_match_stands_out() {
    let mut h = SearchResultHighlighter::new("lo", Some(loc(0, 6)));
    h.highlight(0, &Line::from("hello lo"));
    let anns = h.get_annotations(0).unwrap();
    assert_eq!(anns[0].annotation_type, AnnotationType::Match);
    assert_eq!(anns[1].annotation_type, AnnotationType::SelectedMatch);
}

#[test]
fn matches_are_drawn_white_on_grey() {
    let a = Attribute::from(AnnotationType::Match);
    assert_eq!(a.foreground, Some(Rgb { r: 255, g: 255, b: 255 }));
    assert_eq!(a.background, Some(Rgb { r: 100, g: 100, b: 100 }));
}
