use editor_core::annotation::AnnotationType;
use editor_core::filetype::FileType;
use editor_core::treesitter::{create_syntax_highlighter, TreeSitterHighlighter};

#[test]
fn test_rust_highlighting() {
    let mut highlighter = TreeSitterHighlighter::new();
    let source = "fn main() {\n    let x = 123;\n}";
    highlighter.update_tree(source);

    for i in 0..3 {
        if let Some(annotations) = highlighter.get_annotations(i) {
            println!("Line {}: {:?}", i, annotations);
        }
    }

    let annotations_1 = highlighter.get_annotations(1).unwrap();
    assert!(annotations_1.iter().any(|a| a.annotation_type == AnnotationType::Keyword));
    assert!(annotations_1.iter().any(|a| a.annotation_type == AnnotationType::KnownValue));
}

#[test]
fn plain_text_gets_no_syntax_highlighter() {
    assert!(create_syntax_highlighter(FileType::Rust).is_some());
    assert!(create_syntax_highlighter(FileType::JavaScript).is_some());
    assert!(create_syntax_highlighter(FileType::Text).is_none());
}

#[test]
fn every_line_of_the_source_gets_annotations() {
    let mut highlighter = TreeSitterHighlighter::new();
    highlighter.update_tree("let a = 1;\n\nlet b = 2;");
    assert!(highlighter.get_annotations(0).is_some());
    assert!(highlighter.get_annotations(2).is_some());
    assert!(highlighter.get_annotations(3).is_none());
}
