use editor_core::filetype::FileType;
use editor_core::lsp::{
    content_length, definition_target, frame_message, hover_text, DefinitionResponse, HoverContents, LspLocation,
};
use editor_core::uri::path_from_file_uri;
use editor_core::view::LspPosition;

#[test]
fn language_servers_by_file_type() {
    assert_eq!(FileType::Rust.lsp_server(), Some(("rust-analyzer", vec![])));
    assert_eq!(FileType::JavaScript.lsp_server(), Some(("typescript-language-server", vec!["--stdio"])));
    assert_eq!(FileType::Zig.lsp_server(), Some(("zls", vec![])));
    assert_eq!(FileType::Text.lsp_server(), None);
    assert_eq!(FileType::JavaScript.language_id(), "javascript");
    assert_eq!(FileType::Text.language_id(), "text");
}

#[test]
fn messages_are_framed_with_their_byte_length() {
    assert_eq!(frame_message("{}"), "Content-Length: 2\r\n\r\n{}");
    assert_eq!(frame_message("é"), "Content-Length: 2\r\n\r\né");
}

#[test]
fn header_lines_announce_the_body_length() {
    assert_eq!(content_length("Content-Length: 42\r\n"), Some(42));
    assert_eq!(content_length("Content-Length: +7"), Some(7));
    assert_eq!(content_length("Content-Length: x"), Some(0));
    assert_eq!(content_length("Content-Type: text"), None);
    assert_eq!(content_length(""), None);
}

#[test]
fn hover_pieces_go_one_per_line() {
    let c = HoverContents::Array(vec!["fn f()".to_string(), "docs".to_string()]);
    assert_eq!(hover_text(&c), "fn f()\ndocs");
    assert_eq!(hover_text(&HoverContents::Markup("**x**".to_string())), "**x**");
}

#[test]
fn the_first_definition_is_taken() {
    let p = LspPosition { line: 3, character: 4 };
    let r = DefinitionResponse::Array(vec![
        LspLocation { uri: "file:///a.rs".to_string(), start: p },
        LspLocation { uri: "file:///b.rs".to_string(), start: p },
    ]);
    assert_eq!(definition_target(&r), Some(("file:///a.rs".to_string(), p)));
    assert_eq!(definition_target(&DefinitionResponse::Link(vec![])), None);
}

#[test]
fn file_uris_name_decoded_paths() {
    assert_eq!(path_from_file_uri("file:///tmp/a%20b.rs"), Some("/tmp/a b.rs".to_string()));
    assert_eq!(path_from_file_uri("http://example.com/x"), None);
}

#[test]
fn content_length_rejects_signs_and_overflow() {
    assert_eq!(content_length("Content-Length: -5"), Some(0));
    assert_eq!(content_length("Content-Length: +"), Some(0));
    assert_eq!(content_length("Content-Length: 99999999999999999999999999"), Some(0));
    assert_eq!(content_length("Content-Length: 007"), Some(7));
    assert_eq!(content_length("Content-Length: 1 2"), Some(0));
}
