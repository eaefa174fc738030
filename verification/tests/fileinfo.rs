use editor_core::fileinfo::FileInfo;
use editor_core::filetype::FileType;

#[test]
fn test_file_info_rust() {
    let info = FileInfo::from("test.rs");
    assert_eq!(info.get_file_type(), FileType::Rust);
    assert_eq!(info.to_string(), "test.rs");
}

#[test]
fn test_file_info_javascript() {
    let info = FileInfo::from("test.js");
    assert_eq!(info.get_file_type(), FileType::JavaScript);
}

#[test]
fn test_file_info_zig() {
    let info = FileInfo::from("test.zig");
    assert_eq!(info.get_file_type(), FileType::Zig);
}

#[test]
fn test_file_info_nix() {
    let info = FileInfo::from("test.nix");
    assert_eq!(info.get_file_type(), FileType::Nix);
}

#[test]
fn test_file_info_text() {
    let info = FileInfo::from("test.txt");
    assert_eq!(info.get_file_type(), FileType::Text);
}

#[test]
fn test_file_info_no_extension() {
    let info = FileInfo::from("README");
    assert_eq!(info.get_file_type(), FileType::Text);
}

#[test]
fn file_info_shows_the_file_name_of_a_path() {
    let info = FileInfo::from("src/main.rs");
    assert_eq!(info.to_string(), "main.rs");
    assert_eq!(info.get_file_type(), FileType::Rust);
    assert_eq!(FileInfo::empty().to_string(), "[No Name]");
}
