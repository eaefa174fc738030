//! The kinds of files the editor knows.
use vstd::prelude::*;

use crate::text::chars_of;

verus! {

/// The language of a file.
#[derive(Copy, Clone, Default, Eq, PartialEq, Structural, Debug, Hash)]
pub enum FileType {
    Rust,
    JavaScript,
    Zig,
    Nix,
    #[default]
    Text,
}

/// ASCII lower case of a character.
pub open spec fn ascii_lower(c: char) -> char {
    if 'A' <= c && c <= 'Z' {
        ((c as u8) + 32) as char
    } else {
        c
    }
}

/// Equality up to ASCII case (what `str::eq_ignore_ascii_case` tests).
pub open spec fn eq_ignore_ascii_case(a: Seq<char>, b: Seq<char>) -> bool {
    a.len() == b.len() && forall|i: int| 0 <= i < a.len() ==> ascii_lower(#[trigger] a[i]) == ascii_lower(b[i])
}

fn to_ascii_lower(c: char) -> (r: char)
    ensures
        r == ascii_lower(c),
{
    if 'A' <= c && c <= 'Z' {
        ((c as u8) + 32) as char
    } else {
        c
    }
}

/// Whether `a` equals `b` up to ASCII case.
pub fn str_eq_ignore_ascii_case(a: &str, b: &str) -> (r: bool)
    ensures
        r == eq_ignore_ascii_case(a@, b@),
{
    let x = chars_of(a);
    let y = chars_of(b);
    if x.len() != y.len() {
        return false;
    }
    let mut i: usize = 0;
    while i < x.len()
        invariant
            x@ == a@,
            y@ == b@,
            x@.len() == y@.len(),
            i <= x@.len(),
            forall|j: int| 0 <= j < i ==> ascii_lower(#[trigger] x@[j]) == ascii_lower(y@[j]),
        decreases x@.len() - i,
    {
        if to_ascii_lower(x[i]) != to_ascii_lower(y[i]) {
            return false;
        }
        i = i + 1;
    }
    true
}

/// The name of a file type, as shown to the user.
pub open spec fn file_type_name(t: FileType) -> Seq<char> {
    match t {
        FileType::Rust => "Rust"@,
        FileType::JavaScript => "JavaScript"@,
        FileType::Zig => "Zig"@,
        FileType::Nix => "Nix"@,
        FileType::Text => "Text"@,
    }
}

/// The file type of an extension.
pub open spec fn file_type_of_extension(ext: Seq<char>) -> FileType {
    if eq_ignore_ascii_case(ext, "rs"@) {
        FileType::Rust
    } else if eq_ignore_ascii_case(ext, "js"@) {
        FileType::JavaScript
    } else if eq_ignore_ascii_case(ext, "zig"@) {
        FileType::Zig
    } else if eq_ignore_ascii_case(ext, "nix"@) {
        FileType::Nix
    } else {
        FileType::Text
    }
}

impl FileType {
    /// The language identifier used by language servers.
    pub fn language_id(&self) -> (id: &'static str)
        ensures
            id@ == match *self {
                FileType::Rust => "rust"@,
                FileType::JavaScript => "javascript"@,
                FileType::Zig => "zig"@,
                FileType::Nix => "nix"@,
                FileType::Text => "text"@,
            },
    {
        match self {
            FileType::Rust => "rust",
            FileType::JavaScript => "javascript",
            FileType::Zig => "zig",
            FileType::Nix => "nix",
            FileType::Text => "text",
        }
    }

    /// The language server command and its arguments, if the language has one.
    pub fn lsp_server(&self) -> (r: Option<(&'static str, Vec<&'static str>)>)
        ensures
            match *self {
                FileType::Rust => r matches Some(p) && p.0@ == "rust-analyzer"@ && p.1@.len() == 0,
                FileType::JavaScript => r matches Some(p) && p.0@ == "typescript-language-server"@
                    && p.1@.len() == 1 && p.1@[0]@ == "--stdio"@,
                FileType::Zig => r matches Some(p) && p.0@ == "zls"@ && p.1@.len() == 0,
                FileType::Nix => r matches Some(p) && p.0@ == "nil"@ && p.1@.len() == 0,
                FileType::Text => r is None,
            },
    {
        match self {
            FileType::Rust => Some(("rust-analyzer", Vec::new())),
            FileType::JavaScript => {
                let mut args = Vec::new();
                args.push("--stdio");
                Some(("typescript-language-server", args))
            },
            FileType::Zig => Some(("zls", Vec::new())),
            FileType::Nix => Some(("nil", Vec::new())),
            FileType::Text => None,
        }
    }

    /// The file type of a file name extension, compared without regard to
    /// ASCII case.
    pub fn from_extension(extension: &str) -> (t: Self)
        ensures
            t == file_type_of_extension(extension@),
    {
        if str_eq_ignore_ascii_case(extension, "rs") {
            FileType::Rust
        } else if str_eq_ignore_ascii_case(extension, "js") {
            FileType::JavaScript
        } else if str_eq_ignore_ascii_case(extension, "zig") {
            FileType::Zig
        } else if str_eq_ignore_ascii_case(extension, "nix") {
            FileType::Nix
        } else {
            FileType::Text
        }
    }

    /// The name shown to the user.
    pub fn name(&self) -> (s: &'static str)
        ensures
            s@ == file_type_name(*self),
    {
        match self {
            FileType::Rust => "Rust",
            FileType::JavaScript => "JavaScript",
            FileType::Zig => "Zig",
            FileType::Nix => "Nix",
            FileType::Text => "Text",
        }
    }
}

} // verus!
