//! The file a buffer belongs to.
use vstd::prelude::*;

use crate::filetype::{file_type_of_extension, FileType};
use crate::text::{chars_of, copy_str, split_chars, split_on, string_from_chars};

verus! {

/// Whether a path component is kept when walking a path (empty components
/// and "." are skipped).
pub open spec fn is_normal_component(p: Seq<char>) -> bool {
    p.len() > 0 && p != seq!['.']
}

/// The last component of a path, if it names a file (not "..", not the root,
/// not the current directory), as `Path::file_name` gives it.
pub open spec fn path_file_name(path: Seq<char>) -> Option<Seq<char>> {
    let comps = split_chars(path, '/').filter(|p: Seq<char>| is_normal_component(p));
    if comps.len() == 0 || comps.last() == seq!['.', '.'] {
        None
    } else {
        Some(comps.last())
    }
}

/// The part of a file name after its last dot, unless the name has no dot
/// or its only dot starts it, as `Path::extension` gives it.
pub open spec fn name_extension(name: Seq<char>) -> Option<Seq<char>> {
    if exists|i: int| 0 < i < name.len() && name[i] == '.' {
        let i = choose|i: int| 0 < i < name.len() && name[i] == '.' && forall|j: int| i < j < name.len() ==> name[j] != '.';
        Some(name.skip(i + 1))
    } else {
        None
    }
}

/// The extension of the file a path names.
pub open spec fn path_extension(path: Seq<char>) -> Option<Seq<char>> {
    match path_file_name(path) {
        Some(name) => name_extension(name),
        None => None,
    }
}

/// The last component of `path` that names a file.
pub fn file_name_of(path: &str) -> (r: Option<String>)
    ensures
        match path_file_name(path@) {
            Some(n) => r matches Some(s) && s@ == n,
            None => r is None,
        },
{
    let pieces = split_on(path, '/');
    let ghost ps = pieces@.map_values(|p: String| p@);
    let mut i = pieces.len();
    assert(ps.take(i as int) =~= ps);
    while i > 0
        invariant
            ps == pieces@.map_values(|p: String| p@),
            ps == split_chars(path@, '/'),
            i <= ps.len(),
            ps.filter(|p: Seq<char>| is_normal_component(p)) == ps.take(i as int).filter(|p: Seq<char>| is_normal_component(p)),
        decreases i,
    {
        let piece = pieces[i - 1].as_str();
        let cs = chars_of(piece);
        let normal = cs.len() > 0 && !(cs.len() == 1 && cs[0] == '.');
        proof {
            assert(ps.take(i as int) =~= ps.take(i - 1).push(ps[i - 1]));
            ps.take(i - 1).lemma_filter_push(ps[i - 1], |p: Seq<char>| is_normal_component(p));
            assert(cs@ == ps[i - 1]);
            if cs@.len() == 1 && cs@[0] == '.' {
                assert(cs@ =~= seq!['.']);
            }
            assert(normal == is_normal_component(ps[i - 1]));
        }
        if normal {
            let is_parent = cs.len() == 2 && cs[0] == '.' && cs[1] == '.';
            proof {
                if is_parent {
                    assert(cs@ =~= seq!['.', '.']);
                }
                assert(split_chars(path@, '/') == ps);
                assert(ps.filter(|p: Seq<char>| is_normal_component(p)).last() == ps[i - 1]);
                assert(ps.filter(|p: Seq<char>| is_normal_component(p)).len() > 0);
            }
            if is_parent {
                return None;
            }
            return Some(copy_str(piece));
        }
        i = i - 1;
    }
    assert(ps.take(0) =~= Seq::<Seq<char>>::empty());
    assert(ps.take(0).filter(|p: Seq<char>| is_normal_component(p)) =~= Seq::<Seq<char>>::empty());
    assert(split_chars(path@, '/') == ps);
    None
}

/// The part of `name` after its last dot, as `name_extension` describes.
pub fn extension_of_name(name: &str) -> (r: Option<String>)
    ensures
        match name_extension(name@) {
            Some(e) => r matches Some(s) && s@ == e,
            None => r is None,
        },
{
    let cs = chars_of(name);
    let n = cs.len();
    let mut i = n;
    while i > 0
        invariant
            cs@ == name@,
            n == cs@.len(),
            i <= n,
            forall|j: int| i <= j < n ==> cs@[j] != '.',
        decreases i,
    {
        if cs[i - 1] == '.' {
            if i - 1 == 0 {
                assert(!exists|k: int| 0 < k < name@.len() && name@[k] == '.');
                return None;
            }
            let ghost k = (i - 1) as int;
            assert(exists|k: int| 0 < k < name@.len() && name@[k] == '.') by {
                assert(0 < k < name@.len() && name@[k] == '.');
            }
            let ghost c = choose|i: int| 0 < i < name@.len() && name@[i] == '.' && forall|j: int| i < j < name@.len() ==> name@[j] != '.';
            assert(c == k) by {
                assert(0 < k < name@.len() && name@[k] == '.' && forall|j: int| k < j < name@.len() ==> name@[j] != '.');
                if c < k {
                } else if c > k {
                }
            }
            let ext = string_from_chars(cs.as_slice(), i, n);
            assert(ext@ =~= name@.skip(k + 1));
            return Some(ext);
        }
        i = i - 1;
    }
    None
}

/// The file a buffer shows: a path on disk, or a display name for internal
/// buffers such as help.
#[derive(Default, Debug)]
pub struct FileInfo {
    path: Option<String>,
    display_name: Option<String>,
    file_type: FileType,
}

impl FileInfo {
    pub closed spec fn path_view(&self) -> Option<Seq<char>> {
        match self.path {
            Some(p) => Some(p@),
            None => None,
        }
    }

    pub closed spec fn display_name_view(&self) -> Option<Seq<char>> {
        match self.display_name {
            Some(p) => Some(p@),
            None => None,
        }
    }

    pub closed spec fn file_type_view(&self) -> FileType {
        self.file_type
    }

    /// No file and no name: what a new, empty buffer has.
    pub fn empty() -> (r: Self)
        ensures
            r.path_view() is None,
            r.display_name_view() is None,
            r.file_type_view() == FileType::Text,
    {
        Self { path: None, display_name: None, file_type: FileType::Text }
    }

    /// A buffer that is not backed by a file, shown under `name`.
    pub fn new_internal(name: &str) -> (r: Self)
        ensures
            r.path_view() is None,
            r.display_name_view() == Some(name@),
            r.file_type_view() == FileType::Text,
    {
        Self { path: None, display_name: Some(copy_str(name)), file_type: FileType::Text }
    }

    /// The info of the file at path `file_name`: that path, no display name,
    /// the type given by the extension.
    pub open spec fn describes_path(&self, file_name: Seq<char>) -> bool {
        &&& self.path_view() == Some(file_name)
        &&& self.display_name_view() is None
        &&& self.file_type_view() == match path_extension(file_name) {
            Some(e) => file_type_of_extension(e),
            None => FileType::Text,
        }
    }

    /// The file at path `file_name`, its type taken from its extension.
    pub fn from(file_name: &str) -> (r: Self)
        ensures
            r.describes_path(file_name@),
    {
        let file_type = match file_name_of(file_name) {
            Some(name) => match extension_of_name(name.as_str()) {
                Some(ext) => FileType::from_extension(ext.as_str()),
                None => FileType::Text,
            },
            None => FileType::Text,
        };
        Self { path: Some(copy_str(file_name)), display_name: None, file_type }
    }

    /// The path of the file, if there is one.
    pub fn get_path(&self) -> (r: Option<&str>)
        ensures
            match self.path_view() {
                Some(p) => r matches Some(s) && s@ == p,
                None => r is None,
            },
    {
        match &self.path {
            Some(p) => Some(p.as_str()),
            None => None,
        }
    }

    /// Whether the buffer is backed by a file.
    pub fn has_path(&self) -> (r: bool)
        ensures
            r == self.path_view() is Some,
    {
        self.path.is_some()
    }

    /// The type of the file.
    pub fn get_file_type(&self) -> (t: FileType)
        ensures
            t == self.file_type_view(),
    {
        self.file_type
    }

    /// The name shown for the file: the display name, else the file name of
    /// the path, else "[No Name]".
    pub fn to_string(&self) -> (s: String)
        ensures
            s@ == match self.display_name_view() {
                Some(n) => n,
                None => match self.path_view() {
                    Some(p) => match path_file_name(p) {
                        Some(n) => n,
                        None => "[No Name]"@,
                    },
                    None => "[No Name]"@,
                },
            },
    {
        if let Some(name) = &self.display_name {
            return name.clone();
        }
        match &self.path {
            Some(p) => match file_name_of(p.as_str()) {
                Some(n) => n,
                None => copy_str("[No Name]"),
            },
            None => copy_str("[No Name]"),
        }
    }
}

} // verus!
