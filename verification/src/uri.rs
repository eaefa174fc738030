//! File URIs as the language server protocol sends them.
use vstd::prelude::*;

use crate::text::{chars_of, string_from_chars};

verus! {

/// What `percent_encoding::percent_decode_str(s).decode_utf8_lossy()` gives:
/// the bytes of `s` with each `%` and two hex digits replaced by the byte
/// they name, read as UTF-8 with invalid sequences replaced.
pub uninterp spec fn percent_decoded(s: Seq<char>) -> Seq<char>;

/// `percent_encoding::percent_decode_str` and `PercentDecode::decode_utf8_lossy`.
/// The result is claimed to depend on the text alone.
#[verifier::external_body]
fn percent_decode(s: &str) -> (r: String)
    ensures
        r@ == percent_decoded(s@),
{
    percent_encoding::percent_decode_str(s).decode_utf8_lossy().into_owned()
}

/// The scheme of the URIs of local files.
pub open spec fn file_scheme() -> Seq<char> {
    seq!['f', 'i', 'l', 'e', ':', '/', '/']
}

/// The path a `file://` URI names, percent-decoded; `None` for other URIs.
pub open spec fn file_uri_path(uri: Seq<char>) -> Option<Seq<char>> {
    if file_scheme().is_prefix_of(uri) {
        Some(percent_decoded(uri.skip(7)))
    } else {
        None
    }
}

/// The path a `file://` URI names.
pub fn path_from_file_uri(uri: &str) -> (r: Option<String>)
    ensures
        match file_uri_path(uri@) {
            Some(p) => r matches Some(s) && s@ == p,
            None => r is None,
        },
{
    let cs = chars_of(uri);
    let scheme = ['f', 'i', 'l', 'e', ':', '/', '/'];
    if cs.len() < 7 {
        assert(!file_scheme().is_prefix_of(uri@));
        return None;
    }
    let mut i: usize = 0;
    while i < 7
        invariant
            cs@ == uri@,
            cs@.len() >= 7,
            i <= 7,
            scheme@ == file_scheme(),
            forall|j: int| 0 <= j < i ==> cs@[j] == file_scheme()[j],
        decreases 7 - i,
    {
        if cs[i] != scheme[i] {
            assert(!file_scheme().is_prefix_of(uri@));
            return None;
        }
        i = i + 1;
    }
    assert(file_scheme() =~= uri@.subrange(0, 7));
    let rest = string_from_chars(cs.as_slice(), 7, cs.len());
    assert(rest@ =~= uri@.skip(7));
    Some(percent_decode(rest.as_str()))
}

} // verus!
