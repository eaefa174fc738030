//! What language servers answer, and how their messages are framed.
use vstd::prelude::*;

use crate::filetype::FileType;
use crate::line::{leading_whitespace_len, trimmed_end_len};
use crate::text::{
    byte_len_sat, char_is_whitespace, chars_of, copy_str, decimal, is_whitespace_char, join_newline, join_with_newlines,
    sat_usize, strings_view, usize_to_string, utf8_len,
};
use crate::view::LspPosition;

verus! {

/// Whether a kind of file has a language server (see `FileType::lsp_server`).
pub open spec fn has_server(ft: FileType) -> bool {
    ft != FileType::Text
}

/// Whether a kind of file has a language server.
pub fn has_language_server(ft: FileType) -> (r: bool)
    ensures
        r == has_server(ft),
{
    ft != FileType::Text
}

/// What a language server says about a symbol, each piece as its text.
pub enum HoverContents {
    Scalar(String),
    Array(Vec<String>),
    Markup(String),
}

/// The text of a hover answer: its pieces one per line.
pub open spec fn hover_text_of(c: HoverContents) -> Seq<char> {
    match c {
        HoverContents::Scalar(t) => t@,
        HoverContents::Array(v) => join_newline(strings_view(v@)),
        HoverContents::Markup(t) => t@,
    }
}

/// The text of a hover answer: its pieces one per line.
pub fn hover_text(contents: &HoverContents) -> (s: String)
    ensures
        s@ == hover_text_of(*contents),
{
    match contents {
        HoverContents::Scalar(t) => copy_str(t.as_str()),
        HoverContents::Array(v) => join_with_newlines(v),
        HoverContents::Markup(t) => copy_str(t.as_str()),
    }
}

/// A place in a document, as a language server names it.
pub struct LspLocation {
    pub uri: String,
    pub start: LspPosition,
}

/// Where a symbol is defined, as a language server answers: one place, a
/// list of places, or a list of links (each taken as its target).
pub enum DefinitionResponse {
    Scalar(LspLocation),
    Array(Vec<LspLocation>),
    Link(Vec<LspLocation>),
}

/// The place to go to: the answer's only or first place.
pub open spec fn definition_target_of(r: DefinitionResponse) -> Option<(Seq<char>, LspPosition)> {
    match r {
        DefinitionResponse::Scalar(l) => Some((l.uri@, l.start)),
        DefinitionResponse::Array(v) => if v@.len() > 0 {
            Some((v@[0].uri@, v@[0].start))
        } else {
            None
        },
        DefinitionResponse::Link(v) => if v@.len() > 0 {
            Some((v@[0].uri@, v@[0].start))
        } else {
            None
        },
    }
}

/// The place to go to: the answer's only or first place.
pub fn definition_target(r: &DefinitionResponse) -> (t: Option<(String, LspPosition)>)
    ensures
        match definition_target_of(*r) {
            Some((u, p)) => t matches Some((s, q)) && s@ == u && q == p,
            None => t is None,
        },
{
    match r {
        DefinitionResponse::Scalar(l) => Some((copy_str(l.uri.as_str()), l.start)),
        DefinitionResponse::Array(v) | DefinitionResponse::Link(v) => {
            if v.len() > 0 {
                Some((copy_str(v[0].uri.as_str()), v[0].start))
            } else {
                None
            }
        },
    }
}

// ---------------------------------------------------------------------------
// Framing
// ---------------------------------------------------------------------------

/// `s` without leading and trailing whitespace (what `str::trim` leaves).
pub open spec fn trimmed(s: Seq<char>) -> Seq<char> {
    let t = s.take(trimmed_end_len(s) as int);
    t.skip(leading_whitespace_len(t) as int)
}

/// The value of a decimal numeral.
pub open spec fn digits_value(s: Seq<char>) -> nat
    decreases s.len(),
{
    if s.len() == 0 {
        0
    } else {
        digits_value(s.drop_last()) * 10 + ((s.last() as u32 - '0' as u32) as nat)
    }
}

/// `s` without a leading `+`.
pub open spec fn unsigned_part(s: Seq<char>) -> Seq<char> {
    if s.len() > 0 && s[0] == '+' {
        s.skip(1)
    } else {
        s
    }
}

/// Every character of `s` is an ASCII digit.
pub open spec fn all_digits(s: Seq<char>) -> bool {
    forall|i: int| 0 <= i < s.len() ==> is_digit(#[trigger] s[i])
}

pub open spec fn is_digit(c: char) -> bool {
    '0' <= c && c <= '9'
}

/// What `str::parse::<usize>` accepts: an optional `+`, then one or more
/// ASCII digits, of a value that fits in `usize`.
pub open spec fn parsed_usize(s: Seq<char>) -> Option<usize> {
    let d = unsigned_part(s);
    if d.len() > 0 && all_digits(d) && digits_value(d) <= usize::MAX {
        Some(digits_value(d) as usize)
    } else {
        None
    }
}

/// One more digit multiplies the value by ten and adds the digit.
proof fn lemma_digits_value_step(d: Seq<char>, k: int)
    requires
        0 <= k < d.len(),
    ensures
        digits_value(d.take(k + 1)) == digits_value(d.take(k)) * 10 + ((d[k] as u32 - '0' as u32) as nat),
{
    assert(d.take(k + 1).drop_last() =~= d.take(k));
    assert(d.take(k + 1).last() == d[k]);
}

/// A numeral is worth at least as much as any of its prefixes.
proof fn lemma_digits_value_prefix(d: Seq<char>, k: int)
    requires
        0 <= k <= d.len(),
        all_digits(d),
    ensures
        digits_value(d.take(k)) <= digits_value(d),
    decreases d.len() - k,
{
    if k < d.len() {
        lemma_digits_value_step(d, k);
        assert(is_digit(d[k]));
        lemma_digits_value_prefix(d, k + 1);
    } else {
        assert(d.take(k) =~= d);
    }
}

/// The number written in `s`, if `s` is an optional `+` followed by ASCII
/// digits of a value that fits (what `str::parse::<usize>` accepts).
fn parse_usize(s: &str) -> (r: Option<usize>)
    ensures
        r == parsed_usize(s@),
{
    let cs = crate::text::chars_of(s);
    let start: usize = if cs.len() > 0 && cs[0] == '+' { 1 } else { 0 };
    let ghost d = unsigned_part(s@);
    assert(d =~= cs@.skip(start as int));
    if start >= cs.len() {
        return None;
    }
    let mut v: usize = 0;
    let mut i: usize = start;
    assert(d.take(0) =~= Seq::<char>::empty());
    while i < cs.len()
        invariant
            start <= i <= cs.len(),
            cs@ == s@,
            d == cs@.skip(start as int),
            d == unsigned_part(s@),
            d.len() > 0,
            all_digits(d.take(i - start)),
            v == digits_value(d.take(i - start)),
        decreases cs.len() - i,
    {
        let c = cs[i];
        assert(d[i - start] == c);
        if !('0' <= c && c <= '9') {
            assert(!is_digit(d[i - start]));
            return None;
        }
        proof {
            lemma_digits_value_step(d, i - start);
            assert forall|j: int| 0 <= j < d.take(i - start + 1).len() implies is_digit(
                #[trigger] d.take(i - start + 1)[j],
            ) by {
                if j < i - start {
                    assert(d.take(i - start + 1)[j] == d.take(i - start)[j]);
                }
            }
        }
        let digit = (c as u32 - '0' as u32) as usize;
        let next = match v.checked_mul(10) {
            Some(w) => w.checked_add(digit),
            None => None,
        };
        match next {
            Some(n) => {
                v = n;
            },
            None => {
                proof {
                    if all_digits(d) {
                        lemma_digits_value_prefix(d, i - start + 1);
                    }
                }
                return None;
            },
        }
        i = i + 1;
    }
    assert(d.take(i - start) =~= d);
    Some(v)
}

/// The header that starts every message.
pub open spec fn header_prefix() -> Seq<char> {
    "Content-Length: "@
}

/// The body length a header line announces: for a `Content-Length` header,
/// its value (zero when it does not parse); nothing for another line.
pub open spec fn announced_length(line: Seq<char>) -> Option<usize> {
    if header_prefix().is_prefix_of(line) {
        Some(
            match parsed_usize(trimmed(line.skip(header_prefix().len() as int))) {
                Some(n) => n,
                None => 0,
            },
        )
    } else {
        None
    }
}

fn trim_chars(cs: &Vec<char>, from: usize) -> (r: String)
    requires
        from <= cs@.len(),
    ensures
        r@ == trimmed(cs@.skip(from as int)),
{
    let ghost s = cs@.skip(from as int);
    let mut end = cs.len();
    while end > from && char_is_whitespace(cs[end - 1])
        invariant
            from <= end <= cs@.len(),
            trimmed_end_len(s) == trimmed_end_len(cs@.subrange(from as int, end as int)),
        decreases end,
    {
        proof {
            let t = cs@.subrange(from as int, end as int);
            assert(t.drop_last() =~= cs@.subrange(from as int, end - 1));
        }
        end = end - 1;
    }
    let ghost t = cs@.subrange(from as int, end as int);
    proof {
        assert(cs@.subrange(from as int, cs@.len() as int) =~= s);
        assert(trimmed_end_len(t) == t.len());
        assert(s.take(trimmed_end_len(s) as int) =~= t);
    }
    let mut start = from;
    while start < end && char_is_whitespace(cs[start])
        invariant
            from <= start <= end,
            end <= cs@.len(),
            t == cs@.subrange(from as int, end as int),
            start - from + leading_whitespace_len(cs@.subrange(start as int, end as int)) == leading_whitespace_len(t),
        decreases end - start,
    {
        proof {
            let u = cs@.subrange(start as int, end as int);
            assert(u.drop_first() =~= cs@.subrange(start + 1, end as int));
        }
        start = start + 1;
    }
    let mut r = String::new();
    let mut i = start;
    while i < end
        invariant
            start <= i <= end,
            end <= cs@.len(),
            r@ == cs@.subrange(start as int, i as int),
        decreases end - i,
    {
        crate::text::push_char(&mut r, cs[i]);
        i = i + 1;
        assert(r@ =~= cs@.subrange(start as int, i as int));
    }
    proof {
        let u = cs@.subrange(start as int, end as int);
        assert(start >= end || !is_whitespace_char(u[0]) ==> leading_whitespace_len(u) == 0);
        assert(t.skip(leading_whitespace_len(t) as int) =~= u);
    }
    r
}

/// The body length a header line announces, as `announced_length` says.
pub fn content_length(line: &str) -> (r: Option<usize>)
    ensures
        r == announced_length(line@),
{
    let cs = chars_of(line);
    let prefix = chars_of("Content-Length: ");
    proof {
        reveal_strlit("Content-Length: ");
    }
    if cs.len() < prefix.len() {
        assert(!header_prefix().is_prefix_of(line@));
        return None;
    }
    let mut i: usize = 0;
    while i < prefix.len()
        invariant
            prefix@ == header_prefix(),
            cs@ == line@,
            prefix@.len() <= cs@.len(),
            i <= prefix@.len(),
            forall|j: int| 0 <= j < i ==> cs@[j] == prefix@[j],
        decreases prefix@.len() - i,
    {
        if cs[i] != prefix[i] {
            assert(!header_prefix().is_prefix_of(line@));
            return None;
        }
        i = i + 1;
    }
    assert(header_prefix().is_prefix_of(line@));
    let value = trim_chars(&cs, prefix.len());
    match parse_usize(value.as_str()) {
        Some(n) => Some(n),
        None => Some(0),
    }
}

/// A message as it is sent: a `Content-Length` header with the body's
/// length in bytes, a blank line, and the body.
pub open spec fn framed(body: Seq<char>) -> Seq<char> {
    header_prefix() + decimal(sat_usize(utf8_len(body)) as nat) + "\r\n\r\n"@ + body
}

/// A message as it is sent, as `framed` says.
pub fn frame_message(body: &str) -> (r: String)
    ensures
        r@ == framed(body@),
{
    let mut r = copy_str("Content-Length: ");
    r.append(usize_to_string(byte_len_sat(body)).as_str());
    r.append("\r\n\r\n");
    r.append(body);
    r
}

} // verus!
