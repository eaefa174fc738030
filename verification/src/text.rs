//! Unicode text primitives: UTF-8 and UTF-16 lengths, character classes,
//! grapheme segmentation and display width.
use vstd::prelude::*;
use unicode_segmentation::UnicodeSegmentation;
use unicode_width::UnicodeWidthStr;

verus! {

// ---------------------------------------------------------------------------
// Lengths
// ---------------------------------------------------------------------------

/// Number of bytes of the UTF-8 encoding of a character sequence.
pub open spec fn utf8_len(s: Seq<char>) -> nat {
    vstd::utf8::encode_utf8(s).len()
}

/// Number of UTF-16 code units of one character.
pub open spec fn utf16_char_len(c: char) -> nat {
    if (c as u32) < 0x10000 {
        1
    } else {
        2
    }
}

/// Number of UTF-16 code units of a character sequence.
pub open spec fn utf16_len(s: Seq<char>) -> nat
    decreases s.len(),
{
    if s.len() == 0 {
        0
    } else {
        utf16_len(s.drop_last()) + utf16_char_len(s.last())
    }
}

pub proof fn lemma_encode_utf8_concat(a: Seq<char>, b: Seq<char>)
    ensures
        vstd::utf8::encode_utf8(a + b) == vstd::utf8::encode_utf8(a) + vstd::utf8::encode_utf8(b),
    decreases a.len(),
{
    if a.len() == 0 {
        assert(a + b =~= b);
        assert(vstd::utf8::encode_utf8(a) + vstd::utf8::encode_utf8(b) =~= vstd::utf8::encode_utf8(
            b,
        ));
    } else {
        lemma_encode_utf8_concat(a.drop_first(), b);
        assert((a + b).drop_first() =~= a.drop_first() + b);
        assert((a + b)[0] == a[0]);
        let e0 = vstd::utf8::encode_scalar(a[0] as u32);
        assert(vstd::utf8::encode_utf8(a + b) == e0 + vstd::utf8::encode_utf8(a.drop_first() + b));
        assert(e0 + (vstd::utf8::encode_utf8(a.drop_first()) + vstd::utf8::encode_utf8(b))
            =~= (e0 + vstd::utf8::encode_utf8(a.drop_first())) + vstd::utf8::encode_utf8(b));
    }
}

/// The UTF-8 length of a concatenation is the sum of the lengths.
pub proof fn lemma_utf8_len_concat(a: Seq<char>, b: Seq<char>)
    ensures
        utf8_len(a + b) == utf8_len(a) + utf8_len(b),
{
    lemma_encode_utf8_concat(a, b);
}

/// Every character takes between one and four bytes.
pub proof fn lemma_utf8_len_char(c: char)
    ensures
        1 <= utf8_len(seq![c]) <= 4,
        utf8_len(seq![c]) == vstd::utf8::encode_scalar(c as u32).len(),
{
    assert(seq![c].drop_first() =~= Seq::<char>::empty());
    assert(seq![c][0] == c);
    let e = vstd::utf8::encode_scalar(c as u32);
    assert(vstd::utf8::encode_utf8(seq![c]) == e + vstd::utf8::encode_utf8(
        Seq::<char>::empty(),
    ));
    assert(vstd::utf8::encode_utf8(seq![c]) =~= e);
}

/// The UTF-8 length of a prefix grows with the prefix and never exceeds the whole.
pub proof fn lemma_utf8_len_take_mono(s: Seq<char>, i: int, j: int)
    requires
        0 <= i <= j <= s.len(),
    ensures
        utf8_len(s.take(i)) + (j - i) <= utf8_len(s.take(j)),
        utf8_len(s.take(j)) <= utf8_len(s),
        utf8_len(s.take(j)) <= 4 * j,
        s.len() <= utf8_len(s),
    decreases j - i,
{
    lemma_utf8_len_upper(s.take(j));
    lemma_utf8_len_upper(s);
    assert(s.take(j) + s.skip(j) =~= s);
    lemma_utf8_len_concat(s.take(j), s.skip(j));
    lemma_utf8_len_lower(s.skip(j));
    lemma_utf8_len_lower(s);
    if i < j {
        lemma_utf8_len_take_mono(s, i, j - 1);
        assert(s.take(j) =~= s.take(j - 1) + seq![s[j - 1]]);
        lemma_utf8_len_concat(s.take(j - 1), seq![s[j - 1]]);
        lemma_utf8_len_char(s[j - 1]);
    }
}

pub proof fn lemma_utf8_len_upper(s: Seq<char>)
    ensures
        utf8_len(s) <= 4 * s.len(),
    decreases s.len(),
{
    if s.len() > 0 {
        assert(s =~= seq![s[0]] + s.drop_first());
        lemma_utf8_len_concat(seq![s[0]], s.drop_first());
        lemma_utf8_len_char(s[0]);
        lemma_utf8_len_upper(s.drop_first());
    } else {
        assert(vstd::utf8::encode_utf8(s) =~= Seq::<u8>::empty());
    }
}

pub proof fn lemma_utf8_len_lower(s: Seq<char>)
    ensures
        s.len() <= utf8_len(s),
        s.len() > 0 ==> utf8_len(s) > 0,
    decreases s.len(),
{
    if s.len() > 0 {
        assert(s =~= seq![s[0]] + s.drop_first());
        lemma_utf8_len_concat(seq![s[0]], s.drop_first());
        lemma_utf8_len_char(s[0]);
        lemma_utf8_len_lower(s.drop_first());
    }
}

/// The number of bytes of the character's UTF-8 encoding (what
/// `char::len_utf8` gives).
pub fn char_len_utf8(c: char) -> (n: usize)
    ensures
        n == utf8_len(seq![c]),
{
    proof {
        lemma_utf8_len_char(c);
    }
    let u = c as u32;
    if u < 0x80 {
        1
    } else if u < 0x800 {
        2
    } else if u < 0x10000 {
        3
    } else {
        4
    }
}

/// The number of UTF-16 code units of the character (what `char::len_utf16`
/// gives): one in the basic multilingual plane, two otherwise.
pub fn char_len_utf16(c: char) -> (n: usize)
    ensures
        n == utf16_char_len(c),
{
    if (c as u32) < 0x10000 {
        1
    } else {
        2
    }
}

// ---------------------------------------------------------------------------
// Character classes
// ---------------------------------------------------------------------------

/// The Unicode `White_Space` property, which `char::is_whitespace` tests.
pub open spec fn is_whitespace_char(c: char) -> bool {
    let u = c as u32;
    ||| u == 0x20
    ||| (0x09 <= u && u <= 0x0d)
    ||| u == 0x85
    ||| u == 0xa0
    ||| u == 0x1680
    ||| (0x2000 <= u && u <= 0x200a)
    ||| u == 0x2028
    ||| u == 0x2029
    ||| u == 0x202f
    ||| u == 0x205f
    ||| u == 0x3000
}

/// General category `Cc`, which `char::is_control` tests.
pub open spec fn is_control_char(c: char) -> bool {
    let u = c as u32;
    u <= 0x1f || (0x7f <= u && u <= 0x9f)
}

/// Whether the character has the `White_Space` property (what
/// `char::is_whitespace` tests).
pub fn char_is_whitespace(c: char) -> (r: bool)
    ensures
        r == is_whitespace_char(c),
{
    let u = c as u32;
    u == 0x20 || (0x09 <= u && u <= 0x0d) || u == 0x85 || u == 0xa0 || u == 0x1680 || (0x2000 <= u && u
        <= 0x200a) || u == 0x2028 || u == 0x2029 || u == 0x202f || u == 0x205f || u == 0x3000
}

/// Whether the character is in general category `Cc` (what
/// `char::is_control` tests).
pub fn char_is_control(c: char) -> (r: bool)
    ensures
        r == is_control_char(c),
{
    let u = c as u32;
    u <= 0x1f || (0x7f <= u && u <= 0x9f)
}

/// Tabs, spaces and the other `White_Space` characters count as whitespace
/// (so a tab indents like a space); letters, digits and punctuation do not.
pub proof fn lemma_whitespace_chars()
    ensures
        all_whitespace(seq!['\t']),
        all_whitespace(seq![' ']),
        all_whitespace(seq!['\t', ' ', '\u{a0}']),
        forall|c: char| ('a' <= c <= 'z' || 'A' <= c <= 'Z' || '0' <= c <= '9') ==> !#[trigger] is_whitespace_char(c),
        !all_whitespace(seq!['a']),
        !all_whitespace(seq!['\t', 'x']),
{
    assert(!is_whitespace_char('a'));
    assert(seq!['a'][0] == 'a');
    assert(seq!['\t', 'x'][1] == 'x');
    assert(!is_whitespace_char('x'));
}

/// Whether a character sequence consists of whitespace only (what `str::trim`
/// leaves empty).
pub open spec fn all_whitespace(s: Seq<char>) -> bool {
    forall|i: int| 0 <= i < s.len() ==> is_whitespace_char(#[trigger] s[i])
}

/// Whether a string slice is empty after trimming whitespace.
pub fn is_blank(s: &str) -> (r: bool)
    ensures
        r == all_whitespace(s@),
{
    let mut r = true;
    for c in it: s.chars()
        invariant
            it.seq() == s@,
            r == all_whitespace(s@.take(it.index() as int)),
    {
        let ghost k = it.index() as int;
        assert(s@.take(k + 1) =~= s@.take(k).push(c));
        if !char_is_whitespace(c) {
            r = false;
        }
        assert(r == all_whitespace(s@.take(k + 1))) by {
            if r {
                assert forall|i: int| 0 <= i < k + 1 implies is_whitespace_char(
                    #[trigger] s@.take(k + 1)[i],
                ) by {
                    if i < k {
                        assert(s@.take(k + 1)[i] == s@.take(k)[i]);
                    }
                }
            } else {
                if !is_whitespace_char(c) {
                    assert(s@.take(k + 1)[k] == c);
                } else {
                    let i = choose|i: int| 0 <= i < k && !is_whitespace_char(s@.take(k)[i]);
                    assert(s@.take(k + 1)[i] == s@.take(k)[i]);
                }
            }
        }
    }
    assert(s@.take(s@.len() as int) =~= s@);
    r
}

// ---------------------------------------------------------------------------
// Grapheme clusters and display width
// ---------------------------------------------------------------------------

/// The extended grapheme clusters of a character sequence (UAX #29), as
/// `unicode_segmentation` computes them.
pub uninterp spec fn grapheme_clusters(s: Seq<char>) -> Seq<Seq<char>>;

/// The displayed width in columns of a character sequence, as
/// `unicode_width::UnicodeWidthStr::width` computes it.
pub uninterp spec fn display_width(s: Seq<char>) -> usize;

/// The texts of a list of (byte offset, text) pairs.
pub open spec fn pair_texts(v: Seq<(usize, String)>) -> Seq<Seq<char>> {
    v.map_values(|p: (usize, String)| p.1@)
}

/// `UnicodeSegmentation::grapheme_indices(s, true)`: the extended grapheme
/// clusters of `s` with their byte offsets. The clusters are non-empty, follow
/// each other without gap (each starts at the byte where the previous ended,
/// the first at zero) and together make up `s`; which clusters they are is
/// left to the name `grapheme_clusters`.
#[verifier::external_body]
pub fn grapheme_indices(s: &str) -> (res: Vec<(usize, String)>)
    ensures
        pair_texts(res@) == grapheme_clusters(s@),
        pair_texts(res@).flatten() == s@,
        forall|i: int| 0 <= i < res@.len() ==> (#[trigger] res@[i]).1@.len() > 0,
        forall|i: int|
            0 <= i < res@.len() ==> (#[trigger] res@[i]).0 == utf8_len(
                pair_texts(res@).take(i).flatten(),
            ),
{
    s.grapheme_indices(true).map(|(i, g)| (i, g.to_string())).collect()
}

/// `UnicodeWidthStr::width`: the displayed width of `s` in columns.
#[verifier::external_body]
pub fn str_width(s: &str) -> (w: usize)
    ensures
        w == display_width(s@),
{
    s.width()
}

// ---------------------------------------------------------------------------
// Small string helpers
// ---------------------------------------------------------------------------

/// `String::push`: appends one character.
#[verifier::external_body]
pub fn push_char(s: &mut String, c: char)
    ensures
        final(s)@ == old(s)@.push(c),
{
    s.push(c);
}

/// A string holding characters `[a, b)` of `cs`.
pub fn string_from_chars(cs: &[char], a: usize, b: usize) -> (res: String)
    requires
        a <= b <= cs@.len(),
    ensures
        res@ == cs@.subrange(a as int, b as int),
{
    let mut res = String::new();
    let mut i: usize = a;
    while i < b
        invariant
            a <= i <= b <= cs@.len(),
            res@ == cs@.subrange(a as int, i as int),
        decreases b - i,
    {
        assert(cs@.subrange(a as int, i + 1) =~= cs@.subrange(a as int, i as int).push(cs@[i as int]));
        push_char(&mut res, cs[i]);
        i = i + 1;
    }
    res
}

/// Collects the characters of a string slice.
pub fn chars_of(s: &str) -> (res: Vec<char>)
    ensures
        res@ == s@,
{
    let mut res: Vec<char> = Vec::new();
    for c in it: s.chars()
        invariant
            it.seq() == s@,
            res@ == s@.take(it.index() as int),
    {
        assert(s@.take(it.index() + 1) =~= s@.take(it.index() as int).push(c));
        res.push(c);
    }
    assert(s@.take(s@.len() as int) =~= s@);
    res
}

/// A copy of a string slice.
pub fn copy_str(s: &str) -> (res: String)
    ensures
        res@ == s@,
{
    let cs = chars_of(s);
    let r = string_from_chars(cs.as_slice(), 0, cs.len());
    assert(cs@.subrange(0, cs@.len() as int) =~= cs@);
    r
}


// ---------------------------------------------------------------------------
// Splitting and decimal formatting
// ---------------------------------------------------------------------------

/// The pieces of `s` between occurrences of `sep` (as `str::split` yields
/// them: an empty text gives one empty piece).
pub open spec fn split_chars(s: Seq<char>, sep: char) -> Seq<Seq<char>>
    decreases s.len(),
{
    if s.len() == 0 {
        seq![Seq::<char>::empty()]
    } else {
        let r = split_chars(s.drop_last(), sep);
        if s.last() == sep {
            r.push(Seq::<char>::empty())
        } else {
            r.update(r.len() - 1, r.last().push(s.last()))
        }
    }
}

pub proof fn lemma_split_chars_nonempty(s: Seq<char>, sep: char)
    ensures
        split_chars(s, sep).len() >= 1,
        split_chars(s, sep).len() <= s.len() + 1,
    decreases s.len(),
{
    if s.len() > 0 {
        lemma_split_chars_nonempty(s.drop_last(), sep);
    }
}

/// Appending text without `sep` extends the last piece.
proof fn lemma_split_chars_append(x: Seq<char>, y: Seq<char>, sep: char)
    requires
        !y.contains(sep),
    ensures
        split_chars(x + y, sep) == split_chars(x, sep).update(
            split_chars(x, sep).len() - 1,
            split_chars(x, sep).last() + y,
        ),
    decreases y.len(),
{
    lemma_split_chars_nonempty(x, sep);
    let r = split_chars(x, sep);
    if y.len() == 0 {
        assert(x + y =~= x);
        assert(r.last() + y =~= r.last());
        assert(r.update(r.len() - 1, r.last() + y) =~= r);
    } else {
        let y0 = y.drop_last();
        assert(!y0.contains(sep)) by {
            if y0.contains(sep) {
                let i = choose|i: int| 0 <= i < y0.len() && y0[i] == sep;
                assert(y[i] == sep);
            }
        }
        lemma_split_chars_append(x, y0, sep);
        assert((x + y).drop_last() =~= x + y0);
        assert((x + y).last() == y.last());
        assert(y.last() != sep) by {
            assert(y[y.len() - 1] == y.last());
        }
        let r1 = r.update(r.len() - 1, r.last() + y0);
        assert(r1.last() == r.last() + y0);
        assert((r.last() + y0).push(y.last()) =~= r.last() + y);
        assert(r1.update(r1.len() - 1, r1.last().push(y.last())) =~= r.update(r.len() - 1, r.last() + y));
    }
}

/// When no part holds a newline, splitting the parts joined with newlines
/// (as `Buffer::as_string` joins a buffer's lines) at the newlines gives the
/// parts back.
pub proof fn lemma_split_joined_lines(parts: Seq<Seq<char>>)
    requires
        parts.len() > 0,
        forall|i: int| 0 <= i < parts.len() ==> !(#[trigger] parts[i]).contains('\n'),
    ensures
        split_chars(join_newline(parts), '\n') == parts,
    decreases parts.len(),
{
    if parts.len() == 1 {
        lemma_split_chars_append(Seq::empty(), parts[0], '\n');
        assert(Seq::<char>::empty() + parts[0] =~= parts[0]);
        assert(split_chars(Seq::<char>::empty(), '\n').update(0, Seq::<char>::empty() + parts[0]) =~= parts);
    } else {
        let init = parts.drop_last();
        assert forall|i: int| 0 <= i < init.len() implies !(#[trigger] init[i]).contains('\n') by {
            assert(init[i] == parts[i]);
        }
        lemma_split_joined_lines(init);
        let j = join_newline(init);
        let x = j + seq!['\n'];
        assert(x.drop_last() =~= j);
        assert(split_chars(x, '\n') == split_chars(j, '\n').push(Seq::<char>::empty()));
        assert(parts.last() == parts[parts.len() - 1]);
        lemma_split_chars_append(x, parts.last(), '\n');
        assert(Seq::<char>::empty() + parts.last() =~= parts.last());
        assert(init.push(Seq::<char>::empty()).update(init.len() as int, Seq::<char>::empty() + parts.last()) =~= parts);
    }
}

/// No piece of `split_chars(s, sep)` holds `sep`.
proof fn lemma_split_chars_pieces(s: Seq<char>, sep: char)
    ensures
        forall|i: int| 0 <= i < split_chars(s, sep).len() ==> !(#[trigger] split_chars(s, sep)[i]).contains(sep),
    decreases s.len(),
{
    if s.len() > 0 {
        lemma_split_chars_pieces(s.drop_last(), sep);
        lemma_split_chars_nonempty(s.drop_last(), sep);
        let r = split_chars(s.drop_last(), sep);
        if s.last() == sep {
            assert forall|i: int| 0 <= i < r.push(Seq::<char>::empty()).len() implies !(
            #[trigger] r.push(Seq::<char>::empty())[i]).contains(sep) by {
                if i < r.len() {
                    assert(r.push(Seq::<char>::empty())[i] == r[i]);
                }
            }
        } else {
            let q = r.last().push(s.last());
            assert forall|i: int| 0 <= i < r.update(r.len() - 1, q).len() implies !(#[trigger] r.update(
                r.len() - 1,
                q,
            )[i]).contains(sep) by {
                if i < r.len() - 1 {
                    assert(r.update(r.len() - 1, q)[i] == r[i]);
                } else {
                    assert(r.last() == r[r.len() - 1]);
                    if q.contains(sep) {
                        let k = choose|k: int| 0 <= k < q.len() && q[k] == sep;
                        if k < r.last().len() {
                            assert(r.last()[k] == sep);
                        }
                    }
                }
            }
        }
    }
}

/// No line of `text_lines(s)` holds a line break.
pub proof fn lemma_text_lines_single(s: Seq<char>)
    ensures
        forall|i: int| 0 <= i < text_lines(s).len() ==> !(#[trigger] text_lines(s)[i]).contains('\n'),
{
    let ps = split_chars(s, '\n');
    lemma_split_chars_pieces(s, '\n');
    let n = ps.len();
    if n > 0 {
        let init = ps.drop_last().map_values(|p: Seq<char>| strip_cr(p));
        assert forall|i: int| 0 <= i < init.len() implies !(#[trigger] init[i]).contains('\n') by {
            let p = ps[i];
            assert(ps.drop_last()[i] == p);
            assert(!p.contains('\n'));
            if strip_cr(p).contains('\n') {
                let k = choose|k: int| 0 <= k < strip_cr(p).len() && strip_cr(p)[k] == '\n';
                assert(p[k] == '\n');
            }
        }
        if ps[n - 1].len() != 0 {
            let all = init.push(ps[n - 1]);
            assert forall|i: int| 0 <= i < all.len() implies !(#[trigger] all[i]).contains('\n') by {
                if i < init.len() {
                    assert(all[i] == init[i]);
                }
            }
        }
    }
}

/// The pieces of `s` between occurrences of `sep`.
pub fn split_on(s: &str, sep: char) -> (res: Vec<String>)
    ensures
        res@.map_values(|p: String| p@) == split_chars(s@, sep),
{
    let mut res: Vec<String> = Vec::new();
    res.push(String::new());
    assert(res@.map_values(|p: String| p@) =~= split_chars(s@.take(0), sep));
    for c in it: s.chars()
        invariant
            it.seq() == s@,
            res@.len() >= 1,
            res@.map_values(|p: String| p@) == split_chars(s@.take(it.index() as int), sep),
    {
        let ghost k = it.index() as int;
        let ghost old_res = res@;
        assert(s@.take(k + 1).drop_last() =~= s@.take(k));
        assert(s@.take(k + 1).last() == c);
        if c == sep {
            res.push(String::new());
            assert(res@.map_values(|p: String| p@) =~= old_res.map_values(|p: String| p@).push(
                Seq::<char>::empty(),
            ));
        } else {
            let last = res.len() - 1;
            let mut piece = res.remove(last);
            push_char(&mut piece, c);
            res.push(piece);
            assert(res@.map_values(|p: String| p@) =~= old_res.map_values(|p: String| p@).update(
                last as int,
                old_res[last as int]@.push(c),
            ));
        }
    }
    assert(s@.take(s@.len() as int) =~= s@);
    res
}

pub open spec fn digit_char(d: nat) -> char {
    ((48 + d) as u8) as char
}

/// The decimal representation of `n`.
pub open spec fn decimal(n: nat) -> Seq<char>
    decreases n,
{
    if n < 10 {
        seq![digit_char(n)]
    } else {
        decimal(n / 10).push(digit_char(n % 10))
    }
}

/// The decimal representation of `n` (what `format!("{}", n)` writes).
pub fn usize_to_string(n: usize) -> (s: String)
    ensures
        s@ == decimal(n as nat),
{
    let mut digits: Vec<char> = Vec::new();
    let mut m = n;
    // digits holds the decimal digits of n below those of m, lowest first
    while m >= 10
        invariant
            decimal(n as nat) == decimal(m as nat) + digits@.reverse(),
        decreases m,
    {
        let d = (m % 10) as u8;
        let ghost old_digits = digits@;
        digits.push((48u8 + d) as char);
        proof {
            assert(decimal(m as nat) == decimal((m / 10) as nat).push(digit_char((m % 10) as nat)));
            assert(digits@.reverse() =~= seq![digit_char((m % 10) as nat)] + old_digits.reverse());
            assert(decimal((m / 10) as nat).push(digit_char((m % 10) as nat)) + old_digits.reverse()
                =~= decimal((m / 10) as nat) + digits@.reverse());
        }
        m = m / 10;
    }
    let d = m as u8;
    digits.push((48u8 + d) as char);
    let mut s = String::new();
    let mut i = digits.len();
    proof {
        assert(decimal(m as nat) =~= seq![digit_char(m as nat)]);
        assert(digits@.reverse().take(0) =~= Seq::<char>::empty());
    }
    while i > 0
        invariant
            i <= digits@.len(),
            s@ == digits@.reverse().take((digits@.len() - i) as int),
        decreases i,
    {
        i = i - 1;
        let ghost k = (digits@.len() - i - 1) as int;
        assert(digits@.reverse().take(k + 1) =~= digits@.reverse().take(k).push(digits@[i as int]));
        push_char(&mut s, digits[i]);
    }
    assert(digits@.reverse().take(digits@.len() as int) =~= digits@.reverse());
    assert(digits@.reverse() =~= decimal(n as nat));
    s
}

/// Texts joined with a newline between each two.
pub open spec fn join_newline(parts: Seq<Seq<char>>) -> Seq<char>
    decreases parts.len(),
{
    if parts.len() == 0 {
        Seq::empty()
    } else if parts.len() == 1 {
        parts[0]
    } else {
        join_newline(parts.drop_last()) + seq!['\n'] + parts.last()
    }
}

/// Texts each followed by a newline.
pub open spec fn terminate_lines(parts: Seq<Seq<char>>) -> Seq<char>
    decreases parts.len(),
{
    if parts.len() == 0 {
        Seq::empty()
    } else {
        terminate_lines(parts.drop_last()) + parts.last() + seq!['\n']
    }
}

/// `s` without one trailing carriage return.
pub open spec fn strip_cr(s: Seq<char>) -> Seq<char> {
    if s.len() > 0 && s.last() == '\r' {
        s.drop_last()
    } else {
        s
    }
}

/// The lines of `s` as `str::lines` gives them: split at "\n" or "\r\n", the
/// final line ending optional, a lone "\r" kept.
pub open spec fn text_lines(s: Seq<char>) -> Seq<Seq<char>> {
    let ps = split_chars(s, '\n');
    let n = ps.len();
    if n == 0 {
        Seq::empty()
    } else if ps[n - 1].len() == 0 {
        ps.drop_last().map_values(|p: Seq<char>| strip_cr(p))
    } else {
        ps.drop_last().map_values(|p: Seq<char>| strip_cr(p)).push(ps[n - 1])
    }
}

/// `parts` joined with newlines.
pub fn join_with_newlines(parts: &Vec<String>) -> (s: String)
    ensures
        s@ == join_newline(parts@.map_values(|p: String| p@)),
{
    let ghost ps = parts@.map_values(|p: String| p@);
    let mut s = String::new();
    let mut i: usize = 0;
    assert(ps.take(0) =~= Seq::<Seq<char>>::empty());
    while i < parts.len()
        invariant
            ps == parts@.map_values(|p: String| p@),
            i <= parts@.len(),
            s@ == join_newline(ps.take(i as int)),
        decreases parts@.len() - i,
    {
        assert(ps.take(i + 1).drop_last() =~= ps.take(i as int));
        assert(ps.take(i + 1).last() == parts@[i as int]@);
        if i > 0 {
            push_char(&mut s, '\n');
        } else {
            assert(s@ =~= Seq::<char>::empty());
        }
        s.append(parts[i].as_str());
        proof {
            if i == 0 {
                assert(s@ =~= ps.take(1)[0]);
            }
        }
        i = i + 1;
    }
    assert(ps.take(parts@.len() as int) =~= ps);
    s
}

/// The lines of `s`, as `text_lines` describes.
pub fn lines_of(s: &str) -> (res: Vec<String>)
    ensures
        res@.map_values(|p: String| p@) == text_lines(s@),
{
    let pieces = split_on(s, '\n');
    let ghost ps = pieces@.map_values(|p: String| p@);
    let n = pieces.len();
    proof {
        lemma_split_chars_nonempty(s@, '\n');
    }
    let mut res: Vec<String> = Vec::new();
    let mut i: usize = 0;
    while i + 1 < n
        invariant
            ps == pieces@.map_values(|p: String| p@),
            ps == split_chars(s@, '\n'),
            n == ps.len(),
            n >= 1,
            i < n,
            res@.map_values(|p: String| p@) == ps.take(i as int).map_values(|p: Seq<char>| strip_cr(p)),
        decreases n - i,
    {
        let cs = chars_of(pieces[i].as_str());
        let k = cs.len();
        let line = if k > 0 && cs[k - 1] == '\r' {
            string_from_chars(cs.as_slice(), 0, k - 1)
        } else {
            string_from_chars(cs.as_slice(), 0, k)
        };
        proof {
            assert(cs@.subrange(0, k as int) =~= cs@);
            if k > 0 {
                assert(cs@.subrange(0, k - 1) =~= cs@.drop_last());
            }
            assert(line@ == strip_cr(ps[i as int]));
        }
        let ghost old_res = res@;
        res.push(line);
        assert(res@.map_values(|p: String| p@) =~= old_res.map_values(|p: String| p@).push(line@));
        assert(ps.take(i + 1).map_values(|p: Seq<char>| strip_cr(p)) =~= ps.take(i as int).map_values(
            |p: Seq<char>| strip_cr(p),
        ).push(strip_cr(ps[i as int])));
        i = i + 1;
    }
    assert(ps.take((n - 1) as int) =~= ps.drop_last());
    let last = pieces[n - 1].as_str();
    if !last.is_empty() {
        let ghost old_res = res@;
        res.push(copy_str(last));
        assert(res@.map_values(|p: String| p@) =~= old_res.map_values(|p: String| p@).push(ps[n - 1]));
    }
    res
}

/// The characters of each string.
pub open spec fn strings_view(v: Seq<String>) -> Seq<Seq<char>> {
    v.map_values(|s: String| s@)
}

/// Whether two string slices hold the same characters.
pub fn str_eq(a: &str, b: &str) -> (r: bool)
    ensures
        r == (a@ == b@),
{
    let x = chars_of(a);
    let y = chars_of(b);
    if x.len() != y.len() {
        return false;
    }
    let mut i: usize = 0;
    while i < x.len()
        invariant
            x@ == a@,
            y@ == b@,
            x@.len() == y@.len(),
            i <= x@.len(),
            forall|j: int| 0 <= j < i ==> #[trigger] x@[j] == y@[j],
        decreases x@.len() - i,
    {
        if x[i] != y[i] {
            return false;
        }
        i = i + 1;
    }
    assert(x@ =~= y@);
    true
}

/// The complete words of `s` and the word being read at its end: words are
/// maximal runs of characters that are not whitespace.
pub open spec fn words_acc(s: Seq<char>) -> (Seq<Seq<char>>, Seq<char>)
    decreases s.len(),
{
    if s.len() == 0 {
        (Seq::empty(), Seq::empty())
    } else {
        let (ws, cur) = words_acc(s.drop_last());
        let c = s.last();
        if is_whitespace_char(c) {
            if cur.len() > 0 {
                (ws.push(cur), Seq::empty())
            } else {
                (ws, Seq::empty())
            }
        } else {
            (ws, cur.push(c))
        }
    }
}

/// The words of `s`, as `str::split_whitespace` gives them.
pub open spec fn words(s: Seq<char>) -> Seq<Seq<char>> {
    let (ws, cur) = words_acc(s);
    if cur.len() > 0 {
        ws.push(cur)
    } else {
        ws
    }
}

/// The words of `s`.
pub fn split_whitespace(s: &str) -> (res: Vec<String>)
    ensures
        strings_view(res@) == words(s@),
{
    let cs = chars_of(s);
    let mut ws: Vec<String> = Vec::new();
    let mut cur = String::new();
    let mut i: usize = 0;
    assert(s@.take(0) =~= Seq::<char>::empty());
    while i < cs.len()
        invariant
            cs@ == s@,
            i <= cs@.len(),
            (strings_view(ws@), cur@) == words_acc(s@.take(i as int)),
        decreases cs@.len() - i,
    {
        let c = cs[i];
        assert(s@.take(i + 1).drop_last() =~= s@.take(i as int));
        assert(s@.take(i + 1).last() == c);
        if char_is_whitespace(c) {
            if !cur.as_str().is_empty() {
                let ghost before = ws@;
                let ghost w = cur@;
                ws.push(cur);
                assert(strings_view(ws@) =~= strings_view(before).push(w));
                cur = String::new();
            } else {
                cur = String::new();
            }
        } else {
            push_char(&mut cur, c);
        }
        i = i + 1;
    }
    assert(s@.take(cs@.len() as int) =~= s@);
    if !cur.as_str().is_empty() {
        let ghost before = ws@;
        let ghost w = cur@;
        ws.push(cur);
        assert(strings_view(ws@) =~= strings_view(before).push(w));
    }
    ws
}

/// `n`, or `usize::MAX` if it is larger.
pub open spec fn sat_usize(n: nat) -> usize {
    if n <= usize::MAX {
        n as usize
    } else {
        usize::MAX
    }
}

/// The length of `s` in bytes, saturating at `usize::MAX`.
pub fn byte_len_sat(s: &str) -> (n: usize)
    ensures
        n == sat_usize(utf8_len(s@)),
{
    let cs = chars_of(s);
    let mut n: usize = 0;
    let mut i: usize = 0;
    assert(s@.take(0) =~= Seq::<char>::empty());
    while i < cs.len()
        invariant
            cs@ == s@,
            i <= cs@.len(),
            n == sat_usize(utf8_len(s@.take(i as int))),
        decreases cs@.len() - i,
    {
        let w = char_len_utf8(cs[i]);
        proof {
            assert(s@.take(i + 1) =~= s@.take(i as int) + seq![cs@[i as int]]);
            lemma_utf8_len_concat(s@.take(i as int), seq![cs@[i as int]]);
        }
        n = n.saturating_add(w);
        i = i + 1;
    }
    assert(s@.take(cs@.len() as int) =~= s@);
    n
}

/// `n` spaces.
pub open spec fn space_run(n: nat) -> Seq<char> {
    Seq::new(n, |i: int| ' ')
}

/// `s` followed by spaces up to `w` characters (as `format!("{:<w$}")` pads).
pub open spec fn pad_right(s: Seq<char>, w: nat) -> Seq<char> {
    if s.len() < w {
        s + space_run((w - s.len()) as nat)
    } else {
        s
    }
}

/// Appends spaces to `s` until it has `w` characters.
pub fn pad_string_right(s: &mut String, w: usize)
    ensures
        final(s)@ == pad_right(old(s)@, w as nat),
{
    let cs = chars_of(s.as_str());
    let n = cs.len();
    if n >= w {
        return;
    }
    let mut k: usize = n;
    while k < w
        invariant
            n <= k <= w,
            n == old(s)@.len(),
            s@ == old(s)@ + space_run((k - n) as nat),
        decreases w - k,
    {
        push_char(s, ' ');
        assert(old(s)@ + space_run((k + 1 - n) as nat) =~= (old(s)@ + space_run((k - n) as nat)).push(' '));
        k = k + 1;
    }
}

/// A decimal has at most one digit more than a tenth of the number.
pub proof fn lemma_decimal_len(n: nat)
    ensures
        decimal(n).len() <= n / 10 + 1,
    decreases n,
{
    if n >= 10 {
        lemma_decimal_len(n / 10);
    }
}

/// `s` after spaces up to `w` characters (as `format!("{:>w$}")` pads).
pub open spec fn pad_left(s: Seq<char>, w: nat) -> Seq<char> {
    if s.len() < w {
        space_run((w - s.len()) as nat) + s
    } else {
        s
    }
}

/// `s` right-aligned in `w` characters.
pub fn pad_string_left(s: &str, w: usize) -> (r: String)
    ensures
        r@ == pad_left(s@, w as nat),
{
    let cs = chars_of(s);
    let n = cs.len();
    let mut r = String::new();
    if n < w {
        let mut k: usize = 0;
        while k < w - n
            invariant
                n < w,
                k <= w - n,
                r@ == space_run(k as nat),
            decreases w - n - k,
        {
            push_char(&mut r, ' ');
            assert(space_run((k + 1) as nat) =~= space_run(k as nat).push(' '));
            k = k + 1;
        }
    }
    r.append(s);
    assert(r@ =~= pad_left(s@, w as nat));
    r
}

} // verus!
