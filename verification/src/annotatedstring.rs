//! A string with annotations over byte ranges of it, which stay attached to
//! the text they cover while parts of the string are replaced.
use vstd::prelude::*;

use crate::annotation::{Annotation, AnnotationType};
use crate::text::{
    char_len_utf8, chars_of, copy_str, lemma_utf8_len_concat, lemma_utf8_len_upper, push_char,
    string_from_chars, utf8_len,
};

verus! {

/// An annotated string holds at most this many characters, so that its
/// length in bytes fits in a `usize`.
pub open spec fn text_fits(s: Seq<char>) -> bool {
    s.len() <= usize::MAX / 4
}

/// The number of whole characters of `s` whose encoding ends at or before
/// byte `b`: a byte offset inside a character counts from that character's
/// start.
pub open spec fn char_index_floor(s: Seq<char>, b: nat) -> nat
    decreases s.len(),
{
    if s.len() == 0 {
        0
    } else {
        let w = utf8_len(seq![s[0]]);
        if w <= b {
            1 + char_index_floor(s.drop_first(), (b - w) as nat)
        } else {
            0
        }
    }
}

pub proof fn lemma_char_index_floor_bounds(s: Seq<char>, b: nat, c: nat)
    requires
        b <= c,
    ensures
        char_index_floor(s, b) <= s.len(),
        char_index_floor(s, b) <= char_index_floor(s, c),
    decreases s.len(),
{
    if s.len() > 0 {
        let w = utf8_len(seq![s[0]]);
        if w <= b {
            lemma_char_index_floor_bounds(s.drop_first(), (b - w) as nat, (c - w) as nat);
        } else if w <= c {
            lemma_char_index_floor_bounds(s.drop_first(), 0, (c - w) as nat);
        }
    }
}

/// The byte range `[start, end)` of `t`, with `end` cut to the length of
/// `t`, replaced by `new`; nothing changes when `start` lies after that end.
pub open spec fn replaced_text(t: Seq<char>, start: nat, end: nat, new: Seq<char>) -> Seq<char> {
    let e = if end <= utf8_len(t) { end } else { utf8_len(t) };
    if start > e {
        t
    } else {
        t.take(char_index_floor(t, start) as int) + new + t.skip(char_index_floor(t, e) as int)
    }
}

/// Where a byte offset `p` lands when `[start, e)` is replaced by `new_len`
/// bytes: offsets behind the range move with the text after it, offsets in
/// the range stay within the new text, offsets before it stay.
pub open spec fn shifted_offset(p: usize, start: nat, e: nat, new_len: nat) -> usize {
    if p >= e {
        let q = p - (e - start) + new_len;
        if q <= usize::MAX {
            q as usize
        } else {
            usize::MAX
        }
    } else if p >= start {
        (start + if p - start <= new_len { (p - start) as nat } else { new_len }) as usize
    } else {
        p
    }
}

pub open spec fn shifted_annotation(a: Annotation, start: nat, e: nat, new_len: nat) -> Annotation {
    Annotation {
        annotation_type: a.annotation_type,
        start: shifted_offset(a.start, start, e, new_len),
        end: shifted_offset(a.end, start, e, new_len),
    }
}

/// An annotation is kept when it covers at least one byte of the text.
pub open spec fn annotation_kept(a: Annotation, text_len: nat) -> bool {
    a.start < a.end && a.start < text_len
}

/// Each annotation moved with the text, in order, keeping those that still
/// cover a byte of a text of `total` bytes.
pub open spec fn adjusted_annotations(
    anns: Seq<Annotation>,
    start: nat,
    e: nat,
    new_len: nat,
    total: nat,
) -> Seq<Annotation>
    decreases anns.len(),
{
    if anns.len() == 0 {
        Seq::empty()
    } else {
        let rest = adjusted_annotations(anns.drop_last(), start, e, new_len, total);
        let b = shifted_annotation(anns.last(), start, e, new_len);
        if annotation_kept(b, total) {
            rest.push(b)
        } else {
            rest
        }
    }
}

/// The annotations after replacing the byte range `[start, end)` of `t` by `new`.
pub open spec fn replaced_annotations(
    anns: Seq<Annotation>,
    t: Seq<char>,
    start: nat,
    end: nat,
    new: Seq<char>,
) -> Seq<Annotation> {
    let e = if end <= utf8_len(t) { end } else { utf8_len(t) };
    if start > e {
        anns
    } else {
        adjusted_annotations(anns, start, e, utf8_len(new), utf8_len(replaced_text(t, start, end, new)))
    }
}

/// A string and its annotations, as values.
pub type AnnotatedView = (Seq<char>, Seq<Annotation>);

/// `v` after replacing its byte range `[start, end)` by `new`.
pub open spec fn replaced(v: AnnotatedView, start: nat, end: nat, new: Seq<char>) -> AnnotatedView {
    (replaced_text(v.0, start, end, new), replaced_annotations(v.1, v.0, start, end, new))
}

/// Annotations given relative to byte `base`, made absolute.
pub open spec fn offset_annotations(extra: Seq<(AnnotationType, usize, usize)>, base: nat) -> Seq<
    Annotation,
>
    decreases extra.len(),
{
    if extra.len() == 0 {
        Seq::empty()
    } else {
        let (t, a, b) = extra.last();
        offset_annotations(extra.drop_last(), base).push(
            Annotation { annotation_type: t, start: (base + a) as usize, end: (base + b) as usize },
        )
    }
}

pub proof fn lemma_replaced_text_len(t: Seq<char>, start: nat, end: nat, new: Seq<char>)
    ensures
        replaced_text(t, start, end, new).len() <= t.len() + new.len(),
{
    let e = if end <= utf8_len(t) { end } else { utf8_len(t) };
    if start <= e {
        lemma_char_index_floor_bounds(t, start, e);
        lemma_char_index_floor_bounds(t, e, e);
    }
}

/// A string with annotated byte ranges.
pub struct AnnotatedString {
    string: String,
    annotations: Vec<Annotation>,
}

impl AnnotatedString {
    /// The characters of the string.
    pub closed spec fn text(&self) -> Seq<char> {
        self.string@
    }

    /// The annotations, in the order they were added.
    pub closed spec fn annotations_view(&self) -> Seq<Annotation> {
        self.annotations@
    }

    /// The string and its annotations.
    pub open spec fn view_pair(&self) -> AnnotatedView {
        (self.text(), self.annotations_view())
    }

    pub open spec fn wf(&self) -> bool {
        text_fits(self.text())
    }

    /// An empty string without annotations.
    pub fn new() -> (r: Self)
        ensures
            r.wf(),
            r.text().len() == 0,
            r.annotations_view().len() == 0,
    {
        AnnotatedString { string: String::new(), annotations: Vec::new() }
    }

    /// The string `s` without annotations.
    pub fn from(s: &str) -> (r: Self)
        requires
            text_fits(s@),
        ensures
            r.wf(),
            r.text() == s@,
            r.annotations_view().len() == 0,
    {
        AnnotatedString { string: copy_str(s), annotations: Vec::new() }
    }

    /// Annotates the byte range `[start, end)`.
    pub fn add_annotation(&mut self, annotation_type: AnnotationType, start: usize, end: usize)
        ensures
            final(self).text() == old(self).text(),
            final(self).annotations_view() == old(self).annotations_view().push(
                Annotation { annotation_type, start, end },
            ),
    {
        self.annotations.push(Annotation { annotation_type, start, end });
    }

    /// The string's characters.
    pub fn to_string(&self) -> (s: String)
        ensures
            s@ == self.text(),
    {
        copy_str(self.string.as_str())
    }

    /// The string as a slice.
    pub fn as_str(&self) -> (s: &str)
        ensures
            s@ == self.text(),
    {
        self.string.as_str()
    }

    /// The annotations.
    pub fn annotations(&self) -> (r: &Vec<Annotation>)
        ensures
            r@ == self.annotations_view(),
    {
        &self.annotations
    }

    /// Replaces the byte range `[start, end)` (with `end` cut to the length of
    /// the string) by `new_string`, and moves the annotations with the text;
    /// annotations left without text are dropped.
    pub fn replace(&mut self, start: usize, end: usize, new_string: &str)
        requires
            old(self).text().len() + new_string@.len() <= usize::MAX / 4,
        ensures
            final(self).text() == replaced_text(old(self).text(), start as nat, end as nat, new_string@),
            final(self).annotations_view() == replaced_annotations(
                old(self).annotations_view(),
                old(self).text(),
                start as nat,
                end as nat,
                new_string@,
            ),
            final(self).wf(),
    {
        proof {
            lemma_utf8_len_upper(self.string@);
            lemma_utf8_len_upper(new_string@);
            lemma_replaced_text_len(self.string@, start as nat, end as nat, new_string@);
        }
        let ghost t = self.string@;
        let len = self.string.as_str().len();
        let e = if end <= len { end } else { len };
        if start > e {
            return;
        }
        let cs = chars_of(self.string.as_str());
        let ka = floor_char_index(&cs, start);
        let kb = floor_char_index(&cs, e);
        proof {
            lemma_char_index_floor_bounds(t, start as nat, e as nat);
            lemma_char_index_floor_bounds(t, e as nat, e as nat);
        }
        let mut s = string_from_chars(cs.as_slice(), 0, ka);
        let ns = chars_of(new_string);
        let mut i: usize = 0;
        while i < ns.len()
            invariant
                i <= ns@.len(),
                ns@ == new_string@,
                s@ == cs@.subrange(0, ka as int) + ns@.take(i as int),
            decreases ns@.len() - i,
        {
            assert(ns@.take(i + 1) =~= ns@.take(i as int).push(ns@[i as int]));
            push_char(&mut s, ns[i]);
            i = i + 1;
        }
        let mut j: usize = kb;
        while j < cs.len()
            invariant
                kb <= j <= cs@.len(),
                cs@ == t,
                s@ == cs@.subrange(0, ka as int) + ns@ + cs@.subrange(kb as int, j as int),
            decreases cs@.len() - j,
        {
            assert(cs@.subrange(kb as int, j + 1) =~= cs@.subrange(kb as int, j as int).push(cs@[j as int]));
            push_char(&mut s, cs[j]);
            j = j + 1;
        }
        assert(ns@.take(ns@.len() as int) =~= ns@);
        assert(s@ =~= replaced_text(t, start as nat, end as nat, new_string@));
        let new_len = new_string.len();
        proof {
            lemma_utf8_len_upper(s@);
            assert(e + new_len <= usize::MAX);
        }
        let total = s.as_str().len();
        let mut anns: Vec<Annotation> = Vec::new();
        let mut k: usize = 0;
        while k < self.annotations.len()
            invariant
                k <= self.annotations@.len(),
                e <= len,
                start <= e,
                e + new_len <= usize::MAX,
                anns@ == adjusted_annotations(
                    self.annotations@.take(k as int),
                    start as nat,
                    e as nat,
                    new_len as nat,
                    total as nat,
                ),
            decreases self.annotations@.len() - k,
        {
            let a = self.annotations[k];
            let a_start = shift_offset(a.start, start, e, new_len);
            let a_end = shift_offset(a.end, start, e, new_len);
            let b = Annotation { annotation_type: a.annotation_type, start: a_start, end: a_end };
            assert(self.annotations@.take(k + 1).drop_last() =~= self.annotations@.take(k as int));
            if a_start < a_end && a_start < total {
                anns.push(b);
            }
            k = k + 1;
        }
        assert(self.annotations@.take(self.annotations@.len() as int) =~= self.annotations@);
        self.string = s;
        self.annotations = anns;
    }

    /// Removes the bytes before `until`.
    pub fn truncate_left_until(&mut self, until: usize)
        requires
            old(self).wf(),
        ensures
            final(self).text() == replaced_text(old(self).text(), 0, until as nat, Seq::empty()),
            final(self).annotations_view() == replaced_annotations(
                old(self).annotations_view(),
                old(self).text(),
                0,
                until as nat,
                Seq::empty(),
            ),
            final(self).wf(),
    {
        proof {
            reveal_strlit("");
        }
        self.replace(0, until, "");
    }

    /// Removes the bytes from `from` on.
    pub fn truncate_right_from(&mut self, from: usize)
        requires
            old(self).wf(),
        ensures
            final(self).text() == replaced_text(
                old(self).text(),
                from as nat,
                utf8_len(old(self).text()),
                Seq::empty(),
            ),
            final(self).annotations_view() == replaced_annotations(
                old(self).annotations_view(),
                old(self).text(),
                from as nat,
                utf8_len(old(self).text()),
                Seq::empty(),
            ),
            final(self).wf(),
    {
        proof {
            lemma_utf8_len_upper(self.string@);
        }
        let len = self.string.as_str().len();
        proof {
            reveal_strlit("");
        }
        self.replace(from, len, "");
    }
}

/// `shifted_offset` in executable form.
fn shift_offset(p: usize, start: usize, e: usize, new_len: usize) -> (r: usize)
    requires
        start <= e,
        e + new_len <= usize::MAX,
    ensures
        r == shifted_offset(p, start as nat, e as nat, new_len as nat),
{
    if p >= e {
        let q = p - (e - start);
        if q <= usize::MAX - new_len {
            q + new_len
        } else {
            usize::MAX
        }
    } else if p >= start {
        let d = p - start;
        if d <= new_len {
            p
        } else {
            start + new_len
        }
    } else {
        p
    }
}

/// `char_index_floor` in executable form.
pub fn floor_char_index(cs: &Vec<char>, b: usize) -> (r: usize)
    ensures
        r == char_index_floor(cs@, b as nat),
{
    let mut i: usize = 0;
    let mut acc: usize = 0;
    assert(cs@.skip(0) =~= cs@);
    while i < cs.len()
        invariant_except_break
            i <= cs@.len(),
            acc <= b,
            char_index_floor(cs@, b as nat) == i + char_index_floor(cs@.skip(i as int), (b - acc) as nat),
        ensures
            char_index_floor(cs@, b as nat) == i,
        decreases cs@.len() - i,
    {
        let w = char_len_utf8(cs[i]);
        assert(cs@.skip(i as int)[0] == cs@[i as int]);
        if w <= b - acc {
            assert(cs@.skip(i as int).drop_first() =~= cs@.skip(i + 1));
            acc = acc + w;
            i = i + 1;
        } else {
            break;
        }
    }
    i
}

} // verus!
