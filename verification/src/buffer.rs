//! The lines of a document, with undo and redo.
use vstd::prelude::*;

use crate::fileinfo::FileInfo;
use crate::line::{lemma_flatten_split, lemma_take_flatten_prefix, line_fits, splice_graphemes, Line};
use crate::prelude::{location_le, Location};

verus! {

/// Texts of a list of lines.
pub open spec fn texts(lines: Seq<Line>) -> Seq<Seq<char>> {
    lines.map_values(|l: Line| l@)
}

/// All lines are well formed.
pub open spec fn all_wf(lines: Seq<Line>) -> bool {
    forall|i: int| 0 <= i < lines.len() ==> (#[trigger] lines[i]).wf()
}

/// Characters of a text plus one per line.
pub open spec fn total_size(ls: Seq<Seq<char>>) -> nat
    decreases ls.len(),
{
    if ls.len() == 0 {
        0
    } else {
        total_size(ls.drop_last()) + ls.last().len() + 1
    }
}

/// No line holds a line break.
pub open spec fn single_lines(ls: Seq<Seq<char>>) -> bool {
    forall|i: int| 0 <= i < ls.len() ==> !(#[trigger] ls[i]).contains('\n')
}

/// A text small enough for every line built by joining its lines.
pub open spec fn text_fits(ls: Seq<Seq<char>>, extra: nat) -> bool {
    total_size(ls) + extra <= usize::MAX / 64
}

pub proof fn lemma_total_size_concat(a: Seq<Seq<char>>, b: Seq<Seq<char>>)
    ensures
        total_size(a + b) == total_size(a) + total_size(b),
    decreases b.len(),
{
    if b.len() == 0 {
        assert(a + b =~= a);
    } else {
        lemma_total_size_concat(a, b.drop_last());
        assert((a + b).drop_last() =~= a + b.drop_last());
    }
}

pub proof fn lemma_total_size_single(x: Seq<char>)
    ensures
        total_size(seq![x]) == x.len() + 1,
{
    assert(seq![x].drop_last() =~= Seq::<Seq<char>>::empty());
    assert(total_size(Seq::<Seq<char>>::empty()) == 0);
    assert(seq![x].last() == x);
    assert(total_size(seq![x]) == total_size(seq![x].drop_last()) + seq![x].last().len() + 1);
}

/// Sizes of a text with one line updated, inserted or removed.
pub proof fn lemma_total_size_edit(ls: Seq<Seq<char>>, i: int, x: Seq<char>)
    requires
        0 <= i < ls.len(),
    ensures
        total_size(ls) >= ls[i].len() + 1,
        total_size(ls.update(i, x)) + ls[i].len() == total_size(ls) + x.len(),
        total_size(ls.remove(i)) + ls[i].len() + 1 == total_size(ls),
        total_size(ls.insert(i, x)) == total_size(ls) + x.len() + 1,
        total_size(ls.push(x)) == total_size(ls) + x.len() + 1,
{
    let a = ls.take(i);
    let b = ls.skip(i + 1);
    assert(ls =~= a + seq![ls[i]] + b);
    assert(ls.update(i, x) =~= a + seq![x] + b);
    assert(ls.remove(i) =~= a + b);
    assert(ls.insert(i, x) =~= a + seq![x] + seq![ls[i]] + b);
    lemma_total_size_concat(a + seq![ls[i]], b);
    lemma_total_size_concat(a, seq![ls[i]]);
    lemma_total_size_concat(a + seq![x], b);
    lemma_total_size_concat(a, seq![x]);
    lemma_total_size_concat(a, b);
    lemma_total_size_concat(a + seq![x] + seq![ls[i]], b);
    lemma_total_size_concat(a + seq![x], seq![ls[i]]);
    lemma_total_size_single(x);
    lemma_total_size_single(ls[i]);
    assert(ls.push(x) =~= ls + seq![x]);
    lemma_total_size_concat(ls, seq![x]);
}

pub proof fn lemma_total_size_insert(ls: Seq<Seq<char>>, i: int, x: Seq<char>)
    requires
        0 <= i <= ls.len(),
    ensures
        total_size(ls.insert(i, x)) == total_size(ls) + x.len() + 1,
{
    if i < ls.len() {
        lemma_total_size_edit(ls, i, x);
    } else {
        assert(ls.insert(i, x) =~= ls.push(x));
        lemma_total_size_push(ls, x);
    }
}

pub proof fn lemma_total_size_push(ls: Seq<Seq<char>>, x: Seq<char>)
    ensures
        total_size(ls.push(x)) == total_size(ls) + x.len() + 1,
{
    assert(ls.push(x) =~= ls + seq![x]);
    lemma_total_size_concat(ls, seq![x]);
    lemma_total_size_single(x);
}

/// The texts of the lines before `remove(i)` of a vector.
pub proof fn lemma_texts_remove(lines: Seq<Line>, i: int)
    requires
        0 <= i < lines.len(),
    ensures
        texts(lines.remove(i)) == texts(lines).remove(i),
        texts(lines)[i] == lines[i]@,
{
    assert(texts(lines.remove(i)) =~= texts(lines).remove(i));
}

pub proof fn lemma_texts_insert(lines: Seq<Line>, i: int, l: Line)
    requires
        0 <= i <= lines.len(),
    ensures
        texts(lines.insert(i, l)) == texts(lines).insert(i, l@),
{
    assert(texts(lines.insert(i, l)) =~= texts(lines).insert(i, l@));
}

/// A copy of a list of lines.
pub fn clone_lines(lines: &Vec<Line>) -> (r: Vec<Line>)
    ensures
        texts(r@) == texts(lines@),
        all_wf(lines@) ==> all_wf(r@),
{
    let mut r: Vec<Line> = Vec::new();
    let mut i: usize = 0;
    while i < lines.len()
        invariant
            i <= lines@.len(),
            r@.len() == i,
            forall|j: int| 0 <= j < i ==> (#[trigger] r@[j])@ == lines@[j]@ && (lines@[j].wf() ==> r@[j].wf()),
        decreases lines@.len() - i,
    {
        r.push(lines[i].clone());
        i = i + 1;
    }
    assert(texts(r@) =~= texts(lines@));
    r
}

/// The text of a buffer with its undo and redo histories (the latest last).
#[verifier::ext_equal]
pub struct BufferState {
    pub lines: Seq<Seq<char>>,
    pub undo: Seq<Seq<Seq<char>>>,
    pub redo: Seq<Seq<Seq<char>>>,
}

/// After an edit to `lines`: the text before it is remembered for undo and
/// nothing is left to redo.
pub open spec fn edited(s: BufferState, lines: Seq<Seq<char>>) -> BufferState {
    BufferState { lines, undo: s.undo.push(s.lines), redo: Seq::empty() }
}

/// After an undo: back to the last remembered text, the current one kept for
/// redo; unchanged when there is nothing to undo.
pub open spec fn undone(s: BufferState) -> BufferState {
    if s.undo.len() > 0 {
        BufferState { lines: s.undo.last(), undo: s.undo.drop_last(), redo: s.redo.push(s.lines) }
    } else {
        s
    }
}

/// After a redo: forward to the last undone text, the current one kept for
/// undo; unchanged when there is nothing to redo.
pub open spec fn redone(s: BufferState) -> BufferState {
    if s.redo.len() > 0 {
        BufferState { lines: s.redo.last(), redo: s.redo.drop_last(), undo: s.undo.push(s.lines) }
    } else {
        s
    }
}

/// Undoing an edit gives back the text and the undo history from before it;
/// redoing then gives back the edited state exactly; after an edit there is
/// nothing to redo, so a redo changes nothing.
pub proof fn lemma_undo_redo_buffer_edit(s: BufferState, lines: Seq<Seq<char>>)
    ensures
        undone(edited(s, lines)).lines == s.lines,
        undone(edited(s, lines)).undo == s.undo,
        redone(undone(edited(s, lines))) == edited(s, lines),
        redone(edited(s, lines)) == edited(s, lines),
{
    assert(redone(undone(edited(s, lines))) =~= edited(s, lines));
}

/// The lines of a document, the file it belongs to, and the states that
/// undo and redo go back to.
pub struct Buffer {
    lines: Vec<Line>,
    file_info: FileInfo,
    undo_stack: Vec<Vec<Line>>,
    redo_stack: Vec<Vec<Line>>,
}

impl Default for Buffer {
    /// One empty line, no file, nothing to undo or redo.
    fn default() -> (r: Self)
        ensures
            r.wf(),
            r.lines_view() == seq![Seq::<char>::empty()],
            single_lines(r.lines_view()),
            r.undo_view().len() == 0,
            r.redo_view().len() == 0,
            r.info().path_view() is None,
            r.info().display_name_view() is None,
            r.info().file_type_view() == crate::filetype::FileType::Text,
    {
        let mut lines: Vec<Line> = Vec::new();
        lines.push(Line::default());
        proof {
            assert(texts(lines@) =~= seq![Seq::<char>::empty()]);
            assert(total_size(texts(lines@)) == 1) by {
                reveal_with_fuel(total_size, 2);
            }
        }
        Buffer::new_with_lines(lines, FileInfo::empty())
    }
}

impl Buffer {
    /// The texts of the lines.
    pub closed spec fn lines_view(&self) -> Seq<Seq<char>> {
        texts(self.lines@)
    }

    /// The states that undo goes back to, the latest last.
    pub closed spec fn undo_view(&self) -> Seq<Seq<Seq<char>>> {
        self.undo_stack@.map_values(|v: Vec<Line>| texts(v@))
    }

    /// The states that redo goes forward to, the next last.
    pub closed spec fn redo_view(&self) -> Seq<Seq<Seq<char>>> {
        self.redo_stack@.map_values(|v: Vec<Line>| texts(v@))
    }

    /// The text with its undo and redo histories.
    pub open spec fn state(&self) -> BufferState {
        BufferState { lines: self.lines_view(), undo: self.undo_view(), redo: self.redo_view() }
    }

    /// The file the buffer belongs to.
    pub closed spec fn info(&self) -> FileInfo {
        self.file_info
    }

    /// All lines, current and stored, are well formed and small enough.
    pub closed spec fn wf(&self) -> bool {
        &&& all_wf(self.lines@)
        &&& text_fits(self.lines_view(), 0)
        &&& forall|i: int| 0 <= i < self.undo_stack@.len() ==> all_wf(#[trigger] self.undo_stack@[i]@)
                && text_fits(texts(self.undo_stack@[i]@), 0)
        &&& forall|i: int| 0 <= i < self.redo_stack@.len() ==> all_wf(#[trigger] self.redo_stack@[i]@)
                && text_fits(texts(self.redo_stack@[i]@), 0)
    }

    /// A well-formed buffer's text is small enough.
    pub proof fn lemma_wf_fits(&self)
        requires
            self.wf(),
        ensures
            text_fits(self.lines_view(), 0),
    {
    }

    /// Number of graphemes of line `idx` (zero beyond the last line).
    pub open spec fn count_of(&self, idx: int) -> nat {
        if 0 <= idx < self.lines_view().len() {
            crate::text::grapheme_clusters(self.lines_view()[idx]).len()
        } else {
            0
        }
    }

    /// A buffer of `lines` for `file_info`, with nothing to undo or redo.
    pub fn new_with_lines(lines: Vec<Line>, file_info: FileInfo) -> (b: Self)
        requires
            all_wf(lines@),
            text_fits(texts(lines@), 0),
        ensures
            b.wf(),
            b.lines_view() == texts(lines@),
            b.undo_view().len() == 0,
            b.redo_view().len() == 0,
            b.info() == file_info,
    {
        let b = Buffer { lines, file_info, undo_stack: Vec::new(), redo_stack: Vec::new() };
        assert(b.undo_view() =~= Seq::<Seq<Seq<char>>>::empty());
        assert(b.redo_view() =~= Seq::<Seq<Seq<char>>>::empty());
        b
    }

    /// Whether there are changes since the buffer was loaded or saved.
    pub fn is_dirty(&self) -> (r: bool)
        ensures
            r == (self.undo_view().len() > 0),
    {
        !self.undo_stack.is_empty()
    }

    /// Whether there is a change to undo.
    pub fn can_undo(&self) -> (r: bool)
        ensures
            r == (self.undo_view().len() > 0),
    {
        !self.undo_stack.is_empty()
    }

    /// Whether there is a change to redo.
    pub fn can_redo(&self) -> (r: bool)
        ensures
            r == (self.redo_view().len() > 0),
    {
        !self.redo_stack.is_empty()
    }

    /// The file the buffer belongs to.
    pub fn get_file_info(&self) -> (r: &FileInfo)
        ensures
            *r == self.info(),
    {
        &self.file_info
    }

    /// Remembers the current lines for undo and forgets what could be redone.
    fn push_undo(&mut self)
        requires
            old(self).wf(),
        ensures
            final(self).wf(),
            final(self).lines_view() == old(self).lines_view(),
            final(self).undo_view() == old(self).undo_view().push(old(self).lines_view()),
            final(self).redo_view().len() == 0,
            final(self).state() == edited(old(self).state(), final(self).lines_view()),
            final(self).info() == old(self).info(),
            final(self).lines@ == old(self).lines@,
    {
        let copy = clone_lines(&self.lines);
        self.undo_stack.push(copy);
        self.redo_stack.clear();
        assert(self.undo_view() =~= old(self).undo_view().push(old(self).lines_view()));
        assert(self.redo_view() =~= Seq::<Seq<Seq<char>>>::empty());
    }

    /// Goes back to the state before the last change, if there is one; tells
    /// whether it did.
    pub fn undo(&mut self) -> (r: bool)
        requires
            old(self).wf(),
        ensures
            final(self).wf(),
            r == (old(self).undo_view().len() > 0),
            final(self).info() == old(self).info(),
            final(self).state() == undone(old(self).state()),
            r ==> final(self).lines_view() == old(self).undo_view().last()
                && final(self).undo_view() == old(self).undo_view().drop_last()
                && final(self).redo_view() == old(self).redo_view().push(old(self).lines_view()),
            !r ==> final(self).lines_view() == old(self).lines_view() && final(self).undo_view()
                == old(self).undo_view() && final(self).redo_view() == old(self).redo_view(),
    {
        if let Some(lines) = self.undo_stack.pop() {
            let copy = clone_lines(&self.lines);
            self.redo_stack.push(copy);
            self.lines = lines;
            assert(self.undo_view() =~= old(self).undo_view().drop_last());
            assert(self.redo_view() =~= old(self).redo_view().push(old(self).lines_view()));
            return true;
        }
        false
    }

    /// Goes forward to the state before the last undo, if there is one; tells
    /// whether it did.
    pub fn redo(&mut self) -> (r: bool)
        requires
            old(self).wf(),
        ensures
            final(self).wf(),
            r == (old(self).redo_view().len() > 0),
            final(self).info() == old(self).info(),
            final(self).state() == redone(old(self).state()),
            r ==> final(self).lines_view() == old(self).redo_view().last()
                && final(self).redo_view() == old(self).redo_view().drop_last()
                && final(self).undo_view() == old(self).undo_view().push(old(self).lines_view()),
            !r ==> final(self).lines_view() == old(self).lines_view() && final(self).undo_view()
                == old(self).undo_view() && final(self).redo_view() == old(self).redo_view(),
    {
        if let Some(lines) = self.redo_stack.pop() {
            let copy = clone_lines(&self.lines);
            self.undo_stack.push(copy);
            self.lines = lines;
            assert(self.redo_view() =~= old(self).redo_view().drop_last());
            assert(self.undo_view() =~= old(self).undo_view().push(old(self).lines_view()));
            return true;
        }
        false
    }

    /// Number of lines.
    pub fn height(&self) -> (h: usize)
        ensures
            h == self.lines_view().len(),
    {
        self.lines.len()
    }

    /// Line `idx`, if there is one.
    pub fn get_line(&self, idx: usize) -> (r: Option<&Line>)
        requires
            self.wf(),
        ensures
            match r {
                Some(l) => idx < self.lines_view().len() && l@ == self.lines_view()[idx as int]
                    && l.wf(),
                None => idx >= self.lines_view().len(),
            },
    {
        if idx < self.lines.len() {
            Some(&self.lines[idx])
        } else {
            None
        }
    }

    /// Number of graphemes of line `idx` (zero beyond the last line).
    pub fn grapheme_count(&self, idx: usize) -> (n: usize)
        requires
            self.wf(),
        ensures
            n == self.count_of(idx as int),
    {
        if idx < self.lines.len() {
            self.lines[idx].grapheme_count()
        } else {
            0
        }
    }

    /// The first non-whitespace grapheme of line `idx` (zero beyond the last line).
    pub fn first_non_whitespace_grapheme(&self, idx: usize) -> (n: usize)
        requires
            self.wf(),
        ensures
            n == (if idx < self.lines_view().len() {
                match crate::line::first_non_blank_from(
                    crate::text::grapheme_clusters(self.lines_view()[idx as int]),
                    0,
                ) {
                    Some(i) => i,
                    None => 0,
                }
            } else {
                0
            }),
    {
        if idx < self.lines.len() {
            self.lines[idx].first_non_whitespace_grapheme()
        } else {
            0
        }
    }

    /// The width of the first `until` graphemes of line `idx` (zero beyond the last line).
    pub fn width_until(&self, idx: usize, until: usize) -> (n: usize)
        requires
            self.wf(),
        ensures
            n == (if idx < self.lines_view().len() {
                crate::line::text_columns_until(self.lines_view()[idx as int], until as nat)
            } else {
                0
            }),
    {
        if idx < self.lines.len() {
            self.lines[idx].width_until(until)
        } else {
            0
        }
    }

    /// The grapheme of line `idx` at column `width` (zero beyond the last line).
    pub fn grapheme_at_width(&self, idx: usize, width: usize) -> (n: usize)
        requires
            self.wf(),
        ensures
            n == (if idx < self.lines_view().len() {
                crate::line::grapheme_at_column_from(
                    crate::text::grapheme_clusters(self.lines_view()[idx as int]),
                    width as nat,
                    0,
                )
            } else {
                0
            }),
    {
        if idx < self.lines.len() {
            self.lines[idx].grapheme_at_width(width)
        } else {
            0
        }
    }

    /// Whether the buffer belongs to a file on disk.
    pub fn is_file_loaded(&self) -> (r: bool)
        ensures
            r == self.info().path_view() is Some,
    {
        self.file_info.has_path()
    }
}


impl Buffer {
    /// Removes line `i` and hands it out.
    fn take_line(&mut self, i: usize) -> (line: Line)
        requires
            old(self).wf(),
            i < old(self).lines_view().len(),
        ensures
            final(self).wf(),
            line.wf(),
            line@ == old(self).lines_view()[i as int],
            final(self).lines_view() == old(self).lines_view().remove(i as int),
            final(self).undo_view() == old(self).undo_view(),
            final(self).redo_view() == old(self).redo_view(),
            final(self).info() == old(self).info(),
            total_size(final(self).lines_view()) + line@.len() + 1 == total_size(old(self).lines_view()),
    {
        let line = self.lines.remove(i);
        proof {
            lemma_texts_remove(old(self).lines@, i as int);
            lemma_total_size_edit(old(self).lines_view(), i as int, line@);
            assert forall|j: int| 0 <= j < self.lines@.len() implies (#[trigger] self.lines@[j]).wf() by {
                if j < i {
                    assert(self.lines@[j] == old(self).lines@[j]);
                } else {
                    assert(self.lines@[j] == old(self).lines@[j + 1]);
                }
            }
            assert(old(self).lines@[i as int].wf());
        }
        line
    }

    /// Inserts `line` as line `i`.
    fn put_line(&mut self, i: usize, line: Line)
        requires
            old(self).wf(),
            line.wf(),
            i <= old(self).lines_view().len(),
            text_fits(old(self).lines_view(), line@.len() + 1),
        ensures
            final(self).wf(),
            final(self).lines_view() == old(self).lines_view().insert(i as int, line@),
            final(self).undo_view() == old(self).undo_view(),
            final(self).redo_view() == old(self).redo_view(),
            final(self).info() == old(self).info(),
            total_size(final(self).lines_view()) == total_size(old(self).lines_view()) + line@.len() + 1,
    {
        let ghost l = line;
        self.lines.insert(i, line);
        proof {
            lemma_texts_insert(old(self).lines@, i as int, l);
            lemma_total_size_insert(old(self).lines_view(), i as int, l@);
            assert forall|j: int| 0 <= j < self.lines@.len() implies (#[trigger] self.lines@[j]).wf() by {
                if j < i {
                    assert(self.lines@[j] == old(self).lines@[j]);
                } else if j > i {
                    assert(self.lines@[j] == old(self).lines@[j - 1]);
                }
            }
        }
    }
}

// ---------------------------------------------------------------------------
// Editing, as operations on the line texts
// ---------------------------------------------------------------------------

/// `x + 1`, saturating at `usize::MAX`.
pub open spec fn sat_inc(x: usize) -> usize {
    if x < usize::MAX {
        (x + 1) as usize
    } else {
        usize::MAX
    }
}

/// Text `s` with `c` inserted before grapheme `at` (appended beyond the end).
pub open spec fn insert_in_text(s: Seq<char>, c: char, at: nat) -> Seq<char> {
    let gs = crate::text::grapheme_clusters(s);
    let k = if at < gs.len() { at as int } else { gs.len() as int };
    splice_graphemes(gs, k, k, seq![c])
}

/// Inserting `c` at `at`: on the line after the last it starts a new line.
pub open spec fn insert_char_step(ls: Seq<Seq<char>>, c: char, at: Location) -> Seq<Seq<char>> {
    if at.line_idx == ls.len() {
        ls.push(seq![c])
    } else if at.line_idx < ls.len() {
        ls.update(at.line_idx as int, insert_in_text(ls[at.line_idx as int], c, at.grapheme_idx as nat))
    } else {
        ls
    }
}

/// Breaking the line at `at`: on the line after the last it adds an empty line.
pub open spec fn newline_step(ls: Seq<Seq<char>>, at: Location) -> Seq<Seq<char>> {
    if at.line_idx == ls.len() {
        ls.push(Seq::empty())
    } else if at.line_idx < ls.len() {
        let l = at.line_idx as int;
        let gs = crate::text::grapheme_clusters(ls[l]);
        if at.grapheme_idx < gs.len() {
            ls.update(l, gs.take(at.grapheme_idx as int).flatten()).insert(
                l + 1,
                gs.skip(at.grapheme_idx as int).flatten(),
            )
        } else {
            ls.insert(l + 1, Seq::empty())
        }
    } else {
        ls
    }
}

/// The room that breaking the line at `at` needs: the break, and for the
/// indentation carried over at most twice the line's bytes.
pub open spec fn enter_room(ls: Seq<Seq<char>>, at: Location) -> nat {
    if at.line_idx < ls.len() {
        1 + 2 * crate::text::utf8_len(ls[at.line_idx as int])
    } else {
        1
    }
}

/// The location one grapheme further right.
pub open spec fn step_right(at: Location) -> Location {
    Location { grapheme_idx: sat_inc(at.grapheme_idx), ..at }
}

/// The start of the next line.
pub open spec fn step_down(at: Location) -> Location {
    Location { grapheme_idx: 0, line_idx: sat_inc(at.line_idx), ..at }
}

/// Inserting the characters of `s` one after the other from `at`, a line
/// break for each newline.
pub open spec fn insert_string_steps(ls: Seq<Seq<char>>, at: Location, s: Seq<char>) -> Seq<Seq<char>>
    decreases s.len(),
{
    if s.len() == 0 {
        ls
    } else if s[0] == '\n' {
        insert_string_steps(newline_step(ls, at), step_down(at), s.drop_first())
    } else {
        insert_string_steps(insert_char_step(ls, s[0], at), step_right(at), s.drop_first())
    }
}

/// Inserting the characters of `s` one after the other from `at`.
pub open spec fn insert_chars_steps(ls: Seq<Seq<char>>, at: Location, s: Seq<char>) -> Seq<Seq<char>>
    decreases s.len(),
{
    if s.len() == 0 {
        ls
    } else {
        insert_chars_steps(insert_char_step(ls, s[0], at), step_right(at), s.drop_first())
    }
}

/// The texts after `delete` at `at`: the grapheme at `at` is removed, or at
/// the end of a line the next line is joined to it.
pub open spec fn delete_step(ls: Seq<Seq<char>>, at: Location) -> Seq<Seq<char>> {
    if at.line_idx < ls.len() {
        let l = at.line_idx as int;
        let gs = crate::text::grapheme_clusters(ls[l]);
        if at.grapheme_idx >= gs.len() && ls.len() > l + 1 {
            ls.update(l, ls[l] + ls[l + 1]).remove(l + 1)
        } else if at.grapheme_idx < gs.len() {
            ls.update(l, splice_graphemes(gs, at.grapheme_idx as int, at.grapheme_idx + 1, Seq::empty()))
        } else {
            ls
        }
    } else {
        ls
    }
}

/// The earlier and the later of two locations.
pub open spec fn ordered(a: Location, b: Location) -> (Location, Location) {
    if location_le(a, b) {
        (a, b)
    } else {
        (b, a)
    }
}

/// Joining, from line `i` to line `last`, each next line to line `target`
/// with a space; every join removes the line, so the following line moves up
/// and the next index skips it.
pub open spec fn concat_loop(ls: Seq<Seq<char>>, target: int, i: int, last: int) -> Seq<Seq<char>>
    decreases last + 1 - i,
{
    if i > last || i >= ls.len() || target < 0 || target >= i {
        ls
    } else {
        let next = ls[i];
        let ls2 = ls.remove(i);
        concat_loop(ls2.update(target, ls2[target].push(' ') + next), target, i + 1, last)
    }
}

/// Joining keeps the target line's text at the front of the target line.
proof fn lemma_concat_loop_keeps_front(ls: Seq<Seq<char>>, target: int, i: int, last: int)
    requires
        0 <= target < ls.len(),
        target < i,
    ensures
        target < concat_loop(ls, target, i, last).len(),
        ls[target].is_prefix_of(concat_loop(ls, target, i, last)[target]),
    decreases last + 1 - i,
{
    if !(i > last || i >= ls.len()) {
        let next = ls[i];
        let ls2 = ls.remove(i);
        let ls3 = ls2.update(target, ls2[target].push(' ') + next);
        assert(ls2[target] == ls[target]);
        lemma_concat_loop_keeps_front(ls3, target, i + 1, last);
        let r = concat_loop(ls3, target, i + 1, last)[target];
        assert(ls[target].is_prefix_of(ls3[target]));
        assert forall|k: int| 0 <= k < ls[target].len() implies ls[target][k] == r[k] by {
            assert(ls3[target][k] == ls[target][k]);
        }
    }
}

/// Joining line `l` with the next one (`J`) puts a single space between
/// them: the line becomes the old line, a space, then the old next line,
/// and the next line is gone.
pub proof fn lemma_join_adds_a_space(ls: Seq<Seq<char>>, l: int)
    requires
        0 <= l,
        l + 1 < ls.len(),
    ensures
        concat_loop(ls, l, l + 1, l + 1) == ls.remove(l + 1).update(l, ls[l].push(' ') + ls[l + 1]),
        concat_loop(ls, l, l + 1, l + 1)[l] == ls[l].push(' ') + ls[l + 1],
        concat_loop(ls, l, l + 1, l + 1).len() + 1 == ls.len(),
{
    let ls2 = ls.remove(l + 1);
    assert(ls2[l] == ls[l]);
    let ls3 = ls2.update(l, ls2[l].push(' ') + ls[l + 1]);
    assert(concat_loop(ls3, l, l + 2, l + 1) == ls3);
}

/// Joining from line `t` over later lines keeps line `t`, then a space, then
/// the first line joined, at the front of line `t`.
pub proof fn lemma_join_starts_with_line_space_next(ls: Seq<Seq<char>>, t: int, i: int, last: int)
    requires
        0 <= t < i <= last,
        i < ls.len(),
    ensures
        (ls[t].push(' ') + ls[i]).is_prefix_of(concat_loop(ls, t, i, last)[t]),
{
    let ls2 = ls.remove(i);
    assert(ls2[t] == ls[t]);
    let ls3 = ls2.update(t, ls2[t].push(' ') + ls[i]);
    lemma_concat_loop_keeps_front(ls3, t, i + 1, last);
}

impl Buffer {
    /// Inserts `character` at `at` without recording undo.
    fn insert_char_no_undo(&mut self, character: char, at: Location)
        requires
            old(self).wf(),
            text_fits(old(self).lines_view(), 2),
        ensures
            final(self).wf(),
            final(self).lines_view() == insert_char_step(old(self).lines_view(), character, at),
            final(self).undo_view() == old(self).undo_view(),
            final(self).redo_view() == old(self).redo_view(),
            final(self).info() == old(self).info(),
            total_size(final(self).lines_view()) <= total_size(old(self).lines_view()) + 2,
    {
        let ghost ls = self.lines_view();
        if at.line_idx == self.lines.len() {
            let s = crate::line::char_to_string(character);
            let line = Line::from(s.as_str());
            self.lines.push(line);
            proof {
                lemma_total_size_push(ls, seq![character]);
                assert(self.lines_view() =~= ls.push(seq![character]));
                assert(all_wf(self.lines@));
            }
        } else if at.line_idx < self.lines.len() {
            let l = at.line_idx;
            let mut line = self.lines.remove(l);
            proof {
                lemma_texts_remove(old(self).lines@, l as int);
                lemma_total_size_edit(ls, l as int, ls[l as int]);
                line.lemma_wf();
            }
            line.insert_char(character, at.grapheme_idx);
            let ghost new_text = line@;
            self.lines.insert(l, line);
            proof {
                lemma_texts_insert(old(self).lines@.remove(l as int), l as int, line);
                assert(self.lines_view() =~= ls.update(l as int, new_text));
                lemma_total_size_edit(ls, l as int, new_text);
                crate::line::lemma_flatten_split(crate::text::grapheme_clusters(ls[l as int]), if at.grapheme_idx < crate::text::grapheme_clusters(ls[l as int]).len() { at.grapheme_idx as int } else { crate::text::grapheme_clusters(ls[l as int]).len() as int });
                assert forall|i: int| 0 <= i < self.lines@.len() implies (#[trigger] self.lines@[i]).wf() by {
                    if i != l {
                        assert(self.lines@[i] == old(self).lines@[i]);
                    }
                }
            }
        }
    }

    /// Inserts `character` at `at`, recording undo.
    pub fn insert_char(&mut self, character: char, at: Location)
        requires
            old(self).wf(),
            text_fits(old(self).lines_view(), 2),
        ensures
            final(self).wf(),
            final(self).lines_view() == insert_char_step(old(self).lines_view(), character, at),
            final(self).undo_view() == old(self).undo_view().push(old(self).lines_view()),
            final(self).redo_view().len() == 0,
            final(self).state() == edited(old(self).state(), final(self).lines_view()),
            final(self).info() == old(self).info(),
    {
        self.push_undo();
        self.insert_char_no_undo(character, at);
    }
}

impl Buffer {
    /// Breaks the line at `at` without recording undo.
    fn insert_newline_no_undo(&mut self, at: Location)
        requires
            old(self).wf(),
            text_fits(old(self).lines_view(), 1),
        ensures
            final(self).wf(),
            final(self).lines_view() == newline_step(old(self).lines_view(), at),
            final(self).undo_view() == old(self).undo_view(),
            final(self).redo_view() == old(self).redo_view(),
            final(self).info() == old(self).info(),
            total_size(final(self).lines_view()) <= total_size(old(self).lines_view()) + 1,
    {
        let ghost ls = self.lines_view();
        if at.line_idx == self.lines.len() {
            self.lines.push(Line::empty());
            proof {
                lemma_total_size_push(ls, Seq::empty());
                assert(self.lines_view() =~= ls.push(Seq::empty()));
                assert(all_wf(self.lines@));
            }
        } else if at.line_idx < self.lines.len() {
            let l = at.line_idx;
            let mut line = self.take_line(l);
            proof {
                line.lemma_wf();
                let gs = crate::text::grapheme_clusters(ls[l as int]);
                if at.grapheme_idx < gs.len() {
                    crate::line::lemma_flatten_split(gs, at.grapheme_idx as int);
                }
            }
            let new = line.split(at.grapheme_idx);
            let ghost head = line@;
            let ghost tail = new@;
            self.put_line(l, line);
            self.put_line(l + 1, new);
            proof {
                assert(ls.remove(l as int).insert(l as int, head) =~= ls.update(l as int, head));
                let gs = crate::text::grapheme_clusters(ls[l as int]);
                if at.grapheme_idx >= gs.len() {
                    assert(ls.update(l as int, head) =~= ls);
                }
            }
        }
    }

    /// Joins line `l + 1` to line `l`.
    fn join_next(&mut self, l: usize)
        requires
            old(self).wf(),
            l + 1 < old(self).lines_view().len(),
        ensures
            final(self).wf(),
            final(self).lines_view() == old(self).lines_view().update(
                l as int,
                old(self).lines_view()[l as int] + old(self).lines_view()[l + 1],
            ).remove(l + 1),
            final(self).undo_view() == old(self).undo_view(),
            final(self).redo_view() == old(self).redo_view(),
            final(self).info() == old(self).info(),
    {
        let ghost ls = self.lines_view();
        let _h = self.height();
        let next_line = self.take_line(l + 1);
        let mut line = self.take_line(l);
        proof {
            lemma_total_size_edit(ls, l as int, ls[l as int]);
        }
        line.append(&next_line);
        self.put_line(l, line);
        proof {
            assert(ls.remove(l + 1).remove(l as int).insert(l as int, ls[l as int] + ls[l + 1]) =~= ls.update(
                l as int,
                ls[l as int] + ls[l + 1],
            ).remove(l + 1));
        }
    }

    /// Deletes grapheme `g` of line `l`.
    fn delete_in_line(&mut self, l: usize, g: usize)
        requires
            old(self).wf(),
            l < old(self).lines_view().len(),
        ensures
            final(self).wf(),
            final(self).lines_view() == old(self).lines_view().update(
                l as int,
                if g < crate::text::grapheme_clusters(old(self).lines_view()[l as int]).len() {
                    splice_graphemes(
                        crate::text::grapheme_clusters(old(self).lines_view()[l as int]),
                        g as int,
                        g + 1,
                        Seq::empty(),
                    )
                } else {
                    old(self).lines_view()[l as int]
                },
            ),
            final(self).undo_view() == old(self).undo_view(),
            final(self).redo_view() == old(self).redo_view(),
            final(self).info() == old(self).info(),
    {
        let ghost ls = self.lines_view();
        let mut line = self.take_line(l);
        proof {
            line.lemma_wf();
            let gs = crate::text::grapheme_clusters(ls[l as int]);
            if g < gs.len() {
                crate::line::lemma_take_flatten_prefix(gs, g as int, g + 1);
                crate::line::lemma_flatten_split(gs, g + 1);
            }
        }
        line.delete(g);
        let ghost t = line@;
        self.put_line(l, line);
        proof {
            assert(ls.remove(l as int).insert(l as int, t) =~= ls.update(l as int, t));
        }
    }

    /// Deletes the grapheme at `at`, or joins the next line when `at` is at the
    /// end of its line; records undo (unless `at` lies beyond the last line).
    pub fn delete(&mut self, at: Location)
        requires
            old(self).wf(),
        ensures
            final(self).wf(),
            final(self).lines_view() == delete_step(old(self).lines_view(), at),
            at.line_idx < old(self).lines_view().len() ==> final(self).undo_view()
                == old(self).undo_view().push(old(self).lines_view()),
            at.line_idx >= old(self).lines_view().len() ==> final(self).undo_view()
                == old(self).undo_view(),
            at.line_idx < old(self).lines_view().len() ==> final(self).state() == edited(
                old(self).state(),
                final(self).lines_view(),
            ),
            final(self).redo_view().len() == 0,
            final(self).info() == old(self).info(),
    {
        let ghost ls = self.lines_view();
        self.push_undo();
        if at.line_idx < self.lines.len() {
            let l = at.line_idx;
            let count = self.lines[l].grapheme_count();
            if at.grapheme_idx >= count && self.lines.len() > l + 1 {
                self.join_next(l);
            } else if at.grapheme_idx < count {
                self.delete_in_line(l, at.grapheme_idx);
            }
        } else {
            let ghost pushed = self.undo_stack@;
            let ghost pv = self.undo_view();
            assert(pv.len() == pushed.len());
            assert(pv.len() > 0);
            self.undo_stack.pop();
            assert(self.undo_stack@ =~= pushed.drop_last());
            assert(self.undo_view() =~= pv.drop_last());
            assert(self.undo_view() =~= old(self).undo_view());
        }
    }

    /// Inserts `string` at `at`, breaking lines at newlines; records undo.
    pub fn insert_string(&mut self, string: &str, at: Location)
        requires
            old(self).wf(),
            text_fits(old(self).lines_view(), 2 * string@.len()),
        ensures
            final(self).wf(),
            final(self).lines_view() == insert_string_steps(old(self).lines_view(), at, string@),
            final(self).undo_view() == old(self).undo_view().push(old(self).lines_view()),
            final(self).redo_view().len() == 0,
            final(self).state() == edited(old(self).state(), final(self).lines_view()),
            final(self).info() == old(self).info(),
    {
        let ghost ls0 = self.lines_view();
        self.push_undo();
        let ghost u = self.undo_view();
        let mut current_at = at;
        let chars = crate::text::chars_of(string);
        let n = chars.len();
        let mut k: usize = 0;
        assert(string@.skip(0) =~= string@);
        while k < n
            invariant
                self.wf(),
                chars@ == string@,
                n == string@.len(),
                k <= n,
                insert_string_steps(ls0, at, string@) == insert_string_steps(
                    self.lines_view(),
                    current_at,
                    string@.skip(k as int),
                ),
                total_size(self.lines_view()) <= total_size(ls0) + 2 * k,
                text_fits(ls0, 2 * string@.len()),
                self.undo_view() == u,
                self.redo_view().len() == 0,
                self.info() == old(self).info(),
            decreases n - k,
        {
            let c = chars[k];
            assert(string@.skip(k as int)[0] == c);
            assert(string@.skip(k as int).drop_first() =~= string@.skip(k + 1));
            if c == '\n' {
                self.insert_newline_no_undo(current_at);
                current_at.line_idx = current_at.line_idx.saturating_add(1);
                current_at.grapheme_idx = 0;
            } else {
                self.insert_char_no_undo(c, current_at);
                current_at.grapheme_idx = current_at.grapheme_idx.saturating_add(1);
            }
            k = k + 1;
        }
        assert(string@.skip(n as int) =~= Seq::<char>::empty());
    }

    /// Breaks the line at `at` and indents the new line like the old one (up to
    /// `at`); records undo and returns the number of indentation characters.
    pub fn insert_enter(&mut self, at: Location) -> (indent: usize)
        requires
            old(self).wf(),
            text_fits(old(self).lines_view(), enter_room(old(self).lines_view(), at)),
        ensures
            final(self).wf(),
            ({
                let ls = old(self).lines_view();
                let ind = if at.line_idx < ls.len() {
                    let gs = crate::text::grapheme_clusters(ls[at.line_idx as int]);
                    let fnw = match crate::line::first_non_blank_from(gs, 0) {
                        Some(i) => i,
                        None => 0,
                    };
                    crate::line::graphemes_text(
                        gs,
                        0,
                        if fnw <= at.grapheme_idx { fnw as int } else { at.grapheme_idx as int },
                    )
                } else {
                    Seq::empty()
                };
                &&& final(self).lines_view() == insert_chars_steps(
                    newline_step(ls, at),
                    step_down(at),
                    ind,
                )
                &&& indent == ind.len()
            }),
            final(self).undo_view() == old(self).undo_view().push(old(self).lines_view()),
            final(self).redo_view().len() == 0,
            final(self).state() == edited(old(self).state(), final(self).lines_view()),
            final(self).info() == old(self).info(),
    {
        let ghost ls0 = self.lines_view();
        self.push_undo();
        let ghost u = self.undo_view();
        let indent_string = if at.line_idx < self.lines.len() {
            let line = &self.lines[at.line_idx];
            let non_whitespace_idx = line.first_non_whitespace_grapheme();
            let indent_end = if non_whitespace_idx <= at.grapheme_idx {
                non_whitespace_idx
            } else {
                at.grapheme_idx
            };
            line.get_substring(0..indent_end)
        } else {
            String::new()
        };
        let ghost ind = indent_string@;
        proof {
            if at.line_idx < ls0.len() {
                let l = at.line_idx as int;
                let gs = crate::text::grapheme_clusters(ls0[l]);
                self.lines@[l].lemma_wf();
                lemma_total_size_edit(ls0, l, ls0[l]);
                let fnw: int = match crate::line::first_non_blank_from(gs, 0) {
                    Some(i) => i as int,
                    None => 0,
                };
                let e = if fnw <= at.grapheme_idx { fnw } else { at.grapheme_idx as int };
                crate::line::lemma_graphemes_text_len(gs, 0, e);
                crate::text::lemma_utf8_len_lower(ls0[l]);
            }
        }
        self.insert_newline_no_undo(at);
        let mut current_at = at;
        current_at.line_idx = current_at.line_idx.saturating_add(1);
        current_at.grapheme_idx = 0;
        let mut indent_count: usize = 0;
        let chars = crate::text::chars_of(indent_string.as_str());
        let n = chars.len();
        let ghost ls1 = self.lines_view();
        assert(ind.skip(0) =~= ind);
        while indent_count < n
            invariant
                self.wf(),
                chars@ == ind,
                n == ind.len(),
                indent_count <= n,
                insert_chars_steps(ls1, step_down(at), ind) == insert_chars_steps(
                    self.lines_view(),
                    current_at,
                    ind.skip(indent_count as int),
                ),
                total_size(self.lines_view()) <= total_size(ls1) + 2 * indent_count,
                total_size(ls1) <= total_size(ls0) + 1,
                text_fits(ls0, 1 + 2 * ind.len()),
                self.undo_view() == u,
                self.redo_view().len() == 0,
                self.info() == old(self).info(),
            decreases n - indent_count,
        {
            let c = chars[indent_count];
            assert(ind.skip(indent_count as int)[0] == c);
            assert(ind.skip(indent_count as int).drop_first() =~= ind.skip(indent_count + 1));
            self.insert_char_no_undo(c, current_at);
            current_at.grapheme_idx = current_at.grapheme_idx.saturating_add(1);
            indent_count = indent_count + 1;
        }
        assert(ind.skip(n as int) =~= Seq::<char>::empty());
        indent_count
    }

    /// Joins the lines after `start` up to `end` to the line of `start`, each
    /// with a space (as `concat_loop` describes); records undo.
    pub fn concat_range(&mut self, start: Location, end: Location)
        requires
            old(self).wf(),
        ensures
            final(self).wf(),
            final(self).lines_view() == ({
                let (s, e) = ordered(start, end);
                concat_loop(old(self).lines_view(), s.line_idx as int, s.line_idx + 1, e.line_idx as int)
            }),
            final(self).undo_view() == old(self).undo_view().push(old(self).lines_view()),
            final(self).redo_view().len() == 0,
            final(self).state() == edited(old(self).state(), final(self).lines_view()),
            final(self).info() == old(self).info(),
    {
        let ghost ls0 = self.lines_view();
        self.push_undo();
        let (start, end) = if start.is_before_or_at(&end) { (start, end) } else { (end, start) };
        if start.line_idx >= self.lines.len() {
            return;
        }
        let target = start.line_idx;
        let mut line_idx = target + 1;
        while line_idx <= end.line_idx && line_idx < self.lines.len()
            invariant
                self.wf(),
                target < line_idx,
                target < self.lines_view().len(),
                concat_loop(ls0, target as int, target + 1, end.line_idx as int) == concat_loop(
                    self.lines_view(),
                    target as int,
                    line_idx as int,
                    end.line_idx as int,
                ),
                self.undo_view() == old(self).undo_view().push(ls0),
                self.redo_view().len() == 0,
                self.info() == old(self).info(),
            decreases self.lines_view().len() + 1 - line_idx,
        {
            let ghost ls = self.lines_view();
            let next = self.take_line(line_idx);
            let mut line = self.take_line(target);
            proof {
                line.lemma_wf();
                lemma_total_size_edit(ls, target as int, ls[target as int]);
            }
            line.append_char(' ');
            line.append(&next);
            self.put_line(target, line);
            proof {
                assert(ls.remove(line_idx as int).remove(target as int).insert(
                    target as int,
                    ls[target as int].push(' ') + ls[line_idx as int],
                ) =~= ls.remove(line_idx as int).update(
                    target as int,
                    ls.remove(line_idx as int)[target as int].push(' ') + ls[line_idx as int],
                ));
            }
            line_idx = line_idx + 1;
        }
    }
}

// ---------------------------------------------------------------------------
// Whole text, loading and saving
// ---------------------------------------------------------------------------

pub proof fn lemma_total_size_split(s: Seq<char>, sep: char)
    ensures
        total_size(crate::text::split_chars(s, sep)) == s.len() + 1,
    decreases s.len(),
{
    if s.len() == 0 {
        lemma_total_size_single(Seq::<char>::empty());
    } else {
        lemma_total_size_split(s.drop_last(), sep);
        crate::text::lemma_split_chars_nonempty(s.drop_last(), sep);
        let r = crate::text::split_chars(s.drop_last(), sep);
        if s.last() == sep {
            lemma_total_size_push(r, Seq::empty());
        } else {
            lemma_total_size_edit(r, r.len() - 1, r.last().push(s.last()));
        }
    }
}

pub proof fn lemma_total_size_strip(ps: Seq<Seq<char>>)
    ensures
        total_size(ps.map_values(|p: Seq<char>| crate::text::strip_cr(p))) <= total_size(ps),
    decreases ps.len(),
{
    if ps.len() > 0 {
        lemma_total_size_strip(ps.drop_last());
        assert(ps.map_values(|p: Seq<char>| crate::text::strip_cr(p)).drop_last() =~= ps.drop_last().map_values(
            |p: Seq<char>| crate::text::strip_cr(p),
        ));
    }
}

pub proof fn lemma_total_size_text_lines(s: Seq<char>)
    ensures
        total_size(crate::text::text_lines(s)) <= s.len() + 1,
        forall|i: int| 0 <= i < crate::text::text_lines(s).len() ==> (#[trigger] crate::text::text_lines(s)[i]).len() <= s.len(),
{
    let ps = crate::text::split_chars(s, '\n');
    lemma_total_size_split(s, '\n');
    crate::text::lemma_split_chars_nonempty(s, '\n');
    let n = ps.len();
    lemma_total_size_edit(ps, n - 1, ps[n - 1]);
    assert(ps.drop_last() =~= ps.remove(n - 1));
    lemma_total_size_strip(ps.drop_last());
    let m = ps.drop_last().map_values(|p: Seq<char>| crate::text::strip_cr(p));
    if ps[n - 1].len() != 0 {
        lemma_total_size_push(m, ps[n - 1]);
    }
    let t = crate::text::text_lines(s);
    assert forall|i: int| 0 <= i < t.len() implies (#[trigger] t[i]).len() <= s.len() by {
        lemma_total_size_edit(t, i, t[i]);
    }
}

impl Buffer {
    /// The lines joined with newlines.
    pub fn as_string(&self) -> (s: String)
        requires
            self.wf(),
        ensures
            s@ == crate::text::join_newline(self.lines_view()),
    {
        let mut parts: Vec<String> = Vec::new();
        let mut i: usize = 0;
        while i < self.lines.len()
            invariant
                i <= self.lines@.len(),
                parts@.map_values(|p: String| p@) == self.lines_view().take(i as int),
            decreases self.lines@.len() - i,
        {
            let ghost old_parts = parts@;
            parts.push(self.lines[i].to_string());
            assert(parts@.map_values(|p: String| p@) =~= old_parts.map_values(|p: String| p@).push(
                self.lines@[i as int]@,
            ));
            assert(self.lines_view().take(i + 1) =~= self.lines_view().take(i as int).push(
                self.lines@[i as int]@,
            ));
            i = i + 1;
        }
        assert(self.lines_view().take(self.lines@.len() as int) =~= self.lines_view());
        crate::text::join_with_newlines(&parts)
    }

    /// What saving writes: every line followed by a newline.
    pub fn file_contents(&self) -> (s: String)
        requires
            self.wf(),
        ensures
            s@ == crate::text::terminate_lines(self.lines_view()),
    {
        let mut s = String::new();
        let mut i: usize = 0;
        while i < self.lines.len()
            invariant
                i <= self.lines@.len(),
                s@ == crate::text::terminate_lines(self.lines_view().take(i as int)),
            decreases self.lines@.len() - i,
        {
            assert(self.lines_view().take(i + 1).drop_last() =~= self.lines_view().take(i as int));
            s.append(self.lines[i].as_str());
            crate::text::push_char(&mut s, '\n');
            i = i + 1;
        }
        assert(self.lines_view().take(self.lines@.len() as int) =~= self.lines_view());
        s
    }

    /// A buffer for the file `file_name` holding the lines of `contents`.
    pub fn load(contents: &str, file_name: &str) -> (b: Self)
        requires
            contents@.len() + 1 <= usize::MAX / 64,
        ensures
            b.wf(),
            b.lines_view() == crate::text::text_lines(contents@),
            single_lines(b.lines_view()),
            b.undo_view().len() == 0,
            b.redo_view().len() == 0,
            b.info().describes_path(file_name@),
    {
        let lines = lines_of_text(contents);
        proof {
            crate::text::lemma_text_lines_single(contents@);
        }
        let info = FileInfo::from(file_name);
        Self::new_with_lines(lines, info)
    }

    /// A buffer not backed by a file, shown as `name`, holding the lines of
    /// `contents`.
    pub fn new_with_content(contents: &str, name: &str) -> (b: Self)
        requires
            contents@.len() + 1 <= usize::MAX / 64,
        ensures
            b.wf(),
            b.lines_view() == crate::text::text_lines(contents@),
            b.undo_view().len() == 0,
            b.redo_view().len() == 0,
            b.info().path_view() is None,
            b.info().display_name_view() == Some(name@),
            b.info().file_type_view() == crate::filetype::FileType::Text,
    {
        let lines = lines_of_text(contents);
        Self::new_with_lines(lines, FileInfo::new_internal(name))
    }

    /// Records that the lines were written to `file_name`: the buffer now
    /// belongs to that file and has no changes to undo or redo.
    pub fn save_as(&mut self, file_name: &str)
        requires
            old(self).wf(),
        ensures
            final(self).wf(),
            final(self).lines_view() == old(self).lines_view(),
            final(self).undo_view().len() == 0,
            final(self).redo_view().len() == 0,
            final(self).info().describes_path(file_name@),
    {
        let file_info = FileInfo::from(file_name);
        self.file_info = file_info;
        self.undo_stack.clear();
        self.redo_stack.clear();
        assert(self.undo_view() =~= Seq::<Seq<Seq<char>>>::empty());
        assert(self.redo_view() =~= Seq::<Seq<Seq<char>>>::empty());
    }

    /// Records that the lines were written to the buffer's file: there are no
    /// changes to undo or redo any more.
    pub fn save(&mut self)
        requires
            old(self).wf(),
        ensures
            final(self).wf(),
            final(self).lines_view() == old(self).lines_view(),
            final(self).undo_view().len() == 0,
            final(self).redo_view().len() == 0,
            final(self).info() == old(self).info(),
    {
        self.undo_stack.clear();
        self.redo_stack.clear();
        assert(self.undo_view() =~= Seq::<Seq<Seq<char>>>::empty());
        assert(self.redo_view() =~= Seq::<Seq<Seq<char>>>::empty());
    }
}

// ---------------------------------------------------------------------------
// Ranges
// ---------------------------------------------------------------------------

/// The pieces of text that line `li` contributes to the range `[s, e]`
/// (both ends included): an extra empty piece marks a range that reaches
/// past the end of line `e`.
pub open spec fn range_part(ls: Seq<Seq<char>>, s: Location, e: Location, li: int) -> Seq<Seq<char>> {
    if 0 <= li < ls.len() {
        let gs = crate::text::grapheme_clusters(ls[li]);
        let sg = if li == s.line_idx { s.grapheme_idx as int } else { 0 };
        let eg = if li == e.line_idx { sat_inc(e.grapheme_idx) as int } else { gs.len() as int };
        let p = crate::line::graphemes_text(gs, sg, eg);
        if li == e.line_idx && e.grapheme_idx >= gs.len() {
            seq![p, Seq::<char>::empty()]
        } else {
            seq![p]
        }
    } else if li == e.line_idx && e.grapheme_idx == 0 && li == ls.len() {
        seq![Seq::<char>::empty()]
    } else {
        Seq::empty()
    }
}

/// The pieces that lines `li` to `e.line_idx` contribute.
pub open spec fn range_parts(ls: Seq<Seq<char>>, s: Location, e: Location, li: int) -> Seq<Seq<char>>
    decreases e.line_idx + 1 - li,
{
    if li > e.line_idx {
        Seq::empty()
    } else {
        range_part(ls, s, e, li) + range_parts(ls, s, e, li + 1)
    }
}

/// The text between two locations, both included, lines joined by newlines.
pub open spec fn range_text(ls: Seq<Seq<char>>, a: Location, b: Location) -> Seq<char> {
    let (s, e) = ordered(a, b);
    crate::text::join_newline(range_parts(ls, s, e, s.line_idx as int))
}

pub proof fn lemma_range_parts_beyond(ls: Seq<Seq<char>>, s: Location, e: Location, li: int)
    requires
        li > ls.len(),
    ensures
        range_parts(ls, s, e, li) == Seq::<Seq<char>>::empty(),
    decreases e.line_idx + 1 - li,
{
    if li <= e.line_idx {
        lemma_range_parts_beyond(ls, s, e, li + 1);
        assert(range_part(ls, s, e, li) =~= Seq::<Seq<char>>::empty());
        assert(range_parts(ls, s, e, li) =~= Seq::<Seq<char>>::empty());
    }
}

/// Text `t` after deleting grapheme `g` again and again while there is one.
pub open spec fn delete_graphemes_from(t: Seq<char>, g: nat) -> Seq<char>
    decreases t.len(),
{
    let gs = crate::text::grapheme_clusters(t);
    if g < gs.len() {
        let t2 = splice_graphemes(gs, g as int, (g + 1) as int, Seq::empty());
        if t2.len() < t.len() {
            delete_graphemes_from(t2, g)
        } else {
            t
        }
    } else {
        t
    }
}

/// Text `t` without its last grapheme.
pub open spec fn drop_last_grapheme(t: Seq<char>) -> Seq<char> {
    let gs = crate::text::grapheme_clusters(t);
    if gs.len() > 0 {
        splice_graphemes(gs, gs.len() - 1, gs.len() as int, Seq::empty())
    } else {
        t
    }
}

/// Removing the line after line `l`, `k` times (while there is one).
pub open spec fn remove_after(ls: Seq<Seq<char>>, l: int, k: nat) -> Seq<Seq<char>>
    decreases k,
{
    if k == 0 {
        ls
    } else {
        remove_after(if 0 <= l && l + 1 < ls.len() { ls.remove(l + 1) } else { ls }, l, (k - 1) as nat)
    }
}

pub proof fn lemma_remove_after_done(ls: Seq<Seq<char>>, l: int, k: nat)
    requires
        !(0 <= l && l + 1 < ls.len()),
    ensures
        remove_after(ls, l, k) == ls,
    decreases k,
{
    if k > 0 {
        lemma_remove_after_done(ls, l, (k - 1) as nat);
    }
}

/// The texts after deleting everything from one location to another (both
/// included): the first line keeps what lies before the range and takes
/// what follows it on the last line (or the whole next line, when the range
/// reaches past the end of its last line).
pub open spec fn delete_range_spec(ls: Seq<Seq<char>>, a: Location, b: Location) -> Seq<Seq<char>> {
    let (s, e) = ordered(a, b);
    let n = ls.len();
    let el = e.line_idx as int;
    let (ltr, suffix) = if el < n {
        let gs = crate::text::grapheme_clusters(ls[el]);
        if e.grapheme_idx >= gs.len() {
            if el + 1 < n {
                (el + 1, ls[el + 1])
            } else {
                (el, Seq::<char>::empty())
            }
        } else {
            (el, crate::line::graphemes_text(gs, sat_inc(e.grapheme_idx) as int, gs.len() as int))
        }
    } else {
        (el, Seq::<char>::empty())
    };
    let sl = s.line_idx as int;
    let ls1 = if sl < n {
        let t = delete_graphemes_from(ls[sl], s.grapheme_idx as nat);
        ls.update(sl, drop_last_grapheme(t.push(' ')) + suffix)
    } else {
        ls
    };
    remove_after(ls1, sl, if ltr > sl { (ltr - sl) as nat } else { 0 })
}

impl Buffer {
    /// The text from one location to another, both included.
    pub fn get_range(&self, start: Location, end: Location) -> (r: String)
        requires
            self.wf(),
        ensures
            r@ == range_text(self.lines_view(), start, end),
    {
        let ghost ls = self.lines_view();
        let (start, end) = if start.is_before_or_at(&end) { (start, end) } else { (end, start) };
        let n = self.lines.len();
        proof {
            if n > 0 {
                lemma_total_size_edit(ls, 0, ls[0]);
            }
            assert(total_size(ls) >= n) by {
                lemma_total_size_len(ls);
            }
        }
        let last = if end.line_idx < n { end.line_idx } else { n };
        let mut parts: Vec<String> = Vec::new();
        let mut li = start.line_idx;
        proof {
            if start.line_idx > last {
                if start.line_idx > n {
                    lemma_range_parts_beyond(ls, start, end, start.line_idx as int);
                }
            }
        }
        while li <= last
            invariant
                self.wf(),
                ls == self.lines_view(),
                n == ls.len(),
                n < usize::MAX,
                last <= n,
                last <= end.line_idx,
                last == end.line_idx || last == n,
                start.line_idx <= li,
                location_le(start, end),
                range_parts(ls, start, end, start.line_idx as int) == parts@.map_values(|p: String| p@)
                    + range_parts(ls, start, end, li as int),
            decreases last + 1 - li,
        {
            let ghost old_parts = parts@;
            let ghost rest = range_parts(ls, start, end, li as int + 1);
            assert(range_parts(ls, start, end, li as int) == range_part(ls, start, end, li as int) + rest);
            if li < n {
                let line = &self.lines[li];
                let count = line.grapheme_count();
                let sg = if li == start.line_idx { start.grapheme_idx } else { 0 };
                let eg = if li == end.line_idx { end.grapheme_idx.saturating_add(1) } else { count };
                parts.push(line.get_substring(sg..eg));
                if li == end.line_idx && end.grapheme_idx >= count {
                    parts.push(String::new());
                }
            } else if li == end.line_idx && end.grapheme_idx == 0 && li == n {
                parts.push(String::new());
            }
            assert(parts@.map_values(|p: String| p@) =~= old_parts.map_values(|p: String| p@) + range_part(
                ls,
                start,
                end,
                li as int,
            ));
            li = li + 1;
        }
        proof {
            if last == n && n < end.line_idx {
                lemma_range_parts_beyond(ls, start, end, li as int);
            }
            assert(range_parts(ls, start, end, li as int) =~= Seq::<Seq<char>>::empty());
            assert(parts@.map_values(|p: String| p@) + Seq::<Seq<char>>::empty() =~= parts@.map_values(
                |p: String| p@,
            ));
        }
        crate::text::join_with_newlines(&parts)
    }
}

pub proof fn lemma_total_size_len(ls: Seq<Seq<char>>)
    ensures
        total_size(ls) >= ls.len(),
    decreases ls.len(),
{
    if ls.len() > 0 {
        lemma_total_size_len(ls.drop_last());
    }
}

/// Where the removal of lines ends and what follows the range, for a range
/// ending at `e`.
pub open spec fn range_tail(ls: Seq<Seq<char>>, e: Location) -> (int, Seq<char>) {
    let n = ls.len();
    let el = e.line_idx as int;
    if el < n {
        let gs = crate::text::grapheme_clusters(ls[el]);
        if e.grapheme_idx >= gs.len() {
            if el + 1 < n {
                (el + 1, ls[el + 1])
            } else {
                (el, Seq::<char>::empty())
            }
        } else {
            (el, crate::line::graphemes_text(gs, sat_inc(e.grapheme_idx) as int, gs.len() as int))
        }
    } else {
        (el, Seq::<char>::empty())
    }
}

/// The first line of a deleted range: what stays before the range, then `suffix`.
pub open spec fn first_line_after_delete(t: Seq<char>, g: nat, suffix: Seq<char>) -> Seq<char> {
    drop_last_grapheme(delete_graphemes_from(t, g).push(' ')) + suffix
}

pub proof fn lemma_delete_range_spec(ls: Seq<Seq<char>>, a: Location, b: Location)
    ensures
        ({
            let (s, e) = ordered(a, b);
            let (ltr, suffix) = range_tail(ls, e);
            let sl = s.line_idx as int;
            let ls1 = if sl < ls.len() {
                ls.update(sl, first_line_after_delete(ls[sl], s.grapheme_idx as nat, suffix))
            } else {
                ls
            };
            delete_range_spec(ls, a, b) == remove_after(ls1, sl, if ltr > sl { (ltr - sl) as nat } else { 0 })
        }),
{
}

impl Buffer {
    /// Where the removal of lines ends and the text after a range ending at `end`.
    fn range_tail(&self, end: Location) -> (r: (usize, String))
        requires
            self.wf(),
        ensures
            r.0 as int == range_tail(self.lines_view(), end).0,
            r.1@ == range_tail(self.lines_view(), end).1,
            r.1@.len() <= total_size(self.lines_view()),
    {
        let ghost ls = self.lines_view();
        let n = self.lines.len();
        let mut lines_to_remove_until = end.line_idx;
        let mut suffix = String::new();
        if end.line_idx < n {
            let last_line = &self.lines[end.line_idx];
            let count = last_line.grapheme_count();
            proof {
                lemma_total_size_edit(ls, end.line_idx as int, ls[end.line_idx as int]);
                last_line.lemma_wf();
                crate::line::lemma_graphemes_text_len(
                    last_line.graphemes(),
                    sat_inc(end.grapheme_idx) as int,
                    count as int,
                );
            }
            if end.grapheme_idx >= count {
                if end.line_idx + 1 < n {
                    lines_to_remove_until = end.line_idx + 1;
                    suffix = self.lines[lines_to_remove_until].to_string();
                    proof {
                        lemma_total_size_edit(ls, end.line_idx + 1, ls[end.line_idx + 1]);
                    }
                }
            } else {
                suffix = last_line.get_substring(end.grapheme_idx.saturating_add(1)..count);
            }
        }
        (lines_to_remove_until, suffix)
    }

    /// Deletes line `l` from grapheme `g` on and appends `suffix`.
    fn rewrite_first_line(&mut self, l: usize, g: usize, suffix: &str)
        requires
            old(self).wf(),
            l < old(self).lines_view().len(),
            text_fits(old(self).lines_view(), suffix@.len() + 1),
        ensures
            final(self).wf(),
            final(self).lines_view() == old(self).lines_view().update(
                l as int,
                first_line_after_delete(old(self).lines_view()[l as int], g as nat, suffix@),
            ),
            final(self).undo_view() == old(self).undo_view(),
            final(self).redo_view() == old(self).redo_view(),
            final(self).info() == old(self).info(),
    {
        let ghost ls = self.lines_view();
        let mut first_line = self.take_line(l);
        let ghost orig = first_line@;
        proof {
            lemma_total_size_edit(ls, l as int, ls[l as int]);
        }
        while first_line.grapheme_count() > g
            invariant
                first_line.wf(),
                first_line@.len() <= orig.len(),
                delete_graphemes_from(orig, g as nat) == delete_graphemes_from(first_line@, g as nat),
            decreases first_line@.len(),
        {
            proof {
                first_line.lemma_wf();
                let gs = first_line.graphemes();
                crate::line::lemma_take_flatten_prefix(gs, g as int, g + 1);
                crate::line::lemma_flatten_split(gs, g + 1);
                assert(gs.subrange(g as int, g + 1) =~= seq![gs[g as int]]);
                gs.subrange(g as int, g + 1).lemma_flatten_one_element();
            }
            first_line.delete(g);
        }
        first_line.append_char(' ');
        first_line.delete_last();
        let suffix_line = Line::from(suffix);
        first_line.append(&suffix_line);
        let ghost new_first = first_line@;
        self.put_line(l, first_line);
        proof {
            assert(ls.remove(l as int).insert(l as int, new_first) =~= ls.update(l as int, new_first));
        }
    }

    /// Removes the line after line `l`, `k` times (while there is one).
    fn remove_lines_after(&mut self, l: usize, k: usize)
        requires
            old(self).wf(),
        ensures
            final(self).wf(),
            final(self).lines_view() == remove_after(old(self).lines_view(), l as int, k as nat),
            final(self).undo_view() == old(self).undo_view(),
            final(self).redo_view() == old(self).redo_view(),
            final(self).info() == old(self).info(),
    {
        let mut i: usize = 0;
        while i < k
            invariant
                self.wf(),
                i <= k,
                remove_after(old(self).lines_view(), l as int, k as nat) == remove_after(
                    self.lines_view(),
                    l as int,
                    (k - i) as nat,
                ),
                self.undo_view() == old(self).undo_view(),
                self.redo_view() == old(self).redo_view(),
                self.info() == old(self).info(),
            decreases k - i,
        {
            let h = self.lines.len();
            if l < h && l + 1 < h {
                self.take_line(l + 1);
            } else {
                proof {
                    lemma_remove_after_done(self.lines_view(), l as int, (k - i) as nat);
                    lemma_remove_after_done(self.lines_view(), l as int, (k - i - 1) as nat);
                }
                return;
            }
            i = i + 1;
        }
    }

    /// Deletes everything from one location to another, both included, as
    /// `delete_range_spec` describes; records undo.
    pub fn delete_range(&mut self, start: Location, end: Location)
        requires
            old(self).wf(),
            text_fits(old(self).lines_view(), total_size(old(self).lines_view()) + 1),
        ensures
            final(self).wf(),
            final(self).lines_view() == delete_range_spec(old(self).lines_view(), start, end),
            final(self).undo_view() == old(self).undo_view().push(old(self).lines_view()),
            final(self).redo_view().len() == 0,
            final(self).state() == edited(old(self).state(), final(self).lines_view()),
            final(self).info() == old(self).info(),
    {
        proof {
            lemma_delete_range_spec(self.lines_view(), start, end);
        }
        self.push_undo();
        let (start, end) = if start.is_before_or_at(&end) { (start, end) } else { (end, start) };
        let (lines_to_remove_until, suffix) = self.range_tail(end);
        if start.line_idx < self.lines.len() {
            self.rewrite_first_line(start.line_idx, start.grapheme_idx, suffix.as_str());
        }
        let k = if lines_to_remove_until > start.line_idx {
            lines_to_remove_until - start.line_idx
        } else {
            0
        };
        self.remove_lines_after(start.line_idx, k);
    }
}


// ---------------------------------------------------------------------------
// Search across lines
// ---------------------------------------------------------------------------

/// The `k`-th line visited when searching forward from line `l`: the lines
/// taken in a cycle, starting at `l` (wrapped around).
pub open spec fn forward_line(n: nat, l: nat, k: nat) -> nat {
    ((l % n) + k) % n
}

/// The `k`-th line visited when searching backward from line `l`: the lines
/// taken in a cycle from the last to the first, starting at `l` (or at the
/// last line when `l` lies beyond it).
pub open spec fn backward_line(n: nat, l: nat, k: nat) -> nat {
    let m: nat = if l < n { (n - 1 - l) as nat } else { 0 };
    (n - 1 - ((m + k) % n)) as nat
}

/// Searching forward visits every line once and the starting line twice
/// (first from `from`, at the end from its start).
pub open spec fn search_forward_from(ls: Seq<Seq<char>>, q: Seq<char>, from: Location, k: nat) -> Option<Location>
    decreases ls.len() + 1 - k,
{
    if k > ls.len() || ls.len() == 0 {
        None
    } else {
        let li = forward_line(ls.len(), from.line_idx as nat, k);
        let g0: nat = if k == 0 { from.grapheme_idx as nat } else { 0 };
        match crate::line::search_forward_spec(ls[li as int], q, g0) {
            Some(g) => Some(Location { grapheme_idx: g, line_idx: li as usize, preferred_grapheme_idx: g }),
            None => search_forward_from(ls, q, from, k + 1),
        }
    }
}

/// Searching backward visits every line once and the starting line twice
/// (first before `from`, at the end from its end).
pub open spec fn search_backward_from(ls: Seq<Seq<char>>, q: Seq<char>, from: Location, k: nat) -> Option<Location>
    decreases ls.len() + 1 - k,
{
    if k > ls.len() || ls.len() == 0 {
        None
    } else {
        let li = backward_line(ls.len(), from.line_idx as nat, k);
        let g0: nat = if k == 0 {
            from.grapheme_idx as nat
        } else {
            crate::text::grapheme_clusters(ls[li as int]).len()
        };
        match crate::line::search_backward_spec(ls[li as int], q, g0) {
            Some(g) => Some(Location { grapheme_idx: g, line_idx: li as usize, preferred_grapheme_idx: g }),
            None => search_backward_from(ls, q, from, k + 1),
        }
    }
}

impl Buffer {
    /// The next match of `query` from `from` on, wrapping around at the end.
    pub fn search_forward(&self, query: &str, from: Location) -> (r: Option<Location>)
        requires
            self.wf(),
        ensures
            r == (if query@.len() == 0 {
                None
            } else {
                search_forward_from(self.lines_view(), query@, from, 0)
            }),
    {
        if query.is_empty() {
            return None;
        }
        let ghost ls = self.lines_view();
        let n = self.lines.len();
        if n == 0 {
            return None;
        }
        proof {
            lemma_total_size_len(ls);
        }
        let start = from.line_idx % n;
        let mut k: usize = 0;
        while k <= n
            invariant
                self.wf(),
                ls == self.lines_view(),
                n == ls.len(),
                n > 0,
                n < usize::MAX / 2,
                query@.len() > 0,
                start == (from.line_idx as nat) % (n as nat),
                k <= n + 1,
                search_forward_from(ls, query@, from, 0) == search_forward_from(ls, query@, from, k as nat),
            decreases n + 1 - k,
        {
            let line_idx = (start + k) % n;
            let from_grapheme_idx = if k == 0 { from.grapheme_idx } else { 0 };
            if let Some(grapheme_idx) = self.lines[line_idx].search_forward(query, from_grapheme_idx) {

                return Some(Location { grapheme_idx, line_idx, preferred_grapheme_idx: grapheme_idx });
            }
            k = k + 1;
        }
        None
    }

    /// The previous match of `query` before `from`, wrapping around at the start.
    pub fn search_backward(&self, query: &str, from: Location) -> (r: Option<Location>)
        requires
            self.wf(),
        ensures
            r == (if query@.len() == 0 {
                None
            } else {
                search_backward_from(self.lines_view(), query@, from, 0)
            }),
    {
        if query.is_empty() {
            return None;
        }
        let ghost ls = self.lines_view();
        let n = self.lines.len();
        if n == 0 {
            return None;
        }
        proof {
            lemma_total_size_len(ls);
        }
        let m = n.saturating_sub(from.line_idx).saturating_sub(1);
        let mut k: usize = 0;
        while k <= n
            invariant
                self.wf(),
                ls == self.lines_view(),
                n == ls.len(),
                n > 0,
                n < usize::MAX / 2,
                query@.len() > 0,
                m == (if (from.line_idx as nat) < n { (n - 1 - from.line_idx) as nat } else { 0nat }),
                k <= n + 1,
                search_backward_from(ls, query@, from, 0) == search_backward_from(ls, query@, from, k as nat),
            decreases n + 1 - k,
        {
            let line_idx = n - 1 - ((m + k) % n);
            let from_grapheme_idx = if k == 0 {
                from.grapheme_idx
            } else {
                self.lines[line_idx].grapheme_count()
            };
            if let Some(grapheme_idx) = self.lines[line_idx].search_backward(query, from_grapheme_idx) {
                return Some(Location { grapheme_idx, line_idx, preferred_grapheme_idx: grapheme_idx });
            }
            k = k + 1;
        }
        None
    }
}
impl Buffer {
    /// A search of the buffer reports only places where the query stands: the
    /// reported location is on a line of the buffer, and that line's graphemes
    /// from the reported one on spell the query.
    pub proof fn lemma_search_finds_query(&self, q: Seq<char>, from: Location)
        requires
            self.wf(),
        ensures
            search_forward_from(self.lines_view(), q, from, 0) matches Some(loc) ==> loc.line_idx
                < self.lines_view().len() && crate::line::spells_at(
                crate::text::grapheme_clusters(self.lines_view()[loc.line_idx as int]),
                q,
                loc.grapheme_idx as nat,
            ),
            search_backward_from(self.lines_view(), q, from, 0) matches Some(loc) ==> loc.line_idx
                < self.lines_view().len() && crate::line::spells_at(
                crate::text::grapheme_clusters(self.lines_view()[loc.line_idx as int]),
                q,
                loc.grapheme_idx as nat,
            ),
    {
        self.lemma_search_from(q, from, 0);
    }

    proof fn lemma_search_from(&self, q: Seq<char>, from: Location, k: nat)
        requires
            self.wf(),
        ensures
            search_forward_from(self.lines_view(), q, from, k) matches Some(loc) ==> loc.line_idx
                < self.lines_view().len() && crate::line::spells_at(
                crate::text::grapheme_clusters(self.lines_view()[loc.line_idx as int]),
                q,
                loc.grapheme_idx as nat,
            ),
            search_backward_from(self.lines_view(), q, from, k) matches Some(loc) ==> loc.line_idx
                < self.lines_view().len() && crate::line::spells_at(
                crate::text::grapheme_clusters(self.lines_view()[loc.line_idx as int]),
                q,
                loc.grapheme_idx as nat,
            ),
        decreases self.lines_view().len() + 1 - k,
    {
        let ls = self.lines_view();
        let n = ls.len();
        if k <= n && n > 0 {
            self.lemma_search_from(q, from, k + 1);
            lemma_total_size_len(ls);
            let lf = forward_line(n, from.line_idx as nat, k);
            let lb = backward_line(n, from.line_idx as nat, k);
            assert(lf < n);
            assert(lb < n);
            assert(self.lines@[lf as int].wf());
            assert(self.lines@[lb as int].wf());
            assert(ls[lf as int] == self.lines@[lf as int]@);
            assert(ls[lb as int] == self.lines@[lb as int]@);
            let gf: nat = if k == 0 { from.grapheme_idx as nat } else { 0 };
            let gb: nat = if k == 0 {
                from.grapheme_idx as nat
            } else {
                crate::text::grapheme_clusters(ls[lb as int]).len()
            };
            crate::line::lemma_search_finds_query(self.lines@[lf as int], q, gf);
            crate::line::lemma_search_finds_query(self.lines@[lb as int], q, gb);
            assert((lf as usize) as nat == lf);
            assert((lb as usize) as nat == lb);
        }
    }
}

proof fn lemma_terminate_concat(a: Seq<Seq<char>>, b: Seq<Seq<char>>)
    ensures
        crate::text::terminate_lines(a + b) == crate::text::terminate_lines(a) + crate::text::terminate_lines(b),
    decreases b.len(),
{
    if b.len() == 0 {
        assert(a + b =~= a);
        assert(crate::text::terminate_lines(a) + crate::text::terminate_lines(b) =~= crate::text::terminate_lines(a));
    } else {
        lemma_terminate_concat(a, b.drop_last());
        assert((a + b).drop_last() =~= a + b.drop_last());
        assert((a + b).last() == b.last());
    }
}

proof fn lemma_terminate_len(a: Seq<Seq<char>>)
    ensures
        crate::text::terminate_lines(a).len() == total_size(a),
    decreases a.len(),
{
    if a.len() > 0 {
        lemma_terminate_len(a.drop_last());
    }
}

proof fn lemma_join_terminate(a: Seq<Seq<char>>)
    requires
        a.len() > 0,
    ensures
        crate::text::terminate_lines(a) == crate::text::join_newline(a).push('\n'),
    decreases a.len(),
{
    if a.len() == 1 {
        assert(a.drop_last() =~= Seq::<Seq<char>>::empty());
        assert(crate::text::terminate_lines(a.drop_last()) =~= Seq::<char>::empty());
        assert(a.last() == a[0]);
        assert(crate::text::join_newline(a) == a[0]);
        assert(crate::text::terminate_lines(a) == crate::text::terminate_lines(a.drop_last()) + a.last() + seq!['\n']);
        assert(crate::text::terminate_lines(a) =~= crate::text::join_newline(a).push('\n'));
    } else {
        lemma_join_terminate(a.drop_last());
        assert(crate::text::terminate_lines(a) =~= crate::text::join_newline(a).push('\n'));
    }
}

/// The text around line `l`: what the lines before it end with, the line
/// and its newline, then the lines after it.
proof fn lemma_terminate_at(ls: Seq<Seq<char>>, l: int)
    requires
        0 <= l < ls.len(),
    ensures
        crate::text::terminate_lines(ls) == crate::text::terminate_lines(ls.take(l)) + ls[l] + seq!['\n']
            + crate::text::terminate_lines(ls.skip(l + 1)),
{
    assert(ls =~= ls.take(l + 1) + ls.skip(l + 1));
    lemma_terminate_concat(ls.take(l + 1), ls.skip(l + 1));
    assert(ls.take(l + 1).drop_last() =~= ls.take(l));
    assert(ls.take(l + 1).last() == ls[l]);
}

/// Where location `at` falls in the buffer's text: the characters of the
/// lines before it, each with its newline, and of the graphemes before it.
pub open spec fn text_offset(ls: Seq<Seq<char>>, at: Location) -> nat {
    total_size(ls.take(at.line_idx as int)) + crate::line::char_offset(
        crate::text::grapheme_clusters(ls[at.line_idx as int]),
        at.grapheme_idx as int,
    )
}

/// Cutting `m` out of `p + a + m + b + q` and dropping the last character.
proof fn lemma_seq_cut(p: Seq<char>, a: Seq<char>, m: Seq<char>, b: Seq<char>, q: Seq<char>)
    requires
        q.len() > 0,
    ensures
        ({
            let t = (p + a + m + b + q).drop_last();
            let o = p.len() + a.len();
            o + m.len() <= t.len() && (p + a + b + q).drop_last() == t.take(o as int) + t.skip((o + m.len()) as int)
        }),
{
    let t = (p + a + m + b + q).drop_last();
    let o = p.len() + a.len();
    assert((p + a + b + q).drop_last() =~= t.take(o as int) + t.skip((o + m.len()) as int));
}

/// Replacing line `l`, made of `a`, `m` and `b`, by `a` and `b` removes `m`
/// from the text.
proof fn lemma_cut_from_line(ls: Seq<Seq<char>>, l: int, a: Seq<char>, m: Seq<char>, b: Seq<char>)
    requires
        0 <= l < ls.len(),
        ls[l] == a + m + b,
    ensures
        ({
            let t = crate::text::join_newline(ls);
            let o = total_size(ls.take(l)) + a.len();
            o + m.len() <= t.len() && crate::text::join_newline(ls.update(l, a + b)) == t.take(o as int) + t.skip(
                (o + m.len()) as int,
            )
        }),
{
    let ls2 = ls.update(l, a + b);
    lemma_terminate_len(ls.take(l));
    lemma_terminate_at(ls, l);
    lemma_join_terminate(ls);
    assert(ls2.take(l) =~= ls.take(l));
    assert(ls2.skip(l + 1) =~= ls.skip(l + 1));
    assert(ls2[l] == a + b);
    lemma_terminate_at(ls2, l);
    lemma_join_terminate(ls2);
    let p = crate::text::terminate_lines(ls.take(l));
    let q = seq!['\n'] + crate::text::terminate_lines(ls.skip(l + 1));
    assert(crate::text::terminate_lines(ls) =~= p + a + m + b + q);
    assert(crate::text::terminate_lines(ls2) =~= p + a + b + q);
    assert(crate::text::join_newline(ls) =~= crate::text::terminate_lines(ls).drop_last());
    assert(crate::text::join_newline(ls2) =~= crate::text::terminate_lines(ls2).drop_last());
    lemma_seq_cut(p, a, m, b, q);
}

/// Deleting grapheme `g` of line `l` removes that grapheme from the text.
proof fn lemma_delete_grapheme_text(ls: Seq<Seq<char>>, at: Location)
    requires
        at.line_idx < ls.len(),
        at.grapheme_idx < crate::text::grapheme_clusters(ls[at.line_idx as int]).len(),
        at.grapheme_idx < usize::MAX,
        crate::text::grapheme_clusters(ls[at.line_idx as int]).flatten() == ls[at.line_idx as int],
    ensures
        ({
            let t = crate::text::join_newline(ls);
            let o = text_offset(ls, at);
            let r = range_text(ls, at, at);
            o + r.len() <= t.len() && crate::text::join_newline(delete_step(ls, at)) == t.take(o as int) + t.skip(
                (o + r.len()) as int,
            )
        }),
{
    let l = at.line_idx as int;
    let g = at.grapheme_idx as int;
    let gs = crate::text::grapheme_clusters(ls[l]);
    let pre = gs.take(g).flatten();
    let post = gs.skip(g + 1).flatten();
    crate::line::lemma_take_flatten_step(gs, g);
    crate::line::lemma_flatten_split(gs, g + 1);
    assert(ls[l] == pre + gs[g] + post);
    assert(delete_step(ls, at) == ls.update(l, pre + post));
    lemma_cut_from_line(ls, l, pre, gs[g], post);
    lemma_range_of_grapheme(ls, at);
}

/// `get_range(at, at)` at a grapheme is that grapheme.
proof fn lemma_range_of_grapheme(ls: Seq<Seq<char>>, at: Location)
    requires
        at.line_idx < ls.len(),
        at.grapheme_idx < crate::text::grapheme_clusters(ls[at.line_idx as int]).len(),
        at.grapheme_idx < usize::MAX,
    ensures
        range_text(ls, at, at) == crate::text::grapheme_clusters(ls[at.line_idx as int])[at.grapheme_idx as int],
{
    let l = at.line_idx as int;
    let g = at.grapheme_idx as int;
    let gs = crate::text::grapheme_clusters(ls[l]);
    assert(ordered(at, at) == (at, at));
    assert(gs.subrange(g, g + 1) =~= seq![gs[g]]);
    gs.subrange(g, g + 1).lemma_flatten_one_element();
    assert(sat_inc(at.grapheme_idx) == g + 1);
    assert(crate::line::graphemes_text(gs, g, g + 1) == gs[g]);
    assert(range_part(ls, at, at, l) =~= seq![gs[g]]);
    assert(range_parts(ls, at, at, l + 1) =~= Seq::<Seq<char>>::empty());
    assert(range_parts(ls, at, at, l) =~= seq![gs[g]]);
}

/// `get_range(at, at)` past the end of a line is the newline.
proof fn lemma_range_of_line_end(ls: Seq<Seq<char>>, at: Location)
    requires
        at.line_idx < ls.len(),
        at.grapheme_idx >= crate::text::grapheme_clusters(ls[at.line_idx as int]).len(),
    ensures
        range_text(ls, at, at) == seq!['\n'],
{
    let l = at.line_idx as int;
    let g = at.grapheme_idx as int;
    let gs = crate::text::grapheme_clusters(ls[l]);
    assert(ordered(at, at) == (at, at));
    assert(crate::line::graphemes_text(gs, g, sat_inc(at.grapheme_idx) as int) =~= Seq::<char>::empty());
    let two = seq![Seq::<char>::empty(), Seq::<char>::empty()];
    assert(range_part(ls, at, at, l) =~= two);
    assert(range_parts(ls, at, at, l + 1) =~= Seq::<Seq<char>>::empty());
    assert(range_parts(ls, at, at, l) =~= two);
    assert(two.drop_last() =~= seq![Seq::<char>::empty()]);
    assert(crate::text::join_newline(two.drop_last()) == Seq::<char>::empty());
    assert(two.last() == Seq::<char>::empty());
    assert(crate::text::join_newline(two) =~= seq!['\n']);
}

/// Deleting at the end of line `l` removes the newline that ends it.
proof fn lemma_delete_newline_text(ls: Seq<Seq<char>>, at: Location)
    requires
        at.line_idx + 1 < ls.len(),
        at.grapheme_idx == crate::text::grapheme_clusters(ls[at.line_idx as int]).len(),
        crate::text::grapheme_clusters(ls[at.line_idx as int]).flatten() == ls[at.line_idx as int],
    ensures
        ({
            let t = crate::text::join_newline(ls);
            let o = text_offset(ls, at);
            let r = range_text(ls, at, at);
            o + r.len() <= t.len() && crate::text::join_newline(delete_step(ls, at)) == t.take(o as int) + t.skip(
                (o + r.len()) as int,
            )
        }),
{
    let l = at.line_idx as int;
    let gs = crate::text::grapheme_clusters(ls[l]);
    let nl = seq!['\n'];
    let ls2 = delete_step(ls, at);
    assert(ls2 == ls.update(l, ls[l] + ls[l + 1]).remove(l + 1));
    assert(ls2 =~= ls.take(l) + seq![ls[l] + ls[l + 1]] + ls.skip(l + 2));
    assert(ls.subrange(l, l + 2) =~= seq![ls[l]] + seq![ls[l + 1]]);
    lemma_terminate_concat(seq![ls[l]], seq![ls[l + 1]]);
    lemma_terminate_one(ls[l]);
    lemma_terminate_one(ls[l + 1]);
    assert(crate::text::terminate_lines(ls.subrange(l, l + 2)) =~= ls[l] + nl + ls[l + 1] + nl);
    lemma_replace_block(ls, l, l + 2, ls[l], nl, ls[l + 1]);
    lemma_range_of_line_end(ls, at);
    assert(gs.take(at.grapheme_idx as int) =~= gs);
}

proof fn lemma_no_break_concat(x: Seq<char>, y: Seq<char>)
    requires
        !x.contains('\n'),
        !y.contains('\n'),
    ensures
        !(x + y).contains('\n'),
{
    if (x + y).contains('\n') {
        let k = choose|k: int| 0 <= k < (x + y).len() && (x + y)[k] == '\n';
        if k < x.len() {
            assert(x[k] == '\n');
        } else {
            assert(y[k - x.len()] == '\n');
        }
    }
}

/// The clusters before `a` and from `b` on hold no line break when the whole
/// text holds none.
proof fn lemma_cluster_pieces_single(gs: Seq<Seq<char>>, a: int, b: int)
    requires
        0 <= a <= b <= gs.len(),
        !gs.flatten().contains('\n'),
    ensures
        !gs.take(a).flatten().contains('\n'),
        !gs.skip(b).flatten().contains('\n'),
{
    crate::line::lemma_flatten_split(gs, a);
    crate::line::lemma_flatten_split(gs, b);
    let f = gs.flatten();
    let p = gs.take(a).flatten();
    let q = gs.skip(b).flatten();
    if p.contains('\n') {
        let k = choose|k: int| 0 <= k < p.len() && p[k] == '\n';
        assert(f[k] == p[k]);
    }
    if q.contains('\n') {
        let k = choose|k: int| 0 <= k < q.len() && q[k] == '\n';
        assert(f[gs.take(b).flatten().len() + k] == q[k]);
    }
}

/// A line changed to `x` keeps the lines free of line breaks if `x` is.
proof fn lemma_single_update(ls: Seq<Seq<char>>, l: int, x: Seq<char>)
    requires
        0 <= l < ls.len(),
        single_lines(ls),
        !x.contains('\n'),
    ensures
        single_lines(ls.update(l, x)),
{
    assert forall|i: int| 0 <= i < ls.update(l, x).len() implies !(#[trigger] ls.update(l, x)[i]).contains('\n') by {
        if i != l {
            assert(ls.update(l, x)[i] == ls[i]);
        }
    }
}

impl Buffer {
    /// Edits that add no line break keep every line free of line breaks:
    /// inserting or replacing a character other than a newline, deleting at a
    /// location, and breaking a line.
    pub proof fn lemma_edits_keep_single_lines(&self, c: char, at: Location)
        requires
            self.wf(),
            single_lines(self.lines_view()),
            c != '\n',
        ensures
            single_lines(insert_char_step(self.lines_view(), c, at)),
            single_lines(replace_char_step(self.lines_view(), c, at)),
            single_lines(delete_step(self.lines_view(), at)),
            single_lines(newline_step(self.lines_view(), at)),
    {
        let ls = self.lines_view();
        let cs = seq![c];
        assert(!cs.contains('\n')) by {
            if cs.contains('\n') {
                let k = choose|k: int| 0 <= k < cs.len() && cs[k] == '\n';
                assert(cs[k] == c);
            }
        }
        let e = Seq::<char>::empty();
        assert(!e.contains('\n'));
        if at.line_idx < ls.len() {
            let l = at.line_idx as int;
            assert(self.lines@[l].wf());
            assert(ls[l] == self.lines@[l]@);
            self.lines@[l].lemma_wf();
            let gs = crate::text::grapheme_clusters(ls[l]);
            assert(!ls[l].contains('\n'));
            let n = gs.len() as int;
            let g = at.grapheme_idx as int;
            // insert
            let k = if g < n { g } else { n };
            lemma_cluster_pieces_single(gs, k, k);
            lemma_no_break_concat(gs.take(k).flatten(), cs);
            lemma_no_break_concat(gs.take(k).flatten() + cs, gs.skip(k).flatten());
            lemma_single_update(ls, l, insert_in_text(ls[l], c, at.grapheme_idx as nat));
            // replace and delete of a grapheme
            if g < n {
                lemma_cluster_pieces_single(gs, g, g + 1);
                lemma_no_break_concat(gs.take(g).flatten(), cs);
                lemma_no_break_concat(gs.take(g).flatten() + cs, gs.skip(g + 1).flatten());
                lemma_single_update(ls, l, replace_in_text(ls[l], c, at.grapheme_idx as nat));
                lemma_no_break_concat(gs.take(g).flatten(), e);
                lemma_no_break_concat(gs.take(g).flatten() + e, gs.skip(g + 1).flatten());
                lemma_single_update(ls, l, splice_graphemes(gs, g, g + 1, e));
                // break
                lemma_cluster_pieces_single(gs, g, g);
                let ls1 = ls.update(l, gs.take(g).flatten());
                lemma_single_update(ls, l, gs.take(g).flatten());
                let ls2 = ls1.insert(l + 1, gs.skip(g).flatten());
                assert forall|i: int| 0 <= i < ls2.len() implies !(#[trigger] ls2[i]).contains('\n') by {
                    if i <= l {
                        assert(ls2[i] == ls1[i]);
                    } else if i > l + 1 {
                        assert(ls2[i] == ls1[i - 1]);
                    }
                }
            } else {
                assert(replace_char_step(ls, c, at) == ls);
                if ls.len() > l + 1 {
                    assert(!ls[l + 1].contains('\n'));
                    lemma_no_break_concat(ls[l], ls[l + 1]);
                    let ls1 = ls.update(l, ls[l] + ls[l + 1]);
                    lemma_single_update(ls, l, ls[l] + ls[l + 1]);
                    let ls2 = ls1.remove(l + 1);
                    assert forall|i: int| 0 <= i < ls2.len() implies !(#[trigger] ls2[i]).contains('\n') by {
                        if i <= l {
                            assert(ls2[i] == ls1[i]);
                        } else {
                            assert(ls2[i] == ls1[i + 1]);
                        }
                    }
                }
                let ls3 = ls.insert(l + 1, e);
                assert forall|i: int| 0 <= i < ls3.len() implies !(#[trigger] ls3[i]).contains('\n') by {
                    if i <= l {
                        assert(ls3[i] == ls[i]);
                    } else if i > l + 1 {
                        assert(ls3[i] == ls[i - 1]);
                    }
                }
            }
        } else if at.line_idx == ls.len() {
            let ls1 = ls.push(cs);
            assert forall|i: int| 0 <= i < ls1.len() implies !(#[trigger] ls1[i]).contains('\n') by {
                if i < ls.len() {
                    assert(ls1[i] == ls[i]);
                }
            }
            let ls2 = ls.push(e);
            assert forall|i: int| 0 <= i < ls2.len() implies !(#[trigger] ls2[i]).contains('\n') by {
                if i < ls.len() {
                    assert(ls2[i] == ls[i]);
                }
            }
        }
    }
}

/// Cutting text `t` at grapheme `g` the way a range deletion cuts its first
/// line (deleting grapheme `g` while there is one, then a space appended and
/// the last grapheme dropped) leaves exactly the graphemes before `g`. It
/// does not when the cut re-segments the text: in `"\u{600}\u{1}x"` cut at
/// grapheme 1, the prepended `\u{600}` joins the `x` once `\u{1}` is gone.
pub open spec fn clean_cut(t: Seq<char>, g: nat) -> bool {
    drop_last_grapheme(delete_graphemes_from(t, g).push(' ')) == crate::text::grapheme_clusters(t).take(
        g as int,
    ).flatten()
}

/// Removing the line after `l`, `k` times, takes out lines `l + 1` to `l + k`.
proof fn lemma_remove_after_slice(ls: Seq<Seq<char>>, l: int, k: nat)
    requires
        0 <= l,
        l + 1 + k <= ls.len(),
    ensures
        remove_after(ls, l, k) == ls.take(l + 1) + ls.skip(l + 1 + k),
    decreases k,
{
    if k == 0 {
        assert(ls.take(l + 1) + ls.skip(l + 1) =~= ls);
    } else {
        let r = ls.remove(l + 1);
        lemma_remove_after_slice(r, l, (k - 1) as nat);
        assert(r.take(l + 1) =~= ls.take(l + 1));
        assert(r.skip(l + 1 + (k - 1)) =~= ls.skip(l + 1 + k));
    }
}

/// The text of every grapheme of a line is the line.
proof fn lemma_whole_line_text(x: Seq<char>)
    requires
        crate::text::grapheme_clusters(x).flatten() == x,
    ensures
        crate::line::graphemes_text(crate::text::grapheme_clusters(x), 0, crate::text::grapheme_clusters(x).len() as int)
            == x,
{
    let gs = crate::text::grapheme_clusters(x);
    assert(gs.subrange(0, gs.len() as int) =~= gs);
    if gs.len() == 0 {
        assert(gs =~= Seq::<Seq<char>>::empty());
        assert(gs.flatten() =~= Seq::<char>::empty());
    }
}

/// The pieces of the lines after the first line of a range up to its last:
/// the whole lines in between, then what the last line gives.
proof fn lemma_range_parts_middle(ls: Seq<Seq<char>>, s: Location, e: Location, li: int)
    requires
        s.line_idx < li <= e.line_idx < ls.len(),
        forall|i: int| 0 <= i < ls.len() ==> (#[trigger] crate::text::grapheme_clusters(ls[i])).flatten() == ls[i],
    ensures
        range_parts(ls, s, e, li) == ls.subrange(li, e.line_idx as int) + range_part(ls, s, e, e.line_idx as int),
    decreases e.line_idx - li,
{
    let el = e.line_idx as int;
    assert(range_parts(ls, s, e, el + 1) =~= Seq::<Seq<char>>::empty());
    if li == el {
        assert(ls.subrange(li, el) =~= Seq::<Seq<char>>::empty());
        assert(range_parts(ls, s, e, li) =~= range_part(ls, s, e, el));
    } else {
        lemma_range_parts_middle(ls, s, e, li + 1);
        assert(crate::text::grapheme_clusters(ls[li]).flatten() == ls[li]);
        lemma_whole_line_text(ls[li]);
        assert(range_part(ls, s, e, li) =~= seq![ls[li]]);
        assert(ls.subrange(li, el) =~= seq![ls[li]] + ls.subrange(li + 1, el));
    }
}

proof fn lemma_terminate_one(x: Seq<char>)
    ensures
        crate::text::terminate_lines(seq![x]) == x + seq!['\n'],
{
    assert(seq![x].drop_last() =~= Seq::<Seq<char>>::empty());
    assert(crate::text::terminate_lines(Seq::<Seq<char>>::empty()) =~= Seq::<char>::empty());
    assert(seq![x].last() == x);
    assert(crate::text::terminate_lines(seq![x]) =~= x + seq!['\n']);
}

/// The graphemes before `g`, from `g` to `h`, and from `h` on make up the text.
proof fn lemma_three_pieces(gs: Seq<Seq<char>>, g: int, h: int)
    requires
        0 <= g <= h <= gs.len(),
    ensures
        gs.take(g).flatten() + gs.subrange(g, h).flatten() + gs.skip(h).flatten() == gs.flatten(),
{
    crate::line::lemma_take_flatten_prefix(gs, g, h);
    crate::line::lemma_flatten_split(gs, h);
}

/// The text of graphemes `[a, b)` with `b` at or past the end is the text
/// from `a` on.
proof fn lemma_text_to_end(gs: Seq<Seq<char>>, a: int, b: int)
    requires
        0 <= a <= gs.len() <= b,
    ensures
        crate::line::graphemes_text(gs, a, b) == gs.skip(a).flatten(),
{
    if a == gs.len() {
        assert(gs.skip(a) =~= Seq::<Seq<char>>::empty());
        assert(gs.skip(a).flatten() =~= Seq::<char>::empty());
    } else {
        assert(gs.subrange(a, gs.len() as int) =~= gs.skip(a));
    }
}

/// With the graphemes before the start of a range in front and what follows
/// the range behind, the range's pieces make up the lines that a deletion
/// of the range replaces by one.
pub open spec fn range_block(ls: Seq<Seq<char>>, s: Location, e: Location) -> bool {
    let sl = s.line_idx as int;
    let (ltr, suffix) = range_tail(ls, e);
    let p = crate::text::grapheme_clusters(ls[sl]).take(s.grapheme_idx as int).flatten();
    let parts = range_parts(ls, s, e, sl);
    &&& sl <= ltr < ls.len()
    &&& parts.len() > 0
    &&& p + crate::text::terminate_lines(parts).drop_last() + suffix + seq!['\n']
        == crate::text::terminate_lines(ls.subrange(sl, ltr + 1))
}

proof fn lemma_block_in_line_same(ls: Seq<Seq<char>>, s: Location, e: Location)
    requires
        location_le(s, e),
        e.line_idx < ls.len(),
        s.grapheme_idx <= crate::text::grapheme_clusters(ls[s.line_idx as int]).len(),
        e.grapheme_idx < crate::text::grapheme_clusters(ls[e.line_idx as int]).len() || e.line_idx + 1 < ls.len(),
        forall|i: int| 0 <= i < ls.len() ==> (#[trigger] crate::text::grapheme_clusters(ls[i])).flatten() == ls[i],
        forall|i: int| 0 <= i < ls.len() ==> (#[trigger] crate::text::grapheme_clusters(ls[i])).len() < usize::MAX,
        (e.grapheme_idx as int) < crate::text::grapheme_clusters(ls[e.line_idx as int]).len(),
        s.line_idx == e.line_idx,
    ensures
        range_block(ls, s, e),
{
    let sl = s.line_idx as int;
    let el = e.line_idx as int;
    let g = s.grapheme_idx as int;
    let gs = crate::text::grapheme_clusters(ls[sl]);
    let ge = crate::text::grapheme_clusters(ls[el]);
    let p = gs.take(g).flatten();
    let (ltr, suffix) = range_tail(ls, e);
    let nl = seq!['\n'];
    let emp = Seq::<char>::empty();
    assert(gs.flatten() == ls[sl]);
    assert(ge.flatten() == ls[el]);
    assert(ge.len() < usize::MAX);
    assert(range_parts(ls, s, e, el + 1) =~= Seq::<Seq<char>>::empty());
    let h = e.grapheme_idx + 1;
    assert(sat_inc(e.grapheme_idx) == h);
    assert(ltr == el);
    lemma_text_to_end(ge, h, ge.len() as int);
    assert(suffix == ge.skip(h).flatten());
    assert(ls.subrange(sl, ltr + 1) =~= ls.subrange(sl, el) + seq![ls[el]]);
    let mid = gs.subrange(g, h).flatten();
    assert(crate::line::graphemes_text(gs, g, h) == mid);
    assert(range_part(ls, s, e, sl) =~= seq![mid]);
    assert(range_parts(ls, s, e, sl) =~= seq![mid]);
    lemma_three_pieces(gs, g, h);
    lemma_terminate_one(mid);
    lemma_terminate_one(ls[sl]);
    assert(ls.subrange(sl, ltr + 1) =~= seq![ls[sl]]);
    assert(crate::text::terminate_lines(seq![mid]).drop_last() =~= mid);
    assert(p + mid + suffix + nl =~= ls[sl] + nl);
}

proof fn lemma_block_in_line_multi(ls: Seq<Seq<char>>, s: Location, e: Location)
    requires
        location_le(s, e),
        e.line_idx < ls.len(),
        s.grapheme_idx <= crate::text::grapheme_clusters(ls[s.line_idx as int]).len(),
        e.grapheme_idx < crate::text::grapheme_clusters(ls[e.line_idx as int]).len() || e.line_idx + 1 < ls.len(),
        forall|i: int| 0 <= i < ls.len() ==> (#[trigger] crate::text::grapheme_clusters(ls[i])).flatten() == ls[i],
        forall|i: int| 0 <= i < ls.len() ==> (#[trigger] crate::text::grapheme_clusters(ls[i])).len() < usize::MAX,
        (e.grapheme_idx as int) < crate::text::grapheme_clusters(ls[e.line_idx as int]).len(),
        s.line_idx < e.line_idx,
    ensures
        range_block(ls, s, e),
{
    let sl = s.line_idx as int;
    let el = e.line_idx as int;
    let g = s.grapheme_idx as int;
    let gs = crate::text::grapheme_clusters(ls[sl]);
    let ge = crate::text::grapheme_clusters(ls[el]);
    let p = gs.take(g).flatten();
    let (ltr, suffix) = range_tail(ls, e);
    let nl = seq!['\n'];
    let emp = Seq::<char>::empty();
    assert(gs.flatten() == ls[sl]);
    assert(ge.flatten() == ls[el]);
    assert(ge.len() < usize::MAX);
    assert(range_parts(ls, s, e, el + 1) =~= Seq::<Seq<char>>::empty());
    let h = e.grapheme_idx + 1;
    assert(sat_inc(e.grapheme_idx) == h);
    assert(ltr == el);
    lemma_text_to_end(ge, h, ge.len() as int);
    assert(suffix == ge.skip(h).flatten());
    assert(ls.subrange(sl, ltr + 1) =~= ls.subrange(sl, el) + seq![ls[el]]);
    let x = gs.skip(g).flatten();
    lemma_text_to_end(gs, g, gs.len() as int);
    assert(range_part(ls, s, e, sl) =~= seq![x]);
    let y = ge.take(h).flatten();
    assert(ge.subrange(0, h) =~= ge.take(h));
    assert(range_part(ls, s, e, el) =~= seq![y]);
    lemma_range_parts_middle(ls, s, e, sl + 1);
    let m = ls.subrange(sl + 1, el);
    let parts = range_parts(ls, s, e, sl);
    assert(parts =~= seq![x] + m + seq![y]);
    lemma_terminate_concat(seq![x] + m, seq![y]);
    lemma_terminate_concat(seq![x], m);
    lemma_terminate_one(x);
    lemma_terminate_one(y);
    crate::line::lemma_flatten_split(gs, g);
    crate::line::lemma_flatten_split(ge, h);
    let whole = seq![ls[sl]] + m + seq![ls[el]];
    assert(ls.subrange(sl, ltr + 1) =~= whole);
    lemma_terminate_concat(seq![ls[sl]] + m, seq![ls[el]]);
    lemma_terminate_concat(seq![ls[sl]], m);
    lemma_terminate_one(ls[sl]);
    lemma_terminate_one(ls[el]);
    let tm = crate::text::terminate_lines(m);
    assert(crate::text::terminate_lines(parts) == x + nl + tm + y + nl);
    assert(crate::text::terminate_lines(parts).drop_last() =~= x + nl + tm + y);
    assert(p + (x + nl + tm + y) + suffix + nl =~= ls[sl] + nl + tm + ls[el] + nl);
    assert(crate::text::terminate_lines(whole) == ls[sl] + nl + tm + ls[el] + nl);
    assert(crate::text::terminate_lines(ls.subrange(sl, ltr + 1)) == ls[sl] + nl + tm + ls[el] + nl);
    assert(parts.len() > 0);
    assert(p + crate::text::terminate_lines(parts).drop_last() + suffix + nl == crate::text::terminate_lines(
        ls.subrange(sl, ltr + 1),
    ));
}

proof fn lemma_block_past_same(ls: Seq<Seq<char>>, s: Location, e: Location)
    requires
        location_le(s, e),
        e.line_idx < ls.len(),
        s.grapheme_idx <= crate::text::grapheme_clusters(ls[s.line_idx as int]).len(),
        e.grapheme_idx < crate::text::grapheme_clusters(ls[e.line_idx as int]).len() || e.line_idx + 1 < ls.len(),
        forall|i: int| 0 <= i < ls.len() ==> (#[trigger] crate::text::grapheme_clusters(ls[i])).flatten() == ls[i],
        forall|i: int| 0 <= i < ls.len() ==> (#[trigger] crate::text::grapheme_clusters(ls[i])).len() < usize::MAX,
        (e.grapheme_idx as int) >= crate::text::grapheme_clusters(ls[e.line_idx as int]).len(),
        s.line_idx == e.line_idx,
    ensures
        range_block(ls, s, e),
{
    let sl = s.line_idx as int;
    let el = e.line_idx as int;
    let g = s.grapheme_idx as int;
    let gs = crate::text::grapheme_clusters(ls[sl]);
    let ge = crate::text::grapheme_clusters(ls[el]);
    let p = gs.take(g).flatten();
    let (ltr, suffix) = range_tail(ls, e);
    let nl = seq!['\n'];
    let emp = Seq::<char>::empty();
    assert(gs.flatten() == ls[sl]);
    assert(ge.flatten() == ls[el]);
    assert(ge.len() < usize::MAX);
    assert(range_parts(ls, s, e, el + 1) =~= Seq::<Seq<char>>::empty());
    assert(el + 1 < ls.len());
    assert(ltr == el + 1);
    assert(suffix == ls[el + 1]);
    let eg = sat_inc(e.grapheme_idx) as int;
    assert(eg >= ge.len());
    let rest = gs.skip(g).flatten();
    lemma_text_to_end(gs, g, eg);
    assert(range_part(ls, s, e, sl) =~= seq![rest, emp]);
    let parts = range_parts(ls, s, e, sl);
    assert(parts =~= seq![rest, emp]);
    assert(parts =~= seq![rest] + seq![emp]);
    lemma_terminate_concat(seq![rest], seq![emp]);
    lemma_terminate_one(rest);
    lemma_terminate_one(emp);
    crate::line::lemma_flatten_split(gs, g);
    let whole = seq![ls[sl]] + seq![ls[sl + 1]];
    assert(ls.subrange(sl, ltr + 1) =~= whole);
    lemma_terminate_concat(seq![ls[sl]], seq![ls[sl + 1]]);
    lemma_terminate_one(ls[sl]);
    lemma_terminate_one(ls[sl + 1]);
    assert(crate::text::terminate_lines(parts).drop_last() =~= rest + nl);
    assert(p + (rest + nl) + suffix + nl =~= ls[sl] + nl + ls[sl + 1] + nl);
    assert(crate::text::terminate_lines(whole) == ls[sl] + nl + ls[sl + 1] + nl);
    assert(crate::text::terminate_lines(ls.subrange(sl, ltr + 1)) == ls[sl] + nl + ls[sl + 1] + nl);
    assert(parts.len() > 0);
    assert(p + crate::text::terminate_lines(parts).drop_last() + suffix + nl == crate::text::terminate_lines(
        ls.subrange(sl, ltr + 1),
    ));
}

proof fn lemma_block_past_multi(ls: Seq<Seq<char>>, s: Location, e: Location)
    requires
        location_le(s, e),
        e.line_idx < ls.len(),
        s.grapheme_idx <= crate::text::grapheme_clusters(ls[s.line_idx as int]).len(),
        e.grapheme_idx < crate::text::grapheme_clusters(ls[e.line_idx as int]).len() || e.line_idx + 1 < ls.len(),
        forall|i: int| 0 <= i < ls.len() ==> (#[trigger] crate::text::grapheme_clusters(ls[i])).flatten() == ls[i],
        forall|i: int| 0 <= i < ls.len() ==> (#[trigger] crate::text::grapheme_clusters(ls[i])).len() < usize::MAX,
        (e.grapheme_idx as int) >= crate::text::grapheme_clusters(ls[e.line_idx as int]).len(),
        s.line_idx < e.line_idx,
    ensures
        range_block(ls, s, e),
{
    let sl = s.line_idx as int;
    let el = e.line_idx as int;
    let g = s.grapheme_idx as int;
    let gs = crate::text::grapheme_clusters(ls[sl]);
    let ge = crate::text::grapheme_clusters(ls[el]);
    let p = gs.take(g).flatten();
    let (ltr, suffix) = range_tail(ls, e);
    let nl = seq!['\n'];
    let emp = Seq::<char>::empty();
    assert(gs.flatten() == ls[sl]);
    assert(ge.flatten() == ls[el]);
    assert(ge.len() < usize::MAX);
    assert(range_parts(ls, s, e, el + 1) =~= Seq::<Seq<char>>::empty());
    assert(el + 1 < ls.len());
    assert(ltr == el + 1);
    assert(suffix == ls[el + 1]);
    let eg = sat_inc(e.grapheme_idx) as int;
    assert(eg >= ge.len());
    let x = gs.skip(g).flatten();
    lemma_text_to_end(gs, g, gs.len() as int);
    assert(range_part(ls, s, e, sl) =~= seq![x]);
    lemma_text_to_end(ge, 0, eg);
    assert(ge.skip(0) =~= ge);
    let z = ls[el];
    assert(range_part(ls, s, e, el) =~= seq![z, emp]);
    lemma_range_parts_middle(ls, s, e, sl + 1);
    let m = ls.subrange(sl + 1, el);
    let parts = range_parts(ls, s, e, sl);
    assert(parts =~= seq![x] + m + seq![z] + seq![emp]);
    lemma_terminate_concat(seq![x] + m + seq![z], seq![emp]);
    lemma_terminate_concat(seq![x] + m, seq![z]);
    lemma_terminate_concat(seq![x], m);
    lemma_terminate_one(x);
    lemma_terminate_one(z);
    lemma_terminate_one(emp);
    crate::line::lemma_flatten_split(gs, g);
    let whole = seq![ls[sl]] + m + seq![z] + seq![ls[el + 1]];
    assert(ls.subrange(sl, ltr + 1) =~= whole);
    lemma_terminate_concat(seq![ls[sl]] + m + seq![z], seq![ls[el + 1]]);
    lemma_terminate_concat(seq![ls[sl]] + m, seq![z]);
    lemma_terminate_concat(seq![ls[sl]], m);
    lemma_terminate_one(ls[sl]);
    lemma_terminate_one(ls[el + 1]);
    let tm = crate::text::terminate_lines(m);
    assert(crate::text::terminate_lines(parts) == x + nl + tm + z + nl + emp + nl);
    assert(crate::text::terminate_lines(parts).drop_last() =~= x + nl + tm + z + nl);
    assert(p + (x + nl + tm + z + nl) + suffix + nl =~= ls[sl] + nl + tm + z + nl + ls[el + 1] + nl);
    assert(crate::text::terminate_lines(whole) == ls[sl] + nl + tm + z + nl + ls[el + 1] + nl);
    assert(crate::text::terminate_lines(ls.subrange(sl, ltr + 1)) == ls[sl] + nl + tm + z + nl + ls[el + 1] + nl);
    assert(parts.len() > 0);
    assert(p + crate::text::terminate_lines(parts).drop_last() + suffix + nl == crate::text::terminate_lines(
        ls.subrange(sl, ltr + 1),
    ));
}

proof fn lemma_range_block(ls: Seq<Seq<char>>, s: Location, e: Location)
    requires
        location_le(s, e),
        e.line_idx < ls.len(),
        s.grapheme_idx <= crate::text::grapheme_clusters(ls[s.line_idx as int]).len(),
        e.grapheme_idx < crate::text::grapheme_clusters(ls[e.line_idx as int]).len() || e.line_idx + 1 < ls.len(),
        forall|i: int| 0 <= i < ls.len() ==> (#[trigger] crate::text::grapheme_clusters(ls[i])).flatten() == ls[i],
        forall|i: int| 0 <= i < ls.len() ==> (#[trigger] crate::text::grapheme_clusters(ls[i])).len() < usize::MAX,
    ensures
        range_block(ls, s, e),
{
    if (e.grapheme_idx as int) < crate::text::grapheme_clusters(ls[e.line_idx as int]).len() {
        if s.line_idx == e.line_idx {
            lemma_block_in_line_same(ls, s, e);
        } else {
            lemma_block_in_line_multi(ls, s, e);
        }
    } else {
        if s.line_idx == e.line_idx {
            lemma_block_past_same(ls, s, e);
        } else {
            lemma_block_past_multi(ls, s, e);
        }
    }
}

/// Replacing lines `lo` to `hi - 1`, whose text with newlines is
/// `p + m + q` and a newline, by the one line `p + q` cuts `m` out of the text.
proof fn lemma_replace_block(ls: Seq<Seq<char>>, lo: int, hi: int, p: Seq<char>, m: Seq<char>, q: Seq<char>)
    requires
        0 <= lo < hi <= ls.len(),
        crate::text::terminate_lines(ls.subrange(lo, hi)) == p + m + q + seq!['\n'],
    ensures
        ({
            let t = crate::text::join_newline(ls);
            let o = total_size(ls.take(lo)) + p.len();
            let r2 = ls.take(lo) + seq![p + q] + ls.skip(hi);
            o + m.len() <= t.len() && crate::text::join_newline(r2) == t.take(o as int) + t.skip((o + m.len()) as int)
        }),
{
    let nl = seq!['\n'];
    let front = ls.take(lo);
    let back = ls.skip(hi);
    let r2 = front + seq![p + q] + back;
    assert(ls =~= front + ls.subrange(lo, hi) + back);
    lemma_terminate_concat(front + seq![p + q], back);
    lemma_terminate_concat(front, seq![p + q]);
    lemma_terminate_one(p + q);
    lemma_terminate_concat(front + ls.subrange(lo, hi), back);
    lemma_terminate_concat(front, ls.subrange(lo, hi));
    let p0 = crate::text::terminate_lines(front);
    let rest = crate::text::terminate_lines(back);
    lemma_terminate_len(front);
    assert(crate::text::terminate_lines(ls) =~= p0 + p + m + q + (nl + rest));
    assert(crate::text::terminate_lines(r2) =~= p0 + p + q + (nl + rest));
    lemma_join_terminate(ls);
    lemma_join_terminate(r2);
    assert(crate::text::join_newline(ls) =~= crate::text::terminate_lines(ls).drop_last());
    assert(crate::text::join_newline(r2) =~= crate::text::terminate_lines(r2).drop_last());
    lemma_seq_cut(p0, p, m, q, nl + rest);
}

/// Deleting a range removes from the text exactly what `get_range` reports
/// for it, when the cut at the range's start is clean.
proof fn lemma_delete_range_text(ls: Seq<Seq<char>>, a: Location, b: Location)
    requires
        ordered(a, b).1.line_idx < ls.len(),
        ordered(a, b).0.grapheme_idx <= crate::text::grapheme_clusters(ls[ordered(a, b).0.line_idx as int]).len(),
        ordered(a, b).1.grapheme_idx < crate::text::grapheme_clusters(ls[ordered(a, b).1.line_idx as int]).len()
            || ordered(a, b).1.line_idx + 1 < ls.len(),
        clean_cut(ls[ordered(a, b).0.line_idx as int], ordered(a, b).0.grapheme_idx as nat),
        forall|i: int| 0 <= i < ls.len() ==> (#[trigger] crate::text::grapheme_clusters(ls[i])).flatten() == ls[i],
        forall|i: int| 0 <= i < ls.len() ==> (#[trigger] crate::text::grapheme_clusters(ls[i])).len() < usize::MAX,
    ensures
        ({
            let t = crate::text::join_newline(ls);
            let o = text_offset(ls, ordered(a, b).0);
            let r = range_text(ls, a, b);
            o + r.len() <= t.len() && crate::text::join_newline(delete_range_spec(ls, a, b)) == t.take(o as int)
                + t.skip((o + r.len()) as int)
        }),
{
    let (s, e) = ordered(a, b);
    assert(location_le(s, e));
    lemma_range_block(ls, s, e);
    let sl = s.line_idx as int;
    let g = s.grapheme_idx as int;
    let gs = crate::text::grapheme_clusters(ls[sl]);
    let p = gs.take(g).flatten();
    let (ltr, suffix) = range_tail(ls, e);
    let parts = range_parts(ls, s, e, sl);
    assert(first_line_after_delete(ls[sl], g as nat, suffix) == p + suffix);
    lemma_delete_range_spec(ls, a, b);
    let ls1 = ls.update(sl, p + suffix);
    let k: nat = (ltr - sl) as nat;
    lemma_remove_after_slice(ls1, sl, k);
    assert(delete_range_spec(ls, a, b) =~= ls.take(sl) + seq![p + suffix] + ls.skip(ltr + 1));
    lemma_join_terminate(parts);
    let r = crate::text::join_newline(parts);
    assert(crate::text::terminate_lines(parts).drop_last() =~= r);
    assert(range_text(ls, a, b) == r);
    lemma_replace_block(ls, sl, ltr + 1, p, r, suffix);
}

impl Buffer {
    /// Deleting a range removes from the text (`as_string`) exactly what
    /// `get_range` reports for it, whichever end comes first, when the range
    /// starts within its line, ends on a grapheme or at a line end followed
    /// by another line, and the cut at its start is clean (`clean_cut`).
    pub proof fn lemma_delete_range_removes_range(&self, a: Location, b: Location)
        requires
            self.wf(),
            ordered(a, b).1.line_idx < self.lines_view().len(),
            ordered(a, b).0.grapheme_idx <= self.count_of(ordered(a, b).0.line_idx as int),
            ordered(a, b).1.grapheme_idx < self.count_of(ordered(a, b).1.line_idx as int) || ordered(a, b).1.line_idx
                + 1 < self.lines_view().len(),
            clean_cut(self.lines_view()[ordered(a, b).0.line_idx as int], ordered(a, b).0.grapheme_idx as nat),
        ensures
            ({
                let ls = self.lines_view();
                let t = crate::text::join_newline(ls);
                let o = text_offset(ls, ordered(a, b).0);
                let r = range_text(ls, a, b);
                o + r.len() <= t.len() && crate::text::join_newline(delete_range_spec(ls, a, b)) == t.take(o as int)
                    + t.skip((o + r.len()) as int)
            }),
    {
        let ls = self.lines_view();
        assert forall|i: int| 0 <= i < ls.len() implies (#[trigger] crate::text::grapheme_clusters(ls[i])).flatten()
            == ls[i] && crate::text::grapheme_clusters(ls[i]).len() < usize::MAX by {
            assert(self.lines@[i].wf());
            assert(ls[i] == self.lines@[i]@);
            self.lines@[i].lemma_wf();
        }
        assert(ordered(a, b).0.line_idx <= ordered(a, b).1.line_idx);
        lemma_delete_range_text(ls, a, b);
    }
}

impl Buffer {
    /// When no line holds a line break, the buffer's text (`as_string`, its
    /// lines joined with newlines) split at its newlines gives the lines back,
    /// one piece per line.
    pub proof fn lemma_as_string_splits_into_lines(&self)
        requires
            self.lines_view().len() > 0,
            single_lines(self.lines_view()),
        ensures
            crate::text::split_chars(crate::text::join_newline(self.lines_view()), '\n') == self.lines_view(),
    {
        crate::text::lemma_split_joined_lines(self.lines_view());
    }
}

impl Buffer {
    /// A delete removes from the text exactly what `get_range(at, at)`
    /// reports there: the grapheme at `at`, or at the end of a line the
    /// newline that joins the next one; at the end of the last line the text
    /// stays as it is.
    pub proof fn lemma_delete_removes_range(&self, at: Location)
        requires
            self.wf(),
            at.line_idx < self.lines_view().len(),
            at.grapheme_idx <= self.count_of(at.line_idx as int),
        ensures
            ({
                let ls = self.lines_view();
                let t = crate::text::join_newline(ls);
                let t2 = crate::text::join_newline(delete_step(ls, at));
                let o = text_offset(ls, at);
                let r = range_text(ls, at, at);
                if at.grapheme_idx == self.count_of(at.line_idx as int) && at.line_idx + 1 == ls.len() {
                    t2 == t
                } else {
                    o + r.len() <= t.len() && t2 == t.take(o as int) + t.skip((o + r.len()) as int)
                }
            }),
    {
        let ls = self.lines_view();
        let l = at.line_idx as int;
        assert(self.lines@[l].wf());
        assert(ls[l] == self.lines@[l]@);
        self.lines@[l].lemma_wf();
        let gs = crate::text::grapheme_clusters(ls[l]);
        if (at.grapheme_idx as int) < gs.len() {
            assert(gs.len() <= ls[l].len());
            lemma_delete_grapheme_text(ls, at);
        } else if l + 1 < ls.len() {
            lemma_delete_newline_text(ls, at);
        } else {
            assert(delete_step(ls, at) == ls);
        }
    }
}

/// `s` with grapheme `at` replaced by `c`, if there is such a grapheme.
pub open spec fn replace_in_text(s: Seq<char>, c: char, at: nat) -> Seq<char> {
    let gs = crate::text::grapheme_clusters(s);
    if at < gs.len() {
        splice_graphemes(gs, at as int, at + 1 as int, seq![c])
    } else {
        s
    }
}

/// Replacing the grapheme at `at` by `c`; nothing beyond the text.
pub open spec fn replace_char_step(ls: Seq<Seq<char>>, c: char, at: Location) -> Seq<Seq<char>> {
    if at.line_idx < ls.len() {
        ls.update(at.line_idx as int, replace_in_text(ls[at.line_idx as int], c, at.grapheme_idx as nat))
    } else {
        ls
    }
}

impl Buffer {
    /// The size of the text (characters and line breaks), saturating at
    /// `usize::MAX`.
    pub fn total_len(&self) -> (n: usize)
        ensures
            n == crate::text::sat_usize(total_size(self.lines_view())),
    {
        let mut n: usize = 0;
        let mut i: usize = 0;
        while i < self.lines.len()
            invariant
                i <= self.lines@.len(),
                n == crate::text::sat_usize(total_size(texts(self.lines@.take(i as int)))),
            decreases self.lines@.len() - i,
        {
            proof {
                assert(texts(self.lines@.take(i + 1)).drop_last() =~= texts(self.lines@.take(i as int)));
            }
            let l = crate::text::chars_of(self.lines[i].as_str()).len();
            n = n.saturating_add(l).saturating_add(1);
            i = i + 1;
        }
        assert(self.lines@.take(self.lines@.len() as int) =~= self.lines@);
        n
    }

    /// Whether `extra` more characters fit.
    pub fn fits(&self, extra: usize) -> (r: bool)
        ensures
            r == text_fits(self.lines_view(), extra as nat),
    {
        let t = self.total_len();
        t <= usize::MAX / 64 && extra <= usize::MAX / 64 - t
    }

    /// Whether the text fits twice over, with `extra` more characters.
    pub fn fits_twice(&self, extra: usize) -> (r: bool)
        ensures
            r == text_fits(self.lines_view(), (total_size(self.lines_view()) + extra) as nat),
    {
        let t = self.total_len();
        t <= usize::MAX / 64 && extra <= usize::MAX / 64 - t && t <= usize::MAX / 64 - t - extra
    }

    /// Replaces the grapheme at `at` by `character`, recording undo when
    /// there is such a grapheme.
    pub fn replace_char(&mut self, character: char, at: Location)
        requires
            old(self).wf(),
        ensures
            final(self).wf(),
            final(self).lines_view() == replace_char_step(old(self).lines_view(), character, at),
            final(self).info() == old(self).info(),
            (at.line_idx < old(self).lines_view().len() && at.grapheme_idx < crate::text::grapheme_clusters(
                old(self).lines_view()[at.line_idx as int],
            ).len()) ==> final(self).undo_view() == old(self).undo_view().push(old(self).lines_view())
                && final(self).redo_view().len() == 0,
            !(at.line_idx < old(self).lines_view().len() && at.grapheme_idx < crate::text::grapheme_clusters(
                old(self).lines_view()[at.line_idx as int],
            ).len()) ==> final(self).undo_view() == old(self).undo_view() && final(self).redo_view()
                == old(self).redo_view(),
    {
        if at.line_idx >= self.lines.len() {
            return;
        }
        if at.grapheme_idx >= self.lines[at.line_idx].grapheme_count() {
            return;
        }
        self.push_undo();
        let ghost ls = self.lines_view();
        let l = at.line_idx;
        let mut line = self.take_line(l);
        proof {
            line.lemma_wf();
            let gs = line.graphemes();
            let g = at.grapheme_idx as int;
            lemma_take_flatten_prefix(gs, g, g + 1);
            lemma_flatten_split(gs, g + 1);
            assert(gs[g].len() > 0);
            assert(gs.subrange(g, g + 1) =~= seq![gs[g]]);
            seq![gs[g]].lemma_flatten_one_element();
        }
        line.replace_char(character, at.grapheme_idx);
        self.put_line(l, line);
        assert(self.lines_view() =~= replace_char_step(ls, character, at));
    }

    /// Replaces all lines by `lines`, as a state without changes to undo or
    /// redo (what a document just read from disk is).
    pub fn reset_lines(&mut self, lines: Vec<Line>)
        requires
            all_wf(lines@),
            text_fits(texts(lines@), 0),
        ensures
            final(self).wf(),
            final(self).lines_view() == texts(lines@),
            final(self).undo_view().len() == 0,
            final(self).redo_view().len() == 0,
            final(self).info() == old(self).info(),
    {
        self.lines = lines;
        self.undo_stack = Vec::new();
        self.redo_stack = Vec::new();
        assert(self.undo_view() =~= Seq::<Seq<Seq<char>>>::empty());
        assert(self.redo_view() =~= Seq::<Seq<Seq<char>>>::empty());
    }

    /// Whether the buffer holds exactly the lines `lines`.
    pub fn matches_content(&self, lines: &Vec<Line>) -> (r: bool)
        ensures
            r == (self.lines_view() == texts(lines@)),
    {
        if self.lines.len() != lines.len() {
            proof {
                assert(self.lines_view().len() != texts(lines@).len());
            }
            return false;
        }
        let mut i: usize = 0;
        while i < lines.len()
            invariant
                i <= lines@.len(),
                self.lines@.len() == lines@.len(),
                forall|j: int| 0 <= j < i ==> (#[trigger] self.lines@[j])@ == lines@[j]@,
            decreases lines@.len() - i,
        {
            if !crate::text::str_eq(self.lines[i].as_str(), lines[i].as_str()) {
                assert(self.lines_view()[i as int] != texts(lines@)[i as int]);
                return false;
            }
            i = i + 1;
        }
        assert(self.lines_view() =~= texts(lines@));
        true
    }
}

/// The lines of `contents`, as `str::lines` splits it.
pub fn lines_of_text(contents: &str) -> (lines: Vec<Line>)
    requires
        contents@.len() + 1 <= usize::MAX / 64,
    ensures
        texts(lines@) == crate::text::text_lines(contents@),
        all_wf(lines@),
        text_fits(texts(lines@), 0),
{
    let strings = crate::text::lines_of(contents);
    let ghost t = crate::text::text_lines(contents@);
    proof {
        lemma_total_size_text_lines(contents@);
    }
    let mut lines: Vec<Line> = Vec::new();
    let mut i: usize = 0;
    while i < strings.len()
        invariant
            strings@.map_values(|p: String| p@) == t,
            t == crate::text::text_lines(contents@),
            contents@.len() + 1 <= usize::MAX / 64,
            forall|j: int| 0 <= j < t.len() ==> (#[trigger] t[j]).len() <= contents@.len(),
            i <= strings@.len(),
            texts(lines@) == t.take(i as int),
            all_wf(lines@),
        decreases strings@.len() - i,
    {
        assert(t[i as int] == strings@[i as int]@);
        let line = Line::from(strings[i].as_str());
        let ghost old_lines = lines@;
        let ghost lt = line@;
        lines.push(line);
        assert(texts(lines@) =~= texts(old_lines).push(lt));
        assert(t.take(i + 1) =~= t.take(i as int).push(t[i as int]));
        assert(texts(lines@) =~= t.take(i + 1));
        assert forall|j: int| 0 <= j < lines@.len() implies (#[trigger] lines@[j]).wf() by {
            if j < i {
                assert(lines@[j] == old_lines[j]);
            }
        }
        i = i + 1;
    }
    assert(t.take(t.len() as int) =~= t);
    lines
}

} // verus!
