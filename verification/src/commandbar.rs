//! The command bar: a one-line prompt with history and completion state.
use vstd::prelude::*;

use crate::command::Edit;
use crate::line::{line_fits, splice_graphemes, text_columns_until, Line};
use crate::prelude::Size;
use crate::text::{byte_len_sat, copy_str, grapheme_clusters, sat_usize, strings_view, utf8_len};

verus! {

pub open spec fn opt_text(o: Option<String>) -> Option<Seq<char>> {
    match o {
        Some(s) => Some(s@),
        None => None,
    }
}

/// `x - 1`, saturating at zero.
/// `a - b`, or zero.
pub open spec fn sat_sub(a: usize, b: usize) -> usize {
    if a >= b {
        (a - b) as usize
    } else {
        0
    }
}

pub open spec fn sat_dec(x: usize) -> usize {
    if x > 0 {
        (x - 1) as usize
    } else {
        0
    }
}

/// `x + 1`, saturating at `usize::MAX`.
pub open spec fn sat_inc(x: usize) -> usize {
    if x < usize::MAX {
        (x + 1) as usize
    } else {
        usize::MAX
    }
}

/// A one-line input with a prompt, a caret, a history of entered commands
/// and the state of tab completion.
pub struct CommandBar {
    prompt: String,
    value: Line,
    caret_pos: usize,
    needs_redraw: bool,
    size: Size,
    history: Vec<String>,
    history_index: Option<usize>,
    current_input: Option<Line>,
    completion_matches: Vec<String>,
    completion_index: Option<usize>,
    original_input: Option<String>,
}

impl CommandBar {
    pub closed spec fn prompt_view(&self) -> Seq<char> {
        self.prompt@
    }

    /// The text entered so far.
    pub closed spec fn value_view(&self) -> Seq<char> {
        self.value@
    }

    pub closed spec fn caret(&self) -> usize {
        self.caret_pos
    }

    pub closed spec fn redraw_flag(&self) -> bool {
        self.needs_redraw
    }

    pub closed spec fn size_view(&self) -> Size {
        self.size
    }

    /// The entered commands, oldest first.
    pub closed spec fn history_view(&self) -> Seq<Seq<char>> {
        strings_view(self.history@)
    }

    /// The history entry shown, if the user is browsing the history.
    pub closed spec fn history_index_view(&self) -> Option<usize> {
        self.history_index
    }

    /// The input that was there before browsing the history started.
    pub closed spec fn saved_input(&self) -> Option<Seq<char>> {
        match self.current_input {
            Some(l) => Some(l@),
            None => None,
        }
    }

    /// The completion candidates, the chosen one, and the text completed.
    pub closed spec fn completion_view(&self) -> (Seq<Seq<char>>, Option<usize>, Option<Seq<char>>) {
        (strings_view(self.completion_matches@), self.completion_index, opt_text(self.original_input))
    }

    /// The value and the saved input are well formed; history entries fit on
    /// a line; the shown history entry exists.
    pub closed spec fn wf(&self) -> bool {
        &&& self.value.wf()
        &&& line_fits(self.prompt@)
        &&& self.history@.len() == self.history.len()
        &&& (self.current_input matches Some(l) ==> l.wf())
        &&& forall|i: int| 0 <= i < self.history@.len() ==> line_fits(#[trigger] self.history@[i]@)
        &&& (self.history_index matches Some(i) ==> i < self.history@.len())
    }

    /// All fields but the redraw flag are as in `other`.
    pub closed spec fn same_but_redraw(&self, other: &Self) -> bool {
        &&& self.prompt == other.prompt
        &&& self.value == other.value
        &&& self.caret_pos == other.caret_pos
        &&& self.size == other.size
        &&& self.history == other.history
        &&& self.history_index == other.history_index
        &&& self.current_input == other.current_input
        &&& self.completion_matches == other.completion_matches
        &&& self.completion_index == other.completion_index
        &&& self.original_input == other.original_input
    }

    /// Everything but the value, the caret, the history browsing state and
    /// the redraw flag is as in `other`.
    pub open spec fn same_setup(&self, other: &Self) -> bool {
        &&& self.prompt_view() == other.prompt_view()
        &&& self.size_view() == other.size_view()
        &&& self.history_view() == other.history_view()
    }

    /// An empty command bar without prompt.
    pub fn new() -> (r: Self)
        ensures
            r.wf(),
            r.prompt_view().len() == 0,
            r.value_view().len() == 0,
            r.caret() == 0,
            r.history_view().len() == 0,
            r.history_index_view() is None,
            r.saved_input() is None,
            r.completion_view().0.len() == 0,
            r.completion_view().1 is None,
            r.completion_view().2 is None,
            !r.redraw_flag(),
            r.size_view() == (Size { height: 0, width: 0 }),
    {
        let r = CommandBar {
            prompt: String::new(),
            value: Line::empty(),
            caret_pos: 0,
            needs_redraw: false,
            size: Size { height: 0, width: 0 },
            history: Vec::new(),
            history_index: None,
            current_input: None,
            completion_matches: Vec::new(),
            completion_index: None,
            original_input: None,
        };
        assert(r.completion_view().0 =~= Seq::<Seq<char>>::empty());
        assert(r.history_view() =~= Seq::<Seq<char>>::empty());
        r
    }

    /// The value after an edit at the caret.
    pub open spec fn edited_value(value: Seq<char>, caret: usize, command: Edit) -> Seq<char> {
        let gs = grapheme_clusters(value);
        match command {
            Edit::Insert(c) => {
                let k = if caret < gs.len() { caret as int } else { gs.len() as int };
                splice_graphemes(gs, k, k, seq![c])
            },
            Edit::Replace(c) => if caret < gs.len() {
                splice_graphemes(gs, caret as int, caret + 1, seq![c])
            } else {
                value
            },
            Edit::Delete => if caret < gs.len() {
                splice_graphemes(gs, caret as int, caret + 1, Seq::empty())
            } else {
                value
            },
            Edit::DeleteBackward => if caret > 0 {
                if ((caret - 1) as nat) < gs.len() {
                    splice_graphemes(gs, caret - 1, caret as int, Seq::empty())
                } else {
                    value
                }
            } else {
                value
            },
            _ => value,
        }
    }

    /// The caret after an edit.
    pub open spec fn edited_caret(caret: usize, command: Edit) -> usize {
        match command {
            Edit::Insert(_) => sat_inc(caret),
            Edit::DeleteBackward => sat_dec(caret),
            _ => caret,
        }
    }

    /// Applies an edit at the caret. Every edit but completion drops the
    /// completion state; every edit ends history browsing.
    pub fn handle_edit_command(&mut self, command: Edit)
        requires
            old(self).wf(),
            old(self).value_view().len() < usize::MAX / 64,
        ensures
            final(self).wf(),
            final(self).value_view() == Self::edited_value(old(self).value_view(), old(self).caret(), command),
            final(self).caret() == Self::edited_caret(old(self).caret(), command),
            final(self).same_setup(&*old(self)),
            final(self).history_index_view() is None,
            final(self).saved_input() is None,
            final(self).redraw_flag(),
            command == Edit::Complete ==> final(self).completion_view() == old(self).completion_view(),
            command != Edit::Complete ==> final(self).completion_view().0.len() == 0
                && final(self).completion_view().1 is None && final(self).completion_view().2 is None,
    {
        if command != Edit::Complete {
            self.clear_completion();
        }
        match command {
            Edit::Insert(character) => {
                self.value.insert_char(character, self.caret_pos);
                self.caret_pos = self.caret_pos.saturating_add(1);
            },
            Edit::Replace(character) => {
                if self.caret_pos < self.value.grapheme_count() {
                    self.value.replace_char(character, self.caret_pos);
                }
            },
            Edit::Delete => {
                if self.caret_pos < self.value.grapheme_count() {
                    self.value.delete(self.caret_pos);
                }
            },
            Edit::DeleteBackward => {
                if self.caret_pos > 0 {
                    self.caret_pos = self.caret_pos - 1;
                    self.value.delete(self.caret_pos);
                }
            },
            Edit::InsertNewline | Edit::Undo | Edit::Redo | Edit::Complete => {},
        }
        self.history_index = None;
        self.current_input = None;
        self.set_needs_redraw(true);
    }

    /// The text entered so far.
    pub fn value(&self) -> (s: String)
        ensures
            s@ == self.value_view(),
    {
        self.value.to_string()
    }

    /// The screen column of the caret: after the prompt (counted in bytes)
    /// and the value's graphemes before the caret, at most the bar's width.
    pub fn caret_position_col(&self) -> (col: usize)
        requires
            self.wf(),
        ensures
            col == ({
                let c = utf8_len(self.prompt_view()) + text_columns_until(self.value_view(), self.caret() as nat);
                let c = if c <= usize::MAX { c } else { usize::MAX as nat };
                if c <= self.size_view().width { c } else { self.size_view().width as nat }
            }),
    {
        proof {
            crate::text::lemma_utf8_len_upper(self.prompt@);
        }
        let plen = self.prompt.as_str().len();
        let col = plen.saturating_add(self.value.width_until(self.caret_pos));
        if col <= self.size.width {
            col
        } else {
            self.size.width
        }
    }

    /// Sets the prompt.
    pub fn set_prompt(&mut self, prompt: &str)
        requires
            old(self).wf(),
            line_fits(prompt@),
        ensures
            final(self).wf(),
            final(self).prompt_view() == prompt@,
            final(self).value_view() == old(self).value_view(),
            final(self).caret() == old(self).caret(),
            final(self).size_view() == old(self).size_view(),
            final(self).history_view() == old(self).history_view(),
            final(self).history_index_view() == old(self).history_index_view(),
            final(self).saved_input() == old(self).saved_input(),
            final(self).completion_view() == old(self).completion_view(),
            final(self).redraw_flag(),
    {
        self.prompt = copy_str(prompt);
        self.set_needs_redraw(true);
    }

    /// Clears the prompt and the value.
    pub fn clear(&mut self)
        requires
            old(self).wf(),
        ensures
            final(self).wf(),
            final(self).prompt_view().len() == 0,
            final(self).value_view().len() == 0,
            final(self).caret() == 0,
            final(self).size_view() == old(self).size_view(),
            final(self).history_view() == old(self).history_view(),
            final(self).history_index_view() is None,
            final(self).saved_input() is None,
            final(self).completion_view().0.len() == 0,
            final(self).completion_view().1 is None,
            final(self).completion_view().2 is None,
            final(self).redraw_flag(),
    {
        self.prompt = String::new();
        self.clear_value();
    }

    /// Clears the value, the history browsing and the completion state.
    pub fn clear_value(&mut self)
        requires
            old(self).wf(),
        ensures
            final(self).wf(),
            final(self).prompt_view() == old(self).prompt_view(),
            final(self).value_view().len() == 0,
            final(self).caret() == 0,
            final(self).size_view() == old(self).size_view(),
            final(self).history_view() == old(self).history_view(),
            final(self).history_index_view() is None,
            final(self).saved_input() is None,
            final(self).completion_view().0.len() == 0,
            final(self).completion_view().1 is None,
            final(self).completion_view().2 is None,
            final(self).redraw_flag(),
    {
        self.value = Line::empty();
        self.caret_pos = 0;
        self.history_index = None;
        self.current_input = None;
        self.clear_completion();
        self.set_needs_redraw(true);
    }

    /// Drops the completion state.
    fn clear_completion(&mut self)
        requires
            old(self).wf(),
        ensures
            final(self).wf(),
            final(self).completion_view().0.len() == 0,
            final(self).completion_view().1 is None,
            final(self).completion_view().2 is None,
            final(self).prompt_view() == old(self).prompt_view(),
            final(self).value_view() == old(self).value_view(),
            final(self).value == old(self).value,
            final(self).caret() == old(self).caret(),
            final(self).size_view() == old(self).size_view(),
            final(self).history_view() == old(self).history_view(),
            final(self).history_index_view() == old(self).history_index_view(),
            final(self).saved_input() == old(self).saved_input(),
            final(self).redraw_flag() == old(self).redraw_flag(),
    {
        self.completion_matches.clear();
        self.completion_index = None;
        self.original_input = None;
        assert(self.completion_view().0 =~= Seq::<Seq<char>>::empty());
    }

    /// A copy of the completion state.
    pub fn get_completion_state(&self) -> (r: (Vec<String>, Option<usize>, Option<String>))
        ensures
            strings_view(r.0@) == self.completion_view().0,
            r.1 == self.completion_view().1,
            opt_text(r.2) == self.completion_view().2,
    {
        let mut matches: Vec<String> = Vec::new();
        let mut i: usize = 0;
        while i < self.completion_matches.len()
            invariant
                i <= self.completion_matches@.len(),
                matches@.len() == i,
                strings_view(matches@) == strings_view(self.completion_matches@).take(i as int),
            decreases self.completion_matches@.len() - i,
        {
            let ghost before = matches@;
            let item = copy_str(self.completion_matches[i].as_str());
            matches.push(item);
            assert forall|j: int| 0 <= j < i + 1 implies strings_view(matches@)[j]
                == strings_view(self.completion_matches@).take(i + 1)[j] by {
                if j < i {
                    assert(strings_view(before)[j] == strings_view(self.completion_matches@).take(i as int)[j]);
                }
            }
            assert(strings_view(matches@) =~= strings_view(self.completion_matches@).take(i + 1));
            i = i + 1;
        }
        assert(strings_view(self.completion_matches@).take(i as int) =~= strings_view(self.completion_matches@));
        let original = match &self.original_input {
            Some(s) => Some(s.clone()),
            None => None,
        };
        (matches, self.completion_index, original)
    }

    /// Replaces the completion state.
    pub fn set_completion_state(&mut self, matches: Vec<String>, index: Option<usize>, original: Option<String>)
        requires
            old(self).wf(),
        ensures
            final(self).wf(),
            final(self).completion_view() == (strings_view(matches@), index, opt_text(original)),
            final(self).prompt_view() == old(self).prompt_view(),
            final(self).value_view() == old(self).value_view(),
            final(self).caret() == old(self).caret(),
            final(self).size_view() == old(self).size_view(),
            final(self).history_view() == old(self).history_view(),
            final(self).history_index_view() == old(self).history_index_view(),
            final(self).saved_input() == old(self).saved_input(),
            final(self).redraw_flag() == old(self).redraw_flag(),
    {
        self.completion_matches = matches;
        self.completion_index = index;
        self.original_input = original;
    }

    /// Replaces the value and puts the caret after it.
    pub fn set_value(&mut self, value: &str)
        requires
            old(self).wf(),
            line_fits(value@),
        ensures
            final(self).wf(),
            final(self).value_view() == value@,
            final(self).caret() == grapheme_clusters(value@).len(),
            final(self).same_setup(&*old(self)),
            final(self).history_index_view() == old(self).history_index_view(),
            final(self).saved_input() == old(self).saved_input(),
            final(self).completion_view() == old(self).completion_view(),
            final(self).redraw_flag(),
    {
        self.value = Line::from(value);
        self.caret_pos = self.value.grapheme_count();
        self.set_needs_redraw(true);
    }

    /// Adds an entered command to the history, unless it is empty or repeats
    /// the latest entry; ends history browsing.
    pub fn add_to_history(&mut self, command: String)
        requires
            old(self).wf(),
            line_fits(command@),
        ensures
            final(self).wf(),
            final(self).history_view() == (if command@.len() > 0 && (old(self).history_view().len() == 0
                || old(self).history_view().last() != command@) {
                old(self).history_view().push(command@)
            } else {
                old(self).history_view()
            }),
            final(self).history_index_view() is None,
            final(self).saved_input() is None,
            final(self).prompt_view() == old(self).prompt_view(),
            final(self).value_view() == old(self).value_view(),
            final(self).caret() == old(self).caret(),
            final(self).size_view() == old(self).size_view(),
            final(self).completion_view() == old(self).completion_view(),
            final(self).redraw_flag() == old(self).redraw_flag(),
    {
        let n = self.history.len();
        let repeats = n > 0 && self.history[n - 1] == command;
        if !command.as_str().is_empty() && !repeats {
            let ghost c = command@;
            self.history.push(command);
            assert(self.history_view() =~= old(self).history_view().push(c));
        }
        self.history_index = None;
        self.current_input = None;
    }

    /// What browsing one entry up in the history does: the first step saves
    /// the input and shows the latest entry, later steps show the previous
    /// entry (staying at the oldest); the caret goes after the value.
    pub open spec fn history_up_post(old_bar: &Self, new_bar: &Self) -> bool {
        let h = old_bar.history_view();
        if h.len() == 0 {
            new_bar == old_bar
        } else {
            let i = match old_bar.history_index_view() {
                Some(i) => sat_dec(i),
                None => (h.len() - 1) as usize,
            };
            &&& new_bar.history_index_view() == Some(i)
            &&& new_bar.value_view() == h[i as int]
            &&& new_bar.caret() == grapheme_clusters(h[i as int]).len()
            &&& new_bar.saved_input() == (if old_bar.history_index_view() is None {
                Some(old_bar.value_view())
            } else {
                old_bar.saved_input()
            })
            &&& new_bar.same_setup(old_bar)
            &&& new_bar.completion_view() == old_bar.completion_view()
            &&& new_bar.redraw_flag()
        }
    }

    /// What browsing one entry down in the history does: show the next
    /// entry, or past the latest one restore the saved input; the caret goes
    /// after the value. Nothing happens when not browsing.
    pub open spec fn history_down_post(old_bar: &Self, new_bar: &Self) -> bool {
        let h = old_bar.history_view();
        match old_bar.history_index_view() {
            None => new_bar == old_bar,
            Some(i) => {
                let (idx, value, saved) = if i + 1 < h.len() {
                    (Some((i + 1) as usize), h[i + 1], old_bar.saved_input())
                } else {
                    (
                        None::<usize>,
                        match old_bar.saved_input() {
                            Some(v) => v,
                            None => Seq::<char>::empty(),
                        },
                        None::<Seq<char>>,
                    )
                };
                &&& new_bar.history_index_view() == idx
                &&& new_bar.value_view() == value
                &&& new_bar.caret() == grapheme_clusters(value).len()
                &&& new_bar.saved_input() == saved
                &&& new_bar.same_setup(old_bar)
                &&& new_bar.completion_view() == old_bar.completion_view()
                &&& new_bar.redraw_flag()
            },
        }
    }

    /// Shows the previous history entry, as `history_up_post` describes.
    pub fn navigate_history_up(&mut self)
        requires
            old(self).wf(),
        ensures
            final(self).wf(),
            Self::history_up_post(&*old(self), &*final(self)),
    {
        if self.history.len() == 0 {
            return;
        }
        if self.history_index.is_none() {
            self.current_input = Some(self.value.clone());
        }
        let new_index = match self.history_index {
            Some(i) => i.saturating_sub(1),
            None => self.history.len() - 1,
        };
        self.history_index = Some(new_index);
        self.value = Line::from(self.history[new_index].as_str());
        self.caret_pos = self.value.grapheme_count();
        self.set_needs_redraw(true);
    }

    /// Shows the next history entry or the saved input, as
    /// `history_down_post` describes.
    pub fn navigate_history_down(&mut self)
        requires
            old(self).wf(),
        ensures
            final(self).wf(),
            Self::history_down_post(&*old(self), &*final(self)),
    {
        if let Some(i) = self.history_index {
            assert(i < self.history@.len());
            if i + 1 < self.history.len() {
                let new_index = i + 1;
                self.history_index = Some(new_index);
                self.value = Line::from(self.history[new_index].as_str());
            } else {
                self.history_index = None;
                let saved = self.current_input.take();
                self.value = match saved {
                    Some(l) => l,
                    None => Line::empty(),
                };
            }
            self.caret_pos = self.value.grapheme_count();
            self.set_needs_redraw(true);
        }
    }

    /// Moves the caret one grapheme left (not before the start).
    pub fn move_caret_left(&mut self)
        requires
            old(self).wf(),
        ensures
            final(self).wf(),
            final(self).caret() == sat_dec(old(self).caret()),
            final(self).value_view() == old(self).value_view(),
            final(self).same_setup(&*old(self)),
            final(self).history_index_view() == old(self).history_index_view(),
            final(self).saved_input() == old(self).saved_input(),
            final(self).completion_view() == old(self).completion_view(),
            final(self).redraw_flag(),
    {
        self.caret_pos = self.caret_pos.saturating_sub(1);
        self.set_needs_redraw(true);
    }

    /// Moves the caret one grapheme right (not beyond the end of the value).
    pub fn move_caret_right(&mut self)
        requires
            old(self).wf(),
        ensures
            final(self).wf(),
            final(self).caret() == ({
                let c = sat_inc(old(self).caret());
                let n = grapheme_clusters(old(self).value_view()).len();
                if c <= n { c as nat } else { n }
            }),
            final(self).value_view() == old(self).value_view(),
            final(self).same_setup(&*old(self)),
            final(self).history_index_view() == old(self).history_index_view(),
            final(self).saved_input() == old(self).saved_input(),
            final(self).completion_view() == old(self).completion_view(),
            final(self).redraw_flag(),
    {
        let c = self.caret_pos.saturating_add(1);
        let n = self.value.grapheme_count();
        self.caret_pos = if c <= n { c } else { n };
        self.set_needs_redraw(true);
    }

    /// Marks the bar as needing to be drawn again (or not).
    /// The row drawn: the prompt and as much of the end of the input as
    /// fits after it (the prompt's bytes counting as its width); nothing
    /// when the result has more bytes than the bar is wide.
    pub fn render_text(&self) -> (s: String)
        requires
            self.wf(),
        ensures
            ({
                let area = sat_sub(self.size_view().width, sat_usize(utf8_len(self.prompt_view())));
                let value_end = crate::line::column_at(
                    grapheme_clusters(self.value_view()),
                    grapheme_clusters(self.value_view()).len(),
                );
                let value_start = if value_end >= area { (value_end - area) as nat } else { 0 };
                let message = self.prompt_view() + crate::line::annotated_visible(
                    self.value_view(),
                    Seq::empty(),
                    value_start,
                    value_end,
                ).0;
                s@ == if sat_usize(utf8_len(message)) <= self.size_view().width {
                    message
                } else {
                    Seq::empty()
                }
            }),
    {
        let prompt_len = byte_len_sat(self.prompt.as_str());
        let area = self.size.width.saturating_sub(prompt_len);
        let value_end = self.value.width();
        let value_start = value_end.saturating_sub(area);
        let mut message = copy_str(self.prompt.as_str());
        let visible = self.value.get_visible_graphemes(value_start..value_end);
        message.append(visible.as_str());
        proof {
            self.value.lemma_wf();
        }
        if byte_len_sat(message.as_str()) <= self.size.width {
            message
        } else {
            String::new()
        }
    }

    pub fn set_needs_redraw(&mut self, value: bool)
        ensures
            final(self).redraw_flag() == value,
            final(self).same_but_redraw(&*old(self)),
            final(self).wf() == old(self).wf(),
            final(self).prompt_view() == old(self).prompt_view(),
            final(self).value_view() == old(self).value_view(),
            final(self).caret() == old(self).caret(),
            final(self).size_view() == old(self).size_view(),
            final(self).history_view() == old(self).history_view(),
            final(self).history_index_view() == old(self).history_index_view(),
            final(self).saved_input() == old(self).saved_input(),
            final(self).completion_view() == old(self).completion_view(),
    {
        self.needs_redraw = value;
    }

    /// Whether the bar needs to be drawn again.
    pub fn needs_redraw(&self) -> (r: bool)
        ensures
            r == self.redraw_flag(),
    {
        self.needs_redraw
    }

    /// Sets the size of the bar.
    pub fn set_size(&mut self, size: Size)
        requires
            old(self).wf(),
        ensures
            final(self).wf(),
            final(self).size_view() == size,
            final(self).prompt_view() == old(self).prompt_view(),
            final(self).value_view() == old(self).value_view(),
            final(self).caret() == old(self).caret(),
            final(self).history_view() == old(self).history_view(),
            final(self).history_index_view() == old(self).history_index_view(),
            final(self).saved_input() == old(self).saved_input(),
            final(self).completion_view() == old(self).completion_view(),
            final(self).redraw_flag() == old(self).redraw_flag(),
    {
        self.size = size;
    }
}

/// Browsing up the history from the input and back down restores the input
/// and ends browsing.
pub proof fn lemma_history_up_down_restores(b0: CommandBar, b1: CommandBar, b2: CommandBar)
    requires
        b0.wf(),
        b0.history_view().len() > 0,
        b0.history_index_view() is None,
        CommandBar::history_up_post(&b0, &b1),
        CommandBar::history_down_post(&b1, &b2),
    ensures
        b2.value_view() == b0.value_view(),
        b2.history_index_view() is None,
        b2.saved_input() is None,
        b2.same_setup(&b0),
{
    assert(b0.history_view().len() == b0.history.len());
}

} // verus!
