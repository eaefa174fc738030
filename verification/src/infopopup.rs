//! A popup with a wrapped text, shown near the caret.
use vstd::prelude::*;

use crate::prelude::{Position, Size};
use crate::text::{
    byte_len_sat, copy_str, lines_of, pad_right, pad_string_right, push_char, sat_usize, split_whitespace,
    strings_view, text_lines, utf8_len, words,
};

verus! {

/// A text with a space on each side.
pub open spec fn padded(c: Seq<char>) -> Seq<char> {
    seq![' '] + c + seq![' ']
}

/// Whether a word of `w` bytes no longer fits after a line of `c` bytes
/// (with a space between) within `max` bytes.
pub open spec fn overflows(c: Seq<char>, w: Seq<char>, max: usize) -> bool {
    utf8_len(c) + utf8_len(w) + 1 > max
}

/// Filling words into lines of at most `max` bytes: the finished lines
/// (padded) and the line being filled. A word that does not fit starts a new
/// line, even after an empty one.
pub open spec fn wrap_acc(ws: Seq<Seq<char>>, max: usize) -> (Seq<Seq<char>>, Seq<char>)
    decreases ws.len(),
{
    if ws.len() == 0 {
        (Seq::empty(), Seq::empty())
    } else {
        let (ls, cur) = wrap_acc(ws.drop_last(), max);
        let w = ws.last();
        if overflows(cur, w, max) {
            (ls.push(padded(cur)), w)
        } else if cur.len() == 0 {
            (ls, w)
        } else {
            (ls, cur + seq![' '] + w)
        }
    }
}

/// The popup lines for one line of text.
pub open spec fn wrapped_line(line: Seq<char>, max: usize) -> Seq<Seq<char>> {
    let (ls, cur) = wrap_acc(words(line), max);
    if cur.len() > 0 {
        ls.push(padded(cur))
    } else {
        ls
    }
}

/// The popup lines for all lines of a text.
pub open spec fn wrapped_lines(lines: Seq<Seq<char>>, max: usize) -> Seq<Seq<char>>
    decreases lines.len(),
{
    if lines.len() == 0 {
        Seq::empty()
    } else {
        wrapped_lines(lines.drop_last(), max) + wrapped_line(lines.last(), max)
    }
}

/// The widest of `ls`, in bytes (saturating).
pub open spec fn max_width(ls: Seq<Seq<char>>) -> usize
    decreases ls.len(),
{
    if ls.len() == 0 {
        0
    } else {
        let m = max_width(ls.drop_last());
        let w = sat_usize(utf8_len(ls.last()));
        if w > m {
            w
        } else {
            m
        }
    }
}

/// Three quarters of the terminal width.
pub open spec fn wrap_width(terminal: Size) -> usize {
    sat_usize((terminal.width * 3) as nat) / 4
}

/// Where the popup goes: moved left to fit on the screen; vertically above
/// `p` if it fits there, else on the line below, and moved up to stay above
/// the status and message bars.
pub open spec fn popup_position(p: Position, size: Size, terminal: Size) -> Position {
    let max_height: int = if terminal.height >= 2 { terminal.height - 2 } else { 0 };
    Position {
        col: if p.col + size.width > terminal.width {
            if terminal.width >= size.width { (terminal.width - size.width) as usize } else { 0 }
        } else {
            p.col
        },
        row: if p.row + size.height > max_height {
            if max_height >= size.height { (max_height - size.height) as usize } else { 0 }
        } else if p.row >= size.height {
            (p.row - size.height) as usize
        } else {
            sat_usize((p.row + 1) as nat)
        },
    }
}

/// A popup holding a text wrapped to lines of equal width.
pub struct InfoPopup {
    position: Position,
    needs_redraw: bool,
    size: Size,
    lines: Vec<String>,
}

impl InfoPopup {
    pub closed spec fn position_view(&self) -> Position {
        self.position
    }

    pub closed spec fn size_view(&self) -> Size {
        self.size
    }

    pub closed spec fn lines_view(&self) -> Seq<Seq<char>> {
        strings_view(self.lines@)
    }

    pub closed spec fn redraw_flag(&self) -> bool {
        self.needs_redraw
    }

    /// The popup for `text` near `position`: each line of the text is wrapped
    /// at words to at most three quarters of the terminal width, each popup
    /// line gets a space on both sides and is padded to the widest one.
    pub fn new(position: Position, terminal_size: Size, text: &str) -> (r: Self)
        ensures
            ({
                let ls = wrapped_lines(text_lines(text@), wrap_width(terminal_size));
                let w = max_width(ls);
                &&& r.size_view() == (Size { height: ls.len() as usize, width: w })
                &&& r.lines_view().len() == ls.len()
                &&& forall|i: int| 0 <= i < ls.len() ==> #[trigger] r.lines_view()[i] == pad_right(ls[i], w as nat)
                &&& r.position_view() == popup_position(position, r.size_view(), terminal_size)
            }),
            r.redraw_flag(),
    {
        let max = if terminal_size.width <= usize::MAX / 3 { terminal_size.width * 3 } else { usize::MAX } / 4;
        let text_lines_v = lines_of(text);
        let ghost tl = text_lines(text@);
        let mut lines: Vec<String> = Vec::new();
        let mut li: usize = 0;
        assert(tl.take(0) =~= Seq::<Seq<char>>::empty());
        while li < text_lines_v.len()
            invariant
                li <= text_lines_v@.len(),
                strings_view(text_lines_v@) == tl,
                max == wrap_width(terminal_size),
                max <= usize::MAX / 4,
                strings_view(lines@) == wrapped_lines(tl.take(li as int), max),
            decreases text_lines_v@.len() - li,
        {
            let line = text_lines_v[li].as_str();
            assert(tl.take(li + 1).drop_last() =~= tl.take(li as int));
            assert(tl.take(li + 1).last() == line@);
            let ws = split_whitespace(line);
            let ghost wv = words(line@);
            let ghost base = strings_view(lines@);
            let mut current_line = String::new();
            let mut wi: usize = 0;
            assert(wv.take(0) =~= Seq::<Seq<char>>::empty());
            while wi < ws.len()
                invariant
                    wi <= ws@.len(),
                    strings_view(ws@) == wv,
                    max <= usize::MAX / 4,
                    ({
                        let (ls, cur) = wrap_acc(wv.take(wi as int), max);
                        strings_view(lines@) == base + ls && current_line@ == cur
                    }),
                decreases ws@.len() - wi,
            {
                let word = ws[wi].as_str();
                assert(wv.take(wi + 1).drop_last() =~= wv.take(wi as int));
                assert(wv.take(wi + 1).last() == word@);
                let cl = byte_len_sat(current_line.as_str());
                let wl = byte_len_sat(word);
                assert((cl.saturating_add(wl).saturating_add(1) > max) == overflows(current_line@, word@, max));
                if cl.saturating_add(wl).saturating_add(1) > max {
                    let mut p = String::new();
                    push_char(&mut p, ' ');
                    p.append(current_line.as_str());
                    push_char(&mut p, ' ');
                    assert(p@ =~= padded(current_line@));
                    let ghost before = lines@;
                    lines.push(p);
                    assert(strings_view(lines@) =~= strings_view(before).push(padded(current_line@)));
                    current_line = copy_str(word);
                } else {
                    if !current_line.as_str().is_empty() {
                        push_char(&mut current_line, ' ');
                    }
                    current_line.append(word);
                }
                wi = wi + 1;
            }
            assert(wv.take(ws@.len() as int) =~= wv);
            if !current_line.as_str().is_empty() {
                let mut p = String::new();
                push_char(&mut p, ' ');
                p.append(current_line.as_str());
                push_char(&mut p, ' ');
                assert(p@ =~= padded(current_line@));
                let ghost before = lines@;
                lines.push(p);
                assert(strings_view(lines@) =~= strings_view(before).push(padded(current_line@)));
            }
            assert(strings_view(lines@) =~= base + wrapped_line(line@, max));
            li = li + 1;
        }
        assert(tl.take(text_lines_v@.len() as int) =~= tl);
        let ghost ls = wrapped_lines(tl, max);
        let mut width: usize = 0;
        let mut k: usize = 0;
        while k < lines.len()
            invariant
                k <= lines@.len(),
                strings_view(lines@) == ls,
                width == max_width(ls.take(k as int)),
            decreases lines@.len() - k,
        {
            assert(ls.take(k + 1).drop_last() =~= ls.take(k as int));
            assert(ls.take(k + 1).last() == lines@[k as int]@);
            let l = byte_len_sat(lines[k].as_str());
            if l > width {
                width = l;
            }
            k = k + 1;
        }
        assert(ls.take(lines@.len() as int) =~= ls);
        let height = lines.len();
        let mut padded_lines: Vec<String> = Vec::new();
        let mut m: usize = 0;
        while m < lines.len()
            invariant
                m <= lines@.len(),
                strings_view(lines@) == ls,
                padded_lines@.len() == m,
                forall|i: int| 0 <= i < m ==> (#[trigger] padded_lines@[i])@ == pad_right(ls[i], width as nat),
            decreases lines@.len() - m,
        {
            let mut l = copy_str(lines[m].as_str());
            pad_string_right(&mut l, width);
            padded_lines.push(l);
            m = m + 1;
        }
        let size = Size { height, width };
        let max_height = terminal_size.height.saturating_sub(2);
        let mut position = position;
        if position.col > terminal_size.width || terminal_size.width - position.col < size.width {
            position.col = terminal_size.width.saturating_sub(size.width);
        }
        if position.row > max_height || max_height - position.row < size.height {
            position.row = max_height.saturating_sub(size.height);
        } else {
            if position.row >= size.height {
                position.row = position.row - size.height;
            } else {
                position.row = position.row.saturating_add(1);
            }
        }
        InfoPopup { position, needs_redraw: true, size, lines: padded_lines }
    }

    /// The lines to draw, top to bottom.
    pub fn lines(&self) -> (r: &Vec<String>)
        ensures
            strings_view(r@) == self.lines_view(),
    {
        &self.lines
    }

    /// Where the popup's top left corner is.
    pub fn position(&self) -> (p: Position)
        ensures
            p == self.position_view(),
    {
        self.position
    }

    pub fn set_needs_redraw(&mut self, value: bool)
        ensures
            final(self).redraw_flag() == value,
            final(self).lines_view() == old(self).lines_view(),
            final(self).position_view() == old(self).position_view(),
            final(self).size_view() == old(self).size_view(),
    {
        self.needs_redraw = value;
    }

    pub fn needs_redraw(&self) -> (r: bool)
        ensures
            r == self.redraw_flag(),
    {
        self.needs_redraw
    }

    pub fn set_size(&mut self, size: Size)
        ensures
            final(self).size_view() == size,
            final(self).redraw_flag() == old(self).redraw_flag(),
            final(self).lines_view() == old(self).lines_view(),
            final(self).position_view() == old(self).position_view(),
    {
        self.size = size;
    }
}

} // verus!
