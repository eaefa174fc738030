//! The view of a buffer: the caret, the selection, scrolling, search, and
//! the edits and movements the editor applies to it.
use vstd::prelude::*;

use crate::buffer::{text_fits, total_size, Buffer};
use crate::command::{Edit, Move};
use crate::documentstatus::DocumentStatus;
use crate::fileinfo::FileInfo;
use crate::filetype::FileType;
use crate::highlighter::Diagnostic;
use crate::line::{line_fits, text_columns_until, Line};
use crate::prelude::{location_le, Location, Position, Size};
use crate::text::{chars_of, copy_str, decimal, grapheme_clusters, usize_to_string};
use crate::treesitter::{create_syntax_highlighter, has_syntax, TreeSitterHighlighter};

verus! {

// ---------------------------------------------------------------------------
// Arithmetic and layout
// ---------------------------------------------------------------------------

pub open spec fn sat_add(a: usize, b: usize) -> usize {
    if a + b <= usize::MAX {
        (a + b) as usize
    } else {
        usize::MAX
    }
}

pub open spec fn sat_sub(a: usize, b: usize) -> usize {
    if a >= b {
        (a - b) as usize
    } else {
        0
    }
}

pub open spec fn min_usize(a: usize, b: usize) -> usize {
    if a <= b {
        a
    } else {
        b
    }
}

/// Graphemes of line `idx` of `ls`; zero beyond the last line.
pub open spec fn count_at(ls: Seq<Seq<char>>, idx: int) -> nat {
    if 0 <= idx < ls.len() {
        grapheme_clusters(ls[idx]).len()
    } else {
        0
    }
}

/// The index of the last line (zero for no lines).
pub open spec fn last_line(ls: Seq<Seq<char>>) -> usize {
    if ls.len() > 0 {
        (ls.len() - 1) as usize
    } else {
        0
    }
}

/// The width of the gutter that shows line numbers: the digits of the line
/// count, at least three, and a space.
pub open spec fn gutter_of(height: nat) -> usize {
    let d = decimal(height).len();
    ((if d >= 3 { d } else { 3 }) + 1) as usize
}

/// The screen column (before scrolling) of a location: the width of the
/// graphemes before it.
pub open spec fn column_of(ls: Seq<Seq<char>>, loc: Location) -> usize {
    if loc.line_idx < ls.len() {
        text_columns_until(ls[loc.line_idx as int], loc.grapheme_idx as nat) as usize
    } else {
        0
    }
}

/// Where a location is in the text laid out from the top left.
pub open spec fn position_of(ls: Seq<Seq<char>>, loc: Location) -> Position {
    Position { col: column_of(ls, loc), row: loc.line_idx }
}

/// The first visible row after scrolling row `to` into view.
pub open spec fn scroll_row(off: usize, to: usize, height: usize) -> usize {
    if to < off {
        to
    } else if to >= sat_add(off, height) {
        sat_add(sat_sub(to, height), 1)
    } else {
        off
    }
}

pub open spec fn row_scrolls(off: usize, to: usize, height: usize) -> bool {
    to < off || to >= sat_add(off, height)
}

/// The first visible column after scrolling column `to` into view, with
/// `gutter` columns taken by line numbers; nothing moves without room.
pub open spec fn scroll_col(off: usize, to: usize, width: usize, gutter: usize) -> usize {
    let usable = sat_sub(width, gutter);
    if usable == 0 {
        off
    } else if to < off {
        to
    } else if to >= sat_add(off, usable) {
        sat_add(sat_sub(to, usable), 1)
    } else {
        off
    }
}

pub open spec fn col_scrolls(off: usize, to: usize, width: usize, gutter: usize) -> bool {
    let usable = sat_sub(width, gutter);
    usable != 0 && (to < off || to >= sat_add(off, usable))
}

/// The scroll offset after bringing the location `loc` into view.
pub open spec fn scrolled_to(ls: Seq<Seq<char>>, off: Position, loc: Location, size: Size) -> Position {
    let p = position_of(ls, loc);
    Position {
        row: scroll_row(off.row, p.row, size.height),
        col: scroll_col(off.col, p.col, size.width, gutter_of(ls.len())),
    }
}

/// Whether bringing `loc` into view scrolls.
pub open spec fn scroll_moves(ls: Seq<Seq<char>>, off: Position, loc: Location, size: Size) -> bool {
    let p = position_of(ls, loc);
    row_scrolls(off.row, p.row, size.height) || col_scrolls(off.col, p.col, size.width, gutter_of(ls.len()))
}

// ---------------------------------------------------------------------------
// Caret movement
// ---------------------------------------------------------------------------

/// The line, moved to the last line if it is beyond it.
pub open spec fn snap_line(ls: Seq<Seq<char>>, loc: Location) -> Location {
    Location { line_idx: min_usize(loc.line_idx, last_line(ls)), ..loc }
}

/// The grapheme: the preferred one, or the end of the line if it is shorter.
pub open spec fn snap_grapheme(ls: Seq<Seq<char>>, loc: Location) -> Location {
    let c = count_at(ls, loc.line_idx as int);
    Location {
        grapheme_idx: if loc.preferred_grapheme_idx <= c { loc.preferred_grapheme_idx } else { c as usize },
        ..loc
    }
}

/// Moves to line `line` (snapped), keeping the preferred grapheme.
pub open spec fn to_line(ls: Seq<Seq<char>>, loc: Location, line: usize) -> Location {
    snap_grapheme(ls, snap_line(ls, Location { line_idx: line, ..loc }))
}

pub open spec fn at_grapheme(loc: Location, g: usize) -> Location {
    Location { grapheme_idx: g, preferred_grapheme_idx: g, ..loc }
}

/// One step right: the next grapheme, or the start of the next line.
pub open spec fn right_once(ls: Seq<Seq<char>>, loc: Location) -> Location {
    if loc.grapheme_idx < count_at(ls, loc.line_idx as int) {
        Location { grapheme_idx: (loc.grapheme_idx + 1) as usize, ..loc }
    } else {
        to_line(ls, at_grapheme(loc, 0), sat_add(loc.line_idx, 1))
    }
}

/// One step left: the previous grapheme, or the end of the previous line.
pub open spec fn left_once(ls: Seq<Seq<char>>, loc: Location) -> Location {
    if loc.grapheme_idx > 0 {
        Location { grapheme_idx: (loc.grapheme_idx - 1) as usize, ..loc }
    } else if loc.line_idx > 0 {
        let up = to_line(ls, loc, (loc.line_idx - 1) as usize);
        at_grapheme(up, count_at(ls, up.line_idx as int) as usize)
    } else {
        loc
    }
}

pub open spec fn right_steps(ls: Seq<Seq<char>>, loc: Location, k: nat) -> Location
    decreases k,
{
    if k == 0 {
        loc
    } else {
        right_once(ls, right_steps(ls, loc, (k - 1) as nat))
    }
}

pub open spec fn left_steps(ls: Seq<Seq<char>>, loc: Location, k: nat) -> Location
    decreases k,
{
    if k == 0 {
        loc
    } else {
        left_once(ls, left_steps(ls, loc, (k - 1) as nat))
    }
}

/// The preferred grapheme set to the current one.
pub open spec fn settle(loc: Location) -> Location {
    Location { preferred_grapheme_idx: loc.grapheme_idx, ..loc }
}

/// The first grapheme of the line that is not whitespace (zero for a blank line).
pub open spec fn first_non_blank_at(ls: Seq<Seq<char>>, line: usize) -> usize {
    if line < ls.len() {
        match crate::line::first_non_blank_from(grapheme_clusters(ls[line as int]), 0) {
            Some(i) => i as usize,
            None => 0,
        }
    } else {
        0
    }
}

/// Where a movement other than by words or jumps takes the caret, with
/// `scroll` the scroll offset and `size` the view's size.
pub open spec fn moved(ls: Seq<Seq<char>>, loc: Location, scroll: Position, size: Size, m: Move) -> Location {
    let h = size.height;
    match m {
        Move::Up(step) => to_line(ls, loc, sat_sub(loc.line_idx, step)),
        Move::Down(step) => to_line(ls, loc, sat_add(loc.line_idx, step)),
        Move::Left(step) => settle(left_steps(ls, loc, step as nat)),
        Move::Right(step) => settle(right_steps(ls, loc, step as nat)),
        Move::HalfPageUp => to_line(ls, loc, sat_sub(loc.line_idx, h / 2)),
        Move::HalfPageDown => to_line(ls, loc, sat_add(loc.line_idx, h / 2)),
        Move::PageUp => to_line(ls, loc, sat_sub(loc.line_idx, sat_sub(h, 1))),
        Move::PageDown => to_line(ls, loc, sat_add(loc.line_idx, sat_sub(h, 1))),
        Move::ViewTop => to_line(ls, loc, scroll.row),
        Move::ViewBottom => to_line(ls, loc, sat_sub(sat_add(scroll.row, h), 1)),
        Move::ViewCenter => to_line(ls, loc, sat_add(scroll.row, h / 2)),
        Move::StartOfLine => at_grapheme(loc, 0),
        Move::FirstNonWhitespace => at_grapheme(loc, first_non_blank_at(ls, loc.line_idx)),
        Move::EndOfLine => at_grapheme(loc, sat_sub(count_at(ls, loc.line_idx as int) as usize, 1)),
        Move::AfterEndOfLine => at_grapheme(loc, count_at(ls, loc.line_idx as int) as usize),
        Move::WordForward => word_forward(ls, loc),
        Move::WordBackward => word_backward(ls, loc),
        Move::WordEnd => word_end(ls, loc),
        Move::BufferStart => Location { line_idx: 0, grapheme_idx: 0, preferred_grapheme_idx: 0 },
        Move::BufferEnd => {
            let l = snap_line(ls, Location { line_idx: last_line(ls), ..loc });
            at_grapheme(l, sat_sub(count_at(ls, l.line_idx as int) as usize, 1))
        },
        Move::GoToLine(n) => at_grapheme(snap_line(ls, Location { line_idx: sat_sub(n, 1), ..loc }), 0),
        Move::JumpBackward | Move::JumpForward => loc,
    }
}

// ---------------------------------------------------------------------------
// Words
// ---------------------------------------------------------------------------

/// `char::is_alphanumeric`: the Unicode `Alphabetic` or `Numeric` property.
pub uninterp spec fn alphanumeric(c: char) -> bool;

/// `char::is_alphanumeric`, whose result depends on the character alone.
#[verifier::external_body]
pub fn char_is_alphanumeric(c: char) -> (r: bool)
    ensures
        r == alphanumeric(c),
{
    c.is_alphanumeric()
}

/// The first character of the grapheme at `loc`, if there is one.
pub open spec fn first_char_at(ls: Seq<Seq<char>>, loc: Location) -> Option<char> {
    if loc.line_idx < ls.len() {
        let gs = grapheme_clusters(ls[loc.line_idx as int]);
        if loc.grapheme_idx < gs.len() && gs[loc.grapheme_idx as int].len() > 0 {
            Some(gs[loc.grapheme_idx as int][0])
        } else {
            None
        }
    } else {
        None
    }
}

/// Word characters: alphanumeric or underscore.
pub open spec fn is_word_at(ls: Seq<Seq<char>>, loc: Location) -> bool {
    match first_char_at(ls, loc) {
        Some(c) => alphanumeric(c) || c == '_',
        None => false,
    }
}

/// Punctuation: neither word characters nor whitespace.
pub open spec fn is_punc_at(ls: Seq<Seq<char>>, loc: Location) -> bool {
    match first_char_at(ls, loc) {
        Some(c) => !alphanumeric(c) && !crate::text::is_whitespace_char(c) && c != '_',
        None => false,
    }
}

/// The next location: the next grapheme, the start of the next line, or
/// the same location at the end of the text.
pub open spec fn next_loc(ls: Seq<Seq<char>>, loc: Location) -> Location {
    if loc.grapheme_idx < count_at(ls, loc.line_idx as int) && loc.grapheme_idx < usize::MAX {
        Location { grapheme_idx: (loc.grapheme_idx + 1) as usize, ..loc }
    } else if loc.line_idx < usize::MAX && loc.line_idx + 1 < ls.len() {
        Location { line_idx: (loc.line_idx + 1) as usize, grapheme_idx: 0, ..loc }
    } else {
        loc
    }
}

/// The previous location: the previous grapheme, the end of the previous
/// line, or the same location at the start of the text.
pub open spec fn prev_loc(ls: Seq<Seq<char>>, loc: Location) -> Location {
    if loc.grapheme_idx > 0 {
        Location { grapheme_idx: (loc.grapheme_idx - 1) as usize, ..loc }
    } else if loc.line_idx > 0 {
        let l = (loc.line_idx - 1) as usize;
        Location { line_idx: l, grapheme_idx: count_at(ls, l as int) as usize, ..loc }
    } else {
        loc
    }
}

/// How far `loc` is from the end of the text, for termination.
pub open spec fn dist_to_end(ls: Seq<Seq<char>>, loc: Location) -> (nat, nat) {
    (
        if loc.line_idx < ls.len() { (ls.len() - loc.line_idx) as nat } else { 0 },
        if loc.grapheme_idx <= count_at(ls, loc.line_idx as int) {
            (count_at(ls, loc.line_idx as int) - loc.grapheme_idx) as nat
        } else {
            0
        },
    )
}

/// Scanning right from `loc` for the start of a word or punctuation group:
/// the caret stops before it (at the last location of the text if none).
pub open spec fn word_forward_scan(ls: Seq<Seq<char>>, loc: Location) -> Location
    decreases dist_to_end(ls, loc).0, dist_to_end(ls, loc).1,
{
    let next = next_loc(ls, loc);
    if next == loc {
        loc
    } else if (is_word_at(ls, next) && !is_word_at(ls, loc)) || (is_punc_at(ls, next) && !is_punc_at(ls, loc)) {
        loc
    } else {
        proof {
            lemma_next_loc_progress(ls, loc);
        }
        word_forward_scan(ls, next)
    }
}

pub proof fn lemma_next_loc_progress(ls: Seq<Seq<char>>, loc: Location)
    requires
        next_loc(ls, loc) != loc,
    ensures
        dist_to_end(ls, next_loc(ls, loc)).0 < dist_to_end(ls, loc).0 || (dist_to_end(ls, next_loc(ls, loc)).0
            == dist_to_end(ls, loc).0 && dist_to_end(ls, next_loc(ls, loc)).1 < dist_to_end(ls, loc).1),
{
}

/// The move to the next word: at least one step, then on to just before the
/// start of the next word or punctuation group.
pub open spec fn word_forward(ls: Seq<Seq<char>>, loc: Location) -> Location {
    let next = next_loc(ls, loc);
    if next == loc {
        loc
    } else {
        word_forward_scan(ls, next)
    }
}

/// How far `loc` is from the start of the text, for termination.
pub open spec fn dist_to_start(loc: Location) -> (nat, nat) {
    (loc.line_idx as nat, loc.grapheme_idx as nat)
}

/// Scanning left from `loc` for the start of a word or punctuation group.
pub open spec fn word_backward_scan(ls: Seq<Seq<char>>, loc: Location) -> Location
    decreases loc.line_idx, loc.grapheme_idx,
{
    let prev = prev_loc(ls, loc);
    if prev == loc {
        loc
    } else if (is_word_at(ls, loc) && !is_word_at(ls, prev)) || (is_punc_at(ls, loc) && !is_punc_at(ls, prev)) {
        loc
    } else {
        word_backward_scan(ls, prev)
    }
}

/// The move to the previous word start: at least one step back, then on to
/// the start of a word or punctuation group.
pub open spec fn word_backward(ls: Seq<Seq<char>>, loc: Location) -> Location {
    let prev = prev_loc(ls, loc);
    if prev == loc {
        loc
    } else {
        word_backward_scan(ls, prev)
    }
}

/// The first word character on line `line` from grapheme `i` on, before `n`.
pub open spec fn first_word_from(ls: Seq<Seq<char>>, line: usize, i: nat, n: nat) -> Option<nat>
    decreases n - i,
{
    if i >= n {
        None
    } else if is_word_at(ls, Location { line_idx: line, grapheme_idx: i as usize, preferred_grapheme_idx: i as usize }) {
        Some(i)
    } else {
        first_word_from(ls, line, i + 1, n)
    }
}

/// The last grapheme of the run of word characters starting at `j`.
pub open spec fn word_run_end(ls: Seq<Seq<char>>, line: usize, j: nat, n: nat) -> nat
    decreases n - j,
{
    if j + 1 >= n {
        j
    } else if !is_word_at(ls, Location { line_idx: line, grapheme_idx: (j + 1) as usize, preferred_grapheme_idx: (j + 1) as usize }) {
        j
    } else {
        word_run_end(ls, line, j + 1, n)
    }
}

/// The end of the next word: on the current line after the caret, else on
/// the following lines from their start; the end of the last line if there
/// is none.
pub open spec fn word_end(ls: Seq<Seq<char>>, loc: Location) -> Location
    decreases (if loc.line_idx < ls.len() { ls.len() - loc.line_idx } else { 0 }),
{
    if loc.line_idx >= ls.len() {
        loc
    } else {
        let n = count_at(ls, loc.line_idx as int);
        let s: nat = if loc.grapheme_idx < n { (loc.grapheme_idx + 1) as nat } else { n };
        match first_word_from(ls, loc.line_idx, s, n) {
            Some(i) => {
                let e = word_run_end(ls, loc.line_idx, i, n);
                Location { line_idx: loc.line_idx, grapheme_idx: e as usize, preferred_grapheme_idx: e as usize }
            },
            None => if loc.line_idx < usize::MAX && loc.line_idx + 1 < ls.len() {
                word_end(ls, Location { line_idx: (loc.line_idx + 1) as usize, grapheme_idx: 0, ..loc })
            } else {
                at_grapheme(loc, sat_sub(n as usize, 1))
            },
        }
    }
}

// ---------------------------------------------------------------------------
// The view
// ---------------------------------------------------------------------------

/// The state of a search: where it started and the query typed so far.
pub struct SearchInfo {
    pub prev_location: Location,
    pub prev_scroll_offset: Position,
    pub query: Option<Line>,
}

pub open spec fn opt_line_view(o: Option<Line>) -> Option<Seq<char>> {
    match o {
        Some(l) => Some(l@),
        None => None,
    }
}

pub open spec fn opt_line_wf(o: Option<Line>) -> bool {
    o matches Some(l) ==> l.wf()
}

/// A position in a document as the language server protocol counts it.
#[derive(Copy, Clone, Eq, PartialEq, Structural, Debug)]
pub struct LspPosition {
    pub line: u32,
    pub character: u32,
}

/// A buffer on screen.
pub struct TextView {
    buffer: Buffer,
    needs_redraw: bool,
    size: Size,
    text_location: Location,
    selection_start: Option<Location>,
    scroll_offset: Position,
    search_info: Option<SearchInfo>,
    last_search_query: Option<Line>,
    syntax_highlighter: Option<TreeSitterHighlighter>,
    syntax_enabled: bool,
    diagnostics: Vec<Diagnostic>,
}

impl TextView {
    /// The buffer shown.
    pub closed spec fn buf(&self) -> Buffer {
        self.buffer
    }

    /// The texts of the lines.
    pub open spec fn lines(&self) -> Seq<Seq<char>> {
        self.buf().lines_view()
    }

    pub closed spec fn loc(&self) -> Location {
        self.text_location
    }

    /// Where the selection started, if there is one; it ends at the caret.
    pub closed spec fn selection(&self) -> Option<Location> {
        self.selection_start
    }

    pub closed spec fn scroll(&self) -> Position {
        self.scroll_offset
    }

    pub closed spec fn size_view(&self) -> Size {
        self.size
    }

    pub closed spec fn redraw_flag(&self) -> bool {
        self.needs_redraw
    }

    /// The search in progress: where it started, the scroll offset then, and
    /// its query.
    pub closed spec fn search_view(&self) -> Option<(Location, Position, Option<Seq<char>>)> {
        match self.search_info {
            Some(i) => Some((i.prev_location, i.prev_scroll_offset, opt_line_view(i.query))),
            None => None,
        }
    }

    /// The query of the last search.
    pub closed spec fn last_query(&self) -> Option<Seq<char>> {
        opt_line_view(self.last_search_query)
    }

    pub closed spec fn syntax_on(&self) -> bool {
        self.syntax_enabled
    }

    pub closed spec fn has_highlighter(&self) -> bool {
        self.syntax_highlighter is Some
    }

    pub closed spec fn diagnostics_view(&self) -> Seq<Diagnostic> {
        self.diagnostics@
    }

    pub closed spec fn wf(&self) -> bool {
        &&& self.buffer.wf()
        &&& opt_line_wf(self.last_search_query)
        &&& (self.search_info matches Some(i) ==> opt_line_wf(i.query))
        &&& (self.syntax_highlighter matches Some(h) ==> h.has_grammar())
    }

    /// Everything but the caret, the scroll offset and the redraw flag is as
    /// in `other`.
    pub open spec fn same_but_caret(&self, other: &Self) -> bool {
        &&& self.buf() == other.buf()
        &&& self.selection() == other.selection()
        &&& self.size_view() == other.size_view()
        &&& self.search_view() == other.search_view()
        &&& self.last_query() == other.last_query()
        &&& self.syntax_on() == other.syntax_on()
        &&& self.has_highlighter() == other.has_highlighter()
        &&& self.diagnostics_view() == other.diagnostics_view()
    }

    /// An empty view: one empty line, nothing selected or searched, marked
    /// for drawing.
    pub fn new() -> (r: Self)
        ensures
            r.wf(),
            r.lines() == seq![Seq::<char>::empty()],
            r.buf().undo_view().len() == 0,
            r.buf().redo_view().len() == 0,
            r.buf().info().path_view() is None,
            r.loc() == (Location { line_idx: 0, grapheme_idx: 0, preferred_grapheme_idx: 0 }),
            r.selection() is None,
            r.scroll() == (Position { col: 0, row: 0 }),
            r.size_view() == (Size { height: 0, width: 0 }),
            r.search_view() is None,
            r.last_query() is None,
            !r.syntax_on(),
            !r.has_highlighter(),
            r.diagnostics_view().len() == 0,
            r.redraw_flag(),
    {
        let mut lines: Vec<Line> = Vec::new();
        lines.push(Line::empty());
        proof {
            let one = seq![Seq::<char>::empty()];
            assert(crate::buffer::texts(lines@) =~= one);
            assert(one.drop_last() =~= Seq::<Seq<char>>::empty());
            assert(total_size(Seq::<Seq<char>>::empty()) == 0);
            assert(total_size(one) == total_size(one.drop_last()) + one.last().len() + 1);
        }
        let buffer = Buffer::new_with_lines(lines, FileInfo::empty());
        TextView {
            buffer,
            needs_redraw: true,
            size: Size { height: 0, width: 0 },
            text_location: Location { line_idx: 0, grapheme_idx: 0, preferred_grapheme_idx: 0 },
            selection_start: None,
            scroll_offset: Position { col: 0, row: 0 },
            search_info: None,
            last_search_query: None,
            syntax_highlighter: None,
            syntax_enabled: false,
            diagnostics: Vec::new(),
        }
    }

    pub fn can_undo(&self) -> (r: bool)
        ensures
            r == (self.buf().undo_view().len() > 0),
    {
        self.buffer.can_undo()
    }

    pub fn can_redo(&self) -> (r: bool)
        ensures
            r == (self.buf().redo_view().len() > 0),
    {
        self.buffer.can_redo()
    }

    pub fn has_selection(&self) -> (r: bool)
        ensures
            r == self.selection() is Some,
    {
        self.selection_start.is_some()
    }

    /// Whether there is something to paste: text in the editor's clipboard,
    /// or else in the system clipboard (`system_clipboard`, as read from it,
    /// `None` when it could not be read).
    pub fn can_paste(&self, internal_clipboard: &str, system_clipboard: Option<&str>) -> (r: bool)
        ensures
            r == (internal_clipboard@.len() > 0 || (system_clipboard matches Some(t) && t@.len() > 0)),
    {
        if !internal_clipboard.is_empty() {
            return true;
        }
        match system_clipboard {
            Some(text) => !text.is_empty(),
            None => false,
        }
    }

    /// The width of the line number gutter.
    pub fn gutter_width(&self) -> (w: usize)
        ensures
            w == gutter_of(self.lines().len()),
    {
        let total_lines = self.buffer.height();
        let digits = chars_of(usize_to_string(total_lines).as_str()).len();
        proof {
            crate::text::lemma_decimal_len(total_lines as nat);
        }
        let d = if digits >= 3 { digits } else { 3 };
        d + 1
    }

    /// The caret's position in the laid out text.
    fn text_location_to_position(&self) -> (p: Position)
        requires
            self.wf(),
        ensures
            p == position_of(self.lines(), self.loc()),
    {
        let row = self.text_location.line_idx;
        let col = self.buffer.width_until(row, self.text_location.grapheme_idx);
        Position { col, row }
    }

    /// The caret's position on screen: after scrolling, right of the gutter.
    pub fn caret_position(&self) -> (p: Position)
        requires
            self.wf(),
        ensures
            p == ({
                let q = position_of(self.lines(), self.loc());
                Position {
                    col: sat_add(sat_sub(q.col, self.scroll().col), gutter_of(self.lines().len())),
                    row: sat_sub(q.row, self.scroll().row),
                }
            }),
    {
        let mut position = self.text_location_to_position().saturating_sub(self.scroll_offset);
        position.col = position.col.saturating_add(self.gutter_width());
        position
    }

    /// The caret.
    pub fn text_location(&self) -> (l: Location)
        ensures
            l == self.loc(),
    {
        self.text_location
    }

    /// The status bar's view of the document, in `mode`.
    pub fn get_status(&self, mode: &str) -> (s: DocumentStatus)
        requires
            self.wf(),
        ensures
            s.total_lines == self.lines().len(),
            s.current_line_idx == self.loc().line_idx,
            s.current_col_idx == column_of(self.lines(), self.loc()),
            s.is_modified == (self.buf().undo_view().len() > 0),
            s.file_type == self.buf().info().file_type_view(),
            s.mode@ == mode@,
            s.file_name@ == match self.buf().info().display_name_view() {
                Some(n) => n,
                None => match self.buf().info().path_view() {
                    Some(p) => match crate::fileinfo::path_file_name(p) {
                        Some(n) => n,
                        None => "[No Name]"@,
                    },
                    None => "[No Name]"@,
                },
            },
    {
        let file_info = self.buffer.get_file_info();
        DocumentStatus {
            total_lines: self.buffer.height(),
            current_line_idx: self.text_location.line_idx,
            current_col_idx: self.text_location_to_position().col,
            file_name: file_info.to_string(),
            is_modified: self.buffer.is_dirty(),
            file_type: file_info.get_file_type(),
            mode: copy_str(mode),
        }
    }

    /// The path of the file shown, if there is one.
    pub fn get_path(&self) -> (r: Option<&str>)
        ensures
            match self.buf().info().path_view() {
                Some(p) => r matches Some(s) && s@ == p,
                None => r is None,
            },
    {
        self.buffer.get_file_info().get_path()
    }

    /// The kind of file shown.
    pub fn file_type(&self) -> (t: FileType)
        ensures
            t == self.buf().info().file_type_view(),
    {
        self.buffer.get_file_info().get_file_type()
    }

    /// What saving writes: every line followed by a newline.
    pub fn file_contents(&self) -> (s: String)
        requires
            self.wf(),
        ensures
            s@ == crate::text::terminate_lines(self.lines()),
    {
        self.buffer.file_contents()
    }

    /// The caret as the language server protocol counts positions (lines
    /// and graphemes cut to 32 bits).
    pub fn get_lsp_position(&self) -> (p: LspPosition)
        ensures
            p.line == self.loc().line_idx as u32,
            p.character == self.loc().grapheme_idx as u32,
    {
        LspPosition { line: self.text_location.line_idx as u32, character: self.text_location.grapheme_idx as u32 }
    }

    /// Replaces the diagnostics shown.
    pub fn update_diagnostics(&mut self, diagnostics: Vec<Diagnostic>)
        ensures
            final(self).diagnostics_view() == diagnostics@,
            final(self).redraw_flag(),
            final(self).buf() == old(self).buf(),
            final(self).loc() == old(self).loc(),
            final(self).selection() == old(self).selection(),
            final(self).scroll() == old(self).scroll(),
            final(self).size_view() == old(self).size_view(),
            final(self).search_view() == old(self).search_view(),
            final(self).last_query() == old(self).last_query(),
            final(self).syntax_on() == old(self).syntax_on(),
            final(self).wf() == old(self).wf(),
    {
        self.diagnostics = diagnostics;
        self.needs_redraw = true;
    }

    pub fn set_needs_redraw(&mut self, value: bool)
        ensures
            final(self).redraw_flag() == value,
            final(self).buf() == old(self).buf(),
            final(self).loc() == old(self).loc(),
            final(self).scroll() == old(self).scroll(),
            final(self).same_but_caret(&*old(self)),
            final(self).wf() == old(self).wf(),
    {
        self.needs_redraw = value;
    }

    pub fn needs_redraw(&self) -> (r: bool)
        ensures
            r == self.redraw_flag(),
    {
        self.needs_redraw
    }

    /// Whether the buffer belongs to a file.
    pub fn is_file_loaded(&self) -> (r: bool)
        ensures
            r == self.buf().info().path_view() is Some,
    {
        self.buffer.is_file_loaded()
    }

    /// The whole text, lines joined by line breaks.
    pub fn get_text(&self) -> (s: String)
        requires
            self.wf(),
        ensures
            s@ == crate::text::join_newline(self.lines()),
    {
        self.buffer.as_string()
    }

    /// Turns syntax highlighting on or off.
    pub fn toggle_syntax(&mut self)
        ensures
            final(self).syntax_on() == !old(self).syntax_on(),
            final(self).redraw_flag(),
            final(self).buf() == old(self).buf(),
            final(self).loc() == old(self).loc(),
            final(self).scroll() == old(self).scroll(),
            final(self).selection() == old(self).selection(),
            final(self).size_view() == old(self).size_view(),
            final(self).search_view() == old(self).search_view(),
            final(self).last_query() == old(self).last_query(),
            final(self).has_highlighter() == old(self).has_highlighter(),
            final(self).diagnostics_view() == old(self).diagnostics_view(),
            final(self).wf() == old(self).wf(),
    {
        self.syntax_enabled = !self.syntax_enabled;
        self.needs_redraw = true;
    }

    // -----------------------------------------------------------------------
    // Scrolling
    // -----------------------------------------------------------------------

    fn scroll_vertically(&mut self, to: usize)
        ensures
            final(self).scroll() == (Position {
                row: scroll_row(old(self).scroll().row, to, old(self).size_view().height),
                ..old(self).scroll()
            }),
            final(self).redraw_flag() == (old(self).redraw_flag() || row_scrolls(
                old(self).scroll().row,
                to,
                old(self).size_view().height,
            )),
            final(self).loc() == old(self).loc(),
            final(self).same_but_caret(&*old(self)),
            final(self).wf() == old(self).wf(),
    {
        let height = self.size.height;
        let offset_changed = if to < self.scroll_offset.row {
            self.scroll_offset.row = to;
            true
        } else if to >= self.scroll_offset.row.saturating_add(height) {
            self.scroll_offset.row = to.saturating_sub(height).saturating_add(1);
            true
        } else {
            false
        };
        if offset_changed {
            self.needs_redraw = true;
        }
    }

    fn scroll_horizontally(&mut self, to: usize)
        ensures
            final(self).scroll() == (Position {
                col: scroll_col(
                    old(self).scroll().col,
                    to,
                    old(self).size_view().width,
                    gutter_of(old(self).lines().len()),
                ),
                ..old(self).scroll()
            }),
            final(self).redraw_flag() == (old(self).redraw_flag() || col_scrolls(
                old(self).scroll().col,
                to,
                old(self).size_view().width,
                gutter_of(old(self).lines().len()),
            )),
            final(self).loc() == old(self).loc(),
            final(self).same_but_caret(&*old(self)),
            final(self).wf() == old(self).wf(),
    {
        let gutter_width = self.gutter_width();
        let usable_width = self.size.width.saturating_sub(gutter_width);
        if usable_width == 0 {
            return;
        }
        let offset_changed = if to < self.scroll_offset.col {
            self.scroll_offset.col = to;
            true
        } else if to >= self.scroll_offset.col.saturating_add(usable_width) {
            self.scroll_offset.col = to.saturating_sub(usable_width).saturating_add(1);
            true
        } else {
            false
        };
        if offset_changed {
            self.needs_redraw = true;
        }
    }

    /// Scrolls the caret into view.
    fn scroll_text_location_into_view(&mut self)
        requires
            old(self).wf(),
        ensures
            final(self).scroll() == scrolled_to(old(self).lines(), old(self).scroll(), old(self).loc(), old(self).size_view()),
            final(self).redraw_flag() == (old(self).redraw_flag() || scroll_moves(
                old(self).lines(),
                old(self).scroll(),
                old(self).loc(),
                old(self).size_view(),
            )),
            final(self).loc() == old(self).loc(),
            final(self).same_but_caret(&*old(self)),
            final(self).wf(),
    {
        let p = self.text_location_to_position();
        self.scroll_vertically(p.row);
        self.scroll_horizontally(p.col);
    }

    // -----------------------------------------------------------------------
    // Caret movement
    // -----------------------------------------------------------------------

    fn snap_to_valid_line(&mut self)
        ensures
            final(self).loc() == snap_line(old(self).lines(), old(self).loc()),
            final(self).scroll() == old(self).scroll(),
            final(self).redraw_flag() == old(self).redraw_flag(),
            final(self).same_but_caret(&*old(self)),
            final(self).wf() == old(self).wf(),
    {
        let h = self.buffer.height();
        let last = if h > 0 { h - 1 } else { 0 };
        if self.text_location.line_idx > last {
            self.text_location.line_idx = last;
        }
    }

    fn snap_to_valid_grapheme(&mut self)
        requires
            old(self).wf(),
        ensures
            final(self).loc() == snap_grapheme(old(self).lines(), old(self).loc()),
            final(self).scroll() == old(self).scroll(),
            final(self).redraw_flag() == old(self).redraw_flag(),
            final(self).same_but_caret(&*old(self)),
            final(self).wf(),
    {
        let c = self.buffer.grapheme_count(self.text_location.line_idx);
        let p = self.text_location.preferred_grapheme_idx;
        self.text_location.grapheme_idx = if p <= c { p } else { c };
    }

    /// Moves to line `line` (snapped), keeping the preferred grapheme.
    fn go_to_line(&mut self, line: usize)
        requires
            old(self).wf(),
        ensures
            final(self).loc() == to_line(old(self).lines(), old(self).loc(), line),
            final(self).scroll() == old(self).scroll(),
            final(self).redraw_flag() == old(self).redraw_flag(),
            final(self).same_but_caret(&*old(self)),
            final(self).wf(),
    {
        self.text_location.line_idx = line;
        self.snap_to_valid_line();
        self.snap_to_valid_grapheme();
    }

    fn set_grapheme(&mut self, g: usize)
        ensures
            final(self).loc() == at_grapheme(old(self).loc(), g),
            final(self).scroll() == old(self).scroll(),
            final(self).redraw_flag() == old(self).redraw_flag(),
            final(self).same_but_caret(&*old(self)),
            final(self).wf() == old(self).wf(),
    {
        self.text_location.grapheme_idx = g;
        self.text_location.preferred_grapheme_idx = g;
    }

    fn move_right(&mut self, step: usize)
        requires
            old(self).wf(),
        ensures
            final(self).loc() == settle(right_steps(old(self).lines(), old(self).loc(), step as nat)),
            final(self).scroll() == old(self).scroll(),
            final(self).redraw_flag() == old(self).redraw_flag(),
            final(self).same_but_caret(&*old(self)),
            final(self).wf(),
    {
        let mut k: usize = 0;
        while k < step
            invariant
                k <= step,
                self.wf(),
                self.loc() == right_steps(old(self).lines(), old(self).loc(), k as nat),
                self.scroll() == old(self).scroll(),
                self.redraw_flag() == old(self).redraw_flag(),
                self.same_but_caret(&*old(self)),
            decreases step - k,
        {
            let grapheme_count = self.buffer.grapheme_count(self.text_location.line_idx);
            if self.text_location.grapheme_idx < grapheme_count {
                self.text_location.grapheme_idx = self.text_location.grapheme_idx + 1;
            } else {
                self.set_grapheme(0);
                let next = self.text_location.line_idx.saturating_add(1);
                self.go_to_line(next);
            }
            k = k + 1;
        }
        self.text_location.preferred_grapheme_idx = self.text_location.grapheme_idx;
    }

    fn move_left(&mut self, step: usize)
        requires
            old(self).wf(),
        ensures
            final(self).loc() == settle(left_steps(old(self).lines(), old(self).loc(), step as nat)),
            final(self).scroll() == old(self).scroll(),
            final(self).redraw_flag() == old(self).redraw_flag(),
            final(self).same_but_caret(&*old(self)),
            final(self).wf(),
    {
        let mut k: usize = 0;
        while k < step
            invariant
                k <= step,
                self.wf(),
                self.loc() == left_steps(old(self).lines(), old(self).loc(), k as nat),
                self.scroll() == old(self).scroll(),
                self.redraw_flag() == old(self).redraw_flag(),
                self.same_but_caret(&*old(self)),
            decreases step - k,
        {
            if self.text_location.grapheme_idx > 0 {
                self.text_location.grapheme_idx = self.text_location.grapheme_idx - 1;
            } else if self.text_location.line_idx > 0 {
                let up = self.text_location.line_idx - 1;
                self.go_to_line(up);
                let c = self.buffer.grapheme_count(self.text_location.line_idx);
                self.set_grapheme(c);
            }
            k = k + 1;
        }
        self.text_location.preferred_grapheme_idx = self.text_location.grapheme_idx;
    }

    /// The location after `location`, as `next_loc` describes.
    fn next_location(&self, location: Location) -> (r: Location)
        requires
            self.wf(),
        ensures
            r == next_loc(self.lines(), location),
    {
        let mut next = location;
        let grapheme_count = self.buffer.grapheme_count(location.line_idx);
        if location.grapheme_idx < grapheme_count {
            next.grapheme_idx = location.grapheme_idx + 1;
        } else if location.line_idx < usize::MAX && location.line_idx + 1 < self.buffer.height() {
            next.line_idx = location.line_idx + 1;
            next.grapheme_idx = 0;
        }
        next
    }

    /// The location before `location`, as `prev_loc` describes.
    fn prev_location(&self, location: Location) -> (r: Location)
        requires
            self.wf(),
        ensures
            r == prev_loc(self.lines(), location),
    {
        let mut prev = location;
        if location.grapheme_idx > 0 {
            prev.grapheme_idx = location.grapheme_idx - 1;
        } else if location.line_idx > 0 {
            prev.line_idx = location.line_idx - 1;
            prev.grapheme_idx = self.buffer.grapheme_count(prev.line_idx);
        }
        prev
    }

    /// The first character of the grapheme at `loc`, if any.
    fn first_char(&self, loc: Location) -> (r: Option<char>)
        requires
            self.wf(),
        ensures
            r == first_char_at(self.lines(), loc),
    {
        match self.buffer.get_line(loc.line_idx) {
            Some(line) => {
                let count = line.grapheme_count();
                if loc.grapheme_idx < count {
                    let g = line.get_substring(loc.grapheme_idx..loc.grapheme_idx + 1);
                    proof {
                        line.lemma_wf();
                        let gs = line.graphemes();
                        crate::line::lemma_take_flatten_prefix(gs, loc.grapheme_idx as int, loc.grapheme_idx + 1);
                        assert(gs.subrange(loc.grapheme_idx as int, loc.grapheme_idx + 1) =~= seq![gs[loc.grapheme_idx as int]]);
                        assert(seq![gs[loc.grapheme_idx as int]].flatten() =~= gs[loc.grapheme_idx as int]) by {
                            seq![gs[loc.grapheme_idx as int]].lemma_flatten_singleton();
                        }
                    }
                    let cs = chars_of(g.as_str());
                    if cs.len() > 0 {
                        Some(cs[0])
                    } else {
                        None
                    }
                } else {
                    None
                }
            },
            None => None,
        }
    }

    fn is_word_char(&self, loc: Location) -> (r: bool)
        requires
            self.wf(),
        ensures
            r == is_word_at(self.lines(), loc),
    {
        match self.first_char(loc) {
            Some(c) => char_is_alphanumeric(c) || c == '_',
            None => false,
        }
    }

    fn is_punc_char(&self, loc: Location) -> (r: bool)
        requires
            self.wf(),
        ensures
            r == is_punc_at(self.lines(), loc),
    {
        match self.first_char(loc) {
            Some(c) => !char_is_alphanumeric(c) && !crate::text::char_is_whitespace(c) && c != '_',
            None => false,
        }
    }

    /// Whether a word starts at `loc`.
    pub fn is_word_start(&self, loc: Location) -> (r: bool)
        requires
            self.wf(),
        ensures
            r == (is_word_at(self.lines(), loc) && !is_word_at(self.lines(), prev_loc(self.lines(), loc))),
    {
        self.is_word_char(loc) && !self.is_word_char(self.prev_location(loc))
    }

    /// Whether a word ends at `loc`.
    pub fn is_word_end(&self, loc: Location) -> (r: bool)
        requires
            self.wf(),
        ensures
            r == (is_word_at(self.lines(), loc) && !is_word_at(self.lines(), next_loc(self.lines(), loc))),
    {
        self.is_word_char(loc) && !self.is_word_char(self.next_location(loc))
    }

    /// Whether a punctuation group starts at `loc`.
    pub fn is_punc_start(&self, loc: Location) -> (r: bool)
        requires
            self.wf(),
        ensures
            r == (is_punc_at(self.lines(), loc) && !is_punc_at(self.lines(), prev_loc(self.lines(), loc))),
    {
        self.is_punc_char(loc) && !self.is_punc_char(self.prev_location(loc))
    }

    /// Whether a punctuation group ends at `loc`.
    pub fn is_punc_end(&self, loc: Location) -> (r: bool)
        requires
            self.wf(),
        ensures
            r == (is_punc_at(self.lines(), loc) && !is_punc_at(self.lines(), next_loc(self.lines(), loc))),
    {
        self.is_punc_char(loc) && !self.is_punc_char(self.next_location(loc))
    }

    /// Where moving by a word forward from `start` leads.
    fn word_forward_location(&self, start: Location) -> (r: Location)
        requires
            self.wf(),
        ensures
            r == word_forward(self.lines(), start),
    {
        let ghost ls = self.lines();
        let next = self.next_location(start);
        if next == start {
            return start;
        }
        let mut loc = next;
        loop
            invariant
                self.wf(),
                ls == self.lines(),
                word_forward(ls, start) == word_forward_scan(ls, loc),
            decreases dist_to_end(ls, loc).0, dist_to_end(ls, loc).1,
        {
            let next = self.next_location(loc);
            if next == loc {
                return loc;
            }
            let next_is_word = self.is_word_char(next);
            let next_is_punc = self.is_punc_char(next);
            if next_is_word || next_is_punc {
                let curr_is_word = self.is_word_char(loc);
                let curr_is_punc = self.is_punc_char(loc);
                if next_is_word && !curr_is_word {
                    return loc;
                }
                if next_is_punc && !curr_is_punc {
                    return loc;
                }
            }
            proof {
                lemma_next_loc_progress(ls, loc);
            }
            loc = next;
        }
    }

    /// Where moving by a word backward from `start` leads.
    fn word_backward_location(&self, start: Location) -> (r: Location)
        requires
            self.wf(),
        ensures
            r == word_backward(self.lines(), start),
    {
        let ghost ls = self.lines();
        let prev = self.prev_location(start);
        if prev == start {
            return start;
        }
        let mut loc = prev;
        loop
            invariant
                self.wf(),
                ls == self.lines(),
                word_backward(ls, start) == word_backward_scan(ls, loc),
            decreases loc.line_idx, loc.grapheme_idx,
        {
            let prev = self.prev_location(loc);
            if prev == loc {
                return loc;
            }
            let curr_is_word = self.is_word_char(loc);
            let curr_is_punc = self.is_punc_char(loc);
            if curr_is_word || curr_is_punc {
                let prev_is_word = self.is_word_char(prev);
                let prev_is_punc = self.is_punc_char(prev);
                if curr_is_word && !prev_is_word {
                    return loc;
                }
                if curr_is_punc && !prev_is_punc {
                    return loc;
                }
            }
            loc = prev;
        }
    }

    /// Where moving to the end of a word from `start` leads.
    fn word_end_location(&self, start: Location) -> (r: Location)
        requires
            self.wf(),
        ensures
            r == word_end(self.lines(), start),
    {
        let ghost ls = self.lines();
        let height = self.buffer.height();
        let mut loc = start;
        loop
            invariant
                self.wf(),
                ls == self.lines(),
                height == ls.len(),
                word_end(ls, start) == word_end(ls, loc),
            decreases (if loc.line_idx < ls.len() { ls.len() - loc.line_idx } else { 0 }),
        {
            let line_idx = loc.line_idx;
            if line_idx >= height {
                return loc;
            }
            let n = self.buffer.grapheme_count(line_idx);
            let s = if loc.grapheme_idx < n { loc.grapheme_idx + 1 } else { n };
            let mut i = s;
            while i < n
                invariant
                    self.wf(),
                    ls == self.lines(),
                    line_idx < ls.len(),
                    n == count_at(ls, line_idx as int),
                    s <= i <= n,
                    first_word_from(ls, line_idx, s as nat, n as nat) == first_word_from(ls, line_idx, i as nat, n as nat),
                    word_end(ls, start) == word_end(ls, loc),
                    loc.line_idx == line_idx,
                    s == (if loc.grapheme_idx < n { loc.grapheme_idx + 1 } else { n as int }),
                decreases n - i,
            {
                if self.is_word_char(Location { line_idx, grapheme_idx: i, preferred_grapheme_idx: i }) {
                    let mut j = i;
                    loop
                        invariant
                            self.wf(),
                            ls == self.lines(),
                            i <= j < n,
                            n == count_at(ls, line_idx as int),
                            word_run_end(ls, line_idx, i as nat, n as nat) == word_run_end(ls, line_idx, j as nat, n as nat),
                            word_end(ls, start) == word_end(ls, loc),
                            loc.line_idx == line_idx,
                            line_idx < ls.len(),
                            s == (if loc.grapheme_idx < n { loc.grapheme_idx + 1 } else { n as int }),
                            first_word_from(ls, line_idx, s as nat, n as nat) == Some(i as nat),
                        decreases n - j,
                    {
                        if j + 1 >= n || !self.is_word_char(
                            Location { line_idx, grapheme_idx: j + 1, preferred_grapheme_idx: j + 1 },
                        ) {
                            return Location { line_idx, grapheme_idx: j, preferred_grapheme_idx: j };
                        }
                        j = j + 1;
                    }
                }
                i = i + 1;
            }
            if line_idx + 1 < height {
                loc = Location { line_idx: line_idx + 1, grapheme_idx: 0, preferred_grapheme_idx: loc.preferred_grapheme_idx };
            } else {
                let g = n.saturating_sub(1);
                return Location { grapheme_idx: g, preferred_grapheme_idx: g, ..loc };
            }
        }
    }

    /// Moves the caret as `moved` describes, without scrolling.
    fn apply_move(&mut self, command: Move)
        requires
            old(self).wf(),
        ensures
            final(self).loc() == moved(
                old(self).lines(),
                old(self).loc(),
                old(self).scroll(),
                old(self).size_view(),
                command,
            ),
            final(self).scroll() == old(self).scroll(),
            final(self).redraw_flag() == old(self).redraw_flag(),
            final(self).same_but_caret(&*old(self)),
            final(self).wf(),
    {
        let height = self.size.height;
        let line = self.text_location.line_idx;
        match command {
            Move::Up(step) => self.go_to_line(line.saturating_sub(step)),
            Move::Down(step) => self.go_to_line(line.saturating_add(step)),
            Move::Left(step) => self.move_left(step),
            Move::Right(step) => self.move_right(step),
            Move::HalfPageUp => self.go_to_line(line.saturating_sub(height / 2)),
            Move::HalfPageDown => self.go_to_line(line.saturating_add(height / 2)),
            Move::PageUp => self.go_to_line(line.saturating_sub(height.saturating_sub(1))),
            Move::PageDown => self.go_to_line(line.saturating_add(height.saturating_sub(1))),
            Move::ViewTop => self.go_to_line(self.scroll_offset.row),
            Move::ViewBottom => {
                let l = self.scroll_offset.row.saturating_add(height).saturating_sub(1);
                self.go_to_line(l);
            },
            Move::ViewCenter => {
                let l = self.scroll_offset.row.saturating_add(height / 2);
                self.go_to_line(l);
            },
            Move::StartOfLine => self.set_grapheme(0),
            Move::FirstNonWhitespace => {
                let g = self.buffer.first_non_whitespace_grapheme(line);
                self.set_grapheme(g);
            },
            Move::EndOfLine => {
                let g = self.buffer.grapheme_count(line).saturating_sub(1);
                self.set_grapheme(g);
            },
            Move::AfterEndOfLine => {
                let g = self.buffer.grapheme_count(line);
                self.set_grapheme(g);
            },
            Move::WordForward => {
                self.text_location = self.word_forward_location(self.text_location);
            },
            Move::WordBackward => {
                self.text_location = self.word_backward_location(self.text_location);
            },
            Move::WordEnd => {
                self.text_location = self.word_end_location(self.text_location);
            },
            Move::BufferStart => {
                self.text_location = Location { line_idx: 0, grapheme_idx: 0, preferred_grapheme_idx: 0 };
            },
            Move::BufferEnd => {
                let h = self.buffer.height();
                self.text_location.line_idx = h.saturating_sub(1);
                self.snap_to_valid_line();
                let g = self.buffer.grapheme_count(self.text_location.line_idx).saturating_sub(1);
                self.set_grapheme(g);
            },
            Move::GoToLine(line_idx) => {
                self.text_location.line_idx = line_idx.saturating_sub(1);
                self.snap_to_valid_line();
                self.set_grapheme(0);
            },
            Move::JumpBackward | Move::JumpForward => {},
        }
    }

    /// Moves the caret, then scrolls it into view; the view is drawn again
    /// when the line changes, when the caret moves within a selection, or
    /// when it scrolls.
    pub fn handle_move_command(&mut self, command: Move)
        requires
            old(self).wf(),
        ensures
            ({
                let ls = old(self).lines();
                let l = moved(ls, old(self).loc(), old(self).scroll(), old(self).size_view(), command);
                &&& final(self).loc() == l
                &&& final(self).scroll() == scrolled_to(ls, old(self).scroll(), l, old(self).size_view())
                &&& final(self).redraw_flag() == (old(self).redraw_flag() || old(self).loc().line_idx
                    != l.line_idx || (old(self).selection() is Some && old(self).loc().grapheme_idx
                    != l.grapheme_idx) || scroll_moves(ls, old(self).scroll(), l, old(self).size_view()))
            }),
            final(self).same_but_caret(&*old(self)),
            final(self).wf(),
    {
        let old_location = self.text_location;
        self.apply_move(command);
        if old_location.line_idx != self.text_location.line_idx || (self.selection_start.is_some()
            && old_location.grapheme_idx != self.text_location.grapheme_idx) {
            self.needs_redraw = true;
        }
        self.scroll_text_location_into_view();
    }

    /// Puts the caret at `location` (snapped into the text) and scrolls to it.
    pub fn set_text_location(&mut self, location: Location)
        requires
            old(self).wf(),
        ensures
            ({
                let ls = old(self).lines();
                let l = snap_grapheme(ls, snap_line(ls, location));
                &&& final(self).loc() == l
                &&& final(self).scroll() == scrolled_to(ls, old(self).scroll(), l, old(self).size_view())
            }),
            final(self).redraw_flag(),
            final(self).same_but_caret(&*old(self)),
            final(self).wf(),
    {
        self.text_location = location;
        self.snap_to_valid_line();
        self.snap_to_valid_grapheme();
        self.scroll_text_location_into_view();
        self.needs_redraw = true;
    }

    /// Puts the caret at the grapheme under screen position `position`
    /// (relative to the view), and scrolls to it.
    pub fn move_to_position(&mut self, position: Position)
        requires
            old(self).wf(),
        ensures
            ({
                let ls = old(self).lines();
                let col = sat_add(sat_sub(position.col, gutter_of(ls.len())), old(self).scroll().col);
                let row = sat_add(position.row, old(self).scroll().row);
                let l0 = snap_line(ls, Location { line_idx: row, ..old(self).loc() });
                let g = if l0.line_idx < ls.len() {
                    crate::line::grapheme_at_column_from(grapheme_clusters(ls[l0.line_idx as int]), col as nat, 0) as usize
                } else {
                    0
                };
                let l = snap_grapheme(ls, at_grapheme(l0, g));
                &&& final(self).loc() == l
                &&& final(self).scroll() == scrolled_to(ls, old(self).scroll(), l, old(self).size_view())
                &&& final(self).redraw_flag() == (old(self).redraw_flag() || old(self).loc().line_idx
                    != l.line_idx || (old(self).selection() is Some && old(self).loc().grapheme_idx
                    != l.grapheme_idx) || scroll_moves(ls, old(self).scroll(), l, old(self).size_view()))
            }),
            final(self).same_but_caret(&*old(self)),
            final(self).wf(),
    {
        let gutter_width = self.gutter_width();
        let col = position.col.saturating_sub(gutter_width).saturating_add(self.scroll_offset.col);
        let row = position.row.saturating_add(self.scroll_offset.row);
        let old_location = self.text_location;
        self.text_location.line_idx = row;
        self.snap_to_valid_line();
        let g = self.buffer.grapheme_at_width(self.text_location.line_idx, col);
        self.set_grapheme(g);
        self.snap_to_valid_grapheme();
        if old_location.line_idx != self.text_location.line_idx || (self.selection_start.is_some()
            && old_location.grapheme_idx != self.text_location.grapheme_idx) {
            self.needs_redraw = true;
        }
        self.scroll_text_location_into_view();
    }

    /// Sets the size and scrolls the caret into view.
    pub fn set_size(&mut self, size: Size)
        requires
            old(self).wf(),
        ensures
            final(self).size_view() == size,
            final(self).scroll() == scrolled_to(old(self).lines(), old(self).scroll(), old(self).loc(), size),
            final(self).redraw_flag() == (old(self).redraw_flag() || scroll_moves(
                old(self).lines(),
                old(self).scroll(),
                old(self).loc(),
                size,
            )),
            final(self).loc() == old(self).loc(),
            final(self).buf() == old(self).buf(),
            final(self).selection() == old(self).selection(),
            final(self).search_view() == old(self).search_view(),
            final(self).last_query() == old(self).last_query(),
            final(self).syntax_on() == old(self).syntax_on(),
            final(self).has_highlighter() == old(self).has_highlighter(),
            final(self).diagnostics_view() == old(self).diagnostics_view(),
            final(self).wf(),
    {
        self.size = size;
        self.scroll_text_location_into_view();
    }
}


// ---------------------------------------------------------------------------
// Edits, as transitions of the view's state
// ---------------------------------------------------------------------------

/// The part of a view's state that edits and movements change.
#[verifier::ext_equal]
pub struct ViewModel {
    pub lines: Seq<Seq<char>>,
    pub undo: Seq<Seq<Seq<char>>>,
    pub redo: Seq<Seq<Seq<char>>>,
    pub loc: Location,
    pub selection: Option<Location>,
    pub scroll: Position,
    pub size: Size,
    pub redraw: bool,
}

/// Columns removed when a closing bracket is typed at the start of an
/// indented line.
pub const INDENT_SIZE: usize = 4;

/// The lines after an edit, recorded for undo.
pub open spec fn m_edited(m: ViewModel, new_lines: Seq<Seq<char>>) -> ViewModel {
    ViewModel { lines: new_lines, undo: m.undo.push(m.lines), redo: Seq::empty(), ..m }
}

pub open spec fn m_at(m: ViewModel, loc: Location) -> ViewModel {
    ViewModel { loc, ..m }
}

pub open spec fn m_redraw(m: ViewModel) -> ViewModel {
    ViewModel { redraw: true, ..m }
}

/// Inserting `c` at `at`, when the text has room for it.
pub open spec fn m_insert_char(m: ViewModel, c: char, at: Location) -> ViewModel {
    if text_fits(m.lines, 2) {
        m_edited(m, crate::buffer::insert_char_step(m.lines, c, at))
    } else {
        m
    }
}

/// Replacing the grapheme at `at` by `c`, if there is one.
pub open spec fn m_replace_char(m: ViewModel, c: char, at: Location) -> ViewModel {
    if at.grapheme_idx < count_at(m.lines, at.line_idx as int) {
        m_edited(m, crate::buffer::replace_char_step(m.lines, c, at))
    } else {
        m
    }
}

/// Deleting the grapheme at `at` (or the line break at the end of a line).
pub open spec fn m_delete(m: ViewModel, at: Location) -> ViewModel {
    ViewModel {
        lines: crate::buffer::delete_step(m.lines, at),
        undo: if at.line_idx < m.lines.len() { m.undo.push(m.lines) } else { m.undo },
        redo: Seq::empty(),
        ..m
    }
}

/// Deleting from `a` to `b`, both included, when the text has room to be
/// rearranged.
pub open spec fn m_delete_range(m: ViewModel, a: Location, b: Location) -> ViewModel {
    if text_fits(m.lines, total_size(m.lines) + 1) {
        m_edited(m, crate::buffer::delete_range_spec(m.lines, a, b))
    } else {
        m
    }
}

/// Inserting `s` at `at`, when the text has room for it.
pub open spec fn m_insert_string(m: ViewModel, s: Seq<char>, at: Location) -> ViewModel {
    if text_fits(m.lines, 2 * s.len()) {
        m_edited(m, crate::buffer::insert_string_steps(m.lines, at, s))
    } else {
        m
    }
}

/// The indentation a line break at `at` carries to the new line: the
/// leading whitespace of the line, up to `at`.
pub open spec fn enter_indent(ls: Seq<Seq<char>>, at: Location) -> Seq<char> {
    if at.line_idx < ls.len() {
        let gs = grapheme_clusters(ls[at.line_idx as int]);
        let fnw = match crate::line::first_non_blank_from(gs, 0) {
            Some(i) => i,
            None => 0,
        };
        crate::line::graphemes_text(gs, 0, if fnw <= at.grapheme_idx { fnw as int } else { at.grapheme_idx as int })
    } else {
        Seq::empty()
    }
}

/// Moving the caret and scrolling it into view, as `handle_move_command` does.
pub open spec fn m_move(m: ViewModel, cmd: Move) -> ViewModel {
    let l = moved(m.lines, m.loc, m.scroll, m.size, cmd);
    ViewModel {
        loc: l,
        scroll: scrolled_to(m.lines, m.scroll, l, m.size),
        redraw: m.redraw || m.loc.line_idx != l.line_idx || (m.selection is Some && m.loc.grapheme_idx
            != l.grapheme_idx) || scroll_moves(m.lines, m.scroll, l, m.size),
        ..m
    }
}

/// Scrolling the caret into view.
pub open spec fn m_scroll_into(m: ViewModel) -> ViewModel {
    ViewModel {
        scroll: scrolled_to(m.lines, m.scroll, m.loc, m.size),
        redraw: m.redraw || scroll_moves(m.lines, m.scroll, m.loc, m.size),
        ..m
    }
}

/// The text of the grapheme at `loc` (a line break reads as an empty line
/// after the text, see `range_text`).
pub open spec fn current_char(ls: Seq<Seq<char>>, loc: Location) -> Seq<char> {
    crate::buffer::range_text(ls, loc, loc)
}

/// The closing character typed along with an opening one.
pub open spec fn closing_of(c: char) -> Option<char> {
    if c == '(' {
        Some(')')
    } else if c == '[' {
        Some(']')
    } else if c == '{' {
        Some('}')
    } else if c == '"' || c == '\'' || c == '`' {
        Some(c)
    } else {
        None
    }
}

pub open spec fn is_closer(c: char) -> bool {
    c == ')' || c == ']' || c == '}' || c == '"' || c == '\'' || c == '`'
}

pub open spec fn is_bracket_closer(c: char) -> bool {
    c == ')' || c == ']' || c == '}'
}

/// Typing a closing bracket at the first non-blank grapheme of a line
/// indented by at least `INDENT_SIZE` removes one level of indentation.
pub open spec fn m_deindent(m: ViewModel) -> ViewModel {
    let l = m.loc.line_idx;
    let nw = first_non_blank_at(m.lines, l);
    if nw == m.loc.grapheme_idx && nw >= INDENT_SIZE {
        let m1 = m_delete_range(
            m,
            Location { line_idx: l, grapheme_idx: 0, preferred_grapheme_idx: 0 },
            Location { line_idx: l, grapheme_idx: (INDENT_SIZE - 1) as usize, preferred_grapheme_idx: 0 },
        );
        m_at(
            m1,
            Location {
                grapheme_idx: (m.loc.grapheme_idx - INDENT_SIZE) as usize,
                preferred_grapheme_idx: sat_sub(m.loc.preferred_grapheme_idx, INDENT_SIZE),
                ..m.loc
            },
        )
    } else {
        m
    }
}

/// Typing `c`: over an identical closing character the caret just moves on;
/// an opening character is typed with its closing one, the caret between
/// them; otherwise the character is inserted and the caret moves on if the
/// line gained a grapheme. Closing brackets first remove an indentation
/// level where `m_deindent` says so.
pub open spec fn m_type_char(m: ViewModel, c: char) -> ViewModel {
    if is_closer(c) && current_char(m.lines, m.loc) == seq![c] {
        let m1 = if is_bracket_closer(c) { m_deindent(m) } else { m };
        m_move(m1, Move::Right(1))
    } else if closing_of(c) is Some {
        let m1 = m_insert_char(m, c, m.loc);
        let m2 = m_move(m1, Move::Right(1));
        m_redraw(m_insert_char(m2, closing_of(c)->0, m2.loc))
    } else {
        let m1 = if is_bracket_closer(c) { m_deindent(m) } else { m };
        let m2 = m_insert_char(m1, c, m1.loc);
        let m3 = if count_at(m2.lines, m1.loc.line_idx as int) > count_at(m1.lines, m1.loc.line_idx as int) {
            m_move(m2, Move::Right(1))
        } else {
            m2
        };
        m_redraw(m3)
    }
}

/// Matching pairs that are deleted together.
pub open spec fn is_pair(a: Seq<char>, b: Seq<char>) -> bool {
    ||| a == seq!['('] && b == seq![')']
    ||| a == seq!['['] && b == seq![']']
    ||| a == seq!['{'] && b == seq!['}']
    ||| a == seq!['"'] && b == seq!['"']
    ||| a == seq!['\''] && b == seq!['\'']
    ||| a == seq!['`'] && b == seq!['`']
}

/// Deleting at the caret: an empty pair goes as a whole.
pub open spec fn m_delete_at_caret(m: ViewModel) -> ViewModel {
    let n1 = next_loc(m.lines, m.loc);
    if is_pair(current_char(m.lines, m.loc), current_char(m.lines, n1)) {
        m_redraw(m_delete_range(m, m.loc, n1))
    } else {
        m_redraw(m_delete(m, m.loc))
    }
}

pub open spec fn m_delete_backward(m: ViewModel) -> ViewModel {
    if m.loc.line_idx != 0 || m.loc.grapheme_idx != 0 {
        m_delete_at_caret(m_move(m, Move::Left(1)))
    } else {
        m
    }
}

/// Breaking the line at the caret: the caret goes to the new line, after
/// the indentation carried over.
pub open spec fn m_newline(m: ViewModel) -> ViewModel {
    if text_fits(m.lines, crate::buffer::enter_room(m.lines, m.loc)) {
        let ind = enter_indent(m.lines, m.loc).len();
        let m1 = m_edited(
            m,
            crate::buffer::insert_chars_steps(
                crate::buffer::newline_step(m.lines, m.loc),
                crate::buffer::step_down(m.loc),
                enter_indent(m.lines, m.loc),
            ),
        );
        let l = Location { line_idx: sat_add(m.loc.line_idx, 1), grapheme_idx: ind as usize, preferred_grapheme_idx: ind as usize };
        m_redraw(m_scroll_into(m_at(m1, l)))
    } else {
        m
    }
}

/// After undo or redo: the caret snapped into the text and scrolled to.
pub open spec fn m_after_history(m: ViewModel, loc: Location) -> ViewModel {
    m_redraw(m_scroll_into(m_at(m, snap_grapheme(m.lines, snap_line(m.lines, loc)))))
}

pub open spec fn m_undo(m: ViewModel) -> ViewModel {
    if m.undo.len() > 0 {
        m_after_history(
            ViewModel { lines: m.undo.last(), undo: m.undo.drop_last(), redo: m.redo.push(m.lines), ..m },
            m.loc,
        )
    } else {
        m
    }
}

pub open spec fn m_redo(m: ViewModel) -> ViewModel {
    if m.redo.len() > 0 {
        m_after_history(
            ViewModel { lines: m.redo.last(), redo: m.redo.drop_last(), undo: m.undo.push(m.lines), ..m },
            m.loc,
        )
    } else {
        m
    }
}

/// What an edit command does to the view.
pub open spec fn m_edit(m: ViewModel, e: Edit) -> ViewModel {
    match e {
        Edit::Insert(c) => m_type_char(m, c),
        Edit::Complete => m_type_char(m, '\t'),
        Edit::Replace(c) => m_redraw(m_replace_char(m, c, m.loc)),
        Edit::Delete => m_delete_at_caret(m),
        Edit::DeleteBackward => m_delete_backward(m),
        Edit::InsertNewline => m_newline(m),
        Edit::Undo => m_undo(m),
        Edit::Redo => m_redo(m),
    }
}

/// A character typed in replace mode overwrites the grapheme at the caret
/// (or is inserted at the end of the line); the caret moves on.
pub open spec fn m_replace_mode(m: ViewModel, c: char) -> ViewModel {
    let m1 = if m.loc.grapheme_idx < count_at(m.lines, m.loc.line_idx as int) {
        m_replace_char(m, c, m.loc)
    } else {
        m_insert_char(m, c, m.loc)
    };
    m_redraw(m_move(m1, Move::Right(1)))
}

pub proof fn lemma_join_newline_len(ls: Seq<Seq<char>>)
    ensures
        crate::text::join_newline(ls).len() <= total_size(ls),
    decreases ls.len(),
{
    if ls.len() > 1 {
        lemma_join_newline_len(ls.drop_last());
    } else if ls.len() == 1 {
        assert(ls.drop_last() =~= Seq::<Seq<char>>::empty());
    }
}

impl TextView {
    /// The state that edits and movements change.
    pub closed spec fn model(&self) -> ViewModel {
        ViewModel {
            lines: self.buffer.lines_view(),
            undo: self.buffer.undo_view(),
            redo: self.buffer.redo_view(),
            loc: self.text_location,
            selection: self.selection_start,
            scroll: self.scroll_offset,
            size: self.size,
            redraw: self.needs_redraw,
        }
    }

    /// A view's model is made of the parts the contracts speak of.
    pub proof fn lemma_model(&self)
        ensures
            self.model() == (ViewModel {
                lines: self.lines(),
                undo: self.buf().undo_view(),
                redo: self.buf().redo_view(),
                loc: self.loc(),
                selection: self.selection(),
                scroll: self.scroll(),
                size: self.size_view(),
                redraw: self.redraw_flag(),
            }),
    {
    }

    /// The syntax annotations, if the view has a highlighter, are those of
    /// its current text.
    pub closed spec fn syntax_current(&self) -> bool {
        self.syntax_highlighter is None || (self.syntax_highlighter->0.has_grammar()
            && self.syntax_highlighter->0.highlights(crate::text::join_newline(self.buffer.lines_view())))
    }

    /// What edits leave alone: the file, the search, the syntax settings and
    /// the diagnostics.
    pub open spec fn same_setting(&self, other: &Self) -> bool {
        &&& self.buf().info() == other.buf().info()
        &&& self.search_view() == other.search_view()
        &&& self.last_query() == other.last_query()
        &&& self.syntax_on() == other.syntax_on()
        &&& self.has_highlighter() == other.has_highlighter()
        &&& self.diagnostics_view() == other.diagnostics_view()
    }

    /// Re-annotates the text for syntax highlighting.
    fn update_syntax_highlighter(&mut self)
        requires
            old(self).wf(),
        ensures
            final(self).wf(),
            final(self).model() == old(self).model(),
            final(self).same_setting(&*old(self)),
            final(self).buf() == old(self).buf(),
            final(self).syntax_current(),
    {
        let taken = self.syntax_highlighter.take();
        if let Some(mut highlighter) = taken {
            let text = self.buffer.as_string();
            proof {
                lemma_join_newline_len(self.buffer.lines_view());
                self.buffer.lemma_wf_fits();
            }
            highlighter.update_tree(text.as_str());
            assert(text@ == crate::text::join_newline(self.buffer.lines_view()));
            let ghost h = highlighter;
            self.syntax_highlighter = Some(highlighter);
            assert(self.syntax_highlighter->0 == h);
        } else {
            assert(self.syntax_highlighter is None);
        }
    }

    fn buf_insert_char(&mut self, c: char, at: Location)
        requires
            old(self).wf(),
        ensures
            final(self).wf(),
            final(self).model() == m_insert_char(old(self).model(), c, at),
            final(self).same_setting(&*old(self)),
    {
        if self.buffer.fits(2) {
            self.buffer.insert_char(c, at);
        }
    }

    fn buf_delete_range(&mut self, a: Location, b: Location)
        requires
            old(self).wf(),
        ensures
            final(self).wf(),
            final(self).model() == m_delete_range(old(self).model(), a, b),
            final(self).same_setting(&*old(self)),
    {
        if self.buffer.fits_twice(1) {
            self.buffer.delete_range(a, b);
        }
    }

    fn buf_insert_string(&mut self, text: &str, at: Location)
        requires
            old(self).wf(),
        ensures
            final(self).wf(),
            final(self).model() == m_insert_string(old(self).model(), text@, at),
            final(self).same_setting(&*old(self)),
    {
        let n = chars_of(text).len();
        if n <= usize::MAX / 2 && self.buffer.fits(2 * n) {
            self.buffer.insert_string(text, at);
        }
    }

    fn buf_replace_char(&mut self, c: char, at: Location)
        requires
            old(self).wf(),
        ensures
            final(self).wf(),
            final(self).model() == m_replace_char(old(self).model(), c, at),
            final(self).same_setting(&*old(self)),
    {
        self.buffer.replace_char(c, at);
    }

    /// The text of the grapheme at `loc`.
    pub fn get_range_at(&self, loc: Location) -> (s: String)
        requires
            self.wf(),
        ensures
            s@ == current_char(self.lines(), loc),
    {
        self.buffer.get_range(loc, loc)
    }

    /// The text of the grapheme at the caret.
    pub fn get_current_character(&self) -> (s: String)
        requires
            self.wf(),
        ensures
            s@ == current_char(self.lines(), self.loc()),
    {
        self.buffer.get_range(self.text_location, self.text_location)
    }

    fn auto_deindent(&mut self)
        requires
            old(self).wf(),
        ensures
            final(self).wf(),
            final(self).model() == m_deindent(old(self).model()),
            final(self).same_setting(&*old(self)),
    {
        let l = self.text_location.line_idx;
        let non_whitespace = self.buffer.first_non_whitespace_grapheme(l);
        if non_whitespace == self.text_location.grapheme_idx && non_whitespace >= INDENT_SIZE {
            let start = Location { line_idx: l, grapheme_idx: 0, preferred_grapheme_idx: 0 };
            let end = Location { line_idx: l, grapheme_idx: INDENT_SIZE - 1, preferred_grapheme_idx: 0 };
            self.buf_delete_range(start, end);
            self.text_location.grapheme_idx = self.text_location.grapheme_idx - INDENT_SIZE;
            self.text_location.preferred_grapheme_idx = self.text_location.preferred_grapheme_idx.saturating_sub(
                INDENT_SIZE,
            );
        }
    }

    fn insert_char(&mut self, character: char)
        requires
            old(self).wf(),
        ensures
            final(self).wf(),
            final(self).model() == m_type_char(old(self).model(), character),
            final(self).same_setting(&*old(self)),
    {
        let is_closer_char = character == ')' || character == ']' || character == '}' || character == '"'
            || character == '\'' || character == '`';
        let is_bracket = character == '}' || character == ']' || character == ')';
        if is_closer_char {
            let next_char = self.get_current_character();
            let cs = chars_of(next_char.as_str());
            if cs.len() == 1 && cs[0] == character {
                assert(next_char@ =~= seq![character]);
                if is_bracket {
                    self.auto_deindent();
                }
                self.handle_move_command(Move::Right(1));
                return;
            }
            assert(next_char@ != seq![character]);
        }
        let closing_char = if character == '(' {
            Some(')')
        } else if character == '[' {
            Some(']')
        } else if character == '{' {
            Some('}')
        } else if character == '"' || character == '\'' || character == '`' {
            Some(character)
        } else {
            None
        };
        if let Some(close) = closing_char {
            let at = self.text_location;
            self.buf_insert_char(character, at);
            self.handle_move_command(Move::Right(1));
            let at2 = self.text_location;
            self.buf_insert_char(close, at2);
            self.needs_redraw = true;
            return;
        }
        if is_bracket {
            self.auto_deindent();
        }
        let line = self.text_location.line_idx;
        let old_len = self.buffer.grapheme_count(line);
        let at = self.text_location;
        self.buf_insert_char(character, at);
        let new_len = self.buffer.grapheme_count(line);
        if new_len > old_len {
            self.handle_move_command(Move::Right(1));
        }
        self.needs_redraw = true;
    }

    fn delete(&mut self)
        requires
            old(self).wf(),
        ensures
            final(self).wf(),
            final(self).model() == m_delete_at_caret(old(self).model()),
            final(self).same_setting(&*old(self)),
    {
        let char_at_cursor = self.get_current_character();
        let next_location = self.next_location(self.text_location);
        let char_after_cursor = self.get_range_at(next_location);
        let a = chars_of(char_at_cursor.as_str());
        let b = chars_of(char_after_cursor.as_str());
        let pair = a.len() == 1 && b.len() == 1 && ((a[0] == '(' && b[0] == ')') || (a[0] == '[' && b[0] == ']')
            || (a[0] == '{' && b[0] == '}') || (a[0] == '"' && b[0] == '"') || (a[0] == '\'' && b[0] == '\'')
            || (a[0] == '`' && b[0] == '`'));
        proof {
            if a@.len() == 1 {
                assert(a@ =~= seq![a@[0]]);
            }
            if b@.len() == 1 {
                assert(b@ =~= seq![b@[0]]);
            }
        }
        assert(pair == is_pair(char_at_cursor@, char_after_cursor@));
        if pair {
            let at = self.text_location;
            self.buf_delete_range(at, next_location);
        } else {
            self.buffer.delete(self.text_location);
        }
        self.needs_redraw = true;
    }

    fn delete_backward(&mut self)
        requires
            old(self).wf(),
        ensures
            final(self).wf(),
            final(self).model() == m_delete_backward(old(self).model()),
            final(self).same_setting(&*old(self)),
    {
        if self.text_location.line_idx != 0 || self.text_location.grapheme_idx != 0 {
            self.handle_move_command(Move::Left(1));
            self.delete();
        }
    }

    fn insert_newline(&mut self)
        requires
            old(self).wf(),
        ensures
            final(self).wf(),
            final(self).model() == m_newline(old(self).model()),
            final(self).same_setting(&*old(self)),
    {
        let at = self.text_location;
        let room: usize = match self.buffer.get_line(at.line_idx) {
            Some(line) => {
                proof {
                    line.lemma_wf();
                    crate::text::lemma_utf8_len_upper(line@);
                }
                1 + 2 * line.len()
            },
            None => 1,
        };
        if !self.buffer.fits(room) {
            return;
        }
        let indent_len = self.buffer.insert_enter(at);
        self.text_location = Location {
            line_idx: at.line_idx.saturating_add(1),
            grapheme_idx: indent_len,
            preferred_grapheme_idx: indent_len,
        };
        self.scroll_text_location_into_view();
        self.needs_redraw = true;
    }

    fn replace_char(&mut self, character: char)
        requires
            old(self).wf(),
        ensures
            final(self).wf(),
            final(self).model() == m_redraw(m_replace_char(old(self).model(), character, old(self).model().loc)),
            final(self).same_setting(&*old(self)),
    {
        let at = self.text_location;
        self.buf_replace_char(character, at);
        self.needs_redraw = true;
    }

    /// Applies an edit command, then re-annotates the text for syntax
    /// highlighting.
    pub fn handle_edit_command(&mut self, command: Edit)
        requires
            old(self).wf(),
        ensures
            final(self).wf(),
            final(self).model() == m_edit(old(self).model(), command),
            final(self).same_setting(&*old(self)),
            final(self).syntax_current(),
    {
        match command {
            Edit::Insert(character) => self.insert_char(character),
            Edit::Complete => self.insert_char('\t'),
            Edit::Replace(character) => self.replace_char(character),
            Edit::Delete => self.delete(),
            Edit::DeleteBackward => self.delete_backward(),
            Edit::InsertNewline => self.insert_newline(),
            Edit::Undo => {
                if self.buffer.undo() {
                    self.snap_to_valid_line();
                    self.snap_to_valid_grapheme();
                    self.scroll_text_location_into_view();
                    self.needs_redraw = true;
                }
            },
            Edit::Redo => {
                if self.buffer.redo() {
                    self.snap_to_valid_line();
                    self.snap_to_valid_grapheme();
                    self.scroll_text_location_into_view();
                    self.needs_redraw = true;
                }
            },
        }
        self.update_syntax_highlighter();
    }

    /// A character typed in replace mode, as `m_replace_mode` describes.
    pub fn handle_replace_mode_char(&mut self, character: char)
        requires
            old(self).wf(),
        ensures
            final(self).wf(),
            final(self).model() == m_replace_mode(old(self).model(), character),
            final(self).same_setting(&*old(self)),
    {
        let at = self.text_location;
        if at.grapheme_idx < self.buffer.grapheme_count(at.line_idx) {
            self.buf_replace_char(character, at);
        } else {
            self.buf_insert_char(character, at);
        }
        self.handle_move_command(Move::Right(1));
        self.needs_redraw = true;
    }
}

// ---------------------------------------------------------------------------
// Selection and clipboard
// ---------------------------------------------------------------------------

pub open spec fn m_clear_selection(m: ViewModel) -> ViewModel {
    if m.selection is Some {
        ViewModel { selection: None, redraw: true, ..m }
    } else {
        m
    }
}

/// Extending the selection by whole lines downward: a new selection starts
/// at the start of the caret's line; the caret goes to the end of the next
/// line while the selection grows downward, and to the start or end of the
/// next line while it shrinks from above.
pub open spec fn m_select_line_down(m: ViewModel) -> ViewModel {
    let l0 = snap_line(m.lines, m.loc);
    let h = m.lines.len();
    if h == 0 {
        m_at(m, l0)
    } else {
        match m.selection {
            Some(start) => {
                let l1 = if location_le(start, l0) {
                    if l0.line_idx < h - 1 {
                        let nl = (l0.line_idx + 1) as usize;
                        Location { line_idx: nl, grapheme_idx: count_at(m.lines, nl as int) as usize, ..l0 }
                    } else {
                        Location { grapheme_idx: count_at(m.lines, l0.line_idx as int) as usize, ..l0 }
                    }
                } else {
                    let nl = min_usize(sat_add(l0.line_idx, 1), (h - 1) as usize);
                    let t = Location { line_idx: nl, ..l0 };
                    if location_le(start, t) {
                        Location { grapheme_idx: count_at(m.lines, nl as int) as usize, ..t }
                    } else {
                        Location { grapheme_idx: 0, ..t }
                    }
                };
                m_redraw(m_scroll_into(m_at(m, settle(l1))))
            },
            None => m_redraw(
                m_scroll_into(
                    ViewModel {
                        loc: settle(Location { grapheme_idx: count_at(m.lines, l0.line_idx as int) as usize, ..l0 }),
                        selection: Some(Location { line_idx: l0.line_idx, grapheme_idx: 0, preferred_grapheme_idx: 0 }),
                        ..m
                    },
                ),
            ),
        }
    }
}

/// Extending the selection by whole lines upward, the mirror image of
/// `m_select_line_down`.
pub open spec fn m_select_line_up(m: ViewModel) -> ViewModel {
    let l0 = snap_line(m.lines, m.loc);
    let h = m.lines.len();
    if h == 0 {
        m_at(m, l0)
    } else {
        match m.selection {
            Some(start) => {
                let l1 = if location_le(l0, start) {
                    if l0.line_idx > 0 {
                        Location { line_idx: (l0.line_idx - 1) as usize, grapheme_idx: 0, ..l0 }
                    } else {
                        Location { grapheme_idx: 0, ..l0 }
                    }
                } else {
                    let t = Location { line_idx: sat_sub(l0.line_idx, 1), ..l0 };
                    if location_le(t, start) {
                        Location { grapheme_idx: 0, ..t }
                    } else {
                        Location { grapheme_idx: count_at(m.lines, t.line_idx as int) as usize, ..t }
                    }
                };
                m_redraw(m_scroll_into(m_at(m, settle(l1))))
            },
            None => m_redraw(
                m_scroll_into(
                    ViewModel {
                        loc: settle(Location { grapheme_idx: 0, ..l0 }),
                        selection: Some(
                            Location {
                                line_idx: l0.line_idx,
                                grapheme_idx: count_at(m.lines, l0.line_idx as int) as usize,
                                preferred_grapheme_idx: 0,
                            },
                        ),
                        ..m
                    },
                ),
            ),
        }
    }
}

/// Selecting everything: from the start to the end of the last line.
pub open spec fn m_select_all(m: ViewModel) -> ViewModel {
    let l = sat_sub(m.lines.len() as usize, 1);
    let g = count_at(m.lines, l as int) as usize;
    m_scroll_into(
        ViewModel {
            selection: Some(Location { line_idx: 0, grapheme_idx: 0, preferred_grapheme_idx: 0 }),
            loc: Location { line_idx: l, grapheme_idx: g, preferred_grapheme_idx: g },
            redraw: true,
            ..m
        },
    )
}

/// Deleting the selection, both ends included; the caret goes to its start.
pub open spec fn m_delete_selection(m: ViewModel) -> ViewModel {
    match m.selection {
        Some(start) => {
            let (a, b) = crate::buffer::ordered(start, m.loc);
            let m1 = m_delete_range(m, a, b);
            ViewModel { loc: a, selection: None, redraw: true, ..m1 }
        },
        None => m,
    }
}

/// Where the caret ends after pasting `text` at `start`: on its last
/// character.
pub open spec fn pasted_end(start: Location, text: Seq<char>) -> Location {
    let ps = crate::text::split_chars(text, '\n');
    let n = ps.len();
    let last = grapheme_clusters(ps.last()).len();
    let line = sat_add(start.line_idx, sat_sub(n as usize, 1));
    let g = if n > 1 {
        sat_sub(last as usize, 1)
    } else {
        sat_sub(sat_add(start.grapheme_idx, last as usize), 1)
    };
    Location { line_idx: line, grapheme_idx: g, preferred_grapheme_idx: g }
}

/// The selection's ends (the caret twice without a selection).
pub open spec fn selection_ends(m: ViewModel) -> (Location, Location) {
    match m.selection {
        Some(s) => (s, m.loc),
        None => (m.loc, m.loc),
    }
}

/// Pasting after the selection or the caret: after the grapheme there, or
/// at the start of the next line at the end of a line.
pub open spec fn m_paste(m: ViewModel, text: Seq<char>) -> ViewModel {
    if text.len() == 0 {
        m
    } else {
        let (s, e) = selection_ends(m);
        let at0 = if location_le(s, e) { e } else { s };
        let m1 = m_clear_selection(m);
        let at = if at0.grapheme_idx < count_at(m1.lines, at0.line_idx as int) {
            Location { grapheme_idx: (at0.grapheme_idx + 1) as usize, ..at0 }
        } else {
            Location { line_idx: sat_add(at0.line_idx, 1), grapheme_idx: 0, ..at0 }
        };
        let m2 = m_insert_string(m1, text, at);
        m_redraw(m_scroll_into(m_at(m2, pasted_end(at, text))))
    }
}

/// Pasting before the selection or the caret.
pub open spec fn m_paste_backward(m: ViewModel, text: Seq<char>) -> ViewModel {
    if text.len() == 0 {
        m
    } else {
        let (s, e) = selection_ends(m);
        let at = if location_le(s, e) { s } else { e };
        let m1 = m_clear_selection(m);
        let m2 = m_insert_string(m1, text, at);
        m_redraw(m_scroll_into(m_at(m2, pasted_end(at, text))))
    }
}

/// Joining the caret's line with the next one.
pub open spec fn m_concat_lines(m: ViewModel) -> ViewModel {
    let l = m.loc.line_idx as int;
    m_redraw(m_edited(m, crate::buffer::concat_loop(m.lines, l, l + 1, l + 1)))
}

// ---------------------------------------------------------------------------
// Search
// ---------------------------------------------------------------------------

/// The query searched for: the one being typed, else the last one.
pub open spec fn active_query(search: Option<(Location, Position, Option<Seq<char>>)>, last: Option<Seq<char>>) -> Option<
    Seq<char>,
> {
    match search {
        Some((_, _, Some(q))) => Some(q),
        _ => last,
    }
}

/// Half of `n`, rounded up.
pub open spec fn half_up(n: usize) -> usize {
    (n / 2 + n % 2) as usize
}

/// The scroll offset that shows `loc` in the middle of the view.
pub open spec fn centered_on(ls: Seq<Seq<char>>, loc: Location, size: Size) -> Position {
    let p = position_of(ls, loc);
    let usable = sat_sub(size.width, gutter_of(ls.len()));
    Position { row: sat_sub(p.row, half_up(size.height)), col: sat_sub(p.col, half_up(usable)) }
}

/// The match found from `from` in direction `forward`, if the query is not
/// empty.
pub open spec fn found_match(ls: Seq<Seq<char>>, q: Option<Seq<char>>, from: Location, forward: bool) -> Option<Location> {
    match q {
        Some(q) => if q.len() == 0 {
            None
        } else if forward {
            crate::buffer::search_forward_from(ls, q, from, 0)
        } else {
            crate::buffer::search_backward_from(ls, q, from, 0)
        },
        None => None,
    }
}

/// Searching from `from`: the caret goes to a match, centred in the view.
pub open spec fn m_search(m: ViewModel, q: Option<Seq<char>>, from: Location, forward: bool) -> ViewModel {
    match found_match(m.lines, q, from, forward) {
        Some(l) => ViewModel { loc: l, scroll: centered_on(m.lines, l, m.size), redraw: true, ..m },
        None => m_redraw(m),
    }
}

impl TextView {
    /// Starts a selection at the caret.
    pub fn start_selection(&mut self)
        ensures
            final(self).model() == (ViewModel { selection: Some(old(self).loc()), redraw: true, ..old(self).model() }),
            final(self).same_setting(&*old(self)),
            final(self).wf() == old(self).wf(),
            final(self).buf() == old(self).buf(),
    {
        self.selection_start = Some(self.text_location);
        self.needs_redraw = true;
    }

    pub fn clear_selection(&mut self)
        ensures
            final(self).model() == m_clear_selection(old(self).model()),
            final(self).same_setting(&*old(self)),
            final(self).wf() == old(self).wf(),
            final(self).buf() == old(self).buf(),
    {
        if self.selection_start.is_some() {
            self.selection_start = None;
            self.needs_redraw = true;
        }
    }

    /// The selection, from where it started to the caret.
    pub fn get_selection(&self) -> (r: Option<(Location, Location)>)
        ensures
            r == match self.selection() {
                Some(s) => Some((s, self.loc())),
                None => None,
            },
    {
        match self.selection_start {
            Some(start) => Some((start, self.text_location)),
            None => None,
        }
    }

    /// The selected text, both ends included.
    pub fn get_selected_text(&self) -> (r: Option<String>)
        requires
            self.wf(),
        ensures
            match self.selection() {
                Some(s) => r matches Some(t) && t@ == crate::buffer::range_text(self.lines(), s, self.loc()),
                None => r is None,
            },
    {
        match self.selection_start {
            Some(start) => {
                let (a, b) = if start.is_before_or_at(&self.text_location) {
                    (start, self.text_location)
                } else {
                    (self.text_location, start)
                };
                Some(self.buffer.get_range(a, b))
            },
            None => None,
        }
    }

    pub fn select_line_down(&mut self)
        requires
            old(self).wf(),
        ensures
            final(self).wf(),
            final(self).model() == m_select_line_down(old(self).model()),
            final(self).same_setting(&*old(self)),
            final(self).buf() == old(self).buf(),
    {
        self.snap_to_valid_line();
        let height = self.buffer.height();
        if height == 0 {
            return;
        }
        let l0 = self.text_location;
        match self.selection_start {
            Some(start) => {
                if start.is_before_or_at(&l0) {
                    if l0.line_idx < height - 1 {
                        let nl = l0.line_idx + 1;
                        self.text_location.line_idx = nl;
                        self.text_location.grapheme_idx = self.buffer.grapheme_count(nl);
                    } else {
                        self.text_location.grapheme_idx = self.buffer.grapheme_count(l0.line_idx);
                    }
                } else {
                    let up = l0.line_idx.saturating_add(1);
                    let nl = if up <= height - 1 { up } else { height - 1 };
                    self.text_location.line_idx = nl;
                    if start.is_before_or_at(&self.text_location) {
                        self.text_location.grapheme_idx = self.buffer.grapheme_count(nl);
                    } else {
                        self.text_location.grapheme_idx = 0;
                    }
                }
            },
            None => {
                self.selection_start = Some(Location { line_idx: l0.line_idx, grapheme_idx: 0, preferred_grapheme_idx: 0 });
                self.text_location.grapheme_idx = self.buffer.grapheme_count(l0.line_idx);
            },
        }
        self.text_location.preferred_grapheme_idx = self.text_location.grapheme_idx;
        self.scroll_text_location_into_view();
        self.needs_redraw = true;
    }

    pub fn select_line_up(&mut self)
        requires
            old(self).wf(),
        ensures
            final(self).wf(),
            final(self).model() == m_select_line_up(old(self).model()),
            final(self).same_setting(&*old(self)),
            final(self).buf() == old(self).buf(),
    {
        self.snap_to_valid_line();
        let height = self.buffer.height();
        if height == 0 {
            return;
        }
        let l0 = self.text_location;
        match self.selection_start {
            Some(start) => {
                if l0.is_before_or_at(&start) {
                    if l0.line_idx > 0 {
                        self.text_location.line_idx = l0.line_idx - 1;
                    }
                    self.text_location.grapheme_idx = 0;
                } else {
                    self.text_location.line_idx = l0.line_idx.saturating_sub(1);
                    if self.text_location.is_before_or_at(&start) {
                        self.text_location.grapheme_idx = 0;
                    } else {
                        self.text_location.grapheme_idx = self.buffer.grapheme_count(self.text_location.line_idx);
                    }
                }
            },
            None => {
                self.selection_start = Some(
                    Location {
                        line_idx: l0.line_idx,
                        grapheme_idx: self.buffer.grapheme_count(l0.line_idx),
                        preferred_grapheme_idx: 0,
                    },
                );
                self.text_location.grapheme_idx = 0;
            },
        }
        self.text_location.preferred_grapheme_idx = self.text_location.grapheme_idx;
        self.scroll_text_location_into_view();
        self.needs_redraw = true;
    }

    pub fn select_all(&mut self)
        requires
            old(self).wf(),
        ensures
            final(self).wf(),
            final(self).model() == m_select_all(old(self).model()),
            final(self).same_setting(&*old(self)),
            final(self).buf() == old(self).buf(),
    {
        self.selection_start = Some(Location { line_idx: 0, grapheme_idx: 0, preferred_grapheme_idx: 0 });
        let l = self.buffer.height().saturating_sub(1);
        let g = self.buffer.grapheme_count(l);
        self.text_location = Location { line_idx: l, grapheme_idx: g, preferred_grapheme_idx: g };
        self.needs_redraw = true;
        self.scroll_text_location_into_view();
    }

    pub fn delete_selection(&mut self)
        requires
            old(self).wf(),
        ensures
            final(self).wf(),
            final(self).model() == m_delete_selection(old(self).model()),
            final(self).same_setting(&*old(self)),
    {
        if let Some(start) = self.selection_start {
            let (a, b) = if start.is_before_or_at(&self.text_location) {
                (start, self.text_location)
            } else {
                (self.text_location, start)
            };
            self.buf_delete_range(a, b);
            self.text_location = a;
            self.selection_start = None;
            self.needs_redraw = true;
        }
    }

    /// Puts the caret on the last character of `text` pasted at `start`.
    fn jump_to_end_of_pasted_text(&mut self, start: Location, text: &str)
        requires
            old(self).wf(),
        ensures
            final(self).wf(),
            final(self).model() == m_scroll_into(m_at(old(self).model(), pasted_end(start, text@))),
            final(self).same_setting(&*old(self)),
            final(self).buf() == old(self).buf(),
    {
        let pieces = crate::text::split_on(text, '\n');
        proof {
            crate::text::lemma_split_chars_nonempty(text@, '\n');
        }
        let line_count = pieces.len();
        let last = crate::text::grapheme_indices(pieces[line_count - 1].as_str()).len();
        let line = start.line_idx.saturating_add(line_count.saturating_sub(1));
        let g = if line_count > 1 {
            last.saturating_sub(1)
        } else {
            start.grapheme_idx.saturating_add(last).saturating_sub(1)
        };
        self.text_location = Location { line_idx: line, grapheme_idx: g, preferred_grapheme_idx: g };
        self.scroll_text_location_into_view();
    }

    /// Pastes `text` after the selection or the caret, as `m_paste` describes.
    pub fn paste(&mut self, text: &str)
        requires
            old(self).wf(),
        ensures
            final(self).wf(),
            final(self).model() == m_paste(old(self).model(), text@),
            final(self).same_setting(&*old(self)),
    {
        if text.is_empty() {
            return;
        }
        let (s, e) = match self.selection_start {
            Some(st) => (st, self.text_location),
            None => (self.text_location, self.text_location),
        };
        let at0 = if s.is_before_or_at(&e) { e } else { s };
        self.clear_selection();
        let line_len = self.buffer.grapheme_count(at0.line_idx);
        let at = if at0.grapheme_idx < line_len {
            Location { grapheme_idx: at0.grapheme_idx + 1, ..at0 }
        } else {
            Location { line_idx: at0.line_idx.saturating_add(1), grapheme_idx: 0, ..at0 }
        };
        self.buf_insert_string(text, at);
        self.jump_to_end_of_pasted_text(at, text);
        self.needs_redraw = true;
    }

    /// Pastes `text` before the selection or the caret.
    pub fn paste_backward(&mut self, text: &str)
        requires
            old(self).wf(),
        ensures
            final(self).wf(),
            final(self).model() == m_paste_backward(old(self).model(), text@),
            final(self).same_setting(&*old(self)),
    {
        if text.is_empty() {
            return;
        }
        let (s, e) = match self.selection_start {
            Some(st) => (st, self.text_location),
            None => (self.text_location, self.text_location),
        };
        let at = if s.is_before_or_at(&e) { s } else { e };
        self.clear_selection();
        self.buf_insert_string(text, at);
        self.jump_to_end_of_pasted_text(at, text);
        self.needs_redraw = true;
    }

    /// Joins the caret's line with the next one.
    pub fn concat_lines(&mut self)
        requires
            old(self).wf(),
            old(self).loc().line_idx < usize::MAX,
        ensures
            final(self).wf(),
            final(self).model() == m_concat_lines(old(self).model()),
            final(self).same_setting(&*old(self)),
    {
        let mut to = self.text_location;
        to.line_idx = to.line_idx + 1;
        assert(crate::buffer::ordered(self.text_location, to) == (self.text_location, to));
        self.buffer.concat_range(self.text_location, to);
        self.needs_redraw = true;
    }

    // -----------------------------------------------------------------------
    // Search
    // -----------------------------------------------------------------------

    /// Starts a search from the caret.
    pub fn enter_search(&mut self)
        ensures
            final(self).search_view() == Some((old(self).loc(), old(self).scroll(), None::<Seq<char>>)),
            final(self).model() == m_redraw(old(self).model()),
            final(self).buf() == old(self).buf(),
            final(self).last_query() == old(self).last_query(),
            final(self).syntax_on() == old(self).syntax_on(),
            final(self).has_highlighter() == old(self).has_highlighter(),
            final(self).diagnostics_view() == old(self).diagnostics_view(),
            old(self).wf() ==> final(self).wf(),
    {
        self.search_info = Some(
            SearchInfo { prev_location: self.text_location, prev_scroll_offset: self.scroll_offset, query: None },
        );
        self.needs_redraw = true;
    }

    /// Ends the search, remembering its query if it has one.
    pub fn exit_search(&mut self)
        requires
            old(self).wf(),
        ensures
            final(self).search_view() is None,
            final(self).last_query() == match old(self).search_view() {
                Some((_, _, Some(q))) => Some(q),
                _ => old(self).last_query(),
            },
            final(self).model() == m_redraw(old(self).model()),
            final(self).buf() == old(self).buf(),
            final(self).syntax_on() == old(self).syntax_on(),
            final(self).has_highlighter() == old(self).has_highlighter(),
            final(self).diagnostics_view() == old(self).diagnostics_view(),
            final(self).wf(),
    {
        let info = self.search_info.take();
        if let Some(search_info) = info {
            if let Some(query) = search_info.query {
                self.last_search_query = Some(query);
            }
        }
        self.needs_redraw = true;
    }

    /// Forgets the last query.
    pub fn clear_search_query(&mut self)
        ensures
            final(self).last_query() is None,
            final(self).search_view() == old(self).search_view(),
            final(self).model() == m_redraw(old(self).model()),
            final(self).buf() == old(self).buf(),
            final(self).syntax_on() == old(self).syntax_on(),
            final(self).has_highlighter() == old(self).has_highlighter(),
            final(self).diagnostics_view() == old(self).diagnostics_view(),
            old(self).wf() ==> final(self).wf(),
    {
        self.last_search_query = None;
        self.needs_redraw = true;
    }

    /// Cancels the search: the caret and the scroll offset go back to where
    /// the search started, and the query typed is dropped.
    pub fn dismiss_search(&mut self)
        requires
            old(self).wf(),
        ensures
            final(self).search_view() is None,
            final(self).last_query() == old(self).last_query(),
            final(self).model() == match old(self).search_view() {
                Some((l, p, _)) => m_redraw(m_scroll_into(ViewModel { loc: l, scroll: p, ..old(self).model() })),
                None => m_redraw(old(self).model()),
            },
            final(self).buf() == old(self).buf(),
            final(self).syntax_on() == old(self).syntax_on(),
            final(self).has_highlighter() == old(self).has_highlighter(),
            final(self).diagnostics_view() == old(self).diagnostics_view(),
            final(self).wf(),
    {
        if let Some(search_info) = &mut self.search_info {
            self.text_location = search_info.prev_location;
            self.scroll_offset = search_info.prev_scroll_offset;
            search_info.query = None;
            self.scroll_text_location_into_view();
        }
        self.exit_search();
    }

    /// The query being typed, else the last one.
    pub fn get_search_query(&self) -> (r: Option<&Line>)
        requires
            self.wf(),
        ensures
            match active_query(self.search_view(), self.last_query()) {
                Some(q) => r matches Some(l) && l@ == q && l.wf(),
                None => r is None,
            },
    {
        if let Some(search_info) = &self.search_info {
            if let Some(query) = &search_info.query {
                return Some(query);
            }
        }
        match &self.last_search_query {
            Some(q) => Some(q),
            None => None,
        }
    }

    fn center_text_location(&mut self)
        requires
            old(self).wf(),
        ensures
            final(self).model() == (ViewModel {
                scroll: centered_on(old(self).lines(), old(self).loc(), old(self).size_view()),
                redraw: true,
                ..old(self).model()
            }),
            final(self).same_setting(&*old(self)),
            final(self).buf() == old(self).buf(),
            final(self).wf(),
    {
        let gutter_width = self.gutter_width();
        let usable_width = self.size.width.saturating_sub(gutter_width);
        let p = self.text_location_to_position();
        let vertical_mid = self.size.height / 2 + self.size.height % 2;
        let horizontal_mid = usable_width / 2 + usable_width % 2;
        self.scroll_offset.row = p.row.saturating_sub(vertical_mid);
        self.scroll_offset.col = p.col.saturating_sub(horizontal_mid);
        self.needs_redraw = true;
    }

    /// Searches from `from`, forward or backward, for the active query;
    /// tells whether a match was found.
    fn search_in_direction(&mut self, from: Location, forward: bool) -> (found: bool)
        requires
            old(self).wf(),
        ensures
            final(self).wf(),
            final(self).model() == m_search(
                old(self).model(),
                active_query(old(self).search_view(), old(self).last_query()),
                from,
                forward,
            ),
            found == found_match(
                old(self).lines(),
                active_query(old(self).search_view(), old(self).last_query()),
                from,
                forward,
            ) is Some,
            final(self).same_setting(&*old(self)),
            final(self).buf() == old(self).buf(),
    {
        let mut location: Option<Location> = None;
        if let Some(query) = self.get_search_query() {
            if !query.is_empty() {
                location = if forward {
                    self.buffer.search_forward(query.as_str(), from)
                } else {
                    self.buffer.search_backward(query.as_str(), from)
                };
            }
        }
        if let Some(l) = location {
            self.text_location = l;
            self.center_text_location();
            self.needs_redraw = true;
            return true;
        }
        self.needs_redraw = true;
        false
    }

    /// Searches for `query` from the caret, as it is typed.
    pub fn search(&mut self, query: &str)
        requires
            old(self).wf(),
            line_fits(query@),
        ensures
            final(self).wf(),
            ({
                let s = match old(self).search_view() {
                    Some((l, p, _)) => Some((l, p, Some(query@))),
                    None => None,
                };
                &&& final(self).search_view() == s
                &&& final(self).model() == m_search(
                    old(self).model(),
                    active_query(s, old(self).last_query()),
                    old(self).loc(),
                    true,
                )
            }),
            final(self).last_query() == old(self).last_query(),
            final(self).buf() == old(self).buf(),
            final(self).syntax_on() == old(self).syntax_on(),
            final(self).has_highlighter() == old(self).has_highlighter(),
            final(self).diagnostics_view() == old(self).diagnostics_view(),
    {
        if let Some(search_info) = &mut self.search_info {
            search_info.query = Some(Line::from(query));
        }
        let from = self.text_location;
        self.search_in_direction(from, true);
    }

    /// Searches forward from behind the caret (one grapheme on, unless the
    /// query is empty).
    pub fn search_next(&mut self) -> (found: bool)
        requires
            old(self).wf(),
        ensures
            final(self).wf(),
            ({
                let q = active_query(old(self).search_view(), old(self).last_query());
                let step: usize = match q {
                    Some(t) => if grapheme_clusters(t).len() >= 1 { 1 } else { 0 },
                    None => 1,
                };
                let g = sat_add(old(self).loc().grapheme_idx, step);
                let from = Location { line_idx: old(self).loc().line_idx, grapheme_idx: g, preferred_grapheme_idx: g };
                &&& final(self).model() == m_search(old(self).model(), q, from, true)
                &&& found == found_match(old(self).lines(), q, from, true) is Some
            }),
            final(self).same_setting(&*old(self)),
            final(self).buf() == old(self).buf(),
    {
        let step_right = match self.get_search_query() {
            Some(query) => {
                let n = query.grapheme_count();
                if n >= 1 { 1 } else { 0 }
            },
            None => 1,
        };
        let g = self.text_location.grapheme_idx.saturating_add(step_right);
        let location = Location { line_idx: self.text_location.line_idx, grapheme_idx: g, preferred_grapheme_idx: g };
        self.search_in_direction(location, true)
    }

    /// Searches backward from the caret.
    pub fn search_prev(&mut self) -> (found: bool)
        requires
            old(self).wf(),
        ensures
            final(self).wf(),
            final(self).model() == m_search(
                old(self).model(),
                active_query(old(self).search_view(), old(self).last_query()),
                old(self).loc(),
                false,
            ),
            found == found_match(
                old(self).lines(),
                active_query(old(self).search_view(), old(self).last_query()),
                old(self).loc(),
                false,
            ) is Some,
            final(self).same_setting(&*old(self)),
            final(self).buf() == old(self).buf(),
    {
        let from = self.text_location;
        self.search_in_direction(from, false)
    }

    // -----------------------------------------------------------------------
    // Files
    // -----------------------------------------------------------------------

    /// Shows the lines of `contents`, read from the file `file_name`, with
    /// the syntax highlighting of its type.
    pub fn load(&mut self, contents: &str, file_name: &str)
        requires
            old(self).wf(),
            contents@.len() + 1 <= usize::MAX / 64,
        ensures
            final(self).wf(),
            final(self).lines() == crate::text::text_lines(contents@),
            final(self).buf().undo_view().len() == 0,
            final(self).buf().redo_view().len() == 0,
            final(self).buf().info().describes_path(file_name@),
            final(self).has_highlighter() == has_syntax(final(self).buf().info().file_type_view()),
            final(self).syntax_current(),
            final(self).redraw_flag(),
            final(self).loc() == old(self).loc(),
            final(self).selection() == old(self).selection(),
            final(self).scroll() == old(self).scroll(),
            final(self).size_view() == old(self).size_view(),
            final(self).search_view() == old(self).search_view(),
            final(self).last_query() == old(self).last_query(),
            final(self).syntax_on() == old(self).syntax_on(),
            final(self).diagnostics_view() == old(self).diagnostics_view(),
    {
        self.buffer = Buffer::load(contents, file_name);
        self.syntax_highlighter = create_syntax_highlighter(self.buffer.get_file_info().get_file_type());
        self.update_syntax_highlighter();
        self.needs_redraw = true;
    }

    /// Records that the text was written to the view's file.
    pub fn save(&mut self)
        requires
            old(self).wf(),
        ensures
            final(self).wf(),
            final(self).model() == (ViewModel {
                undo: Seq::empty(),
                redo: Seq::empty(),
                redraw: true,
                ..old(self).model()
            }),
            final(self).same_setting(&*old(self)),
    {
        self.buffer.save();
        self.needs_redraw = true;
    }

    /// Records that the text was written to the file `file_name`, which the
    /// view shows from now on, with the syntax highlighting of its type.
    pub fn save_as(&mut self, file_name: &str)
        requires
            old(self).wf(),
        ensures
            final(self).wf(),
            final(self).model() == (ViewModel {
                undo: Seq::empty(),
                redo: Seq::empty(),
                redraw: true,
                ..old(self).model()
            }),
            final(self).buf().info().describes_path(file_name@),
            final(self).has_highlighter() == has_syntax(final(self).buf().info().file_type_view()),
            final(self).syntax_current(),
            final(self).search_view() == old(self).search_view(),
            final(self).last_query() == old(self).last_query(),
            final(self).syntax_on() == old(self).syntax_on(),
            final(self).diagnostics_view() == old(self).diagnostics_view(),
    {
        self.buffer.save_as(file_name);
        self.syntax_highlighter = create_syntax_highlighter(self.buffer.get_file_info().get_file_type());
        self.update_syntax_highlighter();
        self.needs_redraw = true;
    }

    /// A view of `content`, not backed by a file, shown as `name`.
    pub fn new_with_content(content: &str, name: &str, size: Size) -> (r: Self)
        requires
            content@.len() + 1 <= usize::MAX / 64,
        ensures
            r.wf(),
            r.lines() == crate::text::text_lines(content@),
            r.buf().undo_view().len() == 0,
            r.buf().redo_view().len() == 0,
            r.buf().info().path_view() is None,
            r.buf().info().display_name_view() == Some(name@),
            r.size_view() == size,
            r.loc() == (Location { line_idx: 0, grapheme_idx: 0, preferred_grapheme_idx: 0 }),
            r.selection() is None,
            r.search_view() is None,
            r.last_query() is None,
            !r.has_highlighter(),
            r.redraw_flag(),
    {
        let mut view = TextView::new();
        view.set_size(size);
        view.buffer = Buffer::new_with_content(content, name);
        view
    }

    /// Shows `content`, the file's text read again, unless it is what the
    /// view holds (an empty text counts as one empty line); the caret is
    /// kept within the text. Tells whether the text changed.
    pub fn reload(&mut self, content: &str) -> (changed: bool)
        requires
            old(self).wf(),
            content@.len() + 1 <= usize::MAX / 64,
        ensures
            final(self).wf(),
            ({
                let t = crate::text::text_lines(content@);
                let new_lines = if t.len() == 0 { seq![Seq::<char>::empty()] } else { t };
                &&& changed == (new_lines != old(self).lines())
                &&& changed ==> final(self).lines() == new_lines && final(self).buf().undo_view().len() == 0
                    && final(self).buf().redo_view().len() == 0 && final(self).loc() == snap_grapheme(
                    new_lines,
                    snap_line(new_lines, old(self).loc()),
                ) && final(self).redraw_flag()
                &&& !changed ==> final(self).model() == old(self).model()
            }),
            final(self).same_setting(&*old(self)),
    {
        let mut new_lines = crate::buffer::lines_of_text(content);
        if new_lines.len() == 0 {
            new_lines.push(Line::empty());
            proof {
                let one = seq![Seq::<char>::empty()];
                assert(crate::buffer::texts(new_lines@) =~= one);
                assert(one.drop_last() =~= Seq::<Seq<char>>::empty());
                assert(total_size(Seq::<Seq<char>>::empty()) == 0);
                assert(total_size(one) == total_size(one.drop_last()) + one.last().len() + 1);
            }
        }
        if self.buffer.matches_content(&new_lines) {
            return false;
        }
        self.buffer.reset_lines(new_lines);
        self.snap_to_valid_line();
        self.snap_to_valid_grapheme();
        self.needs_redraw = true;
        true
    }
}

// ---------------------------------------------------------------------------
// Drawing
// ---------------------------------------------------------------------------

/// One row of a view as it is drawn: the gutter label, whether it is the
/// caret's line, the visible text with its annotations, and the first
/// diagnostic on the line.
pub struct RenderedRow {
    pub label: String,
    pub is_current: bool,
    pub has_line: bool,
    pub text: Option<crate::annotatedstring::AnnotatedString>,
    pub diagnostic: Option<(String, crate::annotation::AnnotationType)>,
}

pub open spec fn abs_diff(a: usize, b: usize) -> usize {
    if a >= b {
        (a - b) as usize
    } else {
        (b - a) as usize
    }
}

/// The gutter label of line `idx`: its number on the caret's line, its
/// distance to the caret's line elsewhere, `~` past the end; right-aligned
/// left of the gutter's last column.
pub open spec fn row_label(ls: Seq<Seq<char>>, cur: usize, idx: usize) -> Seq<char> {
    let w = sat_sub(gutter_of(ls.len()), 1) as nat;
    if idx < ls.len() {
        crate::text::pad_left(decimal((if idx == cur { sat_add(idx, 1) } else { abs_diff(idx, cur) }) as nat), w)
    } else {
        crate::text::pad_left(seq!['~'], w)
    }
}

/// The first diagnostic that starts on line `idx`, from entry `k` on.
pub open spec fn first_diagnostic_from(ds: Seq<Diagnostic>, idx: usize, k: nat) -> Option<Diagnostic>
    decreases ds.len() - k,
{
    if k >= ds.len() {
        None
    } else if ds[k as int].start_line as usize == idx {
        Some(ds[k as int])
    } else {
        first_diagnostic_from(ds, idx, k + 1)
    }
}

/// The first line of a message.
pub open spec fn first_line_of(m: Seq<char>) -> Seq<char> {
    let t = crate::text::text_lines(m);
    if t.len() > 0 {
        t[0]
    } else {
        Seq::empty()
    }
}

impl TextView {
    /// The syntax annotations of line `idx`, when syntax highlighting is on.
    pub closed spec fn syntax_at(&self, idx: usize) -> Seq<crate::annotation::Annotation> {
        if self.syntax_enabled {
            match self.syntax_highlighter {
                Some(h) => crate::highlighter::opt_seq(h.annotations_at(idx)),
                None => Seq::empty(),
            }
        } else {
            Seq::empty()
        }
    }

    /// The annotations of line `idx` when drawn: syntax, search matches (the
    /// one at the caret selected), selection and diagnostics.
    pub open spec fn row_annotations(&self, idx: usize) -> Seq<crate::annotation::Annotation> {
        let t = self.lines()[idx as int];
        let search = match active_query(self.search_view(), self.last_query()) {
            Some(q) => crate::highlighter::search_annotations(t, q, Some(self.loc()), idx),
            None => Seq::empty(),
        };
        let selection = match self.selection() {
            Some(s) => {
                let (a, b) = if location_le(s, self.loc()) { (s, self.loc()) } else { (self.loc(), s) };
                match crate::highlighter::selection_annotation(a, b, idx, t) {
                    Some(x) => seq![x],
                    None => Seq::empty(),
                }
            },
            None => Seq::empty(),
        };
        self.syntax_at(idx) + search + selection + crate::highlighter::diagnostic_annotations(
            self.diagnostics_view(),
            idx,
            t,
        )
    }

    /// Row `i` of the view as `render_rows` describes it.
    pub open spec fn row_ok(&self, i: int, row: RenderedRow) -> bool {
        let ls = self.lines();
        let idx = sat_add(i as usize, self.scroll().row);
        let left = self.scroll().col;
        let right = sat_add(self.scroll().col, sat_sub(self.size_view().width, gutter_of(ls.len())));
        &&& row.label@ == row_label(ls, self.loc().line_idx, idx)
        &&& row.is_current == (idx == self.loc().line_idx)
        &&& row.has_line == (idx < ls.len())
        &&& match row.text {
            Some(a) => idx < ls.len() && a.view_pair() == crate::line::annotated_visible(
                ls[idx as int],
                self.row_annotations(idx),
                left as nat,
                right as nat,
            ),
            None => idx >= ls.len(),
        }
        &&& match row.diagnostic {
            Some((m, t)) => idx < ls.len() && (first_diagnostic_from(self.diagnostics_view(), idx, 0) matches Some(
                d,
            ) && m@ == first_line_of(d.message@) && t == crate::highlighter::severity_type(d.severity)),
            None => idx >= ls.len() || first_diagnostic_from(self.diagnostics_view(), idx, 0) is None,
        }
    }

    /// The first diagnostic starting on line `idx`: the first line of its
    /// message and its kind.
    fn diagnostic_on(&self, idx: usize) -> (r: Option<(String, crate::annotation::AnnotationType)>)
        ensures
            match first_diagnostic_from(self.diagnostics_view(), idx, 0) {
                Some(d) => r matches Some((m, t)) && m@ == first_line_of(d.message@) && t
                    == crate::highlighter::severity_type(d.severity),
                None => r is None,
            },
    {
        let mut k: usize = 0;
        while k < self.diagnostics.len()
            invariant
                k <= self.diagnostics@.len(),
                first_diagnostic_from(self.diagnostics_view(), idx, 0) == first_diagnostic_from(
                    self.diagnostics_view(),
                    idx,
                    k as nat,
                ),
            decreases self.diagnostics@.len() - k,
        {
            let d = &self.diagnostics[k];
            if d.start_line as usize == idx {
                let lines = crate::text::lines_of(d.message.as_str());
                let msg = if lines.len() > 0 {
                    assert(lines@[0]@ == crate::text::text_lines(d.message@)[0]);
                    copy_str(lines[0].as_str())
                } else {
                    String::new()
                };
                return Some((msg, crate::highlighter::severity_annotation_type(d.severity)));
            }
            k = k + 1;
        }
        None
    }

    /// The rows of the view, top to bottom, as they are drawn.
    pub fn render_rows(&self) -> (rows: Vec<RenderedRow>)
        requires
            self.wf(),
        ensures
            rows@.len() == self.size_view().height,
            forall|i: int| 0 <= i < rows@.len() ==> #[trigger] self.row_ok(i, rows@[i]),
    {
        let ghost ls = self.lines();
        let height = self.size.height;
        let gutter_width = self.gutter_width();
        let usable_width = self.size.width.saturating_sub(gutter_width);
        let left = self.scroll_offset.col;
        let right = self.scroll_offset.col.saturating_add(usable_width);
        let query = self.get_search_query();
        let matched: Option<&str> = match query {
            Some(q) => {
                proof {
                    q.lemma_wf();
                }
                Some(q.as_str())
            },
            None => None,
        };
        let selected_match = if query.is_some() { Some(self.text_location) } else { None };
        let selection = match self.selection_start {
            Some(start) => Some((start, self.text_location)),
            None => None,
        };
        let syntax: Option<&TreeSitterHighlighter> = if self.syntax_enabled {
            match &self.syntax_highlighter {
                Some(h) => Some(h),
                None => None,
            }
        } else {
            None
        };
        let diagnostics = crate::highlighter::copy_diagnostics(&self.diagnostics);
        let ghost dv = diagnostics@;
        let mut highlighter = crate::highlighter::Highlighter::new(
            matched,
            selected_match,
            selection,
            Some(diagnostics),
            syntax,
        );
        let ghost h0 = highlighter;
        let mut rows: Vec<RenderedRow> = Vec::new();
        let mut r: usize = 0;
        while r < height
            invariant
                self.wf(),
                ls == self.lines(),
                r <= height,
                height == self.size_view().height,
                gutter_width == gutter_of(ls.len()),
                left == self.scroll().col,
                right == sat_add(self.scroll().col, sat_sub(self.size_view().width, gutter_of(ls.len()))),
                highlighter.wf(),
                highlighter.syntax_highlighter == h0.syntax_highlighter,
                highlighter.selection_highlighter == h0.selection_highlighter,
                highlighter.diagnostic_highlighter == h0.diagnostic_highlighter,
                h0.diagnostic_highlighter matches Some(dh) && dh.diagnostics@ == dv,
                dv.len() == self.diagnostics_view().len(),
                forall|j: int| 0 <= j < dv.len() ==> crate::highlighter::same_diagnostic(#[trigger] dv[j], self.diagnostics_view()[j]),
                h0.syntax_highlighter == (if self.syntax_on() { match self.syntax_highlighter { Some(h) => Some(&h), None => None } } else { None::<&TreeSitterHighlighter> }),
                match active_query(self.search_view(), self.last_query()) {
                    Some(q) => highlighter.search_result_highlighter matches Some(sh) && sh.word() == q && sh.selected() == Some(self.loc()),
                    None => highlighter.search_result_highlighter is None,
                },
                match self.selection() {
                    Some(s) => h0.selection_highlighter matches Some(sh) && ((sh.start == s && sh.end == self.loc()) || (sh.start == self.loc() && sh.end == s)) && location_le(sh.start, sh.end) && (location_le(s, self.loc()) ==> sh.start == s && sh.end == self.loc()),
                    None => h0.selection_highlighter is None,
                },
                rows@.len() == r,
                forall|i: int| 0 <= i < r ==> #[trigger] self.row_ok(i, rows@[i]),
            decreases height - r,
        {
            let line_idx = r.saturating_add(self.scroll_offset.row);
            let is_current = line_idx == self.text_location.line_idx;
            let number = if is_current {
                line_idx.saturating_add(1)
            } else if line_idx >= self.text_location.line_idx {
                line_idx - self.text_location.line_idx
            } else {
                self.text_location.line_idx - line_idx
            };
            let w = gutter_width.saturating_sub(1);
            let row = match self.buffer.get_line(line_idx) {
                Some(line) => {
                    highlighter.highlight(line_idx, line);
                    let annotations = highlighter.get_annotations(line_idx, line);
                    proof {
                        crate::highlighter::lemma_same_diagnostics_annotate_alike(dv, self.diagnostics_view(), line_idx, line@);
                        assert(annotations@ =~= self.row_annotations(line_idx));
                    }
                    let text = line.get_annotated_visible_substr(left..right, Some(&annotations));
                    let label = crate::text::pad_string_left(usize_to_string(number).as_str(), w);
                    RenderedRow {
                        label,
                        is_current,
                        has_line: true,
                        text: Some(text),
                        diagnostic: self.diagnostic_on(line_idx),
                    }
                },
                None => {
                    let label = crate::text::pad_string_left("~", w);
                    proof {
                        reveal_strlit("~");
                    }
                    RenderedRow { label, is_current, has_line: false, text: None, diagnostic: None }
                },
            };
            proof {
                let idx = sat_add(r, self.scroll().row);
                assert(row.label@ == row_label(ls, self.loc().line_idx, idx));
                assert(row.is_current == (idx == self.loc().line_idx));
                assert(row.has_line == (idx < ls.len()));
            }
            assert(self.row_ok(r as int, row));
            rows.push(row);
            r = r + 1;
        }
        rows
    }
}

// ---------------------------------------------------------------------------
// Positions and edits from a language server
// ---------------------------------------------------------------------------

/// The caret a language server position asks for: the line (snapped into the
/// text) and the grapheme at that UTF-16 code unit of it (the end of the line
/// when it lies beyond).
pub open spec fn lsp_target(ls: Seq<Seq<char>>, loc: Location, pos: LspPosition) -> Location {
    let l0 = snap_line(ls, Location { line_idx: pos.line as usize, ..loc });
    let g: usize = if l0.line_idx < ls.len() {
        let line = ls[l0.line_idx as int];
        match crate::line::grapheme_of_byte(
            grapheme_clusters(line),
            crate::line::utf16_scan(line, pos.character as nat, 0),
        ) {
            Some(i) => i as usize,
            None => grapheme_clusters(line).len() as usize,
        }
    } else {
        0
    };
    at_grapheme(l0, g)
}

/// A change that a language server asks for: the text from `start` to `end`
/// becomes `new_text`.
pub struct TextEdit {
    pub start: LspPosition,
    pub end: LspPosition,
    pub new_text: String,
}

/// `a` comes before `b` in the document.
pub open spec fn pos_lt(a: LspPosition, b: LspPosition) -> bool {
    a.line < b.line || (a.line == b.line && a.character < b.character)
}

/// Where `e` goes in `t`, sorted by descending start, searching from `j`:
/// before the first edit that starts before it, so that edits with equal
/// starts keep their order.
pub open spec fn insert_pos(t: Seq<TextEdit>, e: TextEdit, j: int) -> int
    decreases t.len() - j,
{
    if j >= t.len() || pos_lt(t[j].start, e.start) {
        j
    } else {
        insert_pos(t, e, j + 1)
    }
}

/// The edits sorted by descending start; edits with equal starts keep
/// their order.
pub open spec fn sorted_edits(s: Seq<TextEdit>) -> Seq<TextEdit>
    decreases s.len(),
{
    if s.len() == 0 {
        s
    } else {
        let t = sorted_edits(s.drop_last());
        t.insert(insert_pos(t, s.last(), 0), s.last())
    }
}

/// The location a language server position names, as such.
pub open spec fn edit_loc(p: LspPosition) -> Location {
    Location { line_idx: p.line as usize, grapheme_idx: p.character as usize, preferred_grapheme_idx: 0 }
}

/// Applying one edit: deleting its range, then inserting its text at its
/// start.
pub open spec fn m_text_edit(m: ViewModel, e: TextEdit) -> ViewModel {
    m_insert_string(m_delete_range(m, edit_loc(e.start), edit_loc(e.end)), e.new_text@, edit_loc(e.start))
}

/// Applying the edits in turn.
pub open spec fn m_text_edits(m: ViewModel, es: Seq<TextEdit>) -> ViewModel
    decreases es.len(),
{
    if es.len() == 0 {
        m
    } else {
        m_text_edit(m_text_edits(m, es.drop_last()), es.last())
    }
}

fn pos_before(a: LspPosition, b: LspPosition) -> (r: bool)
    ensures
        r == pos_lt(a, b),
{
    a.line < b.line || (a.line == b.line && a.character < b.character)
}

/// Sorts the edits by descending start, keeping the order of edits with
/// equal starts.
pub fn sort_edits(edits: Vec<TextEdit>) -> (r: Vec<TextEdit>)
    ensures
        r@ == sorted_edits(edits@),
{
    let ghost all = edits@;
    let mut rest = edits;
    let n = rest.len();
    let mut sorted: Vec<TextEdit> = Vec::new();
    let mut i: usize = 0;
    while rest.len() > 0
        invariant
            i + rest@.len() == all.len(),
            all.len() == n,
            rest@ == all.skip(i as int),
            sorted@ == sorted_edits(all.take(i as int)),
        decreases rest@.len(),
    {
        let e = rest.remove(0);
        proof {
            assert(e == all[i as int]);
            assert(rest@ =~= all.skip(i + 1));
            assert(all.take(i + 1).drop_last() =~= all.take(i as int));
            assert(all.take(i + 1).last() == e);
        }
        let mut k: usize = 0;
        while k < sorted.len() && !pos_before(sorted[k].start, e.start)
            invariant
                k <= sorted@.len(),
                insert_pos(sorted@, e, k as int) == insert_pos(sorted@, e, 0),
            decreases sorted@.len() - k,
        {
            k = k + 1;
        }
        sorted.insert(k, e);
        i = i + 1;
    }
    assert(all.take(i as int) =~= all);
    sorted
}

impl TextView {
    /// Puts the caret where a language server position points (see
    /// `lsp_target`) and scrolls to it.
    pub fn set_lsp_location(&mut self, pos: LspPosition)
        requires
            old(self).wf(),
        ensures
            ({
                let ls = old(self).lines();
                let l = lsp_target(ls, old(self).loc(), pos);
                &&& final(self).loc() == l
                &&& final(self).scroll() == scrolled_to(ls, old(self).scroll(), l, old(self).size_view())
            }),
            final(self).redraw_flag(),
            final(self).same_but_caret(&*old(self)),
            final(self).wf(),
    {
        self.text_location.line_idx = pos.line as usize;
        self.snap_to_valid_line();
        let g = match self.buffer.get_line(self.text_location.line_idx) {
            Some(line) => line.utf16_code_unit_to_grapheme_idx(pos.character as usize),
            None => 0,
        };
        self.set_grapheme(g);
        self.scroll_text_location_into_view();
        self.needs_redraw = true;
    }

    /// Applies a language server's edits, the last in the document first (see
    /// `sorted_edits`), each as a deletion of its range and an insertion of
    /// its text.
    pub fn apply_lsp_edits(&mut self, edits: Vec<TextEdit>)
        requires
            old(self).wf(),
        ensures
            final(self).wf(),
            final(self).model() == m_redraw(m_text_edits(old(self).model(), sorted_edits(edits@))),
            final(self).same_setting(&*old(self)),
    {
        let ghost m0 = self.model();
        let ghost s0 = *self;
        let sorted = sort_edits(edits);
        let mut i: usize = 0;
        while i < sorted.len()
            invariant
                self.wf(),
                i <= sorted@.len(),
                self.model() == m_text_edits(m0, sorted@.take(i as int)),
                self.same_setting(&s0),
            decreases sorted@.len() - i,
        {
            let start = Location {
                line_idx: sorted[i].start.line as usize,
                grapheme_idx: sorted[i].start.character as usize,
                preferred_grapheme_idx: 0,
            };
            let end = Location {
                line_idx: sorted[i].end.line as usize,
                grapheme_idx: sorted[i].end.character as usize,
                preferred_grapheme_idx: 0,
            };
            self.buf_delete_range(start, end);
            self.buf_insert_string(sorted[i].new_text.as_str(), start);
            proof {
                assert(sorted@.take(i + 1).drop_last() =~= sorted@.take(i as int));
                assert(sorted@.take(i + 1).last() == sorted@[i as int]);
            }
            i = i + 1;
        }
        assert(sorted@.take(i as int) =~= sorted@);
        self.needs_redraw = true;
    }
}

// ---------------------------------------------------------------------------
// Laws
// ---------------------------------------------------------------------------

/// Undoing an edit gives back the text before it (and the undo history
/// before it); redoing then gives back the edited text.
pub proof fn lemma_undo_redo_edit(m: ViewModel, new_lines: Seq<Seq<char>>)
    ensures
        m_undo(m_edited(m, new_lines)).lines == m.lines,
        m_undo(m_edited(m, new_lines)).undo == m.undo,
        m_redo(m_undo(m_edited(m, new_lines))).lines == new_lines,
{
}

/// Typing a character (when the text has room) and undoing it gives back
/// the text.
pub proof fn lemma_undo_insert_char(m: ViewModel, c: char, at: Location)
    requires
        text_fits(m.lines, 2),
    ensures
        m_undo(m_insert_char(m, c, at)).lines == m.lines,
{
    lemma_undo_redo_edit(m, crate::buffer::insert_char_step(m.lines, c, at));
}

/// The edits are in descending order of their starts.
pub open spec fn starts_descending(s: Seq<TextEdit>) -> bool {
    forall|i: int, j: int| 0 <= i < j < s.len() ==> !pos_lt(#[trigger] s[i].start, #[trigger] s[j].start)
}

proof fn lemma_insert_pos(t: Seq<TextEdit>, e: TextEdit, j: int)
    requires
        0 <= j <= t.len(),
    ensures
        j <= insert_pos(t, e, j) <= t.len(),
        forall|i: int| j <= i < insert_pos(t, e, j) ==> !pos_lt(#[trigger] t[i].start, e.start),
        insert_pos(t, e, j) < t.len() ==> pos_lt(t[insert_pos(t, e, j)].start, e.start),
    decreases t.len() - j,
{
    if j < t.len() && !pos_lt(t[j].start, e.start) {
        lemma_insert_pos(t, e, j + 1);
    }
}

/// The edits are applied last in the document first: sorting them keeps
/// every edit and puts them in descending order of their starts.
pub proof fn lemma_sorted_edits(s: Seq<TextEdit>)
    ensures
        sorted_edits(s).to_multiset() == s.to_multiset(),
        sorted_edits(s).len() == s.len(),
        starts_descending(sorted_edits(s)),
    decreases s.len(),
{
    if s.len() > 0 {
        let t = sorted_edits(s.drop_last());
        lemma_sorted_edits(s.drop_last());
        let e = s.last();
        let k = insert_pos(t, e, 0);
        lemma_insert_pos(t, e, 0);
        vstd::seq_lib::to_multiset_insert(t, k, e);
        assert(s.drop_last().push(e) =~= s);
        vstd::seq_lib::to_multiset_build(s.drop_last(), e);
        let r = t.insert(k, e);
        t.insert_ensures(k, e);
        assert(r == sorted_edits(s));
        assert forall|i: int, j: int| 0 <= i < j < r.len() implies !pos_lt(#[trigger] r[i].start, #[trigger] r[j].start) by {
            if j < k {
                assert(r[i] == t[i] && r[j] == t[j]);
            } else if j == k {
                assert(r[i] == t[i] && r[j] == e);
            } else if i < k {
                assert(r[i] == t[i] && r[j] == t[j - 1]);
            } else if i == k {
                assert(r[i] == e && r[j] == t[j - 1]);
                assert(!pos_lt(t[k].start, t[j - 1].start) || k == j - 1);
            } else {
                assert(r[i] == t[i - 1] && r[j] == t[j - 1]);
            }
        }
    }
}

} // verus!
