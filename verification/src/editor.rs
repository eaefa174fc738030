//! The editor: its views, modes and prompts, and how it answers keys and
//! mouse events. What only the program around it can do (the terminal, the
//! system clipboard, files, language servers) it asks for as actions, and it
//! is told the outcome.
use vstd::prelude::*;

use crate::command::{command_of, Command, Edit, KeyCode, KeyEvent, Move, System};
use crate::commandbar::{opt_text, sat_dec, sat_inc, CommandBar};
use crate::contextmenu::{fit_on_screen, max_label_len, menu_actions, menu_entry, ContextMenu, ContextMenuAction};
use crate::infopopup::{max_width, popup_position, wrap_width, wrapped_lines, InfoPopup};
use crate::jumplist::{first_entry, recorded, JumpEntry, JumpList};
use crate::keymap::{decide_keys, key_event_to_string, key_outcome, key_text, KeyOutcome, NormalAction};
use crate::line::line_fits;
use crate::messagebar::MessageBar;
use crate::prelude::{Location, Position, Size};
use crate::text::{chars_of, copy_str, decimal, usize_to_string};
use crate::documentstatus::DocumentStatus;
use crate::highlighter::Diagnostic;
use crate::lsp::{has_language_server, has_server, hover_text, hover_text_of, HoverContents};
use crate::text::{grapheme_clusters, pad_right, strings_view, terminate_lines, text_lines, words};
use crate::treesitter::has_syntax;
use crate::vimcommand::{
    command_arg, command_kind, command_names, command_word, complete_step, completion_start, completion_step,
    ends_with_space, entries_view, entry_completions, parse_command, path_completions, split_path, takes_path,
    with_prefix, CommandKind, CompletionStart,
};
use crate::buffer::range_text;
use crate::view::{
    active_query, current_char, m_concat_lines, m_delete_selection, m_paste, m_paste_backward, m_select_all,
    at_grapheme, gutter_of, m_replace_mode, m_select_line_down, m_select_line_up, m_clear_selection, sat_sub,
    scroll_moves, m_edit, m_move, m_redraw, m_scroll_into, m_search, sat_add, scrolled_to,
    snap_grapheme, snap_line, lsp_target, m_text_edits, sorted_edits, LspPosition, TextEdit, TextView, ViewModel,
};

verus! {

/// How many times `:q` must be typed in a row to quit with unsaved changes.
pub const QUIT_TIMES: u8 = 3;

/// The editing mode.
#[derive(Copy, Clone, Eq, PartialEq, Structural, Debug)]
pub enum EditorMode {
    Normal,
    Insert,
    Visual,
    Replace,
}

/// The name of a mode, as the status bar shows it.
pub open spec fn mode_text(m: EditorMode) -> Seq<char> {
    match m {
        EditorMode::Normal => "NORMAL"@,
        EditorMode::Insert => "INSERT"@,
        EditorMode::Visual => "VISUAL"@,
        EditorMode::Replace => "REPLACE"@,
    }
}

impl EditorMode {
    /// The name of the mode, as the status bar shows it.
    pub fn name(&self) -> (s: String)
        ensures
            s@ == mode_text(*self),
    {
        match self {
            EditorMode::Normal => copy_str("NORMAL"),
            EditorMode::Insert => copy_str("INSERT"),
            EditorMode::Visual => copy_str("VISUAL"),
            EditorMode::Replace => copy_str("REPLACE"),
        }
    }
}

/// What the bottom line is asking for.
#[derive(Copy, Clone, Eq, PartialEq, Structural, Debug)]
pub enum PromptType {
    Search,
    Command,
    Inactive,
}

impl PromptType {
    pub fn is_none(&self) -> (r: bool)
        ensures
            r == (*self == PromptType::Inactive),
    {
        match self {
            PromptType::Inactive => true,
            _ => false,
        }
    }
}

/// What the text put in the system clipboard was for.
#[derive(Copy, Clone, Eq, PartialEq, Structural, Debug)]
pub enum ClipboardWrite {
    /// Copying the selection (or, without one, the character at the caret).
    Yank { selection: bool },
    /// Cutting the selection: it is deleted once the clipboard holds it.
    Cut,
    /// Copying from the context menu; the outcome is not reported.
    Quiet,
}

/// What the text read from the system clipboard is for.
#[derive(Copy, Clone, Eq, PartialEq, Structural, Debug)]
pub enum ClipboardRead {
    /// Pasting after the caret.
    Paste,
    /// Pasting before the caret.
    PasteBackward,
    /// Pasting from the context menu, falling back to the editor's own
    /// clipboard.
    MenuPaste,
    /// Opening the context menu at this position: whether there is
    /// anything to paste.
    OpenMenu(Position),
}

/// Whether a key was pressed, repeated or released.
#[derive(Copy, Clone, Eq, PartialEq, Structural, Debug)]
pub enum KeyEventKind {
    Press,
    Repeat,
    Release,
}

/// A mouse button.
#[derive(Copy, Clone, Eq, PartialEq, Structural, Debug)]
pub enum MouseButton {
    Left,
    Right,
    Middle,
}

/// What the mouse did.
#[derive(Copy, Clone, Eq, PartialEq, Structural, Debug)]
pub enum MouseEventKind {
    Down(MouseButton),
    Up(MouseButton),
    Drag(MouseButton),
    Moved,
    ScrollDown,
    ScrollUp,
    ScrollLeft,
    ScrollRight,
}

/// What the mouse did, and where.
#[derive(Copy, Clone, Eq, PartialEq, Structural, Debug)]
pub struct MouseEvent {
    pub kind: MouseEventKind,
    pub column: u16,
    pub row: u16,
}

/// An event from the terminal.
#[derive(Copy, Clone, Eq, PartialEq, Structural, Debug)]
pub enum Event {
    Key(KeyEvent, KeyEventKind),
    Mouse(MouseEvent),
    /// The terminal's new width and height.
    Resize(u16, u16),
    /// Anything else (focus changes, pasted text).
    Other,
}

/// How the caret is drawn.
#[derive(Copy, Clone, Eq, PartialEq, Structural, Debug)]
pub enum CursorStyle {
    Bar,
    UnderScore,
    Block,
}

/// Work that only the program around the editor can do.
pub enum EditorAction {
    /// Put `text` in the system clipboard, then call
    /// `system_clipboard_written`.
    WriteSystemClipboard { text: String, purpose: ClipboardWrite },
    /// Read the system clipboard, then call `system_clipboard_read`.
    ReadSystemClipboard { purpose: ClipboardRead },
    /// Write `contents` to `path` for view `view_idx` (under that new name
    /// when `rename`), then call `file_written`.
    WriteFile { view_idx: usize, path: String, contents: String, rename: bool, then_quit: bool },
    /// Read the file `path` to open it, then call `file_read`.
    ReadFile { path: String },
    /// List the directory `dir`, then call `complete_with_entries`.
    ListDirectory { dir: String, prefix: String, original: String, index: Option<usize> },
    /// Tell the language server that view `view_idx` was opened.
    LspDidOpen { view_idx: usize },
    /// Tell the language server that the text of view `view_idx` changed.
    LspDidChange { view_idx: usize },
    /// Ask the language server about the symbol at the caret of view
    /// `view_idx`.
    LspHover { view_idx: usize },
    /// Ask the language server where the symbol at the caret of view
    /// `view_idx` is defined.
    LspDefinition { view_idx: usize },
    /// Ask the language server to format view `view_idx`.
    LspFormat { view_idx: usize },
}

/// An action as a value of specification.
pub enum ActionSpec {
    WriteSystemClipboard { text: Seq<char>, purpose: ClipboardWrite },
    ReadSystemClipboard { purpose: ClipboardRead },
    WriteFile { view_idx: usize, path: Seq<char>, contents: Seq<char>, rename: bool, then_quit: bool },
    ReadFile { path: Seq<char> },
    ListDirectory { dir: Seq<char>, prefix: Seq<char>, original: Seq<char>, index: Option<usize> },
    LspDidOpen { view_idx: usize },
    LspDidChange { view_idx: usize },
    LspHover { view_idx: usize },
    LspDefinition { view_idx: usize },
    LspFormat { view_idx: usize },
}

impl View for EditorAction {
    type V = ActionSpec;

    open spec fn view(&self) -> ActionSpec {
        match self {
            EditorAction::WriteSystemClipboard { text, purpose } => ActionSpec::WriteSystemClipboard {
                text: text@,
                purpose: *purpose,
            },
            EditorAction::ReadSystemClipboard { purpose } => ActionSpec::ReadSystemClipboard { purpose: *purpose },
            EditorAction::WriteFile { view_idx, path, contents, rename, then_quit } => ActionSpec::WriteFile {
                view_idx: *view_idx,
                path: path@,
                contents: contents@,
                rename: *rename,
                then_quit: *then_quit,
            },
            EditorAction::ReadFile { path } => ActionSpec::ReadFile { path: path@ },
            EditorAction::ListDirectory { dir, prefix, original, index } => ActionSpec::ListDirectory {
                dir: dir@,
                prefix: prefix@,
                original: original@,
                index: *index,
            },
            EditorAction::LspDidOpen { view_idx } => ActionSpec::LspDidOpen { view_idx: *view_idx },
            EditorAction::LspDidChange { view_idx } => ActionSpec::LspDidChange { view_idx: *view_idx },
            EditorAction::LspHover { view_idx } => ActionSpec::LspHover { view_idx: *view_idx },
            EditorAction::LspDefinition { view_idx } => ActionSpec::LspDefinition { view_idx: *view_idx },
            EditorAction::LspFormat { view_idx } => ActionSpec::LspFormat { view_idx: *view_idx },
        }
    }
}

pub open spec fn actions_view(v: Seq<EditorAction>) -> Seq<ActionSpec> {
    Seq::new(v.len(), |i: int| v[i]@)
}

/// The state of the editor that its operations change.
#[verifier::ext_equal]
pub struct EditorModel {
    pub views: Seq<TextView>,
    pub cur: usize,
    pub mode: EditorMode,
    pub prompt: PromptType,
    /// The count typed before a command.
    pub count: Option<usize>,
    /// The keys of an unfinished command.
    pub keys: Seq<KeyEvent>,
    /// The editor's own clipboard.
    pub clipboard: Seq<char>,
    pub quit_times: u8,
    pub should_quit: bool,
    /// The message shown, and when it was shown.
    pub message: Option<(Seq<char>, u64)>,
    /// The jump list's entries and current index.
    pub jumps: (Seq<JumpEntry>, nat),
    pub popup: Option<InfoPopup>,
    pub menu: Option<ContextMenu>,
    /// The actions asked for and not taken yet.
    pub actions: Seq<ActionSpec>,
    pub size: Size,
    /// The time, in milliseconds, that messages are stamped with.
    pub now: u64,
    /// Whether leaving insert mode moves the caret left (after `a`).
    pub left_on_escape: bool,
    /// Whether the next file opened at start-up goes into the first view.
    pub first_file: bool,
}

/// The current view.
pub open spec fn cur_view(m: EditorModel) -> TextView {
    m.views[m.cur as int]
}

/// The model with `v` as the current view.
pub open spec fn with_view(m: EditorModel, v: TextView) -> EditorModel {
    EditorModel { views: m.views.update(m.cur as int, v), ..m }
}

/// The model showing message `text`.
pub open spec fn said(m: EditorModel, text: Seq<char>) -> EditorModel {
    EditorModel { message: Some((text, m.now)), ..m }
}

/// The model asking for `a` too.
pub open spec fn asked(m: EditorModel, a: ActionSpec) -> EditorModel {
    EditorModel { actions: m.actions.push(a), ..m }
}

/// The size of a view on a terminal of size `s`: all but the status and
/// message lines.
pub open spec fn view_size(s: Size) -> Size {
    Size { height: if s.height >= 2 { (s.height - 2) as usize } else { 0 }, width: s.width }
}

/// `s`, which fits on a line.
pub open spec fn fits(s: Seq<char>) -> bool {
    line_fits(s)
}

fn fits_line(s: &str) -> (r: bool)
    ensures
        r == line_fits(s@),
{
    chars_of(s).len() <= usize::MAX / 64
}


/// The jump entry for the caret of the current view.
pub open spec fn here(m: EditorModel) -> JumpEntry {
    JumpEntry { view_idx: m.cur, location: cur_view(m).loc() }
}

/// `v1` is `v0` with the caret put at `l` (snapped into the text) and
/// scrolled to, as `TextView::set_text_location` does.
pub open spec fn placed_at(v0: TextView, v1: TextView, l: Location) -> bool {
    let ls = v0.lines();
    let l2 = snap_grapheme(ls, snap_line(ls, l));
    &&& v1.loc() == l2
    &&& v1.scroll() == scrolled_to(ls, v0.scroll(), l2, v0.size_view())
    &&& v1.redraw_flag()
    &&& v1.same_but_caret(&v0)
    &&& v1.wf()
}

/// `v1` is `v0` marked for drawing.
pub open spec fn redrawn(v0: TextView, v1: TextView) -> bool {
    &&& v1.redraw_flag()
    &&& v1.buf() == v0.buf()
    &&& v1.loc() == v0.loc()
    &&& v1.scroll() == v0.scroll()
    &&& v1.same_but_caret(&v0)
    &&& v1.wf() == v0.wf()
}

/// The model after jumping to entry `e` of the jump list, when its view
/// still exists: `m1` from `m` with view `e.view_idx` current and its caret
/// at `e.location`.
pub open spec fn jumped_to(m: EditorModel, m1: EditorModel, e: JumpEntry) -> bool {
    if e.view_idx < m.views.len() {
        &&& m1 == EditorModel { cur: e.view_idx, views: m1.views, ..m }
        &&& m1.views == m.views.update(e.view_idx as int, m1.views[e.view_idx as int])
        &&& placed_at(m.views[e.view_idx as int], m1.views[e.view_idx as int], e.location)
    } else {
        m1 == m
    }
}

/// Going back in the jump list, from the caret (recorded first when it is
/// not the current entry).
pub open spec fn jumped_back(m0: EditorModel, m1: EditorModel) -> bool {
    let (es, i) = recorded(m0.jumps.0, m0.jumps.1, here(m0));
    if i > 0 {
        jumped_to(EditorModel { jumps: (es, (i - 1) as nat), ..m0 }, m1, es[i - 1])
    } else {
        m1 == EditorModel { jumps: (es, i), ..m0 }
    }
}

/// Going forward in the jump list.
pub open spec fn jumped_forward(m0: EditorModel, m1: EditorModel) -> bool {
    let (es, i) = m0.jumps;
    if i + 1 < es.len() {
        jumped_to(EditorModel { jumps: (es, i + 1), ..m0 }, m1, es[i + 1 as int])
    } else {
        m1 == m0
    }
}

/// A view has changes not saved.
pub open spec fn is_modified(v: TextView) -> bool {
    v.buf().undo_view().len() > 0
}

/// The views with changes not saved.
pub open spec fn modified_views(s: Seq<TextView>) -> Seq<TextView> {
    s.filter(|v: TextView| is_modified(v))
}

/// The warning shown when `:q` would drop changes: `dirty` views have some,
/// and `:q` must be typed `left` more times.
pub open spec fn quit_warning(dirty: nat, left: nat) -> Seq<char> {
    "WARNING! "@ + decimal(dirty) + " buffer(s) have unsaved changes. Type :q "@ + decimal(left)
        + " more times to quit."@
}

proof fn lemma_modified_step(vs: Seq<TextView>, i: int)
    requires
        0 <= i < vs.len(),
    ensures
        modified_views(vs.take(i + 1)) == if is_modified(vs[i]) {
            modified_views(vs.take(i)).push(vs[i])
        } else {
            modified_views(vs.take(i))
        },
{
    let s = vs.take(i + 1);
    reveal(Seq::filter);
    assert(s.drop_last() =~= vs.take(i));
    assert(s.last() == vs[i]);
    assert(s.len() > 0);
    assert(s.filter(|v: TextView| is_modified(v)) == if is_modified(s.last()) {
        s.drop_last().filter(|v: TextView| is_modified(v)).push(s.last())
    } else {
        s.drop_last().filter(|v: TextView| is_modified(v))
    });
}

/// The model after a command that ends a series of `:q`.
pub open spec fn quit_reset(m: EditorModel) -> EditorModel {
    if m.quit_times > 0 {
        EditorModel { quit_times: 0, ..said(m, Seq::empty()) }
    } else {
        m
    }
}

/// The model with the caret of the current view recorded in the jump list.
pub open spec fn recorded_jump(m: EditorModel) -> EditorModel {
    EditorModel { jumps: recorded(m.jumps.0, m.jumps.1, here(m)), ..m }
}

/// Whether a language server is told about view `v`: it shows a file of a
/// kind that has one.
pub open spec fn lsp_wanted(v: TextView) -> bool {
    v.buf().info().path_view() is Some && has_server(v.buf().info().file_type_view())
}

/// The model after asking for `a` about view `idx`, if a language server is
/// told about it.
pub open spec fn tell_lsp(m: EditorModel, idx: usize, a: ActionSpec) -> EditorModel {
    if lsp_wanted(m.views[idx as int]) {
        asked(m, a)
    } else {
        m
    }
}

/// Edits that are places to jump back to.
pub open spec fn edit_jumps(e: Edit) -> bool {
    e is Undo || e is Redo || e is InsertNewline || e is Insert
}

/// Moves that are places to jump back to.
pub open spec fn move_jumps(mv: Move) -> bool {
    mv is ViewTop || mv is ViewBottom || mv is ViewCenter || mv is BufferStart || mv is BufferEnd || mv is GoToLine
}

/// `v1` is `v0` after edit `e`, once the selection is dropped.
pub open spec fn edited_view(v0: TextView, v1: TextView, e: Edit) -> bool {
    &&& v1.model() == m_edit(m_clear_selection(v0.model()), e)
    &&& v1.same_setting(&v0)
    &&& v1.wf()
}

/// `v1` is `v0` with the selection dropped when `clear`, else `v0`.
pub open spec fn maybe_cleared(v0: TextView, v1: TextView, clear: bool) -> bool {
    if clear {
        &&& v1.model() == m_clear_selection(v0.model())
        &&& v1.same_setting(&v0)
        &&& v1.buf() == v0.buf()
        &&& v1.wf() == v0.wf()
    } else {
        v1 == v0
    }
}

/// `v1` is `v0` after move `mv` (not a jump).
pub open spec fn moved_view(v0: TextView, v1: TextView, mv: Move) -> bool {
    &&& v1.model() == m_move(v0.model(), mv)
    &&& v1.same_setting(&v0)
    &&& v1.buf() == v0.buf()
    &&& v1.wf()
}

/// A move with no prompt open, from `m` (with the selection of the current
/// view already dropped in normal mode, as `v`).
pub open spec fn move_step(m: EditorModel, m1: EditorModel, mv: Move) -> bool {
    match mv {
        Move::JumpBackward => jumped_back(m, m1),
        Move::JumpForward => jumped_forward(m, m1),
        _ => m1 == with_view(m, cur_view(m1)) && moved_view(cur_view(m), cur_view(m1), mv),
    }
}

/// The model a move starts from: the caret recorded in the jump list for
/// moves that are places to jump back to.
pub open spec fn move_base(m: EditorModel, mv: Move) -> EditorModel {
    if move_jumps(mv) {
        recorded_jump(m)
    } else {
        m
    }
}

/// Dropping the selection and the message.
pub open spec fn dismiss_step(m: EditorModel, m1: EditorModel) -> bool {
    &&& m1 == said(with_view(m, cur_view(m1)), Seq::empty())
    &&& maybe_cleared(cur_view(m), cur_view(m1), true)
}

/// An edit of the current view, with no prompt open.
pub open spec fn edit_step(m: EditorModel, m1: EditorModel, e: Edit) -> bool {
    let m2 = if m.mode == EditorMode::Normal && edit_jumps(e) {
        recorded_jump(m)
    } else {
        m
    };
    &&& m1 == tell_lsp(with_view(m2, cur_view(m1)), m.cur, ActionSpec::LspDidChange { view_idx: m.cur })
    &&& edited_view(cur_view(m), cur_view(m1), e)
}

/// A move, with no prompt open: in normal mode the selection is dropped
/// first.
pub open spec fn move_cmd_step(m: EditorModel, m1: EditorModel, mv: Move) -> bool {
    exists|v: TextView|
        #![trigger with_view(move_base(m, mv), v)]
        maybe_cleared(cur_view(m), v, m.mode == EditorMode::Normal) && move_step(with_view(move_base(m, mv), v), m1, mv)
}

/// A command with no prompt open.
pub open spec fn no_prompt_step(m0: EditorModel, m1: EditorModel, c: Command) -> bool {
    let m = quit_reset(m0);
    match c {
        Command::System(sys) => match sys {
            System::Dismiss => dismiss_step(m, m1),
            _ => m1 == m,
        },
        Command::Edit(e) => edit_step(m, m1, e),
        Command::Move(mv) => move_cmd_step(m, m1, mv),
    }
}

/// `v1` is `v0` with its search dropped: the caret and scroll go back to
/// where the search started.
pub open spec fn search_dismissed(v0: TextView, v1: TextView) -> bool {
    &&& v1.search_view() is None
    &&& v1.last_query() == v0.last_query()
    &&& v1.model() == match v0.search_view() {
        Some((l, p, _)) => m_redraw(m_scroll_into(ViewModel { loc: l, scroll: p, ..v0.model() })),
        None => m_redraw(v0.model()),
    }
    &&& v1.buf() == v0.buf()
    &&& v1.syntax_on() == v0.syntax_on()
    &&& v1.has_highlighter() == v0.has_highlighter()
    &&& v1.diagnostics_view() == v0.diagnostics_view()
    &&& v1.wf()
}

/// `v1` is `v0` with its search ended, its query kept as the last one.
pub open spec fn search_exited(v0: TextView, v1: TextView) -> bool {
    &&& v1.search_view() is None
    &&& v1.last_query() == match v0.search_view() {
        Some((_, _, Some(q))) => Some(q),
        _ => v0.last_query(),
    }
    &&& v1.model() == m_redraw(v0.model())
    &&& v1.buf() == v0.buf()
    &&& v1.syntax_on() == v0.syntax_on()
    &&& v1.has_highlighter() == v0.has_highlighter()
    &&& v1.diagnostics_view() == v0.diagnostics_view()
    &&& v1.wf()
}

/// `v1` is `v0` searching for `q` from where the search started.
pub open spec fn searched_for(v0: TextView, v1: TextView, q: Seq<char>) -> bool {
    let s = match v0.search_view() {
        Some((l, p, _)) => Some((l, p, Some(q))),
        None => None,
    };
    &&& v1.search_view() == s
    &&& v1.model() == m_search(v0.model(), active_query(s, v0.last_query()), v0.loc(), true)
    &&& v1.last_query() == v0.last_query()
    &&& v1.buf() == v0.buf()
    &&& v1.syntax_on() == v0.syntax_on()
    &&& v1.has_highlighter() == v0.has_highlighter()
    &&& v1.diagnostics_view() == v0.diagnostics_view()
    &&& v1.wf()
}

/// `v1` is `v0` gone to the next (`forward`) or previous match.
pub open spec fn search_stepped(v0: TextView, v1: TextView, forward: bool) -> bool {
    let q = active_query(v0.search_view(), v0.last_query());
    let from = if forward {
        let step: usize = match q {
            Some(t) => if grapheme_clusters(t).len() >= 1 { 1 } else { 0 },
            None => 1,
        };
        let g = sat_add(v0.loc().grapheme_idx, step);
        Location { line_idx: v0.loc().line_idx, grapheme_idx: g, preferred_grapheme_idx: g }
    } else {
        v0.loc()
    };
    &&& v1.model() == m_search(v0.model(), q, from, forward)
    &&& v1.same_setting(&v0)
    &&& v1.buf() == v0.buf()
    &&& v1.wf()
}

/// The model with the prompt closed and the current view `v`.
pub open spec fn closed_with(m: EditorModel, v: TextView) -> EditorModel {
    EditorModel { prompt: PromptType::Inactive, ..with_view(m, v) }
}

/// A command while the search prompt is open; `b0` and `b1` are the command
/// bar before and after.
pub open spec fn search_step(m0: EditorModel, m1: EditorModel, b0: CommandBar, b1: CommandBar, c: Command) -> bool {
    let v0 = cur_view(m0);
    let v1 = cur_view(m1);
    match c {
        Command::System(sys) => match sys {
            System::Dismiss => m1 == closed_with(m0, v1) && search_dismissed(v0, v1) && b1.value_view().len() == 0,
            _ => m1 == m0 && b1 == b0,
        },
        Command::Edit(e) => match e {
            Edit::InsertNewline => m1 == closed_with(m0, v1) && search_exited(v0, v1) && b1.value_view().len() == 0,
            _ => if b0.value_view().len() < usize::MAX / 64 {
                &&& b1.value_view() == CommandBar::edited_value(b0.value_view(), b0.caret(), e)
                &&& b1.caret() == CommandBar::edited_caret(b0.caret(), e)
                &&& b1.same_setup(&b0)
                &&& b1.wf()
                &&& if line_fits(b1.value_view()) {
                    m1 == with_view(m0, v1) && searched_for(v0, v1, b1.value_view())
                } else {
                    m1 == m0
                }
            } else {
                m1 == m0 && b1 == b0
            },
        },
        Command::Move(mv) => match mv {
            Move::Right(_) | Move::Down(_) => m1 == with_view(recorded_jump(m0), v1) && search_stepped(v0, v1, true)
                && b1 == b0,
            Move::Up(_) | Move::Left(_) => m1 == with_view(recorded_jump(m0), v1) && search_stepped(v0, v1, false)
                && b1 == b0,
            _ => m1 == m0 && b1 == b0,
        },
    }
}

/// Where the current view is saved: under `name` if given, else under its
/// own path.
pub open spec fn saved_path(v: TextView, name: Option<Seq<char>>) -> Option<Seq<char>> {
    match name {
        Some(p) => Some(p),
        None => v.buf().info().path_view(),
    }
}

/// The model with the editor quitting, when asked to and the current view
/// has no changes left.
pub open spec fn quit_if_saved(m: EditorModel, then_quit: bool) -> EditorModel {
    if then_quit && !is_modified(cur_view(m)) {
        EditorModel { should_quit: true, ..m }
    } else {
        m
    }
}

/// Asking to save the current view (under `name`, if given); without a
/// path to write to, saving fails at once.
pub open spec fn save_request(m: EditorModel, name: Option<Seq<char>>, then_quit: bool) -> EditorModel {
    let v = cur_view(m);
    match saved_path(v, name) {
        Some(p) => asked(
            m,
            ActionSpec::WriteFile {
                view_idx: m.cur,
                path: p,
                contents: terminate_lines(v.lines()),
                rename: name is Some,
                then_quit,
            },
        ),
        None => quit_if_saved(said(m, "Error writing file!"@), then_quit),
    }
}

/// `v1` is `v0` saved (under the new name `name`, if given): its changes are
/// no longer marked.
pub open spec fn saved_view(v0: TextView, v1: TextView, name: Option<Seq<char>>) -> bool {
    &&& v1.model() == (ViewModel { undo: Seq::empty(), redo: Seq::empty(), redraw: true, ..v0.model() })
    &&& v1.search_view() == v0.search_view()
    &&& v1.last_query() == v0.last_query()
    &&& v1.syntax_on() == v0.syntax_on()
    &&& v1.diagnostics_view() == v0.diagnostics_view()
    &&& v1.wf()
    &&& match name {
        Some(p) => v1.buf().info().describes_path(p) && v1.has_highlighter() == has_syntax(
            v1.buf().info().file_type_view(),
        ),
        None => v1.same_setting(&v0),
    }
}

/// `v` is a view of `contents`, read from file `path`, on a terminal of size
/// `size`.
pub open spec fn opened_view(v: TextView, contents: Seq<char>, path: Seq<char>, size: Size) -> bool {
    &&& v.wf()
    &&& v.lines() == text_lines(contents)
    &&& v.buf().undo_view().len() == 0
    &&& v.buf().redo_view().len() == 0
    &&& v.buf().info().describes_path(path)
    &&& v.has_highlighter() == has_syntax(v.buf().info().file_type_view())
    &&& v.loc() == (Location { line_idx: 0, grapheme_idx: 0, preferred_grapheme_idx: 0 })
    &&& v.selection() is None
    &&& v.search_view() is None
    &&& v.last_query() is None
    &&& !v.syntax_on()
    &&& v.size_view() == view_size(size)
    &&& v.redraw_flag()
}

/// The model with view `v` added and made current, and the language server
/// told about it.
pub open spec fn added_view(m: EditorModel, v: TextView) -> EditorModel {
    let m1 = EditorModel { views: m.views.push(v), cur: m.views.len() as usize, ..m };
    tell_lsp(m1, m1.cur, ActionSpec::LspDidOpen { view_idx: m1.cur })
}

/// Switching to view `idx`, which is marked for drawing.
pub open spec fn switched_to(m: EditorModel, m1: EditorModel, idx: int) -> bool {
    &&& m1 == quit_reset(EditorModel { cur: idx as usize, views: m1.views, ..m })
    &&& m1.views == m.views.update(idx, m1.views[idx])
    &&& redrawn(m.views[idx], m1.views[idx])
}

/// The help text.
pub open spec fn help_text_spec() -> Seq<char> {
    HELP_TEXT@
}

/// `v` shows the help on a terminal of size `size`.
pub open spec fn help_view(v: TextView, size: Size) -> bool {
    &&& v.wf()
    &&& v.lines() == text_lines(help_text_spec())
    &&& v.buf().info().path_view() is None
    &&& v.buf().info().display_name_view() == Some("HELP"@)
    &&& v.size_view() == view_size(size)
    &&& v.loc() == (Location { line_idx: 0, grapheme_idx: 0, preferred_grapheme_idx: 0 })
    &&& v.selection() is None
}

/// The command line `line`, typed after `:`.
pub open spec fn vim_step(m0: EditorModel, m1: EditorModel, line: Seq<char>) -> bool {
    let name = command_word(line);
    let arg = command_arg(line);
    let v0 = cur_view(m0);
    let n = m0.views.len();
    match command_kind(name) {
        CommandKind::Quit => quit_step(m0, m1),
        CommandKind::ForceQuit => m1 == EditorModel { should_quit: true, ..m0 },
        CommandKind::Write => match arg {
            Some(p) => m1 == save_request(m0, Some(p), false),
            None => if v0.buf().info().path_view() is Some {
                m1 == save_request(m0, None, false)
            } else {
                m1 == said(m0, "ERR: Can't save without filename!"@)
            },
        },
        CommandKind::Syntax => m1 == with_view(m0, cur_view(m1)) && syntax_toggled(v0, cur_view(m1)),
        CommandKind::Format => {
            let m = recorded_jump(m0);
            m1 == tell_lsp(m, m.cur, ActionSpec::LspFormat { view_idx: m.cur })
        },
        CommandKind::WriteQuit => m1 == save_request(m0, arg, true),
        CommandKind::Prev => switched_to(recorded_jump(m0), m1, (m0.cur + n - 1) % (n as int)),
        CommandKind::Next => switched_to(recorded_jump(m0), m1, (m0.cur + 1) % (n as int)),
        CommandKind::Open => match arg {
            Some(p) => m1 == asked(recorded_jump(m0), ActionSpec::ReadFile { path: p }),
            None => m1 == said(m0, "ERR: No file name provided"@),
        },
        CommandKind::Help => {
            let m = recorded_jump(m0);
            if help_text_spec().len() + 1 <= usize::MAX / 64 {
                &&& m1.views.len() == n + 1
                &&& help_view(m1.views[n as int], m.size)
                &&& m1 == quit_reset(
                    said(EditorModel { views: m.views.push(m1.views[n as int]), cur: n as usize, ..m }, "Opened help"@),
                )
            } else {
                m1 == m
            }
        },
        CommandKind::Unknown => m1 == said(m0, "ERR: Unknown command: "@ + name),
    }
}

/// `v1` is `v0` with syntax highlighting turned on or off.
pub open spec fn syntax_toggled(v0: TextView, v1: TextView) -> bool {
    &&& v1.syntax_on() == !v0.syntax_on()
    &&& v1.redraw_flag()
    &&& v1.buf() == v0.buf()
    &&& v1.loc() == v0.loc()
    &&& v1.scroll() == v0.scroll()
    &&& v1.selection() == v0.selection()
    &&& v1.size_view() == v0.size_view()
    &&& v1.search_view() == v0.search_view()
    &&& v1.last_query() == v0.last_query()
    &&& v1.has_highlighter() == v0.has_highlighter()
    &&& v1.diagnostics_view() == v0.diagnostics_view()
    &&& v1.wf() == v0.wf()
}

/// `:q`, as `handle_quit_command` does it.
pub open spec fn quit_step(m0: EditorModel, m1: EditorModel) -> bool {
    let kept = modified_views(m0.views);
    if m0.quit_times + 1 == QUIT_TIMES {
        m1 == EditorModel { should_quit: true, ..m0 }
    } else if kept.len() == 0 {
        m1 == EditorModel { should_quit: true, jumps: (seq![first_entry()], 0nat), ..m0 }
    } else {
        let cur: usize = if m0.cur < kept.len() { m0.cur } else { (kept.len() - 1) as usize };
        &&& m1 == EditorModel {
            views: m1.views,
            cur,
            jumps: (seq![first_entry()], 0nat),
            message: Some((quit_warning(kept.len(), (QUIT_TIMES - m0.quit_times - 1) as nat), m0.now)),
            quit_times: (m0.quit_times + 1) as u8,
            ..m0
        }
        &&& m1.views == kept.update(cur as int, m1.views[cur as int])
        &&& redrawn(kept[cur as int], m1.views[cur as int])
    }
}

/// The command bar after a tab press with candidates `matches`: nothing
/// happens without candidates; else the input becomes what
/// `completion_step` says (when it fits on a line), and the candidates are
/// kept for the next press.
pub open spec fn completed(
    b0: CommandBar,
    b1: CommandBar,
    matches: Seq<Seq<char>>,
    index: Option<usize>,
    original: Option<Seq<char>>,
) -> bool {
    if matches.len() == 0 {
        b1 == b0
    } else {
        let (v, i) = completion_step(b0.value_view(), matches, index, original);
        &&& b1.value_view() == match v {
            Some(t) => if line_fits(t) {
                t
            } else {
                b0.value_view()
            },
            None => b0.value_view(),
        }
        &&& b1.completion_view() == (matches, i, original)
        &&& b1.same_setup(&b0)
        &&& b1.wf()
    }
}

/// A tab press in the command prompt. The first press completes a command
/// name, or asks for the directory to complete a file name from; later
/// presses go on with the candidates found.
pub open spec fn complete_cmd_step(m0: EditorModel, m1: EditorModel, b0: CommandBar, b1: CommandBar) -> bool {
    let (ms, idx, orig) = b0.completion_view();
    let value = b0.value_view();
    let ws = words(value);
    if orig is Some {
        m1 == m0 && completed(b0, b1, ms, idx, orig)
    } else if ws.len() == 0 {
        m1 == m0 && b1 == b0
    } else if ws.len() == 1 && !ends_with_space(value) {
        m1 == m0 && completed(b0, b1, with_prefix(command_names(), ws[0]), idx, Some(ws[0]))
    } else if ws.len() <= 2 && takes_path(ws[0]) {
        let p = if ws.len() == 2 {
            ws[1]
        } else {
            Seq::<char>::empty()
        };
        let (dir, prefix) = split_path(p);
        m1 == asked(m0, ActionSpec::ListDirectory { dir, prefix, original: value, index: idx }) && b1 == b0
    } else {
        m1 == m0 && b1 == b0
    }
}

/// The history after running command line `c`: it is added unless empty
/// or the same as the last one.
pub open spec fn history_with(h: Seq<Seq<char>>, c: Seq<char>) -> Seq<Seq<char>> {
    if c.len() > 0 && (h.len() == 0 || h.last() != c) {
        h.push(c)
    } else {
        h
    }
}

/// A command while the command prompt is open.
pub open spec fn command_step(m0: EditorModel, m1: EditorModel, b0: CommandBar, b1: CommandBar, c: Command) -> bool {
    match c {
        Command::System(sys) => match sys {
            System::Dismiss => m1 == EditorModel { prompt: PromptType::Inactive, ..m0 } && b1.value_view().len()
                == 0 && b1.history_view() == b0.history_view(),
            _ => m1 == m0 && b1 == b0,
        },
        Command::Edit(e) => match e {
            Edit::InsertNewline => {
                let line = b0.value_view();
                &&& exists|mm: EditorModel|
                    #![trigger vim_step(m0, mm, line)]
                    vim_step(m0, mm, line) && m1 == if mm.should_quit {
                        mm
                    } else {
                        EditorModel { prompt: PromptType::Inactive, ..mm }
                    }
                &&& b1.history_view() == if line_fits(line) {
                    history_with(b0.history_view(), line)
                } else {
                    b0.history_view()
                }
                &&& !m1.should_quit ==> b1.value_view().len() == 0
            },
            Edit::Complete => complete_cmd_step(m0, m1, b0, b1),
            _ => m1 == m0 && if b0.value_view().len() < usize::MAX / 64 {
                &&& b1.value_view() == CommandBar::edited_value(b0.value_view(), b0.caret(), e)
                &&& b1.caret() == CommandBar::edited_caret(b0.caret(), e)
                &&& b1.same_setup(&b0)
                &&& b1.wf()
            } else {
                b1 == b0
            },
        },
        Command::Move(mv) => m1 == m0 && match mv {
            Move::Up(_) => CommandBar::history_up_post(&b0, &b1) && b1.wf(),
            Move::Down(_) => CommandBar::history_down_post(&b0, &b1) && b1.wf(),
            Move::Left(_) => b1.caret() == sat_dec(b0.caret()) && b1.value_view() == b0.value_view()
                && b1.same_setup(&b0) && b1.wf(),
            Move::Right(_) => b1.caret() == ({
                let c = sat_inc(b0.caret());
                let n = grapheme_clusters(b0.value_view()).len();
                if c <= n {
                    c as nat
                } else {
                    n
                }
            }) && b1.value_view() == b0.value_view() && b1.same_setup(&b0) && b1.wf(),
            _ => b1 == b0,
        },
    }
}

/// Opening prompt `p` (or closing the prompt): the input is emptied, a
/// search starts at the caret, and opening a prompt clears the message.
pub open spec fn prompt_opened(m0: EditorModel, m1: EditorModel, b0: CommandBar, b1: CommandBar, p: PromptType) -> bool {
    let mm = if p != PromptType::Inactive {
        said(m0, Seq::empty())
    } else {
        m0
    };
    &&& m1 == EditorModel { prompt: p, views: m1.views, ..mm }
    &&& if p == PromptType::Search {
        let v0 = cur_view(m0);
        let v1 = cur_view(m1);
        &&& m1.views == m0.views.update(m0.cur as int, v1)
        &&& v1.search_view() == Some((v0.loc(), v0.scroll(), None::<Seq<char>>))
        &&& v1.model() == m_redraw(v0.model())
        &&& v1.buf() == v0.buf()
        &&& v1.last_query() == v0.last_query()
        &&& v1.wf()
    } else {
        m1.views == m0.views
    }
    &&& b1.prompt_view() == prompt_text(p, b0.prompt_view())
    &&& b1.value_view().len() == 0
    &&& b1.caret() == 0
    &&& b1.size_view() == b0.size_view()
    &&& b1.history_view() == b0.history_view()
    &&& b1.completion_view().2 is None
    &&& b1.wf()
}

/// The text selected in `v`, if any.
pub open spec fn selected_text(v: TextView) -> Option<Seq<char>> {
    match v.selection() {
        Some(s) => Some(range_text(v.lines(), s, v.loc())),
        None => None,
    }
}

/// The character at the caret of `v`.
pub open spec fn char_at_caret(v: TextView) -> Seq<char> {
    current_char(v.lines(), v.loc())
}

/// `v1` is `v0` with model `vm`, the same settings, well formed.
pub open spec fn changed_to(v0: TextView, v1: TextView, vm: ViewModel) -> bool {
    &&& v1.model() == vm
    &&& v1.same_setting(&v0)
    &&& v1.wf()
}

/// The model after entering insert mode; leaving it moves the caret left
/// when `left`.
pub open spec fn inserting(m: EditorModel, left: bool) -> EditorModel {
    EditorModel { mode: EditorMode::Insert, left_on_escape: left, ..m }
}

/// What a complete key sequence typed in normal or visual mode does.
pub open spec fn normal_step(m0: EditorModel, m1: EditorModel, b0: CommandBar, b1: CommandBar, a: NormalAction) -> bool {
    let v0 = cur_view(m0);
    let v1 = cur_view(m1);
    match a {
        NormalAction::CommandPrompt => prompt_opened(m0, m1, b0, b1, PromptType::Command),
        NormalAction::SearchPrompt => prompt_opened(m0, m1, b0, b1, PromptType::Search),
        _ => b1 == b0 && match a {
            NormalAction::Move(mv) => no_prompt_step(m0, m1, Command::Move(mv)),
            NormalAction::Edit(e) => no_prompt_step(m0, m1, Command::Edit(e)),
            NormalAction::EnterInsert => m1 == inserting(m0, false),
            NormalAction::EnterReplace => m1 == EditorModel { mode: EditorMode::Replace, ..m0 },
            NormalAction::Append => exists|ma: EditorModel|
                #![trigger no_prompt_step(m0, ma, Command::Move(Move::Right(1)))]
                no_prompt_step(m0, ma, Command::Move(Move::Right(1))) && m1 == inserting(ma, true),
            NormalAction::OpenBelow => exists|ma: EditorModel, mb: EditorModel|
                #![trigger no_prompt_step(m0, ma, Command::Move(Move::AfterEndOfLine)), no_prompt_step(ma, mb, Command::Edit(Edit::InsertNewline))]
                no_prompt_step(m0, ma, Command::Move(Move::AfterEndOfLine)) && no_prompt_step(
                    ma,
                    mb,
                    Command::Edit(Edit::InsertNewline),
                ) && m1 == inserting(mb, false),
            NormalAction::OpenAbove => exists|ma: EditorModel, mb: EditorModel, mc: EditorModel|
                #![trigger no_prompt_step(m0, ma, Command::Move(Move::StartOfLine)), no_prompt_step(ma, mb, Command::Edit(Edit::InsertNewline)), no_prompt_step(mb, mc, Command::Move(Move::Up(1)))]
                no_prompt_step(m0, ma, Command::Move(Move::StartOfLine)) && no_prompt_step(
                    ma,
                    mb,
                    Command::Edit(Edit::InsertNewline),
                ) && no_prompt_step(mb, mc, Command::Move(Move::Up(1))) && m1 == inserting(mc, false),
            NormalAction::Yank => match selected_text(v0) {
                Some(t) => m1 == said(EditorModel { clipboard: t, ..m0 }, "Text copied to clipboard."@),
                None => m1 == said(
                    EditorModel { clipboard: char_at_caret(v0), ..m0 },
                    "Character copied to clipboard."@,
                ),
            },
            NormalAction::ToggleVisual => if m0.mode == EditorMode::Visual {
                &&& m1 == EditorModel { mode: EditorMode::Normal, ..with_view(m0, v1) }
                &&& maybe_cleared(v0, v1, true)
            } else {
                &&& m1 == EditorModel { mode: EditorMode::Visual, ..with_view(m0, v1) }
                &&& if v0.selection() is None {
                    changed_to(v0, v1, ViewModel { selection: Some(v0.loc()), redraw: true, ..v0.model() })
                } else {
                    v1 == v0
                }
            },
            NormalAction::SelectLineDown => m1 == with_view(m0, v1) && changed_to(
                v0,
                v1,
                m_select_line_down(v0.model()),
            ),
            NormalAction::SelectLineUp => m1 == with_view(m0, v1) && changed_to(v0, v1, m_select_line_up(v0.model())),
            NormalAction::SelectAll => m1 == with_view(m0, v1) && changed_to(v0, v1, m_select_all(v0.model())),
            NormalAction::DeleteSelection => match selected_text(v0) {
                Some(t) => m1 == EditorModel { clipboard: t, mode: EditorMode::Normal, ..with_view(m0, v1) }
                    && changed_to(v0, v1, m_delete_selection(v0.model())),
                None => no_prompt_step(m0, m1, Command::Edit(Edit::Delete)),
            },
            NormalAction::Paste => m1 == EditorModel { mode: EditorMode::Normal, ..with_view(m0, v1) } && changed_to(
                v0,
                v1,
                m_paste(v0.model(), m0.clipboard),
            ),
            NormalAction::PasteBackward => m1 == EditorModel { mode: EditorMode::Normal, ..with_view(m0, v1) }
                && changed_to(v0, v1, m_paste_backward(v0.model(), m0.clipboard)),
            NormalAction::JoinLines => if v0.loc().line_idx < usize::MAX {
                m1 == with_view(m0, v1) && changed_to(v0, v1, m_concat_lines(v0.model()))
            } else {
                m1 == m0
            },
            NormalAction::Escape => {
                &&& m1 == said(
                    EditorModel {
                        mode: if m0.mode == EditorMode::Visual {
                            EditorMode::Normal
                        } else {
                            m0.mode
                        },
                        ..with_view(m0, v1)
                    },
                    Seq::empty(),
                )
                &&& maybe_cleared(v0, v1, true)
            },
            NormalAction::GotoDefinition => {
                let m = recorded_jump(m0);
                m1 == tell_lsp(m, m.cur, ActionSpec::LspDefinition { view_idx: m.cur })
            },
            NormalAction::SystemYank => {
                let t = match selected_text(v0) {
                    Some(t) => t,
                    None => char_at_caret(v0),
                };
                m1 == asked(
                    m0,
                    ActionSpec::WriteSystemClipboard {
                        text: t,
                        purpose: ClipboardWrite::Yank { selection: v0.selection() is Some },
                    },
                )
            },
            NormalAction::SystemPaste => m1 == asked(
                EditorModel { mode: EditorMode::Normal, ..m0 },
                ActionSpec::ReadSystemClipboard { purpose: ClipboardRead::Paste },
            ),
            NormalAction::SystemPasteBackward => m1 == asked(
                EditorModel { mode: EditorMode::Normal, ..m0 },
                ActionSpec::ReadSystemClipboard { purpose: ClipboardRead::PasteBackward },
            ),
            NormalAction::SystemDelete => match selected_text(v0) {
                Some(t) => m1 == asked(m0, ActionSpec::WriteSystemClipboard { text: t, purpose: ClipboardWrite::Cut }),
                None => no_prompt_step(m0, m1, Command::Edit(Edit::Delete)),
            },
            NormalAction::Hover => m1 == tell_lsp(m0, m0.cur, ActionSpec::LspHover { view_idx: m0.cur }),
            _ => m1 == m0,
        },
    }
}

/// The model a key sequence starts from: a sequence of two keys clears
/// the message.
pub open spec fn key_base(m0: EditorModel) -> EditorModel {
    if m0.keys.len() == 2 {
        said(m0, Seq::empty())
    } else {
        m0
    }
}

/// What the keys typed so far in normal or visual mode do: `key_outcome`
/// says whether the sequence is complete and what it means; a sequence of
/// two keys clears the message first.
pub open spec fn key_sequence_step(m0: EditorModel, m1: EditorModel, b0: CommandBar, b1: CommandBar) -> bool {
    let m = key_base(m0);
    match key_outcome(m0.keys, m0.count) {
        KeyOutcome::Wait => m1 == m && b1 == b0,
        KeyOutcome::SetCount(c) => m1 == EditorModel { count: Some(c), keys: Seq::empty(), ..m } && b1 == b0,
        KeyOutcome::Cancel => m1 == EditorModel { keys: Seq::empty(), ..m } && b1 == b0,
        KeyOutcome::Run(a) => exists|mm: EditorModel|
            #![trigger normal_step(key_base(m0), mm, b0, b1, a)]
            normal_step(key_base(m0), mm, b0, b1, a) && m1 == EditorModel { count: None, keys: Seq::empty(), ..mm },
    }
}

/// The views and model after the terminal is resized to `size`.
pub open spec fn resized(m0: EditorModel, m1: EditorModel, size: Size) -> bool {
    &&& m1 == EditorModel { views: m1.views, size, ..m0 }
    &&& m1.views.len() == m0.views.len()
    &&& forall|i: int|
        #![trigger m0.views[i]]
        #![trigger m1.views[i]]
        0 <= i < m0.views.len() ==> {
            let v0 = m0.views[i];
            let v1 = m1.views[i];
            &&& v1.size_view() == view_size(size)
            &&& v1.loc() == v0.loc()
            &&& v1.buf() == v0.buf()
            &&& v1.selection() == v0.selection()
            &&& v1.scroll() == scrolled_to(v0.lines(), v0.scroll(), v0.loc(), view_size(size))
            &&& v1.same_setting(&v0)
        }
}

/// What a command does: a resize resizes; any other command goes to the
/// open prompt, or to the current view when none is open.
pub open spec fn command_effect(m0: EditorModel, m1: EditorModel, b0: CommandBar, b1: CommandBar, c: Command) -> bool {
    match c {
        Command::System(System::Resize(size)) => resized(m0, m1, size) && b1.size_view() == (Size {
            height: 1,
            width: size.width,
        }),
        _ => match m0.prompt {
            PromptType::Search => search_step(m0, m1, b0, b1, c),
            PromptType::Command => command_step(m0, m1, b0, b1, c),
            PromptType::Inactive => no_prompt_step(m0, m1, c) && b1 == b0,
        },
    }
}

/// What a key does when it stands for a command.
pub open spec fn key_command(m0: EditorModel, m1: EditorModel, b0: CommandBar, b1: CommandBar, k: KeyEvent) -> bool {
    match command_of(k) {
        Some(c) => command_effect(m0, m1, b0, b1, c),
        None => m1 == m0 && b1 == b0,
    }
}

/// What a key press does (after the info popup is closed).
pub open spec fn key_press_step(m0: EditorModel, m1: EditorModel, b0: CommandBar, b1: CommandBar, k: KeyEvent) -> bool {
    let m = EditorModel { popup: None, ..m0 };
    let v0 = cur_view(m);
    let v1 = cur_view(m1);
    if m.prompt != PromptType::Inactive {
        key_command(m, m1, b0, b1, k)
    } else {
        match m.mode {
            EditorMode::Insert => if k.code == KeyCode::Esc {
                let mm = EditorModel { mode: EditorMode::Normal, ..m };
                b1 == b0 && if m.left_on_escape {
                    exists|ma: EditorModel|
                        #![trigger no_prompt_step(mm, ma, Command::Move(Move::Left(1)))]
                        no_prompt_step(mm, ma, Command::Move(Move::Left(1))) && m1 == EditorModel {
                            left_on_escape: false,
                            ..ma
                        }
                } else {
                    m1 == mm
                }
            } else {
                key_command(m, m1, b0, b1, k)
            },
            EditorMode::Replace => if k.code == KeyCode::Esc {
                m1 == EditorModel { mode: EditorMode::Normal, ..m } && b1 == b0
            } else {
                match k.code {
                    KeyCode::Char(c) => m1 == with_view(m, v1) && changed_to(v0, v1, m_replace_mode(v0.model(), c))
                        && b1 == b0,
                    _ => key_command(m, m1, b0, b1, k),
                }
            },
            _ => key_sequence_step(EditorModel { keys: m.keys.push(k), ..m }, m1, b0, b1),
        }
    }
}

/// The caret's location after a click at screen position `p` in view `v`.
pub open spec fn position_target(v: TextView, p: Position) -> Location {
    let ls = v.lines();
    let col = sat_add(sat_sub(p.col, gutter_of(ls.len())), v.scroll().col);
    let row = sat_add(p.row, v.scroll().row);
    let l0 = snap_line(ls, Location { line_idx: row, ..v.loc() });
    let g = if l0.line_idx < ls.len() {
        crate::line::grapheme_at_column_from(grapheme_clusters(ls[l0.line_idx as int]), col as nat, 0) as usize
    } else {
        0
    };
    snap_grapheme(ls, at_grapheme(l0, g))
}

/// `v1` is `v0` with the caret put at screen position `p` and scrolled to.
pub open spec fn clicked_at(v0: TextView, v1: TextView, p: Position) -> bool {
    let ls = v0.lines();
    let l = position_target(v0, p);
    &&& v1.loc() == l
    &&& v1.scroll() == scrolled_to(ls, v0.scroll(), l, v0.size_view())
    &&& v1.redraw_flag() == (v0.redraw_flag() || v0.loc().line_idx != l.line_idx || (v0.selection() is Some
        && v0.loc().grapheme_idx != l.grapheme_idx) || scroll_moves(ls, v0.scroll(), l, v0.size_view()))
    &&& v1.same_but_caret(&v0)
    &&& v1.wf()
}

/// `menu` is the context menu opened at `p` on a screen of size `screen`
/// over view `v`.
pub open spec fn menu_for(menu: ContextMenu, p: Position, screen: Size, v: TextView, can_paste: bool) -> bool {
    &&& menu.actions() == menu_actions(
        v.buf().undo_view().len() > 0,
        v.buf().redo_view().len() > 0,
        v.selection() is Some,
        can_paste,
    )
    &&& menu.size_view() == (Size {
        width: (max_label_len(menu.actions()) + 2) as usize,
        height: menu.actions().len() as usize,
    })
    &&& menu.entries().len() == menu.actions().len()
    &&& forall|i: int|
        0 <= i < menu.actions().len() ==> #[trigger] menu.entries()[i] == menu_entry(
            menu.actions()[i],
            max_label_len(menu.actions()),
        )
    &&& menu.position_view() == fit_on_screen(p, menu.size_view(), screen)
    &&& menu.hovered() is None
    &&& menu.redraw_flag()
}

/// What choosing `a` in the context menu at `pos` does.
pub open spec fn menu_action_step(
    m0: EditorModel,
    m1: EditorModel,
    b0: CommandBar,
    b1: CommandBar,
    a: ContextMenuAction,
    pos: Position,
) -> bool {
    let v0 = cur_view(m0);
    let v1 = cur_view(m1);
    match a {
        ContextMenuAction::Undo => command_effect(m0, m1, b0, b1, Command::Edit(Edit::Undo)),
        ContextMenuAction::Redo => command_effect(m0, m1, b0, b1, Command::Edit(Edit::Redo)),
        _ => b1 == b0 && match a {
            ContextMenuAction::Copy => {
                let t = match selected_text(v0) {
                    Some(t) => t,
                    None => char_at_caret(v0),
                };
                m1 == said(
                    asked(
                        EditorModel { clipboard: t, ..m0 },
                        ActionSpec::WriteSystemClipboard { text: t, purpose: ClipboardWrite::Quiet },
                    ),
                    if v0.selection() is Some {
                        "Text copied to clipboard."@
                    } else {
                        "Character copied to clipboard."@
                    },
                )
            },
            ContextMenuAction::Delete => match selected_text(v0) {
                Some(t) => m1 == said(
                    EditorModel { clipboard: t, mode: EditorMode::Normal, ..with_view(m0, v1) },
                    "Selection deleted."@,
                ) && changed_to(v0, v1, m_delete_selection(v0.model())),
                None => m1 == m0,
            },
            ContextMenuAction::Paste => m1 == asked(
                with_view(m0, v1),
                ActionSpec::ReadSystemClipboard { purpose: ClipboardRead::MenuPaste },
            ) && clicked_at(v0, v1, pos),
            _ => m1 == EditorModel { mode: EditorMode::Visual, ..with_view(m0, v1) } && changed_to(
                v0,
                v1,
                m_select_all(v0.model()),
            ),
        },
    }
}

/// The model with the context menu closed and the current view marked for
/// drawing.
pub open spec fn menu_closed(m: EditorModel, m1: EditorModel) -> bool {
    &&& m1 == EditorModel { menu: None, ..with_view(m, cur_view(m1)) }
    &&& redrawn(cur_view(m), cur_view(m1))
}

/// Whether a screen row lies in the text area.
pub open spec fn in_text_area(m: EditorModel, row: usize) -> bool {
    row < sat_sub(m.size.height, 2)
}

/// What a mouse event at `p` does when no menu takes it.
pub open spec fn plain_mouse_step(m0: EditorModel, m1: EditorModel, kind: MouseEventKind, p: Position) -> bool {
    let v0 = cur_view(m0);
    let v1 = cur_view(m1);
    match kind {
        MouseEventKind::Down(MouseButton::Left) => if in_text_area(m0, p.row) {
            exists|v: TextView|
                #![trigger clicked_at(v0, v, p)]
                clicked_at(v0, v, p) && maybe_cleared(v, v1, true) && m1 == EditorModel {
                    mode: EditorMode::Normal,
                    ..with_view(m0, v1)
                }
        } else {
            m1 == m0
        },
        MouseEventKind::Down(MouseButton::Right) => match m0.menu {
            None => if m0.clipboard.len() > 0 {
                &&& m1 == EditorModel { menu: m1.menu, ..m0 }
                &&& m1.menu matches Some(menu) && menu_for(menu, p, m0.size, v0, true)
            } else {
                m1 == asked(m0, ActionSpec::ReadSystemClipboard { purpose: ClipboardRead::OpenMenu(p) })
            },
            Some(_) => menu_closed(m0, m1),
        },
        MouseEventKind::Drag(MouseButton::Left) => if in_text_area(m0, p.row) {
            exists|v: TextView|
                #![trigger clicked_at(v, v1, p)]
                (if m0.mode != EditorMode::Visual {
                    changed_to(v0, v, ViewModel { selection: Some(v0.loc()), redraw: true, ..v0.model() })
                } else {
                    v == v0
                }) && clicked_at(v, v1, p) && m1 == EditorModel { mode: EditorMode::Visual, ..with_view(m0, v1) }
        } else {
            m1 == m0
        },
        MouseEventKind::ScrollUp => m1 == with_view(m0, v1) && moved_view(v0, v1, Move::Up(1)),
        MouseEventKind::ScrollDown => m1 == with_view(m0, v1) && moved_view(v0, v1, Move::Down(1)),
        _ => m1 == m0,
    }
}

/// `menu1` is `menu0` with the mouse at `p`.
pub open spec fn menu_hovered(menu0: ContextMenu, menu1: ContextMenu, p: Position) -> bool {
    &&& menu1.hovered() == menu0.action_at_spec(p)
    &&& menu1.actions() == menu0.actions()
    &&& menu1.entries() == menu0.entries()
    &&& menu1.position_view() == menu0.position_view()
    &&& menu1.size_view() == menu0.size_view()
}

/// What a mouse event does: with a context menu open, a left click chooses
/// from it (or misses it) and closes it, and moving the mouse hovers over
/// it; otherwise see `plain_mouse_step`.
pub open spec fn mouse_step(m0: EditorModel, m1: EditorModel, b0: CommandBar, b1: CommandBar, e: MouseEvent) -> bool {
    let p = Position { col: e.column as usize, row: e.row as usize };
    match m0.menu {
        Some(menu) => match e.kind {
            MouseEventKind::Down(MouseButton::Left) => match menu.action_at_spec(p) {
                Some(a) => exists|mm: EditorModel|
                    #![trigger menu_action_step(m0, mm, b0, b1, a, menu.position_view())]
                    menu_action_step(m0, mm, b0, b1, a, menu.position_view()) && menu_closed(mm, m1),
                None => menu_closed(m0, m1) && b1 == b0,
            },
            MouseEventKind::Moved => {
                &&& b1 == b0
                &&& m1 == EditorModel { menu: m1.menu, ..m0 }
                &&& m1.menu matches Some(menu1) && menu_hovered(menu, menu1, p)
            },
            _ => plain_mouse_step(m0, m1, e.kind, p) && b1 == b0,
        },
        None => plain_mouse_step(m0, m1, e.kind, p) && b1 == b0,
    }
}

/// What an event does: key presses, mouse events and resizes count; the
/// rest is ignored.
pub open spec fn event_step(m0: EditorModel, m1: EditorModel, b0: CommandBar, b1: CommandBar, e: Event) -> bool {
    match e {
        Event::Key(k, kind) => if kind == KeyEventKind::Press {
            key_press_step(m0, m1, b0, b1, k)
        } else {
            m1 == m0 && b1 == b0
        },
        Event::Mouse(me) => mouse_step(m0, m1, b0, b1, me),
        Event::Resize(w, h) => command_effect(
            m0,
            m1,
            b0,
            b1,
            Command::System(System::Resize(Size { height: h as usize, width: w as usize })),
        ),
        Event::Other => m1 == m0 && b1 == b0,
    }
}

/// What writing the system clipboard, as asked for `purpose`, leads to
/// (`error`: why it failed, if it did).
pub open spec fn clipboard_written_step(
    m0: EditorModel,
    m1: EditorModel,
    purpose: ClipboardWrite,
    error: Option<Seq<char>>,
) -> bool {
    let v0 = cur_view(m0);
    let v1 = cur_view(m1);
    match error {
        Some(e) => if purpose is Quiet {
            m1 == m0
        } else {
            m1 == said(m0, "ERR: Clipboard error: "@ + e)
        },
        None => match purpose {
            ClipboardWrite::Yank { selection } => m1 == said(
                m0,
                if selection {
                    "Text copied to system clipboard."@
                } else {
                    "Character copied to system clipboard."@
                },
            ),
            ClipboardWrite::Cut => m1 == EditorModel { mode: EditorMode::Normal, ..with_view(m0, v1) } && changed_to(
                v0,
                v1,
                m_delete_selection(v0.model()),
            ),
            ClipboardWrite::Quiet => m1 == m0,
        },
    }
}

/// What the text read from the system clipboard for `purpose` (`None` when
/// it could not be read) leads to.
pub open spec fn clipboard_read_step(m0: EditorModel, m1: EditorModel, purpose: ClipboardRead, text: Option<Seq<char>>) -> bool {
    let v0 = cur_view(m0);
    let v1 = cur_view(m1);
    match purpose {
        ClipboardRead::Paste => match text {
            Some(t) => m1 == with_view(m0, v1) && changed_to(v0, v1, m_paste(v0.model(), t)),
            None => m1 == m0,
        },
        ClipboardRead::PasteBackward => match text {
            Some(t) => m1 == with_view(m0, v1) && changed_to(v0, v1, m_paste_backward(v0.model(), t)),
            None => m1 == m0,
        },
        ClipboardRead::MenuPaste => {
            let t = match text {
                Some(t) => t,
                None => m0.clipboard,
            };
            m1 == with_view(m0, v1) && changed_to(v0, v1, m_paste(v0.model(), t))
        },
        ClipboardRead::OpenMenu(p) => {
            &&& m1 == EditorModel { menu: m1.menu, ..m0 }
            &&& m1.menu matches Some(menu) && menu_for(
                menu,
                p,
                m0.size,
                v0,
                text matches Some(t) && t.len() > 0,
            )
        },
    }
}

/// Where view `v` draws its caret on the screen.
pub open spec fn view_caret(v: TextView) -> Position {
    let q = crate::view::position_of(v.lines(), v.loc());
    Position {
        col: sat_add(sat_sub(q.col, v.scroll().col), gutter_of(v.lines().len())),
        row: sat_sub(q.row, v.scroll().row),
    }
}

/// `pp` is the popup showing `text` next to `pos` on a terminal of size
/// `size`.
pub open spec fn popup_for(pp: InfoPopup, pos: Position, size: Size, text: Seq<char>) -> bool {
    let ls = wrapped_lines(text_lines(text), wrap_width(size));
    let w = max_width(ls);
    &&& pp.size_view() == (Size { height: ls.len() as usize, width: w })
    &&& pp.lines_view().len() == ls.len()
    &&& forall|i: int| 0 <= i < ls.len() ==> #[trigger] pp.lines_view()[i] == pad_right(ls[i], w as nat)
    &&& pp.position_view() == popup_position(pos, pp.size_view(), size)
    &&& pp.redraw_flag()
}

/// `v1` is `v0` with the caret where a language server position points.
pub open spec fn lsp_placed(v0: TextView, v1: TextView, pos: LspPosition) -> bool {
    let ls = v0.lines();
    let l = lsp_target(ls, v0.loc(), pos);
    &&& v1.loc() == l
    &&& v1.scroll() == scrolled_to(ls, v0.scroll(), l, v0.size_view())
    &&& v1.redraw_flag()
    &&& v1.same_but_caret(&v0)
    &&& v1.wf()
}

/// Going to a definition at `pos`: in view `found` if it shows the file
/// already, else in a new view of `contents`, read from `path`; nothing
/// happens when neither is there.
pub open spec fn definition_step(
    m0: EditorModel,
    m1: EditorModel,
    found: Option<usize>,
    path: Seq<char>,
    contents: Option<Seq<char>>,
    pos: LspPosition,
) -> bool {
    let n = m0.views.len();
    if found matches Some(i) && i < n {
        let i = found->0;
        &&& m1 == EditorModel { cur: i, views: m0.views.update(i as int, m1.views[i as int]), ..m0 }
        &&& lsp_placed(m0.views[i as int], m1.views[i as int], pos)
    } else if contents matches Some(c) && c.len() + 1 <= usize::MAX / 64 {
        let c = contents->0;
        exists|v: TextView|
            #![trigger added_view(m0, v)]
            opened_view(v, c, path, m0.size) && m1 == with_view(added_view(m0, v), cur_view(m1)) && lsp_placed(
                v,
                cur_view(m1),
                pos,
            )
    } else {
        m1 == m0
    }
}

/// `v1` is `v0` showing `contents`, read from `path`.
pub open spec fn loaded_into(v0: TextView, v1: TextView, contents: Seq<char>, path: Seq<char>) -> bool {
    &&& v1.wf()
    &&& v1.lines() == text_lines(contents)
    &&& v1.buf().undo_view().len() == 0
    &&& v1.buf().redo_view().len() == 0
    &&& v1.buf().info().describes_path(path)
    &&& v1.has_highlighter() == has_syntax(v1.buf().info().file_type_view())
    &&& v1.redraw_flag()
    &&& v1.loc() == v0.loc()
    &&& v1.selection() == v0.selection()
    &&& v1.scroll() == v0.scroll()
    &&& v1.size_view() == v0.size_view()
    &&& v1.search_view() == v0.search_view()
    &&& v1.last_query() == v0.last_query()
    &&& v1.syntax_on() == v0.syntax_on()
}

/// Opening a file named on the command line, `contents` as read (`None`
/// when it could not be): the first that opens goes into the first view,
/// later ones into new views behind it.
pub open spec fn initial_file_step(m0: EditorModel, m1: EditorModel, name: Seq<char>, contents: Option<Seq<char>>) -> bool {
    if contents matches Some(c) && c.len() + 1 <= usize::MAX / 64 {
        let c = contents->0;
        let n = m0.views.len();
        if m0.first_file {
            &&& loaded_into(m0.views[0], m1.views[0], c, name)
            &&& m1 == tell_lsp(
                EditorModel { views: m0.views.update(0, m1.views[0]), first_file: false, ..m0 },
                0,
                ActionSpec::LspDidOpen { view_idx: 0 },
            )
        } else {
            &&& m1.views.len() == n + 1
            &&& opened_view(m1.views[n as int], c, name, m0.size)
            &&& m1 == tell_lsp(
                EditorModel { views: m0.views.push(m1.views[n as int]), ..m0 },
                n as usize,
                ActionSpec::LspDidOpen { view_idx: n as usize },
            )
        }
    } else {
        m1 == said(m0, "ERR: Could not open file: "@ + name)
    }
}

/// How the keys of an unfinished command show in the status line.
pub open spec fn keys_text(ks: Seq<KeyEvent>) -> Seq<char>
    decreases ks.len(),
{
    if ks.len() == 0 {
        Seq::empty()
    } else {
        keys_text(ks.drop_last()) + key_text(ks.last())
    }
}

/// The count and keys of an unfinished command, as the status line shows
/// them.
pub open spec fn pending_text(count: Option<usize>, ks: Seq<KeyEvent>) -> Seq<char> {
    let c = match count {
        Some(c) => decimal(c as nat),
        None => Seq::empty(),
    };
    c + keys_text(ks)
}

/// Whether the message bar must be drawn at `now`: when marked, or when its
/// message expired and it was not drawn blank since.
pub open spec fn message_due(mb: MessageBar, now: u64) -> bool {
    mb.redraw_flag() || (mb.message() matches Some((_, t)) && !mb.cleared() && crate::messagebar::expired(t, now))
}

/// The column of the command bar's caret on the screen: after the prompt's
/// bytes and the input's columns up to the caret, at most the bar's width.
pub open spec fn bar_caret_col(b: CommandBar) -> usize {
    let c = crate::text::utf8_len(b.prompt_view()) + crate::line::text_columns_until(b.value_view(), b.caret() as nat);
    let c = if c <= usize::MAX {
        c
    } else {
        usize::MAX as nat
    };
    (if c <= b.size_view().width {
        c
    } else {
        b.size_view().width as nat
    }) as usize
}

/// How the caret is drawn in a mode.
pub open spec fn cursor_style_of(mode: EditorMode) -> CursorStyle {
    match mode {
        EditorMode::Insert => CursorStyle::Bar,
        EditorMode::Replace => CursorStyle::UnderScore,
        _ => CursorStyle::Block,
    }
}

/// What the command bar shows in front of the input for each prompt.
pub open spec fn prompt_text(p: PromptType, before: Seq<char>) -> Seq<char> {
    match p {
        PromptType::Command => ":"@,
        PromptType::Search => "Search (Esc to cancel, Arrows to navigate): "@,
        PromptType::Inactive => before,
    }
}

/// The help text.
pub const HELP_TEXT: &'static str = "\
HELP - ALL COMMANDS

[Movement]
  h, j, k, l : Left, Down, Up, Right
  C-u, C-d   : Half page Up/Down
  C-o, C-i   : Jump backward/forward in history
  gg / XXXg  : Buffer Start / Go to line XXX
  ge         : Buffer End
  gh / gl    : Line Start / End
  gs         : First non-whitespace
  gt/gb/gc   : View Top/Bottom/Center

[Editing]
  i          : Insert mode
  a          : Append (Right + Insert)
  o, O       : Open line below/above + Insert
  rX         : Replace character under cursor with X
  R          : Enter Replace mode
  u, U       : Undo, Redo
  p          : Paste from internal clipboard
  P          : Paste before from internal clipboard
  SPC p/P    : Paste from system clipboard
  d          : Delete selection or current character
  SPC d      : Delete selection to system clipboard
  J          : Join current line with the next one

[Selection & Visual]
  v          : Toggle Visual mode
  x          : Select whole line down
  X          : Select whole line up
  y          : Copy (yank) selection
  SPC y      : Copy (yank) selection to system clipboard
  %          : Select all

[Search & Commands]
  /          : Search
  :          : Command mode
  :w [path]  : Save
  :q, :q!    : Quit, Force quit
  :wq, :x    : Save and quit
  :syntax    : Toggle syntax highlighting
  :next, :n  : Next buffer
  :prev, :p  : Previous buffer
  :o [path]  : Open file
  :help      : Show this help

[LSP]
  gd         : Go to Definition
  SPC k      : Hover (show documentation)
  :format    : Format current buffer
";

/// The editor.
pub struct Editor {
    should_quit: bool,
    views: Vec<TextView>,
    current_view_idx: usize,
    jumps: JumpList,
    info_popup: Option<InfoPopup>,
    message_bar: MessageBar,
    command_bar: CommandBar,
    prompt_type: PromptType,
    mode: EditorMode,
    terminal_size: Size,
    quit_times: u8,
    move_left_on_escape: bool,
    clipboard: String,
    command_buffer: Vec<KeyEvent>,
    count: Option<usize>,
    context_menu: Option<ContextMenu>,
    now: u64,
    actions: Vec<EditorAction>,
    first_file: bool,
}

impl Editor {
    pub closed spec fn model(&self) -> EditorModel {
        EditorModel {
            views: self.views@,
            cur: self.current_view_idx,
            mode: self.mode,
            prompt: self.prompt_type,
            count: self.count,
            keys: self.command_buffer@,
            clipboard: self.clipboard@,
            quit_times: self.quit_times,
            should_quit: self.should_quit,
            message: self.message_bar.message(),
            jumps: (self.jumps.entries_view(), self.jumps.index_view()),
            popup: self.info_popup,
            menu: self.context_menu,
            actions: actions_view(self.actions@),
            size: self.terminal_size,
            now: self.now,
            left_on_escape: self.move_left_on_escape,
            first_file: self.first_file,
        }
    }

    /// The command bar.
    pub closed spec fn bar(&self) -> CommandBar {
        self.command_bar
    }

    /// The message bar.
    pub closed spec fn message_bar_view(&self) -> MessageBar {
        self.message_bar
    }

    /// There is a current view, every view is well formed, the jump list
    /// points at an entry, the command bar is well formed, and `:q` was not
    /// typed too often.
    pub closed spec fn wf(&self) -> bool {
        &&& self.views@.len() > 0
        &&& self.current_view_idx < self.views@.len()
        &&& forall|i: int| 0 <= i < self.views@.len() ==> (#[trigger] self.views@[i]).wf()
        &&& self.jumps.wf()
        &&& self.command_bar.wf()
        &&& self.quit_times < QUIT_TIMES
    }

    /// A well-formed editor has at least one view, the current one among
    /// them, each view well formed, and fewer quit presses than quit takes.
    pub proof fn lemma_wf_model(&self)
        requires
            self.wf(),
        ensures
            self.model().views.len() > 0,
            self.model().cur < self.model().views.len(),
            forall|i: int| 0 <= i < self.model().views.len() ==> (#[trigger] self.model().views[i]).wf(),
            self.model().quit_times < QUIT_TIMES,
    {
    }

    /// An editor for a terminal of size `size`, with one empty view.
    pub fn new(size: Size) -> (r: Self)
        ensures
            r.wf(),
            r.model().views.len() == 1,
            r.model().cur == 0,
            r.model().views[0].lines() == seq![Seq::<char>::empty()],
            r.model().views[0].size_view() == view_size(size),
            r.model().mode == EditorMode::Normal,
            r.model().prompt == PromptType::Inactive,
            r.model().count is None,
            r.model().keys.len() == 0,
            r.model().clipboard.len() == 0,
            r.model().quit_times == 0,
            !r.model().should_quit,
            r.model().message is None,
            r.model().jumps == (seq![crate::jumplist::first_entry()], 0nat),
            r.model().popup is None,
            r.model().menu is None,
            r.model().actions.len() == 0,
            r.model().size == size,
            r.model().now == 0,
            !r.model().left_on_escape,
            r.model().first_file,
    {
        let mut views: Vec<TextView> = Vec::new();
        views.push(TextView::new());
        let mut editor = Editor {
            should_quit: false,
            views,
            current_view_idx: 0,
            jumps: JumpList::new(),
            info_popup: None,
            message_bar: MessageBar::new(),
            command_bar: CommandBar::new(),
            prompt_type: PromptType::Inactive,
            mode: EditorMode::Normal,
            terminal_size: size,
            quit_times: 0,
            move_left_on_escape: false,
            clipboard: String::new(),
            command_buffer: Vec::new(),
            count: None,
            context_menu: None,
            now: 0,
            actions: Vec::new(),
            first_file: true,
        };
        editor.handle_resize_command(size);
        assert(actions_view(editor.actions@) =~= Seq::<ActionSpec>::empty());
        editor
    }

    /// The terminal has size `size`: the views get all of it but the two
    /// bottom lines, the bars its width.
    pub fn handle_resize_command(&mut self, size: Size)
        requires
            old(self).wf(),
        ensures
            final(self).wf(),
            resized(old(self).model(), final(self).model(), size),
            final(self).bar().size_view() == (Size { height: 1, width: size.width }),
            final(self).message_bar_view().size_view() == (Size { height: 1, width: size.width }),
    {
        self.terminal_size = size;
        let vs = Size { height: size.height.saturating_sub(2), width: size.width };
        let ghost old_views = self.views@;
        let mut views: Vec<TextView> = Vec::new();
        std::mem::swap(&mut views, &mut self.views);
        let mut i: usize = 0;
        while i < views.len()
            invariant
                views@.len() == old_views.len(),
                i <= views@.len(),
                vs == view_size(size),
                forall|j: int| 0 <= j < views@.len() ==> (#[trigger] views@[j]).wf(),
                forall|j: int| i <= j < views@.len() ==> views@[j] == old_views[j],
                forall|j: int|
                    0 <= j < i ==> {
                        let v0 = #[trigger] old_views[j];
                        let v1 = views@[j];
                        &&& v1.size_view() == vs
                        &&& v1.loc() == v0.loc()
                        &&& v1.buf() == v0.buf()
                        &&& v1.selection() == v0.selection()
                        &&& v1.scroll() == crate::view::scrolled_to(v0.lines(), v0.scroll(), v0.loc(), vs)
                        &&& v1.same_setting(&v0)
                    },
            decreases views@.len() - i,
        {
            views[i].set_size(vs);
            i = i + 1;
        }
        std::mem::swap(&mut views, &mut self.views);
        let bar_size = Size { height: 1, width: size.width };
        self.message_bar.set_size(bar_size);
        self.command_bar.set_size(bar_size);
    }

    /// Sets the time, in milliseconds, that messages are stamped with.
    pub fn set_time(&mut self, now: u64)
        ensures
            final(self).model() == (EditorModel { now, ..old(self).model() }),
            final(self).bar() == old(self).bar(),
            final(self).wf() == old(self).wf(),
    {
        self.now = now;
    }

    /// Shows `text` in the message bar.
    pub fn update_message(&mut self, text: &str)
        ensures
            final(self).model() == said(old(self).model(), text@),
            final(self).bar() == old(self).bar(),
            final(self).wf() == old(self).wf(),
    {
        self.message_bar.update_message(text, self.now);
    }

    /// Whether the bottom line is asking for something.
    pub fn in_prompt(&self) -> (r: bool)
        ensures
            r == (self.model().prompt != PromptType::Inactive),
    {
        !self.prompt_type.is_none()
    }

    fn ask(&mut self, a: EditorAction)
        ensures
            final(self).model() == asked(old(self).model(), a@),
            final(self).bar() == old(self).bar(),
            final(self).wf() == old(self).wf(),
    {
        let ghost a0 = self.actions@;
        self.actions.push(a);
        assert(actions_view(self.actions@) =~= actions_view(a0).push(a@));
    }

    fn clear_message(&mut self)
        ensures
            final(self).model() == said(old(self).model(), Seq::empty()),
            final(self).bar() == old(self).bar(),
            final(self).wf() == old(self).wf(),
    {
        self.update_message("");
        proof {
            reveal_strlit("");
        }
        assert(""@ =~= Seq::<char>::empty());
    }

    /// Records the caret of the current view in the jump list.
    fn record_jump(&mut self)
        requires
            old(self).wf(),
        ensures
            final(self).wf(),
            final(self).model() == (EditorModel {
                jumps: recorded(old(self).model().jumps.0, old(self).model().jumps.1, here(old(self).model())),
                ..old(self).model()
            }),
            final(self).bar() == old(self).bar(),
    {
        let entry = JumpEntry {
            view_idx: self.current_view_idx,
            location: self.views[self.current_view_idx].text_location(),
        };
        self.jumps.record(entry);
    }

    fn jump_to(&mut self, e: JumpEntry)
        requires
            old(self).wf(),
        ensures
            final(self).wf(),
            jumped_to(old(self).model(), final(self).model(), e),
            final(self).bar() == old(self).bar(),
    {
        if e.view_idx < self.views.len() {
            self.current_view_idx = e.view_idx;
            self.views[e.view_idx].set_text_location(e.location);
        }
    }

    /// Goes back in the jump list.
    pub fn move_to_jump_backward(&mut self)
        requires
            old(self).wf(),
        ensures
            final(self).wf(),
            jumped_back(old(self).model(), final(self).model()),
            final(self).bar() == old(self).bar(),
    {
        let entry = JumpEntry {
            view_idx: self.current_view_idx,
            location: self.views[self.current_view_idx].text_location(),
        };
        if let Some(e) = self.jumps.back(entry) {
            self.jump_to(e);
        }
    }

    /// Goes forward in the jump list.
    pub fn move_to_jump_forward(&mut self)
        requires
            old(self).wf(),
        ensures
            final(self).wf(),
            jumped_forward(old(self).model(), final(self).model()),
            final(self).bar() == old(self).bar(),
    {
        if let Some(e) = self.jumps.forward() {
            self.jump_to(e);
        }
    }

    /// Ends a series of `:q`: the count starts again, and its warning goes.
    fn reset_quit_times(&mut self)
        ensures
            final(self).model() == (if old(self).model().quit_times > 0 {
                EditorModel { quit_times: 0, ..said(old(self).model(), Seq::empty()) }
            } else {
                old(self).model()
            }),
            final(self).bar() == old(self).bar(),
            old(self).wf() ==> final(self).wf(),
    {
        if self.quit_times > 0 {
            self.quit_times = 0;
            self.clear_message();
        }
    }

    fn count_modified(&self) -> (n: usize)
        requires
            self.wf(),
        ensures
            n == modified_views(self.model().views).len(),
    {
        let ghost vs = self.views@;
        let mut n: usize = 0;
        let mut i: usize = 0;
        while i < self.views.len()
            invariant
                vs == self.views@,
                i <= vs.len(),
                n == modified_views(vs.take(i as int)).len(),
                n <= i,
            decreases vs.len() - i,
        {
            proof {
                lemma_modified_step(vs, i as int);
            }
            if self.views[i].can_undo() {
                n = n + 1;
            }
            i = i + 1;
        }
        assert(vs.take(i as int) =~= vs);
        n
    }

    /// `:q`. The third in a row quits; before, the views without changes
    /// are closed and a warning tells how many are left with changes. When
    /// no view has changes, the editor quits (keeping its views).
    pub fn handle_quit_command(&mut self)
        requires
            old(self).wf(),
        ensures
            final(self).wf(),
            final(self).bar() == old(self).bar(),
            quit_step(old(self).model(), final(self).model()),
    {
        if self.quit_times + 1 == QUIT_TIMES {
            self.should_quit = true;
            return;
        }
        let dirty = self.count_modified();
        self.jumps.reset();
        if dirty == 0 {
            self.should_quit = true;
            return;
        }
        let ghost m0 = self.model();
        let ghost vs = self.views@;
        let mut rest: Vec<TextView> = Vec::new();
        std::mem::swap(&mut rest, &mut self.views);
        let mut kept: Vec<TextView> = Vec::new();
        let n = rest.len();
        let mut i: usize = 0;
        while rest.len() > 0
            invariant
                i + rest@.len() == vs.len(),
                n == vs.len(),
                rest@ == vs.skip(i as int),
                kept@ == modified_views(vs.take(i as int)),
                forall|j: int| 0 <= j < vs.len() ==> (#[trigger] vs[j]).wf(),
                forall|j: int| 0 <= j < kept@.len() ==> (#[trigger] kept@[j]).wf(),
            decreases rest@.len(),
        {
            let v = rest.remove(0);
            proof {
                assert(v == vs[i as int]);
                assert(rest@ =~= vs.skip(i + 1));
                lemma_modified_step(vs, i as int);
            }
            if v.can_undo() {
                kept.push(v);
            }
            i = i + 1;
        }
        assert(vs.take(i as int) =~= vs);
        self.views = kept;
        if self.current_view_idx >= self.views.len() {
            self.current_view_idx = self.views.len() - 1;
        }
        let left = QUIT_TIMES - self.quit_times - 1;
        let mut text = copy_str("WARNING! ");
        text.append(usize_to_string(dirty).as_str());
        text.append(" buffer(s) have unsaved changes. Type :q ");
        text.append(usize_to_string(left as usize).as_str());
        text.append(" more times to quit.");
        self.update_message(text.as_str());
        self.quit_times = self.quit_times + 1;
        self.views[self.current_view_idx].set_needs_redraw(true);
    }

    /// Opens the prompt `prompt_type`, or closes the prompt: the input is
    /// emptied, a search starts at the caret, and opening a prompt clears
    /// the message.
    pub fn set_prompt(&mut self, prompt_type: PromptType)
        requires
            old(self).wf(),
        ensures
            final(self).wf(),
            prompt_opened(old(self).model(), final(self).model(), old(self).bar(), final(self).bar(), prompt_type),
    {
        if !prompt_type.is_none() {
            self.clear_message();
        }
        match prompt_type {
            PromptType::Inactive => self.message_bar.set_needs_redraw(true),
            PromptType::Command => {
                let p = ":";
                proof {
                    reveal_strlit(":");
                }
                self.command_bar.set_prompt(p);
            },
            PromptType::Search => {
                self.views[self.current_view_idx].enter_search();
                let p = "Search (Esc to cancel, Arrows to navigate): ";
                proof {
                    reveal_strlit("Search (Esc to cancel, Arrows to navigate): ");
                }
                self.command_bar.set_prompt(p);
            },
        }
        self.command_bar.clear_value();
        self.prompt_type = prompt_type;
    }

    /// Tells the language server, if there is one for view `idx`, that its
    /// text changed.
    fn notify_lsp_did_change(&mut self, idx: usize)
        requires
            idx < old(self).model().views.len(),
        ensures
            final(self).model() == tell_lsp(old(self).model(), idx, ActionSpec::LspDidChange { view_idx: idx }),
            final(self).bar() == old(self).bar(),
            final(self).wf() == old(self).wf(),
    {
        if self.views[idx].get_path().is_some() && has_language_server(self.views[idx].file_type()) {
            self.ask(EditorAction::LspDidChange { view_idx: idx });
        }
    }

    fn dismiss(&mut self)
        requires
            old(self).wf(),
        ensures
            final(self).wf(),
            dismiss_step(old(self).model(), final(self).model()),
            final(self).bar() == old(self).bar(),
    {
        let ghost m = self.model();
        let cur = self.current_view_idx;
        self.views[cur].clear_selection();
        assert(self.model() == with_view(m, self.views@[cur as int]));
        self.clear_message();
    }

    fn edit_current(&mut self, edit_command: Edit)
        requires
            old(self).wf(),
        ensures
            final(self).wf(),
            edit_step(old(self).model(), final(self).model(), edit_command),
            final(self).bar() == old(self).bar(),
    {
        let cur = self.current_view_idx;
        let jumps = match edit_command {
            Edit::Undo | Edit::Redo | Edit::InsertNewline | Edit::Insert(_) => true,
            _ => false,
        };
        let ghost m = self.model();
        if self.mode == EditorMode::Normal && jumps {
            self.record_jump();
        }
        let ghost m2 = self.model();
        assert(m2 == if m.mode == EditorMode::Normal && edit_jumps(edit_command) {
            recorded_jump(m)
        } else {
            m
        });
        self.views[cur].clear_selection();
        self.views[cur].handle_edit_command(edit_command);
        let ghost v1 = self.views@[cur as int];
        assert(self.model() == with_view(m2, v1));
        assert(edited_view(cur_view(m), v1, edit_command));
        self.notify_lsp_did_change(cur);
    }

    fn move_current(&mut self, move_command: Move)
        requires
            old(self).wf(),
        ensures
            final(self).wf(),
            move_cmd_step(old(self).model(), final(self).model(), move_command),
            final(self).bar() == old(self).bar(),
    {
        let ghost m = self.model();
        let cur = self.current_view_idx;
        let jumps = match move_command {
            Move::ViewTop | Move::ViewBottom | Move::ViewCenter | Move::BufferStart | Move::BufferEnd
            | Move::GoToLine(_) => true,
            _ => false,
        };
        if jumps {
            self.record_jump();
        }
        let ghost m2 = self.model();
        assert(m2 == move_base(m, move_command));
        if self.mode == EditorMode::Normal {
            self.views[cur].clear_selection();
        }
        let ghost v = self.views@[cur as int];
        assert(self.model() == with_view(m2, v));
        match move_command {
            Move::JumpBackward => self.move_to_jump_backward(),
            Move::JumpForward => self.move_to_jump_forward(),
            _ => {
                self.views[cur].handle_move_command(move_command);
                proof {
                    v.lemma_model();
                    self.views@[cur as int].lemma_model();
                }
            },
        }
        assert(maybe_cleared(cur_view(m), v, m.mode == EditorMode::Normal));
        assert(move_step(with_view(move_base(m, move_command), v), self.model(), move_command));
    }

    /// A command with no prompt open.
    fn process_command_no_prompt(&mut self, command: Command)
        requires
            old(self).wf(),
        ensures
            final(self).wf(),
            no_prompt_step(old(self).model(), final(self).model(), command),
            final(self).bar() == old(self).bar(),
    {
        self.reset_quit_times();
        match command {
            Command::System(System::Dismiss) => self.dismiss(),
            Command::System(_) => {},
            Command::Edit(edit_command) => self.edit_current(edit_command),
            Command::Move(move_command) => self.move_current(move_command),
        }
    }

    /// Closes the prompt; the bar keeps its prompt, its input is emptied.
    fn close_prompt(&mut self)
        requires
            old(self).wf(),
        ensures
            final(self).wf(),
            final(self).model() == (EditorModel { prompt: PromptType::Inactive, ..old(self).model() }),
            final(self).bar().value_view().len() == 0,
            final(self).bar().prompt_view() == old(self).bar().prompt_view(),
            final(self).bar().size_view() == old(self).bar().size_view(),
            final(self).bar().history_view() == old(self).bar().history_view(),
    {
        self.set_prompt(PromptType::Inactive);
    }

    /// A command while the search prompt is open.
    fn process_command_during_search(&mut self, command: Command)
        requires
            old(self).wf(),
        ensures
            final(self).wf(),
            search_step(old(self).model(), final(self).model(), old(self).bar(), final(self).bar(), command),
    {
        let cur = self.current_view_idx;
        match command {
            Command::System(System::Dismiss) => {
                self.close_prompt();
                self.views[cur].dismiss_search();
            },
            Command::Edit(Edit::InsertNewline) => {
                self.close_prompt();
                self.views[cur].exit_search();
            },
            Command::Edit(edit_command) => {
                let value = self.command_bar.value();
                if chars_of(value.as_str()).len() < usize::MAX / 64 {
                    self.command_bar.handle_edit_command(edit_command);
                    let query = self.command_bar.value();
                    if fits_line(query.as_str()) {
                        self.views[cur].search(query.as_str());
                    }
                }
            },
            Command::Move(Move::Right(_)) | Command::Move(Move::Down(_)) => {
                self.record_jump();
                self.views[cur].search_next();
            },
            Command::Move(Move::Up(_)) | Command::Move(Move::Left(_)) => {
                self.record_jump();
                self.views[cur].search_prev();
            },
            _ => {},
        }
    }


    /// Asks to save the current view, under `file_name` if given; the
    /// editor quits after saving when `then_quit` and nothing is left to
    /// save.
    fn save(&mut self, file_name: Option<&str>, then_quit: bool)
        requires
            old(self).wf(),
        ensures
            final(self).wf(),
            final(self).model() == save_request(
                old(self).model(),
                match file_name {
                    Some(n) => Some(n@),
                    None => None,
                },
                then_quit,
            ),
            final(self).bar() == old(self).bar(),
    {
        let cur = self.current_view_idx;
        let path: Option<String> = match file_name {
            Some(n) => Some(copy_str(n)),
            None => match self.views[cur].get_path() {
                Some(p) => Some(copy_str(p)),
                None => None,
            },
        };
        match path {
            Some(p) => {
                let contents = self.views[cur].file_contents();
                self.ask(
                    EditorAction::WriteFile {
                        view_idx: cur,
                        path: p,
                        contents,
                        rename: file_name.is_some(),
                        then_quit,
                    },
                );
            },
            None => {
                self.update_message("Error writing file!");
                if then_quit && !self.views[cur].can_undo() {
                    self.should_quit = true;
                }
            },
        }
    }

    /// The outcome of writing view `view_idx` to `path` (under that new
    /// name when `rename`), as a `WriteFile` action asked for.
    pub fn file_written(&mut self, view_idx: usize, path: &str, rename: bool, then_quit: bool, ok: bool)
        requires
            old(self).wf(),
        ensures
            final(self).wf(),
            final(self).bar() == old(self).bar(),
            ({
                let m0 = old(self).model();
                let m1 = final(self).model();
                if view_idx < m0.views.len() {
                    if ok {
                        &&& saved_view(
                            m0.views[view_idx as int],
                            m1.views[view_idx as int],
                            if rename {
                                Some(path@)
                            } else {
                                None
                            },
                        )
                        &&& m1 == quit_if_saved(
                            said(
                                EditorModel {
                                    views: m0.views.update(view_idx as int, m1.views[view_idx as int]),
                                    ..m0
                                },
                                "File saved successfully."@,
                            ),
                            then_quit,
                        )
                    } else {
                        m1 == quit_if_saved(said(m0, "Error writing file!"@), then_quit)
                    }
                } else {
                    m1 == m0
                }
            }),
    {
        if view_idx >= self.views.len() {
            return;
        }
        if ok {
            if rename {
                self.views[view_idx].save_as(path);
            } else {
                self.views[view_idx].save();
            }
            self.update_message("File saved successfully.");
        } else {
            self.update_message("Error writing file!");
        }
        let cur = self.current_view_idx;
        if then_quit && !self.views[cur].can_undo() {
            self.should_quit = true;
        }
    }

    /// A new view of `contents`, read from `path`, sized for the terminal.
    fn view_of_file(&self, contents: &str, path: &str) -> (v: TextView)
        requires
            contents@.len() + 1 <= usize::MAX / 64,
        ensures
            opened_view(v, contents@, path@, self.model().size),
    {
        let mut v = TextView::new();
        v.set_size(Size { height: self.terminal_size.height.saturating_sub(2), width: self.terminal_size.width });
        v.load(contents, path);
        v
    }

    /// Adds view `v` and makes it current; the language server is told.
    fn add_view(&mut self, v: TextView)
        requires
            old(self).wf(),
            v.wf(),
        ensures
            final(self).wf(),
            final(self).model() == added_view(old(self).model(), v),
            final(self).model().cur as int == old(self).model().views.len(),
            final(self).bar() == old(self).bar(),
    {
        self.views.push(v);
        self.current_view_idx = self.views.len() - 1;
        let cur = self.current_view_idx;
        if self.views[cur].get_path().is_some() && has_language_server(self.views[cur].file_type()) {
            self.ask(EditorAction::LspDidOpen { view_idx: cur });
        }
    }

    /// The outcome of reading `path` to open it, as a `ReadFile` action asked
    /// for: its contents, or `None` when it could not be read.
    pub fn file_read(&mut self, path: &str, contents: Option<&str>)
        requires
            old(self).wf(),
        ensures
            final(self).wf(),
            final(self).bar() == old(self).bar(),
            ({
                let m0 = old(self).model();
                let m1 = final(self).model();
                match contents {
                    Some(c) => if c@.len() + 1 <= usize::MAX / 64 {
                        let n = m0.views.len();
                        &&& m1.views.len() == n + 1
                        &&& opened_view(m1.views[n as int], c@, path@, m0.size)
                        &&& m1 == quit_reset(said(added_view(m0, m1.views[n as int]), "Opened file: "@ + path@))
                    } else {
                        m1 == said(m0, "ERR: Could not open file: "@ + path@)
                    },
                    None => m1 == said(m0, "ERR: Could not open file: "@ + path@),
                }
            }),
    {
        let mut failed = true;
        if let Some(c) = contents {
            if chars_of(c).len() < usize::MAX / 64 {
                let v = self.view_of_file(c, path);
                self.add_view(v);
                let mut text = copy_str("Opened file: ");
                text.append(path);
                self.update_message(text.as_str());
                self.reset_quit_times();
                failed = false;
            }
        }
        if failed {
            let mut text = copy_str("ERR: Could not open file: ");
            text.append(path);
            self.update_message(text.as_str());
        }
    }

    /// Makes view `idx` current and marks it for drawing.
    fn switch_to(&mut self, idx: usize)
        requires
            old(self).wf(),
            idx < old(self).model().views.len(),
        ensures
            final(self).wf(),
            switched_to(old(self).model(), final(self).model(), idx as int),
            final(self).bar() == old(self).bar(),
    {
        self.current_view_idx = idx;
        self.views[idx].set_needs_redraw(true);
        self.reset_quit_times();
    }

    /// Asks the language server to format the current view.
    fn lsp_format(&mut self)
        requires
            old(self).wf(),
        ensures
            final(self).wf(),
            ({
                let m = recorded_jump(old(self).model());
                final(self).model() == tell_lsp(m, m.cur, ActionSpec::LspFormat { view_idx: m.cur })
            }),
            final(self).bar() == old(self).bar(),
    {
        self.record_jump();
        let cur = self.current_view_idx;
        if self.views[cur].get_path().is_some() && has_language_server(self.views[cur].file_type()) {
            self.ask(EditorAction::LspFormat { view_idx: cur });
        }
    }

    /// Opens the help in a new view.
    fn open_help(&mut self)
        requires
            old(self).wf(),
        ensures
            final(self).wf(),
            ({
                let m = recorded_jump(old(self).model());
                let n = m.views.len();
                let m1 = final(self).model();
                if help_text_spec().len() + 1 <= usize::MAX / 64 {
                    &&& m1.views.len() == n + 1
                    &&& help_view(m1.views[n as int], m.size)
                    &&& m1 == quit_reset(
                        said(EditorModel { views: m.views.push(m1.views[n as int]), cur: n as usize, ..m }, "Opened help"@),
                    )
                } else {
                    m1 == m
                }
            }),
            final(self).bar() == old(self).bar(),
    {
        self.record_jump();
        let text = HELP_TEXT;
        if chars_of(text).len() < usize::MAX / 64 {
            let size = Size { height: self.terminal_size.height.saturating_sub(2), width: self.terminal_size.width };
            let v = TextView::new_with_content(text, "HELP", size);
            self.views.push(v);
            self.current_view_idx = self.views.len() - 1;
            self.update_message("Opened help");
            self.reset_quit_times();
        }
    }

    /// Carries out the command line `command`, typed after `:`.
    pub fn handle_vim_command(&mut self, command: &str)
        requires
            old(self).wf(),
        ensures
            final(self).wf(),
            vim_step(old(self).model(), final(self).model(), command@),
            final(self).bar() == old(self).bar(),
    {
        let parsed = parse_command(command);
        let n = self.views.len();
        let cur = self.current_view_idx;
        match parsed.kind {
            CommandKind::Quit => {
                self.handle_quit_command();
            },
            CommandKind::ForceQuit => {
                self.should_quit = true;
            },
            CommandKind::Write => {
                match &parsed.arg {
                    Some(path) => self.save(Some(path.as_str()), false),
                    None => {
                        if self.views[cur].is_file_loaded() {
                            self.save(None, false);
                        } else {
                            self.update_message("ERR: Can't save without filename!");
                        }
                    },
                }
            },
            CommandKind::Syntax => {
                self.views[cur].toggle_syntax();
            },
            CommandKind::Format => {
                self.lsp_format();
            },
            CommandKind::WriteQuit => {
                match &parsed.arg {
                    Some(path) => self.save(Some(path.as_str()), true),
                    None => self.save(None, true),
                }
            },
            CommandKind::Prev => {
                self.record_jump();
                let idx = if cur == 0 {
                    n - 1
                } else {
                    cur - 1
                };
                proof {
                    if cur == 0 {
                        vstd::arithmetic::div_mod::lemma_small_mod((n - 1) as nat, n as nat);
                    } else {
                        vstd::arithmetic::div_mod::lemma_mod_add_multiples_vanish(cur - 1, n as int);
                        vstd::arithmetic::div_mod::lemma_small_mod((cur - 1) as nat, n as nat);
                    }
                    assert((cur + n - 1) % (n as int) == idx);
                }
                self.switch_to(idx);
            },
            CommandKind::Next => {
                self.record_jump();
                let idx = if cur + 1 == n {
                    0
                } else {
                    cur + 1
                };
                proof {
                    if cur + 1 == n {
                        vstd::arithmetic::div_mod::lemma_mod_self_0(n as int);
                    } else {
                        vstd::arithmetic::div_mod::lemma_small_mod((cur + 1) as nat, n as nat);
                    }
                    assert((cur + 1) % (n as int) == idx);
                }
                self.switch_to(idx);
            },
            CommandKind::Open => {
                match &parsed.arg {
                    Some(path) => {
                        self.record_jump();
                        self.ask(EditorAction::ReadFile { path: copy_str(path.as_str()) });
                    },
                    None => self.update_message("ERR: No file name provided"),
                }
            },
            CommandKind::Help => {
                self.open_help();
            },
            CommandKind::Unknown => {
                let mut text = copy_str("ERR: Unknown command: ");
                text.append(parsed.name.as_str());
                self.update_message(text.as_str());
            },
        }
    }

    /// A tab press with candidates `matches`, as `completed` describes.
    fn complete_with(&mut self, matches: Vec<String>, index: Option<usize>, original: Option<String>)
        requires
            old(self).wf(),
        ensures
            final(self).wf(),
            final(self).model() == old(self).model(),
            completed(old(self).bar(), final(self).bar(), strings_view(matches@), index, opt_text(original)),
    {
        if matches.len() == 0 {
            return;
        }
        let value = self.command_bar.value();
        let orig: Option<&str> = match &original {
            Some(o) => Some(o.as_str()),
            None => None,
        };
        let (v, i) = complete_step(value.as_str(), &matches, index, orig);
        if let Some(new_value) = v {
            if fits_line(new_value.as_str()) {
                self.command_bar.set_value(new_value.as_str());
            }
        }
        self.command_bar.set_completion_state(matches, i, original);
    }

    /// A tab press in the command prompt, as `complete_cmd_step` describes.
    pub fn handle_complete_command(&mut self)
        requires
            old(self).wf(),
        ensures
            final(self).wf(),
            complete_cmd_step(old(self).model(), final(self).model(), old(self).bar(), final(self).bar()),
    {
        let (matches, index, original) = self.command_bar.get_completion_state();
        if original.is_some() {
            self.complete_with(matches, index, original);
            return;
        }
        let value = self.command_bar.value();
        match completion_start(value.as_str()) {
            CompletionStart::Nothing => {},
            CompletionStart::Commands { matches, original } => {
                self.complete_with(matches, index, Some(original));
            },
            CompletionStart::Paths { dir, prefix, original } => {
                self.ask(EditorAction::ListDirectory { dir, prefix, original, index });
            },
        }
    }

    /// The entries of the directory asked for by a `ListDirectory` action
    /// (names, and whether each is a directory), to complete a file name
    /// from.
    pub fn complete_with_entries(
        &mut self,
        dir: &str,
        prefix: &str,
        original: &str,
        index: Option<usize>,
        entries: &Vec<(String, bool)>,
    )
        requires
            old(self).wf(),
        ensures
            final(self).wf(),
            final(self).model() == old(self).model(),
            completed(
                old(self).bar(),
                final(self).bar(),
                entry_completions(dir@, prefix@, entries_view(entries@)),
                index,
                Some(original@),
            ),
    {
        let matches = path_completions(dir, prefix, entries);
        self.complete_with(matches, index, Some(copy_str(original)));
    }

    /// A command while the command prompt is open.
    fn process_command_during_command(&mut self, command: Command)
        requires
            old(self).wf(),
        ensures
            final(self).wf(),
            command_step(old(self).model(), final(self).model(), old(self).bar(), final(self).bar(), command),
    {
        match command {
            Command::System(System::Dismiss) => self.close_prompt(),
            Command::Edit(Edit::InsertNewline) => {
                let command_str = self.command_bar.value();
                if fits_line(command_str.as_str()) {
                    self.command_bar.add_to_history(copy_str(command_str.as_str()));
                }
                self.handle_vim_command(command_str.as_str());
                let ghost mm = self.model();
                if !self.should_quit {
                    self.close_prompt();
                }
                assert(vim_step(old(self).model(), mm, command_str@));
            },
            Command::Edit(Edit::Complete) => self.handle_complete_command(),
            Command::Edit(edit_command) => {
                let value = self.command_bar.value();
                if chars_of(value.as_str()).len() < usize::MAX / 64 {
                    self.command_bar.handle_edit_command(edit_command);
                }
            },
            Command::Move(Move::Up(_)) => self.command_bar.navigate_history_up(),
            Command::Move(Move::Down(_)) => self.command_bar.navigate_history_down(),
            Command::Move(Move::Left(_)) => self.command_bar.move_caret_left(),
            Command::Move(Move::Right(_)) => self.command_bar.move_caret_right(),
            _ => {},
        }
    }


    /// Enters insert mode; leaving it moves the caret left when
    /// `move_left_on_escape`.
    fn enter_insert_mode(&mut self, move_left_on_escape: bool)
        ensures
            final(self).model() == inserting(old(self).model(), move_left_on_escape),
            final(self).bar() == old(self).bar(),
            final(self).wf() == old(self).wf(),
    {
        self.mode = EditorMode::Insert;
        self.move_left_on_escape = move_left_on_escape;
    }

    /// Whether the language server is told about the current view.
    fn current_wants_lsp(&self) -> (r: bool)
        requires
            self.wf(),
        ensures
            r == lsp_wanted(cur_view(self.model())),
    {
        let cur = self.current_view_idx;
        self.views[cur].get_path().is_some() && has_language_server(self.views[cur].file_type())
    }

    fn run_open_below(&mut self)
        requires
            old(self).wf(),
        ensures
            final(self).wf(),
            normal_step(old(self).model(), final(self).model(), old(self).bar(), final(self).bar(), NormalAction::OpenBelow),
    {
        let ghost m0 = self.model();
        self.process_command_no_prompt(Command::Move(Move::AfterEndOfLine));
        let ghost ma = self.model();
        self.process_command_no_prompt(Command::Edit(Edit::InsertNewline));
        let ghost mb = self.model();
        self.enter_insert_mode(false);
        assert(no_prompt_step(m0, ma, Command::Move(Move::AfterEndOfLine)) && no_prompt_step(
            ma,
            mb,
            Command::Edit(Edit::InsertNewline),
        ) && self.model() == inserting(mb, false));
    }

    fn run_open_above(&mut self)
        requires
            old(self).wf(),
        ensures
            final(self).wf(),
            normal_step(old(self).model(), final(self).model(), old(self).bar(), final(self).bar(), NormalAction::OpenAbove),
    {
        let ghost m0 = self.model();
        self.process_command_no_prompt(Command::Move(Move::StartOfLine));
        let ghost ma = self.model();
        self.process_command_no_prompt(Command::Edit(Edit::InsertNewline));
        let ghost mb = self.model();
        self.process_command_no_prompt(Command::Move(Move::Up(1)));
        let ghost mc = self.model();
        self.enter_insert_mode(false);
        assert(no_prompt_step(m0, ma, Command::Move(Move::StartOfLine)) && no_prompt_step(
            ma,
            mb,
            Command::Edit(Edit::InsertNewline),
        ) && no_prompt_step(mb, mc, Command::Move(Move::Up(1))) && self.model() == inserting(mc, false));
    }

    fn run_selection_action(&mut self, action: NormalAction)
        requires
            old(self).wf(),
            action is ToggleVisual || action is SelectLineDown || action is SelectLineUp || action is SelectAll
                || action is DeleteSelection || action is Paste || action is PasteBackward || action is JoinLines
                || action is Escape || action is Yank,
        ensures
            final(self).wf(),
            normal_step(old(self).model(), final(self).model(), old(self).bar(), final(self).bar(), action),
    {
        let ghost m0 = self.model();
        let cur = self.current_view_idx;
        match action {
            NormalAction::Yank => {
                match self.views[cur].get_selected_text() {
                    Some(text) => {
                        self.clipboard = text;
                        self.update_message("Text copied to clipboard.");
                    },
                    None => {
                        self.clipboard = self.views[cur].get_current_character();
                        self.update_message("Character copied to clipboard.");
                    },
                }
            },
            NormalAction::ToggleVisual => {
                if self.mode == EditorMode::Visual {
                    self.mode = EditorMode::Normal;
                    self.views[cur].clear_selection();
                    assert(self.model() == EditorModel { mode: EditorMode::Normal, ..with_view(m0, cur_view(self.model())) });
                    assert(maybe_cleared(cur_view(m0), cur_view(self.model()), true));
                } else {
                    self.mode = EditorMode::Visual;
                    if self.views[cur].get_selection().is_none() {
                        self.views[cur].start_selection();
                        assert(changed_to(cur_view(m0), cur_view(self.model()), ViewModel { selection: Some(cur_view(m0).loc()), redraw: true, ..cur_view(m0).model() }));
                    } else {
                        assert(cur_view(self.model()) == cur_view(m0));
                    }
                    assert(self.model() == EditorModel { mode: EditorMode::Visual, ..with_view(m0, cur_view(self.model())) });
                }
            },
            NormalAction::SelectLineDown => self.views[cur].select_line_down(),
            NormalAction::SelectLineUp => self.views[cur].select_line_up(),
            NormalAction::SelectAll => self.views[cur].select_all(),
            NormalAction::DeleteSelection => {
                match self.views[cur].get_selected_text() {
                    Some(text) => {
                        self.clipboard = text;
                        self.views[cur].delete_selection();
                        self.mode = EditorMode::Normal;
                    },
                    None => self.process_command_no_prompt(Command::Edit(Edit::Delete)),
                }
            },
            NormalAction::Paste => {
                self.views[cur].paste(self.clipboard.as_str());
                self.mode = EditorMode::Normal;
            },
            NormalAction::PasteBackward => {
                self.views[cur].paste_backward(self.clipboard.as_str());
                self.mode = EditorMode::Normal;
            },
            NormalAction::JoinLines => {
                if self.views[cur].text_location().line_idx < usize::MAX {
                    self.views[cur].concat_lines();
                }
            },
            _ => {
                self.views[cur].clear_selection();
                if self.mode == EditorMode::Visual {
                    self.mode = EditorMode::Normal;
                }
                self.clear_message();
            },
        }
    }

    fn run_outside_action(&mut self, action: NormalAction)
        requires
            old(self).wf(),
            action is GotoDefinition || action is SystemYank || action is SystemPaste || action is SystemPasteBackward
                || action is SystemDelete || action is Hover,
        ensures
            final(self).wf(),
            normal_step(old(self).model(), final(self).model(), old(self).bar(), final(self).bar(), action),
    {
        let cur = self.current_view_idx;
        match action {
            NormalAction::GotoDefinition => {
                self.record_jump();
                if self.current_wants_lsp() {
                    self.ask(EditorAction::LspDefinition { view_idx: cur });
                }
            },
            NormalAction::SystemYank => {
                let selection = self.views[cur].has_selection();
                let text = match self.views[cur].get_selected_text() {
                    Some(t) => t,
                    None => self.views[cur].get_current_character(),
                };
                self.ask(
                    EditorAction::WriteSystemClipboard { text, purpose: ClipboardWrite::Yank { selection } },
                );
            },
            NormalAction::SystemPaste => {
                self.mode = EditorMode::Normal;
                self.ask(EditorAction::ReadSystemClipboard { purpose: ClipboardRead::Paste });
            },
            NormalAction::SystemPasteBackward => {
                self.mode = EditorMode::Normal;
                self.ask(EditorAction::ReadSystemClipboard { purpose: ClipboardRead::PasteBackward });
            },
            NormalAction::SystemDelete => {
                match self.views[cur].get_selected_text() {
                    Some(text) => self.ask(EditorAction::WriteSystemClipboard { text, purpose: ClipboardWrite::Cut }),
                    None => self.process_command_no_prompt(Command::Edit(Edit::Delete)),
                }
            },
            _ => {
                if self.current_wants_lsp() {
                    self.ask(EditorAction::LspHover { view_idx: cur });
                }
            },
        }
    }

    /// Carries out what a complete key sequence means.
    fn run_normal_action(&mut self, action: NormalAction)
        requires
            old(self).wf(),
        ensures
            final(self).wf(),
            normal_step(old(self).model(), final(self).model(), old(self).bar(), final(self).bar(), action),
    {
        match action {
            NormalAction::Move(mv) => self.process_command_no_prompt(Command::Move(mv)),
            NormalAction::Edit(e) => self.process_command_no_prompt(Command::Edit(e)),
            NormalAction::EnterInsert => self.enter_insert_mode(false),
            NormalAction::EnterReplace => self.mode = EditorMode::Replace,
            NormalAction::Append => {
                let ghost m0 = self.model();
                self.process_command_no_prompt(Command::Move(Move::Right(1)));
                let ghost ma = self.model();
                self.enter_insert_mode(true);
                assert(no_prompt_step(m0, ma, Command::Move(Move::Right(1))) && self.model() == inserting(ma, true));
            },
            NormalAction::OpenBelow => self.run_open_below(),
            NormalAction::OpenAbove => self.run_open_above(),
            NormalAction::CommandPrompt => self.set_prompt(PromptType::Command),
            NormalAction::SearchPrompt => self.set_prompt(PromptType::Search),
            NormalAction::Yank | NormalAction::ToggleVisual | NormalAction::SelectLineDown
            | NormalAction::SelectLineUp | NormalAction::SelectAll | NormalAction::DeleteSelection
            | NormalAction::Paste | NormalAction::PasteBackward | NormalAction::JoinLines
            | NormalAction::Escape => self.run_selection_action(action),
            NormalAction::GotoDefinition | NormalAction::SystemYank | NormalAction::SystemPaste
            | NormalAction::SystemPasteBackward | NormalAction::SystemDelete
            | NormalAction::Hover => self.run_outside_action(action),
            NormalAction::Nothing => {},
        }
    }

    /// Handles the keys typed so far in normal or visual mode, as
    /// `key_sequence_step` describes.
    fn handle_key_sequence(&mut self)
        requires
            old(self).wf(),
        ensures
            final(self).wf(),
            key_sequence_step(old(self).model(), final(self).model(), old(self).bar(), final(self).bar()),
    {
        if self.command_buffer.len() == 2 {
            self.clear_message();
        }
        let ghost m = self.model();
        let outcome = decide_keys(&self.command_buffer, self.count);
        match outcome {
            KeyOutcome::Wait => {},
            KeyOutcome::SetCount(c) => {
                self.count = Some(c);
                self.command_buffer = Vec::new();
            },
            KeyOutcome::Cancel => {
                self.command_buffer = Vec::new();
            },
            KeyOutcome::Run(a) => {
                self.run_normal_action(a);
                let ghost mm = self.model();
                self.count = None;
                self.command_buffer = Vec::new();
                assert(normal_step(m, mm, old(self).bar(), self.bar(), a));
            },
        }
    }


    /// A command: a resize resizes; any other goes to the open prompt, or
    /// to the current view when none is open.
    pub fn process_command(&mut self, command: Command)
        requires
            old(self).wf(),
        ensures
            final(self).wf(),
            command_effect(old(self).model(), final(self).model(), old(self).bar(), final(self).bar(), command),
    {
        if let Command::System(System::Resize(size)) = command {
            self.handle_resize_command(size);
            return;
        }
        match self.prompt_type {
            PromptType::Search => self.process_command_during_search(command),
            PromptType::Command => self.process_command_during_command(command),
            PromptType::Inactive => self.process_command_no_prompt(command),
        }
    }

    fn key_as_command(&mut self, key: KeyEvent)
        requires
            old(self).wf(),
        ensures
            final(self).wf(),
            key_command(old(self).model(), final(self).model(), old(self).bar(), final(self).bar(), key),
    {
        match Command::try_from(key) {
            Ok(command) => self.process_command(command),
            Err(_) => {},
        }
    }

    /// A key press, as `key_press_step` describes.
    fn handle_key_press(&mut self, key: KeyEvent)
        requires
            old(self).wf(),
        ensures
            final(self).wf(),
            key_press_step(old(self).model(), final(self).model(), old(self).bar(), final(self).bar(), key),
    {
        self.info_popup = None;
        if !self.in_prompt() {
            match self.mode {
                EditorMode::Normal | EditorMode::Visual => {
                    self.command_buffer.push(key);
                    self.handle_key_sequence();
                    return;
                },
                EditorMode::Insert => {
                    if key.code == KeyCode::Esc {
                        self.mode = EditorMode::Normal;
                        if self.move_left_on_escape {
                            let ghost mm = self.model();
                            self.process_command(Command::Move(Move::Left(1)));
                            let ghost ma = self.model();
                            self.move_left_on_escape = false;
                            assert(no_prompt_step(mm, ma, Command::Move(Move::Left(1))));
                        }
                        return;
                    }
                },
                EditorMode::Replace => {
                    if key.code == KeyCode::Esc {
                        self.mode = EditorMode::Normal;
                        return;
                    }
                    if let KeyCode::Char(c) = key.code {
                        let cur = self.current_view_idx;
                        self.views[cur].handle_replace_mode_char(c);
                        return;
                    }
                },
            }
        }
        self.key_as_command(key);
    }

    /// Opens the context menu at `pos`.
    fn open_menu(&mut self, pos: Position, can_paste: bool)
        requires
            old(self).wf(),
        ensures
            final(self).wf(),
            final(self).model() == (EditorModel { menu: final(self).model().menu, ..old(self).model() }),
            final(self).model().menu matches Some(menu) && menu_for(
                menu,
                pos,
                old(self).model().size,
                cur_view(old(self).model()),
                can_paste,
            ),
            final(self).bar() == old(self).bar(),
    {
        let cur = self.current_view_idx;
        let menu = ContextMenu::new(
            pos,
            self.terminal_size,
            self.views[cur].can_undo(),
            self.views[cur].can_redo(),
            self.views[cur].has_selection(),
            can_paste,
        );
        self.context_menu = Some(menu);
    }

    /// Closes the context menu.
    fn close_menu(&mut self)
        requires
            old(self).wf(),
        ensures
            final(self).wf(),
            menu_closed(old(self).model(), final(self).model()),
            final(self).bar() == old(self).bar(),
    {
        self.context_menu = None;
        let cur = self.current_view_idx;
        self.views[cur].set_needs_redraw(true);
    }

    /// What choosing `action` in the context menu at `menu_pos` does.
    fn run_menu_action(&mut self, action: ContextMenuAction, menu_pos: Position)
        requires
            old(self).wf(),
        ensures
            final(self).wf(),
            menu_action_step(old(self).model(), final(self).model(), old(self).bar(), final(self).bar(), action, menu_pos),
    {
        let cur = self.current_view_idx;
        match action {
            ContextMenuAction::Copy => {
                let selection = self.views[cur].has_selection();
                let text = match self.views[cur].get_selected_text() {
                    Some(t) => t,
                    None => self.views[cur].get_current_character(),
                };
                self.clipboard = copy_str(text.as_str());
                self.ask(EditorAction::WriteSystemClipboard { text, purpose: ClipboardWrite::Quiet });
                if selection {
                    self.update_message("Text copied to clipboard.");
                } else {
                    self.update_message("Character copied to clipboard.");
                }
            },
            ContextMenuAction::Delete => {
                if let Some(text) = self.views[cur].get_selected_text() {
                    self.clipboard = text;
                    self.views[cur].delete_selection();
                    self.mode = EditorMode::Normal;
                    self.update_message("Selection deleted.");
                }
            },
            ContextMenuAction::Paste => {
                self.views[cur].move_to_position(menu_pos);
                self.ask(EditorAction::ReadSystemClipboard { purpose: ClipboardRead::MenuPaste });
            },
            ContextMenuAction::Undo => self.process_command(Command::Edit(Edit::Undo)),
            ContextMenuAction::Redo => self.process_command(Command::Edit(Edit::Redo)),
            ContextMenuAction::SelectAll => {
                self.mode = EditorMode::Visual;
                self.views[cur].select_all();
            },
        }
    }

    /// A mouse event that no context menu takes, as `plain_mouse_step`
    /// describes.
    fn plain_mouse(&mut self, kind: MouseEventKind, pos: Position)
        requires
            old(self).wf(),
        ensures
            final(self).wf(),
            plain_mouse_step(old(self).model(), final(self).model(), kind, pos),
            final(self).bar() == old(self).bar(),
    {
        let cur = self.current_view_idx;
        let in_text = pos.row < self.terminal_size.height.saturating_sub(2);
        match kind {
            MouseEventKind::Down(MouseButton::Left) => {
                if in_text {
                    self.views[cur].move_to_position(pos);
                    let ghost v = self.views@[cur as int];
                    self.views[cur].clear_selection();
                    self.mode = EditorMode::Normal;
                    assert(clicked_at(cur_view(old(self).model()), v, pos));
                    assert(maybe_cleared(v, cur_view(self.model()), true));
                    assert(self.model() == EditorModel { mode: EditorMode::Normal, ..with_view(old(self).model(), cur_view(self.model())) });
                }
            },
            MouseEventKind::Down(MouseButton::Right) => {
                if self.context_menu.is_none() {
                    if !self.clipboard.as_str().is_empty() {
                        self.open_menu(pos, true);
                    } else {
                        self.ask(EditorAction::ReadSystemClipboard { purpose: ClipboardRead::OpenMenu(pos) });
                    }
                } else {
                    self.close_menu();
                }
            },
            MouseEventKind::Drag(MouseButton::Left) => {
                if in_text {
                    if self.mode != EditorMode::Visual {
                        self.mode = EditorMode::Visual;
                        self.views[cur].start_selection();
                    }
                    let ghost v = self.views@[cur as int];
                    let ghost m0 = old(self).model();
                    let ghost v0 = cur_view(m0);
                    assert(if m0.mode != EditorMode::Visual {
                        changed_to(v0, v, ViewModel { selection: Some(v0.loc()), redraw: true, ..v0.model() })
                    } else {
                        v == v0
                    });
                    self.views[cur].move_to_position(pos);
                    assert(clicked_at(v, cur_view(self.model()), pos));
                    assert(self.model() == EditorModel { mode: EditorMode::Visual, ..with_view(m0, cur_view(self.model())) });
                }
            },
            MouseEventKind::ScrollUp => {
                self.views[cur].handle_move_command(Move::Up(1));
                proof {
                    cur_view(old(self).model()).lemma_model();
                    cur_view(self.model()).lemma_model();
                }
            },
            MouseEventKind::ScrollDown => {
                self.views[cur].handle_move_command(Move::Down(1));
                proof {
                    cur_view(old(self).model()).lemma_model();
                    cur_view(self.model()).lemma_model();
                }
            },
            _ => {},
        }
    }

    /// A mouse event, as `mouse_step` describes.
    pub fn handle_mouse_event(&mut self, event: MouseEvent)
        requires
            old(self).wf(),
        ensures
            final(self).wf(),
            mouse_step(old(self).model(), final(self).model(), old(self).bar(), final(self).bar(), event),
    {
        let pos = Position { col: event.column as usize, row: event.row as usize };
        if self.context_menu.is_some() {
            match event.kind {
                MouseEventKind::Down(MouseButton::Left) => {
                    let (clicked, menu_pos) = match &self.context_menu {
                        Some(menu) => (menu.handle_click(pos), menu.position()),
                        None => (None, pos),
                    };
                    if let Some(action) = clicked {
                        let ghost m0 = self.model();
                        let ghost b0 = self.bar();
                        self.run_menu_action(action, menu_pos);
                        let ghost mm = self.model();
                        self.close_menu();
                        assert(menu_action_step(m0, mm, b0, self.bar(), action, menu_pos));
                    } else {
                        self.close_menu();
                    }
                    return;
                },
                MouseEventKind::Moved => {
                    let taken = self.context_menu.take();
                    if let Some(mut menu) = taken {
                        menu.handle_mouse_move(pos);
                        self.context_menu = Some(menu);
                    }
                    return;
                },
                _ => {},
            }
        }
        self.plain_mouse(event.kind, pos);
    }

    /// An event from the terminal, as `event_step` describes.
    pub fn evaluate_event(&mut self, event: Event)
        requires
            old(self).wf(),
        ensures
            final(self).wf(),
            event_step(old(self).model(), final(self).model(), old(self).bar(), final(self).bar(), event),
    {
        match event {
            Event::Key(key, KeyEventKind::Press) => self.handle_key_press(key),
            Event::Key(_, _) => {},
            Event::Mouse(mouse_event) => self.handle_mouse_event(mouse_event),
            Event::Resize(width, height) => {
                self.process_command(
                    Command::System(System::Resize(Size { height: height as usize, width: width as usize })),
                );
            },
            Event::Other => {},
        }
    }


    /// The outcome of writing the system clipboard, as a
    /// `WriteSystemClipboard` action asked for (`error`: why it failed, if
    /// it did).
    pub fn system_clipboard_written(&mut self, purpose: ClipboardWrite, error: Option<&str>)
        requires
            old(self).wf(),
        ensures
            final(self).wf(),
            clipboard_written_step(
                old(self).model(),
                final(self).model(),
                purpose,
                match error {
                    Some(e) => Some(e@),
                    None => None,
                },
            ),
            final(self).bar() == old(self).bar(),
    {
        let cur = self.current_view_idx;
        match error {
            Some(e) => {
                if !matches!(purpose, ClipboardWrite::Quiet) {
                    let mut text = copy_str("ERR: Clipboard error: ");
                    text.append(e);
                    self.update_message(text.as_str());
                }
            },
            None => match purpose {
                ClipboardWrite::Yank { selection } => {
                    if selection {
                        self.update_message("Text copied to system clipboard.");
                    } else {
                        self.update_message("Character copied to system clipboard.");
                    }
                },
                ClipboardWrite::Cut => {
                    self.views[cur].delete_selection();
                    self.mode = EditorMode::Normal;
                },
                ClipboardWrite::Quiet => {},
            },
        }
    }

    /// The text read from the system clipboard, as a `ReadSystemClipboard`
    /// action asked for (`None` when it could not be read).
    pub fn system_clipboard_read(&mut self, purpose: ClipboardRead, text: Option<&str>)
        requires
            old(self).wf(),
        ensures
            final(self).wf(),
            clipboard_read_step(
                old(self).model(),
                final(self).model(),
                purpose,
                match text {
                    Some(t) => Some(t@),
                    None => None,
                },
            ),
            final(self).bar() == old(self).bar(),
    {
        let cur = self.current_view_idx;
        match purpose {
            ClipboardRead::Paste => {
                if let Some(t) = text {
                    self.views[cur].paste(t);
                }
            },
            ClipboardRead::PasteBackward => {
                if let Some(t) = text {
                    self.views[cur].paste_backward(t);
                }
            },
            ClipboardRead::MenuPaste => {
                match text {
                    Some(t) => self.views[cur].paste(t),
                    None => self.views[cur].paste(self.clipboard.as_str()),
                }
            },
            ClipboardRead::OpenMenu(p) => {
                let can_paste = match text {
                    Some(t) => !t.is_empty(),
                    None => false,
                };
                self.open_menu(p, can_paste);
            },
        }
    }

    /// A language server's answer about the symbol at the caret of view
    /// `view_idx`: a popup shows it next to the caret, unless it is empty.
    pub fn show_hover(&mut self, view_idx: usize, contents: &HoverContents)
        requires
            old(self).wf(),
        ensures
            final(self).wf(),
            final(self).bar() == old(self).bar(),
            ({
                let m0 = old(self).model();
                let t = hover_text_of(*contents);
                if t.len() > 0 && view_idx < m0.views.len() {
                    &&& final(self).model() == EditorModel { popup: final(self).model().popup, ..m0 }
                    &&& final(self).model().popup matches Some(pp) && popup_for(
                        pp,
                        view_caret(m0.views[view_idx as int]),
                        m0.size,
                        t,
                    )
                } else {
                    final(self).model() == m0
                }
            }),
    {
        let text = hover_text(contents);
        if !text.as_str().is_empty() && view_idx < self.views.len() {
            let pos = self.views[view_idx].caret_position();
            self.info_popup = Some(InfoPopup::new(pos, self.terminal_size, text.as_str()));
        }
    }

    /// Goes to a definition at `pos`, as `definition_step` describes. `found`
    /// is the view that shows the definition's file, if one does; else
    /// `contents` is that file as read from `path` (`None` when it could not
    /// be).
    pub fn show_definition(&mut self, found: Option<usize>, path: &str, contents: Option<&str>, pos: LspPosition)
        requires
            old(self).wf(),
        ensures
            final(self).wf(),
            definition_step(
                old(self).model(),
                final(self).model(),
                found,
                path@,
                match contents {
                    Some(c) => Some(c@),
                    None => None,
                },
                pos,
            ),
            final(self).bar() == old(self).bar(),
    {
        if let Some(i) = found {
            if i < self.views.len() {
                self.current_view_idx = i;
                self.views[i].set_lsp_location(pos);
                return;
            }
        }
        if let Some(c) = contents {
            if chars_of(c).len() < usize::MAX / 64 {
                let v = self.view_of_file(c, path);
                let ghost gv = v;
                let ghost m0 = self.model();
                self.add_view(v);
                let cur = self.current_view_idx;
                let ghost ma = self.model();
                assert(cur as int == m0.views.len());
                assert(cur_view(ma) == gv);
                self.views[cur].set_lsp_location(pos);
                assert(opened_view(gv, c@, path@, m0.size) && self.model() == with_view(
                    added_view(m0, gv),
                    cur_view(self.model()),
                ) && lsp_placed(gv, cur_view(self.model()), pos));
            }
        }
    }

    /// A language server's edits formatting view `view_idx`; the server is
    /// then told of the change.
    pub fn apply_formatting(&mut self, view_idx: usize, edits: Vec<TextEdit>)
        requires
            old(self).wf(),
        ensures
            final(self).wf(),
            final(self).bar() == old(self).bar(),
            ({
                let m0 = old(self).model();
                if view_idx < m0.views.len() {
                    let v0 = m0.views[view_idx as int];
                    let v1 = final(self).model().views[view_idx as int];
                    &&& final(self).model() == tell_lsp(
                        EditorModel { views: m0.views.update(view_idx as int, v1), ..m0 },
                        view_idx,
                        ActionSpec::LspDidChange { view_idx },
                    )
                    &&& v1.model() == m_redraw(m_text_edits(v0.model(), sorted_edits(edits@)))
                    &&& v1.same_setting(&v0)
                    &&& v1.wf()
                } else {
                    final(self).model() == m0
                }
            }),
    {
        if view_idx < self.views.len() {
            self.views[view_idx].apply_lsp_edits(edits);
            self.notify_lsp_did_change(view_idx);
        }
    }

    /// A language server's diagnostics for view `view_idx`.
    pub fn set_view_diagnostics(&mut self, view_idx: usize, diagnostics: Vec<Diagnostic>)
        requires
            old(self).wf(),
        ensures
            final(self).wf(),
            final(self).bar() == old(self).bar(),
            ({
                let m0 = old(self).model();
                if view_idx < m0.views.len() {
                    let v0 = m0.views[view_idx as int];
                    let v1 = final(self).model().views[view_idx as int];
                    &&& final(self).model() == EditorModel { views: m0.views.update(view_idx as int, v1), ..m0 }
                    &&& v1.diagnostics_view() == diagnostics@
                    &&& v1.redraw_flag()
                    &&& v1.buf() == v0.buf()
                    &&& v1.loc() == v0.loc()
                    &&& v1.selection() == v0.selection()
                    &&& v1.scroll() == v0.scroll()
                    &&& v1.size_view() == v0.size_view()
                    &&& v1.search_view() == v0.search_view()
                    &&& v1.last_query() == v0.last_query()
                    &&& v1.syntax_on() == v0.syntax_on()
                } else {
                    final(self).model() == m0
                }
            }),
    {
        if view_idx < self.views.len() {
            self.views[view_idx].update_diagnostics(diagnostics);
        }
    }

    /// A file named on the command line, as read (`None` when it could not
    /// be), as `initial_file_step` describes.
    pub fn open_initial_file(&mut self, name: &str, contents: Option<&str>)
        requires
            old(self).wf(),
        ensures
            final(self).wf(),
            initial_file_step(
                old(self).model(),
                final(self).model(),
                name@,
                match contents {
                    Some(c) => Some(c@),
                    None => None,
                },
            ),
            final(self).bar() == old(self).bar(),
    {
        if let Some(c) = contents {
            if chars_of(c).len() < usize::MAX / 64 {
                if self.first_file {
                    self.views[0].load(c, name);
                    self.first_file = false;
                    if self.views[0].get_path().is_some() && has_language_server(self.views[0].file_type()) {
                        self.ask(EditorAction::LspDidOpen { view_idx: 0 });
                    }
                } else {
                    let v = self.view_of_file(c, name);
                    self.views.push(v);
                    let last = self.views.len() - 1;
                    if self.views[last].get_path().is_some() && has_language_server(self.views[last].file_type()) {
                        self.ask(EditorAction::LspDidOpen { view_idx: last });
                    }
                }
                return;
            }
        }
        let mut text = copy_str("ERR: Could not open file: ");
        text.append(name);
        self.update_message(text.as_str());
    }

    /// Shows the count and keys of an unfinished command in the message
    /// bar.
    pub fn refresh_status(&mut self)
        ensures
            final(self).model() == old(self).model(),
            final(self).bar() == old(self).bar(),
            final(self).message_bar_view().command_buffer_view() == pending_text(
                old(self).model().count,
                old(self).model().keys,
            ),
            final(self).wf() == old(self).wf(),
    {
        let mut text = match self.count {
            Some(c) => usize_to_string(c),
            None => String::new(),
        };
        let ghost t0 = text@;
        let mut i: usize = 0;
        while i < self.command_buffer.len()
            invariant
                i <= self.command_buffer@.len(),
                text@ == t0 + keys_text(self.command_buffer@.take(i as int)),
            decreases self.command_buffer@.len() - i,
        {
            proof {
                assert(self.command_buffer@.take(i + 1).drop_last() =~= self.command_buffer@.take(i as int));
            }
            let k = key_event_to_string(self.command_buffer[i]);
            text.append(k.as_str());
            i = i + 1;
        }
        assert(self.command_buffer@.take(i as int) =~= self.command_buffer@);
        self.message_bar.update_command_buffer(text.as_str());
    }

    /// The status bar's view of the current document.
    pub fn status(&self) -> (s: DocumentStatus)
        requires
            self.wf(),
        ensures
            ({
                let v = cur_view(self.model());
                &&& s.total_lines == v.lines().len()
                &&& s.current_line_idx == v.loc().line_idx
                &&& s.current_col_idx == crate::view::column_of(v.lines(), v.loc())
                &&& s.is_modified == is_modified(v)
                &&& s.file_type == v.buf().info().file_type_view()
                &&& s.mode@ == mode_text(self.model().mode)
                &&& s.file_name@ == match v.buf().info().display_name_view() {
                    Some(n) => n,
                    None => match v.buf().info().path_view() {
                        Some(p) => match crate::fileinfo::path_file_name(p) {
                            Some(n) => n,
                            None => "[No Name]"@,
                        },
                        None => "[No Name]"@,
                    },
                }
            }),
    {
        let mode = self.mode.name();
        self.views[self.current_view_idx].get_status(mode.as_str())
    }

    /// How the caret is drawn.
    pub fn cursor_style(&self) -> (r: CursorStyle)
        ensures
            r == cursor_style_of(self.model().mode),
    {
        match self.mode {
            EditorMode::Insert => CursorStyle::Bar,
            EditorMode::Replace => CursorStyle::UnderScore,
            _ => CursorStyle::Block,
        }
    }

    /// Where the caret is drawn: in the command bar on the bottom line while
    /// a prompt is open, else where the current view has it.
    pub fn screen_caret(&self) -> (p: Position)
        requires
            self.wf(),
        ensures
            p == if self.model().prompt != PromptType::Inactive {
                Position { row: sat_sub(self.model().size.height, 1), col: bar_caret_col(self.bar()) }
            } else {
                view_caret(cur_view(self.model()))
            },
    {
        if self.in_prompt() {
            Position {
                row: self.terminal_size.height.saturating_sub(1),
                col: self.command_bar.caret_position_col(),
            }
        } else {
            self.views[self.current_view_idx].caret_position()
        }
    }

    /// The current view.
    pub fn current_view(&self) -> (v: &TextView)
        requires
            self.wf(),
        ensures
            *v == cur_view(self.model()),
    {
        &self.views[self.current_view_idx]
    }

    /// The current view has been drawn.
    pub fn view_drawn(&mut self)
        requires
            old(self).wf(),
        ensures
            final(self).wf(),
            final(self).model() == with_view(old(self).model(), cur_view(final(self).model())),
            !cur_view(final(self).model()).redraw_flag(),
            cur_view(final(self).model()).buf() == cur_view(old(self).model()).buf(),
            cur_view(final(self).model()).loc() == cur_view(old(self).model()).loc(),
            cur_view(final(self).model()).scroll() == cur_view(old(self).model()).scroll(),
            cur_view(final(self).model()).same_but_caret(&cur_view(old(self).model())),
            final(self).bar() == old(self).bar(),
    {
        let cur = self.current_view_idx;
        self.views[cur].set_needs_redraw(false);
    }

    /// The command bar.
    pub fn command_bar(&self) -> (b: &CommandBar)
        ensures
            *b == self.bar(),
    {
        &self.command_bar
    }

    /// The row of the message bar to draw now, if it must be drawn; it is
    /// then marked as drawn.
    pub fn message_row(&mut self) -> (r: Option<String>)
        ensures
            final(self).model() == old(self).model(),
            final(self).bar() == old(self).bar(),
            final(self).wf() == old(self).wf(),
            r is Some == message_due(old(self).message_bar_view(), old(self).model().now),
            r matches Some(row) ==> row@ == crate::messagebar::message_row(
                match old(self).model().message {
                    Some((text, t)) => if crate::messagebar::expired(t, old(self).model().now) {
                        Seq::empty()
                    } else {
                        text
                    },
                    None => Seq::empty(),
                },
                old(self).message_bar_view().size_view().width,
                old(self).message_bar_view().command_buffer_view(),
            ),
    {
        if self.message_bar.needs_redraw(self.now) {
            let row = self.message_bar.render_row(self.now);
            self.message_bar.set_needs_redraw(false);
            Some(row)
        } else {
            None
        }
    }

    /// The text of the message shown, if there is one.
    pub fn message(&self) -> (r: Option<&str>)
        ensures
            match self.model().message {
                Some((t, _)) => r matches Some(s) && s@ == t,
                None => r is None,
            },
    {
        self.message_bar.message_text()
    }

    /// The context menu, if open.
    pub fn context_menu(&self) -> (r: Option<&ContextMenu>)
        ensures
            match self.model().menu {
                Some(m) => r == Some(&m),
                None => r is None,
            },
    {
        match &self.context_menu {
            Some(m) => Some(m),
            None => None,
        }
    }

    /// The info popup, if open.
    pub fn info_popup(&self) -> (r: Option<&InfoPopup>)
        ensures
            match self.model().popup {
                Some(p) => r == Some(&p),
                None => r is None,
            },
    {
        match &self.info_popup {
            Some(p) => Some(p),
            None => None,
        }
    }

    /// The editing mode.
    pub fn mode(&self) -> (r: EditorMode)
        ensures
            r == self.model().mode,
    {
        self.mode
    }

    /// Whether the editor is to quit.
    pub fn should_quit(&self) -> (r: bool)
        ensures
            r == self.model().should_quit,
    {
        self.should_quit
    }

    /// The terminal's size.
    pub fn terminal_size(&self) -> (r: Size)
        ensures
            r == self.model().size,
    {
        self.terminal_size
    }

    /// The number of views.
    pub fn view_count(&self) -> (r: usize)
        ensures
            r == self.model().views.len(),
    {
        self.views.len()
    }

    /// View `idx`, if there is one.
    pub fn view(&self, idx: usize) -> (r: Option<&TextView>)
        ensures
            if idx < self.model().views.len() {
                r == Some(&self.model().views[idx as int])
            } else {
                r is None
            },
    {
        if idx < self.views.len() {
            Some(&self.views[idx])
        } else {
            None
        }
    }


    /// Hands over the actions asked for, oldest first.
    pub fn take_actions(&mut self) -> (r: Vec<EditorAction>)
        ensures
            actions_view(r@) == old(self).model().actions,
            final(self).model() == (EditorModel { actions: Seq::empty(), ..old(self).model() }),
            final(self).bar() == old(self).bar(),
            final(self).wf() == old(self).wf(),
    {
        let mut r: Vec<EditorAction> = Vec::new();
        std::mem::swap(&mut r, &mut self.actions);
        assert(actions_view(self.actions@) =~= Seq::<ActionSpec>::empty());
        r
    }
}

// ---------------------------------------------------------------------------
// Laws
// ---------------------------------------------------------------------------

/// The third `:q` in a row quits.
pub proof fn lemma_third_quit_quits(m0: EditorModel, m1: EditorModel)
    requires
        m0.quit_times + 1 == QUIT_TIMES,
        quit_step(m0, m1),
    ensures
        m1.should_quit,
{
}

/// `:q` quits at once when no view has changes.
pub proof fn lemma_quit_without_changes(m0: EditorModel, m1: EditorModel)
    requires
        forall|i: int| 0 <= i < m0.views.len() ==> !is_modified(#[trigger] m0.views[i]),
        quit_step(m0, m1),
    ensures
        m1.should_quit,
{
    lemma_none_modified(m0.views);
}

proof fn lemma_none_modified(s: Seq<TextView>)
    requires
        forall|i: int| 0 <= i < s.len() ==> !is_modified(#[trigger] s[i]),
    ensures
        modified_views(s).len() == 0,
    decreases s.len(),
{
    reveal(Seq::filter);
    if s.len() > 0 {
        assert forall|i: int| 0 <= i < s.drop_last().len() implies !is_modified(#[trigger] s.drop_last()[i]) by {
            assert(s.drop_last()[i] == s[i]);
        }
        lemma_none_modified(s.drop_last());
        assert(!is_modified(s[s.len() - 1]));
    }
}

/// When `:q` does not quit, the views it leaves open are exactly those with
/// changes not saved, in their order.
pub proof fn lemma_quit_keeps_modified_views(m0: EditorModel, m1: EditorModel)
    requires
        quit_step(m0, m1),
        !m1.should_quit,
    ensures
        m1.views.len() == modified_views(m0.views).len(),
        forall|i: int| 0 <= i < m1.views.len() ==> is_modified(#[trigger] m1.views[i]),
        forall|i: int| 0 <= i < m1.views.len() ==> (#[trigger] m1.views[i]).buf() == modified_views(m0.views)[i].buf(),
{
    let kept = modified_views(m0.views);
    assert forall|i: int| 0 <= i < m1.views.len() implies is_modified(#[trigger] m1.views[i]) by {
        m0.views.filter_lemma(|v: TextView| is_modified(v));
        assert(is_modified(kept[i]));
    }
}

/// A view just saved has no changes left.
pub proof fn lemma_saved_view_unmodified(v0: TextView, v1: TextView, name: Option<Seq<char>>)
    requires
        saved_view(v0, v1, name),
    ensures
        !is_modified(v1),
{
    v1.lemma_model();
}

} // verus!
