//! What a sequence of keys typed in normal or visual mode means.
use vstd::prelude::*;

use crate::command::{Edit, KeyCode, KeyEvent, KeyModifiers, Move, CONTROL_BIT, SHIFT_BIT};

verus! {

/// What a complete key sequence asks the editor to do.
#[derive(Copy, Clone, Eq, PartialEq, Structural, Debug)]
pub enum NormalAction {
    Move(Move),
    Edit(Edit),
    EnterInsert,
    EnterReplace,
    Append,
    OpenBelow,
    OpenAbove,
    CommandPrompt,
    SearchPrompt,
    Yank,
    ToggleVisual,
    SelectLineDown,
    SelectLineUp,
    DeleteSelection,
    Paste,
    PasteBackward,
    SelectAll,
    JoinLines,
    Escape,
    GotoDefinition,
    SystemYank,
    SystemPaste,
    SystemPasteBackward,
    SystemDelete,
    Hover,
    Nothing,
}

/// The outcome of the keys typed so far.
#[derive(Copy, Clone, Eq, PartialEq, Structural, Debug)]
pub enum KeyOutcome {
    /// The sequence is not complete yet.
    Wait,
    /// A digit extends the count, which becomes the given one.
    SetCount(usize),
    /// The sequence is complete: do this; the count is used up.
    Run(NormalAction),
    /// The sequence is dropped (cancelled with escape, or not one of one or
    /// two keys); the count is kept.
    Cancel,
}

pub open spec fn no_mods(e: KeyEvent) -> bool {
    e.modifiers.bits == 0
}

pub open spec fn shift_or_none(e: KeyEvent) -> bool {
    e.modifiers.bits == 0 || e.modifiers.bits == SHIFT_BIT
}

pub open spec fn control(e: KeyEvent) -> bool {
    e.modifiers.bits == CONTROL_BIT
}

pub open spec fn is_char(e: KeyEvent, c: char) -> bool {
    e.code == KeyCode::Char(c)
}

pub open spec fn digit_value(c: char) -> Option<usize> {
    if '0' <= c && c <= '9' {
        Some((c as u32 - '0' as u32) as usize)
    } else {
        None
    }
}

/// `count * 10 + d`, saturating.
pub open spec fn extended_count(count: Option<usize>, d: usize) -> usize {
    let c = match count {
        Some(c) => c as nat,
        None => 0,
    };
    let x = c * 10 + d;
    if x <= usize::MAX {
        x as usize
    } else {
        usize::MAX
    }
}

/// What a single key does (with the count typed before it).
pub open spec fn one_key_outcome(k: KeyEvent, count: Option<usize>) -> KeyOutcome {
    let n = match count {
        Some(c) => c,
        None => 1,
    };
    let digit = match k.code {
        KeyCode::Char(c) => digit_value(c),
        _ => None,
    };
    if no_mods(k) && digit is Some {
        KeyOutcome::SetCount(extended_count(count, digit->0))
    } else if is_char(k, 'g') && no_mods(k) {
        match count {
            Some(c) => KeyOutcome::Run(NormalAction::Move(Move::GoToLine(c))),
            None => KeyOutcome::Wait,
        }
    } else if (is_char(k, ' ') || is_char(k, 'r')) && no_mods(k) {
        KeyOutcome::Wait
    } else {
        KeyOutcome::Run(
            if no_mods(k) && is_char(k, 'i') {
                NormalAction::EnterInsert
            } else if shift_or_none(k) && is_char(k, 'R') {
                NormalAction::EnterReplace
            } else if no_mods(k) && is_char(k, 'a') {
                NormalAction::Append
            } else if no_mods(k) && is_char(k, 'o') {
                NormalAction::OpenBelow
            } else if shift_or_none(k) && is_char(k, 'O') {
                NormalAction::OpenAbove
            } else if no_mods(k) && is_char(k, ':') {
                NormalAction::CommandPrompt
            } else if no_mods(k) && is_char(k, '/') {
                NormalAction::SearchPrompt
            } else if no_mods(k) && is_char(k, 'h') {
                NormalAction::Move(Move::Left(n))
            } else if no_mods(k) && is_char(k, 'j') {
                NormalAction::Move(Move::Down(n))
            } else if no_mods(k) && is_char(k, 'k') {
                NormalAction::Move(Move::Up(n))
            } else if no_mods(k) && is_char(k, 'l') {
                NormalAction::Move(Move::Right(n))
            } else if no_mods(k) && is_char(k, 'y') {
                NormalAction::Yank
            } else if no_mods(k) && is_char(k, 'v') {
                NormalAction::ToggleVisual
            } else if no_mods(k) && is_char(k, 'x') {
                NormalAction::SelectLineDown
            } else if shift_or_none(k) && is_char(k, 'X') {
                NormalAction::SelectLineUp
            } else if no_mods(k) && is_char(k, 'd') {
                NormalAction::DeleteSelection
            } else if no_mods(k) && is_char(k, 'p') {
                NormalAction::Paste
            } else if shift_or_none(k) && is_char(k, 'P') {
                NormalAction::PasteBackward
            } else if shift_or_none(k) && is_char(k, '%') {
                NormalAction::SelectAll
            } else if shift_or_none(k) && is_char(k, 'J') {
                NormalAction::JoinLines
            } else if no_mods(k) && is_char(k, 'u') {
                NormalAction::Edit(Edit::Undo)
            } else if shift_or_none(k) && is_char(k, 'U') {
                NormalAction::Edit(Edit::Redo)
            } else if control(k) && is_char(k, 'u') {
                NormalAction::Move(Move::HalfPageUp)
            } else if control(k) && is_char(k, 'd') {
                NormalAction::Move(Move::HalfPageDown)
            } else if control(k) && is_char(k, 'o') {
                NormalAction::Move(Move::JumpBackward)
            } else if control(k) && is_char(k, 'i') {
                NormalAction::Move(Move::JumpForward)
            } else if no_mods(k) && k.code == KeyCode::Esc {
                NormalAction::Escape
            } else {
                NormalAction::Nothing
            },
        )
    }
}

/// What a second key does after `g`.
pub open spec fn g_outcome(k: KeyEvent, count: Option<usize>) -> NormalAction {
    if !no_mods(k) {
        NormalAction::Nothing
    } else if is_char(k, 'g') {
        match count {
            Some(c) => NormalAction::Move(Move::GoToLine(c)),
            None => NormalAction::Move(Move::BufferStart),
        }
    } else if is_char(k, 'd') {
        NormalAction::GotoDefinition
    } else if is_char(k, 'e') {
        NormalAction::Move(Move::BufferEnd)
    } else if is_char(k, 'h') {
        NormalAction::Move(Move::StartOfLine)
    } else if is_char(k, 'l') {
        NormalAction::Move(Move::EndOfLine)
    } else if is_char(k, 's') {
        NormalAction::Move(Move::FirstNonWhitespace)
    } else if is_char(k, 't') {
        NormalAction::Move(Move::ViewTop)
    } else if is_char(k, 'b') {
        NormalAction::Move(Move::ViewBottom)
    } else if is_char(k, 'c') {
        NormalAction::Move(Move::ViewCenter)
    } else {
        NormalAction::Nothing
    }
}

/// What a second key does after the space key.
pub open spec fn space_outcome(k: KeyEvent) -> NormalAction {
    if no_mods(k) && is_char(k, 'y') {
        NormalAction::SystemYank
    } else if no_mods(k) && is_char(k, 'p') {
        NormalAction::SystemPaste
    } else if shift_or_none(k) && is_char(k, 'P') {
        NormalAction::SystemPasteBackward
    } else if no_mods(k) && is_char(k, 'd') {
        NormalAction::SystemDelete
    } else if no_mods(k) && is_char(k, 'k') {
        NormalAction::Hover
    } else {
        NormalAction::Nothing
    }
}

/// What a key sequence typed in normal or visual mode does.
pub open spec fn key_outcome(keys: Seq<KeyEvent>, count: Option<usize>) -> KeyOutcome {
    if keys.len() == 1 {
        one_key_outcome(keys[0], count)
    } else if keys.len() == 2 {
        let (a, b) = (keys[0], keys[1]);
        if b.code == KeyCode::Esc {
            KeyOutcome::Cancel
        } else if is_char(a, 'r') && no_mods(a) {
            KeyOutcome::Run(
                match b.code {
                    KeyCode::Char(c) => NormalAction::Edit(Edit::Replace(c)),
                    _ => NormalAction::Nothing,
                },
            )
        } else if is_char(a, 'g') && no_mods(a) {
            KeyOutcome::Run(g_outcome(b, count))
        } else if is_char(a, ' ') && no_mods(a) {
            KeyOutcome::Run(space_outcome(b))
        } else {
            KeyOutcome::Run(NormalAction::Nothing)
        }
    } else {
        KeyOutcome::Cancel
    }
}

fn has_no_mods(k: KeyEvent) -> (r: bool)
    ensures
        r == no_mods(k),
{
    k.modifiers.bits == 0
}

fn has_shift_or_none(k: KeyEvent) -> (r: bool)
    ensures
        r == shift_or_none(k),
{
    k.modifiers.bits == 0 || k.modifiers.bits == SHIFT_BIT
}

fn has_control(k: KeyEvent) -> (r: bool)
    ensures
        r == control(k),
{
    k.modifiers.bits == CONTROL_BIT
}

fn is_key_char(k: KeyEvent, c: char) -> (r: bool)
    ensures
        r == is_char(k, c),
{
    match k.code {
        KeyCode::Char(x) => x == c,
        _ => false,
    }
}

fn one_key(k: KeyEvent, count: Option<usize>) -> (r: KeyOutcome)
    ensures
        r == one_key_outcome(k, count),
{
    let n = match count {
        Some(c) => c,
        None => 1,
    };
    let none = has_no_mods(k);
    if let KeyCode::Char(c) = k.code {
        if none && '0' <= c && c <= '9' {
            let d = (c as u32 - '0' as u32) as usize;
            let base = match count {
                Some(x) => x,
                None => 0,
            };
            let x = if base <= (usize::MAX - d) / 10 { base * 10 + d } else { usize::MAX };
            proof {
                if base <= (usize::MAX - d) / 10 {
                    assert(base * 10 + d <= usize::MAX) by (nonlinear_arith)
                        requires
                            base <= (usize::MAX - d) / 10,
                            d <= 9,
                    ;
                } else {
                    assert(base * 10 + d > usize::MAX) by (nonlinear_arith)
                        requires
                            base > (usize::MAX - d) / 10,
                            d <= 9,
                    ;
                }
            }
            return KeyOutcome::SetCount(x);
        }
    }
    if is_key_char(k, 'g') && none {
        return match count {
            Some(c) => KeyOutcome::Run(NormalAction::Move(Move::GoToLine(c))),
            None => KeyOutcome::Wait,
        };
    }
    if (is_key_char(k, ' ') || is_key_char(k, 'r')) && none {
        return KeyOutcome::Wait;
    }
    let so = has_shift_or_none(k);
    let ctl = has_control(k);
    let action = if none && is_key_char(k, 'i') {
        NormalAction::EnterInsert
    } else if so && is_key_char(k, 'R') {
        NormalAction::EnterReplace
    } else if none && is_key_char(k, 'a') {
        NormalAction::Append
    } else if none && is_key_char(k, 'o') {
        NormalAction::OpenBelow
    } else if so && is_key_char(k, 'O') {
        NormalAction::OpenAbove
    } else if none && is_key_char(k, ':') {
        NormalAction::CommandPrompt
    } else if none && is_key_char(k, '/') {
        NormalAction::SearchPrompt
    } else if none && is_key_char(k, 'h') {
        NormalAction::Move(Move::Left(n))
    } else if none && is_key_char(k, 'j') {
        NormalAction::Move(Move::Down(n))
    } else if none && is_key_char(k, 'k') {
        NormalAction::Move(Move::Up(n))
    } else if none && is_key_char(k, 'l') {
        NormalAction::Move(Move::Right(n))
    } else if none && is_key_char(k, 'y') {
        NormalAction::Yank
    } else if none && is_key_char(k, 'v') {
        NormalAction::ToggleVisual
    } else if none && is_key_char(k, 'x') {
        NormalAction::SelectLineDown
    } else if so && is_key_char(k, 'X') {
        NormalAction::SelectLineUp
    } else if none && is_key_char(k, 'd') {
        NormalAction::DeleteSelection
    } else if none && is_key_char(k, 'p') {
        NormalAction::Paste
    } else if so && is_key_char(k, 'P') {
        NormalAction::PasteBackward
    } else if so && is_key_char(k, '%') {
        NormalAction::SelectAll
    } else if so && is_key_char(k, 'J') {
        NormalAction::JoinLines
    } else if none && is_key_char(k, 'u') {
        NormalAction::Edit(Edit::Undo)
    } else if so && is_key_char(k, 'U') {
        NormalAction::Edit(Edit::Redo)
    } else if ctl && is_key_char(k, 'u') {
        NormalAction::Move(Move::HalfPageUp)
    } else if ctl && is_key_char(k, 'd') {
        NormalAction::Move(Move::HalfPageDown)
    } else if ctl && is_key_char(k, 'o') {
        NormalAction::Move(Move::JumpBackward)
    } else if ctl && is_key_char(k, 'i') {
        NormalAction::Move(Move::JumpForward)
    } else if none && k.code == KeyCode::Esc {
        NormalAction::Escape
    } else {
        NormalAction::Nothing
    };
    KeyOutcome::Run(action)
}

fn after_g(k: KeyEvent, count: Option<usize>) -> (r: NormalAction)
    ensures
        r == g_outcome(k, count),
{
    if !has_no_mods(k) {
        NormalAction::Nothing
    } else if is_key_char(k, 'g') {
        match count {
            Some(c) => NormalAction::Move(Move::GoToLine(c)),
            None => NormalAction::Move(Move::BufferStart),
        }
    } else if is_key_char(k, 'd') {
        NormalAction::GotoDefinition
    } else if is_key_char(k, 'e') {
        NormalAction::Move(Move::BufferEnd)
    } else if is_key_char(k, 'h') {
        NormalAction::Move(Move::StartOfLine)
    } else if is_key_char(k, 'l') {
        NormalAction::Move(Move::EndOfLine)
    } else if is_key_char(k, 's') {
        NormalAction::Move(Move::FirstNonWhitespace)
    } else if is_key_char(k, 't') {
        NormalAction::Move(Move::ViewTop)
    } else if is_key_char(k, 'b') {
        NormalAction::Move(Move::ViewBottom)
    } else if is_key_char(k, 'c') {
        NormalAction::Move(Move::ViewCenter)
    } else {
        NormalAction::Nothing
    }
}

fn after_space(k: KeyEvent) -> (r: NormalAction)
    ensures
        r == space_outcome(k),
{
    if has_no_mods(k) && is_key_char(k, 'y') {
        NormalAction::SystemYank
    } else if has_no_mods(k) && is_key_char(k, 'p') {
        NormalAction::SystemPaste
    } else if has_shift_or_none(k) && is_key_char(k, 'P') {
        NormalAction::SystemPasteBackward
    } else if has_no_mods(k) && is_key_char(k, 'd') {
        NormalAction::SystemDelete
    } else if has_no_mods(k) && is_key_char(k, 'k') {
        NormalAction::Hover
    } else {
        NormalAction::Nothing
    }
}

/// What the keys typed so far in normal or visual mode do.
pub fn decide_keys(keys: &Vec<KeyEvent>, count: Option<usize>) -> (r: KeyOutcome)
    ensures
        r == key_outcome(keys@, count),
{
    if keys.len() == 1 {
        one_key(keys[0], count)
    } else if keys.len() == 2 {
        let a = keys[0];
        let b = keys[1];
        if b.code == KeyCode::Esc {
            KeyOutcome::Cancel
        } else if is_key_char(a, 'r') && has_no_mods(a) {
            KeyOutcome::Run(
                match b.code {
                    KeyCode::Char(c) => NormalAction::Edit(Edit::Replace(c)),
                    _ => NormalAction::Nothing,
                },
            )
        } else if is_key_char(a, 'g') && has_no_mods(a) {
            KeyOutcome::Run(after_g(b, count))
        } else if is_key_char(a, ' ') && has_no_mods(a) {
            KeyOutcome::Run(after_space(b))
        } else {
            KeyOutcome::Run(NormalAction::Nothing)
        }
    } else {
        KeyOutcome::Cancel
    }
}

/// How a pending key shows in the status line: space as `<space>`, other
/// characters as themselves, other keys not at all.
pub open spec fn key_text(k: KeyEvent) -> Seq<char> {
    match k.code {
        KeyCode::Char(c) => if c == ' ' { "<space>"@ } else { seq![c] },
        _ => Seq::empty(),
    }
}

/// How a pending key shows in the status line.
pub fn key_event_to_string(key: KeyEvent) -> (s: String)
    ensures
        s@ == key_text(key),
{
    match key.code {
        KeyCode::Char(c) => {
            if c == ' ' {
                crate::text::copy_str("<space>")
            } else {
                let mut s = String::new();
                crate::text::push_char(&mut s, c);
                assert(s@ =~= seq![c]);
                s
            }
        },
        _ => String::new(),
    }
}

/// A key with the character `c` and the modifier bits `bits`.
pub open spec fn pressed(c: char, bits: u8) -> KeyEvent {
    KeyEvent { code: KeyCode::Char(c), modifiers: KeyModifiers { bits } }
}

/// How many times a motion repeats: the count typed, or once.
pub open spec fn times(count: Option<usize>) -> usize {
    match count {
        Some(c) => c,
        None => 1,
    }
}

/// The keys of normal mode and what they do, whatever count was typed
/// before them: `h`, `j`, `k`, `l` move left, down, up and right that many
/// times; Ctrl-u and Ctrl-d move half a page up and down; Ctrl-o and Ctrl-i
/// go back and forth in the jump list; `g` followed by `g`, `e`, `h`, `l`,
/// `s`, `t`, `b`, `c`, `d` go to the start (or the counted line), the end,
/// the line start and end, the first non-blank, the view top, bottom and
/// center, and the definition; `i`, `a`, `o`, `O`, `R` enter insert
/// (before, after, on a new line below or above) and replace mode; `r`
/// then a character replaces with it; `u` and `U` undo and redo; `y`, `p`,
/// `P`, `d` yank, paste after and before, and delete; the space key before
/// `y`, `p`, `P`, `d`, `k` uses the system clipboard or shows the hover;
/// `v`, `x`, `X`, `%` select; `J` joins lines; `:` and `/` open the
/// prompts; escape escapes; a digit extends the count.
pub proof fn lemma_key_table(count: Option<usize>)
    ensures
        (key_outcome(seq![pressed('i', 0)], count) == KeyOutcome::Run(NormalAction::EnterInsert)),
        (key_outcome(seq![pressed('a', 0)], count) == KeyOutcome::Run(NormalAction::Append)),
        (key_outcome(seq![pressed('o', 0)], count) == KeyOutcome::Run(NormalAction::OpenBelow)),
        (key_outcome(seq![pressed(':', 0)], count) == KeyOutcome::Run(NormalAction::CommandPrompt)),
        (key_outcome(seq![pressed('/', 0)], count) == KeyOutcome::Run(NormalAction::SearchPrompt)),
        (key_outcome(seq![pressed('y', 0)], count) == KeyOutcome::Run(NormalAction::Yank)),
        (key_outcome(seq![pressed('v', 0)], count) == KeyOutcome::Run(NormalAction::ToggleVisual)),
        (key_outcome(seq![pressed('x', 0)], count) == KeyOutcome::Run(NormalAction::SelectLineDown)),
        (key_outcome(seq![pressed('d', 0)], count) == KeyOutcome::Run(NormalAction::DeleteSelection)),
        (key_outcome(seq![pressed('p', 0)], count) == KeyOutcome::Run(NormalAction::Paste)),
        (key_outcome(seq![pressed('u', 0)], count) == KeyOutcome::Run(NormalAction::Edit(Edit::Undo))),
        (key_outcome(seq![pressed('R', 0)], count) == KeyOutcome::Run(NormalAction::EnterReplace)),
        (key_outcome(seq![pressed('R', SHIFT_BIT)], count) == KeyOutcome::Run(NormalAction::EnterReplace)),
        (key_outcome(seq![pressed('O', 0)], count) == KeyOutcome::Run(NormalAction::OpenAbove)),
        (key_outcome(seq![pressed('O', SHIFT_BIT)], count) == KeyOutcome::Run(NormalAction::OpenAbove)),
        (key_outcome(seq![pressed('X', 0)], count) == KeyOutcome::Run(NormalAction::SelectLineUp)),
        (key_outcome(seq![pressed('X', SHIFT_BIT)], count) == KeyOutcome::Run(NormalAction::SelectLineUp)),
        (key_outcome(seq![pressed('P', 0)], count) == KeyOutcome::Run(NormalAction::PasteBackward)),
        (key_outcome(seq![pressed('P', SHIFT_BIT)], count) == KeyOutcome::Run(NormalAction::PasteBackward)),
        (key_outcome(seq![pressed('%', 0)], count) == KeyOutcome::Run(NormalAction::SelectAll)),
        (key_outcome(seq![pressed('%', SHIFT_BIT)], count) == KeyOutcome::Run(NormalAction::SelectAll)),
        (key_outcome(seq![pressed('J', 0)], count) == KeyOutcome::Run(NormalAction::JoinLines)),
        (key_outcome(seq![pressed('J', SHIFT_BIT)], count) == KeyOutcome::Run(NormalAction::JoinLines)),
        (key_outcome(seq![pressed('U', 0)], count) == KeyOutcome::Run(NormalAction::Edit(Edit::Redo))),
        (key_outcome(seq![pressed('U', SHIFT_BIT)], count) == KeyOutcome::Run(NormalAction::Edit(Edit::Redo))),
        (key_outcome(seq![pressed('h', 0)], count) == KeyOutcome::Run(NormalAction::Move(Move::Left(times(count))))),
        (key_outcome(seq![pressed('j', 0)], count) == KeyOutcome::Run(NormalAction::Move(Move::Down(times(count))))),
        (key_outcome(seq![pressed('k', 0)], count) == KeyOutcome::Run(NormalAction::Move(Move::Up(times(count))))),
        (key_outcome(seq![pressed('l', 0)], count) == KeyOutcome::Run(NormalAction::Move(Move::Right(times(count))))),
        (key_outcome(seq![pressed('u', CONTROL_BIT)], count) == KeyOutcome::Run(NormalAction::Move(Move::HalfPageUp))),
        (key_outcome(seq![pressed('d', CONTROL_BIT)], count) == KeyOutcome::Run(NormalAction::Move(Move::HalfPageDown))),
        (key_outcome(seq![pressed('o', CONTROL_BIT)], count) == KeyOutcome::Run(NormalAction::Move(Move::JumpBackward))),
        (key_outcome(seq![pressed('i', CONTROL_BIT)], count) == KeyOutcome::Run(NormalAction::Move(Move::JumpForward))),
        (key_outcome(seq![pressed('g', 0), pressed('e', 0)], count) == KeyOutcome::Run(NormalAction::Move(Move::BufferEnd))),
        (key_outcome(seq![pressed('g', 0), pressed('h', 0)], count) == KeyOutcome::Run(NormalAction::Move(Move::StartOfLine))),
        (key_outcome(seq![pressed('g', 0), pressed('l', 0)], count) == KeyOutcome::Run(NormalAction::Move(Move::EndOfLine))),
        (key_outcome(seq![pressed('g', 0), pressed('s', 0)], count) == KeyOutcome::Run(NormalAction::Move(Move::FirstNonWhitespace))),
        (key_outcome(seq![pressed('g', 0), pressed('t', 0)], count) == KeyOutcome::Run(NormalAction::Move(Move::ViewTop))),
        (key_outcome(seq![pressed('g', 0), pressed('b', 0)], count) == KeyOutcome::Run(NormalAction::Move(Move::ViewBottom))),
        (key_outcome(seq![pressed('g', 0), pressed('c', 0)], count) == KeyOutcome::Run(NormalAction::Move(Move::ViewCenter))),
        (key_outcome(seq![pressed('g', 0), pressed('d', 0)], count) == KeyOutcome::Run(NormalAction::GotoDefinition)),
        (key_outcome(seq![pressed(' ', 0), pressed('y', 0)], count) == KeyOutcome::Run(NormalAction::SystemYank)),
        (key_outcome(seq![pressed(' ', 0), pressed('p', 0)], count) == KeyOutcome::Run(NormalAction::SystemPaste)),
        (key_outcome(seq![pressed(' ', 0), pressed('P', SHIFT_BIT)], count) == KeyOutcome::Run(NormalAction::SystemPasteBackward)),
        (key_outcome(seq![pressed(' ', 0), pressed('d', 0)], count) == KeyOutcome::Run(NormalAction::SystemDelete)),
        (key_outcome(seq![pressed(' ', 0), pressed('k', 0)], count) == KeyOutcome::Run(NormalAction::Hover)),
        (key_outcome(seq![KeyEvent { code: KeyCode::Esc, modifiers: KeyModifiers { bits: 0 } }], count) == KeyOutcome::Run(NormalAction::Escape)),
        (key_outcome(seq![pressed('g', 0), pressed('g', 0)], count) == KeyOutcome::Run(NormalAction::Move(match count { Some(c) => Move::GoToLine(c), None => Move::BufferStart }))),
        (key_outcome(seq![pressed('g', 0)], count) == match count { Some(c) => KeyOutcome::Run(NormalAction::Move(Move::GoToLine(c))), None => KeyOutcome::Wait }),
        (key_outcome(seq![pressed('r', 0)], count) == KeyOutcome::Wait),
        (key_outcome(seq![pressed(' ', 0)], count) == KeyOutcome::Wait),
        (forall|c: char| c != '\u{1b}' ==> key_outcome(seq![pressed('r', 0), #[trigger] pressed(c, 0)], count) == KeyOutcome::Run(NormalAction::Edit(Edit::Replace(c)))),
        (forall|c: char| '0' <= c <= '9' ==> key_outcome(seq![#[trigger] pressed(c, 0)], count) == KeyOutcome::SetCount(extended_count(count, (c as u32 - '0' as u32) as usize))),
{
}

} // verus!
