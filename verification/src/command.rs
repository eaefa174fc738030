//! Editor commands and how key presses map to them.
use vstd::prelude::*;

use crate::prelude::Size;
use crate::text::copy_str;

verus! {

/// A key on the keyboard.
#[derive(Copy, Clone, Eq, PartialEq, Structural, Debug)]
pub enum KeyCode {
    Char(char),
    Tab,
    BackTab,
    Enter,
    Backspace,
    Delete,
    Insert,
    Esc,
    Up,
    Down,
    Left,
    Right,
    PageUp,
    PageDown,
    Home,
    End,
    /// A function key.
    F(u8),
    /// Any other key.
    Other,
}

/// The modifier keys held with a key, as a set of bits.
#[derive(Copy, Clone, Eq, PartialEq, Structural, Debug)]
pub struct KeyModifiers {
    pub bits: u8,
}

pub const SHIFT_BIT: u8 = 1;
pub const CONTROL_BIT: u8 = 2;
pub const ALT_BIT: u8 = 4;

impl KeyModifiers {
    /// No modifier held.
    pub fn none() -> (m: Self)
        ensures
            m.bits == 0,
    {
        KeyModifiers { bits: 0 }
    }

    /// Shift held.
    pub fn shift() -> (m: Self)
        ensures
            m.bits == SHIFT_BIT,
    {
        KeyModifiers { bits: SHIFT_BIT }
    }

    /// Control held.
    pub fn control() -> (m: Self)
        ensures
            m.bits == CONTROL_BIT,
    {
        KeyModifiers { bits: CONTROL_BIT }
    }

    /// Alt held.
    pub fn alt() -> (m: Self)
        ensures
            m.bits == ALT_BIT,
    {
        KeyModifiers { bits: ALT_BIT }
    }
}

/// A key press: a key and the modifiers held with it.
#[derive(Copy, Clone, Eq, PartialEq, Structural, Debug)]
pub struct KeyEvent {
    pub code: KeyCode,
    pub modifiers: KeyModifiers,
}

impl KeyEvent {
    pub fn new(code: KeyCode, modifiers: KeyModifiers) -> (e: Self)
        ensures
            e.code == code,
            e.modifiers == modifiers,
    {
        KeyEvent { code, modifiers }
    }
}

/// Changes to the text.
#[derive(Copy, Clone, Eq, PartialEq, Structural, Debug)]
pub enum Edit {
    Insert(char),
    Replace(char),
    InsertNewline,
    Delete,
    DeleteBackward,
    Undo,
    Redo,
    Complete,
}

/// Caret movements.
#[derive(Copy, Clone, Eq, PartialEq, Structural, Debug)]
pub enum Move {
    HalfPageUp,
    HalfPageDown,
    PageUp,
    PageDown,
    ViewTop,
    ViewBottom,
    ViewCenter,
    StartOfLine,
    FirstNonWhitespace,
    EndOfLine,
    AfterEndOfLine,
    WordForward,
    WordBackward,
    WordEnd,
    BufferStart,
    BufferEnd,
    GoToLine(usize),
    JumpBackward,
    JumpForward,
    Up(usize),
    Left(usize),
    Right(usize),
    Down(usize),
}

/// Commands to the editor itself.
#[derive(Copy, Clone, Eq, PartialEq, Structural, Debug)]
pub enum System {
    Save,
    Resize(Size),
    Quit,
    Dismiss,
    Search,
}

/// Any command.
#[derive(Copy, Clone, Eq, PartialEq, Structural, Debug)]
pub enum Command {
    Move(Move),
    Edit(Edit),
    System(System),
}

/// The edit a key press stands for, if any: a character (alone or with
/// shift) inserts it, tab completes, enter breaks the line, backspace and
/// delete delete.
pub open spec fn edit_of(e: KeyEvent) -> Option<Edit> {
    match e.code {
        KeyCode::Char(c) => if e.modifiers.bits == 0 || e.modifiers.bits == SHIFT_BIT {
            Some(Edit::Insert(c))
        } else {
            None
        },
        KeyCode::Tab => if e.modifiers.bits == 0 { Some(Edit::Complete) } else { None },
        KeyCode::Enter => if e.modifiers.bits == 0 { Some(Edit::InsertNewline) } else { None },
        KeyCode::Backspace => if e.modifiers.bits == 0 {
            Some(Edit::DeleteBackward)
        } else {
            None
        },
        KeyCode::Delete => if e.modifiers.bits == 0 { Some(Edit::Delete) } else { None },
        _ => None,
    }
}

/// The movement an unmodified key press stands for, if any.
pub open spec fn move_of(e: KeyEvent) -> Option<Move> {
    if e.modifiers.bits == 0 {
        match e.code {
            KeyCode::Up => Some(Move::Up(1)),
            KeyCode::Down => Some(Move::Down(1)),
            KeyCode::Left => Some(Move::Left(1)),
            KeyCode::Right => Some(Move::Right(1)),
            KeyCode::PageDown => Some(Move::PageDown),
            KeyCode::PageUp => Some(Move::PageUp),
            KeyCode::Home => Some(Move::StartOfLine),
            KeyCode::End => Some(Move::EndOfLine),
            _ => None,
        }
    } else {
        None
    }
}

/// The system command a key press stands for, if any: escape dismisses.
pub open spec fn system_of(e: KeyEvent) -> Option<System> {
    if e.modifiers.bits == 0 && e.code == KeyCode::Esc {
        Some(System::Dismiss)
    } else {
        None
    }
}

/// The command a key press stands for: an edit, else a movement, else a
/// system command.
pub open spec fn command_of(e: KeyEvent) -> Option<Command> {
    match edit_of(e) {
        Some(x) => Some(Command::Edit(x)),
        None => match move_of(e) {
            Some(m) => Some(Command::Move(m)),
            None => match system_of(e) {
                Some(s) => Some(Command::System(s)),
                None => None,
            },
        },
    }
}

/// A key with code `code` and modifier bits `bits`.
pub open spec fn key_with(code: KeyCode, bits: u8) -> KeyEvent {
    KeyEvent { code, modifiers: KeyModifiers { bits } }
}

/// What keys mean where text is typed: any character, alone or with shift,
/// inserts itself, and with control or alt means nothing; tab completes,
/// enter breaks the line, backspace deletes backward, delete deletes; the
/// arrows move one step, page up and down move by a page, home and end go
/// to the line's start and end; escape dismisses.
pub proof fn lemma_key_commands()
    ensures
        forall|c: char| command_of(#[trigger] key_with(KeyCode::Char(c), 0)) == Some(Command::Edit(Edit::Insert(c))),
        forall|c: char| command_of(#[trigger] key_with(KeyCode::Char(c), SHIFT_BIT)) == Some(
            Command::Edit(Edit::Insert(c)),
        ),
        forall|c: char| command_of(#[trigger] key_with(KeyCode::Char(c), CONTROL_BIT)) is None,
        forall|c: char| command_of(#[trigger] key_with(KeyCode::Char(c), ALT_BIT)) is None,
        command_of(key_with(KeyCode::Tab, 0)) == Some(Command::Edit(Edit::Complete)),
        command_of(key_with(KeyCode::Enter, 0)) == Some(Command::Edit(Edit::InsertNewline)),
        command_of(key_with(KeyCode::Backspace, 0)) == Some(Command::Edit(Edit::DeleteBackward)),
        command_of(key_with(KeyCode::Delete, 0)) == Some(Command::Edit(Edit::Delete)),
        command_of(key_with(KeyCode::Up, 0)) == Some(Command::Move(Move::Up(1))),
        command_of(key_with(KeyCode::Down, 0)) == Some(Command::Move(Move::Down(1))),
        command_of(key_with(KeyCode::Left, 0)) == Some(Command::Move(Move::Left(1))),
        command_of(key_with(KeyCode::Right, 0)) == Some(Command::Move(Move::Right(1))),
        command_of(key_with(KeyCode::PageUp, 0)) == Some(Command::Move(Move::PageUp)),
        command_of(key_with(KeyCode::PageDown, 0)) == Some(Command::Move(Move::PageDown)),
        command_of(key_with(KeyCode::Home, 0)) == Some(Command::Move(Move::StartOfLine)),
        command_of(key_with(KeyCode::End, 0)) == Some(Command::Move(Move::EndOfLine)),
        command_of(key_with(KeyCode::Esc, 0)) == Some(Command::System(System::Dismiss)),
{
}

fn unsupported(what: &str) -> (s: String)
    ensures
        s@ == what@,
{
    copy_str(what)
}

impl Edit {
    /// The edit a key press stands for, or an error for other keys.
    pub fn try_from(event: KeyEvent) -> (r: Result<Self, String>)
        ensures
            match edit_of(event) {
                Some(x) => r == Ok::<Self, String>(x),
                None => r is Err,
            },
    {
        let none = event.modifiers.bits == 0;
        match event.code {
            KeyCode::Char(character) => if none || event.modifiers.bits == SHIFT_BIT {
                return Ok(Edit::Insert(character));
            },
            KeyCode::Tab => if none {
                return Ok(Edit::Complete);
            },
            KeyCode::Enter => if none {
                return Ok(Edit::InsertNewline);
            },
            KeyCode::Backspace => if none {
                return Ok(Edit::DeleteBackward);
            },
            KeyCode::Delete => if none {
                return Ok(Edit::Delete);
            },
            _ => {},
        }
        Err(unsupported("Unsupported key code or modifiers for an edit"))
    }
}

impl Move {
    /// The movement a key press stands for, or an error for other keys.
    pub fn try_from(event: KeyEvent) -> (r: Result<Self, String>)
        ensures
            match move_of(event) {
                Some(x) => r == Ok::<Self, String>(x),
                None => r is Err,
            },
    {
        if event.modifiers.bits == 0 {
            match event.code {
                KeyCode::Up => Ok(Move::Up(1)),
                KeyCode::Down => Ok(Move::Down(1)),
                KeyCode::Left => Ok(Move::Left(1)),
                KeyCode::Right => Ok(Move::Right(1)),
                KeyCode::PageDown => Ok(Move::PageDown),
                KeyCode::PageUp => Ok(Move::PageUp),
                KeyCode::Home => Ok(Move::StartOfLine),
                KeyCode::End => Ok(Move::EndOfLine),
                _ => Err(unsupported("Unsupported code")),
            }
        } else {
            Err(unsupported("Unsupported key code or modifier"))
        }
    }
}

impl System {
    /// The system command a key press stands for, or an error for other keys.
    pub fn try_from(event: KeyEvent) -> (r: Result<Self, String>)
        ensures
            match system_of(event) {
                Some(x) => r == Ok::<Self, String>(x),
                None => r is Err,
            },
    {
        if event.modifiers.bits == 0 && event.code == KeyCode::Esc {
            Ok(System::Dismiss)
        } else {
            Err(unsupported("Unsupported key code or modifier"))
        }
    }
}

impl Command {
    /// The command a key press stands for, or an error for other keys.
    pub fn try_from(key_event: KeyEvent) -> (r: Result<Self, String>)
        ensures
            match command_of(key_event) {
                Some(x) => r == Ok::<Self, String>(x),
                None => r is Err,
            },
    {
        match Edit::try_from(key_event) {
            Ok(edit) => Ok(Command::Edit(edit)),
            Err(_) => match Move::try_from(key_event) {
                Ok(m) => Ok(Command::Move(m)),
                Err(_) => match System::try_from(key_event) {
                    Ok(s) => Ok(Command::System(s)),
                    Err(_) => Err(unsupported("Key event not supported")),
                },
            },
        }
    }
}

} // verus!
