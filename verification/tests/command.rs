use editor_core::command::{Command, Edit, KeyCode, KeyEvent, KeyModifiers, Move, System};

#[test]
fn test_parse_char() {
    let event = KeyEvent::new(KeyCode::Char('a'), KeyModifiers::none());
    let edit = Edit::try_from(event).unwrap();
    if let Edit::Insert(c) = edit {
        assert_eq!(c, 'a');
    } else {
        panic!("Expected Insert");
    }
}

#[test]
fn test_parse_backspace() {
    let event = KeyEvent::new(KeyCode::Backspace, KeyModifiers::none());
    let edit = Edit::try_from(event).unwrap();
    assert!(matches!(edit, Edit::DeleteBackward));
}

#[test]
fn test_parse_unsupported() {
    let event = KeyEvent::new(KeyCode::Char('a'), KeyModifiers::control());
    assert!(Edit::try_from(event).is_err());
}

#[test]
fn test_parse_arrows() {
    let event = KeyEvent::new(KeyCode::Up, KeyModifiers::none());
    let mv = Move::try_from(event).unwrap();
    assert!(matches!(mv, Move::Up(_)));

    let event = KeyEvent::new(KeyCode::Down, KeyModifiers::none());
    let mv = Move::try_from(event).unwrap();
    assert!(matches!(mv, Move::Down(_)));
}

#[test]
fn test_parse_home_end() {
    let event = KeyEvent::new(KeyCode::Home, KeyModifiers::none());
    let mv = Move::try_from(event).unwrap();
    assert!(matches!(mv, Move::StartOfLine));

    let event = KeyEvent::new(KeyCode::End, KeyModifiers::none());
    let mv = Move::try_from(event).unwrap();
    assert!(matches!(mv, Move::EndOfLine));
}

#[test]
fn escape_dismisses_and_shifted_characters_insert() {
    let esc = KeyEvent::new(KeyCode::Esc, KeyModifiers::none());
    assert!(matches!(Command::try_from(esc), Ok(Command::System(System::Dismiss))));
    let upper = KeyEvent::new(KeyCode::Char('A'), KeyModifiers::shift());
    assert!(matches!(Command::try_from(upper), Ok(Command::Edit(Edit::Insert('A')))));
    let enter = KeyEvent::new(KeyCode::Enter, KeyModifiers::none());
    assert!(matches!(Command::try_from(enter), Ok(Command::Edit(Edit::InsertNewline))));
    let alt = KeyEvent::new(KeyCode::Char('x'), KeyModifiers::alt());
    assert!(Command::try_from(alt).is_err());
}
