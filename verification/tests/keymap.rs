use editor_core::command::{Edit, KeyCode, KeyEvent, KeyModifiers, Move};
use editor_core::keymap::{decide_keys, key_event_to_string, KeyOutcome, NormalAction};

fn k(c: char) -> KeyEvent {
    KeyEvent::new(KeyCode::Char(c), KeyModifiers::none())
}

#[test]
fn digits_build_a_count() {
    assert_eq!(decide_keys(&vec![k('2')], None), KeyOutcome::SetCount(2));
    assert_eq!(decide_keys(&vec![k('5')], Some(2)), KeyOutcome::SetCount(25));
    assert_eq!(decide_keys(&vec![k('9')], Some(usize::MAX)), KeyOutcome::SetCount(usize::MAX));
}

#[test]
fn a_count_applies_to_moves() {
    assert_eq!(decide_keys(&vec![k('j')], Some(3)), KeyOutcome::Run(NormalAction::Move(Move::Down(3))));
    assert_eq!(decide_keys(&vec![k('h')], None), KeyOutcome::Run(NormalAction::Move(Move::Left(1))));
}

#[test]
fn prefix_keys_wait_for_the_next_one() {
    assert_eq!(decide_keys(&vec![k('g')], None), KeyOutcome::Wait);
    assert_eq!(decide_keys(&vec![k(' ')], None), KeyOutcome::Wait);
    assert_eq!(decide_keys(&vec![k('r')], None), KeyOutcome::Wait);
    assert_eq!(decide_keys(&vec![k('g')], Some(4)), KeyOutcome::Run(NormalAction::Move(Move::GoToLine(4))));
}

#[test]
fn two_key_sequences() {
    assert_eq!(decide_keys(&vec![k('g'), k('g')], None), KeyOutcome::Run(NormalAction::Move(Move::BufferStart)));
    assert_eq!(decide_keys(&vec![k('g'), k('g')], Some(7)), KeyOutcome::Run(NormalAction::Move(Move::GoToLine(7))));
    assert_eq!(decide_keys(&vec![k('g'), k('d')], None), KeyOutcome::Run(NormalAction::GotoDefinition));
    assert_eq!(decide_keys(&vec![k('r'), k('x')], None), KeyOutcome::Run(NormalAction::Edit(Edit::Replace('x'))));
    assert_eq!(decide_keys(&vec![k(' '), k('k')], None), KeyOutcome::Run(NormalAction::Hover));
    assert_eq!(decide_keys(&vec![k('z'), k('z')], None), KeyOutcome::Run(NormalAction::Nothing));
}

#[test]
fn escape_as_second_key_cancels() {
    let esc = KeyEvent::new(KeyCode::Esc, KeyModifiers::none());
    assert_eq!(decide_keys(&vec![k('g'), esc], Some(3)), KeyOutcome::Cancel);
    assert_eq!(decide_keys(&vec![], None), KeyOutcome::Cancel);
}

#[test]
fn control_keys() {
    let c = |ch| KeyEvent::new(KeyCode::Char(ch), KeyModifiers::control());
    assert_eq!(decide_keys(&vec![c('o')], None), KeyOutcome::Run(NormalAction::Move(Move::JumpBackward)));
    assert_eq!(decide_keys(&vec![c('d')], None), KeyOutcome::Run(NormalAction::Move(Move::HalfPageDown)));
}

#[test]
fn pending_keys_as_text() {
    assert_eq!(key_event_to_string(k(' ')), "<space>");
    assert_eq!(key_event_to_string(k('g')), "g");
    assert_eq!(key_event_to_string(KeyEvent::new(KeyCode::Esc, KeyModifiers::none())), "");
}
