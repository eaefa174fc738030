use editor_core::jumplist::{JumpEntry, JumpList};
use editor_core::prelude::Location;

fn at(view_idx: usize, line_idx: usize) -> JumpEntry {
    JumpEntry { view_idx, location: Location { line_idx, grapheme_idx: 0, preferred_grapheme_idx: 0 } }
}

#[test]
fn back_then_forward_returns_to_the_place_left() {
    let mut list = JumpList::new();
    list.record(at(0, 5));
    let back = list.back(at(0, 9));
    assert_eq!(back, Some(at(0, 5)));
    assert_eq!(list.forward(), Some(at(0, 9)));
    assert_eq!(list.forward(), None);
}

#[test]
fn going_back_from_the_start_finds_nothing() {
    let mut list = JumpList::new();
    assert_eq!(list.back(at(0, 0)), None);
}

#[test]
fn recording_after_going_back_drops_the_later_entries() {
    let mut list = JumpList::new();
    list.record(at(0, 1));
    list.record(at(0, 2));
    assert_eq!(list.back(at(0, 2)), Some(at(0, 1)));
    list.record(at(1, 7));
    assert_eq!(list.forward(), None);
    assert_eq!(list.back(at(1, 7)), Some(at(0, 1)));
}
