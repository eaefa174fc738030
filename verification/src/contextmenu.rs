//! The context menu opened by a right click.
use vstd::prelude::*;

use crate::prelude::{Position, Size};
use crate::text::{copy_str, pad_right, pad_string_right, push_char};

verus! {

/// What an entry of the context menu does.
#[derive(Copy, Clone, Eq, PartialEq, Structural, Debug)]
pub enum ContextMenuAction {
    Copy,
    Delete,
    Paste,
    Undo,
    Redo,
    SelectAll,
}

/// The entry's label.
pub open spec fn action_label(a: ContextMenuAction) -> Seq<char> {
    match a {
        ContextMenuAction::Copy => "Copy"@,
        ContextMenuAction::Delete => "Delete"@,
        ContextMenuAction::Paste => "Paste"@,
        ContextMenuAction::Undo => "Undo"@,
        ContextMenuAction::Redo => "Redo"@,
        ContextMenuAction::SelectAll => "Select All"@,
    }
}

pub proof fn lemma_label_len(a: ContextMenuAction)
    ensures
        action_label(a).len() <= 10,
{
    reveal_strlit("Copy");
    reveal_strlit("Delete");
    reveal_strlit("Paste");
    reveal_strlit("Undo");
    reveal_strlit("Redo");
    reveal_strlit("Select All");
}

fn label_of(a: ContextMenuAction) -> (s: String)
    ensures
        s@ == action_label(a),
{
    match a {
        ContextMenuAction::Copy => copy_str("Copy"),
        ContextMenuAction::Delete => copy_str("Delete"),
        ContextMenuAction::Paste => copy_str("Paste"),
        ContextMenuAction::Undo => copy_str("Undo"),
        ContextMenuAction::Redo => copy_str("Redo"),
        ContextMenuAction::SelectAll => copy_str("Select All"),
    }
}

/// The entries offered: copy (with a selection), paste (when there is
/// something to paste), delete (with a selection), select all, undo and
/// redo (when possible), in this order.
pub open spec fn menu_actions(can_undo: bool, can_redo: bool, has_selection: bool, can_paste: bool) -> Seq<
    ContextMenuAction,
> {
    (if has_selection { seq![ContextMenuAction::Copy] } else { Seq::empty() }) + (if can_paste {
        seq![ContextMenuAction::Paste]
    } else {
        Seq::empty()
    }) + (if has_selection { seq![ContextMenuAction::Delete] } else { Seq::empty() }) + seq![
        ContextMenuAction::SelectAll,
    ] + (if can_undo { seq![ContextMenuAction::Undo] } else { Seq::empty() }) + (if can_redo {
        seq![ContextMenuAction::Redo]
    } else {
        Seq::empty()
    })
}

/// The widest label among `actions`.
pub open spec fn max_label_len(actions: Seq<ContextMenuAction>) -> nat
    decreases actions.len(),
{
    if actions.len() == 0 {
        0
    } else {
        let m = max_label_len(actions.drop_last());
        let l = action_label(actions.last()).len();
        if l > m {
            l
        } else {
            m
        }
    }
}

/// A label as the menu shows it: a space, the label padded to `w`, a space.
pub open spec fn menu_entry(a: ContextMenuAction, w: nat) -> Seq<char> {
    seq![' '] + pad_right(action_label(a), w) + seq![' ']
}

/// A box of `size` at `p`, moved left and up as far as needed to fit on a
/// screen of `screen` (not beyond its top left corner).
pub open spec fn fit_on_screen(p: Position, size: Size, screen: Size) -> Position {
    Position {
        col: if p.col + size.width > screen.width {
            if screen.width >= size.width { (screen.width - size.width) as usize } else { 0 }
        } else {
            p.col
        },
        row: if p.row + size.height > screen.height {
            if screen.height >= size.height { (screen.height - size.height) as usize } else { 0 }
        } else {
            p.row
        },
    }
}

/// A menu of actions at a position on the screen.
pub struct ContextMenu {
    position: Position,
    needs_redraw: bool,
    size: Size,
    hovered_action: Option<ContextMenuAction>,
    available_actions: Vec<(ContextMenuAction, String)>,
}

impl ContextMenu {
    pub closed spec fn position_view(&self) -> Position {
        self.position
    }

    pub closed spec fn size_view(&self) -> Size {
        self.size
    }

    pub closed spec fn hovered(&self) -> Option<ContextMenuAction> {
        self.hovered_action
    }

    pub closed spec fn redraw_flag(&self) -> bool {
        self.needs_redraw
    }

    /// The actions, top to bottom.
    pub closed spec fn actions(&self) -> Seq<ContextMenuAction> {
        self.available_actions@.map_values(|e: (ContextMenuAction, String)| e.0)
    }

    /// The entries' texts, top to bottom.
    pub closed spec fn entries(&self) -> Seq<Seq<char>> {
        self.available_actions@.map_values(|e: (ContextMenuAction, String)| e.1@)
    }

    /// The action under screen position `p`, if any.
    pub open spec fn action_at_spec(&self, p: Position) -> Option<ContextMenuAction> {
        let o = self.position_view();
        let s = self.size_view();
        if p.col >= o.col && p.col < o.col + s.width && p.row >= o.row && p.row < o.row + s.height
            && p.row - o.row < self.actions().len() {
            Some(self.actions()[p.row - o.row])
        } else {
            None
        }
    }

    /// The menu for what is possible now, at `position` moved to fit on a
    /// screen of `terminal_size`. Each entry is padded to the widest label
    /// plus a space on each side.
    pub fn new(
        position: Position,
        terminal_size: Size,
        can_undo: bool,
        can_redo: bool,
        has_selection: bool,
        can_paste: bool,
    ) -> (r: Self)
        ensures
            r.actions() == menu_actions(can_undo, can_redo, has_selection, can_paste),
            r.size_view() == (Size {
                width: (max_label_len(r.actions()) + 2) as usize,
                height: r.actions().len() as usize,
            }),
            r.entries().len() == r.actions().len(),
            forall|i: int|
                0 <= i < r.actions().len() ==> #[trigger] r.entries()[i] == menu_entry(
                    r.actions()[i],
                    max_label_len(r.actions()),
                ),
            r.position_view() == fit_on_screen(position, r.size_view(), terminal_size),
            r.hovered() is None,
            r.redraw_flag(),
    {
        let mut raw: Vec<ContextMenuAction> = Vec::new();
        if has_selection {
            raw.push(ContextMenuAction::Copy);
        }
        if can_paste {
            raw.push(ContextMenuAction::Paste);
        }
        if has_selection {
            raw.push(ContextMenuAction::Delete);
        }
        raw.push(ContextMenuAction::SelectAll);
        if can_undo {
            raw.push(ContextMenuAction::Undo);
        }
        if can_redo {
            raw.push(ContextMenuAction::Redo);
        }
        let ghost acts = menu_actions(can_undo, can_redo, has_selection, can_paste);
        assert(raw@ =~= acts);
        let mut max_label_width: usize = 0;
        let mut i: usize = 0;
        while i < raw.len()
            invariant
                i <= raw@.len(),
                raw@ == acts,
                raw@.len() <= 6,
                max_label_width == max_label_len(raw@.take(i as int)),
                max_label_width <= 10,
            decreases raw@.len() - i,
        {
            assert(raw@.take(i + 1).drop_last() =~= raw@.take(i as int));
            proof {
                lemma_label_len(raw@[i as int]);
            }
            let n = crate::text::chars_of(label_of(raw[i]).as_str()).len();
            if n > max_label_width {
                max_label_width = n;
            }
            i = i + 1;
        }
        assert(raw@.take(raw@.len() as int) =~= raw@);
        let width = max_label_width + 2;
        let mut available_actions: Vec<(ContextMenuAction, String)> = Vec::new();
        let mut j: usize = 0;
        while j < raw.len()
            invariant
                j <= raw@.len(),
                raw@ == acts,
                max_label_width == max_label_len(acts),
                available_actions@.len() == j,
                forall|k: int| 0 <= k < j ==> (#[trigger] available_actions@[k]).0 == acts[k],
                forall|k: int|
                    0 <= k < j ==> (#[trigger] available_actions@[k]).1@ == menu_entry(acts[k], max_label_width as nat),
            decreases raw@.len() - j,
        {
            let a = raw[j];
            let mut label = label_of(a);
            pad_string_right(&mut label, max_label_width);
            let mut entry = String::new();
            push_char(&mut entry, ' ');
            entry.append(label.as_str());
            push_char(&mut entry, ' ');
            assert(entry@ =~= menu_entry(a, max_label_width as nat));
            available_actions.push((a, entry));
            j = j + 1;
        }
        let size = Size { width, height: available_actions.len() };
        let mut position = position;
        if position.col > terminal_size.width || terminal_size.width - position.col < size.width {
            position.col = terminal_size.width.saturating_sub(size.width);
        }
        if position.row > terminal_size.height || terminal_size.height - position.row < size.height {
            position.row = terminal_size.height.saturating_sub(size.height);
        }
        let r = ContextMenu { position, needs_redraw: true, size, hovered_action: None, available_actions };
        assert(r.actions() =~= acts);
        r
    }

    /// The action under `mouse_pos`, if any.
    fn action_at(&self, mouse_pos: Position) -> (r: Option<ContextMenuAction>)
        ensures
            r == self.action_at_spec(mouse_pos),
    {
        if mouse_pos.col >= self.position.col && mouse_pos.col - self.position.col < self.size.width
            && mouse_pos.row >= self.position.row && mouse_pos.row - self.position.row < self.size.height {
            let relative_row = mouse_pos.row - self.position.row;
            if relative_row < self.available_actions.len() {
                return Some(self.available_actions[relative_row].0);
            }
        }
        None
    }

    /// Hovers the action under the mouse; the menu is drawn again when the
    /// hovered action changes.
    pub fn handle_mouse_move(&mut self, mouse_pos: Position)
        ensures
            final(self).hovered() == old(self).action_at_spec(mouse_pos),
            final(self).redraw_flag() == (old(self).redraw_flag() || old(self).hovered()
                != old(self).action_at_spec(mouse_pos)),
            final(self).actions() == old(self).actions(),
            final(self).entries() == old(self).entries(),
            final(self).position_view() == old(self).position_view(),
            final(self).size_view() == old(self).size_view(),
    {
        let new_hover = self.action_at(mouse_pos);
        if new_hover != self.hovered_action {
            self.hovered_action = new_hover;
            self.needs_redraw = true;
        }
    }

    /// The action clicked at `mouse_pos`, if any.
    pub fn handle_click(&self, mouse_pos: Position) -> (r: Option<ContextMenuAction>)
        ensures
            r == self.action_at_spec(mouse_pos),
    {
        self.action_at(mouse_pos)
    }

    /// Where the menu's top left corner is.
    pub fn position(&self) -> (p: Position)
        ensures
            p == self.position_view(),
    {
        self.position
    }

    /// The entries to draw, top to bottom, and which is hovered.
    pub fn entries_to_draw(&self) -> (r: Vec<(String, bool)>)
        ensures
            r@.len() == self.entries().len(),
            forall|i: int|
                0 <= i < r@.len() ==> (#[trigger] r@[i]).0@ == self.entries()[i] && r@[i].1 == (
                self.hovered() == Some(self.actions()[i])),
    {
        let mut r: Vec<(String, bool)> = Vec::new();
        let mut i: usize = 0;
        while i < self.available_actions.len()
            invariant
                i <= self.available_actions@.len(),
                r@.len() == i,
                forall|k: int|
                    0 <= k < i ==> (#[trigger] r@[k]).0@ == self.entries()[k] && r@[k].1 == (
                    self.hovered() == Some(self.actions()[k])),
            decreases self.available_actions@.len() - i,
        {
            let (a, label) = &self.available_actions[i];
            let hovered = match self.hovered_action {
                Some(h) => h == *a,
                None => false,
            };
            r.push((copy_str(label.as_str()), hovered));
            i = i + 1;
        }
        r
    }

    pub fn set_needs_redraw(&mut self, value: bool)
        ensures
            final(self).redraw_flag() == value,
            final(self).hovered() == old(self).hovered(),
            final(self).actions() == old(self).actions(),
            final(self).entries() == old(self).entries(),
            final(self).position_view() == old(self).position_view(),
            final(self).size_view() == old(self).size_view(),
    {
        self.needs_redraw = value;
    }

    pub fn needs_redraw(&self) -> (r: bool)
        ensures
            r == self.redraw_flag(),
    {
        self.needs_redraw
    }

    pub fn set_size(&mut self, size: Size)
        ensures
            final(self).size_view() == size,
            final(self).redraw_flag() == old(self).redraw_flag(),
            final(self).hovered() == old(self).hovered(),
            final(self).actions() == old(self).actions(),
            final(self).entries() == old(self).entries(),
            final(self).position_view() == old(self).position_view(),
    {
        self.size = size;
    }
}

} // verus!
