//! The message bar: the latest message for a few seconds, and the pending
//! key sequence at the right.
use vstd::prelude::*;

use crate::annotatedstring::char_index_floor;
use crate::prelude::Size;
use crate::text::{byte_len_sat, chars_of, copy_str, pad_right, pad_string_right, push_char, sat_usize, str_eq, string_from_chars, utf8_len};

verus! {

/// How long a message is shown, in milliseconds.
pub const MESSAGE_DURATION_MS: u64 = 5000;

/// Columns kept free at the right for the pending key sequence.
pub const COMMAND_AREA: usize = 15;

/// A message and when it was set (milliseconds on the caller's clock).
pub struct Message {
    pub text: String,
    pub time: u64,
}

/// Whether a message set at `time` has expired at `now`.
pub open spec fn expired(time: u64, now: u64) -> bool {
    now >= time && now - time > MESSAGE_DURATION_MS
}

/// The row shown: the message (blank once expired) padded to the width
/// left of the key area, cut one column short with a space if it is longer,
/// then the pending keys. A cut inside a character cuts before it.
pub open spec fn message_row(message: Seq<char>, width: usize, command_buffer: Seq<char>) -> Seq<char> {
    let target: nat = if width >= COMMAND_AREA { (width - COMMAND_AREA) as nat } else { 0 };
    let row = pad_right(message, target);
    let cut: nat = if target >= 1 { (target - 1) as nat } else { 0 };
    let row = if sat_usize(utf8_len(row)) > target {
        row.take(char_index_floor(row, cut) as int).push(' ')
    } else {
        row
    };
    row + command_buffer
}

/// The bottom bar of the editor.
pub struct MessageBar {
    current_message: Option<Message>,
    command_buffer: String,
    needs_redraw: bool,
    cleared_after_expiry: bool,
    size: Size,
}

impl MessageBar {
    /// The current message's text and time, if there is one.
    pub closed spec fn message(&self) -> Option<(Seq<char>, u64)> {
        match self.current_message {
            Some(m) => Some((m.text@, m.time)),
            None => None,
        }
    }

    pub closed spec fn command_buffer_view(&self) -> Seq<char> {
        self.command_buffer@
    }

    pub closed spec fn redraw_flag(&self) -> bool {
        self.needs_redraw
    }

    /// Whether the bar was drawn blank after its message expired.
    pub closed spec fn cleared(&self) -> bool {
        self.cleared_after_expiry
    }

    pub closed spec fn size_view(&self) -> Size {
        self.size
    }

    /// An empty bar.
    pub fn new() -> (r: Self)
        ensures
            r.message() is None,
            r.command_buffer_view().len() == 0,
            !r.redraw_flag(),
            !r.cleared(),
            r.size_view() == (Size { height: 0, width: 0 }),
    {
        MessageBar {
            current_message: None,
            command_buffer: String::new(),
            needs_redraw: false,
            cleared_after_expiry: false,
            size: Size { height: 0, width: 0 },
        }
    }

    /// The text of the current message, if there is one.
    pub fn message_text(&self) -> (r: Option<&str>)
        ensures
            match self.message() {
                Some((t, _)) => r matches Some(s) && s@ == t,
                None => r is None,
            },
    {
        match &self.current_message {
            Some(m) => Some(m.text.as_str()),
            None => None,
        }
    }

    /// Shows `text` from `now` on.
    pub fn update_message(&mut self, text: &str, now: u64)
        ensures
            final(self).message() == Some((text@, now)),
            final(self).command_buffer_view() == old(self).command_buffer_view(),
            final(self).redraw_flag(),
            !final(self).cleared(),
            final(self).size_view() == old(self).size_view(),
    {
        self.current_message = Some(Message { text: copy_str(text), time: now });
        self.cleared_after_expiry = false;
        self.needs_redraw = true;
    }

    /// Shows the pending keys; the bar is drawn again when they change.
    pub fn update_command_buffer(&mut self, new_buffer: &str)
        ensures
            final(self).command_buffer_view() == new_buffer@,
            final(self).redraw_flag() == (old(self).redraw_flag() || old(self).command_buffer_view()
                != new_buffer@),
            final(self).message() == old(self).message(),
            final(self).cleared() == old(self).cleared(),
            final(self).size_view() == old(self).size_view(),
    {
        if !str_eq(new_buffer, self.command_buffer.as_str()) {
            self.command_buffer = copy_str(new_buffer);
            self.needs_redraw = true;
        }
    }

    /// Whether the bar must be drawn at `now`: when marked, or when its
    /// message expired and the bar was not drawn blank since.
    pub fn needs_redraw(&self, now: u64) -> (r: bool)
        ensures
            r == (self.redraw_flag() || (self.message() matches Some((_, t)) && !self.cleared() && expired(
                t,
                now,
            ))),
    {
        if self.needs_redraw {
            return true;
        }
        match &self.current_message {
            Some(m) => !self.cleared_after_expiry && now >= m.time && now - m.time > MESSAGE_DURATION_MS,
            None => false,
        }
    }

    pub fn set_needs_redraw(&mut self, value: bool)
        ensures
            final(self).redraw_flag() == value,
            final(self).message() == old(self).message(),
            final(self).command_buffer_view() == old(self).command_buffer_view(),
            final(self).cleared() == old(self).cleared(),
            final(self).size_view() == old(self).size_view(),
    {
        self.needs_redraw = value;
    }

    pub fn set_size(&mut self, size: Size)
        ensures
            final(self).size_view() == size,
            final(self).redraw_flag() == old(self).redraw_flag(),
            final(self).message() == old(self).message(),
            final(self).command_buffer_view() == old(self).command_buffer_view(),
            final(self).cleared() == old(self).cleared(),
    {
        self.size = size;
    }

    /// The row to draw at `now`; an expired message is drawn blank, and the
    /// bar remembers that it was.
    pub fn render_row(&mut self, now: u64) -> (row: String)
        ensures
            row@ == message_row(
                match old(self).message() {
                    Some((text, t)) => if expired(t, now) { Seq::empty() } else { text },
                    None => Seq::empty(),
                },
                old(self).size_view().width,
                old(self).command_buffer_view(),
            ),
            final(self).cleared() == (old(self).cleared() || (old(self).message() matches Some((_, t))
                && expired(t, now))),
            final(self).message() == old(self).message(),
            final(self).command_buffer_view() == old(self).command_buffer_view(),
            final(self).redraw_flag() == old(self).redraw_flag(),
            final(self).size_view() == old(self).size_view(),
    {
        let mut message_text = String::new();
        match &self.current_message {
            Some(m) => {
                if now >= m.time && now - m.time > MESSAGE_DURATION_MS {
                    self.cleared_after_expiry = true;
                } else {
                    message_text = copy_str(m.text.as_str());
                }
            },
            None => {},
        }
        let ghost msg = message_text@;
        let target_pos = self.size.width.saturating_sub(COMMAND_AREA);
        let mut row = message_text;
        pad_string_right(&mut row, target_pos);
        let ghost padded_row = row@;
        if byte_len_sat(row.as_str()) > target_pos {
            let cs = chars_of(row.as_str());
            let k = crate::annotatedstring::floor_char_index(&cs, target_pos.saturating_sub(1));
            proof {
                crate::annotatedstring::lemma_char_index_floor_bounds(cs@, (target_pos.saturating_sub(1)) as nat, (target_pos.saturating_sub(1)) as nat);
            }
            row = string_from_chars(cs.as_slice(), 0, k);
            push_char(&mut row, ' ');
            assert(row@ =~= padded_row.take(k as int).push(' '));
        }
        row.append(self.command_buffer.as_str());
        row
    }
}

} // verus!
