//! Terminal escape constants, cursor positioning, and the terminal's
//! size and synchronised-output state.

use vstd::prelude::*;

use crate::draw::buffer::{cursor_to, push_cursor_to};
use crate::text::push_str;

verus! {

/// Begin synchronised update.
pub const SYNC_START: &'static str = "\x1b[?2026h";
/// End synchronised update.
pub const SYNC_END: &'static str = "\x1b[?2026l";
/// Clear the whole screen.
pub const CLEAR_SCREEN: &'static str = "\x1b[2J";
/// Reset all formatting.
pub const RESET: &'static str = "\x1b[0m";
/// Bold on.
pub const BOLD: &'static str = "\x1b[1m";
/// Bold off.
pub const BOLD_OFF: &'static str = "\x1b[22m";
/// Underline on.
pub const UNDERLINE: &'static str = "\x1b[4m";
/// Underline off.
pub const UNDERLINE_OFF: &'static str = "\x1b[24m";

/// The escape that moves the cursor to column `x`, row `y` (1-based).
pub fn mv(x: usize, y: usize) -> (r: String)
    ensures
        r@ == cursor_to(x as nat, y as nat),
{
    let mut s = String::new();
    push_cursor_to(&mut s, x, y);
    s
}

/// The terminal's size and whether output is wrapped in synchronised
/// update markers.
pub struct Terminal {
    pub width: u16,
    pub height: u16,
    pub sync_enabled: bool,
}

pub open spec fn sync_start() -> Seq<char> { seq!['\x1b', '[', '?', '2', '0', '2', '6', 'h'] }
pub open spec fn sync_end() -> Seq<char> { seq!['\x1b', '[', '?', '2', '0', '2', '6', 'l'] }

impl Terminal {
    /// Turns synchronised updates on or off.
    pub fn set_sync(&mut self, enabled: bool)
        ensures
            final(self).sync_enabled == enabled,
            final(self).width == old(self).width,
            final(self).height == old(self).height,
    {
        self.sync_enabled = enabled;
    }

    /// Takes a newly read size; returns whether it differs from the one
    /// held (and the frame must be laid out again).
    pub fn resize_to(&mut self, width: u16, height: u16) -> (changed: bool)
        ensures
            changed == (width != old(self).width || height != old(self).height),
            final(self).width == width,
            final(self).height == height,
            final(self).sync_enabled == old(self).sync_enabled,
    {
        let changed = width != self.width || height != self.height;
        self.width = width;
        self.height = height;
        changed
    }

    /// The terminal's size as `(width, height)`.
    pub fn size(&self) -> (r: (u16, u16))
        ensures
            r == (self.width, self.height),
    {
        (self.width, self.height)
    }

    /// The bytes to write for `content`: wrapped in the synchronised
    /// update markers when they are on, as they are otherwise.
    pub fn synced_frame(&self, content: &str) -> (r: String)
        ensures
            r@ == (if self.sync_enabled { sync_start() + content@ + sync_end() } else { content@ }),
    {
        let mut s = String::new();
        if self.sync_enabled {
            proof {
                reveal_strlit("\x1b[?2026h");
                reveal_strlit("\x1b[?2026l");
            }
            push_str(&mut s, SYNC_START);
            push_str(&mut s, content);
            push_str(&mut s, SYNC_END);
            assert(s@ =~= sync_start() + content@ + sync_end());
        } else {
            push_str(&mut s, content);
            assert(s@ =~= content@);
        }
        s
    }
}

} // verus!
