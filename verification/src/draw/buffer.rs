//! A growable buffer of terminal output with a fluent API for cursor
//! positioning, colour escapes and text.

use vstd::prelude::*;

use crate::text::{dec, push_char, push_dec, push_str};

verus! {

pub open spec fn esc() -> char { '\x1b' }

/// Control sequence introducer `ESC [`.
pub open spec fn csi() -> Seq<char> { seq![esc(), '['] }

/// `ESC [ y ; x H`: move the cursor to column `x`, row `y` (1-based).
#[verifier::opaque]
pub open spec fn cursor_to(x: nat, y: nat) -> Seq<char> {
    csi() + dec(y) + seq![';'] + dec(x) + seq!['H']
}

/// `ESC [ 0 m`: reset all attributes.
pub open spec fn sgr_reset() -> Seq<char> { csi() + seq!['0', 'm'] }

/// Appends `ESC [ y ; x H` to `s`.
pub fn push_cursor_to(s: &mut String, x: usize, y: usize)
    ensures
        final(s)@ == old(s)@ + cursor_to(x as nat, y as nat),
{
    push_char(s, '\x1b');
    push_char(s, '[');
    push_dec(s, y as u64);
    push_char(s, ';');
    push_dec(s, x as u64);
    push_char(s, 'H');
    reveal(cursor_to);
    assert(final(s)@ =~= old(s)@ + cursor_to(x as nat, y as nat));
}

/// Appends `ESC [ 0 m` to `s`.
pub fn push_reset(s: &mut String)
    ensures
        final(s)@ == old(s)@ + sgr_reset(),
{
    push_char(s, '\x1b');
    push_char(s, '[');
    push_char(s, '0');
    push_char(s, 'm');
    assert(final(s)@ =~= old(s)@ + sgr_reset());
}

/// Terminal output under construction.
pub struct AnsiBuffer {
    buf: String,
}

impl View for AnsiBuffer {
    type V = Seq<char>;

    closed spec fn view(&self) -> Seq<char> {
        self.buf@
    }
}

impl AnsiBuffer {
    /// An empty buffer.
    pub fn new() -> (r: Self)
        ensures
            r@ == Seq::<char>::empty(),
    {
        AnsiBuffer { buf: String::new() }
    }

    /// Moves the cursor to column `x`, row `y` (1-based).
    pub fn mv(&mut self, x: usize, y: usize) -> (r: &mut Self)
        ensures
            r@ == old(self)@ + cursor_to(x as nat, y as nat),
            *final(self) == *final(r),
    {
        push_cursor_to(&mut self.buf, x, y);
        self
    }

    /// Appends a colour escape taken from the theme.
    pub fn color(&mut self, color: &str) -> (r: &mut Self)
        ensures
            r@ == old(self)@ + color@,
            *final(self) == *final(r),
    {
        push_str(&mut self.buf, color);
        self
    }

    /// Writes text at the cursor.
    pub fn text(&mut self, s: &str) -> (r: &mut Self)
        ensures
            r@ == old(self)@ + s@,
            *final(self) == *final(r),
    {
        push_str(&mut self.buf, s);
        self
    }

    /// Appends pre-formatted output (graph rows, meter bars).
    pub fn raw(&mut self, s: &str) -> (r: &mut Self)
        ensures
            r@ == old(self)@ + s@,
            *final(self) == *final(r),
    {
        push_str(&mut self.buf, s);
        self
    }

    /// Resets all attributes.
    pub fn reset(&mut self) -> (r: &mut Self)
        ensures
            r@ == old(self)@ + sgr_reset(),
            *final(self) == *final(r),
    {
        push_reset(&mut self.buf);
        self
    }

    /// The finished output: the contents followed by a reset.
    pub fn finish(self) -> (r: String)
        ensures
            r@ == self@ + sgr_reset(),
    {
        let mut buf = self.buf;
        push_reset(&mut buf);
        buf
    }

    /// The contents so far.
    pub fn as_str(&self) -> (r: &str)
        ensures
            r@ == self@,
    {
        self.buf.as_str()
    }
}

impl Default for AnsiBuffer {
    fn default() -> (r: Self)
        ensures
            r@ == Seq::<char>::empty(),
    {
        Self::new()
    }
}

} // verus!
