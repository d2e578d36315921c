//! Box-drawing characters.

use vstd::prelude::*;

verus! {

/// Horizontal line `─`.
pub const H_LINE: char = '─';
/// Vertical line `│`.
pub const V_LINE: char = '│';
/// Top-left corner `┌`.
pub const LEFT_UP: char = '┌';
/// Top-right corner `┐`.
pub const RIGHT_UP: char = '┐';
/// Bottom-left corner `└`.
pub const LEFT_DOWN: char = '└';
/// Bottom-right corner `┘`.
pub const RIGHT_DOWN: char = '┘';
/// Rounded top-left corner `╭`.
pub const ROUND_LEFT_UP: char = '╭';
/// Rounded top-right corner `╮`.
pub const ROUND_RIGHT_UP: char = '╮';
/// Rounded bottom-left corner `╰`.
pub const ROUND_LEFT_DOWN: char = '╰';
/// Rounded bottom-right corner `╯`.
pub const ROUND_RIGHT_DOWN: char = '╯';
/// Right T-junction `┤`.
pub const DIV_RIGHT: char = '┤';
/// Left T-junction `├`.
pub const DIV_LEFT: char = '├';
/// Top T-junction `┬`.
pub const DIV_UP: char = '┬';
/// Bottom T-junction `┴`.
pub const DIV_DOWN: char = '┴';
/// Up arrow `↑`.
pub const UP_ARROW: char = '↑';
/// Down arrow `↓`.
pub const DOWN_ARROW: char = '↓';
/// Left arrow `←`.
pub const LEFT_ARROW: char = '←';
/// Right arrow `→`.
pub const RIGHT_ARROW: char = '→';
/// Enter/return symbol `↵`.
pub const ENTER: char = '↵';

/// Superscript digit for `d` (`d < 10`).
pub open spec fn superscript_spec(d: nat) -> char {
    if d == 0 { '⁰' }
    else if d == 1 { '¹' }
    else if d == 2 { '²' }
    else if d == 3 { '³' }
    else if d == 4 { '⁴' }
    else if d == 5 { '⁵' }
    else if d == 6 { '⁶' }
    else if d == 7 { '⁷' }
    else if d == 8 { '⁸' }
    else { '⁹' }
}

/// Unicode superscript digit `d`, for `d` in 0..=9.
pub fn superscript(d: u8) -> (c: char)
    requires
        d < 10,
    ensures
        c == superscript_spec(d as nat),
{
    if d == 0 { '⁰' }
    else if d == 1 { '¹' }
    else if d == 2 { '²' }
    else if d == 3 { '³' }
    else if d == 4 { '⁴' }
    else if d == 5 { '⁵' }
    else if d == 6 { '⁶' }
    else if d == 7 { '⁷' }
    else if d == 8 { '⁸' }
    else { '⁹' }
}

} // verus!
