//! Inset characters that notch a border line around a title.

use vstd::prelude::*;

verus! {

/// Left inset for a title on the top border `┐`.
pub const TITLE_LEFT: char = '┐';
/// Right inset for a title on the top border `┌`.
pub const TITLE_RIGHT: char = '┌';
/// Left inset for a title on the bottom border `┘`.
pub const TITLE_LEFT_DOWN: char = '┘';
/// Right inset for a title on the bottom border `└`.
pub const TITLE_RIGHT_DOWN: char = '└';

} // verus!
