//! The process-filter prompt: an inline text input drawn inside the
//! process widget. Its text lives with the process view; this marker
//! gives [`super::ActiveModal`] the same shape for every overlay.

use vstd::prelude::*;

use crate::text::{chars_of, push_char, string_from_chars, to_owned_string};

verus! {

/// Marker state for an open filter prompt.
#[derive(Debug, Clone, Copy, PartialEq, Eq, Structural)]
pub struct FilterState;

impl Default for FilterState {
    fn default() -> (r: Self) {
        FilterState
    }
}

/// An edit of the filter text by a key of the prompt.
#[derive(Debug, Clone, Copy, PartialEq, Eq, Structural)]
pub enum FilterEdit {
    /// A typed character, appended.
    Typed(char),
    /// Backspace: the last character goes.
    Backspace,
    /// Delete: the whole text goes.
    Clear,
}

/// The filter text after `edit`.
pub open spec fn filter_after(text: Seq<char>, edit: FilterEdit) -> Seq<char> {
    match edit {
        FilterEdit::Typed(c) => text.push(c),
        FilterEdit::Backspace => if text.len() > 0 { text.drop_last() } else { text },
        FilterEdit::Clear => Seq::empty(),
    }
}

/// The filter text after a key of the prompt. Every edit applies at
/// once: the process list is filtered by the new text and its cursor
/// goes back to the top.
pub fn edit_filter(text: &str, edit: FilterEdit) -> (r: String)
    ensures
        r@ == filter_after(text@, edit),
{
    match edit {
        FilterEdit::Typed(c) => {
            let mut r = to_owned_string(text);
            push_char(&mut r, c);
            r
        },
        FilterEdit::Backspace => {
            let mut v = chars_of(text);
            if v.len() > 0 {
                v.pop();
            }
            string_from_chars(&v)
        },
        FilterEdit::Clear => String::new(),
    }
}

/// Typing a character and then pressing backspace leaves the filter
/// text as it was.
pub proof fn lemma_type_then_backspace(text: Seq<char>, c: char)
    ensures
        filter_after(filter_after(text, FilterEdit::Typed(c)), FilterEdit::Backspace) == text,
{
    assert(text.push(c).drop_last() =~= text);
}

} // verus!
