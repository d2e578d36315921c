//! Inline editor of one option's value. The cursor is a character index
//! into the buffer; a cursor past the end acts as the end.

use vstd::prelude::*;

use crate::config::{ConfigKey, StringKey};
use crate::text::{chars_of, push_char};

verus! {

/// Whether the buffer holds free text or an integer.
#[derive(Clone, Copy, PartialEq, Eq, Debug, Structural)]
pub enum EditKind {
    Text,
    Integer,
}

/// An edit in progress.
#[derive(Debug, Clone)]
pub struct OptionEditState {
    key: ConfigKey,
    kind: EditKind,
    buffer: String,
    cursor: usize,
    error: Option<&'static str>,
}

/// `n` clamped to at most `len`.
pub open spec fn clamp_to(n: nat, len: nat) -> nat {
    if n <= len { n } else { len }
}

/// `b` without the characters in `start..end`.
pub open spec fn remove_range(b: Seq<char>, start: nat, end: nat) -> Seq<char> {
    b.take(start as int) + b.skip(end as int)
}

/// `b` with `c` inserted before character `at` (at the end when `at` is
/// past it).
pub open spec fn insert_at(b: Seq<char>, at: nat, c: char) -> Seq<char> {
    let p = clamp_to(at, b.len());
    b.take(p as int).push(c) + b.skip(p as int)
}

fn rebuilt_without(v: &Vec<char>, start: usize, end: usize) -> (r: String)
    requires
        start <= end <= v.len(),
    ensures
        r@ == remove_range(v@, start as nat, end as nat),
{
    let mut out = String::new();
    let mut i: usize = 0;
    while i < v.len()
        invariant
            i <= v.len(),
            start <= end <= v.len(),
            i <= start ==> out@ == v@.take(i as int),
            start < i <= end ==> out@ == v@.take(start as int),
            end < i ==> out@ == v@.take(start as int) + v@.subrange(end as int, i as int),
        decreases v.len() - i,
    {
        if i < start || i >= end {
            push_char(&mut out, v[i]);
        }
        i = i + 1;
        assert(i <= start ==> out@ =~= v@.take(i as int));
        assert(start < i <= end ==> out@ =~= v@.take(start as int));
        assert(end < i ==> out@ =~= v@.take(start as int) + v@.subrange(end as int, i as int));
    }
    assert(out@ =~= remove_range(v@, start as nat, end as nat));
    out
}

fn rebuilt_with(v: &Vec<char>, at: usize, c: char) -> (r: String)
    requires
        at <= v.len(),
    ensures
        r@ == v@.take(at as int).push(c) + v@.skip(at as int),
{
    let mut out = String::new();
    let mut i: usize = 0;
    while i < v.len()
        invariant
            i <= v.len(),
            at <= v.len(),
            i <= at ==> out@ == v@.take(i as int),
            i > at ==> out@ == v@.take(at as int).push(c) + v@.subrange(at as int, i as int),
        decreases v.len() - i,
    {
        if i == at {
            push_char(&mut out, c);
        }
        push_char(&mut out, v[i]);
        i = i + 1;
        assert(out@ =~= (if i <= at { v@.take(i as int) } else { v@.take(at as int).push(c) + v@.subrange(at as int, i as int) }));
    }
    if at == v.len() {
        push_char(&mut out, c);
    }
    assert(out@ =~= v@.take(at as int).push(c) + v@.skip(at as int));
    out
}

impl OptionEditState {
    pub closed spec fn key_spec(&self) -> ConfigKey { self.key }
    pub closed spec fn kind_spec(&self) -> EditKind { self.kind }
    pub closed spec fn buffer_spec(&self) -> Seq<char> { self.buffer@ }
    pub closed spec fn cursor_spec(&self) -> nat { self.cursor as nat }
    pub closed spec fn error_spec(&self) -> Option<&'static str> { self.error }

    /// An edit of `key` starting from `buffer`, the cursor at its end.
    pub fn new(key: ConfigKey, kind: EditKind, buffer: String) -> (r: Self)
        ensures
            r.key_spec() == key,
            r.kind_spec() == kind,
            r.buffer_spec() == buffer@,
            r.cursor_spec() == buffer@.len(),
            r.error_spec() is None,
    {
        let cursor = buffer.as_str().unicode_len();
        OptionEditState { key, kind, buffer, cursor, error: None }
    }

    /// An edit of the process filter with an empty buffer.
    pub fn placeholder() -> (r: Self)
        ensures
            r.key_spec() == ConfigKey::String(StringKey::ProcFilter),
            r.kind_spec() == EditKind::Text,
            r.buffer_spec() == Seq::<char>::empty(),
            r.cursor_spec() == 0,
            r.error_spec() is None,
    {
        Self::new(ConfigKey::String(StringKey::ProcFilter), EditKind::Text, String::new())
    }

    /// The option being edited.
    pub fn key(&self) -> (r: ConfigKey)
        ensures
            r == self.key_spec(),
    {
        self.key
    }

    /// Whether the buffer is text or an integer.
    pub fn kind(&self) -> (r: EditKind)
        ensures
            r == self.kind_spec(),
    {
        self.kind
    }

    /// The buffer.
    pub fn buffer(&self) -> (r: &str)
        ensures
            r@ == self.buffer_spec(),
    {
        self.buffer.as_str()
    }

    /// The cursor, as a character index.
    pub fn cursor(&self) -> (r: usize)
        ensures
            r == self.cursor_spec(),
    {
        self.cursor
    }

    /// The last validation error, if any.
    pub fn error(&self) -> (r: Option<&'static str>)
        ensures
            r == self.error_spec(),
    {
        self.error
    }

    /// Sets the validation error.
    pub fn set_error(&mut self, error: Option<&'static str>)
        ensures
            final(self).error_spec() == error,
            final(self).buffer_spec() == old(self).buffer_spec(),
            final(self).cursor_spec() == old(self).cursor_spec(),
            final(self).key_spec() == old(self).key_spec(),
            final(self).kind_spec() == old(self).kind_spec(),
    {
        self.error = error;
    }

    /// Places the cursor at `cursor` (which may lie past the end).
    pub fn set_cursor_for_test(&mut self, cursor: usize)
        ensures
            final(self).cursor_spec() == cursor,
            final(self).error_spec() == old(self).error_spec(),
            final(self).buffer_spec() == old(self).buffer_spec(),
            final(self).key_spec() == old(self).key_spec(),
            final(self).kind_spec() == old(self).kind_spec(),
    {
        self.cursor = cursor;
    }

    /// Inserts `c` at the cursor and moves the cursor past it; clears the
    /// error.
    pub fn insert_char(&mut self, c: char)
        requires
            old(self).cursor_spec() < usize::MAX,
        ensures
            final(self).buffer_spec() == insert_at(old(self).buffer_spec(), old(self).cursor_spec(), c),
            final(self).cursor_spec() == old(self).cursor_spec() + 1,
            final(self).error_spec() is None,
            final(self).key_spec() == old(self).key_spec(),
            final(self).kind_spec() == old(self).kind_spec(),
    {
        let v = chars_of(self.buffer.as_str());
        let at = if self.cursor <= v.len() { self.cursor } else { v.len() };
        self.buffer = rebuilt_with(&v, at, c);
        self.cursor = self.cursor + 1;
        self.error = None;
    }

    /// Deletes the character before the cursor; nothing at the start.
    pub fn backspace(&mut self)
        ensures
            old(self).cursor_spec() == 0 ==> *final(self) == *old(self),
            old(self).cursor_spec() > 0 ==> {
                let len = old(self).buffer_spec().len();
                &&& final(self).buffer_spec() == remove_range(
                    old(self).buffer_spec(),
                    clamp_to((old(self).cursor_spec() - 1) as nat, len),
                    clamp_to(old(self).cursor_spec(), len),
                )
                &&& final(self).cursor_spec() == old(self).cursor_spec() - 1
                &&& final(self).error_spec() is None
            },
            final(self).key_spec() == old(self).key_spec(),
            final(self).kind_spec() == old(self).kind_spec(),
    {
        if self.cursor == 0 {
            return;
        }
        let v = chars_of(self.buffer.as_str());
        let n = v.len();
        let prev = if self.cursor - 1 <= n { self.cursor - 1 } else { n };
        let curr = if self.cursor <= n { self.cursor } else { n };
        self.buffer = rebuilt_without(&v, prev, curr);
        self.cursor = self.cursor - 1;
        self.error = None;
    }

    /// Deletes the character at the cursor; nothing when the cursor is at
    /// or past the end.
    pub fn delete(&mut self)
        ensures
            old(self).cursor_spec() >= old(self).buffer_spec().len() ==> *final(self) == *old(self),
            old(self).cursor_spec() < old(self).buffer_spec().len() ==> {
                &&& final(self).buffer_spec() == remove_range(
                    old(self).buffer_spec(),
                    old(self).cursor_spec(),
                    old(self).cursor_spec() + 1,
                )
                &&& final(self).cursor_spec() == old(self).cursor_spec()
                &&& final(self).error_spec() is None
            },
            final(self).key_spec() == old(self).key_spec(),
            final(self).kind_spec() == old(self).kind_spec(),
    {
        let v = chars_of(self.buffer.as_str());
        if self.cursor >= v.len() {
            return;
        }
        self.buffer = rebuilt_without(&v, self.cursor, self.cursor + 1);
        self.error = None;
    }

    /// Moves the cursor one character left, stopping at the start.
    pub fn move_left(&mut self)
        ensures
            final(self).cursor_spec() == (if old(self).cursor_spec() > 0 { old(self).cursor_spec() - 1 } else { 0 }),
            final(self).buffer_spec() == old(self).buffer_spec(),
            final(self).error_spec() == old(self).error_spec(),
            final(self).key_spec() == old(self).key_spec(),
            final(self).kind_spec() == old(self).kind_spec(),
    {
        if self.cursor > 0 {
            self.cursor = self.cursor - 1;
        }
    }

    /// Moves the cursor one character right, stopping at the end.
    pub fn move_right(&mut self)
        ensures
            final(self).cursor_spec() == (if old(self).cursor_spec() < old(self).buffer_spec().len() {
                old(self).cursor_spec() + 1
            } else {
                old(self).cursor_spec()
            }),
            final(self).buffer_spec() == old(self).buffer_spec(),
            final(self).error_spec() == old(self).error_spec(),
            final(self).key_spec() == old(self).key_spec(),
            final(self).kind_spec() == old(self).kind_spec(),
    {
        let cc = self.buffer.as_str().unicode_len();
        if self.cursor < cc {
            self.cursor = self.cursor + 1;
        }
    }

    /// Moves the cursor to the start.
    pub fn move_home(&mut self)
        ensures
            final(self).cursor_spec() == 0,
            final(self).buffer_spec() == old(self).buffer_spec(),
            final(self).error_spec() == old(self).error_spec(),
            final(self).key_spec() == old(self).key_spec(),
            final(self).kind_spec() == old(self).kind_spec(),
    {
        self.cursor = 0;
    }

    /// Moves the cursor past the last character.
    pub fn move_end(&mut self)
        ensures
            final(self).cursor_spec() == old(self).buffer_spec().len(),
            final(self).buffer_spec() == old(self).buffer_spec(),
            final(self).error_spec() == old(self).error_spec(),
            final(self).key_spec() == old(self).key_spec(),
            final(self).kind_spec() == old(self).kind_spec(),
    {
        self.cursor = self.buffer.as_str().unicode_len();
    }

    /// Whether `c` may be typed: anything into text, only ASCII digits
    /// into an integer.
    pub fn accepts_char(&self, c: char) -> (r: bool)
        ensures
            r == (self.kind_spec() == EditKind::Text || ('0' <= c && c <= '9')),
    {
        match self.kind {
            EditKind::Text => true,
            EditKind::Integer => '0' <= c && c <= '9',
        }
    }
}

/// Typing a character and deleting it again restores the buffer and the
/// cursor, when the cursor is within the text.
pub proof fn lemma_insert_then_backspace(b: Seq<char>, cursor: nat, c: char)
    requires
        cursor <= b.len(),
    ensures
        remove_range(insert_at(b, cursor, c), clamp_to(cursor, b.len() + 1), clamp_to(cursor + 1, b.len() + 1)) == b,
{
    let ins = insert_at(b, cursor, c);
    assert(ins.len() == b.len() + 1);
    assert(remove_range(ins, cursor, cursor + 1) =~= b);
}

} // verus!
