//! A single-line text field with a cursor that moves by grapheme cluster.

use unicode_segmentation::UnicodeSegmentation;
use vstd::prelude::*;

use crate::text::{chars_of, push_char, push_str, str_eq};

verus! {

/// The extended grapheme clusters of `s`, as `unicode_segmentation`
/// splits them.
pub uninterp spec fn grapheme_clusters(s: Seq<char>) -> Seq<Seq<char>>;

/// The pieces of `gs` joined end to end.
pub open spec fn joined(gs: Seq<Seq<char>>) -> Seq<char>
    decreases gs.len(),
{
    if gs.len() == 0 { Seq::empty() } else { joined(gs.drop_last()) + gs.last() }
}

pub open spec fn string_views(v: Seq<String>) -> Seq<Seq<char>> {
    v.map_values(|s: String| s@)
}

/// Splits `s` into extended grapheme clusters.
///
/// Wraps `UnicodeSegmentation::graphemes(s, true)`. The contract names the
/// clusters; as the crate's iterator hands out consecutive non-empty
/// slices from the start of the string to its end, the clusters are
/// non-empty and joined back together give `s`.
#[verifier::external_body]
fn graphemes(s: &str) -> (r: Vec<String>)
    ensures
        string_views(r@) == grapheme_clusters(s@),
        joined(string_views(r@)) == s@,
        forall|i: int| 0 <= i < r@.len() ==> (#[trigger] r@[i])@.len() > 0,
{
    let mut v = Vec::new();
    for g in s.graphemes(true) {
        v.push(g.to_string());
    }
    v
}

/// Number of grapheme clusters in `s`.
pub open spec fn grapheme_count(s: Seq<char>) -> nat {
    grapheme_clusters(s).len()
}

/// Character offset of cluster `k` of `s`; the end of `s` when there is
/// no such cluster.
pub open spec fn grapheme_offset(s: Seq<char>, k: nat) -> nat {
    if k < grapheme_count(s) {
        joined(grapheme_clusters(s).take(k as int)).len()
    } else {
        s.len()
    }
}

/// The editor's state as a value: text, cursor as a character offset,
/// cursor as a cluster index, digits-only flag.
pub struct EditState {
    pub text: Seq<char>,
    pub cpos: nat,
    pub upos: nat,
    pub numeric: bool,
}

/// `s` without the characters in `start..end`.
pub open spec fn cut(s: Seq<char>, start: nat, end: nat) -> Seq<char> {
    s.take(start as int) + s.skip(end as int)
}

pub open spec fn key_is(key: Seq<char>, name: Seq<char>) -> bool {
    key == name
}

pub open spec fn left_key() -> Seq<char> { seq!['l', 'e', 'f', 't'] }
pub open spec fn right_key() -> Seq<char> { seq!['r', 'i', 'g', 'h', 't'] }
pub open spec fn home_key() -> Seq<char> { seq!['h', 'o', 'm', 'e'] }
pub open spec fn end_key() -> Seq<char> { seq!['e', 'n', 'd'] }
pub open spec fn backspace_key() -> Seq<char> { seq!['b', 'a', 'c', 'k', 's', 'p', 'a', 'c', 'e'] }
pub open spec fn delete_key() -> Seq<char> { seq!['d', 'e', 'l', 'e', 't', 'e'] }

/// A key that is one ASCII character (one byte).
pub open spec fn single_ascii(key: Seq<char>) -> bool {
    key.len() == 1 && (key[0] as u32) < 0x80
}

/// Whether a key inserts a character.
pub open spec fn inserts(st: EditState, key: Seq<char>) -> bool {
    single_ascii(key) && !(st.numeric && !('0' <= key[0] && key[0] <= '9'))
}

/// Whether a command can run without cutting a range that runs backwards
/// or past the end: a backspace removes from the start of the previous
/// cluster to the cursor, a delete from the cursor to the start of the
/// next cluster, and an insertion needs the cursor inside the text.
pub open spec fn command_ok(st: EditState, key: Seq<char>) -> bool {
    &&& (key == backspace_key() && st.upos > 0 ==> grapheme_offset(st.text, (st.upos - 1) as nat)
        <= st.cpos <= st.text.len())
    &&& (key == delete_key() && st.upos < grapheme_count(st.text) ==> st.cpos <= grapheme_offset(
        st.text,
        st.upos + 1,
    ))
    &&& (inserts(st, key) ==> st.cpos <= st.text.len() && st.cpos < usize::MAX && st.upos < usize::MAX)
}

/// The state after a key command, and whether the text changed.
pub open spec fn command_step(st: EditState, key: Seq<char>) -> (EditState, bool) {
    let total = grapheme_count(st.text);
    if key == left_key() {
        if st.upos > 0 {
            let u = (st.upos - 1) as nat;
            (EditState { upos: u, cpos: grapheme_offset(st.text, u), ..st }, false)
        } else {
            (st, false)
        }
    } else if key == right_key() {
        if st.upos < total {
            let u = st.upos + 1;
            (EditState { upos: u, cpos: grapheme_offset(st.text, u), ..st }, false)
        } else {
            (st, false)
        }
    } else if key == home_key() {
        (EditState { upos: 0, cpos: 0, ..st }, false)
    } else if key == end_key() {
        (EditState { upos: total, cpos: st.text.len(), ..st }, false)
    } else if key == backspace_key() {
        if st.upos > 0 {
            let u = (st.upos - 1) as nat;
            let start = grapheme_offset(st.text, u);
            (EditState { text: cut(st.text, start, st.cpos), upos: u, cpos: start, ..st }, true)
        } else {
            (st, false)
        }
    } else if key == delete_key() {
        if st.upos < total {
            let end = grapheme_offset(st.text, st.upos + 1);
            (EditState { text: cut(st.text, st.cpos, end), ..st }, true)
        } else {
            (st, false)
        }
    } else if single_ascii(key) {
        let ch = key[0];
        if st.numeric && !('0' <= ch && ch <= '9') {
            (st, false)
        } else {
            (
                EditState {
                    text: st.text.take(st.cpos as int).push(ch) + st.text.skip(st.cpos as int),
                    cpos: st.cpos + 1,
                    upos: st.upos + 1,
                    ..st
                },
                true,
            )
        }
    } else {
        (st, false)
    }
}

/// Whether the clusters of `s` are what segmenting gives: non-empty
/// pieces that joined back together are `s` (what [`graphemes`] promises
/// of every text it splits).
pub open spec fn clusters_sound(s: Seq<char>) -> bool {
    &&& joined(grapheme_clusters(s)) == s
    &&& forall|i: int| 0 <= i < grapheme_count(s) ==> (#[trigger] grapheme_clusters(s)[i]).len() > 0
}

/// Whether the cursor sits between clusters, at the character offset of
/// its cluster index (as [`TextEdit::new`] leaves it).
pub open spec fn on_boundary(st: EditState) -> bool {
    st.upos <= grapheme_count(st.text) && st.cpos == grapheme_offset(st.text, st.upos)
}

proof fn lemma_graphemes_sound(v: Seq<String>, s: Seq<char>)
    requires
        string_views(v) == grapheme_clusters(s),
        joined(string_views(v)) == s,
        forall|i: int| 0 <= i < v.len() ==> (#[trigger] v[i])@.len() > 0,
    ensures
        clusters_sound(s),
{
    assert forall|i: int| 0 <= i < grapheme_count(s) implies (#[trigger] grapheme_clusters(s)[i]).len() > 0 by {
        assert(grapheme_clusters(s)[i] == v[i]@);
    }
}

proof fn lemma_offset_step(s: Seq<char>, k: nat)
    requires
        clusters_sound(s),
        k < grapheme_count(s),
    ensures
        grapheme_offset(s, k) < grapheme_offset(s, k + 1) <= s.len(),
{
    let gs = grapheme_clusters(s);
    assert(gs.take(k as int + 1).drop_last() =~= gs.take(k as int));
    assert(gs.take(k as int + 1).last() == gs[k as int]);
    assert(gs[k as int].len() > 0);
    if k + 1 == gs.len() {
        assert(gs.take(k as int + 1) =~= gs);
    } else {
        lemma_joined_prefix_len(gs, k + 1);
    }
}

proof fn lemma_joined_prefix_len(gs: Seq<Seq<char>>, k: nat)
    requires
        k <= gs.len(),
    ensures
        joined(gs.take(k as int)).len() <= joined(gs).len(),
    decreases gs.len(),
{
    if k < gs.len() {
        assert(gs.drop_last().take(k as int) =~= gs.take(k as int));
        lemma_joined_prefix_len(gs.drop_last(), k);
    } else {
        assert(gs.take(k as int) =~= gs);
    }
}

/// The cursor keys keep the cursor between clusters.
pub proof fn lemma_cursor_keys_keep_boundary(st: EditState, key: Seq<char>)
    requires
        clusters_sound(st.text),
        on_boundary(st),
        key == left_key() || key == right_key() || key == home_key() || key == end_key(),
    ensures
        on_boundary(command_step(st, key).0),
        command_step(st, key).0.text == st.text,
{
    if grapheme_count(st.text) == 0 {
        assert(grapheme_clusters(st.text) =~= Seq::<Seq<char>>::empty());
    } else {
        assert(grapheme_clusters(st.text).take(0) =~= Seq::<Seq<char>>::empty());
    }
}

/// A key command reports a change exactly when it changes the text, for
/// a cursor between clusters: cursor keys never do, backspace and delete
/// do whenever there is a cluster to remove, an accepted character always
/// does.
pub proof fn lemma_command_reports_change(st: EditState, key: Seq<char>)
    requires
        clusters_sound(st.text),
        on_boundary(st),
        command_ok(st, key),
    ensures
        command_step(st, key).1 == (command_step(st, key).0.text != st.text),
{
    let total = grapheme_count(st.text);
    let (st2, changed) = command_step(st, key);
    if key == left_key() || key == right_key() || key == home_key() || key == end_key() {
    } else if key == backspace_key() {
        if st.upos > 0 {
            lemma_offset_step(st.text, (st.upos - 1) as nat);
            assert(st2.text.len() < st.text.len());
        }
    } else if key == delete_key() {
        if st.upos < total {
            lemma_offset_step(st.text, st.upos);
            assert(st2.text.len() < st.text.len());
        }
    } else if single_ascii(key) {
        if !(st.numeric && !('0' <= key[0] && key[0] <= '9')) {
            assert(st2.text.len() == st.text.len() + 1);
        }
    }
}

/// The window of clusters shown when at most `limit` fit (`limit == 0`
/// shows all): it follows the cursor, keeping it near the middle.
pub open spec fn render_window(total: nat, upos: nat, limit: nat) -> (nat, nat) {
    if limit > 0 && total > limit {
        let half = limit / 2;
        if upos < half {
            (0, limit)
        } else if upos > total - half {
            ((total - limit) as nat, total)
        } else {
            ((upos - half) as nat, (upos - half + limit) as nat)
        }
    } else {
        (0, total)
    }
}

/// The window follows the cursor: when not every cluster fits, exactly
/// `limit` clusters are shown and the cursor lies within them, on a shown
/// cluster unless it is past the last cluster of the text, and half a
/// window from its start unless the window meets an end of the text. A
/// window that fits in the text and holds a cursor past the last cluster
/// ends with the text, so the cursor space is drawn.
pub proof fn lemma_window_holds_cursor(total: nat, upos: nat, limit: nat)
    requires
        upos <= total,
        0 < limit < total,
    ensures
        ({
            let (start, end) = render_window(total, upos, limit);
            &&& end - start == limit
            &&& start <= upos <= end
            &&& upos < end || upos == total
            &&& start == 0 || end == total || upos - start == limit / 2
            &&& render_ok(total, upos, limit) && upos == total ==> end == total
        }),
{
}

/// With room for every cluster, the window is the whole text.
pub proof fn lemma_window_all_when_room(total: nat, upos: nat, limit: nat)
    requires
        limit == 0 || total <= limit,
    ensures
        render_window(total, upos, limit) == (0nat, total),
{
}

pub open spec fn underline_on() -> Seq<char> { seq!['\x1b', '[', '4', 'm'] }
pub open spec fn underline_off() -> Seq<char> { seq!['\x1b', '[', '2', '4', 'm'] }

/// Clusters `start..end` of `gs`, the one under the cursor underlined.
pub open spec fn render_clusters(gs: Seq<Seq<char>>, upos: nat, start: nat, end: nat) -> Seq<char>
    decreases end - start,
{
    if end <= start {
        Seq::empty()
    } else {
        let k = (end - 1) as nat;
        render_clusters(gs, upos, start, k) + (if k == upos { underline_on() + gs[k as int] + underline_off() } else {
            gs[k as int]
        })
    }
}

/// The field as rendered: the visible clusters, then an underlined space
/// when the cursor sits past the last cluster.
pub open spec fn render_text(gs: Seq<Seq<char>>, upos: nat, limit: nat) -> Seq<char> {
    let (start, end) = render_window(gs.len(), upos, limit);
    render_clusters(gs, upos, start, end) + (if upos >= end && upos == gs.len() {
        underline_on() + seq![' '] + underline_off()
    } else {
        Seq::empty()
    })
}

/// Whether the window fits in the text (the window is one cluster too long
/// when `limit` is odd and the cursor sits exactly half a window before
/// the end).
pub open spec fn render_ok(total: nat, upos: nat, limit: nat) -> bool {
    render_window(total, upos, limit).1 <= total
}


proof fn lemma_joined_take_len(gs: Seq<Seq<char>>, i: int, j: int)
    requires
        0 <= i <= j <= gs.len(),
    ensures
        joined(gs.take(i)).len() <= joined(gs.take(j)).len(),
    decreases j - i,
{
    if i < j {
        assert(gs.take(j).drop_last() =~= gs.take(j - 1));
        lemma_joined_take_len(gs, i, j - 1);
    }
}

/// Character offset of cluster `k`, or `len` when there is none.
fn cluster_offset(gs: &Vec<String>, k: usize, len: usize) -> (r: usize)
    requires
        joined(string_views(gs@)).len() == len,
    ensures
        k < gs.len() ==> r == joined(string_views(gs@).take(k as int)).len(),
        k >= gs.len() ==> r == len,
{
    if k >= gs.len() {
        return len;
    }
    let ghost v = string_views(gs@);
    let mut off: usize = 0;
    let mut i: usize = 0;
    while i < k
        invariant
            i <= k < gs.len(),
            v == string_views(gs@),
            joined(v).len() == len,
            off == joined(v.take(i as int)).len(),
        decreases k - i,
    {
        proof {
            assert(v.take(i + 1).drop_last() =~= v.take(i as int));
            lemma_joined_take_len(v, i + 1, v.len() as int);
            assert(v.take(v.len() as int) =~= v);
        }
        off = off + gs[i].as_str().unicode_len();
        i = i + 1;
    }
    off
}

/// `s` without the characters in `start..end`.
fn cut_string(s: &str, start: usize, end: usize) -> (r: String)
    requires
        start <= end <= s@.len(),
    ensures
        r@ == cut(s@, start as nat, end as nat),
{
    let v = chars_of(s);
    let mut out = String::new();
    let mut i: usize = 0;
    while i < start
        invariant
            i <= start <= end <= v.len(),
            v@ == s@,
            out@ == v@.take(i as int),
        decreases start - i,
    {
        push_char(&mut out, v[i]);
        i = i + 1;
        assert(out@ =~= v@.take(i as int));
    }
    let mut j: usize = end;
    while j < v.len()
        invariant
            start <= end <= j <= v.len(),
            v@ == s@,
            out@ == v@.take(start as int) + v@.subrange(end as int, j as int),
        decreases v.len() - j,
    {
        push_char(&mut out, v[j]);
        j = j + 1;
        assert(out@ =~= v@.take(start as int) + v@.subrange(end as int, j as int));
    }
    assert(out@ =~= cut(s@, start as nat, end as nat));
    out
}

/// `s` with `ch` inserted before character `at`.
fn insert_at(s: &str, at: usize, ch: char) -> (r: String)
    requires
        at <= s@.len(),
    ensures
        r@ == s@.take(at as int).push(ch) + s@.skip(at as int),
{
    let v = chars_of(s);
    let mut out = String::new();
    let mut i: usize = 0;
    while i < v.len()
        invariant
            i <= v.len(),
            at <= v.len(),
            v@ == s@,
            i <= at ==> out@ == v@.take(i as int),
            i > at ==> out@ == v@.take(at as int).push(ch) + v@.subrange(at as int, i as int),
        decreases v.len() - i,
    {
        if i == at {
            push_char(&mut out, ch);
        }
        push_char(&mut out, v[i]);
        i = i + 1;
        assert(out@ =~= (if i <= at { v@.take(i as int) } else { v@.take(at as int).push(ch) + v@.subrange(at as int, i as int) }));
    }
    if at == v.len() {
        push_char(&mut out, ch);
    }
    assert(out@ =~= s@.take(at as int).push(ch) + s@.skip(at as int));
    out
}

/// A single-line text field.
#[derive(Debug, Clone)]
pub struct TextEdit {
    /// The text being edited.
    pub text: String,
    /// Cursor as a character offset into `text`.
    cpos: usize,
    /// Cursor as a grapheme cluster index.
    upos: usize,
    /// Whether only digits are accepted.
    numeric: bool,
}

impl TextEdit {
    /// The state as a value.
    pub closed spec fn state(&self) -> EditState {
        EditState { text: self.text@, cpos: self.cpos as nat, upos: self.upos as nat, numeric: self.numeric }
    }

    /// A field holding `text` with the cursor at its end.
    pub fn new(text: String, numeric: bool) -> (r: Self)
        ensures
            r.state() == (EditState {
                text: text@,
                cpos: text@.len(),
                upos: grapheme_count(text@),
                numeric,
            }),
            on_boundary(r.state()),
            clusters_sound(text@),
    {
        let gs = graphemes(text.as_str());
        proof { lemma_graphemes_sound(gs@, text@); }
        let n = text.as_str().unicode_len();
        TextEdit { text, cpos: n, upos: gs.len(), numeric }
    }

    /// Cursor position in grapheme clusters.
    pub fn upos(&self) -> (r: usize)
        ensures
            r == self.state().upos,
    {
        self.upos
    }

    /// Cursor position in characters.
    pub fn cursor_offset(&self) -> (r: usize)
        ensures
            r == self.state().cpos,
    {
        self.cpos
    }


    /// Runs one key command: `left`, `right`, `home`, `end`, `backspace`,
    /// `delete`, or a single ASCII character to insert at the cursor (only
    /// digits when the field is numeric). Returns whether the text changed.
    pub fn command(&mut self, key: &str) -> (changed: bool)
        requires
            command_ok(old(self).state(), key@),
        ensures
            (final(self).state(), changed) == command_step(old(self).state(), key@),
            clusters_sound(old(self).state().text),
            on_boundary(old(self).state()) ==> changed == (final(self).state().text != old(self).state().text),
    {
        proof {
            reveal_strlit("left");
            reveal_strlit("right");
            reveal_strlit("home");
            reveal_strlit("end");
            reveal_strlit("backspace");
            reveal_strlit("delete");
            assert("left"@ =~= left_key());
            assert("right"@ =~= right_key());
            assert("home"@ =~= home_key());
            assert("end"@ =~= end_key());
            assert("backspace"@ =~= backspace_key());
            assert("delete"@ =~= delete_key());
        }
        let gs = graphemes(self.text.as_str());
        proof {
            lemma_graphemes_sound(gs@, self.text@);
            if on_boundary(self.state()) {
                lemma_command_reports_change(self.state(), key@);
            }
        }
        let total = gs.len();
        let len = self.text.as_str().unicode_len();
        if str_eq(key, "left") {
            if self.upos > 0 {
                self.upos = self.upos - 1;
                self.cpos = cluster_offset(&gs, self.upos, len);
            }
            false
        } else if str_eq(key, "right") {
            if self.upos < total {
                self.upos = self.upos + 1;
                self.cpos = cluster_offset(&gs, self.upos, len);
            }
            false
        } else if str_eq(key, "home") {
            self.upos = 0;
            self.cpos = 0;
            false
        } else if str_eq(key, "end") {
            self.upos = total;
            self.cpos = len;
            false
        } else if str_eq(key, "backspace") {
            if self.upos > 0 {
                self.upos = self.upos - 1;
                let start = cluster_offset(&gs, self.upos, len);
                let t = cut_string(self.text.as_str(), start, self.cpos);
                self.text = t;
                self.cpos = start;
                true
            } else {
                false
            }
        } else if str_eq(key, "delete") {
            if self.upos < total {
                let end = cluster_offset(&gs, self.upos + 1, len);
                proof {
                    if self.upos + 1 < total {
                        lemma_joined_take_len(string_views(gs@), self.upos + 1, total as int);
                        assert(string_views(gs@).take(total as int) =~= string_views(gs@));
                    }
                }
                let t = cut_string(self.text.as_str(), self.cpos, end);
                self.text = t;
                true
            } else {
                false
            }
        } else if key.unicode_len() == 1 && (key.get_char(0) as u32) < 0x80 {
            let ch = key.get_char(0);
            if self.numeric && !('0' <= ch && ch <= '9') {
                return false;
            }
            let t = insert_at(self.text.as_str(), self.cpos, ch);
            self.text = t;
            self.cpos = self.cpos + 1;
            self.upos = self.upos + 1;
            true
        } else {
            false
        }
    }

    /// Checks the conditions under which [`TextEdit::command`] runs, and
    /// runs it when they hold; `None`, with the field unchanged, when they
    /// do not.
    pub fn try_command(&mut self, key: &str) -> (r: Option<bool>)
        ensures
            r is None ==> *final(self) == *old(self) && !command_ok(old(self).state(), key@),
            r matches Some(changed) ==> command_ok(old(self).state(), key@) && (final(self).state(), changed)
                == command_step(old(self).state(), key@),
            on_boundary(old(self).state()) ==> (r matches Some(changed) ==> changed == (final(self).state().text
                != old(self).state().text)),
    {
        proof {
            reveal_strlit("backspace");
            reveal_strlit("delete");
            assert("backspace"@ =~= backspace_key());
            assert("delete"@ =~= delete_key());
        }
        let gs = graphemes(self.text.as_str());
        let total = gs.len();
        let len = self.text.as_str().unicode_len();
        let ok_back = !(str_eq(key, "backspace") && self.upos > 0) || (cluster_offset(&gs, self.upos - 1, len) <= self.cpos && self.cpos <= len);
        let ok_del = !(str_eq(key, "delete") && self.upos < total) || self.cpos <= cluster_offset(&gs, self.upos + 1, len);
        let single = key.unicode_len() == 1 && (key.get_char(0) as u32) < 0x80;
        let ins = single && !(self.numeric && !('0' <= key.get_char(0) && key.get_char(0) <= '9'));
        let ok_ins = !ins || (self.cpos <= len && self.cpos < usize::MAX && self.upos < usize::MAX);
        if ok_back && ok_del && ok_ins {
            Some(self.command(key))
        } else {
            None
        }
    }

    /// The field as shown: at most `limit` clusters (all when `limit` is 0)
    /// around the cursor, the cluster under the cursor underlined, and an
    /// underlined space when the cursor is past the end.
    pub fn render(&self, limit: usize) -> (r: String)
        requires
            render_ok(grapheme_count(self.state().text), self.state().upos, limit as nat),
        ensures
            r@ == render_text(grapheme_clusters(self.state().text), self.state().upos, limit as nat),
    {
        let gs = graphemes(self.text.as_str());
        let ghost v = string_views(gs@);
        let total = gs.len();
        let upos = self.upos;
        let (start, end) = if limit > 0 && total > limit {
            let half = limit / 2;
            if upos < half {
                (0, limit)
            } else if upos > total - half {
                (total - limit, total)
            } else {
                (upos - half, upos - half + limit)
            }
        } else {
            (0, total)
        };
        assert((start as nat, end as nat) == render_window(total as nat, upos as nat, limit as nat));
        let mut out = String::new();
        let mut k: usize = start;
        while k < end
            invariant
                start <= k <= end <= total,
                total == gs.len(),
                v == string_views(gs@),
                out@ == render_clusters(v, upos as nat, start as nat, k as nat),
            decreases end - k,
        {
            if k == upos {
                push_str(&mut out, "\x1b[4m");
                push_str(&mut out, gs[k].as_str());
                push_str(&mut out, "\x1b[24m");
                proof {
                    reveal_strlit("\x1b[4m");
                    reveal_strlit("\x1b[24m");
                }
            } else {
                push_str(&mut out, gs[k].as_str());
            }
            k = k + 1;
            assert(out@ =~= render_clusters(v, upos as nat, start as nat, k as nat));
        }
        if upos >= end && upos == total {
            push_str(&mut out, "\x1b[4m \x1b[24m");
            proof {
                reveal_strlit("\x1b[4m \x1b[24m");
            }
        }
        assert(out@ =~= render_text(v, upos as nat, limit as nat));
        out
    }

    /// [`TextEdit::render`] when its window fits in the text; `None` when
    /// the window would run one cluster past the end.
    pub fn try_render(&self, limit: usize) -> (r: Option<String>)
        ensures
            r is None <==> !render_ok(grapheme_count(self.state().text), self.state().upos, limit as nat),
            r matches Some(s) ==> s@ == render_text(grapheme_clusters(self.state().text), self.state().upos, limit as nat),
    {
        let gs = graphemes(self.text.as_str());
        let total = gs.len();
        let upos = self.upos;
        let end = if limit > 0 && total > limit {
            let half = limit / 2;
            if upos < half {
                limit
            } else if upos > total - half {
                total
            } else {
                if upos - half > total {
                    return None;
                }
                if total - (upos - half) < limit {
                    return None;
                }
                upos - half + limit
            }
        } else {
            total
        };
        if end <= total {
            Some(self.render(limit))
        } else {
            None
        }
    }

    /// Empties the field and puts the cursor at the start.
    pub fn clear(&mut self)
        ensures
            final(self).state() == (EditState { text: Seq::empty(), cpos: 0, upos: 0, ..old(self).state() }),
    {
        self.text = String::new();
        self.cpos = 0;
        self.upos = 0;
    }
}

} // verus!
