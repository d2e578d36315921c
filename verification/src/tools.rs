//! Text measuring and formatting helpers: display width, justification,
//! durations and temperature scales.

use vstd::prelude::*;

use crate::text::{
    chars_of, dec, digit_char, digit_to_char, is_ascii_letter, push_char, push_dec, push_spaces, push_str, replace_all, replaced,
    spaces, str_eq, to_owned_string, utf8_len, utf8_len_of, utf8_width,
};

verus! {

/// The display width `unicode_width` gives a string.
pub uninterp spec fn unicode_str_width(s: Seq<char>) -> usize;

/// The display width `unicode_width` gives a character (`None` for a
/// control character).
pub uninterp spec fn unicode_char_width(c: char) -> Option<usize>;

/// Whether every character is printable ASCII (`' '..='~'`).
pub open spec fn printable_ascii(s: Seq<char>) -> bool {
    forall|i: int| 0 <= i < s.len() ==> ' ' <= #[trigger] s[i] && s[i] <= '~'
}

/// `UnicodeWidthStr::width`. The crate documents width 1 for every
/// printable ASCII character and no string-level ligature among them,
/// so such a string is as wide as it is long; other widths come from
/// the crate's Unicode tables and are only named here.
#[verifier::external_body]
fn str_width(s: &str) -> (w: usize)
    ensures
        w == unicode_str_width(s@),
        printable_ascii(s@) ==> w == s@.len(),
{
    unicode_width::UnicodeWidthStr::width(s)
}

/// `UnicodeWidthChar::width`. The crate's source answers `None` for the
/// control characters below U+0020 and from U+007F to U+009F, 1 for
/// printable ASCII, and a table width of at most 3 from U+00A0 on.
#[verifier::external_body]
fn char_width(c: char) -> (w: Option<usize>)
    ensures
        w == unicode_char_width(c),
        (' ' <= c && c <= '~') ==> w == Some(1usize),
        ((c as u32) < 0x20 || (0x7F <= (c as u32) && (c as u32) < 0xA0)) ==> w is None,
        (c as u32) >= 0xA0 ==> w is Some,
        w matches Some(x) ==> x <= 3,
{
    unicode_width::UnicodeWidthChar::width(c)
}

/// Width of a character inside a string measured column by column:
/// control characters count as zero.
pub open spec fn column_width(c: char) -> nat {
    match unicode_char_width(c) {
        Some(w) => w as nat,
        None => 0,
    }
}

/// Whether `c` ends an escape sequence.
pub open spec fn ends_escape(c: char) -> bool {
    is_ascii_letter(c) || c == 'm'
}

/// `s` without its escape sequences (from ESC up to and including the
/// next ASCII letter), given whether an escape is open at its start.
pub open spec fn strip_ansi_from(s: Seq<char>, in_escape: bool) -> Seq<char>
    decreases s.len(),
{
    if s.len() == 0 {
        Seq::empty()
    } else if in_escape {
        strip_ansi_from(s.drop_first(), !ends_escape(s[0]))
    } else if s[0] == '\x1b' {
        strip_ansi_from(s.drop_first(), true)
    } else {
        seq![s[0]] + strip_ansi_from(s.drop_first(), false)
    }
}

/// `s` without its escape sequences.
pub open spec fn stripped(s: Seq<char>) -> Seq<char> {
    strip_ansi_from(s, false)
}

/// Display width of `s`, escape sequences ignored.
pub open spec fn display_len(s: Seq<char>) -> nat {
    unicode_str_width(stripped(s)) as nat
}

/// The longest prefix of `s` whose visible characters fit in `room`
/// columns, given the columns used so far: escape sequences are kept
/// whole, and the first character that does not fit ends the text.
pub open spec fn fit_from(s: Seq<char>, room: nat, used: nat, in_escape: bool) -> Seq<char>
    decreases s.len(),
{
    if s.len() == 0 {
        Seq::empty()
    } else if in_escape {
        seq![s[0]] + fit_from(s.drop_first(), room, used, !ends_escape(s[0]))
    } else if s[0] == '\x1b' {
        seq![s[0]] + fit_from(s.drop_first(), room, used, true)
    } else if used + column_width(s[0]) > room {
        Seq::empty()
    } else {
        seq![s[0]] + fit_from(s.drop_first(), room, used + column_width(s[0]), false)
    }
}

/// `s` cut to `len` display columns from the left.
pub open spec fn fitted(s: Seq<char>, len: nat) -> Seq<char> {
    fit_from(s, len, 0, false)
}

/// `s` with its first `skip` display columns of visible characters
/// dropped (a character counts once the columns before it fall short of
/// `skip`); escape sequences are kept.
pub open spec fn drop_columns_from(s: Seq<char>, skip: nat, skipped: nat, in_escape: bool) -> Seq<char>
    decreases s.len(),
{
    if s.len() == 0 {
        Seq::empty()
    } else if in_escape {
        seq![s[0]] + drop_columns_from(s.drop_first(), skip, skipped, !ends_escape(s[0]))
    } else if s[0] == '\x1b' {
        seq![s[0]] + drop_columns_from(s.drop_first(), skip, skipped, true)
    } else if skipped < skip {
        drop_columns_from(s.drop_first(), skip, skipped + column_width(s[0]), false)
    } else {
        seq![s[0]] + drop_columns_from(s.drop_first(), skip, skipped, false)
    }
}

/// `s` cut to `len` display columns from the right.
pub open spec fn left_fitted(s: Seq<char>, len: nat) -> Seq<char> {
    let total = display_len(s);
    if total <= len { s } else { drop_columns_from(s, (total - len) as nat, 0, false) }
}

/// The first `b` bytes of `s`.
pub open spec fn take_bytes(s: Seq<char>, b: nat) -> Seq<char>
    decreases s.len(),
{
    if b == 0 || s.len() == 0 || utf8_width(s[0]) > b {
        Seq::empty()
    } else {
        seq![s[0]] + take_bytes(s.drop_first(), (b - utf8_width(s[0])) as nat)
    }
}

/// Whether byte offset `b` falls between two characters of `s`.
pub open spec fn on_char_boundary(s: Seq<char>, b: nat) -> bool
    decreases s.len(),
{
    b == 0 || (s.len() > 0 && utf8_width(s[0]) <= b && on_char_boundary(s.drop_first(), (b - utf8_width(s[0])) as nat))
}

/// The length a justification pads to: display columns when `utf`, bytes
/// otherwise.
pub open spec fn measured_len(s: Seq<char>, utf: bool) -> nat {
    if utf { display_len(s) } else { utf8_len(s) }
}

/// `s` cut to `width` (columns when `utf`, bytes otherwise).
pub open spec fn cut_to(s: Seq<char>, width: nat, utf: bool) -> Seq<char> {
    if utf { fitted(s, width) } else { take_bytes(s, width) }
}

/// What the justifications may cut: a byte cut must fall between
/// characters.
pub open spec fn cut_ok(s: Seq<char>, width: nat, utf: bool) -> bool {
    !utf && utf8_len(s) >= width ==> on_char_boundary(s, width)
}

/// `s` left-justified in `width`.
pub open spec fn ljust_text(s: Seq<char>, width: nat, utf: bool) -> Seq<char> {
    let cur = measured_len(s, utf);
    if cur >= width { cut_to(s, width, utf) } else { s + spaces((width - cur) as nat) }
}

/// `s` right-justified in `width`.
pub open spec fn rjust_text(s: Seq<char>, width: nat, utf: bool) -> Seq<char> {
    let cur = measured_len(s, utf);
    if cur >= width { cut_to(s, width, utf) } else { spaces((width - cur) as nat) + s }
}

/// `s` centred in `width`, the odd space on the right.
pub open spec fn cjust_text(s: Seq<char>, width: nat, utf: bool) -> Seq<char> {
    let cur = measured_len(s, utf);
    if cur >= width {
        cut_to(s, width, utf)
    } else {
        let pad = (width - cur) as nat;
        spaces(pad / 2) + s + spaces((pad - pad / 2) as nat)
    }
}

/// `s` without its escape sequences.
pub fn strip_ansi(s: &str) -> (r: String)
    ensures
        r@ == stripped(s@),
{
    let v = chars_of(s);
    let mut out = String::new();
    let mut in_escape = false;
    let mut i: usize = 0;
    assert(v@.skip(0) =~= v@);
    while i < v.len()
        invariant
            i <= v@.len(),
            v@ == s@,
            out@ + strip_ansi_from(v@.skip(i as int), in_escape) == stripped(s@),
        decreases v@.len() - i,
    {
        let ch = v[i];
        assert(v@.skip(i as int).drop_first() =~= v@.skip(i + 1));
        if in_escape {
            if ('a' <= ch && ch <= 'z') || ('A' <= ch && ch <= 'Z') || ch == 'm' {
                in_escape = false;
            }
        } else if ch == '\x1b' {
            in_escape = true;
        } else {
            let ghost before = out@;
            push_char(&mut out, ch);
            assert(out@ + strip_ansi_from(v@.skip(i + 1), false) =~= before + (seq![ch] + strip_ansi_from(v@.skip(i + 1), false)));
        }
        i = i + 1;
    }
    assert(v@.skip(i as int) =~= Seq::<char>::empty());
    assert(out@ + Seq::<char>::empty() =~= out@);
    out
}

/// Printable ASCII text has no escapes, takes a byte per character, and
/// every character count is a byte offset between two characters.
pub proof fn lemma_printable_measures(s: Seq<char>)
    requires
        printable_ascii(s),
    ensures
        stripped(s) == s,
        utf8_len(s) == s.len(),
        on_char_boundary(s, s.len()),
    decreases s.len(),
{
    if s.len() > 0 {
        let t = s.drop_first();
        assert(printable_ascii(t)) by {
            assert forall|i: int| 0 <= i < t.len() implies ' ' <= #[trigger] t[i] && t[i] <= '~' by {
                assert(t[i] == s[i + 1]);
            }
        }
        let u = s.drop_last();
        assert(printable_ascii(u)) by {
            assert forall|i: int| 0 <= i < u.len() implies ' ' <= #[trigger] u[i] && u[i] <= '~' by {
                assert(u[i] == s[i]);
            }
        }
        lemma_printable_measures(t);
        lemma_printable_measures(u);
        assert(' ' <= s[0] && s[0] <= '~');
        assert(' ' <= s.last() && s.last() <= '~');
        assert(seq![s[0]] + t =~= s);
    }
}

/// Display width of `s`, escape sequences ignored (its length when it is
/// printable ASCII).
pub fn ulen(s: &str, wide: bool) -> (r: usize)
    ensures
        r == display_len(s@),
        printable_ascii(s@) ==> r == s@.len(),
{
    let stripped_s = strip_ansi(s);
    proof {
        if printable_ascii(s@) {
            lemma_printable_measures(s@);
        }
    }
    str_width(stripped_s.as_str())
}

/// `s` truncated to `len` display columns; escape sequences are kept.
pub fn uresize(s: &str, len: usize, wide: bool) -> (r: String)
    ensures
        r@ == fitted(s@, len as nat),
{
    let v = chars_of(s);
    let mut out = String::new();
    let mut used: usize = 0;
    let mut in_escape = false;
    let mut i: usize = 0;
    assert(v@.skip(0) =~= v@);
    while i < v.len()
        invariant
            i <= v@.len(),
            v@ == s@,
            used <= len,
            out@ + fit_from(v@.skip(i as int), len as nat, used as nat, in_escape) == fitted(s@, len as nat),
        decreases v@.len() - i,
    {
        let ch = v[i];
        let ghost before = out@;
        assert(v@.skip(i as int).drop_first() =~= v@.skip(i + 1));
        if in_escape {
            push_char(&mut out, ch);
            if ('a' <= ch && ch <= 'z') || ('A' <= ch && ch <= 'Z') || ch == 'm' {
                in_escape = false;
            }
            assert(out@ + fit_from(v@.skip(i + 1), len as nat, used as nat, in_escape) =~= before + (seq![ch] + fit_from(v@.skip(i + 1), len as nat, used as nat, in_escape)));
        } else if ch == '\x1b' {
            push_char(&mut out, ch);
            in_escape = true;
            assert(out@ + fit_from(v@.skip(i + 1), len as nat, used as nat, true) =~= before + (seq![ch] + fit_from(v@.skip(i + 1), len as nat, used as nat, true)));
        } else {
            let w: usize = match char_width(ch) {
                Some(x) => x,
                None => 0,
            };
            if w > len - used {
                assert(out@ + Seq::<char>::empty() =~= out@);
                return out;
            }
            push_char(&mut out, ch);
            used = used + w;
            assert(out@ + fit_from(v@.skip(i + 1), len as nat, used as nat, false) =~= before + (seq![ch] + fit_from(v@.skip(i + 1), len as nat, used as nat, false)));
        }
        i = i + 1;
    }
    assert(v@.skip(i as int) =~= Seq::<char>::empty());
    assert(out@ + Seq::<char>::empty() =~= out@);
    out
}

/// `s` truncated from the left to `len` display columns; escape
/// sequences are kept.
pub fn luresize(s: &str, len: usize, wide: bool) -> (r: String)
    ensures
        r@ == left_fitted(s@, len as nat),
{
    let total = ulen(s, false);
    if total <= len {
        return to_owned_string(s);
    }
    let skip: usize = total - len;
    let v = chars_of(s);
    let mut out = String::new();
    let mut skipped: u128 = 0;
    let mut in_escape = false;
    let mut i: usize = 0;
    assert(v@.skip(0) =~= v@);
    while i < v.len()
        invariant
            i <= v@.len(),
            v@ == s@,
            skip == display_len(s@) - len,
            skipped <= skip + 3,
            out@ + drop_columns_from(v@.skip(i as int), skip as nat, skipped as nat, in_escape) == left_fitted(s@, len as nat),
        decreases v@.len() - i,
    {
        let ch = v[i];
        let ghost before = out@;
        assert(v@.skip(i as int).drop_first() =~= v@.skip(i + 1));
        if in_escape {
            push_char(&mut out, ch);
            if ('a' <= ch && ch <= 'z') || ('A' <= ch && ch <= 'Z') || ch == 'm' {
                in_escape = false;
            }
            assert(out@ + drop_columns_from(v@.skip(i + 1), skip as nat, skipped as nat, in_escape) =~= before + (seq![ch] + drop_columns_from(v@.skip(i + 1), skip as nat, skipped as nat, in_escape)));
        } else if ch == '\x1b' {
            push_char(&mut out, ch);
            in_escape = true;
            assert(out@ + drop_columns_from(v@.skip(i + 1), skip as nat, skipped as nat, true) =~= before + (seq![ch] + drop_columns_from(v@.skip(i + 1), skip as nat, skipped as nat, true)));
        } else {
            let w: usize = match char_width(ch) {
                Some(x) => x,
                None => 0,
            };
            if skipped < skip as u128 {
                skipped = skipped + w as u128;
            } else {
                push_char(&mut out, ch);
                assert(out@ + drop_columns_from(v@.skip(i + 1), skip as nat, skipped as nat, false) =~= before + (seq![ch] + drop_columns_from(v@.skip(i + 1), skip as nat, skipped as nat, false)));
            }
        }
        i = i + 1;
    }
    assert(v@.skip(i as int) =~= Seq::<char>::empty());
    assert(out@ + Seq::<char>::empty() =~= out@);
    out
}

/// The first `b` bytes of `s`, `b` falling between two characters.
fn byte_prefix(s: &str, b: usize) -> (r: String)
    requires
        on_char_boundary(s@, b as nat),
    ensures
        r@ == take_bytes(s@, b as nat),
{
    let v = chars_of(s);
    let mut out = String::new();
    let mut rem: usize = b;
    let mut i: usize = 0;
    assert(v@.skip(0) =~= v@);
    while i < v.len() && rem > 0
        invariant
            i <= v@.len(),
            v@ == s@,
            on_char_boundary(v@.skip(i as int), rem as nat),
            out@ + take_bytes(v@.skip(i as int), rem as nat) == take_bytes(s@, b as nat),
        decreases v@.len() - i,
    {
        let ch = v[i];
        assert(v@.skip(i as int).drop_first() =~= v@.skip(i + 1));
        let w: usize = if (ch as u32) < 0x80 { 1 } else if (ch as u32) < 0x800 { 2 } else if (ch as u32) < 0x10000 { 3 } else { 4 };
        let ghost before = out@;
        push_char(&mut out, ch);
        rem = rem - w;
        i = i + 1;
        assert(out@ + take_bytes(v@.skip(i as int), rem as nat) =~= before + (seq![ch] + take_bytes(v@.skip(i as int), rem as nat)));
    }
    assert(take_bytes(v@.skip(i as int), rem as nat) =~= Seq::<char>::empty());
    assert(out@ + Seq::<char>::empty() =~= out@);
    out
}

/// `s` cut to `width`: display columns when `utf`, bytes otherwise.
fn cut(s: &str, width: usize, utf: bool) -> (r: String)
    requires
        cut_ok(s@, width as nat, utf),
        !utf ==> utf8_len(s@) >= width,
    ensures
        r@ == cut_to(s@, width as nat, utf),
{
    if utf { uresize(s, width, false) } else { byte_prefix(s, width) }
}

/// Length of `s` as the justifications measure it, saturating at
/// `usize::MAX`.
fn measure(s: &str, utf: bool) -> (n: usize)
    ensures
        measured_len(s@, utf) <= usize::MAX ==> n == measured_len(s@, utf),
        measured_len(s@, utf) > usize::MAX ==> n == usize::MAX,
{
    if utf { ulen(s, false) } else { utf8_len_of(s) }
}

/// `s` left-justified: padded with spaces on the right to `width`, or cut
/// to it (columns when `utf`, bytes otherwise).
pub fn ljust(s: &str, width: usize, utf: bool) -> (r: String)
    requires
        cut_ok(s@, width as nat, utf),
    ensures
        r@ == ljust_text(s@, width as nat, utf),
{
    let cur = measure(s, utf);
    if cur >= width {
        cut(s, width, utf)
    } else {
        let mut r = to_owned_string(s);
        push_spaces(&mut r, width - cur);
        r
    }
}

/// `s` right-justified: padded with spaces on the left to `width`, or
/// cut to it (columns when `utf`, bytes otherwise).
pub fn rjust(s: &str, width: usize, utf: bool) -> (r: String)
    requires
        cut_ok(s@, width as nat, utf),
    ensures
        r@ == rjust_text(s@, width as nat, utf),
{
    let cur = measure(s, utf);
    if cur >= width {
        cut(s, width, utf)
    } else {
        let mut r = String::new();
        push_spaces(&mut r, width - cur);
        push_str(&mut r, s);
        r
    }
}

/// `s` centred in `width` (the odd space on the right), or cut to it
/// (columns when `utf`, bytes otherwise).
pub fn cjust(s: &str, width: usize, utf: bool) -> (r: String)
    requires
        cut_ok(s@, width as nat, utf),
    ensures
        r@ == cjust_text(s@, width as nat, utf),
{
    let cur = measure(s, utf);
    if cur >= width {
        cut(s, width, utf)
    } else {
        let pad = width - cur;
        let left = pad / 2;
        let mut r = String::new();
        push_spaces(&mut r, left);
        push_str(&mut r, s);
        push_spaces(&mut r, pad - left);
        r
    }
}

/// `n` as at least two digits (`{:02}`).
pub open spec fn dec2(n: nat) -> Seq<char> {
    if n < 10 { seq!['0'] + dec(n) } else { dec(n) }
}

/// A duration as `[Nd]HH:MM[:SS]`: days shown unless `no_days` (which
/// folds them into the hours), seconds unless `no_seconds`.
pub open spec fn dhms_text(seconds: nat, no_days: bool, no_seconds: bool) -> Seq<char> {
    let days = seconds / 86400;
    let hours = (seconds % 86400) / 3600;
    let minutes = (seconds % 3600) / 60;
    let secs = seconds % 60;
    (if days > 0 && !no_days { dec(days) + seq!['d'] } else { Seq::empty() })
        + dec2(if no_days { days * 24 + hours } else { hours })
        + seq![':'] + dec2(minutes)
        + (if no_seconds { Seq::empty() } else { seq![':'] + dec2(secs) })
}

fn push_dec2(s: &mut String, n: u64)
    ensures
        final(s)@ == old(s)@ + dec2(n as nat),
{
    if n < 10 {
        push_char(s, '0');
    }
    push_dec(s, n);
    assert(final(s)@ =~= old(s)@ + dec2(n as nat));
}

/// `seconds` as `[Nd]HH:MM[:SS]`.
pub fn sec_to_dhms(seconds: u64, no_days: bool, no_seconds: bool) -> (r: String)
    ensures
        r@ == dhms_text(seconds as nat, no_days, no_seconds),
{
    let days = seconds / 86400;
    let hours = (seconds % 86400) / 3600;
    let minutes = (seconds % 3600) / 60;
    let secs = seconds % 60;
    let mut r = String::new();
    if days > 0 && !no_days {
        push_dec(&mut r, days);
        push_char(&mut r, 'd');
    }
    if no_days {
        push_dec2(&mut r, days * 24 + hours);
    } else {
        push_dec2(&mut r, hours);
    }
    push_char(&mut r, ':');
    push_dec2(&mut r, minutes);
    if !no_seconds {
        push_char(&mut r, ':');
        push_dec2(&mut r, secs);
    }
    assert(r@ =~= dhms_text(seconds as nat, no_days, no_seconds));
    r
}

/// Integer division rounding toward zero, as Rust's `/` does.
pub open spec fn div_toward_zero(a: int, b: int) -> int {
    if a >= 0 { a / b } else { -((-a) / b) }
}

/// A Celsius reading in another scale (`"fahrenheit"`, `"kelvin"`,
/// `"rankine"`, anything else Celsius), with its unit.
pub open spec fn converted_temperature(celsius: int, scale: Seq<char>) -> (int, Seq<char>) {
    if scale == seq!['f', 'a', 'h', 'r', 'e', 'n', 'h', 'e', 'i', 't'] {
        (div_toward_zero(celsius * 9, 5) + 32, seq!['°', 'F'])
    } else if scale == seq!['k', 'e', 'l', 'v', 'i', 'n'] {
        (celsius + 273, seq!['°', 'K'])
    } else if scale == seq!['r', 'a', 'n', 'k', 'i', 'n', 'e'] {
        (div_toward_zero(celsius * 9, 5) + 32 + 460, seq!['°', 'R'])
    } else {
        (celsius, seq!['°', 'C'])
    }
}

/// Whether converting `celsius` to `scale` stays within `i64`.
pub open spec fn temperature_fits(celsius: int, scale: Seq<char>) -> bool {
    let r = converted_temperature(celsius, scale).0;
    i64::MIN <= celsius * 9 <= i64::MAX && i64::MIN <= r <= i64::MAX
}

fn times_nine_fifths(c: i64) -> (r: i64)
    requires
        i64::MIN <= c * 9 <= i64::MAX,
    ensures
        r == div_toward_zero(c * 9, 5),
{
    let t: i64 = c * 9;
    if t >= 0 {
        let q: u64 = (t as u64) / 5;
        q as i64
    } else {
        let m: u64 = if t == i64::MIN { 9223372036854775808u64 } else { (-t) as u64 };
        let q: u64 = m / 5;
        -(q as i64)
    }
}

/// Converts a Celsius reading to `scale`, returning the value and its
/// unit.
pub fn celsius_to(celsius: i64, scale: &str) -> (r: (i64, String))
    requires
        temperature_fits(celsius as int, scale@),
    ensures
        r.0 == converted_temperature(celsius as int, scale@).0,
        r.1@ == converted_temperature(celsius as int, scale@).1,
{
    proof {
        reveal_strlit("fahrenheit");
        reveal_strlit("kelvin");
        reveal_strlit("rankine");
        reveal_strlit("°F");
        reveal_strlit("°K");
        reveal_strlit("°R");
        reveal_strlit("°C");
        assert("fahrenheit"@ =~= seq!['f', 'a', 'h', 'r', 'e', 'n', 'h', 'e', 'i', 't']);
        assert("kelvin"@ =~= seq!['k', 'e', 'l', 'v', 'i', 'n']);
        assert("rankine"@ =~= seq!['r', 'a', 'n', 'k', 'i', 'n', 'e']);
        assert("°F"@ =~= seq!['°', 'F']);
        assert("°K"@ =~= seq!['°', 'K']);
        assert("°R"@ =~= seq!['°', 'R']);
        assert("°C"@ =~= seq!['°', 'C']);
    }
    if str_eq(scale, "fahrenheit") {
        (times_nine_fifths(celsius) + 32, to_owned_string("°F"))
    } else if str_eq(scale, "kelvin") {
        (celsius + 273, to_owned_string("°K"))
    } else if str_eq(scale, "rankine") {
        (times_nine_fifths(celsius) + 32 + 460, to_owned_string("°R"))
    } else {
        (celsius, to_owned_string("°C"))
    }
}

/// A wall-clock time of day.
#[derive(Debug, Clone, Copy, PartialEq, Eq, Structural)]
pub struct ClockTime {
    pub hour: u8,
    pub minute: u8,
    pub second: u8,
}

/// Whether `t` is a time of day (a leap second allowed).
pub open spec fn clock_ok(t: ClockTime) -> bool {
    t.hour < 24 && t.minute < 60 && t.second <= 60
}

/// `n < 100` as two decimal digits.
pub open spec fn two_digits(n: nat) -> Seq<char> {
    seq![digit_char(n / 10), digit_char(n % 10)]
}

/// The hour on a twelve-hour clock (`12` for noon and midnight).
pub open spec fn hour12(h: nat) -> nat {
    if h % 12 == 0 { 12 } else { h % 12 }
}

/// What the specifier `%c` stands for at time `t`: `%H` hour (24h),
/// `%I` hour (12h), `%M` minute, `%S` second, `%p` `AM`/`PM`, `%R`
/// `HH:MM`, `%T` `HH:MM:SS`; none for any other `c`.
pub open spec fn time_token(c: char, t: ClockTime) -> Option<Seq<char>> {
    let h = two_digits(t.hour as nat);
    let m = two_digits(t.minute as nat);
    let sec = two_digits(t.second as nat);
    if c == 'H' {
        Some(h)
    } else if c == 'I' {
        Some(two_digits(hour12(t.hour as nat)))
    } else if c == 'M' {
        Some(m)
    } else if c == 'S' {
        Some(sec)
    } else if c == 'p' {
        Some(if t.hour < 12 { seq!['A', 'M'] } else { seq!['P', 'M'] })
    } else if c == 'R' {
        Some(h + seq![':'] + m)
    } else if c == 'T' {
        Some(h + seq![':'] + m + seq![':'] + sec)
    } else {
        None
    }
}

/// `format` with every specifier of [`time_token`] replaced by what it
/// stands for at time `t`, read left to right; everything else, other
/// `%` sequences included, is kept as written.
pub open spec fn time_expanded(f: Seq<char>, t: ClockTime) -> Seq<char>
    decreases f.len(),
{
    if f.len() == 0 {
        Seq::empty()
    } else if f.len() >= 2 && f[0] == '%' && time_token(f[1], t) is Some {
        time_token(f[1], t)->0 + time_expanded(f.skip(2), t)
    } else {
        seq![f[0]] + time_expanded(f.skip(1), t)
    }
}

/// The status-bar clock text: `format` with its time specifiers expanded
/// for `now`, then `/host`, `/user` and `/uptime` replaced, in that
/// order, by the host name, the user name and the uptime as `[Nd]HH:MM`.
pub open spec fn clock_text(format: Seq<char>, now: ClockTime, uptime: nat, host: Seq<char>, user: Seq<char>) -> Seq<char> {
    replaced(
        replaced(replaced(time_expanded(format, now), seq!['/', 'h', 'o', 's', 't'], host), seq!['/', 'u', 's', 'e', 'r'], user),
        seq!['/', 'u', 'p', 't', 'i', 'm', 'e'],
        dhms_text(uptime, false, true),
    )
}

fn push_two_digits(s: &mut String, n: u8)
    requires
        n < 100,
    ensures
        final(s)@ == old(s)@ + two_digits(n as nat),
{
    push_char(s, digit_to_char((n / 10) as u64));
    push_char(s, digit_to_char((n % 10) as u64));
}

fn push_time_token(s: &mut String, c: char, t: ClockTime) -> (found: bool)
    requires
        clock_ok(t),
    ensures
        found == (time_token(c, t) is Some),
        found ==> final(s)@ == old(s)@ + time_token(c, t)->0,
        !found ==> final(s)@ == old(s)@,
{
    if c == 'H' {
        push_two_digits(s, t.hour);
    } else if c == 'I' {
        let h = if t.hour % 12 == 0 { 12 } else { t.hour % 12 };
        push_two_digits(s, h);
    } else if c == 'M' {
        push_two_digits(s, t.minute);
    } else if c == 'S' {
        push_two_digits(s, t.second);
    } else if c == 'p' {
        push_char(s, if t.hour < 12 { 'A' } else { 'P' });
        push_char(s, 'M');
        assert(s@ =~= old(s)@ + time_token(c, t)->0);
    } else if c == 'R' {
        push_two_digits(s, t.hour);
        push_char(s, ':');
        push_two_digits(s, t.minute);
        assert(s@ =~= old(s)@ + time_token(c, t)->0);
    } else if c == 'T' {
        push_two_digits(s, t.hour);
        push_char(s, ':');
        push_two_digits(s, t.minute);
        push_char(s, ':');
        push_two_digits(s, t.second);
        assert(s@ =~= old(s)@ + time_token(c, t)->0);
    } else {
        return false;
    }
    true
}

/// `format` with its time specifiers expanded for `now`.
pub fn expand_time(format: &str, now: ClockTime) -> (r: String)
    requires
        clock_ok(now),
    ensures
        r@ == time_expanded(format@, now),
{
    let v = chars_of(format);
    let mut out = String::new();
    let mut i: usize = 0;
    assert(v@.skip(0) =~= v@);
    while i < v.len()
        invariant
            i <= v@.len(),
            v@ == format@,
            clock_ok(now),
            out@ + time_expanded(v@.skip(i as int), now) == time_expanded(v@, now),
        decreases v@.len() - i,
    {
        let ghost rest = v@.skip(i as int);
        let ghost before = out@;
        assert(rest[0] == v@[i as int]);
        if i + 1 < v.len() && v[i] == '%' {
            assert(rest[1] == v@[i + 1]);
            if push_time_token(&mut out, v[i + 1], now) {
                assert(rest.skip(2) =~= v@.skip(i + 2));
                assert(out@ + time_expanded(v@.skip(i + 2), now) == before + time_expanded(rest, now));
                i = i + 2;
                continue;
            }
        }
        push_char(&mut out, v[i]);
        assert(rest.skip(1) =~= v@.skip(i + 1));
        assert(out@ + time_expanded(v@.skip(i + 1), now) =~= before + time_expanded(rest, now));
        i = i + 1;
    }
    assert(v@.skip(v@.len() as int) =~= Seq::<char>::empty());
    out
}

/// The clock text for `format` at time `now` (time specifiers expanded),
/// with `/host` and `/user` replaced by `host` and `user` and `/uptime`
/// by the uptime as `[Nd]HH:MM`.
pub fn strf_time(format: &str, now: ClockTime, uptime_seconds: u64, host: &str, user: &str) -> (r: String)
    requires
        clock_ok(now),
    ensures
        r@ == clock_text(format@, now, uptime_seconds as nat, host@, user@),
{
    proof {
        reveal_strlit("/host");
        reveal_strlit("/user");
        reveal_strlit("/uptime");
        assert("/host"@ =~= seq!['/', 'h', 'o', 's', 't']);
        assert("/user"@ =~= seq!['/', 'u', 's', 'e', 'r']);
        assert("/uptime"@ =~= seq!['/', 'u', 'p', 't', 'i', 'm', 'e']);
    }
    let timed = expand_time(format, now);
    let with_host = replace_all(timed.as_str(), "/host", host);
    let with_user = replace_all(with_host.as_str(), "/user", user);
    let uptime = sec_to_dhms(uptime_seconds, false, true);
    replace_all(with_user.as_str(), "/uptime", uptime.as_str())
}

} // verus!

verus! {

/// A byte prefix of printable ASCII text is as long as the prefix asked
/// for, capped by the text's length.
proof fn lemma_take_bytes_ascii(s: Seq<char>, b: nat)
    requires
        printable_ascii(s),
    ensures
        take_bytes(s, b).len() == (if b <= s.len() { b } else { s.len() }),
        take_bytes(s, b) == s.take(if b <= s.len() { b as int } else { s.len() as int }),
    decreases s.len(),
{
    if b > 0 && s.len() > 0 {
        let t = s.drop_first();
        assert(printable_ascii(t)) by {
            assert forall|i: int| 0 <= i < t.len() implies ' ' <= #[trigger] t[i] && t[i] <= '~' by {
                assert(t[i] == s[i + 1]);
            }
        }
        assert(' ' <= s[0] && s[0] <= '~');
        lemma_take_bytes_ascii(t, (b - 1) as nat);
        let k: int = if b <= s.len() { b as int } else { s.len() as int };
        assert(seq![s[0]] + t.take(k - 1) =~= s.take(k));
    } else {
        assert(s.take(0) =~= Seq::<char>::empty());
    }
}

/// Justified printable ASCII text is exactly `width` characters wide,
/// whether padded or cut, when measured in bytes.
pub proof fn lemma_justified_width(s: Seq<char>, width: nat)
    requires
        printable_ascii(s),
    ensures
        ljust_text(s, width, false).len() == width,
        rjust_text(s, width, false).len() == width,
        cjust_text(s, width, false).len() == width,
        s.len() <= width ==> ljust_text(s, width, false).take(s.len() as int) == s,
        s.len() <= width ==> rjust_text(s, width, false).skip(width - s.len()) == s,
{
    lemma_printable_measures(s);
    lemma_take_bytes_ascii(s, width);
    if s.len() <= width {
        assert((s + spaces((width - s.len()) as nat)).take(s.len() as int) =~= s);
        assert((spaces((width - s.len()) as nat) + s).skip(width - s.len()) =~= s);
    }
}

/// Justifying pads by display columns with `utf` and by bytes without,
/// and the three justifications agree on how much: text shorter than
/// `width` gets `width` less its length in spaces, after it (`ljust`),
/// before it (`rjust`) or split with the odd space after (`cjust`); text
/// at least that long is cut alike by all three.
pub proof fn lemma_justify_pads_by_measure(s: Seq<char>, width: nat, utf: bool)
    ensures
        ({
            let cur = if utf { display_len(s) } else { utf8_len(s) };
            let pad = (width - cur) as nat;
            &&& cur < width ==> ljust_text(s, width, utf) == s + spaces(pad)
            &&& cur < width ==> rjust_text(s, width, utf) == spaces(pad) + s
            &&& cur < width ==> cjust_text(s, width, utf) == spaces(pad / 2) + s + spaces((pad - pad / 2) as nat)
            &&& cur >= width ==> rjust_text(s, width, utf) == ljust_text(s, width, utf)
            &&& cur >= width ==> cjust_text(s, width, utf) == ljust_text(s, width, utf)
        }),
{
}

proof fn lemma_strip_after_spaces(n: nat, s: Seq<char>)
    ensures
        strip_ansi_from(spaces(n) + s, false) == spaces(n) + strip_ansi_from(s, false),
    decreases n,
{
    if n > 0 {
        let t = spaces(n) + s;
        assert(t[0] == ' ');
        assert(t.drop_first() =~= spaces((n - 1) as nat) + s);
        lemma_strip_after_spaces((n - 1) as nat, s);
        assert(seq![' '] + spaces((n - 1) as nat) =~= spaces(n));
        assert(seq![' '] + (spaces((n - 1) as nat) + strip_ansi_from(s, false)) =~= spaces(n) + strip_ansi_from(s, false));
    } else {
        assert(spaces(0) + s =~= s);
        assert(spaces(0) + strip_ansi_from(s, false) =~= strip_ansi_from(s, false));
    }
}

/// Right-justified by columns, text narrower than `width` shows as the
/// padding and then what the text itself shows, its escapes untouched.
pub proof fn lemma_rjust_shows_padding_then_text(s: Seq<char>, width: nat)
    requires
        display_len(s) < width,
    ensures
        stripped(rjust_text(s, width, true)) == spaces((width - display_len(s)) as nat) + stripped(s),
{
    lemma_strip_after_spaces((width - display_len(s)) as nat, s);
}

} // verus!
