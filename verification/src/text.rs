//! Character-sequence helpers shared by every renderer: decimal
//! formatting, padding, and the few `String` operations that vstd
//! does not specify.

use vstd::prelude::*;

verus! {

/// The character for a decimal digit `d` (`0 <= d < 10`).
pub open spec fn digit_char(d: nat) -> char {
    if d == 0 { '0' }
    else if d == 1 { '1' }
    else if d == 2 { '2' }
    else if d == 3 { '3' }
    else if d == 4 { '4' }
    else if d == 5 { '5' }
    else if d == 6 { '6' }
    else if d == 7 { '7' }
    else if d == 8 { '8' }
    else { '9' }
}

/// Decimal representation of `n` without leading zeros (`"0"` for zero).
pub open spec fn dec(n: nat) -> Seq<char>
    decreases n,
{
    if n < 10 {
        seq![digit_char(n)]
    } else {
        dec(n / 10).push(digit_char(n % 10))
    }
}

pub open spec fn is_ascii_letter(c: char) -> bool {
    ('a' <= c && c <= 'z') || ('A' <= c && c <= 'Z')
}

pub open spec fn is_digit(c: char) -> bool {
    '0' <= c && c <= '9'
}

/// Numeric value of a digit character.
pub open spec fn digit_value(c: char) -> nat {
    ((c as int) - ('0' as int)) as nat
}

/// Decimal value of a string of digits.
pub open spec fn digits_value(d: Seq<char>) -> nat
    decreases d.len(),
{
    if d.len() == 0 { 0 } else { digits_value(d.drop_last()) * 10 + digit_value(d.last()) }
}

pub proof fn lemma_dec_digits(n: nat)
    ensures
        dec(n).len() > 0,
        forall|i: int| 0 <= i < dec(n).len() ==> is_digit(#[trigger] dec(n)[i]),
        digits_value(dec(n)) == n,
    decreases n,
{
    let d = n % 10;
    assert(digit_value(digit_char(d)) == d);
    if n >= 10 {
        lemma_dec_digits(n / 10);
        assert(dec(n).drop_last() =~= dec(n / 10));
        assert(dec(n).last() == digit_char(d));
        assert(digits_value(dec(n)) == digits_value(dec(n / 10)) * 10 + digit_value(digit_char(d)));
        assert((n / 10) * 10 + n % 10 == n);
        assert forall|i: int| 0 <= i < dec(n).len() implies is_digit(#[trigger] dec(n)[i]) by {
            if i < dec(n / 10).len() {
                assert(dec(n)[i] == dec(n / 10)[i]);
            }
        }
    } else {
        assert(dec(n).drop_last() =~= Seq::<char>::empty());
        assert(digits_value(dec(n)) == digits_value(Seq::<char>::empty()) * 10 + digit_value(digit_char(d)));
    }
}

/// What std's `u8::from_str` accepts: an optional leading `+`, then one
/// or more ASCII digits whose value fits in `u8`.
pub open spec fn u8_from_str(r: Seq<char>) -> Option<u8> {
    let d = sign_stripped(r);
    if d.len() > 0 && all_digits(d) && digits_value(d) <= 255 {
        Some(digits_value(d) as u8)
    } else {
        None
    }
}

/// `r` without one leading `+`.
pub open spec fn sign_stripped(r: Seq<char>) -> Seq<char> {
    if r.len() > 0 && r[0] == '+' { r.drop_first() } else { r }
}

/// Every character of `d` is an ASCII digit.
pub open spec fn all_digits(d: Seq<char>) -> bool {
    forall|i: int| 0 <= i < d.len() ==> is_digit(#[trigger] d[i])
}

/// Parse `v[start..]` as std's `u8::from_str` does.
#[verifier::loop_isolation(false)]
pub fn parse_u8_from(v: &Vec<char>, start: usize) -> (r: Option<u8>)
    requires
        start <= v.len(),
    ensures
        r == u8_from_str(v@.subrange(start as int, v@.len() as int)),
{
    let ghost r_all = v@.subrange(start as int, v@.len() as int);
    let mut s = start;
    if s < v.len() && v[s] == '+' {
        s = s + 1;
    }
    let ghost d = v@.subrange(s as int, v@.len() as int);
    assert(d =~= sign_stripped(r_all));
    if s == v.len() {
        return None;
    }
    let mut val: u32 = 0;
    let mut i = s;
    while i < v.len()
        invariant
            s <= i <= v.len(),
            s < v.len(),
            d == v@.subrange(s as int, v@.len() as int),
            forall|j: int| s <= j < i ==> is_digit(#[trigger] v@[j]),
            val as nat == digits_value(v@.subrange(s as int, i as int)),
            val <= 255,
        decreases v.len() - i,
    {
        let ch = v[i];
        if !('0' <= ch && ch <= '9') {
            proof {
                let k = (i - s) as int;
                assert(d[k] == v@[i as int]);
                assert(!is_digit(d[k]));
                assert(!(forall|j: int| 0 <= j < d.len() ==> is_digit(#[trigger] d[j])));
                assert(sign_stripped(r_all) == d);
                assert(!all_digits(d));
            }
            return None;
        }
        proof {
            assert(v@.subrange(s as int, (i + 1) as int).drop_last() =~= v@.subrange(s as int, i as int));
        }
        let nv = val * 10 + ((ch as u32) - ('0' as u32));
        if nv > 255 {
            proof {
                assert(v@.subrange(s as int, v@.len() as int).subrange(0, (i + 1 - s) as int) =~= v@.subrange(s as int, (i + 1) as int));
                lemma_digits_value_grows(v@.subrange(s as int, (i + 1) as int), v@.subrange(s as int, v@.len() as int));
            }
            return None;
        }
        val = nv;
        i = i + 1;
    }
    assert(v@.subrange(s as int, i as int) =~= d);
    assert(all_digits(d));
    Some(val as u8)
}

/// What std's `usize::from_str` accepts: an optional leading `+`, then
/// one or more ASCII digits whose value fits in `usize`.
pub open spec fn usize_from_str(r: Seq<char>) -> Option<usize> {
    let d = sign_stripped(r);
    if d.len() > 0 && all_digits(d) && digits_value(d) <= usize::MAX {
        Some(digits_value(d) as usize)
    } else {
        None
    }
}

/// Parse `v[start..end]` as std's `usize::from_str` does.
pub fn parse_usize_range(v: &Vec<char>, start: usize, end: usize) -> (r: Option<usize>)
    requires
        start <= end <= v.len(),
    ensures
        r == usize_from_str(v@.subrange(start as int, end as int)),
{
    let ghost r_all = v@.subrange(start as int, end as int);
    let mut s = start;
    if s < end && v[s] == '+' {
        s = s + 1;
    }
    let ghost d = v@.subrange(s as int, end as int);
    assert(d =~= sign_stripped(r_all));
    if s == end {
        return None;
    }
    let mut val: u128 = 0;
    let mut i = s;
    while i < end
        invariant
            s <= i <= end,
            end <= v.len(),
            s < end,
            d == v@.subrange(s as int, end as int),
            d == sign_stripped(r_all),
            r_all == v@.subrange(start as int, end as int),
            forall|j: int| s <= j < i ==> is_digit(#[trigger] v@[j]),
            val as nat == digits_value(v@.subrange(s as int, i as int)),
            val <= usize::MAX,
        decreases end - i,
    {
        let ch = v[i];
        if !('0' <= ch && ch <= '9') {
            proof {
                let k = (i - s) as int;
                assert(d[k] == v@[i as int]);
                assert(!is_digit(d[k]));
                assert(!all_digits(d));
            }
            return None;
        }
        proof {
            assert(v@.subrange(s as int, (i + 1) as int).drop_last() =~= v@.subrange(s as int, i as int));
        }
        let nv: u128 = val * 10 + ((ch as u32) - ('0' as u32)) as u128;
        if nv > usize::MAX as u128 {
            proof {
                assert(d.subrange(0, (i + 1 - s) as int) =~= v@.subrange(s as int, (i + 1) as int));
                lemma_digits_value_grows(v@.subrange(s as int, (i + 1) as int), d);
            }
            return None;
        }
        val = nv;
        i = i + 1;
    }
    assert(v@.subrange(s as int, i as int) =~= d);
    assert(all_digits(d));
    Some(val as usize)
}

/// A digit string's value is at least the value of any of its prefixes.
pub proof fn lemma_digits_value_grows(p: Seq<char>, d: Seq<char>)
    requires
        p.len() <= d.len(),
        d.subrange(0, p.len() as int) == p,
    ensures
        digits_value(p) <= digits_value(d),
    decreases d.len(),
{
    if p.len() < d.len() {
        assert(d.drop_last().subrange(0, p.len() as int) =~= p);
        lemma_digits_value_grows(p, d.drop_last());
    } else {
        assert(d =~= p);
    }
}

/// `n` copies of `c`.
pub open spec fn repeat_char(c: char, n: nat) -> Seq<char> {
    Seq::new(n, |i: int| c)
}

/// `n` spaces.
pub open spec fn spaces(n: nat) -> Seq<char> {
    repeat_char(' ', n)
}

/// Number of bytes in the UTF-8 encoding of `c`.
pub open spec fn utf8_width(c: char) -> nat {
    if (c as u32) < 0x80 { 1 }
    else if (c as u32) < 0x800 { 2 }
    else if (c as u32) < 0x10000 { 3 }
    else { 4 }
}

/// Number of bytes in the UTF-8 encoding of `s` (what `str::len` returns).
pub open spec fn utf8_len(s: Seq<char>) -> nat
    decreases s.len(),
{
    if s.len() == 0 { 0 } else { utf8_len(s.drop_last()) + utf8_width(s.last()) }
}

/// `s` repeated `n` times.
pub open spec fn repeat(s: Seq<char>, n: nat) -> Seq<char>
    decreases n,
{
    if n == 0 {
        Seq::empty()
    } else {
        repeat(s, (n - 1) as nat) + s
    }
}

/// Appends one character to a `String`.
///
/// Wraps `String::push`; std documents that it appends `c` to the end
/// of the string, which is what the contract states.
#[verifier::external_body]
pub(crate) fn push_char(s: &mut String, c: char)
    ensures
        final(s)@ == old(s)@.push(c),
{
    s.push(c);
}

/// Appends a string slice to a `String`.
pub fn push_str(s: &mut String, t: &str)
    ensures
        final(s)@ == old(s)@ + t@,
{
    s.append(t);
}

pub fn digit_to_char(d: u64) -> (c: char)
    requires
        d < 10,
    ensures
        c == digit_char(d as nat),
{
    if d == 0 { '0' }
    else if d == 1 { '1' }
    else if d == 2 { '2' }
    else if d == 3 { '3' }
    else if d == 4 { '4' }
    else if d == 5 { '5' }
    else if d == 6 { '6' }
    else if d == 7 { '7' }
    else if d == 8 { '8' }
    else { '9' }
}

/// Appends the decimal representation of `n`.
pub fn push_dec(s: &mut String, n: u64)
    ensures
        final(s)@ == old(s)@ + dec(n as nat),
    decreases n,
{
    if n < 10 {
        push_char(s, digit_to_char(n));
    } else {
        push_dec(s, n / 10);
        push_char(s, digit_to_char(n % 10));
        assert(old(s)@ + dec(n as nat) =~= old(s)@ + dec((n / 10) as nat) + seq![digit_char((n % 10) as nat)]);
    }
}

/// Appends `n` spaces.
pub fn push_spaces(s: &mut String, n: usize)
    ensures
        final(s)@ == old(s)@ + spaces(n as nat),
{
    let mut i: usize = 0;
    while i < n
        invariant
            i <= n,
            s@ == old(s)@ + spaces(i as nat),
        decreases n - i,
    {
        push_char(s, ' ');
        i = i + 1;
        assert(s@ =~= old(s)@ + spaces(i as nat));
    }
}

/// Appends `n` copies of `c`.
pub fn push_char_n(s: &mut String, c: char, n: usize)
    ensures
        final(s)@ == old(s)@ + repeat_char(c, n as nat),
{
    let mut i: usize = 0;
    while i < n
        invariant
            i <= n,
            s@ == old(s)@ + repeat_char(c, i as nat),
        decreases n - i,
    {
        push_char(s, c);
        i = i + 1;
        assert(s@ =~= old(s)@ + repeat_char(c, i as nat));
    }
}

/// Byte length of the UTF-8 encoding of `s`, saturating at `usize::MAX`.
pub fn utf8_len_of(s: &str) -> (n: usize)
    ensures
        utf8_len(s@) <= usize::MAX ==> n == utf8_len(s@),
        utf8_len(s@) > usize::MAX ==> n == usize::MAX,
{
    let v = chars_of(s);
    let mut n: usize = 0;
    let mut i: usize = 0;
    while i < v.len()
        invariant
            i <= v.len(),
            v@ == s@,
            utf8_len(v@.take(i as int)) <= usize::MAX ==> n == utf8_len(v@.take(i as int)),
            utf8_len(v@.take(i as int)) > usize::MAX ==> n == usize::MAX,
        decreases v.len() - i,
    {
        let c = v[i];
        let w: usize = if (c as u32) < 0x80 { 1 } else if (c as u32) < 0x800 { 2 } else if (c as u32) < 0x10000 { 3 } else { 4 };
        assert(v@.take((i + 1) as int).drop_last() =~= v@.take(i as int));
        n = n.saturating_add(w);
        i = i + 1;
    }
    assert(v@.take(v.len() as int) =~= v@);
    n
}

/// Appends `t` repeated `n` times.
pub fn push_repeat(s: &mut String, t: &str, n: usize)
    ensures
        final(s)@ == old(s)@ + repeat(t@, n as nat),
{
    let mut i: usize = 0;
    while i < n
        invariant
            i <= n,
            s@ == old(s)@ + repeat(t@, i as nat),
        decreases n - i,
    {
        push_str(s, t);
        i = i + 1;
        assert(s@ =~= old(s)@ + repeat(t@, i as nat));
    }
}

/// A `String` holding exactly the characters of `v`.
pub fn string_from_chars(v: &Vec<char>) -> (s: String)
    ensures
        s@ == v@,
{
    let mut s = String::new();
    let mut i: usize = 0;
    while i < v.len()
        invariant
            i <= v.len(),
            s@ == v@.subrange(0, i as int),
        decreases v.len() - i,
    {
        push_char(&mut s, v[i]);
        i = i + 1;
        assert(s@ =~= v@.subrange(0, i as int));
    }
    assert(v@.subrange(0, v.len() as int) =~= v@);
    s
}

/// The characters of `s`, in order.
pub fn chars_of(s: &str) -> (v: Vec<char>)
    ensures
        v@ == s@,
{
    broadcast use vstd::string::group_string_axioms;
    let mut v: Vec<char> = Vec::new();
    for c in it: s.chars()
        invariant
            v@ == it.seq().take(it.index() as int),
    {
        v.push(c);
    }
    v
}

/// Whether two string slices hold the same characters.
pub fn str_eq(a: &str, b: &str) -> (r: bool)
    ensures
        r == (a@ == b@),
{
    let n = a.unicode_len();
    let m = b.unicode_len();
    if n != m {
        return false;
    }
    let mut i: usize = 0;
    while i < n
        invariant
            i <= n,
            n == a@.len(),
            m == b@.len(),
            n == m,
            a@.subrange(0, i as int) == b@.subrange(0, i as int),
        decreases n - i,
    {
        if a.get_char(i) != b.get_char(i) {
            assert(a@[i as int] != b@[i as int]);
            return false;
        }
        assert(a@.subrange(0, (i + 1) as int) =~= a@.subrange(0, i as int).push(a@[i as int]));
        assert(b@.subrange(0, (i + 1) as int) =~= b@.subrange(0, i as int).push(b@[i as int]));
        i = i + 1;
    }
    assert(a@ =~= a@.subrange(0, n as int));
    assert(b@ =~= b@.subrange(0, n as int));
    true
}

/// Whether a character vector holds the same characters as a slice.
pub fn chars_eq_str(a: &Vec<char>, b: &str) -> (r: bool)
    ensures
        r == (a@ == b@),
{
    let n = a.len();
    let m = b.unicode_len();
    if n != m {
        return false;
    }
    let mut i: usize = 0;
    while i < n
        invariant
            i <= n,
            n == a@.len(),
            m == b@.len(),
            n == m,
            a@.subrange(0, i as int) == b@.subrange(0, i as int),
        decreases n - i,
    {
        if a[i] != b.get_char(i) {
            assert(a@[i as int] != b@[i as int]);
            return false;
        }
        assert(a@.subrange(0, (i + 1) as int) =~= a@.subrange(0, i as int).push(a@[i as int]));
        assert(b@.subrange(0, (i + 1) as int) =~= b@.subrange(0, i as int).push(b@[i as int]));
        i = i + 1;
    }
    assert(a@ =~= a@.subrange(0, n as int));
    assert(b@ =~= b@.subrange(0, n as int));
    true
}

/// A `String` holding the characters of a slice.
pub fn to_owned_string(s: &str) -> (r: String)
    ensures
        r@ == s@,
{
    let mut r = String::new();
    push_str(&mut r, s);
    r
}

/// `s` with every occurrence of `p` (a non-empty pattern), found left to
/// right without overlap, replaced by `r`.
pub open spec fn replaced(s: Seq<char>, p: Seq<char>, r: Seq<char>) -> Seq<char>
    decreases s.len(),
{
    if p.len() == 0 || s.len() < p.len() {
        s
    } else if s.take(p.len() as int) == p {
        r + replaced(s.skip(p.len() as int), p, r)
    } else {
        seq![s[0]] + replaced(s.drop_first(), p, r)
    }
}

/// `s` with every occurrence of the non-empty `pat` replaced by `rep`.
pub fn replace_all(s: &str, pat: &str, rep: &str) -> (out: String)
    requires
        pat@.len() > 0,
    ensures
        out@ == replaced(s@, pat@, rep@),
{
    let v = chars_of(s);
    let p = chars_of(pat);
    let n = v.len();
    let m = p.len();
    let mut out = String::new();
    let mut i: usize = 0;
    assert(v@.skip(0) =~= v@);
    assert(out@ + replaced(v@, p@, rep@) =~= replaced(v@, p@, rep@));
    while i < n
        invariant
            i <= n,
            n == v@.len(),
            m == p@.len(),
            m > 0,
            v@ == s@,
            p@ == pat@,
            out@ + replaced(v@.skip(i as int), p@, rep@) == replaced(v@, p@, rep@),
        decreases n - i,
    {
        let ghost rest = v@.skip(i as int);
        let mut matched = n - i >= m;
        if matched {
            let mut k: usize = 0;
            while k < m
                invariant
                    k <= m,
                    i + m <= n,
                    n == v@.len(),
                    m == p@.len(),
                    matched ==> forall|j: int| 0 <= j < k ==> v@[i + j] == p@[j],
                    !matched ==> exists|j: int| 0 <= j < m && v@[i + j] != p@[j],
                decreases m - k,
            {
                if v[i + k] != p[k] {
                    matched = false;
                }
                k = k + 1;
            }
            proof {
                if matched {
                    assert(rest.take(m as int) =~= p@);
                } else {
                    let j = choose|j: int| 0 <= j < m && v@[i + j] != p@[j];
                    assert(rest.take(m as int)[j] != p@[j]);
                }
            }
        }
        if matched {
            push_str(&mut out, rep);
            proof {
                assert(rest.skip(m as int) =~= v@.skip((i + m) as int));
            }
            i = i + m;
        } else {
            push_char(&mut out, v[i]);
            proof {
                assert(rest.drop_first() =~= v@.skip((i + 1) as int));
                if rest.len() >= m {
                    assert(rest.take(m as int) != p@);
                }
            }
            i = i + 1;
        }
        assert(out@ + replaced(v@.skip(i as int), p@, rep@) =~= replaced(v@, p@, rep@));
    }
    assert(v@.skip(n as int) =~= Seq::<char>::empty());
    out
}

} // verus!
