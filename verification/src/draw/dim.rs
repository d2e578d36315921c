//! Dimming pass for the layer beneath an active modal: every truecolor
//! SGR foreground (`38;2;R;G;B`) and background (`48;2;R;G;B`) triple in
//! a buffer of terminal output is scaled to a fixed share of its
//! brightness. Every other escape sequence (cursor movement, clears,
//! indexed colours, resets, bold) and all ordinary text pass through
//! unchanged. CSI sequences are recognised as ECMA-48 §5.4 describes:
//! `ESC [`, parameter bytes `0x30..=0x3F`, intermediate bytes
//! `0x20..=0x2F`, and one final byte `0x40..=0x7E`.

use vstd::prelude::*;

use crate::draw::buffer::{csi, esc};
use crate::text::{all_digits, chars_of, dec, digit_value, digits_value, is_digit, push_char, push_dec, lemma_dec_digits};

verus! {

/// Share of each RGB channel's brightness that survives the dim pass, in
/// percent.
pub const DIM_SCALE_PERCENT: u8 = 35;

/// A channel scaled by [`DIM_SCALE_PERCENT`], rounding down.
pub open spec fn scaled(c: nat) -> nat {
    c * 35 / 100
}

/// Scales one 0..=255 channel by [`DIM_SCALE_PERCENT`].
pub fn scale_channel(c: u8) -> (r: u8)
    ensures
        r as nat == scaled(c as nat),
{
    let c16 = c as u16;
    assert(c16 * 35 <= 8925) by (nonlinear_arith)
        requires
            c16 <= 255,
    ;
    let v: u16 = c16 * (DIM_SCALE_PERCENT as u16) / 100;
    v as u8
}

/// `ESC [ 48 ; 2 ; R ; G ; B m` with the channels given.
pub open spec fn bg_escape(r: nat, g: nat, b: nat) -> Seq<char> {
    csi() + seq!['4', '8', ';', '2', ';'] + dec(r) + seq![';'] + dec(g) + seq![';'] + dec(b)
        + seq!['m']
}

/// A truecolor background escape whose triple is what [`dim_truecolor`]
/// makes of `ESC [ 48 ; 2 ; R ; G ; B m`, so that cells painted with it
/// blend with the dimmed layer.
pub fn dim_bg_escape(rgb: [u8; 3]) -> (r: String)
    ensures
        r@ == bg_escape(scaled(rgb[0] as nat), scaled(rgb[1] as nat), scaled(rgb[2] as nat)),
{
    let mut s = String::new();
    push_char(&mut s, '\x1b');
    push_char(&mut s, '[');
    push_char(&mut s, '4');
    push_char(&mut s, '8');
    push_char(&mut s, ';');
    push_char(&mut s, '2');
    push_char(&mut s, ';');
    push_dec(&mut s, scale_channel(rgb[0]) as u64);
    push_char(&mut s, ';');
    push_dec(&mut s, scale_channel(rgb[1]) as u64);
    push_char(&mut s, ';');
    push_dec(&mut s, scale_channel(rgb[2]) as u64);
    push_char(&mut s, 'm');
    assert(s@ =~= bg_escape(scaled(rgb[0] as nat), scaled(rgb[1] as nat), scaled(rgb[2] as nat)));
    s
}

pub open spec fn is_param_char(c: char) -> bool {
    0x30 <= (c as u32) && (c as u32) <= 0x3F
}

pub open spec fn is_intermediate_char(c: char) -> bool {
    0x20 <= (c as u32) && (c as u32) <= 0x2F
}

pub open spec fn is_final_char(c: char) -> bool {
    0x40 <= (c as u32) && (c as u32) <= 0x7E
}

/// The first index at or after `i` that does not hold a parameter byte.
pub open spec fn params_end(s: Seq<char>, i: int) -> int
    decreases s.len() - i,
{
    if i < 0 || i >= s.len() || !is_param_char(s[i]) { i } else { params_end(s, i + 1) }
}

/// The first index at or after `i` that does not hold an intermediate byte.
pub open spec fn intermediates_end(s: Seq<char>, i: int) -> int
    decreases s.len() - i,
{
    if i < 0 || i >= s.len() || !is_intermediate_char(s[i]) { i } else { intermediates_end(s, i + 1) }
}

pub proof fn lemma_params_end_bounds(s: Seq<char>, i: int)
    ensures
        params_end(s, i) >= i,
        0 <= i <= s.len() ==> params_end(s, i) <= s.len(),
        0 <= i ==> forall|k: int| i <= k < params_end(s, i) ==> is_param_char(#[trigger] s[k]),
        0 <= i ==> params_end(s, i) < s.len() ==> !is_param_char(s[params_end(s, i)]),
    decreases s.len() - i,
{
    if !(i < 0 || i >= s.len() || !is_param_char(s[i])) {
        lemma_params_end_bounds(s, i + 1);
    }
}

pub proof fn lemma_intermediates_end_bounds(s: Seq<char>, i: int)
    ensures
        intermediates_end(s, i) >= i,
        0 <= i <= s.len() ==> intermediates_end(s, i) <= s.len(),
        0 <= i ==> forall|k: int| i <= k < intermediates_end(s, i) ==> is_intermediate_char(#[trigger] s[k]),
        0 <= i ==> intermediates_end(s, i) < s.len() ==> !is_intermediate_char(s[intermediates_end(s, i)]),
    decreases s.len() - i,
{
    if !(i < 0 || i >= s.len() || !is_intermediate_char(s[i])) {
        lemma_intermediates_end_bounds(s, i + 1);
    }
}

/// When a complete CSI sequence starts at `i`, the index of its final byte.
pub open spec fn csi_final_at(s: Seq<char>, i: int) -> Option<int> {
    if 0 <= i && i + 1 < s.len() && s[i] == esc() && s[i + 1] == '[' {
        let q = intermediates_end(s, params_end(s, i + 2));
        if q < s.len() && is_final_char(s[q]) { Some(q) } else { None }
    } else {
        None
    }
}

/// The fields of an SGR parameter list, split at `;`.
pub open spec fn split_fields(p: Seq<char>) -> Seq<Seq<char>>
    decreases p.len(),
{
    if p.len() == 0 {
        seq![Seq::empty()]
    } else {
        let r = split_fields(p.drop_last());
        if p.last() == ';' {
            r.push(Seq::empty())
        } else {
            r.update(r.len() - 1, r.last().push(p.last()))
        }
    }
}

pub proof fn lemma_split_fields_nonempty(p: Seq<char>)
    ensures
        split_fields(p).len() >= 1,
    decreases p.len(),
{
    if p.len() > 0 {
        lemma_split_fields_nonempty(p.drop_last());
    }
}

/// A field that `u32::from_str` accepts: one or more digits whose value
/// fits in `u32` (parameter bytes never include a sign).
pub open spec fn field_ok(f: Seq<char>) -> bool {
    f.len() > 0 && all_digits(f) && digits_value(f) <= u32::MAX
}

/// The numbers of an SGR parameter list, when every field is a number.
pub open spec fn sgr_values(p: Seq<char>) -> Option<Seq<u32>> {
    if p.len() == 0 {
        Some(Seq::empty())
    } else if forall|j: int| 0 <= j < split_fields(p).len() ==> field_ok(#[trigger] split_fields(p)[j]) {
        Some(split_fields(p).map_values(|f: Seq<char>| digits_value(f) as u32))
    } else {
        None
    }
}

/// Whether `38;2;R;G;B` or `48;2;R;G;B` starts at `idx`.
pub open spec fn truecolor_at(v: Seq<u32>, idx: int) -> bool {
    &&& (v[idx] == 38 || v[idx] == 48)
    &&& v[idx + 1] == 2
    &&& v[idx + 2] <= 255
    &&& v[idx + 3] <= 255
    &&& v[idx + 4] <= 255
}

/// `v` with the truecolor triple at `idx + 2..idx + 5` scaled.
pub open spec fn scale_triple(v: Seq<u32>, idx: int) -> Seq<u32> {
    v.update(idx + 2, scaled(v[idx + 2] as nat) as u32)
        .update(idx + 3, scaled(v[idx + 3] as nat) as u32)
        .update(idx + 4, scaled(v[idx + 4] as nat) as u32)
}

/// Scales every truecolor triple from `idx` on, scanning left to right: a
/// match skips past its five values, anything else moves on by one.
pub open spec fn scale_from(v: Seq<u32>, idx: int) -> Seq<u32>
    decreases v.len() - idx,
{
    if 0 <= idx && idx + 4 < v.len() {
        if truecolor_at(v, idx) {
            scale_from(scale_triple(v, idx), idx + 5)
        } else {
            scale_from(v, idx + 1)
        }
    } else {
        v
    }
}

/// Numbers in decimal, separated by `;`.
pub open spec fn join_values(v: Seq<u32>) -> Seq<char>
    decreases v.len(),
{
    if v.len() == 0 {
        Seq::empty()
    } else if v.len() == 1 {
        dec(v[0] as nat)
    } else {
        join_values(v.drop_last()) + seq![';'] + dec(v.last() as nat)
    }
}

/// The SGR sequence with parameters `p` after dimming: its truecolor
/// triples scaled and its numbers rewritten in plain decimal, or `p`
/// unchanged when some field is not a number.
pub open spec fn dim_sgr(p: Seq<char>) -> Seq<char> {
    match sgr_values(p) {
        Some(v) => csi() + join_values(scale_from(v, 0)) + seq!['m'],
        None => csi() + p + seq!['m'],
    }
}

/// What the CSI sequence from `i` to its final byte `q` becomes.
pub open spec fn dim_csi(s: Seq<char>, i: int, q: int) -> Seq<char> {
    let p = params_end(s, i + 2);
    if s[q] == 'm' && q == p {
        dim_sgr(s.subrange(i + 2, p))
    } else {
        s.subrange(i, q + 1)
    }
}

/// The dimmed form of `s` from index `i` on.
pub open spec fn dim_from(s: Seq<char>, i: int) -> Seq<char>
    decreases s.len() - i,
{
    if i < 0 || i >= s.len() {
        Seq::empty()
    } else if s[i] != esc() {
        seq![s[i]] + dim_from(s, i + 1)
    } else {
        match csi_final_at(s, i) {
            None => seq![esc()] + dim_from(s, i + 1),
            Some(q) => {
                proof {
                    lemma_params_end_bounds(s, i + 2);
                    lemma_intermediates_end_bounds(s, params_end(s, i + 2));
                }
                dim_csi(s, i, q) + dim_from(s, q + 1)
            },
        }
    }
}

/// The dimmed form of `s`.
pub open spec fn dim_text(s: Seq<char>) -> Seq<char> {
    dim_from(s, 0)
}

/// Whether an SGR sequence starts at `i`: `ESC [`, parameter bytes
/// (`0x30..=0x3F`), then `m`.
pub open spec fn sgr_at(s: Seq<char>, i: int) -> bool {
    &&& 0 <= i && i + 1 < s.len() && s[i] == esc() && s[i + 1] == '['
    &&& params_end(s, i + 2) < s.len()
    &&& s[params_end(s, i + 2)] == 'm'
}

proof fn lemma_dim_from_plain(s: Seq<char>, i: int)
    requires
        0 <= i <= s.len(),
        forall|k: int| 0 <= k < s.len() ==> !#[trigger] sgr_at(s, k),
    ensures
        dim_from(s, i) == s.subrange(i, s.len() as int),
    decreases s.len() - i,
{
    if i < s.len() {
        if s[i] != esc() {
            lemma_dim_from_plain(s, i + 1);
            assert(seq![s[i]] + s.subrange(i + 1, s.len() as int) =~= s.subrange(i, s.len() as int));
        } else {
            match csi_final_at(s, i) {
                None => {
                    lemma_dim_from_plain(s, i + 1);
                    assert(seq![s[i]] + s.subrange(i + 1, s.len() as int) =~= s.subrange(i, s.len() as int));
                },
                Some(q) => {
                    lemma_params_end_bounds(s, i + 2);
                    lemma_intermediates_end_bounds(s, params_end(s, i + 2));
                    assert(!sgr_at(s, i));
                    lemma_dim_from_plain(s, q + 1);
                    assert(s.subrange(i, q + 1) + s.subrange(q + 1, s.len() as int) =~= s.subrange(i, s.len() as int));
                },
            }
        }
    }
}

/// Dimming leaves text without SGR sequences unchanged: plain text,
/// cursor moves, other escapes and a bare or cut-off `ESC` pass through
/// as they are.
pub proof fn lemma_dim_plain_text_unchanged(s: Seq<char>)
    requires
        forall|k: int| 0 <= k < s.len() ==> !#[trigger] sgr_at(s, k),
    ensures
        dim_text(s) == s,
{
    lemma_dim_from_plain(s, 0);
    assert(s.subrange(0, s.len() as int) =~= s);
}

/// What the parser knows after reading some of a parameter list whose
/// fields so far are `f`: the completed fields' values, whether they were
/// all numbers, and the state of the field being read.
spec fn parse_state(
    f: Seq<Seq<char>>,
    vals: Seq<u32>,
    done_ok: bool,
    cur_len: nat,
    cur_digits: bool,
    cur_big: bool,
    cur_val: u32,
) -> bool {
    &&& f.len() == vals.len() + 1
    &&& done_ok == (forall|j: int| 0 <= j < vals.len() ==> field_ok(#[trigger] f[j]))
    &&& done_ok ==> (forall|j: int| 0 <= j < vals.len() ==> vals[j] == (digits_value(#[trigger] f[j]) as u32))
    &&& cur_len == f.last().len()
    &&& cur_digits == all_digits(f.last())
    &&& cur_digits ==> (cur_big == (digits_value(f.last()) > u32::MAX))
    &&& (cur_digits && !cur_big) ==> cur_val == digits_value(f.last())
}

/// Parses an SGR parameter list into its numbers, as splitting at `;`
/// and parsing each field with `u32::from_str` does.
fn parse_sgr_values(v: &Vec<char>, start: usize, end: usize) -> (r: Option<Vec<u32>>)
    requires
        start <= end <= v.len(),
    ensures
        match r {
            Some(x) => sgr_values(v@.subrange(start as int, end as int)) == Some(x@),
            None => sgr_values(v@.subrange(start as int, end as int)) is None,
        },
{
    let ghost p = v@.subrange(start as int, end as int);
    if start == end {
        return Some(Vec::new());
    }
    let mut vals: Vec<u32> = Vec::new();
    let mut done_ok = true;
    let mut cur_len: usize = 0;
    let mut cur_digits = true;
    let mut cur_big = false;
    let mut cur_val: u32 = 0;
    let mut k = start;
    proof {
        assert(p.take(0) =~= Seq::<char>::empty());
        assert(split_fields(p.take(0)) =~= seq![Seq::<char>::empty()]);
    }
    while k < end
        invariant
            start <= k <= end <= v.len(),
            p == v@.subrange(start as int, end as int),
            cur_len <= k - start,
            parse_state(split_fields(p.take(k - start)), vals@, done_ok, cur_len as nat, cur_digits, cur_big, cur_val),
        decreases end - k,
    {
        let c = v[k];
        let ghost f = split_fields(p.take(k - start));
        proof {
            lemma_split_fields_nonempty(p.take(k - start));
            assert(p.take(k + 1 - start).drop_last() =~= p.take(k - start));
            assert(p.take(k + 1 - start).last() == c);
        }
        if c == ';' {
            let ghost f2 = f.push(Seq::<char>::empty());
            assert(split_fields(p.take(k + 1 - start)) == f2);
            proof {
                assert(field_ok(f.last()) == (cur_len > 0 && cur_digits && !cur_big));
            }
            done_ok = done_ok && cur_len > 0 && cur_digits && !cur_big;
            vals.push(cur_val);
            cur_len = 0;
            cur_digits = true;
            cur_big = false;
            cur_val = 0;
            proof {
                assert forall|j: int| 0 <= j < vals.len() - 1 implies f2[j] == f[j] by {}
                assert(f2[vals.len() - 1] == f.last());
                assert(all_digits(f2.last()));
                assert(digits_value(f2.last()) == 0);
            }
        } else {
            let ghost f2 = f.update(f.len() - 1, f.last().push(c));
            assert(split_fields(p.take(k + 1 - start)) == f2);
            proof {
                assert(f2.last().drop_last() =~= f.last());
                assert forall|j: int| 0 <= j < vals.len() implies f2[j] == f[j] by {}
            }
            if '0' <= c && c <= '9' {
                if cur_digits && !cur_big {
                    let nv: u64 = (cur_val as u64) * 10 + ((c as u32) - ('0' as u32)) as u64;
                    if nv > 0xFFFF_FFFF {
                        cur_big = true;
                    } else {
                        cur_val = nv as u32;
                    }
                }
                proof {
                    assert(all_digits(f2.last()) == all_digits(f.last())) by {
                        if all_digits(f.last()) {
                            assert forall|i: int| 0 <= i < f2.last().len() implies is_digit(#[trigger] f2.last()[i]) by {
                                if i < f.last().len() {
                                    assert(f2.last()[i] == f.last()[i]);
                                }
                            }
                        } else {
                            let i = choose|i: int| 0 <= i < f.last().len() && !is_digit(#[trigger] f.last()[i]);
                            assert(f2.last()[i] == f.last()[i]);
                        }
                    }
                    assert(digits_value(f2.last()) == digits_value(f.last()) * 10 + digit_value(c));
                }
            } else {
                cur_digits = false;
                proof {
                    assert(f2.last()[f2.last().len() - 1] == c);
                    assert(!is_digit(f2.last()[f2.last().len() - 1]));
                }
            }
            cur_len = cur_len + 1;
        }
        k = k + 1;
    }
    let ghost f = split_fields(p.take(end - start));
    proof {
        assert(p.take(end - start) =~= p);
        lemma_split_fields_nonempty(p);
        assert(field_ok(f.last()) == (cur_len > 0 && cur_digits && !cur_big));
    }
    if !(done_ok && cur_len > 0 && cur_digits && !cur_big) {
        proof {
            if !done_ok {
                let j = choose|j: int| 0 <= j < vals.len() && !field_ok(#[trigger] f[j]);
                assert(!field_ok(f[j]));
            } else {
                assert(!field_ok(f[f.len() - 1]));
            }
        }
        return None;
    }
    vals.push(cur_val);
    proof {
        assert forall|j: int| 0 <= j < f.len() implies field_ok(#[trigger] f[j]) by {
            if j < f.len() - 1 {
            }
        }
        assert(vals@ =~= f.map_values(|g: Seq<char>| digits_value(g) as u32));
    }
    Some(vals)
}

/// Scales every truecolor triple in `vals`, in place.
fn scale_truecolor(vals: &mut Vec<u32>)
    ensures
        final(vals)@ == scale_from(old(vals)@, 0),
{
    let mut idx: usize = 0;
    while idx < vals.len() && vals.len() - idx > 4
        invariant
            scale_from(vals@, idx as int) == scale_from(old(vals)@, 0),
        decreases vals.len() - idx,
    {
        if (vals[idx] == 38 || vals[idx] == 48) && vals[idx + 1] == 2 && vals[idx + 2] <= 255
            && vals[idx + 3] <= 255 && vals[idx + 4] <= 255 {
            let a = scale_channel(vals[idx + 2] as u8) as u32;
            let b = scale_channel(vals[idx + 3] as u8) as u32;
            let c = scale_channel(vals[idx + 4] as u8) as u32;
            let ghost before = vals@;
            vals.set(idx + 2, a);
            vals.set(idx + 3, b);
            vals.set(idx + 4, c);
            assert(vals@ =~= scale_triple(before, idx as int));
            idx = idx + 5;
        } else {
            idx = idx + 1;
        }
    }
}

/// Appends the numbers of `v` in decimal, separated by `;`.
fn push_joined(s: &mut String, v: &Vec<u32>)
    ensures
        final(s)@ == old(s)@ + join_values(v@),
{
    let mut i: usize = 0;
    while i < v.len()
        invariant
            i <= v.len(),
            s@ == old(s)@ + join_values(v@.take(i as int)),
        decreases v.len() - i,
    {
        let ghost before = s@;
        if i > 0 {
            push_char(s, ';');
        }
        push_dec(s, v[i] as u64);
        proof {
            assert(v@.take(i + 1).drop_last() =~= v@.take(i as int));
            if i == 0 {
                assert(join_values(v@.take(i as int)) =~= Seq::<char>::empty());
            }
        }
        i = i + 1;
        assert(s@ =~= old(s)@ + join_values(v@.take(i as int)));
    }
    assert(v@.take(v.len() as int) =~= v@);
}

/// Rewrites the SGR sequence whose parameters are `v[start..end]`.
fn rewrite_sgr(v: &Vec<char>, start: usize, end: usize) -> (r: String)
    requires
        start <= end <= v.len(),
    ensures
        r@ == dim_sgr(v@.subrange(start as int, end as int)),
{
    let mut s = String::new();
    push_char(&mut s, '\x1b');
    push_char(&mut s, '[');
    match parse_sgr_values(v, start, end) {
        Some(mut vals) => {
            scale_truecolor(&mut vals);
            push_joined(&mut s, &vals);
        },
        None => {
            let mut k = start;
            while k < end
                invariant
                    start <= k <= end <= v.len(),
                    s@ == csi() + v@.subrange(start as int, k as int),
                decreases end - k,
            {
                push_char(&mut s, v[k]);
                k = k + 1;
                assert(s@ =~= csi() + v@.subrange(start as int, k as int));
            }
        },
    }
    push_char(&mut s, 'm');
    assert(s@ =~= dim_sgr(v@.subrange(start as int, end as int)));
    s
}

fn is_param(c: char) -> (r: bool)
    ensures
        r == is_param_char(c),
{
    0x30 <= (c as u32) && (c as u32) <= 0x3F
}

fn is_intermediate(c: char) -> (r: bool)
    ensures
        r == is_intermediate_char(c),
{
    0x20 <= (c as u32) && (c as u32) <= 0x2F
}

fn is_final(c: char) -> (r: bool)
    ensures
        r == is_final_char(c),
{
    0x40 <= (c as u32) && (c as u32) <= 0x7E
}

/// A copy of `input` with every truecolor SGR foreground and background
/// triple scaled by [`DIM_SCALE_PERCENT`]; other escapes and all text
/// pass through unchanged.
pub fn dim_truecolor(input: &str) -> (r: String)
    ensures
        r@ == dim_text(input@),
{
    let v = chars_of(input);
    let ghost s = v@;
    let n = v.len();
    let mut out = String::new();
    let mut i: usize = 0;
    while i < n
        invariant
            i <= n,
            n == v.len(),
            s == v@,
            s == input@,
            out@ + dim_from(s, i as int) == dim_from(s, 0),
        decreases n - i,
    {
        let ghost before = out@;
        if v[i] != '\x1b' {
            push_char(&mut out, v[i]);
            assert(out@ + dim_from(s, i + 1) =~= before + dim_from(s, i as int));
            i = i + 1;
            continue;
        }
        let mut q: usize = n;
        let mut p: usize = n;
        if i + 1 < n && v[i + 1] == '[' {
            p = i + 2;
            while p < n && is_param(v[p])
                invariant
                    i + 2 <= p <= n,
                    n == v.len(),
                    s == v@,
                    params_end(s, p as int) == params_end(s, i + 2),
                decreases n - p,
            {
                p = p + 1;
            }
            q = p;
            while q < n && is_intermediate(v[q])
                invariant
                    p <= q <= n,
                    n == v.len(),
                    s == v@,
                    intermediates_end(s, q as int) == intermediates_end(s, p as int),
                decreases n - q,
            {
                q = q + 1;
            }
        }
        proof {
            if i + 1 < n && v@[i + 1] == '[' {
                assert(params_end(s, p as int) == p);
                assert(intermediates_end(s, q as int) == q);
            }
        }
        if q < n && is_final(v[q]) {
            assert(csi_final_at(s, i as int) == Some(q as int));
            if v[q] == 'm' && q == p {
                let piece = rewrite_sgr(&v, i + 2, p);
                crate::text::push_str(&mut out, piece.as_str());
            } else {
                let mut k = i;
                while k <= q
                    invariant
                        i <= k <= q + 1,
                        q < n,
                        n == v.len(),
                        s == v@,
                        out@ == before + s.subrange(i as int, k as int),
                    decreases q + 1 - k,
                {
                    push_char(&mut out, v[k]);
                    k = k + 1;
                    assert(out@ =~= before + s.subrange(i as int, k as int));
                }
            }
            assert(out@ == before + dim_csi(s, i as int, q as int));
            assert(out@ + dim_from(s, q + 1) =~= before + dim_from(s, i as int));
            i = q + 1;
        } else {
            assert(csi_final_at(s, i as int) is None);
            push_char(&mut out, '\x1b');
            assert(out@ + dim_from(s, i + 1) =~= before + dim_from(s, i as int));
            i = i + 1;
        }
    }
    assert(out@ =~= dim_from(s, 0));
    out
}

proof fn lemma_params_end_run(s: Seq<char>, i: int, j: int)
    requires
        0 <= i <= j <= s.len(),
        forall|k: int| i <= k < j ==> is_param_char(#[trigger] s[k]),
        j == s.len() || !is_param_char(s[j]),
    ensures
        params_end(s, i) == j,
    decreases j - i,
{
    if i < j {
        lemma_params_end_run(s, i + 1, j);
    }
}

proof fn lemma_split_fields_semi(a: Seq<char>)
    ensures
        split_fields(a + seq![';']) == split_fields(a).push(Seq::empty()),
{
    assert((a + seq![';']).drop_last() =~= a);
}

proof fn lemma_split_fields_extend(a: Seq<char>, q: Seq<char>)
    requires
        forall|k: int| 0 <= k < q.len() ==> #[trigger] q[k] != ';',
    ensures
        split_fields(a + q) == split_fields(a).update(
            split_fields(a).len() - 1,
            split_fields(a).last() + q,
        ),
    decreases q.len(),
{
    lemma_split_fields_nonempty(a);
    if q.len() == 0 {
        assert(a + q =~= a);
        assert(split_fields(a).last() + q =~= split_fields(a).last());
        assert(split_fields(a).update(split_fields(a).len() - 1, split_fields(a).last()) =~= split_fields(a));
    } else {
        let q0 = q.drop_last();
        lemma_split_fields_extend(a, q0);
        assert((a + q).drop_last() =~= a + q0);
        assert((a + q).last() == q.last());
        assert(split_fields(a).last() + q =~= (split_fields(a).last() + q0).push(q.last()));
        let f = split_fields(a);
        let f0 = f.update(f.len() - 1, f.last() + q0);
        assert(f0.update(f0.len() - 1, f0.last().push(q.last())) =~= f.update(f.len() - 1, f.last() + q));
    }
}

proof fn lemma_dec_is_field(n: nat)
    requires
        n <= u32::MAX,
    ensures
        field_ok(dec(n)),
        digits_value(dec(n)) == n,
        forall|k: int| 0 <= k < dec(n).len() ==> #[trigger] dec(n)[k] != ';',
        forall|k: int| 0 <= k < dec(n).len() ==> is_param_char(#[trigger] dec(n)[k]),
{
    lemma_dec_digits(n);
    assert forall|k: int| 0 <= k < dec(n).len() implies #[trigger] dec(n)[k] != ';' && is_param_char(dec(n)[k]) by {
        assert(is_digit(dec(n)[k]));
    }
}

proof fn lemma_head_fields()
    ensures
        split_fields(seq!['4', '8', ';', '2', ';']) == seq![seq!['4', '8'], seq!['2'], Seq::<char>::empty()],
{
    let e = Seq::<char>::empty();
    assert(split_fields(e) == seq![e]);
    lemma_split_fields_extend(e, seq!['4', '8']);
    assert(e + seq!['4', '8'] =~= seq!['4', '8']);
    assert(split_fields(seq!['4', '8']) =~= seq![seq!['4', '8']]);
    lemma_split_fields_semi(seq!['4', '8']);
    assert(seq!['4', '8'] + seq![';'] =~= seq!['4', '8', ';']);
    lemma_split_fields_extend(seq!['4', '8', ';'], seq!['2']);
    assert(seq!['4', '8', ';'] + seq!['2'] =~= seq!['4', '8', ';', '2']);
    assert(split_fields(seq!['4', '8', ';', '2']) =~= seq![seq!['4', '8'], seq!['2']]);
    lemma_split_fields_semi(seq!['4', '8', ';', '2']);
    assert(seq!['4', '8', ';', '2'] + seq![';'] =~= seq!['4', '8', ';', '2', ';']);
    assert(split_fields(seq!['4', '8', ';', '2', ';']) =~= seq![seq!['4', '8'], seq!['2'], e]);
}

/// The parameters of a truecolor background escape.
pub open spec fn bg_params(r: nat, g: nat, b: nat) -> Seq<char> {
    seq!['4', '8', ';', '2', ';'] + dec(r) + seq![';'] + dec(g) + seq![';'] + dec(b)
}

proof fn lemma_bg_fields(r: u8, g: u8, b: u8)
    ensures
        split_fields(bg_params(r as nat, g as nat, b as nat)) == seq![
            seq!['4', '8'],
            seq!['2'],
            dec(r as nat),
            dec(g as nat),
            dec(b as nat),
        ],
{
    let (dr, dg, db) = (dec(r as nat), dec(g as nat), dec(b as nat));
    lemma_dec_is_field(r as nat);
    lemma_dec_is_field(g as nat);
    lemma_dec_is_field(b as nat);
    let head = seq!['4', '8', ';', '2', ';'];
    lemma_head_fields();
    lemma_split_fields_extend(head, dr);
    assert(split_fields(head + dr) =~= seq![seq!['4', '8'], seq!['2'], dr]);
    lemma_split_fields_semi(head + dr);
    lemma_split_fields_extend(head + dr + seq![';'], dg);
    assert(split_fields(head + dr + seq![';'] + dg) =~= seq![seq!['4', '8'], seq!['2'], dr, dg]);
    lemma_split_fields_semi(head + dr + seq![';'] + dg);
    lemma_split_fields_extend(head + dr + seq![';'] + dg + seq![';'], db);
    assert(split_fields(bg_params(r as nat, g as nat, b as nat)) =~= seq![seq!['4', '8'], seq!['2'], dr, dg, db]);
}

proof fn lemma_bg_values(r: u8, g: u8, b: u8)
    ensures
        sgr_values(bg_params(r as nat, g as nat, b as nat)) == Some(seq![48u32, 2u32, r as u32, g as u32, b as u32]),
{
    lemma_bg_fields(r, g, b);
    lemma_dec_is_field(r as nat);
    lemma_dec_is_field(g as nat);
    lemma_dec_is_field(b as nat);
    let f = split_fields(bg_params(r as nat, g as nat, b as nat));
    assert(seq!['4', '8'].drop_last() =~= seq!['4']);
    assert(seq!['4'].drop_last() =~= Seq::<char>::empty());
    assert(seq!['2'].drop_last() =~= Seq::<char>::empty());
    assert(digits_value(Seq::<char>::empty()) == 0);
    assert(digit_value('4') == 4);
    assert(digit_value('8') == 8);
    assert(digit_value('2') == 2);
    assert(digits_value(seq!['4']) == 4);
    assert(digits_value(seq!['4', '8']) == 48);
    assert(digits_value(seq!['2']) == 2);
    assert(all_digits(seq!['4', '8']));
    assert(all_digits(seq!['2']));
    assert forall|k: int| 0 <= k < f.len() implies field_ok(#[trigger] f[k]) by {}
    assert(f.map_values(|x: Seq<char>| digits_value(x) as u32) =~= seq![48u32, 2u32, r as u32, g as u32, b as u32]);
}

proof fn lemma_bg_join(r: nat, g: nat, b: nat)
    requires
        r <= u32::MAX,
        g <= u32::MAX,
        b <= u32::MAX,
    ensures
        join_values(seq![48u32, 2u32, r as u32, g as u32, b as u32]) == bg_params(r, g, b),
{
    let v = seq![48u32, 2u32, r as u32, g as u32, b as u32];
    assert(v.drop_last() =~= seq![48u32, 2u32, r as u32, g as u32]);
    assert(v.drop_last().drop_last() =~= seq![48u32, 2u32, r as u32]);
    assert(v.drop_last().drop_last().drop_last() =~= seq![48u32, 2u32]);
    assert(v.drop_last().drop_last().drop_last().drop_last() =~= seq![48u32]);
    assert(dec(4) =~= seq!['4']);
    assert(dec(48) =~= seq!['4', '8']);
    assert(dec(2) =~= seq!['2']);
    assert(join_values(seq![48u32]) =~= seq!['4', '8']);
    assert(join_values(seq![48u32, 2u32]) =~= seq!['4', '8', ';', '2']);
    assert(join_values(seq![48u32, 2u32, r as u32]) =~= seq!['4', '8', ';', '2', ';'] + dec(r));
    assert(join_values(seq![48u32, 2u32, r as u32, g as u32]) =~= seq!['4', '8', ';', '2', ';'] + dec(r) + seq![';'] + dec(g));
    assert(join_values(v) =~= bg_params(r, g, b));
}

proof fn lemma_bg_csi(r: u8, g: u8, b: u8)
    ensures
        dim_text(bg_escape(r as nat, g as nat, b as nat)) == dim_sgr(bg_params(r as nat, g as nat, b as nat)),
{
    let (dr, dg, db) = (dec(r as nat), dec(g as nat), dec(b as nat));
    lemma_dec_is_field(r as nat);
    lemma_dec_is_field(g as nat);
    lemma_dec_is_field(b as nat);
    let p = bg_params(r as nat, g as nat, b as nat);
    let s = bg_escape(r as nat, g as nat, b as nat);
    assert(s =~= csi() + p + seq!['m']);
    let j = s.len() - 1;
    assert forall|k: int| 2 <= k < j implies is_param_char(#[trigger] s[k]) by {
        assert(s[k] == p[k - 2]);
        let m = k - 2;
        if m < 5 {
        } else if m < 5 + dr.len() {
            assert(p[m] == dr[m - 5]);
        } else if m == 5 + dr.len() {
        } else if m < 6 + dr.len() + dg.len() {
            assert(p[m] == dg[m - 6 - dr.len()]);
        } else if m == 6 + dr.len() + dg.len() {
        } else {
            assert(p[m] == db[m - 7 - dr.len() - dg.len()]);
        }
    }
    lemma_params_end_run(s, 2, j);
    assert(intermediates_end(s, j) == j);
    assert(csi_final_at(s, 0) == Some(j));
    assert(s.subrange(2, j) =~= p);
    assert(dim_from(s, j + 1) == Seq::<char>::empty());
    assert(dim_text(s) =~= dim_sgr(p));
}

/// Dimming a raw truecolor background escape gives exactly the escape
/// that [`dim_bg_escape`] builds for the same channels: cells painted with
/// it blend with the dimmed layer.
#[verifier::spinoff_prover]
#[verifier::rlimit(40)]
pub proof fn lemma_dim_bg_escape_blends(r: u8, g: u8, b: u8)
    ensures
        dim_text(bg_escape(r as nat, g as nat, b as nat)) == bg_escape(
            scaled(r as nat),
            scaled(g as nat),
            scaled(b as nat),
        ),
{
    let p = bg_params(r as nat, g as nat, b as nat);
    lemma_bg_csi(r, g, b);
    lemma_bg_values(r, g, b);
    let vals = seq![48u32, 2u32, r as u32, g as u32, b as u32];
    let (sr, sg, sb) = (scaled(r as nat), scaled(g as nat), scaled(b as nat));
    let sv = seq![48u32, 2u32, sr as u32, sg as u32, sb as u32];
    assert(truecolor_at(vals, 0));
    assert(scale_triple(vals, 0) =~= sv);
    assert(scale_from(sv, 5) == sv);
    assert(scale_from(vals, 0) == sv);
    lemma_bg_join(sr, sg, sb);
    assert(dim_sgr(p) =~= bg_escape(sr, sg, sb));
}

} // verus!
