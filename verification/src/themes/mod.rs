//! Theme palettes: the colours and gradient stops a theme defines.

use vstd::prelude::*;

use crate::text::{chars_of, dec, push_char, push_dec, utf8_len, utf8_width};

verus! {

/// An RGB colour.
#[derive(Debug, Clone, Copy, PartialEq, Eq, Structural)]
pub struct Rgb(pub u8, pub u8, pub u8);

pub open spec fn hex_digit_value(c: char) -> Option<nat> {
    if '0' <= c && c <= '9' {
        Some(((c as int) - ('0' as int)) as nat)
    } else if 'a' <= c && c <= 'f' {
        Some(((c as int) - ('a' as int) + 10) as nat)
    } else if 'A' <= c && c <= 'F' {
        Some(((c as int) - ('A' as int) + 10) as nat)
    } else {
        None
    }
}

/// The byte two hex digits (of either case) denote, high digit first;
/// none unless `p` is exactly two hex digits.
pub open spec fn hex_pair(p: Seq<char>) -> Option<u8> {
    if p.len() != 2 {
        None
    } else {
        match (hex_digit_value(p[0]), hex_digit_value(p[1])) {
            (Some(a), Some(b)) => Some((a * 16 + b) as u8),
            _ => None,
        }
    }
}

/// The colour a `#RRGGBB` string denotes.
pub open spec fn parse_hex_spec(s: Seq<char>) -> Option<Rgb> {
    if s.len() == 0 || s[0] != '#' {
        None
    } else {
        let b = s.drop_first();
        if b.len() != 6 || utf8_len(b) != 6 {
            None
        } else {
            match (hex_pair(b.subrange(0, 2)), hex_pair(b.subrange(2, 4)), hex_pair(b.subrange(4, 6))) {
                (Some(r), Some(g), Some(bl)) => Some(Rgb(r, g, bl)),
                _ => None,
            }
        }
    }
}

/// `ESC [ 38 ; 2 ; R ; G ; B m`: a truecolor foreground escape.
pub open spec fn fg_escape(r: u8, g: u8, b: u8) -> Seq<char> {
    seq!['\x1b', '[', '3', '8', ';', '2', ';'] + dec(r as nat) + seq![';'] + dec(g as nat) + seq![';']
        + dec(b as nat) + seq!['m']
}

/// Lower-case hexadecimal digit of `d < 16`.
pub open spec fn hex_char(d: nat) -> char {
    if d < 10 { ((d + 48) as u8) as char } else { ((d + 87) as u8) as char }
}

/// `v` as two lower-case hex digits.
pub open spec fn hex2(v: u8) -> Seq<char> {
    seq![hex_char((v / 16) as nat), hex_char((v % 16) as nat)]
}

fn hex_digit(c: char) -> (r: Option<u8>)
    ensures
        match hex_digit_value(c) {
            Some(v) => r == Some(v as u8),
            None => r is None,
        },
{
    if '0' <= c && c <= '9' {
        Some(((c as u32) - ('0' as u32)) as u8)
    } else if 'a' <= c && c <= 'f' {
        Some(((c as u32) - ('a' as u32) + 10) as u8)
    } else if 'A' <= c && c <= 'F' {
        Some(((c as u32) - ('A' as u32) + 10) as u8)
    } else {
        None
    }
}

fn parse_pair(a: char, b: char) -> (r: Option<u8>)
    ensures
        r == hex_pair(seq![a, b]),
{
    match (hex_digit(a), hex_digit(b)) {
        (Some(x), Some(y)) => Some(x * 16 + y),
        _ => None,
    }
}

fn hex_char_of(d: u8) -> (c: char)
    requires
        d < 16,
    ensures
        c == hex_char(d as nat),
{
    if d < 10 { (d + 48) as char } else { (d + 87) as char }
}

impl Rgb {
    /// Parses `#RRGGBB` (hex digits of either case); anything else,
    /// whatever its characters, gives none.
    pub fn parse_hex(hex: &str) -> (r: Option<Rgb>)
        ensures
            r == parse_hex_spec(hex@),
    {
        let v = chars_of(hex);
        if v.len() == 0 || v[0] != '#' {
            return None;
        }
        let ghost b = hex@.drop_first();
        if v.len() != 7 {
            proof {
                if b.len() != 6 {
                } 
            }
            return None;
        }
        let mut bytes: usize = 0;
        let mut i: usize = 1;
        while i < 7
            invariant
                1 <= i <= 7,
                v.len() == 7,
                v@ == hex@,
                b == hex@.drop_first(),
                bytes as nat == utf8_len(b.take(i - 1)),
                bytes <= 4 * (i - 1),
            decreases 7 - i,
        {
            let c = v[i];
            let w: usize = if (c as u32) < 0x80 { 1 } else if (c as u32) < 0x800 { 2 } else if (c as u32) < 0x10000 { 3 } else { 4 };
            proof {
                assert(b.take(i as int).drop_last() =~= b.take(i - 1));
                assert(b.take(i as int).last() == c);
            }
            bytes = bytes + w;
            i = i + 1;
        }
        assert(b.take(6) =~= b);
        if bytes != 6 {
            return None;
        }
        match (parse_pair(v[1], v[2]), parse_pair(v[3], v[4]), parse_pair(v[5], v[6])) {
            (Some(r), Some(g), Some(bl)) => {
                assert(b.subrange(0, 2) =~= seq![v@[1], v@[2]]);
                assert(b.subrange(2, 4) =~= seq![v@[3], v@[4]]);
                assert(b.subrange(4, 6) =~= seq![v@[5], v@[6]]);
                Some(Rgb(r, g, bl))
            },
            _ => {
                assert(b.subrange(0, 2) =~= seq![v@[1], v@[2]]);
                assert(b.subrange(2, 4) =~= seq![v@[3], v@[4]]);
                assert(b.subrange(4, 6) =~= seq![v@[5], v@[6]]);
                None
            },
        }
    }

    /// The truecolor foreground escape for this colour.
    pub fn to_fg_escape(self) -> (r: String)
        ensures
            r@ == fg_escape(self.0, self.1, self.2),
    {
        rgb_to_fg_escape(self.0, self.1, self.2)
    }

    /// The colour as `#rrggbb` in lower-case hex.
    pub fn to_string(&self) -> (r: String)
        ensures
            r@ == seq!['#'] + hex2(self.0) + hex2(self.1) + hex2(self.2),
    {
        let mut s = String::new();
        push_char(&mut s, '#');
        push_char(&mut s, hex_char_of(self.0 / 16));
        push_char(&mut s, hex_char_of(self.0 % 16));
        push_char(&mut s, hex_char_of(self.1 / 16));
        push_char(&mut s, hex_char_of(self.1 % 16));
        push_char(&mut s, hex_char_of(self.2 / 16));
        push_char(&mut s, hex_char_of(self.2 % 16));
        assert(s@ =~= seq!['#'] + hex2(self.0) + hex2(self.1) + hex2(self.2));
        s
    }
}

/// `ESC [ 38 ; 2 ; R ; G ; B m` for the given channels.
pub fn rgb_to_fg_escape(r: u8, g: u8, b: u8) -> (s: String)
    ensures
        s@ == fg_escape(r, g, b),
{
    let mut s = String::new();
    push_char(&mut s, '\x1b');
    push_char(&mut s, '[');
    push_char(&mut s, '3');
    push_char(&mut s, '8');
    push_char(&mut s, ';');
    push_char(&mut s, '2');
    push_char(&mut s, ';');
    push_dec(&mut s, r as u64);
    push_char(&mut s, ';');
    push_dec(&mut s, g as u64);
    push_char(&mut s, ';');
    push_dec(&mut s, b as u64);
    push_char(&mut s, 'm');
    assert(s@ =~= fg_escape(r, g, b));
    s
}

/// A three-stop gradient: start, middle, end.
#[derive(Debug, Clone, Copy, PartialEq, Eq, Structural)]
pub struct GradientDef {
    pub start: Rgb,
    pub mid: Rgb,
    pub end: Rgb,
}

/// A theme's colours and gradients.
#[derive(Debug, Clone, Copy, PartialEq, Eq, Structural)]
pub struct ThemePalette {
    pub colors: PaletteColors,
    pub gradients: PaletteGradients,
}

/// A theme's direct colours.
#[derive(Debug, Clone, Copy, PartialEq, Eq, Structural)]
pub struct PaletteColors {
    pub main_bg: Rgb,
    pub main_fg: Rgb,
    pub title: Rgb,
    pub hi_fg: Rgb,
    pub selected_bg: Rgb,
    pub selected_fg: Rgb,
    pub graph_text: Rgb,
    pub meter_bg: Rgb,
    pub proc_tree_fg: Rgb,
    pub cpu_widget: Rgb,
    pub mem_widget: Rgb,
    pub net_widget: Rgb,
    pub proc_widget: Rgb,
    pub gpu_widget: Rgb,
    pub disk_widget: Rgb,
    pub help_box: Rgb,
    pub options_box: Rgb,
    pub followed_bg: Rgb,
    pub followed_fg: Rgb,
    /// Foreground of dead-process rows in the paused list.
    pub dead_proc_fg: Rgb,
    pub statusbar_bg: Rgb,
    pub statusbar_fg: Rgb,
    pub statusbar_hi: Rgb,
    pub statusbar_sep: Rgb,
    pub data_label_fg: Rgb,
}

/// A theme's gradients.
#[derive(Debug, Clone, Copy, PartialEq, Eq, Structural)]
pub struct PaletteGradients {
    pub cpu_upper: GradientDef,
    pub cpu_lower: GradientDef,
    pub temp: GradientDef,
    pub free: GradientDef,
    pub cached: GradientDef,
    pub available: GradientDef,
    pub used: GradientDef,
    pub download: GradientDef,
    pub upload: GradientDef,
    pub process: GradientDef,
    pub gpu: GradientDef,
    pub gpu_clock: GradientDef,
    pub gpu_power: GradientDef,
    pub gpu_vram: GradientDef,
    pub disk_read: GradientDef,
    pub disk_write: GradientDef,
    pub disk_busy: GradientDef,
}

proof fn lemma_hex_char_value(d: nat)
    requires
        d < 16,
    ensures
        hex_digit_value(hex_char(d)) == Some(d),
        utf8_width(hex_char(d)) == 1,
{
    if d < 10 {
        assert(((d + 48) as u8) as char as int == d + 48);
    } else {
        assert(((d + 87) as u8) as char as int == d + 87);
    }
}

proof fn lemma_hex2_pair(v: u8)
    ensures
        hex_pair(hex2(v)) == Some(v),
        utf8_width(hex2(v)[0]) == 1 && utf8_width(hex2(v)[1]) == 1,
{
    lemma_hex_char_value((v / 16) as nat);
    lemma_hex_char_value((v % 16) as nat);
    assert((v / 16) as nat * 16 + (v % 16) as nat == v);
}

/// A colour written out by [`Rgb::to_string`] parses back to itself.
pub proof fn lemma_hex_round_trip(c: Rgb)
    ensures
        parse_hex_spec(seq!['#'] + hex2(c.0) + hex2(c.1) + hex2(c.2)) == Some(c),
{
    lemma_hex2_pair(c.0);
    lemma_hex2_pair(c.1);
    lemma_hex2_pair(c.2);
    let s = seq!['#'] + hex2(c.0) + hex2(c.1) + hex2(c.2);
    let b = s.drop_first();
    assert(b =~= hex2(c.0) + hex2(c.1) + hex2(c.2));
    assert(b.subrange(0, 2) =~= hex2(c.0));
    assert(b.subrange(2, 4) =~= hex2(c.1));
    assert(b.subrange(4, 6) =~= hex2(c.2));
    assert(utf8_len(b) == 6) by {
        reveal_with_fuel(utf8_len, 7);
        assert(b.drop_last().drop_last().drop_last().drop_last().drop_last().drop_last() =~= Seq::<char>::empty());
    }
}

} // verus!
