//! One-line horizontal meters. Filled and empty cells use the same
//! character; filled cells take their colour from the theme gradient by
//! position, empty cells the meter background colour.

use vstd::prelude::*;

use crate::draw::buffer::{push_reset, sgr_reset};
use crate::text::{push_char, push_char_n, push_str, repeat_char};

verus! {

/// The character of every meter cell, filled or empty.
pub const METER_CHAR: char = '■';

/// `i * 100 / width` rounded to the nearest integer, halves up: the
/// gradient position of filled cell `i`.
pub open spec fn color_index(i: nat, width: nat) -> nat {
    (200 * i + width) / (2 * width)
}

/// Cells filled at `pct` percent of `width`, rounding down.
pub open spec fn filled_cells(width: nat, pct: nat) -> nat {
    width * pct / 100
}

/// Filled cells `0..n`, each in its gradient colour when there is a gradient.
pub open spec fn filled_part(width: nat, gradient: Seq<String>, n: nat) -> Seq<char>
    decreases n,
{
    if n == 0 {
        Seq::empty()
    } else {
        let i = (n - 1) as nat;
        let ci = color_index(i, width);
        let idx = if ci < 100 { ci } else { 100 };
        filled_part(width, gradient, i) + (if gradient.len() > 0 { gradient[idx as int]@ } else {
            Seq::empty()
        }) + seq![METER_CHAR]
    }
}

/// The meter at `pct` percent: filled cells, then the empty ones in the
/// background colour, then a reset.
pub open spec fn meter_row(width: nat, gradient: Seq<String>, bg: Seq<char>, pct: nat) -> Seq<char> {
    let filled = filled_cells(width, pct);
    let empty = (width - filled) as nat;
    filled_part(width, gradient, filled) + (if empty > 0 { bg + repeat_char(METER_CHAR, empty) } else {
        Seq::empty()
    }) + sgr_reset()
}

/// Whether a gradient has an entry for every filled cell of a meter this
/// wide (an empty gradient leaves cells uncoloured).
pub open spec fn gradient_covers(width: nat, len: nat) -> bool {
    width == 0 || len == 0 || len > color_index((width - 1) as nat, width)
}

/// A meter of fixed width with its 101 renderings (0..=100 %) made up front.
#[derive(Debug, Clone)]
pub struct Meter {
    cache: Vec<String>,
}

impl Meter {
    /// Whether every percentage has its rendering.
    pub closed spec fn wf(&self) -> bool {
        self.cache.len() == 101
    }

    /// The rendering at `pct` percent.
    pub closed spec fn row(&self, pct: int) -> Seq<char> {
        self.cache@[pct]@
    }

    /// Renders the meter at every percentage from 0 to 100; `gradient`
    /// holds the theme's colour escapes, `meter_bg` the escape for empty
    /// cells.
    pub fn new(width: usize, gradient: &[String], meter_bg: &str) -> (r: Self)
        requires
            width as nat * 201 <= u64::MAX,
            gradient_covers(width as nat, gradient@.len()),
        ensures
            r.wf(),
            forall|pct: int| 0 <= pct <= 100 ==> #[trigger] r.row(pct) == meter_row(width as nat, gradient@, meter_bg@, pct as nat),
    {
        let mut cache: Vec<String> = Vec::new();
        let mut pct: usize = 0;
        while pct <= 100
            invariant
                pct <= 101,
                cache.len() == pct,
                width as nat * 201 <= u64::MAX,
                gradient_covers(width as nat, gradient@.len()),
                forall|k: int| 0 <= k < pct ==> #[trigger] cache@[k]@ == meter_row(width as nat, gradient@, meter_bg@, k as nat),
            decreases 101 - pct,
        {
            assert(width * pct <= width * 100) by (nonlinear_arith)
                requires pct <= 100;
            let filled = ((width as u64) * (pct as u64) / 100) as usize;
            assert(filled <= width) by (nonlinear_arith)
                requires filled == width * pct / 100, pct <= 100;
            let empty = width - filled;
            let mut s = String::new();
            let mut i: usize = 0;
            while i < filled
                invariant
                    i <= filled <= width,
                    width as nat * 201 <= u64::MAX,
                    gradient_covers(width as nat, gradient@.len()),
                    s@ == filled_part(width as nat, gradient@, i as nat),
                decreases filled - i,
            {
                let ghost before = s@;
                if gradient.len() > 0 {
                    let ci64 = (200 * (i as u64) + (width as u64)) / (2 * (width as u64));
                    proof {
                        vstd::arithmetic::div_mod::lemma_div_is_ordered(
                            200 * i + width, 200 * (width - 1) + width, 2 * width);
                    }
                    assert(ci64 < gradient@.len());
                    let ci = ci64 as usize;
                    let idx = if ci < 100 { ci } else { 100 };
                    push_str(&mut s, gradient[idx].as_str());
                }
                push_char(&mut s, METER_CHAR);
                i = i + 1;
                assert(s@ =~= filled_part(width as nat, gradient@, i as nat));
            }
            if empty > 0 {
                push_str(&mut s, meter_bg);
                push_char_n(&mut s, METER_CHAR, empty);
            }
            push_reset(&mut s);
            assert(s@ =~= meter_row(width as nat, gradient@, meter_bg@, pct as nat));
            cache.push(s);
            pct = pct + 1;
        }
        Meter { cache }
    }

    /// The rendering at `value` percent, clamped to 0..=100.
    pub fn render(&self, value: i32) -> (r: &str)
        requires
            self.wf(),
        ensures
            r@ == self.row(if value < 0 { 0 } else if value > 100 { 100 } else { value as int }),
    {
        let clamped: usize = if value < 0 { 0 } else if value > 100 { 100 } else { value as usize };
        self.cache[clamped].as_str()
    }
}

} // verus!
