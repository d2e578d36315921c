//! Multi-row braille/block graphs.
//!
//! A graph keeps one text row per terminal line. Each row holds, left
//! to right, a cursor-right escape for the columns without data, then
//! one cell per data column. A cell shows the previous and the current
//! sample as a braille glyph (two levels, 0..=4 each), or the current
//! sample alone as a block glyph. Every row covers one horizontal band
//! of the 0..100 % range.

use std::collections::VecDeque;

use vstd::prelude::*;

use crate::text::{chars_of, dec, is_ascii_letter, parse_usize_range, push_char, push_dec, push_str, str_eq, string_from_chars, usize_from_str};

verus! {

/// Graph glyph set.
#[derive(Debug, Clone, Copy, PartialEq, Eq, Structural)]
pub enum GraphSymbol {
    Braille,
    Block,
}

/// The glyph set a configuration names: `specific`, or `global` when
/// `specific` is `"default"`; `"block"` selects blocks, anything else
/// braille.
pub open spec fn symbol_for_config(specific: Seq<char>, global: Seq<char>) -> GraphSymbol {
    let s = if specific == seq!['d', 'e', 'f', 'a', 'u', 'l', 't'] { global } else { specific };
    if s == seq!['b', 'l', 'o', 'c', 'k'] { GraphSymbol::Block } else { GraphSymbol::Braille }
}

impl GraphSymbol {
    /// Parses a configuration value (`"braille"`, `"block"` or
    /// `"default"`, the last deferring to `global`).
    pub fn from_config(specific: &str, global: &str) -> (r: Self)
        ensures
            r == symbol_for_config(specific@, global@),
    {
        proof {
            reveal_strlit("default");
            reveal_strlit("block");
            assert("default"@ =~= seq!['d', 'e', 'f', 'a', 'u', 'l', 't']);
            assert("block"@ =~= seq!['b', 'l', 'o', 'c', 'k']);
        }
        let s = if str_eq(specific, "default") { global } else { specific };
        if str_eq(s, "block") { GraphSymbol::Block } else { GraphSymbol::Braille }
    }
}

/// Braille glyphs for upright graphs, indexed by `prev * 5 + curr`.
pub open spec fn braille_up() -> Seq<char> {
    seq![' ', '⢀', '⢠', '⢰', '⢸', '⡀', '⣀', '⣠', '⣰', '⣸', '⡄', '⣄', '⣤', '⣴', '⣼', '⡆', '⣆', '⣦', '⣶',
        '⣾', '⡇', '⣇', '⣧', '⣷', '⣿']
}

/// Braille glyphs for inverted graphs, indexed by `prev * 5 + curr`.
pub open spec fn braille_down() -> Seq<char> {
    seq![' ', '⠈', '⠘', '⠸', '⢸', '⠁', '⠉', '⠙', '⠹', '⢹', '⠃', '⠋', '⠛', '⠻', '⢻', '⠇', '⠏', '⠟', '⠿',
        '⢿', '⡇', '⡏', '⡟', '⡿', '⣿']
}

/// Block glyphs for upright graphs, indexed by level.
pub open spec fn block_up() -> Seq<char> {
    seq![' ', '▄', '▄', '▀', '█']
}

/// Block glyphs for inverted graphs, indexed by level.
pub open spec fn block_down() -> Seq<char> {
    seq![' ', '▀', '▀', '▄', '█']
}

fn braille_glyph(invert: bool, idx: usize) -> (c: char)
    requires
        idx < 25,
    ensures
        c == (if invert { braille_down()[idx as int] } else { braille_up()[idx as int] }),
{
    if invert {
        match idx {
            0 => ' ', 1 => '⠈', 2 => '⠘', 3 => '⠸', 4 => '⢸', 5 => '⠁', 6 => '⠉', 7 => '⠙', 8 => '⠹',
            9 => '⢹', 10 => '⠃', 11 => '⠋', 12 => '⠛', 13 => '⠻', 14 => '⢻', 15 => '⠇', 16 => '⠏',
            17 => '⠟', 18 => '⠿', 19 => '⢿', 20 => '⡇', 21 => '⡏', 22 => '⡟', 23 => '⡿', _ => '⣿',
        }
    } else {
        match idx {
            0 => ' ', 1 => '⢀', 2 => '⢠', 3 => '⢰', 4 => '⢸', 5 => '⡀', 6 => '⣀', 7 => '⣠', 8 => '⣰',
            9 => '⣸', 10 => '⡄', 11 => '⣄', 12 => '⣤', 13 => '⣴', 14 => '⣼', 15 => '⡆', 16 => '⣆',
            17 => '⣦', 18 => '⣶', 19 => '⣾', 20 => '⡇', 21 => '⣇', 22 => '⣧', 23 => '⣷', _ => '⣿',
        }
    }
}

fn block_glyph(invert: bool, level: usize) -> (c: char)
    requires
        level < 5,
    ensures
        c == (if invert { block_down()[level as int] } else { block_up()[level as int] }),
{
    if invert {
        match level { 0 => ' ', 1 => '▀', 2 => '▀', 3 => '▄', _ => '█' }
    } else {
        match level { 0 => ' ', 1 => '▄', 2 => '▄', 3 => '▀', _ => '█' }
    }
}

/// The escape that moves the cursor `n` columns right.
pub open spec fn cursor_right(n: nat) -> Seq<char> {
    seq!['\x1b', '['] + dec(n) + seq!['C']
}

pub open spec fn clamp_int(x: int, lo: int, hi: int) -> int {
    if x < lo { lo } else if x > hi { hi } else { x }
}

/// `n / d` rounded to the nearest integer, halves up (`n >= 0`, `d > 0`).
pub open spec fn round_div(n: int, d: int) -> int {
    (2 * n + d) / (2 * d)
}

/// Percentage (0..=100, rounded) of `value - offset` within
/// `0..=max_value`; a maximum below 1 counts as 1.
pub open spec fn graph_percent(value: int, offset: int, max_value: int) -> int {
    let m = if max_value < 1 { 1 } else { max_value };
    round_div(100 * clamp_int(value - offset, 0, m), m)
}

/// Level 0..=4 of a percentage within the band of row `row` of a graph
/// `height` rows high; a single-row graph spans the whole range.
pub open spec fn band_level(pct: int, height: int, invert: bool, row: int) -> int {
    if height == 1 {
        clamp_int(pct * 4 / 100, 0, 4)
    } else {
        let horizon = if invert { height - 1 - row } else { row };
        let high = round_div(100 * (height - horizon), height);
        let low = round_div(100 * (height - (horizon + 1)), height);
        if pct < low {
            0
        } else if pct >= high {
            4
        } else {
            let range = if high - low < 1 { 1 } else { high - low };
            clamp_int((pct - low) * 4 / range, 0, 4)
        }
    }
}

proof fn lemma_round_div_ordered(a: int, b: int, d: int)
    requires
        0 <= a <= b,
        d > 0,
    ensures
        round_div(a, d) <= round_div(b, d),
{
    vstd::arithmetic::div_mod::lemma_div_is_ordered(2 * a + d, 2 * b + d, 2 * d);
}

/// An upright graph grows from its bottom row: a value fills every row
/// at least as much as any row above it.
pub proof fn lemma_upright_fills_from_bottom(pct: int, height: int, upper: int, lower: int)
    requires
        height > 1,
        0 <= upper < lower < height,
    ensures
        band_level(pct, height, false, upper) <= band_level(pct, height, false, lower),
{
    let high_lower = round_div(100 * (height - lower), height);
    let low_upper = round_div(100 * (height - (upper + 1)), height);
    lemma_round_div_ordered(100 * (height - lower), 100 * (height - (upper + 1)), height);
    assert(high_lower <= low_upper);
    let a = band_level(pct, height, false, upper);
    let b = band_level(pct, height, false, lower);
    assert(0 <= a <= 4 && 0 <= b <= 4);
    if pct >= high_lower {
        lemma_round_div_ordered(100 * (height - (lower + 1)), 100 * (height - lower), height);
        assert(b == 4);
    } else {
        assert(pct < low_upper);
        assert(a == 0);
    }
}

/// An inverted graph is the upright one upside down: its row `row` shows
/// what row `height - 1 - row` shows upright.
pub proof fn lemma_inverted_mirrors_upright(pct: int, height: int, row: int)
    requires
        height > 1,
        0 <= row < height,
    ensures
        band_level(pct, height, true, row) == band_level(pct, height, false, height - 1 - row),
{
}

/// An inverted graph hangs from its top row: a value fills every row at
/// least as much as any row below it.
pub proof fn lemma_inverted_fills_from_top(pct: int, height: int, upper: int, lower: int)
    requires
        height > 1,
        0 <= upper < lower < height,
    ensures
        band_level(pct, height, true, lower) <= band_level(pct, height, true, upper),
{
    lemma_upright_fills_from_bottom(pct, height, height - 1 - lower, height - 1 - upper);
}

/// The baseline row (the bottom one upright, the top one inverted)
/// covers the lowest band, from 0 up to `round(100 / height)` percent: a
/// value at or above that fills it, and a value below it shows in no
/// other row.
pub proof fn lemma_baseline_band(pct: int, height: int, invert: bool, row: int)
    requires
        height > 1,
        0 <= row < height,
    ensures
        ({
            let base = if invert { 0 } else { height - 1 };
            &&& pct >= round_div(100, height) ==> band_level(pct, height, invert, base) == 4
            &&& pct < round_div(100, height) && row != base ==> band_level(pct, height, invert, row) == 0
        }),
{
    let horizon = if invert { height - 1 - row } else { row };
    assert(round_div(0, height) == 0) by {
        vstd::arithmetic::div_mod::lemma_basic_div(height, 2 * height);
    }
    if row != (if invert { 0 } else { height - 1 }) {
        assert(horizon < height - 1);
        lemma_round_div_ordered(100, 100 * (height - (horizon + 1)), height);
    }
}

/// The sample shown before column `idx` (0 before the first).
pub open spec fn prev_sample(data: Seq<i64>, idx: int) -> i64 {
    if idx > 0 { data[idx - 1] } else { 0 }
}


/// Index of the first ASCII letter of `s` at or after `i`, or `s.len()`.
pub open spec fn first_letter_from(s: Seq<char>, i: int) -> int
    decreases s.len() - i,
{
    if i < 0 || i >= s.len() {
        s.len() as int
    } else if is_ascii_letter(s[i]) {
        i
    } else {
        first_letter_from(s, i + 1)
    }
}

/// For an escape `s` ending in the letter at `p`: the column count of a
/// cursor-right escape `ESC ? <number> C`, when it has one.
pub open spec fn escape_columns(s: Seq<char>, p: int) -> Option<usize> {
    if s[p] == 'C' && p >= 2 && (s[1] as u32) < 0x80 {
        usize_from_str(s.subrange(2, p))
    } else {
        None
    }
}

/// The visual elements of a graph row: each escape sequence (up to and
/// including its first ASCII letter; a cursor-right escape over `n > 1`
/// columns becomes `n` one-column escapes), or a single character. An
/// escape without a final letter runs to the end of the row.
pub open spec fn graph_elements(s: Seq<char>) -> Seq<Seq<char>>
    decreases s.len(),
{
    if s.len() == 0 {
        Seq::empty()
    } else if s[0] == '\x1b' {
        let found = first_letter_from(s, 1);
        let p = if found < 1 { 1 } else { found };
        if p >= s.len() {
            seq![s]
        } else {
            let n = escape_columns(s, p);
            let head = if n is Some && n->0 > 1 {
                Seq::new(n->0 as nat, |i: int| cursor_right(1))
            } else {
                seq![s.subrange(0, p + 1)]
            };
            head + graph_elements(s.subrange(p + 1, s.len() as int))
        }
    } else {
        seq![seq![s[0]]] + graph_elements(s.drop_first())
    }
}

/// The text of each string.
pub open spec fn texts(v: Seq<String>) -> Seq<Seq<char>> {
    v.map_values(|s: String| s@)
}


/// Percentage (rounded down) of `value - offset` within `0..=max_value`,
/// used to pick a colour.
pub open spec fn color_percent(value: int, offset: int, max_value: int) -> int {
    let m = if max_value < 1 { 1 } else { max_value };
    clamp_int(value - offset, 0, m) * 100 / m
}

/// The gradient entry for a percentage (capped at 100); nothing for an
/// empty gradient.
pub open spec fn gradient_at(gradient: Seq<Seq<char>>, pct: int) -> Seq<char> {
    if gradient.len() == 0 { Seq::empty() } else { gradient[if pct > 100 { 100 } else { pct }] }
}

/// The escape that resets all attributes.
pub open spec fn sgr_reset() -> Seq<char> {
    seq!['\x1b', '[', '0', 'm']
}

/// A multi-row graph over a series of samples, double-buffered.
#[derive(Debug, Clone)]
pub struct Graph {
    pub width: usize,
    pub height: usize,
    symbol: GraphSymbol,
    invert: bool,
    no_zero: bool,
    pub max_value: i64,
    offset: i64,
    last: i64,
    front: Vec<String>,
    back: Vec<String>,
}

impl Graph {
    pub closed spec fn columns(&self) -> nat {
        self.width as nat
    }

    pub closed spec fn row_count(&self) -> nat {
        self.height as nat
    }

    pub closed spec fn value_max(&self) -> i64 {
        self.max_value
    }

    pub closed spec fn glyphs(&self) -> GraphSymbol {
        self.symbol
    }

    pub closed spec fn inverted(&self) -> bool {
        self.invert
    }

    /// Whether the baseline row never drops below level 1.
    pub closed spec fn floor_baseline(&self) -> bool {
        self.no_zero
    }

    pub closed spec fn value_offset(&self) -> i64 {
        self.offset
    }

    /// The last sample drawn.
    pub closed spec fn last_sample(&self) -> i64 {
        self.last
    }

    /// The rows shown, as text.
    pub closed spec fn rows(&self) -> Seq<Seq<char>> {
        self.front@.map_values(|s: String| s@)
    }

    /// The spare buffer's rows.
    pub closed spec fn spare_rows(&self) -> Seq<Seq<char>> {
        self.back@.map_values(|s: String| s@)
    }

    /// Level of `value` in row `row`.
    pub open spec fn level(&self, value: i64, row: int) -> int {
        band_level(graph_percent(value as int, self.value_offset() as int, self.value_max() as int),
            self.row_count() as int, self.inverted(), row)
    }

    /// Whether `row` is the baseline (the bottom row, or the top one
    /// when inverted).
    pub open spec fn is_baseline(&self, row: int) -> bool {
        if self.inverted() { row == 0 } else { row == self.row_count() - 1 }
    }

    /// Level of `value` in `row` after the baseline floor.
    pub open spec fn shown_level(&self, value: i64, row: int) -> int {
        let l = self.level(value, row);
        if self.floor_baseline() && self.is_baseline(row) && l == 0 { 1 } else { l }
    }

    /// The text of one cell: previous and current sample in row `row`.
    pub open spec fn cell(&self, prev: i64, curr: i64, row: int) -> Seq<char> {
        let p = self.shown_level(prev, row);
        let c = self.shown_level(curr, row);
        if self.row_count() == 1 && p + c == 0 {
            cursor_right(1)
        } else if self.glyphs() == GraphSymbol::Braille {
            seq![if self.inverted() { braille_down()[p * 5 + c] } else { braille_up()[p * 5 + c] }]
        } else {
            seq![if self.inverted() { block_down()[c] } else { block_up()[c] }]
        }
    }

    /// Cells of the `n` data columns starting at sample `start`.
    pub open spec fn cells(&self, data: Seq<i64>, row: int, start: int, n: nat) -> Seq<char>
        decreases n,
    {
        if n == 0 {
            Seq::empty()
        } else {
            let idx = start + n - 1;
            self.cells(data, row, start, (n - 1) as nat) + self.cell(prev_sample(data, idx), data[idx], row)
        }
    }

    /// Number of columns left blank before the data.
    pub open spec fn pad_columns(&self, len: nat) -> nat {
        if len < self.columns() { (self.columns() - len) as nat } else { 0 }
    }

    /// First sample shown: the last `width` samples are drawn.
    pub open spec fn first_shown(&self, len: nat) -> nat {
        if len > self.columns() { (len - self.columns()) as nat } else { 0 }
    }

    /// Row `row` of the graph of `data`.
    pub open spec fn row_text(&self, data: Seq<i64>, row: int) -> Seq<char> {
        let pad = self.pad_columns(data.len());
        let n = if data.len() < self.columns() { data.len() } else { self.columns() };
        (if pad > 0 { cursor_right(pad) } else { Seq::empty() })
            + self.cells(data, row, self.first_shown(data.len()) as int, n)
    }

    /// One element of a single-row graph, coloured by the larger of its
    /// two samples unless it is blank padding or an escape.
    pub open spec fn column_text(&self, data: Seq<i64>, gradient: Seq<Seq<char>>, elem: Seq<char>, col: int) -> Seq<char> {
        let len = data.len();
        let pad = self.pad_columns(len);
        if col < pad {
            elem
        } else {
            let idx = self.first_shown(len) + (col - pad);
            let curr: i64 = if idx < len { data[idx] } else { 0 };
            let prev: i64 = if idx > 0 && idx < len { data[idx - 1] } else { 0 };
            let top: i64 = if curr >= prev { curr } else { prev };
            let escape = elem.len() > 0 && elem[0] == '\x1b';
            let color = if escape || gradient.len() == 0 {
                Seq::empty()
            } else {
                gradient_at(gradient, color_percent(top as int, self.value_offset() as int, self.value_max() as int))
            };
            color + elem
        }
    }

    /// The first `n` elements of a single-row graph, coloured.
    pub open spec fn columns_text(&self, data: Seq<i64>, gradient: Seq<Seq<char>>, elems: Seq<Seq<char>>, n: nat) -> Seq<char>
        decreases n,
    {
        if n == 0 {
            Seq::empty()
        } else {
            self.columns_text(data, gradient, elems, (n - 1) as nat) + self.column_text(data, gradient, elems[n - 1], n - 1)
        }
    }

    /// Gradient position of row `row` of a multi-row graph: its height
    /// within the graph, in percent.
    pub open spec fn band_color_index(&self, row: int) -> int {
        if self.inverted() { row * 100 / (self.row_count() as int) } else { 100 - (row + 1) * 100 / (self.row_count() as int) }
    }

    /// The coloured rows: a single-row graph coloured element by
    /// element, a taller one row by row; each row ends with a reset.
    pub open spec fn rendered(&self, data: Seq<i64>, gradient: Seq<Seq<char>>) -> Seq<Seq<char>> {
        let rows = self.rows();
        if self.row_count() == 1 {
            let raw = if rows.len() > 0 { rows[0] } else { Seq::empty() };
            let elems = graph_elements(raw);
            seq![self.columns_text(data, gradient, elems, elems.len()) + sgr_reset()]
        } else {
            Seq::new(self.row_count(), |row: int|
                gradient_at(gradient, self.band_color_index(row))
                    + (if row < rows.len() { rows[row] } else { Seq::empty() }) + sgr_reset())
        }
    }

    /// A graph `width` columns wide and `height` rows high (at least one),
    /// over values `offset..offset + max_value` (`max_value` 0 means 100).
    pub fn new(width: usize, height: usize, symbol: GraphSymbol, invert: bool, no_zero: bool, max_value: i64, offset: i64) -> (g: Self)
        ensures
            g.columns() == width,
            g.row_count() == (if height < 1 { 1 } else { height }),
            g.glyphs() == symbol,
            g.inverted() == invert,
            g.floor_baseline() == no_zero,
            g.value_max() == (if max_value == 0 { 100 } else { max_value }),
            g.value_offset() == offset,
            g.last_sample() == 0,
            g.rows() == Seq::new(g.row_count(), |i: int| Seq::<char>::empty()),
            g.spare_rows() == g.rows(),
    {
        let h = if height < 1 { 1 } else { height };
        let front = empty_rows(h);
        let back = empty_rows(h);
        let g = Graph {
            width,
            height: h,
            symbol,
            invert,
            no_zero,
            max_value: if max_value == 0 { 100 } else { max_value },
            offset,
            last: 0,
            front,
            back,
        };
        assert(g.rows() =~= Seq::new(g.height as nat, |i: int| Seq::<char>::empty()));
        assert(g.spare_rows() =~= g.rows());
        g
    }
}

impl Graph {
    /// Percentage of `value`, as [`graph_percent`].
    fn percent(&self, value: i64) -> (p: u64)
        ensures
            p as int == graph_percent(value as int, self.value_offset() as int, self.value_max() as int),
            p <= 100,
    {
        let m: i128 = if self.max_value < 1 { 1 } else { self.max_value as i128 };
        let d: i128 = value as i128 - self.offset as i128;
        let c: i128 = if d < 0 { 0 } else if d > m { m } else { d };
        let cu: u128 = c as u128;
        let mu: u128 = m as u128;
        let num: u128 = 2 * (100 * cu) + mu;
        let den: u128 = 2 * mu;
        let r: u128 = num / den;
        assert(r <= 100) by (nonlinear_arith)
            requires
                cu <= mu,
                mu >= 1,
                num == 2 * (100 * cu) + mu,
                den == 2 * mu,
                r == num / den,
        {
            assert(num < 101 * den);
        }
        r as u64
    }

    /// Level of `value` in `row`, as [`Graph::level`].
    fn level_of(&self, value: i64, row: usize) -> (l: usize)
        requires
            row < self.row_count(),
        ensures
            l as int == self.level(value, row as int),
            l <= 4,
    {
        let pct: u128 = self.percent(value) as u128;
        let h: u128 = self.height as u128;
        if h == 1 {
            let x: u128 = pct * 4 / 100;
            return if x > 4 { 4 } else { x as usize };
        }
        let rr: u128 = row as u128;
        let horizon: u128 = if self.invert { h - 1 - rr } else { rr };
        let high: u128 = (2 * (100 * (h - horizon)) + h) / (2 * h);
        let low: u128 = (2 * (100 * (h - (horizon + 1))) + h) / (2 * h);
        if pct < low {
            0
        } else if pct >= high {
            4
        } else {
            let range: u128 = if high < low + 1 { 1 } else { high - low };
            let x: u128 = (pct - low) * 4 / range;
            if x > 4 { 4 } else { x as usize }
        }
    }

    /// Appends the cell of `prev` and `curr` in `row`.
    fn push_cell(&self, s: &mut String, prev: i64, curr: i64, row: usize)
        requires
            row < self.row_count(),
        ensures
            final(s)@ == old(s)@ + self.cell(prev, curr, row as int),
    {
        let mut p = self.level_of(prev, row);
        let mut c = self.level_of(curr, row);
        let base = if self.invert { row == 0 } else { row == self.height - 1 };
        if self.no_zero && base {
            if p == 0 {
                p = 1;
            }
            if c == 0 {
                c = 1;
            }
        }
        if self.height == 1 && p + c == 0 {
            proof {
                reveal_strlit("\x1b[1C");
                assert("\x1b[1C"@ =~= cursor_right(1));
            }
            push_str(s, "\x1b[1C");
        } else {
            match self.symbol {
                GraphSymbol::Braille => push_char(s, braille_glyph(self.invert, p * 5 + c)),
                GraphSymbol::Block => push_char(s, block_glyph(self.invert, c)),
            }
        }
    }

    /// Row `row` of the graph of `data`, as [`Graph::row_text`].
    fn row_string(&self, data: &VecDeque<i64>, row: usize) -> (r: String)
        requires
            row < self.row_count(),
        ensures
            r@ == self.row_text(data@, row as int),
    {
        let len = data.len();
        let mut s = String::new();
        let pad: usize = if len < self.width { self.width - len } else { 0 };
        if pad > 0 {
            push_char(&mut s, '\x1b');
            push_char(&mut s, '[');
            push_dec(&mut s, pad as u64);
            push_char(&mut s, 'C');
        }
        let ghost prefix = s@;
        assert(prefix =~= (if pad > 0 { cursor_right(pad as nat) } else { Seq::<char>::empty() }));
        let start: usize = if len > self.width { len - self.width } else { 0 };
        let n: usize = if len < self.width { len } else { self.width };
        let mut k: usize = 0;
        while k < n
            invariant
                k <= n,
                n <= len,
                len == data@.len(),
                start + n == len,
                row < self.row_count(),
                s@ == prefix + self.cells(data@, row as int, start as int, k as nat),
            decreases n - k,
        {
            let idx = start + k;
            let curr = data[idx];
            let prev = if idx > 0 { data[idx - 1] } else { 0 };
            self.push_cell(&mut s, prev, curr, row);
            k = k + 1;
            assert(s@ =~= prefix + self.cells(data@, row as int, start as int, k as nat));
        }
        s
    }

    /// Builds every row from `data` (its last `width` samples, the
    /// remaining columns left blank) into both buffers.
    pub fn create(&mut self, data: &VecDeque<i64>)
        ensures
            final(self).columns() == old(self).columns(),
            final(self).row_count() == old(self).row_count(),
            final(self).glyphs() == old(self).glyphs(),
            final(self).inverted() == old(self).inverted(),
            final(self).floor_baseline() == old(self).floor_baseline(),
            final(self).value_max() == old(self).value_max(),
            final(self).value_offset() == old(self).value_offset(),
            final(self).rows() == Seq::new(final(self).row_count(), |r: int| final(self).row_text(data@, r)),
            final(self).spare_rows() == final(self).rows(),
            final(self).last_sample() == (if old(self).columns() > 0 && data@.len() > 0 { data@.last() } else { old(self).last_sample() }),
    {
        let ghost before = *self;
        let h = self.height;
        let mut front: Vec<String> = Vec::new();
        let mut back: Vec<String> = Vec::new();
        let mut r: usize = 0;
        while r < h
            invariant
                r <= h,
                h == self.row_count(),
                front@.len() == r,
                back@.len() == r,
                forall|i: int| 0 <= i < r ==> (#[trigger] front@[i])@ == self.row_text(data@, i),
                forall|i: int| 0 <= i < r ==> (#[trigger] back@[i])@ == self.row_text(data@, i),
            decreases h - r,
        {
            let row = self.row_string(data, r);
            let copy = row.clone();
            front.push(row);
            back.push(copy);
            r = r + 1;
        }
        self.front = front;
        self.back = back;
        if self.width > 0 && data.len() > 0 {
            self.last = data[data.len() - 1];
        }
        assert forall|i: int| 0 <= i < h implies #[trigger] self.row_text(data@, i) == before.row_text(data@, i) by {
            lemma_same_shape_same_cells(*self, before, data@, i, self.first_shown(data@.len()) as int,
                if data@.len() < self.columns() { data@.len() } else { self.columns() });
        }
        assert(self.rows() =~= Seq::new(self.row_count(), |i: int| self.row_text(data@, i)));
        assert(self.spare_rows() =~= self.rows());
    }
}

impl Graph {
    /// Appends one coloured element of a single-row graph.
    fn push_column(&self, out: &mut String, data: &VecDeque<i64>, gradient: &[String], elem: &String, col: usize)
        requires
            gradient@.len() == 0 || gradient@.len() > 100,
        ensures
            final(out)@ == old(out)@ + self.column_text(data@, texts(gradient@), elem@, col as int),
    {
        let len = data.len();
        let pad: usize = if len < self.width { self.width - len } else { 0 };
        if col < pad {
            push_str(out, elem.as_str());
            return;
        }
        let start: usize = if len > self.width { len - self.width } else { 0 };
        let idx: u128 = start as u128 + (col - pad) as u128;
        let curr: i64 = if idx < len as u128 { data[idx as usize] } else { 0 };
        let prev: i64 = if idx > 0 && idx < len as u128 { data[(idx - 1) as usize] } else { 0 };
        let top: i64 = if curr >= prev { curr } else { prev };
        let ev = elem.as_str();
        let escape = ev.unicode_len() > 0 && ev.get_char(0) == '\x1b';
        if !escape && gradient.len() > 0 {
            let m: i128 = if self.max_value < 1 { 1 } else { self.max_value as i128 };
            let d: i128 = top as i128 - self.offset as i128;
            let c: i128 = if d < 0 { 0 } else if d > m { m } else { d };
            let pct: u128 = (c as u128) * 100 / (m as u128);
            let at: usize = if pct > 100 { 100 } else { pct as usize };
            push_str(out, gradient[at].as_str());
        }
        push_str(out, ev);
    }

    /// The coloured rows of the current buffer, each ending with a reset:
    /// a single-row graph is coloured per column by the larger of the
    /// two samples a cell shows, a taller one per row by its height.
    /// `gradient` is empty (no colour) or has an entry per percent.
    pub fn render_rows_colored(&self, data: &VecDeque<i64>, gradient: &[String]) -> (r: Vec<String>)
        requires
            gradient@.len() == 0 || gradient@.len() > 100,
        ensures
            texts(r@) == self.rendered(data@, texts(gradient@)),
            r@.len() == self.row_count(),
    {
        let ghost gv = texts(gradient@);
        let mut rows: Vec<String> = Vec::new();
        if self.height == 1 {
            let raw: String = if self.front.len() > 0 { self.front[0].clone() } else { String::new() };
            assert(raw@ == (if self.rows().len() > 0 { self.rows()[0] } else { Seq::<char>::empty() }));
            let elems = parse_graph_elements(raw.as_str());
            let mut row_str = String::new();
            let mut col: usize = 0;
            while col < elems.len()
                invariant
                    col <= elems@.len(),
                    gradient@.len() == 0 || gradient@.len() > 100,
                    gv == texts(gradient@),
                    row_str@ == self.columns_text(data@, gv, texts(elems@), col as nat),
                decreases elems@.len() - col,
            {
                self.push_column(&mut row_str, data, gradient, &elems[col], col);
                col = col + 1;
                assert(texts(elems@)[col - 1] == elems@[col - 1]@);
            }
            proof {
                reveal_strlit("\x1b[0m");
                assert("\x1b[0m"@ =~= sgr_reset());
            }
            push_str(&mut row_str, "\x1b[0m");
            rows.push(row_str);
            assert(texts(rows@) =~= self.rendered(data@, gv));
            assert(texts(rows@).len() == rows@.len());
        } else {
            let h = self.height;
            let mut row: usize = 0;
            while row < h
                invariant
                    row <= h,
                    h == self.height,
                    h != 1,
                    gradient@.len() == 0 || gradient@.len() > 100,
                    gv == texts(gradient@),
                    texts(rows@) == self.rendered(data@, gv).subrange(0, row as int),
                decreases h - row,
            {
                let mut line = String::new();
                if gradient.len() > 0 {
                    let rr: u128 = row as u128;
                    let hh: u128 = h as u128;
                    let q: u128 = (rr + 1) * 100 / hh;
                    proof {
                        let a: int = (rr + 1) as int;
                        let b: int = hh as int;
                        assert(a * 100 / b <= 100) by (nonlinear_arith)
                            requires a <= b, b > 0;
                    }
                    let ci: u128 = if self.invert { rr * 100 / hh } else { 100 - q };
                    let at: usize = if ci > 100 { 100 } else { ci as usize };
                    push_str(&mut line, gradient[at].as_str());
                }
                if row < self.front.len() {
                    push_str(&mut line, self.front[row].as_str());
                }
                proof {
                    reveal_strlit("\x1b[0m");
                    assert("\x1b[0m"@ =~= sgr_reset());
                }
                push_str(&mut line, "\x1b[0m");
                let ghost before = texts(rows@);
                rows.push(line);
                row = row + 1;
                assert(line@ == self.rendered(data@, gv)[row - 1]);
                assert(texts(rows@) =~= before.push(line@));
                assert(texts(rows@) =~= self.rendered(data@, gv).subrange(0, row as int));
            }
            assert(self.rendered(data@, gv).subrange(0, h as int) =~= self.rendered(data@, gv));
            assert(texts(rows@).len() == rows@.len());
        }
        rows
    }

    /// Builds the graph from `data`, then returns its first coloured row
    /// (empty when the graph has no rows).
    pub fn render_row_colored(&mut self, data: &VecDeque<i64>, gradient: &[String]) -> (r: String)
        requires
            gradient@.len() == 0 || gradient@.len() > 100,
        ensures
            final(self).rows() == Seq::new(final(self).row_count(), |i: int| final(self).row_text(data@, i)),
            final(self).spare_rows() == final(self).rows(),
            final(self).columns() == old(self).columns(),
            final(self).row_count() == old(self).row_count(),
            final(self).glyphs() == old(self).glyphs(),
            final(self).inverted() == old(self).inverted(),
            final(self).floor_baseline() == old(self).floor_baseline(),
            final(self).value_max() == old(self).value_max(),
            final(self).value_offset() == old(self).value_offset(),
            final(self).rendered(data@, texts(gradient@)).len() > 0 ==> r@ == final(self).rendered(data@, texts(gradient@))[0],
            final(self).rendered(data@, texts(gradient@)).len() == 0 ==> r@ == Seq::<char>::empty(),
    {
        self.create(data);
        let mut rows = self.render_rows_colored(data, gradient);
        if rows.len() > 0 {
            assert(texts(rows@)[0] == rows@[0]@);
            rows.swap_remove(0)
        } else {
            String::new()
        }
    }
}

/// Index of the first ASCII letter of `v` at or after `from`, or `v.len()`.
fn first_letter(v: &Vec<char>, from: usize) -> (j: usize)
    requires
        1 <= from <= v.len(),
    ensures
        j as int == first_letter_from(v@, from as int),
        from <= j <= v.len(),
{
    let mut j = from;
    while j < v.len() && !(('a' <= v[j] && v[j] <= 'z') || ('A' <= v[j] && v[j] <= 'Z'))
        invariant
            from <= j <= v.len(),
            first_letter_from(v@, from as int) == first_letter_from(v@, j as int),
        decreases v.len() - j,
    {
        j = j + 1;
    }
    j
}

/// Splits a graph row into its visual elements, as [`graph_elements`].
fn parse_graph_elements(s: &str) -> (out: Vec<String>)
    ensures
        texts(out@) == graph_elements(s@),
{
    let v = chars_of(s);
    let n = v.len();
    let mut out: Vec<String> = Vec::new();
    let mut i: usize = 0;
    assert(v@.subrange(0, n as int) =~= v@);
    assert(texts(out@) =~= Seq::<Seq<char>>::empty());
    assert(texts(out@) + graph_elements(v@) =~= graph_elements(v@));
    while i < n
        invariant
            i <= n,
            n == v@.len(),
            v@ == s@,
            texts(out@) + graph_elements(v@.subrange(i as int, n as int)) == graph_elements(s@),
        decreases n - i,
    {
        let ghost t = v@.subrange(i as int, n as int);
        let ghost before = texts(out@);
        if v[i] == '\x1b' {
            let tail = suffix(&v, i);
            assert(tail@ == t);
            let j = first_letter(&tail, 1);
            if j >= tail.len() {
                out.push(string_from_chars(&tail));
                proof {
                    assert(texts(out@) =~= before + seq![t]);
                    assert(v@.subrange(n as int, n as int) =~= Seq::<char>::empty());
                }
                i = n;
            } else {
                let cols = if tail[j] == 'C' && j >= 2 && (tail[1] as u32) < 0x80 {
                    parse_usize_range(&tail, 2, j)
                } else {
                    None
                };
                assert(cols == escape_columns(t, j as int));
                let ghost head = if cols is Some && cols->0 > 1 {
                    Seq::new(cols->0 as nat, |k: int| cursor_right(1))
                } else {
                    seq![t.subrange(0, j + 1)]
                };
                match cols {
                    Some(c) if c > 1 => {
                        let mut k: usize = 0;
                        while k < c
                            invariant
                                k <= c,
                                texts(out@) == before + Seq::new(k as nat, |q: int| cursor_right(1)),
                            decreases c - k,
                        {
                            proof {
                                reveal_strlit("\x1b[1C");
                                assert("\x1b[1C"@ =~= cursor_right(1));
                            }
                            let ghost prev = texts(out@);
                            out.push(to_string_of("\x1b[1C"));
                            assert(texts(out@) =~= prev.push(cursor_right(1)));
                            k = k + 1;
                            assert(texts(out@) =~= before + Seq::new(k as nat, |q: int| cursor_right(1)));
                        }
                    },
                    _ => {
                        let head_chars = prefix_of(&tail, j + 1);
                        out.push(string_from_chars(&head_chars));
                        assert(texts(out@) =~= before + head);
                    },
                }
                assert(texts(out@) == before + head);
                assert(t.subrange(j + 1, t.len() as int) =~= v@.subrange(i + j + 1, n as int));
                i = i + j + 1;
            }
        } else {
            let mut one = String::new();
            push_char(&mut one, v[i]);
            out.push(one);
            assert(texts(out@) =~= before + seq![seq![t[0]]]);
            assert(t.drop_first() =~= v@.subrange(i + 1, n as int));
            i = i + 1;
        }
    }
    assert(v@.subrange(n as int, n as int) =~= Seq::<char>::empty());
    assert(texts(out@) + graph_elements(Seq::<char>::empty()) =~= texts(out@));
    out
}

fn to_string_of(s: &str) -> (r: String)
    ensures
        r@ == s@,
{
    let mut r = String::new();
    push_str(&mut r, s);
    r
}

/// `v[from..]`.
fn suffix(v: &Vec<char>, from: usize) -> (r: Vec<char>)
    requires
        from <= v.len(),
    ensures
        r@ == v@.subrange(from as int, v@.len() as int),
{
    let mut r: Vec<char> = Vec::new();
    let mut k = from;
    while k < v.len()
        invariant
            from <= k <= v.len(),
            r@ == v@.subrange(from as int, k as int),
        decreases v.len() - k,
    {
        r.push(v[k]);
        k = k + 1;
        assert(r@ =~= v@.subrange(from as int, k as int));
    }
    r
}

/// `v[..to]`.
fn prefix_of(v: &Vec<char>, to: usize) -> (r: Vec<char>)
    requires
        to <= v.len(),
    ensures
        r@ == v@.subrange(0, to as int),
{
    let mut r: Vec<char> = Vec::new();
    let mut k: usize = 0;
    while k < to
        invariant
            k <= to <= v.len(),
            r@ == v@.subrange(0, k as int),
        decreases to - k,
    {
        r.push(v[k]);
        k = k + 1;
        assert(r@ =~= v@.subrange(0, k as int));
    }
    r
}

/// Graphs of the same shape draw the same cells.
proof fn lemma_same_shape_same_cells(a: Graph, b: Graph, data: Seq<i64>, row: int, start: int, n: nat)
    requires
        a.width == b.width,
        a.height == b.height,
        a.symbol == b.symbol,
        a.invert == b.invert,
        a.no_zero == b.no_zero,
        a.max_value == b.max_value,
        a.offset == b.offset,
    ensures
        a.cells(data, row, start, n) == b.cells(data, row, start, n),
    decreases n,
{
    if n > 0 {
        lemma_same_shape_same_cells(a, b, data, row, start, (n - 1) as nat);
    }
}

fn empty_rows(h: usize) -> (v: Vec<String>)
    ensures
        v@.len() == h,
        forall|i: int| 0 <= i < h ==> (#[trigger] v@[i])@ == Seq::<char>::empty(),
{
    let mut v: Vec<String> = Vec::new();
    while v.len() < h
        invariant
            v@.len() <= h,
            forall|i: int| 0 <= i < v@.len() ==> (#[trigger] v@[i])@ == Seq::<char>::empty(),
        decreases h - v@.len(),
    {
        v.push(String::new());
    }
    v
}

} // verus!
