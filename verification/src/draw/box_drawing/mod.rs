//! Box frames, title insets and section dividers.

pub mod symbols;
pub mod title_syms;

use vstd::prelude::*;

use crate::draw::buffer::{csi, cursor_to, push_cursor_to, push_reset, sgr_reset, AnsiBuffer};
use crate::text::{dec, push_char, push_char_n, push_dec, push_spaces, push_str, repeat_char, spaces, utf8_len, utf8_len_of};
use self::symbols::{superscript, superscript_spec, DIV_LEFT, DIV_RIGHT, H_LINE, LEFT_DOWN, LEFT_UP, RIGHT_DOWN, RIGHT_UP, ROUND_LEFT_DOWN, ROUND_LEFT_UP, ROUND_RIGHT_DOWN, ROUND_RIGHT_UP, V_LINE};
use self::title_syms::{TITLE_LEFT, TITLE_LEFT_DOWN, TITLE_RIGHT, TITLE_RIGHT_DOWN};

verus! {

/// What a box frame looks like and where it goes.
pub struct BoxConfig<'a> {
    pub x: usize,
    pub y: usize,
    pub width: usize,
    pub height: usize,
    pub line_color: &'a str,
    pub fill: bool,
    pub title: &'a str,
    pub title2: &'a str,
    pub num: u8,
    pub rounded: bool,
    /// Colour of the superscript hotkey number; empty means `line_color`.
    pub hi_color: &'a str,
    /// Colour of the title text; empty means `line_color`.
    pub title_color: &'a str,
}

/// A box frame's settings as values.
pub struct BoxView {
    pub x: nat,
    pub y: nat,
    pub width: nat,
    pub height: nat,
    pub line_color: Seq<char>,
    pub fill: bool,
    pub title: Seq<char>,
    pub title2: Seq<char>,
    pub num: u8,
    pub rounded: bool,
    pub hi_color: Seq<char>,
    pub title_color: Seq<char>,
}

/// The settings of `cfg` as values.
pub open spec fn box_view(cfg: BoxConfig) -> BoxView {
    BoxView {
        x: cfg.x as nat,
        y: cfg.y as nat,
        width: cfg.width as nat,
        height: cfg.height as nat,
        line_color: cfg.line_color@,
        fill: cfg.fill,
        title: cfg.title@,
        title2: cfg.title2@,
        num: cfg.num,
        rounded: cfg.rounded,
        hi_color: cfg.hi_color@,
        title_color: cfg.title_color@,
    }
}

/// The four corners, top-left, top-right, bottom-left, bottom-right.
pub open spec fn corners(rounded: bool) -> (char, char, char, char) {
    if rounded {
        (ROUND_LEFT_UP, ROUND_RIGHT_UP, ROUND_LEFT_DOWN, ROUND_RIGHT_DOWN)
    } else {
        (LEFT_UP, RIGHT_UP, LEFT_DOWN, RIGHT_DOWN)
    }
}

/// `ESC [ n C`: move the cursor `n` columns right.
pub open spec fn cursor_right(n: nat) -> Seq<char> {
    csi() + dec(n) + seq!['C']
}

/// Middle row `row` of a frame: both side lines, filled or skipped over.
pub open spec fn box_row(x: nat, y: nat, width: nat, fill: bool, row: nat) -> Seq<char> {
    cursor_to(x + 1, y + 1 + row) + seq![V_LINE]
        + (if fill { spaces((width - 2) as nat) } else { cursor_right((width - 2) as nat) })
        + seq![V_LINE]
}

/// Middle rows `1..=n` of a frame.
pub open spec fn box_rows(x: nat, y: nat, width: nat, fill: bool, n: nat) -> Seq<char>
    decreases n,
{
    if n == 0 {
        Seq::empty()
    } else {
        box_rows(x, y, width, fill, (n - 1) as nat) + box_row(x, y, width, fill, n)
    }
}

/// `s` unless it is empty, in which case `dflt`.
pub open spec fn or_default(s: Seq<char>, dflt: Seq<char>) -> Seq<char> {
    if s.len() == 0 { dflt } else { s }
}

/// The superscript number shown before a title (`1..=9`; nothing otherwise).
pub open spec fn numbering(num: u8) -> Seq<char> {
    if 0 < num && num < 10 { seq![superscript_spec(num as nat)] } else { Seq::empty() }
}

/// The top-border title of a frame, if it has one.
pub open spec fn box_title(b: BoxView) -> Seq<char> {
    if b.title.len() == 0 {
        Seq::empty()
    } else {
        cursor_to(b.x + 3, b.y + 1) + seq![TITLE_LEFT] + csi() + seq!['1', 'm']
            + or_default(b.hi_color, b.line_color) + numbering(b.num)
            + or_default(b.title_color, b.line_color) + b.title
            + csi() + seq!['2', '2', 'm'] + b.line_color + seq![TITLE_RIGHT]
    }
}

/// The bottom-border title of a frame, if it has one.
pub open spec fn box_title2(b: BoxView) -> Seq<char> {
    if b.title2.len() == 0 {
        Seq::empty()
    } else {
        cursor_to(b.x + 3, b.y + b.height) + seq![TITLE_LEFT_DOWN] + b.title2
            + b.line_color + seq![TITLE_RIGHT_DOWN]
    }
}

/// The horizontal lines, side lines and corners of a frame.
pub open spec fn box_frame(b: BoxView) -> Seq<char> {
    let (x, y, w, h) = (b.x, b.y, b.width, b.height);
    let (tl, tr, bl, br) = corners(b.rounded);
    sgr_reset() + b.line_color
        + cursor_to(x + 1, y + 1) + repeat_char(H_LINE, w)
        + cursor_to(x + 1, y + h) + repeat_char(H_LINE, w)
        + box_rows(x, y, w, b.fill, (h - 2) as nat)
        + cursor_to(x + 1, y + 1) + seq![tl]
        + cursor_to(x + w, y + 1) + seq![tr]
        + cursor_to(x + 1, y + h) + seq![bl]
        + cursor_to(x + w, y + h) + seq![br]
}

/// A whole frame: nothing when narrower or shorter than two cells, else
/// the lines, the titles, and the cursor left inside the top-left corner.
pub open spec fn box_view_text(b: BoxView) -> Seq<char> {
    if b.width < 2 || b.height < 2 {
        Seq::empty()
    } else {
        box_frame(b) + box_title(b) + box_title2(b)
            + sgr_reset() + cursor_to(b.x + 2, b.y + 2) + sgr_reset()
    }
}

/// The full output of [`create_box`].
pub open spec fn box_text(cfg: BoxConfig) -> Seq<char> {
    box_view_text(box_view(cfg))
}

/// Whether the frame's coordinates fit the machine's integers.
pub open spec fn box_fits(cfg: BoxConfig) -> bool {
    cfg.width >= 2 && cfg.height >= 2 ==> cfg.x + cfg.width < usize::MAX && cfg.y + cfg.height
        <= usize::MAX
}

fn push_box_rows(s: &mut String, x: usize, y: usize, width: usize, height: usize, fill: bool)
    requires
        width >= 2,
        height >= 2,
        x + width < usize::MAX,
        y + height <= usize::MAX,
    ensures
        final(s)@ == old(s)@ + box_rows(x as nat, y as nat, width as nat, fill, (height - 2) as nat),
{
    let mut row: usize = 1;
    while row < height - 1
        invariant
            1 <= row <= height - 1,
            x + width < usize::MAX,
            y + height <= usize::MAX,
            width >= 2,
            s@ == old(s)@ + box_rows(x as nat, y as nat, width as nat, fill, (row - 1) as nat),
        decreases height - 1 - row,
    {
        let ghost before = s@;
        push_cursor_to(s, x + 1, y + 1 + row);
        push_char(s, V_LINE);
        if fill {
            push_spaces(s, width - 2);
        } else {
            push_char(s, '\x1b');
            push_char(s, '[');
            push_dec(s, (width - 2) as u64);
            push_char(s, 'C');
        }
        push_char(s, V_LINE);
        assert(s@ =~= before + box_row(x as nat, y as nat, width as nat, fill, row as nat));
        row = row + 1;
    }
}

fn box_frame_string(cfg: &BoxConfig) -> (r: String)
    requires
        cfg.width >= 2,
        cfg.height >= 2,
        box_fits(*cfg),
    ensures
        r@ == box_frame(box_view(*cfg)),
{
    let x = cfg.x;
    let y = cfg.y;
    let width = cfg.width;
    let height = cfg.height;
    let (tl, tr, bl, br) = if cfg.rounded {
        (ROUND_LEFT_UP, ROUND_RIGHT_UP, ROUND_LEFT_DOWN, ROUND_RIGHT_DOWN)
    } else {
        (LEFT_UP, RIGHT_UP, LEFT_DOWN, RIGHT_DOWN)
    };
    let mut s = String::new();
    push_reset(&mut s);
    assert(s@ =~= sgr_reset());
    push_str(&mut s, cfg.line_color);
    push_cursor_to(&mut s, x + 1, y + 1);
    push_char_n(&mut s, H_LINE, width);
    push_cursor_to(&mut s, x + 1, y + height);
    push_char_n(&mut s, H_LINE, width);
    push_box_rows(&mut s, x, y, width, height, cfg.fill);
    push_cursor_to(&mut s, x + 1, y + 1);
    push_char(&mut s, tl);
    push_cursor_to(&mut s, x + width, y + 1);
    push_char(&mut s, tr);
    push_cursor_to(&mut s, x + 1, y + height);
    push_char(&mut s, bl);
    push_cursor_to(&mut s, x + width, y + height);
    push_char(&mut s, br);
    s
}

fn box_title_string(cfg: &BoxConfig) -> (r: String)
    requires
        cfg.width >= 2,
        cfg.height >= 2,
        box_fits(*cfg),
    ensures
        r@ == box_title(box_view(*cfg)),
{
    let mut s = String::new();
    if cfg.title.unicode_len() > 0 {
        let color = cfg.line_color;
        let hi = if cfg.hi_color.unicode_len() == 0 { color } else { cfg.hi_color };
        let tc = if cfg.title_color.unicode_len() == 0 { color } else { cfg.title_color };
        push_cursor_to(&mut s, cfg.x + 3, cfg.y + 1);
        assert(s@ =~= cursor_to(cfg.x as nat + 3, cfg.y as nat + 1));
        push_char(&mut s, TITLE_LEFT);
        push_str(&mut s, "\x1b[1m");
        proof {
            reveal_strlit("\x1b[1m");
            assert("\x1b[1m"@ =~= csi() + seq!['1', 'm']);
        }
        push_str(&mut s, hi);
        let ghost before_num = s@;
        if cfg.num > 0 && cfg.num < 10 {
            push_char(&mut s, superscript(cfg.num));
        }
        assert(s@ =~= before_num + numbering(cfg.num));
        push_str(&mut s, tc);
        push_str(&mut s, cfg.title);
        push_str(&mut s, "\x1b[22m");
        proof {
            reveal_strlit("\x1b[22m");
            assert("\x1b[22m"@ =~= csi() + seq!['2', '2', 'm']);
        }
        push_str(&mut s, color);
        push_char(&mut s, TITLE_RIGHT);
    }
    s
}

fn box_title2_string(cfg: &BoxConfig) -> (r: String)
    requires
        cfg.width >= 2,
        cfg.height >= 2,
        box_fits(*cfg),
    ensures
        r@ == box_title2(box_view(*cfg)),
{
    let mut s = String::new();
    if cfg.title2.unicode_len() > 0 {
        push_cursor_to(&mut s, cfg.x + 3, cfg.y + cfg.height);
        assert(s@ =~= cursor_to(cfg.x as nat + 3, cfg.y as nat + cfg.height as nat));
        push_char(&mut s, TITLE_LEFT_DOWN);
        push_str(&mut s, cfg.title2);
        push_str(&mut s, cfg.line_color);
        push_char(&mut s, TITLE_RIGHT_DOWN);
    }
    s
}

/// Draws a box frame: horizontal lines on the top and bottom rows, side
/// lines (and optional fill) on the rows between, the corners over the
/// lines, then the titles notched into the borders. Frames narrower or
/// shorter than two cells draw nothing.
pub fn create_box(cfg: &BoxConfig) -> (r: String)
    requires
        box_fits(*cfg),
    ensures
        r@ == box_text(*cfg),
{
    if cfg.width < 2 || cfg.height < 2 {
        return String::new();
    }
    let frame = box_frame_string(cfg);
    let title = box_title_string(cfg);
    let title2 = box_title2_string(cfg);
    let mut buf = AnsiBuffer::new();
    buf.raw(frame.as_str()).raw(title.as_str()).raw(title2.as_str()).reset().mv(cfg.x + 2, cfg.y + 2);
    let r = buf.finish();
    assert(r@ =~= box_text(*cfg));
    r
}

/// `text` notched into a border: `┐text┌` on the top border, `┘text└` on
/// the bottom one.
pub open spec fn title_inset_text(text: Seq<char>, border: Seq<char>, text_color: Seq<char>, bottom: bool) -> Seq<char> {
    let (left, right) = if bottom { (TITLE_LEFT_DOWN, TITLE_RIGHT_DOWN) } else { (TITLE_LEFT, TITLE_RIGHT) };
    border + seq![left] + text_color + text + border + seq![right]
}

/// Renders a title inset on a border (no cursor positioning).
pub fn title_inset(text: &str, border_color: &str, text_color: &str, bottom: bool) -> (r: String)
    ensures
        r@ == title_inset_text(text@, border_color@, text_color@, bottom),
{
    let (left, right) = if bottom { (TITLE_LEFT_DOWN, TITLE_RIGHT_DOWN) } else { (TITLE_LEFT, TITLE_RIGHT) };
    let mut s = String::new();
    push_str(&mut s, border_color);
    push_char(&mut s, left);
    push_str(&mut s, text_color);
    push_str(&mut s, text);
    push_str(&mut s, border_color);
    push_char(&mut s, right);
    assert(s@ =~= title_inset_text(text@, border_color@, text_color@, bottom));
    s
}

/// A keybind inset: the first character of `text` (a space if there is
/// none) in `hi_color`, the rest in `text_color`.
pub open spec fn keybind_inset_text(text: Seq<char>, border: Seq<char>, hi: Seq<char>, text_color: Seq<char>, bottom: bool) -> Seq<char> {
    let (left, right) = if bottom { (TITLE_LEFT_DOWN, TITLE_RIGHT_DOWN) } else { (TITLE_LEFT, TITLE_RIGHT) };
    let first = if text.len() == 0 { ' ' } else { text[0] };
    let rest = if text.len() == 0 { Seq::empty() } else { text.drop_first() };
    border + seq![left] + hi + seq![first] + text_color + rest + border + seq![right]
}

/// Renders a keybind-style inset whose first character is highlighted.
pub fn keybind_inset(text: &str, border_color: &str, hi_color: &str, text_color: &str, bottom: bool) -> (r: String)
    ensures
        r@ == keybind_inset_text(text@, border_color@, hi_color@, text_color@, bottom),
{
    let (left, right) = if bottom { (TITLE_LEFT_DOWN, TITLE_RIGHT_DOWN) } else { (TITLE_LEFT, TITLE_RIGHT) };
    let v = crate::text::chars_of(text);
    let mut s = String::new();
    push_str(&mut s, border_color);
    push_char(&mut s, left);
    push_str(&mut s, hi_color);
    let ghost mid = s@;
    if v.len() == 0 {
        push_char(&mut s, ' ');
        push_str(&mut s, text_color);
    } else {
        push_char(&mut s, v[0]);
        push_str(&mut s, text_color);
        let mut i: usize = 1;
        let ghost head = s@;
        while i < v.len()
            invariant
                1 <= i <= v.len(),
                s@ == head + v@.subrange(1, i as int),
            decreases v.len() - i,
        {
            push_char(&mut s, v[i]);
            i = i + 1;
            assert(s@ =~= head + v@.subrange(1, i as int));
        }
        assert(v@.subrange(1, v.len() as int) =~= text@.drop_first());
    }
    push_str(&mut s, border_color);
    push_char(&mut s, right);
    assert(s@ =~= keybind_inset_text(text@, border_color@, hi_color@, text_color@, bottom));
    s
}

/// A full-width section divider `├──┐Section┌──────┤`. The dashes on the
/// right fill `width` less two dashes and the title with its insets, the
/// title counted in bytes.
pub open spec fn section_divider_text(section: Seq<char>, width: nat, border: Seq<char>, text_color: Seq<char>) -> Seq<char> {
    let used = 2 + utf8_len(section) + 2;
    let right = if width >= used { (width - used) as nat } else { 0 };
    border + seq![DIV_LEFT] + repeat_char(H_LINE, 2) + seq![TITLE_LEFT] + text_color + section + border
        + seq![TITLE_RIGHT] + repeat_char(H_LINE, right) + seq![DIV_RIGHT]
}

/// Renders a full-width section divider; `width` is the width between
/// the box borders.
pub fn section_divider(section: &str, width: usize, border_color: &str, text_color: &str) -> (r: String)
    requires
        utf8_len(section@) + 4 <= usize::MAX,
    ensures
        r@ == section_divider_text(section@, width as nat, border_color@, text_color@),
{
    let title_vis = utf8_len_of(section) + 2;
    let left_dashes: usize = 2;
    let right_dashes = width.saturating_sub(left_dashes + title_vis);
    let mut s = String::new();
    push_str(&mut s, border_color);
    push_char(&mut s, DIV_LEFT);
    push_char_n(&mut s, H_LINE, left_dashes);
    push_char(&mut s, TITLE_LEFT);
    push_str(&mut s, text_color);
    push_str(&mut s, section);
    push_str(&mut s, border_color);
    push_char(&mut s, TITLE_RIGHT);
    push_char_n(&mut s, H_LINE, right_dashes);
    push_char(&mut s, DIV_RIGHT);
    assert(s@ =~= section_divider_text(section@, width as nat, border_color@, text_color@));
    s
}

} // verus!
