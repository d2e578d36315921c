//! Drawing the options menu: a 78-column frame with the category tabs on
//! top, the options of the selected category on the left (name, then
//! value, two rows each) and the selected option's description on the
//! right.

use vstd::prelude::*;

use crate::draw::box_drawing::symbols::{DIV_DOWN, DIV_LEFT, DIV_RIGHT, DIV_UP, DOWN_ARROW, H_LINE, RIGHT_ARROW, UP_ARROW, V_LINE};
use crate::draw::box_drawing::{box_view, box_view_text, create_box, BoxConfig, BoxView};
use crate::draw::buffer::{cursor_to, push_cursor_to};
use crate::config::ConfigKey;
use crate::overlay::options::edit::OptionEditState;
use crate::overlay::options::render::{
    categories, category_hotkey, category_name, edit_window, highlight_hotkey, highlighted, opt_kind, opt_kind_of,
    lemma_category_bounds, option_count, category_options, render_edit_value, OptKind,
};
use crate::theme::Theme;
use crate::theme_keys::{color_index, HI_FG, MAIN_FG, OPTIONS_BOX, SELECTED_BG, SELECTED_FG, TITLE};
use crate::text::replaced;
use crate::term::{BOLD, BOLD_OFF, RESET};
use crate::text::{chars_of, dec, push_char, push_char_n, push_dec, push_spaces, push_str, repeat_char, spaces, str_eq};

verus! {

/// `ESC [ 0 m`.
pub open spec fn reset_text() -> Seq<char> {
    seq!['\x1b', '[', '0', 'm']
}

/// `ESC [ 1 m`.
pub open spec fn bold_text() -> Seq<char> {
    seq!['\x1b', '[', '1', 'm']
}

/// `ESC [ 22 m`.
pub open spec fn bold_off_text() -> Seq<char> {
    seq!['\x1b', '[', '2', '2', 'm']
}

/// `a - b`, stopping at zero.
pub open spec fn sat(a: nat, b: nat) -> nat {
    if a >= b { (a - b) as nat } else { 0 }
}

/// The smaller of two naturals.
pub open spec fn min_of(a: nat, b: nat) -> nat {
    if a <= b { a } else { b }
}

/// `s` centred in `width` columns, counting characters: padded with
/// spaces (the odd one on the right), or cut to `width` when longer.
pub open spec fn centered(s: Seq<char>, width: nat) -> Seq<char> {
    if s.len() >= width {
        s.take(width as int)
    } else {
        let pad = (width - s.len()) as nat;
        spaces(pad / 2) + s + spaces((pad - pad / 2) as nat)
    }
}

/// `s` centred in `width` columns (see [`centered`]).
pub fn center_text(s: &str, width: usize) -> (r: String)
    ensures
        r@ == centered(s@, width as nat),
{
    let v = chars_of(s);
    let mut out = String::new();
    if v.len() >= width {
        let mut i: usize = 0;
        while i < width
            invariant
                i <= width <= v@.len(),
                v@ == s@,
                out@ == s@.take(i as int),
            decreases width - i,
        {
            push_char(&mut out, v[i]);
            i = i + 1;
            assert(out@ =~= s@.take(i as int));
        }
        return out;
    }
    let pad = width - v.len();
    push_spaces(&mut out, pad / 2);
    push_str(&mut out, s);
    push_spaces(&mut out, pad - pad / 2);
    out
}

/// ASCII upper case of `c`; other characters unchanged.
pub open spec fn upper(c: char) -> char {
    if 'a' <= c && c <= 'z' { (((c as u32) - 32) as u8) as char } else { c }
}

/// Character `i` of an option's display name: underscores become spaces
/// and the first letter of every word is upper-cased.
pub open spec fn capitalized_at(s: Seq<char>, i: int) -> char {
    let c = if s[i] == '_' { ' ' } else { s[i] };
    if i == 0 || s[i - 1] == '_' || s[i - 1] == ' ' { upper(c) } else { c }
}

/// The display name of the option called `s` in the configuration:
/// `update_ms` reads `Update Ms`.
pub open spec fn capitalized(s: Seq<char>) -> Seq<char> {
    Seq::new(s.len(), |i: int| capitalized_at(s, i))
}

/// Whether every character of `s` is ASCII.
pub open spec fn is_ascii(s: Seq<char>) -> bool {
    forall|i: int| 0 <= i < s.len() ==> (#[trigger] s[i] as u32) < 0x80
}

/// The display name of the option called `name` (see [`capitalized`]).
pub fn capitalize_name(name: &str) -> (r: String)
    ensures
        r@ == capitalized(name@),
{
    let v = chars_of(name);
    let mut out = String::new();
    let mut i: usize = 0;
    while i < v.len()
        invariant
            i <= v@.len(),
            v@ == name@,
            out@ == capitalized(name@).take(i as int),
        decreases v.len() - i,
    {
        let c = if v[i] == '_' { ' ' } else { v[i] };
        let start = i == 0 || v[i - 1] == '_' || v[i - 1] == ' ';
        let d = if start && 'a' <= c && c <= 'z' { (((c as u32) - 32) as u8) as char } else { c };
        assert(d == capitalized_at(name@, i as int));
        push_char(&mut out, d);
        i = i + 1;
        assert(out@ =~= capitalized(name@).take(i as int));
    }
    assert(capitalized(name@).take(v.len() as int) =~= capitalized(name@));
    out
}

/// The first index at or after `i` where `s` holds `x`.
pub open spec fn pos_from(s: Seq<Seq<char>>, x: Seq<char>, i: int) -> Option<nat>
    decreases s.len() - i,
{
    if i < 0 || i >= s.len() {
        None
    } else if s[i] == x {
        Some(i as nat)
    } else {
        pos_from(s, x, i + 1)
    }
}

/// Where the value `x` stands among the choices `s`: its first position,
/// or the first choice when it is none of them.
pub open spec fn choice_pos(s: Seq<Seq<char>>, x: Seq<char>) -> nat {
    match pos_from(s, x, 0) {
        Some(k) => k,
        None => 0,
    }
}

/// Where `value` stands among `choices` (see [`choice_pos`]).
pub fn choice_position(choices: &Vec<String>, value: &str) -> (r: usize)
    ensures
        r == choice_pos(crate::handlers::normal::texts(choices@), value@),
        r == 0 || r < choices@.len(),
{
    let ghost t = crate::handlers::normal::texts(choices@);
    let mut i: usize = 0;
    while i < choices.len()
        invariant
            i <= choices@.len(),
            t == crate::handlers::normal::texts(choices@),
            pos_from(t, value@, 0) == pos_from(t, value@, i as int),
            t.len() == choices@.len(),
        decreases choices.len() - i,
    {
        if str_eq(choices[i].as_str(), value) {
            return i;
        }
        i = i + 1;
    }
    0
}

/// The colours the menu paints with.
pub struct Paint<'a> {
    pub hi: &'a str,
    pub title: &'a str,
    pub fg: &'a str,
    pub sel_bg: &'a str,
    pub sel_fg: &'a str,
    pub frame: &'a str,
}

/// The colours as values.
pub struct PaintView {
    pub hi: Seq<char>,
    pub title: Seq<char>,
    pub fg: Seq<char>,
    pub sel_bg: Seq<char>,
    pub sel_fg: Seq<char>,
    pub frame: Seq<char>,
}

impl<'a> Paint<'a> {
    pub open spec fn view(&self) -> PaintView {
        PaintView {
            hi: self.hi@,
            title: self.title@,
            fg: self.fg@,
            sel_bg: self.sel_bg@,
            sel_fg: self.sel_fg@,
            frame: self.frame@,
        }
    }
}

/// The frame: 78 columns wide, `h` rows tall at `(x, y + 6)`, titled
/// `tab→`.
pub open spec fn menu_frame(c: PaintView, x: nat, y: nat, h: nat, rounded: bool) -> Seq<char> {
    box_view_text(BoxView {
        x,
        y: y + 6,
        width: 78,
        height: h,
        line_color: c.frame,
        fill: true,
        title: c.hi + seq!['t', 'a', 'b'] + c.fg + seq![RIGHT_ARROW],
        title2: Seq::empty(),
        num: 0,
        rounded,
        hi_color: Seq::empty(),
        title_color: Seq::empty(),
    })
}

/// The rule under the tabs, joined to the frame and to the column
/// divider, and the divider's foot on the bottom border.
pub open spec fn menu_rule(c: PaintView, x: nat, y: nat, h: nat) -> Seq<char> {
    cursor_to(x + 1, y + 9) + c.frame + seq![DIV_LEFT] + c.frame + repeat_char(H_LINE, 29) + seq![DIV_UP]
        + repeat_char(H_LINE, 46) + c.frame + seq![DIV_RIGHT] + cursor_to(x + 31, y + 6 + h) + c.frame
        + seq![DIV_DOWN]
}

/// The first `n` rows of the column divider.
pub open spec fn menu_column(c: PaintView, x: nat, y: nat, n: nat) -> Seq<char>
    decreases n,
{
    if n == 0 {
        Seq::empty()
    } else {
        menu_column(c, x, y, (n - 1) as nat) + cursor_to(x + 31, y + 10 + (n - 1) as nat) + c.frame + seq![V_LINE]
    }
}

/// Tab `i`: its name with the hotkey highlighted, in brackets when it is
/// the selected category `cat`, else between spaces; two columns are
/// skipped before the next tab.
pub open spec fn menu_tab(c: PaintView, cat: nat, i: nat) -> Seq<char> {
    let sel = i == cat;
    bold_text() + c.hi + seq![if sel { '[' } else { ' ' }]
        + highlighted(category_name(i as int), category_hotkey(i as int), c.title, c.hi) + c.hi
        + seq![if sel { ']' } else { ' ' }] + reset_text()
        + (if i + 1 < 8 { seq!['\x1b', '[', '2', 'C'] } else { Seq::empty() })
}

/// The first `n` tabs.
pub open spec fn menu_tabs(c: PaintView, cat: nat, n: nat) -> Seq<char>
    decreases n,
{
    if n == 0 { Seq::empty() } else { menu_tabs(c, cat, (n - 1) as nat) + menu_tab(c, cat, (n - 1) as nat) }
}

/// `↑ page P/N ↓` on the bottom border when there is more than one page.
pub open spec fn page_marker(c: PaintView, x: nat, y: nat, h: nat, page: nat, pages: nat) -> Seq<char> {
    if pages > 1 {
        cursor_to(x + 2, y + 6 + h) + c.hi + seq![UP_ARROW, ' '] + c.title + seq![' ', 'p', 'a', 'g', 'e', ' ']
            + dec(page + 1) + seq!['/'] + dec(pages) + seq![' '] + c.hi + seq![' ', DOWN_ARROW]
    } else {
        Seq::empty()
    }
}

/// Everything but the option rows: frame, rule, column divider, tabs
/// and page marker.
pub open spec fn menu_chrome(c: PaintView, x: nat, y: nat, h: nat, rounded: bool, cat: nat, page: nat, pages: nat) -> Seq<char> {
    menu_frame(c, x, y, h, rounded) + menu_rule(c, x, y, h) + menu_column(c, x, y, (h - 4) as nat)
        + cursor_to(x + 4, y + 8) + menu_tabs(c, cat, 8) + page_marker(c, x, y, h, page, pages)
}

proof fn lemma_term_codes()
    ensures
        RESET@ == reset_text(),
        BOLD@ == bold_text(),
        BOLD_OFF@ == bold_off_text(),
{
    reveal_strlit("\x1b[0m");
    reveal_strlit("\x1b[1m");
    reveal_strlit("\x1b[22m");
    assert(RESET@ =~= reset_text());
    assert(BOLD@ =~= bold_text());
    assert(BOLD_OFF@ =~= bold_off_text());
}

fn push_frame(out: &mut String, c: &Paint, x: usize, y: usize, h: usize, rounded: bool)
    requires
        6 <= h <= 36,
        x < usize::MAX / 4,
        y < usize::MAX / 4,
    ensures
        final(out)@ == old(out)@ + menu_frame(c.view(), x as nat, y as nat, h as nat, rounded),
{
    proof {
        reveal_strlit("");
        assert(""@ =~= Seq::<char>::empty());
        reveal_strlit("tab");
        assert("tab"@ =~= seq!['t', 'a', 'b']);
    }
    let mut title = String::new();
    push_str(&mut title, c.hi);
    push_str(&mut title, "tab");
    push_str(&mut title, c.fg);
    push_char(&mut title, RIGHT_ARROW);
    assert(title@ =~= c.hi@ + seq!['t', 'a', 'b'] + c.fg@ + seq![RIGHT_ARROW]);
    let cfg = BoxConfig {
        x,
        y: y + 6,
        width: 78,
        height: h,
        line_color: c.frame,
        fill: true,
        title: title.as_str(),
        title2: "",
        num: 0,
        rounded,
        hi_color: "",
        title_color: "",
    };
    let frame = create_box(&cfg);
    assert(box_view(cfg) =~= (BoxView {
        x: x as nat,
        y: y as nat + 6,
        width: 78,
        height: h as nat,
        line_color: c.frame@,
        fill: true,
        title: c.hi@ + seq!['t', 'a', 'b'] + c.fg@ + seq![RIGHT_ARROW],
        title2: Seq::empty(),
        num: 0,
        rounded,
        hi_color: Seq::empty(),
        title_color: Seq::empty(),
    }));
    push_str(out, frame.as_str());
}

fn push_rule(out: &mut String, c: &Paint, x: usize, y: usize, h: usize)
    requires
        6 <= h <= 36,
        x < usize::MAX / 4,
        y < usize::MAX / 4,
    ensures
        final(out)@ == old(out)@ + menu_rule(c.view(), x as nat, y as nat, h as nat),
{
    push_cursor_to(out, x + 1, y + 9);
    push_str(out, c.frame);
    push_char(out, DIV_LEFT);
    push_str(out, c.frame);
    push_char_n(out, H_LINE, 29);
    push_char(out, DIV_UP);
    push_char_n(out, H_LINE, 46);
    push_str(out, c.frame);
    push_char(out, DIV_RIGHT);
    push_cursor_to(out, x + 31, y + 6 + h);
    push_str(out, c.frame);
    push_char(out, DIV_DOWN);
    assert(final(out)@ =~= old(out)@ + menu_rule(c.view(), x as nat, y as nat, h as nat));
}

fn push_column(out: &mut String, c: &Paint, x: usize, y: usize, n: usize)
    requires
        n <= 36,
        x < usize::MAX / 4,
        y < usize::MAX / 4,
    ensures
        final(out)@ == old(out)@ + menu_column(c.view(), x as nat, y as nat, n as nat),
{
    let ghost start = out@;
    let mut i: usize = 0;
    while i < n
        invariant
            i <= n <= 36,
            x < usize::MAX / 4,
            y < usize::MAX / 4,
            out@ == start + menu_column(c.view(), x as nat, y as nat, i as nat),
        decreases n - i,
    {
        let ghost before = out@;
        push_cursor_to(out, x + 31, y + 10 + i);
        push_str(out, c.frame);
        push_char(out, V_LINE);
        assert(out@ =~= before + cursor_to(x as nat + 31, y as nat + 10 + i as nat) + c.frame@ + seq![V_LINE]);
        i = i + 1;
    }
}

fn push_tab(out: &mut String, c: &Paint, cat: usize, t: usize, name: &str, hotkey: char)
    requires
        t < 8,
        name@ == category_name(t as int),
        hotkey == category_hotkey(t as int),
    ensures
        final(out)@ == old(out)@ + menu_tab(c.view(), cat as nat, t as nat),
{
    proof {
        lemma_term_codes();
        reveal_strlit("\x1b[2C");
        assert("\x1b[2C"@ =~= seq!['\x1b', '[', '2', 'C']);
    }
    let sel = t == cat;
    push_str(out, BOLD);
    push_str(out, c.hi);
    push_char(out, if sel { '[' } else { ' ' });
    let hl = highlight_hotkey(name, hotkey, c.title, c.hi);
    push_str(out, hl.as_str());
    push_str(out, c.hi);
    push_char(out, if sel { ']' } else { ' ' });
    push_str(out, RESET);
    if t + 1 < 8 {
        push_str(out, "\x1b[2C");
    }
    assert(final(out)@ =~= old(out)@ + menu_tab(c.view(), cat as nat, t as nat));
}

fn push_tabs(out: &mut String, c: &Paint, cat: usize)
    ensures
        final(out)@ == old(out)@ + menu_tabs(c.view(), cat as nat, 8),
{
    let ghost start = out@;
    let cats = categories();
    let mut t: usize = 0;
    while t < 8
        invariant
            t <= 8,
            crate::overlay::options::render::category_views_ok(cats@),
            out@ == start + menu_tabs(c.view(), cat as nat, t as nat),
        decreases 8 - t,
    {
        assert(cats@[t as int].name@ == category_name(t as int) && cats@[t as int].hotkey == category_hotkey(t as int));
        push_tab(out, c, cat, t, cats[t].name, cats[t].hotkey);
        t = t + 1;
    }
}

fn push_marker(out: &mut String, c: &Paint, x: usize, y: usize, h: usize, page: usize, pages: usize)
    requires
        6 <= h <= 36,
        x < usize::MAX / 4,
        y < usize::MAX / 4,
        page < 16,
        pages <= 16,
    ensures
        final(out)@ == old(out)@ + page_marker(c.view(), x as nat, y as nat, h as nat, page as nat, pages as nat),
{
    if pages > 1 {
        proof {
            reveal_strlit(" page ");
            assert(" page "@ =~= seq![' ', 'p', 'a', 'g', 'e', ' ']);
        }
        push_cursor_to(out, x + 2, y + 6 + h);
        push_str(out, c.hi);
        push_char(out, UP_ARROW);
        push_char(out, ' ');
        push_str(out, c.title);
        push_str(out, " page ");
        push_dec(out, (page + 1) as u64);
        push_char(out, '/');
        push_dec(out, pages as u64);
        push_char(out, ' ');
        push_str(out, c.hi);
        push_char(out, ' ');
        push_char(out, DOWN_ARROW);
        assert(final(out)@ =~= old(out)@ + page_marker(c.view(), x as nat, y as nat, h as nat, page as nat, pages as nat));
    } else {
        assert(final(out)@ =~= old(out)@ + page_marker(c.view(), x as nat, y as nat, h as nat, page as nat, pages as nat));
    }
}

#[verifier::spinoff_prover]
#[verifier::rlimit(40)]
fn push_chrome(out: &mut String, c: &Paint, x: usize, y: usize, h: usize, rounded: bool, cat: usize, page: usize, pages: usize)
    requires
        6 <= h <= 36,
        x < usize::MAX / 4,
        y < usize::MAX / 4,
        page < 16,
        pages <= 16,
    ensures
        final(out)@ == old(out)@ + menu_chrome(c.view(), x as nat, y as nat, h as nat, rounded, cat as nat, page as nat, pages as nat),
{
    let ghost v = c.view();
    let ghost s0 = out@;
    push_frame(out, c, x, y, h, rounded);
    let ghost a = menu_frame(v, x as nat, y as nat, h as nat, rounded);
    push_rule(out, c, x, y, h);
    let ghost b = menu_rule(v, x as nat, y as nat, h as nat);
    push_column(out, c, x, y, h - 4);
    let ghost d = menu_column(v, x as nat, y as nat, (h - 4) as nat);
    push_cursor_to(out, x + 4, y + 8);
    let ghost e = cursor_to(x as nat + 4, y as nat + 8);
    push_tabs(out, c, cat);
    let ghost f = menu_tabs(v, cat as nat, 8);
    push_marker(out, c, x, y, h, page, pages);
    let ghost g = page_marker(v, x as nat, y as nat, h as nat, page as nat, pages as nat);
    assert(out@ =~= s0 + (a + b + d + e + f + g));
}

/// An inline edit as values: the option, its buffer, the cursor, and the
/// error shown, if any.
pub struct EditView {
    pub key: ConfigKey,
    pub buffer: Seq<char>,
    pub cursor: nat,
    pub error: Option<Seq<char>>,
}

/// The edit as values.
pub open spec fn edit_view(e: OptionEditState) -> EditView {
    EditView {
        key: e.key_spec(),
        buffer: e.buffer_spec(),
        cursor: e.cursor_spec(),
        error: match e.error_spec() {
            Some(m) => Some(m@),
            None => None,
        },
    }
}

/// One option as values: the key, its configuration name, its displayed
/// value, its choices (empty unless browsable) and its description.
pub struct RowView {
    pub key: ConfigKey,
    pub name: Seq<char>,
    pub value: Seq<char>,
    pub choices: Seq<Seq<char>>,
    pub desc: Seq<Seq<char>>,
}

/// The first `n` description lines, from the row under the tabs down;
/// the second and later lines in the normal colour.
pub open spec fn desc_lines(c: PaintView, desc: Seq<Seq<char>>, x: nat, y: nat, n: nat) -> Seq<char>
    decreases n,
{
    if n == 0 {
        Seq::empty()
    } else {
        let k = (n - 1) as nat;
        desc_lines(c, desc, x, y, k) + (if k == 1 { c.fg + bold_off_text() } else { Seq::empty() })
            + cursor_to(x + 33, y + 10 + k) + desc[k as int]
    }
}

/// The name row of option `r` at row `k` of the page: its display name
/// (with `i/n` after it when it is the selected browsable option)
/// centred in 29 columns.
pub open spec fn name_line(c: PaintView, r: RowView, x: nat, y: nat, k: nat, sel: bool) -> Seq<char> {
    let suffix = if sel && opt_kind_of(r.key) == OptKind::Browsable {
        seq![' '] + dec(choice_pos(r.choices, r.value) + 1) + seq!['/'] + dec(r.choices.len())
    } else {
        Seq::empty()
    };
    cursor_to(x + 2, y + 10 + 2 * k) + (if sel { c.sel_bg + c.sel_fg + bold_text() } else { c.title + bold_text() })
        + centered(capitalized(r.name) + suffix, 29) + reset_text()
}

/// The value row: the edit window of an edit open on this option, in
/// the error colour while an error shows; otherwise the value centred in
/// 25 columns.
pub open spec fn value_line(c: PaintView, r: RowView, edit: Option<EditView>, x: nat, y: nat, k: nat, sel: bool) -> Seq<char> {
    let vr = y + 11 + 2 * k;
    if sel && edit is Some && edit->0.key == r.key {
        let e = edit->0;
        cursor_to(x + 2, vr) + c.sel_bg + (if e.error is Some { c.hi } else { c.sel_fg }) + seq![' ', ' ']
            + edit_window(e.buffer, e.cursor, 25) + reset_text()
    } else {
        cursor_to(x + 2, vr) + (if sel { c.sel_bg } else { Seq::empty() }) + (if sel { c.sel_fg } else { c.fg })
            + seq![' ', ' '] + centered(r.value, 25) + seq![' ', ' '] + reset_text()
    }
}

/// The arrows of the selected value row: `←` and `→` for options that
/// step, `↵` for text.
pub open spec fn step_marks(c: PaintView, kind: OptKind, x: nat, vr: nat) -> Seq<char> {
    if kind == OptKind::StringVal {
        bold_text() + cursor_to(x + 29, vr) + c.sel_bg + c.hi + seq![crate::draw::box_drawing::symbols::ENTER] + reset_text()
    } else {
        bold_text() + cursor_to(x + 3, vr) + c.sel_bg + c.hi + seq![crate::draw::box_drawing::symbols::LEFT_ARROW]
            + cursor_to(x + 29, vr) + c.sel_bg + c.hi + seq![RIGHT_ARROW] + reset_text()
    }
}

/// While editing the selected option: its description, and the error
/// below it when one shows and there is room.
pub open spec fn edit_extras(c: PaintView, r: RowView, e: EditView, x: nat, y: nat, h: nat) -> Seq<char> {
    let shown = min_of(r.desc.len(), (h - 3) as nat);
    let err = match e.error {
        Some(m) => if shown + 4 < h { cursor_to(x + 33, y + 11 + shown) + c.hi + m + reset_text() } else { Seq::empty() },
        None => Seq::empty(),
    };
    reset_text() + c.title + bold_text() + desc_lines(c, r.desc, x, y, shown) + err + reset_text()
}

/// Otherwise: the step arrows, then the description.
pub open spec fn step_extras(c: PaintView, r: RowView, x: nat, y: nat, h: nat, k: nat) -> Seq<char> {
    let shown = min_of(r.desc.len(), (h - 3) as nat);
    step_marks(c, opt_kind_of(r.key), x, y + 11 + 2 * k) + reset_text() + c.title + bold_text()
        + desc_lines(c, r.desc, x, y, shown) + reset_text()
}

/// What the selected option adds: the arrows (none while editing), the
/// description in the right panel, and while editing the error below
/// it when there is room.
pub open spec fn selection_extras(c: PaintView, r: RowView, edit: Option<EditView>, x: nat, y: nat, h: nat, k: nat) -> Seq<char> {
    if edit is Some && edit->0.key == r.key {
        edit_extras(c, r, edit->0, x, y, h)
    } else {
        step_extras(c, r, x, y, h, k)
    }
}

/// The two rows of option `r` at row `k` of the page, and the extras
/// when it is selected.
pub open spec fn option_rows(c: PaintView, r: RowView, edit: Option<EditView>, x: nat, y: nat, h: nat, k: nat, sel: bool) -> Seq<char> {
    name_line(c, r, x, y, k, sel) + value_line(c, r, edit, x, y, k, sel)
        + (if sel { selection_extras(c, r, edit, x, y, h, k) } else { Seq::empty() })
}

fn push_desc(out: &mut String, c: &Paint, desc: &Vec<String>, x: usize, y: usize, n: usize)
    requires
        n <= desc@.len(),
        n <= 36,
        x < usize::MAX / 4,
        y < usize::MAX / 4,
    ensures
        final(out)@ == old(out)@ + desc_lines(c.view(), crate::handlers::normal::texts(desc@), x as nat, y as nat, n as nat),
{
    proof { lemma_term_codes(); }
    let ghost start = out@;
    let ghost d = crate::handlers::normal::texts(desc@);
    let mut k: usize = 0;
    while k < n
        invariant
            k <= n <= desc@.len(),
            n <= 36,
            x < usize::MAX / 4,
            y < usize::MAX / 4,
            d == crate::handlers::normal::texts(desc@),
            BOLD_OFF@ == bold_off_text(),
            out@ == start + desc_lines(c.view(), d, x as nat, y as nat, k as nat),
        decreases n - k,
    {
        let ghost before = out@;
        if k == 1 {
            push_str(out, c.fg);
            push_str(out, BOLD_OFF);
        }
        push_cursor_to(out, x + 33, y + 10 + k);
        push_str(out, desc[k].as_str());
        assert(out@ =~= before + (if k == 1 { c.fg@ + bold_off_text() } else { Seq::empty() })
            + cursor_to(x as nat + 33, y as nat + 10 + k as nat) + d[k as int]);
        k = k + 1;
    }
}

/// An option's data as the caller hands it over.
pub struct RowData<'a> {
    pub key: ConfigKey,
    pub name: &'a str,
    pub value: &'a str,
    pub choices: &'a Vec<String>,
    pub desc: &'a Vec<String>,
}

impl<'a> RowData<'a> {
    pub open spec fn view(&self) -> RowView {
        RowView {
            key: self.key,
            name: self.name@,
            value: self.value@,
            choices: crate::handlers::normal::texts(self.choices@),
            desc: crate::handlers::normal::texts(self.desc@),
        }
    }
}

fn push_name_line(out: &mut String, c: &Paint, r: &RowData, x: usize, y: usize, k: usize, sel: bool)
    requires
        k <= 16,
        x < usize::MAX / 4,
        y < usize::MAX / 4,
    ensures
        final(out)@ == old(out)@ + name_line(c.view(), r.view(), x as nat, y as nat, k as nat, sel),
{
    proof { lemma_term_codes(); }
    let mut full = capitalize_name(r.name);
    let ghost cap = full@;
    let browsable = match opt_kind(r.key) {
        OptKind::Browsable => true,
        _ => false,
    };
    if sel && browsable {
        let len = r.choices.len();
        let pos = choice_position(r.choices, r.value);
        assert(pos == 0 || pos < len);
        push_char(&mut full, ' ');
        push_dec(&mut full, (pos + 1) as u64);
        push_char(&mut full, '/');
        push_dec(&mut full, len as u64);
        assert(full@ =~= cap + (seq![' '] + dec(choice_pos(r.view().choices, r.view().value) + 1) + seq!['/']
            + dec(r.view().choices.len())));
    } else {
        assert(full@ =~= cap + Seq::<char>::empty());
    }
    let name = center_text(full.as_str(), 29);
    let ghost s0 = out@;
    push_cursor_to(out, x + 2, y + 10 + 2 * k);
    if sel {
        push_str(out, c.sel_bg);
        push_str(out, c.sel_fg);
        push_str(out, BOLD);
    } else {
        push_str(out, c.title);
        push_str(out, BOLD);
    }
    push_str(out, name.as_str());
    push_str(out, RESET);
    assert(out@ =~= s0 + name_line(c.view(), r.view(), x as nat, y as nat, k as nat, sel));
}

fn push_value_line(out: &mut String, c: &Paint, r: &RowData, edit: Option<&OptionEditState>, x: usize, y: usize, k: usize, sel: bool)
    requires
        k <= 16,
        x < usize::MAX / 4,
        y < usize::MAX / 4,
    ensures
        final(out)@ == old(out)@ + value_line(c.view(), r.view(), match edit { Some(e) => Some(edit_view(*e)), None => None }, x as nat, y as nat, k as nat, sel),
{
    proof { lemma_term_codes(); reveal_strlit("  "); assert("  "@ =~= seq![' ', ' ']); }
    let ghost ev: Option<EditView> = match edit { Some(e) => Some(edit_view(*e)), None => None };
    let ghost s0 = out@;
    let vr = y + 11 + 2 * k;
    let active: Option<&OptionEditState> = match edit {
        Some(e) => if sel && e.key() == r.key { Some(e) } else { None },
        None => None,
    };
    match active {
        Some(e) => {
            let cell = render_edit_value(e.buffer(), e.cursor(), 25);
            push_cursor_to(out, x + 2, vr);
            push_str(out, c.sel_bg);
            match e.error() {
                Some(_) => push_str(out, c.hi),
                None => push_str(out, c.sel_fg),
            }
            push_str(out, "  ");
            push_str(out, cell.as_str());
            push_str(out, RESET);
            assert(out@ =~= s0 + value_line(c.view(), r.view(), ev, x as nat, y as nat, k as nat, sel));
        },
        None => {
            let val = center_text(r.value, 25);
            push_cursor_to(out, x + 2, vr);
            if sel {
                push_str(out, c.sel_bg);
                push_str(out, c.sel_fg);
            } else {
                push_str(out, c.fg);
            }
            push_str(out, "  ");
            push_str(out, val.as_str());
            push_str(out, "  ");
            push_str(out, RESET);
            assert(out@ =~= s0 + value_line(c.view(), r.view(), ev, x as nat, y as nat, k as nat, sel));
        },
    }
}

fn push_edit_extras(out: &mut String, c: &Paint, r: &RowData, e: &OptionEditState, x: usize, y: usize, h: usize)
    requires
        6 <= h <= 36,
        x < usize::MAX / 4,
        y < usize::MAX / 4,
    ensures
        final(out)@ == old(out)@ + edit_extras(c.view(), r.view(), edit_view(*e), x as nat, y as nat, h as nat),
{
    proof { lemma_term_codes(); }
    let ghost s0 = out@;
    let shown = if r.desc.len() <= h - 3 { r.desc.len() } else { h - 3 };
    push_str(out, RESET);
    push_str(out, c.title);
    push_str(out, BOLD);
    let ghost s1 = out@;
    push_desc(out, c, r.desc, x, y, shown);
    let ghost lines = desc_lines(c.view(), r.view().desc, x as nat, y as nat, shown as nat);
    let ghost s2 = out@;
    match e.error() {
        Some(m) => {
            if shown + 4 < h {
                push_cursor_to(out, x + 33, y + 11 + shown);
                push_str(out, c.hi);
                push_str(out, m);
                push_str(out, RESET);
            }
        },
        None => {},
    }
    let ghost s3 = out@;
    push_str(out, RESET);
    assert(out@ =~= s0 + edit_extras(c.view(), r.view(), edit_view(*e), x as nat, y as nat, h as nat));
}

fn push_step_marks(out: &mut String, c: &Paint, key: ConfigKey, x: usize, vr: usize)
    requires
        x < usize::MAX / 4,
    ensures
        final(out)@ == old(out)@ + step_marks(c.view(), opt_kind_of(key), x as nat, vr as nat),
{
    proof { lemma_term_codes(); }
    let ghost s0 = out@;
    push_str(out, BOLD);
    match opt_kind(key) {
        OptKind::StringVal => {
            push_cursor_to(out, x + 29, vr);
            push_str(out, c.sel_bg);
            push_str(out, c.hi);
            push_char(out, crate::draw::box_drawing::symbols::ENTER);
        },
        _ => {
            push_cursor_to(out, x + 3, vr);
            push_str(out, c.sel_bg);
            push_str(out, c.hi);
            push_char(out, crate::draw::box_drawing::symbols::LEFT_ARROW);
            push_cursor_to(out, x + 29, vr);
            push_str(out, c.sel_bg);
            push_str(out, c.hi);
            push_char(out, RIGHT_ARROW);
        },
    }
    push_str(out, RESET);
    assert(out@ =~= s0 + step_marks(c.view(), opt_kind_of(key), x as nat, vr as nat));
}

fn push_step_extras(out: &mut String, c: &Paint, r: &RowData, x: usize, y: usize, h: usize, k: usize)
    requires
        6 <= h <= 36,
        k <= 16,
        x < usize::MAX / 4,
        y < usize::MAX / 4,
    ensures
        final(out)@ == old(out)@ + step_extras(c.view(), r.view(), x as nat, y as nat, h as nat, k as nat),
{
    proof { lemma_term_codes(); }
    let ghost s0 = out@;
    let shown = if r.desc.len() <= h - 3 { r.desc.len() } else { h - 3 };
    let vr = y + 11 + 2 * k;
    push_step_marks(out, c, r.key, x, vr);
    let ghost a = step_marks(c.view(), opt_kind_of(r.key), x as nat, vr as nat);
    push_str(out, RESET);
    push_str(out, c.title);
    push_str(out, BOLD);
    push_desc(out, c, r.desc, x, y, shown);
    let ghost d = desc_lines(c.view(), r.view().desc, x as nat, y as nat, shown as nat);
    push_str(out, RESET);
    assert(out@ =~= s0 + (a + reset_text() + c.title@ + bold_text() + d + reset_text()));
}

fn push_extras(out: &mut String, c: &Paint, r: &RowData, edit: Option<&OptionEditState>, x: usize, y: usize, h: usize, k: usize)
    requires
        6 <= h <= 36,
        k <= 16,
        x < usize::MAX / 4,
        y < usize::MAX / 4,
    ensures
        final(out)@ == old(out)@ + selection_extras(c.view(), r.view(), match edit { Some(e) => Some(edit_view(*e)), None => None }, x as nat, y as nat, h as nat, k as nat),
{
    match edit {
        Some(e) => {
            if e.key() == r.key {
                push_edit_extras(out, c, r, e, x, y, h);
            } else {
                push_step_extras(out, c, r, x, y, h, k);
            }
        },
        None => push_step_extras(out, c, r, x, y, h, k),
    }
}

fn push_option(out: &mut String, c: &Paint, r: &RowData, edit: Option<&OptionEditState>, x: usize, y: usize, h: usize, k: usize, sel: bool)
    requires
        6 <= h <= 36,
        k <= 16,
        x < usize::MAX / 4,
        y < usize::MAX / 4,
    ensures
        final(out)@ == old(out)@ + option_rows(c.view(), r.view(), match edit { Some(e) => Some(edit_view(*e)), None => None }, x as nat, y as nat, h as nat, k as nat, sel),
{
    let ghost ev: Option<EditView> = match edit { Some(e) => Some(edit_view(*e)), None => None };
    let ghost s0 = out@;
    push_name_line(out, c, r, x, y, k, sel);
    let ghost a = name_line(c.view(), r.view(), x as nat, y as nat, k as nat, sel);
    push_value_line(out, c, r, edit, x, y, k, sel);
    let ghost b = value_line(c.view(), r.view(), ev, x as nat, y as nat, k as nat, sel);
    if sel {
        push_extras(out, c, r, edit, x, y, h, k);
        assert(out@ =~= s0 + option_rows(c.view(), r.view(), ev, x as nat, y as nat, h as nat, k as nat, sel));
    } else {
        assert(out@ =~= s0 + option_rows(c.view(), r.view(), ev, x as nat, y as nat, h as nat, k as nat, sel));
    }
}

/// What the menu shows, apart from the option values: the selected
/// category, page and row, the corner style, the open edit, per option of
/// the category its configuration name, its choices (empty unless
/// browsable) and its description lines, and the theme.
pub struct DrawParams<'a> {
    pub cat: usize,
    pub selected: usize,
    pub page: usize,
    pub rounded: bool,
    pub option_edit: Option<&'a OptionEditState>,
    pub names: &'a Vec<String>,
    pub choices: &'a Vec<Vec<String>>,
    pub descs: &'a Vec<Vec<String>>,
    pub theme: &'a Theme,
}

/// The parameters as values.
pub struct OptionsView {
    pub cat: nat,
    pub selected: nat,
    pub page: nat,
    pub rounded: bool,
    pub edit: Option<EditView>,
    pub names: Seq<Seq<char>>,
    pub choices: Seq<Seq<Seq<char>>>,
    pub descs: Seq<Seq<Seq<char>>>,
    pub paint: PaintView,
}

/// The colours the menu takes from a theme: highlight, title, main
/// foreground, selection background (as a background escape) and
/// foreground, and the options frame.
pub open spec fn theme_paint(t: Theme) -> PaintView {
    PaintView {
        hi: t.color_spec(color_index(HI_FG) as int),
        title: t.color_spec(color_index(TITLE) as int),
        fg: t.color_spec(color_index(MAIN_FG) as int),
        sel_bg: replaced(t.color_spec(color_index(SELECTED_BG) as int), seq!['3', '8', ';', '2'], seq!['4', '8', ';', '2']),
        sel_fg: t.color_spec(color_index(SELECTED_FG) as int),
        frame: t.color_spec(color_index(OPTIONS_BOX) as int),
    }
}

impl<'a> DrawParams<'a> {
    pub open spec fn view(&self) -> OptionsView {
        OptionsView {
            cat: self.cat as nat,
            selected: self.selected as nat,
            page: self.page as nat,
            rounded: self.rounded,
            edit: match self.option_edit {
                Some(e) => Some(edit_view(*e)),
                None => None,
            },
            names: crate::handlers::normal::texts(self.names@),
            choices: self.choices@.map_values(|v: Vec<String>| crate::handlers::normal::texts(v@)),
            descs: self.descs@.map_values(|v: Vec<String>| crate::handlers::normal::texts(v@)),
            paint: theme_paint(*self.theme),
        }
    }
}

/// Option `i` of category `cat` as values, its displayed value `values[i]`.
pub open spec fn row_view(v: OptionsView, values: Seq<Seq<char>>, cat: nat, i: int) -> RowView {
    RowView {
        key: category_options(cat as int)[i],
        name: v.names[i],
        value: values[i],
        choices: v.choices[i],
        desc: v.descs[i],
    }
}

/// The first `k` options of the page that starts at option `first`,
/// row `sel` selected.
pub open spec fn page_options(v: OptionsView, values: Seq<Seq<char>>, cat: nat, x: nat, y: nat, h: nat, first: nat, sel: nat, k: nat) -> Seq<char>
    decreases k,
{
    if k == 0 {
        Seq::empty()
    } else {
        let j = (k - 1) as nat;
        page_options(v, values, cat, x, y, h, first, sel, j)
            + option_rows(v.paint, row_view(v, values, cat, (first + j) as int), v.edit, x, y, h, j, j == sel)
    }
}

/// Rows of the menu frame at terminal height `th`: as many as the
/// longest category needs (two per option, four of chrome), at most
/// `th - 8`, made even.
pub open spec fn menu_height(th: nat) -> nat {
    let h0 = min_of(36, sat(th, 8));
    if h0 % 2 != 0 { (h0 - 1) as nat } else { h0 }
}

/// Where the menu stands and what it shows, for category `cat`
/// (capped), page `page`, row `selected` on a terminal `th` rows tall.
pub struct MenuGeometry {
    pub cat: nat,
    pub h: nat,
    pub y: nat,
    pub ih: nat,
    pub pages: nat,
    pub page: nat,
    pub first: nat,
    pub rows: nat,
    pub sel: nat,
}

/// The frame height, its top row, the options per page, the pages, the
/// page shown (clamped), its first option, the options on it and the
/// selected row (clamped).
pub open spec fn menu_geometry(cat: nat, page: nat, selected: nat, th: nat) -> MenuGeometry {
    let cat = min_of(cat, 7);
    let n = option_count(cat as int);
    let h = menu_height(th);
    let ih = min_of(((h - 4) as nat) / 2, 16);
    let pages = if n == 0 { 1 } else { ((n + ih - 1) as nat) / ih };
    let pg = min_of(page, (pages - 1) as nat);
    let rows = min_of(ih, sat(n, ih * pg));
    MenuGeometry {
        cat,
        h,
        y: sat(th, h + 6) / 2,
        ih,
        pages,
        page: pg,
        first: ih * pg,
        rows,
        sel: min_of(selected, sat(rows, 1)),
    }
}

/// The options menu on a `tw` x `th` terminal, `values` the displayed
/// values of the category's options. The category is capped at the last;
/// the page and row are clamped to the pages and rows there are; the
/// frame is centred across and sits below the middle.
pub open spec fn options_overlay(v: OptionsView, values: Seq<Seq<char>>, tw: nat, th: nat) -> Seq<char> {
    let g = menu_geometry(v.cat, v.page, v.selected, th);
    let x = sat(tw, 78) / 2;
    menu_chrome(v.paint, x, g.y, g.h, v.rounded, g.cat, g.page, g.pages)
        + page_options(v, values, g.cat, x, g.y, g.h, g.first, g.sel, g.rows) + reset_text()
}

/// The menu's geometry (see [`menu_geometry`]), as `(cat, h, y, pages,
/// page, first, rows, sel)`.
fn geometry(cat: usize, page: usize, selected: usize, th: usize) -> (r: (usize, usize, usize, usize, usize, usize, usize, usize))
    requires
        14 <= th < usize::MAX / 2,
    ensures
        ({
            let g = menu_geometry(cat as nat, page as nat, selected as nat, th as nat);
            &&& r.0 == g.cat && r.1 == g.h && r.2 == g.y && r.3 == g.pages && r.4 == g.page
            &&& r.5 == g.first && r.6 == g.rows && r.7 == g.sel
        }),
        r.0 < 8,
        6 <= r.1 <= 36,
        r.2 < usize::MAX / 4,
        r.3 <= 16,
        r.4 < 16,
        r.6 <= 16,
        r.6 == 0 || r.5 + r.6 <= option_count(r.0 as int),
{
    let cat: usize = if cat < 7 { cat } else { 7 };
    let cats = categories();
    assert(cats@[cat as int].options@ == category_options(cat as int));
    let n = cats[cat].options.len();
    proof { lemma_category_bounds(cat as nat, th as nat); }
    let avail = th - 8;
    let h0: usize = if 36 <= avail { 36 } else { avail };
    let h: usize = if h0 % 2 != 0 { h0 - 1 } else { h0 };
    let y = th.saturating_sub(h + 6) / 2;
    let half = (h - 4) / 2;
    let ih: usize = if half <= 16 { half } else { 16 };
    let pages: usize = if n == 0 { 1 } else { (n + ih - 1) / ih };
    proof {
        let nn = n as nat;
        let ii = ih as nat;
        if nn > 0 {
            assert(((nn + ii - 1) as nat) / ii <= nn) by (nonlinear_arith)
                requires ii >= 1, nn >= 1;
            assert(((nn + ii - 1) as nat) / ii >= 1) by (nonlinear_arith)
                requires ii >= 1, nn >= 1;
        }
    }
    let pg: usize = if page <= pages - 1 { page } else { pages - 1 };
    assert(ih * pg <= 256) by (nonlinear_arith)
        requires ih <= 16, pg < 16;
    let first = ih * pg;
    let rem = n.saturating_sub(first);
    let rows: usize = if ih <= rem { ih } else { rem };
    let sm = rows.saturating_sub(1);
    let sel: usize = if selected <= sm { selected } else { sm };
    (cat, h, y, pages, pg, first, rows, sel)
}

fn push_page(out: &mut String, p: &DrawParams, paint: &Paint, values: &Vec<String>, x: usize, y: usize, h: usize, cat: usize, first: usize, rows: usize, sel: usize)
    requires
        cat < 8,
        rows <= 16,
        rows == 0 || first + rows <= option_count(cat as int),
        6 <= h <= 36,
        x < usize::MAX / 4,
        y < usize::MAX / 4,
        p.names@.len() == option_count(cat as int),
        values@.len() == option_count(cat as int),
        p.choices@.len() == option_count(cat as int),
        p.descs@.len() == option_count(cat as int),
        paint.view() == p.view().paint,
    ensures
        final(out)@ == old(out)@ + page_options(p.view(), crate::handlers::normal::texts(values@), cat as nat, x as nat, y as nat, h as nat, first as nat, sel as nat, rows as nat),
{
    let cats = categories();
    assert(cats@[cat as int].options@ == category_options(cat as int));
    let ghost v = p.view();
    let ghost vals = crate::handlers::normal::texts(values@);
    let ghost start = out@;
    let mut k: usize = 0;
    while k < rows
        invariant
            k <= rows <= 16,
            rows == 0 || first + rows <= option_count(cat as int),
            6 <= h <= 36,
            x < usize::MAX / 4,
            y < usize::MAX / 4,
            cat < 8,
            cats@.len() == 8,
            cats@[cat as int].options@ == category_options(cat as int),
            p.names@.len() == option_count(cat as int),
            values@.len() == option_count(cat as int),
            p.choices@.len() == option_count(cat as int),
            p.descs@.len() == option_count(cat as int),
            v == p.view(),
            vals == crate::handlers::normal::texts(values@),
            paint.view() == v.paint,
            out@ == start + page_options(v, vals, cat as nat, x as nat, y as nat, h as nat, first as nat, sel as nat, k as nat),
        decreases rows - k,
    {
        let i = first + k;
        let row = RowData {
            key: cats[cat].options[i],
            name: p.names[i].as_str(),
            value: values[i].as_str(),
            choices: &p.choices[i],
            desc: &p.descs[i],
        };
        assert(row.view() == row_view(v, vals, cat as nat, i as int));
        push_option(out, paint, &row, p.option_edit, x, y, h, k, k == sel);
        k = k + 1;
    }
}

/// Draws the options menu: the frame with its category tabs, the
/// options of the selected category's page (names, values, the selected
/// one highlighted with its step arrows or its open editor), the
/// selected option's description, and the page marker.
pub fn draw(p: &DrawParams, values: &Vec<String>, term_width: usize, term_height: usize) -> (r: String)
    requires
        p.theme.wf(),
        term_width < usize::MAX / 2,
        term_height < usize::MAX / 2,
        term_height >= 14,
        p.names@.len() == option_count(min_of(p.cat as nat, 7) as int),
        values@.len() == option_count(min_of(p.cat as nat, 7) as int),
        p.choices@.len() == option_count(min_of(p.cat as nat, 7) as int),
        p.descs@.len() == option_count(min_of(p.cat as nat, 7) as int),
        forall|i: int| 0 <= i < p.names@.len() ==> is_ascii(#[trigger] p.names@[i]@),
    ensures
        r@ == options_overlay(p.view(), crate::handlers::normal::texts(values@), term_width as nat, term_height as nat),
{
    let (cat, h, y, pages, pg, first, rows, sel) = geometry(p.cat, p.page, p.selected, term_height);
    let x = term_width.saturating_sub(78) / 2;
    let sel_bg = p.theme.background(SELECTED_BG);
    let paint = Paint {
        hi: p.theme.color(HI_FG),
        title: p.theme.color(TITLE),
        fg: p.theme.color(MAIN_FG),
        sel_bg: sel_bg.as_str(),
        sel_fg: p.theme.color(SELECTED_FG),
        frame: p.theme.color(OPTIONS_BOX),
    };
    assert(paint.view() == p.view().paint);
    let mut out = String::new();
    push_chrome(&mut out, &paint, x, y, h, p.rounded, cat, pg, pages);
    push_page(&mut out, p, &paint, values, x, y, h, cat, first, rows, sel);
    push_str(&mut out, RESET);
    proof { lemma_term_codes(); }
    assert(out@ =~= options_overlay(p.view(), crate::handlers::normal::texts(values@), term_width as nat, term_height as nat));
    out
}

} // verus!
