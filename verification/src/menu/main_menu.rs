//! The main menu: the banner, then the three items (options, help,
//! quit) drawn as three-line box-drawing art, the selected one in thick
//! lines and its own colours.

use vstd::prelude::*;

use crate::draw::buffer::{cursor_to, push_cursor_to};
use crate::menu::msg_box::sat_sub;
use crate::text::push_str;

verus! {

/// Line `line` of the art of item `item` (0 options, 1 help, 2 quit):
/// thin lines, or thick ones when `sel`.
pub open spec fn menu_art(item: nat, line: nat, sel: bool) -> Seq<char> {
    if (sel == false && item == 0 && line == 0) {
        "┌─┐┌─┐┌┬┐┬┌─┐┌┐┌┌─┐"@
    } else if (sel == false && item == 0 && line == 1) {
        "│ │├─┘ │ ││ ││││└─┐"@
    } else if (sel == false && item == 0 && line == 2) {
        "└─┘┴   ┴ ┴└─┘┘└┘└─┘"@
    } else if (sel == false && item == 1 && line == 0) {
        "┬ ┬┌─┐┬  ┌─┐"@
    } else if (sel == false && item == 1 && line == 1) {
        "├─┤├┤ │  ├─┘"@
    } else if (sel == false && item == 1 && line == 2) {
        "┴ ┴└─┘┴─┘┴  "@
    } else if (sel == false && item == 2 && line == 0) {
        "┌─┐ ┬ ┬ ┬┌┬┐"@
    } else if (sel == false && item == 2 && line == 1) {
        "│─┼┐│ │ │ │ "@
    } else if (sel == false && item == 2 && line == 2) {
        "└─┘└└─┘ ┴ ┴ "@
    } else if (sel == true && item == 0 && line == 0) {
        "╔═╗╔═╗╔╦╗╦╔═╗╔╗╔╔═╗"@
    } else if (sel == true && item == 0 && line == 1) {
        "║ ║╠═╝ ║ ║║ ║║║║╚═╗"@
    } else if (sel == true && item == 0 && line == 2) {
        "╚═╝╩   ╩ ╩╚═╝╝╚╝╚═╝"@
    } else if (sel == true && item == 1 && line == 0) {
        "╦ ╦╔═╗╦  ╔═╗"@
    } else if (sel == true && item == 1 && line == 1) {
        "╠═╣╠╣ ║  ╠═╝"@
    } else if (sel == true && item == 1 && line == 2) {
        "╩ ╩╚═╝╩═╝╩  "@
    } else if (sel == true && item == 2 && line == 0) {
        "╔═╗ ╦ ╦ ╦╔╦╗ "@
    } else if (sel == true && item == 2 && line == 1) {
        "║═╬╗║ ║ ║ ║  "@
    } else if (sel == true && item == 2 && line == 2) {
        "╚═╝╚╚═╝ ╩ ╩  "@
    } else {
        Seq::empty()
    }
}

fn menu_art_str(item: usize, line: usize, sel: bool) -> (r: &'static str)
    requires
        item < 3 && line < 3,
    ensures
        r@ == menu_art(item as nat, line as nat, sel),
{
    if (sel == false && item == 0 && line == 0) {
        "┌─┐┌─┐┌┬┐┬┌─┐┌┐┌┌─┐"
    } else if (sel == false && item == 0 && line == 1) {
        "│ │├─┘ │ ││ ││││└─┐"
    } else if (sel == false && item == 0 && line == 2) {
        "└─┘┴   ┴ ┴└─┘┘└┘└─┘"
    } else if (sel == false && item == 1 && line == 0) {
        "┬ ┬┌─┐┬  ┌─┐"
    } else if (sel == false && item == 1 && line == 1) {
        "├─┤├┤ │  ├─┘"
    } else if (sel == false && item == 1 && line == 2) {
        "┴ ┴└─┘┴─┘┴  "
    } else if (sel == false && item == 2 && line == 0) {
        "┌─┐ ┬ ┬ ┬┌┬┐"
    } else if (sel == false && item == 2 && line == 1) {
        "│─┼┐│ │ │ │ "
    } else if (sel == false && item == 2 && line == 2) {
        "└─┘└└─┘ ┴ ┴ "
    } else if (sel == true && item == 0 && line == 0) {
        "╔═╗╔═╗╔╦╗╦╔═╗╔╗╔╔═╗"
    } else if (sel == true && item == 0 && line == 1) {
        "║ ║╠═╝ ║ ║║ ║║║║╚═╗"
    } else if (sel == true && item == 0 && line == 2) {
        "╚═╝╩   ╩ ╩╚═╝╝╚╝╚═╝"
    } else if (sel == true && item == 1 && line == 0) {
        "╦ ╦╔═╗╦  ╔═╗"
    } else if (sel == true && item == 1 && line == 1) {
        "╠═╣╠╣ ║  ╠═╝"
    } else if (sel == true && item == 1 && line == 2) {
        "╩ ╩╚═╝╩═╝╩  "
    } else if (sel == true && item == 2 && line == 0) {
        "╔═╗ ╦ ╦ ╦╔╦╗ "
    } else if (sel == true && item == 2 && line == 1) {
        "║═╬╗║ ║ ║ ║  "
    } else if (sel == true && item == 2 && line == 2) {
        "╚═╝╚╚═╝ ╩ ╩  "
    } else {
        ""
    }
}

/// The columns item `i`'s art takes.
pub open spec fn item_width(i: nat) -> nat {
    if i == 0 { 19 } else { 12 }
}

/// The terminal row of the banner's top: ten rows above the middle,
/// and never above row 1.
pub open spec fn banner_row(th: nat) -> nat {
    if th / 2 > 10 { (th / 2 - 10) as nat } else { 1 }
}

/// Where the banner goes on a `tw` x `th` terminal: centred for its 35
/// columns, at [`banner_row`].
pub open spec fn banner_origin_spec(tw: nat, th: nat) -> (nat, nat) {
    (sat_sub(tw, 35) / 2, banner_row(th))
}

/// Where the banner goes (see [`banner_origin_spec`]), as `(column, row)`.
pub fn banner_origin(term_width: usize, term_height: usize) -> (r: (usize, usize))
    ensures
        (r.0 as nat, r.1 as nat) == banner_origin_spec(term_width as nat, term_height as nat),
{
    let half = term_height / 2;
    (term_width.saturating_sub(35) / 2, if half > 10 { half - 10 } else { 1 })
}

/// Line `k` (0..9) of the items: line `k % 3` of item `k / 3`, centred
/// for the item's width, in the selected or normal colour of that line.
pub open spec fn item_line(tw: nat, by: nat, selected: nat, sc: Seq<Seq<char>>, nc: Seq<Seq<char>>, k: nat) -> Seq<char> {
    let i = k / 3;
    let l = k % 3;
    let sel = i == selected;
    cursor_to(sat_sub(tw, item_width(i)) / 2 + 1, by + 7 + k) + (if sel { sc[l as int] } else { nc[l as int] })
        + menu_art(i, l, sel)
}

/// The first `k` item lines.
pub open spec fn item_lines(tw: nat, by: nat, selected: nat, sc: Seq<Seq<char>>, nc: Seq<Seq<char>>, k: nat) -> Seq<char>
    decreases k,
{
    if k == 0 {
        Seq::empty()
    } else {
        item_lines(tw, by, selected, sc, nc, (k - 1) as nat) + item_line(tw, by, selected, sc, nc, (k - 1) as nat)
    }
}

/// The main menu on a `tw` x `th` terminal with item `selected` (0
/// options, 1 help, 2 quit) selected: the banner, drawn by the caller at
/// [`banner_origin_spec`], then the items below it, then a reset.
pub open spec fn main_menu_text(tw: nat, th: nat, selected: nat, banner: Seq<char>, sc: Seq<Seq<char>>, nc: Seq<Seq<char>>) -> Seq<char> {
    banner + item_lines(tw, banner_row(th), selected, sc, nc, 9) + seq!['\x1b', '[', '0', 'm']
}

/// Draws the main menu with item `selected` selected, after `banner`
/// (the rendered banner); `selected_colors` and `normal_colors` colour
/// the three lines of the selected and of the other items.
pub fn draw_with_selection(
    term_width: usize,
    term_height: usize,
    selected: usize,
    banner: &str,
    selected_colors: &Vec<String>,
    normal_colors: &Vec<String>,
) -> (r: String)
    requires
        term_width < usize::MAX / 2,
        term_height < usize::MAX / 2,
        selected_colors@.len() == 3,
        normal_colors@.len() == 3,
    ensures
        r@ == main_menu_text(
            term_width as nat,
            term_height as nat,
            selected as nat,
            banner@,
            crate::handlers::normal::texts(selected_colors@),
            crate::handlers::normal::texts(normal_colors@),
        ),
{
    let ghost sc = crate::handlers::normal::texts(selected_colors@);
    let ghost nc = crate::handlers::normal::texts(normal_colors@);
    let half = term_height / 2;
    let by = if half > 10 { half - 10 } else { 1 };
    let mut out = String::new();
    push_str(&mut out, banner);
    let ghost start = out@;
    let mut k: usize = 0;
    while k < 9
        invariant
            k <= 9,
            by as nat == banner_row(term_height as nat),
            by < usize::MAX / 4,
            term_width < usize::MAX / 2,
            selected_colors@.len() == 3,
            normal_colors@.len() == 3,
            sc == crate::handlers::normal::texts(selected_colors@),
            nc == crate::handlers::normal::texts(normal_colors@),
            out@ == start + item_lines(term_width as nat, by as nat, selected as nat, sc, nc, k as nat),
        decreases 9 - k,
    {
        let ghost before = out@;
        let i = k / 3;
        let l = k % 3;
        let sel = i == selected;
        let w: usize = if i == 0 { 19 } else { 12 };
        push_cursor_to(&mut out, term_width.saturating_sub(w) / 2 + 1, by + 7 + k);
        if sel {
            push_str(&mut out, selected_colors[l].as_str());
        } else {
            push_str(&mut out, normal_colors[l].as_str());
        }
        push_str(&mut out, menu_art_str(i, l, sel));
        assert(out@ =~= before + item_line(term_width as nat, by as nat, selected as nat, sc, nc, k as nat));
        k = k + 1;
    }
    push_str(&mut out, "\x1b[0m");
    proof {
        reveal_strlit("\x1b[0m");
        assert("\x1b[0m"@ =~= seq!['\x1b', '[', '0', 'm']);
    }
    out
}

} // verus!
