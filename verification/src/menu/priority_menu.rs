//! The priority class picker: the six classes in a small centred frame,
//! the selected one marked.

use vstd::prelude::*;

use crate::domain::process::{priority_name, PriorityClass};
use crate::draw::box_drawing::{box_view, box_view_text, create_box, BoxConfig};
use crate::draw::buffer::{cursor_to, push_cursor_to};
use crate::menu::msg_box::{min_nat, plain_frame, sat_sub};
use crate::text::push_str;

verus! {

/// The classes in the order the menu lists them.
pub open spec fn priority_classes() -> Seq<PriorityClass> {
    seq![
        PriorityClass::Idle,
        PriorityClass::BelowNormal,
        PriorityClass::Normal,
        PriorityClass::AboveNormal,
        PriorityClass::High,
        PriorityClass::Realtime,
    ]
}

/// Row `i` of the menu: `> ` before the selected class, two spaces before
/// the others.
pub open spec fn class_line(x: nat, y: nat, selected: nat, i: nat) -> Seq<char> {
    cursor_to(x + 2, y + 2 + i) + (if i == selected { "> "@ } else { "  "@ }) + priority_name(priority_classes()[i as int])
}

/// The first `n` rows of the menu.
pub open spec fn class_lines(x: nat, y: nat, selected: nat, n: nat) -> Seq<char>
    decreases n,
{
    if n == 0 {
        Seq::empty()
    } else {
        class_lines(x, y, selected, (n - 1) as nat) + class_line(x, y, selected, (n - 1) as nat)
    }
}

/// The menu on a `tw` x `th` terminal: a frame of at most 30 x 10
/// titled `priority`, centred, with one row per class.
pub open spec fn priority_menu_text(tw: nat, th: nat, selected: nat) -> Seq<char> {
    let w = min_nat(30, tw);
    let h = min_nat(10, th);
    let x = sat_sub(tw, w) / 2;
    let y = sat_sub(th, h) / 2;
    box_view_text(plain_frame(x, y, w, h, "priority"@)) + class_lines(x, y, selected, 6)
}

/// Draws the priority class picker with row `selected` marked.
pub fn draw(term_width: usize, term_height: usize, selected: usize) -> (r: String)
    requires
        term_width < usize::MAX / 2,
        term_height < usize::MAX / 2,
    ensures
        r@ == priority_menu_text(term_width as nat, term_height as nat, selected as nat),
{
    let classes = [
        PriorityClass::Idle,
        PriorityClass::BelowNormal,
        PriorityClass::Normal,
        PriorityClass::AboveNormal,
        PriorityClass::High,
        PriorityClass::Realtime,
    ];
    let w = if 30 <= term_width { 30 } else { term_width };
    let h = if 10 <= term_height { 10 } else { term_height };
    let x = term_width.saturating_sub(w) / 2;
    let y = term_height.saturating_sub(h) / 2;
    let cfg = BoxConfig {
        x,
        y,
        width: w,
        height: h,
        line_color: "",
        fill: true,
        title: "priority",
        title2: "",
        num: 0,
        rounded: true,
        hi_color: "",
        title_color: "",
    };
    proof {
        reveal_strlit("");
        assert(""@ =~= Seq::<char>::empty());
    }
    let mut out = create_box(&cfg);
    assert(box_view(cfg) == plain_frame(x as nat, y as nat, w as nat, h as nat, "priority"@));
    let ghost start = out@;
    let mut i: usize = 0;
    while i < 6
        invariant
            i <= 6,
            x + 32 < usize::MAX,
            y + 16 < usize::MAX,
            classes@ == priority_classes(),
            out@ == start + class_lines(x as nat, y as nat, selected as nat, i as nat),
        decreases 6 - i,
    {
        let ghost before = out@;
        push_cursor_to(&mut out, x + 2, y + 2 + i);
        let prefix = if i == selected { "> " } else { "  " };
        push_str(&mut out, prefix);
        let name = classes[i].to_string();
        push_str(&mut out, name.as_str());
        assert(out@ =~= before + class_line(x as nat, y as nat, selected as nat, i as nat));
        i = i + 1;
    }
    out
}

} // verus!
