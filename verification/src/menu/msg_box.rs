//! A modal message box: a titled frame centred on the screen, one line
//! of message and a row of buttons.

use vstd::prelude::*;

use crate::draw::box_drawing::{box_view_text, create_box, BoxConfig, BoxView};
use crate::draw::buffer::{cursor_to, push_cursor_to};
use crate::text::push_str;
use crate::tools::{fitted, printable_ascii, ulen, uresize};

verus! {

/// Which buttons a message box offers: a lone `[OK]`, or yes / no.
#[derive(Debug, Clone, Copy, PartialEq, Eq, Structural)]
pub enum MsgBoxStyle {
    OkOnly,
    YesNo,
}

/// The button row of `style`.
pub open spec fn buttons_text(style: MsgBoxStyle) -> Seq<char> {
    match style {
        MsgBoxStyle::OkOnly => "[OK]"@,
        MsgBoxStyle::YesNo => "[Y] Yes  [N] No"@,
    }
}

/// `a - b`, stopping at zero.
pub open spec fn sat_sub(a: nat, b: nat) -> nat {
    if a >= b { (a - b) as nat } else { 0 }
}

/// The smaller of two naturals.
pub open spec fn min_nat(a: nat, b: nat) -> nat {
    if a <= b { a } else { b }
}

/// A plain filled frame with rounded corners, titled `title`, in the
/// terminal's own colours.
pub open spec fn plain_frame(x: nat, y: nat, w: nat, h: nat, title: Seq<char>) -> BoxView {
    BoxView {
        x,
        y,
        width: w,
        height: h,
        line_color: Seq::empty(),
        fill: true,
        title,
        title2: Seq::empty(),
        num: 0,
        rounded: true,
        hi_color: Seq::empty(),
        title_color: Seq::empty(),
    }
}

/// The message box on a `tw` x `th` terminal: at most 50 x 8, centred;
/// the message, cut to the inner width less two, on its third row; the
/// buttons centred on its last inner row.
pub open spec fn msg_box_text(tw: nat, th: nat, title: Seq<char>, message: Seq<char>, style: MsgBoxStyle) -> Seq<char> {
    let w = min_nat(50, tw);
    let h = min_nat(8, th);
    let x = sat_sub(tw, w) / 2;
    let y = sat_sub(th, h) / 2;
    let b = buttons_text(style);
    box_view_text(plain_frame(x, y, w, h, title))
        + cursor_to(x + 2, y + 3) + fitted(message, sat_sub(w, 4))
        + cursor_to(x + sat_sub(w, b.len()) / 2, (y + h - 2) as nat) + b
}

/// Draws a message box centred on a `term_width` x `term_height`
/// terminal (at least two rows, for the button row).
pub fn draw(term_width: usize, term_height: usize, title: &str, message: &str, style: MsgBoxStyle) -> (r: String)
    requires
        term_height >= 2,
        term_width < usize::MAX / 2,
        term_height < usize::MAX / 2,
    ensures
        r@ == msg_box_text(term_width as nat, term_height as nat, title@, message@, style),
{
    let w = if 50 <= term_width { 50 } else { term_width };
    let h = if 8 <= term_height { 8 } else { term_height };
    let x = term_width.saturating_sub(w) / 2;
    let y = term_height.saturating_sub(h) / 2;
    let cfg = BoxConfig {
        x,
        y,
        width: w,
        height: h,
        line_color: "",
        fill: true,
        title,
        title2: "",
        num: 0,
        rounded: true,
        hi_color: "",
        title_color: "",
    };
    proof {
        reveal_strlit("");
        assert(""@ =~= Seq::<char>::empty());
    }
    let mut out = create_box(&cfg);
    assert(crate::draw::box_drawing::box_view(cfg) == plain_frame(x as nat, y as nat, w as nat, h as nat, title@));
    push_cursor_to(&mut out, x + 2, y + 3);
    let msg = uresize(message, w.saturating_sub(4), false);
    push_str(&mut out, msg.as_str());
    let buttons = match style {
        MsgBoxStyle::OkOnly => "[OK]",
        MsgBoxStyle::YesNo => "[Y] Yes  [N] No",
    };
    proof {
        reveal_strlit("[OK]");
        reveal_strlit("[Y] Yes  [N] No");
        assert(printable_ascii(buttons@));
    }
    let bx = x + w.saturating_sub(ulen(buttons, false)) / 2;
    push_cursor_to(&mut out, bx, y + h - 2);
    push_str(&mut out, buttons);
    out
}

} // verus!
