//! The help overlay: its state, and a centred list of every binding that
//! has help text, grouped by category in table order. The box is sized
//! from the rows, then clamped to the terminal.

use vstd::prelude::*;

use crate::draw::box_drawing::{box_view_text, create_box, section_divider, section_divider_text, BoxConfig, BoxView};
use crate::draw::buffer::{cursor_to, push_cursor_to, push_reset, sgr_reset};
use crate::handlers::keybinds::{
    binding_rows, binding_table, bindings, category_rank, help_printable, lemma_help_categories_ordered,
    lemma_help_texts_printable, row_category, short_printable, BindingRow,
};
use crate::overlay::ReturnTarget;
use crate::text::push_str;
use crate::theme::Theme;
use crate::theme_keys::{color_index, HELP_BOX, HI_FG, MAIN_FG, TITLE};
use crate::tools::{display_len, ljust, ljust_text, lemma_printable_measures, ulen};

verus! {

/// State of the help overlay: where it returns on close.
#[derive(Debug, Clone, Copy, PartialEq, Eq, Structural)]
pub struct HelpState {
    pub return_to: ReturnTarget,
}

impl HelpState {
    /// Help that returns to `return_to` when closed.
    pub fn new(return_to: ReturnTarget) -> (r: Self)
        ensures
            r.return_to == return_to,
    {
        HelpState { return_to }
    }
}

/// Columns between the border and the text.
pub const SIDE_PAD: usize = 1;
/// Columns between the key column and the description column.
pub const KEY_DESC_GAP: usize = 2;
/// What a section divider needs beyond its name.
pub const DIVIDER_OVERHEAD: usize = 6;

/// One help line: key text, description, category.
#[derive(Debug, Clone, Copy)]
pub struct HelpRow {
    pub keys: &'static str,
    pub desc: &'static str,
    pub category: &'static str,
}

/// A help line as values: key text, description, category.
pub type HelpLine = (Seq<char>, Seq<char>, Seq<char>);

pub open spec fn help_line(r: HelpRow) -> HelpLine {
    (r.keys@, r.desc@, r.category@)
}

pub open spec fn help_lines_of(v: Seq<HelpRow>) -> Seq<HelpLine> {
    v.map_values(|r: HelpRow| help_line(r))
}

/// The help lines of a binding table: one per binding with help text, in
/// table order.
pub open spec fn help_lines_from(table: Seq<BindingRow>) -> Seq<HelpLine>
    decreases table.len(),
{
    if table.len() == 0 {
        Seq::empty()
    } else {
        let rest = help_lines_from(table.drop_last());
        match table.last().2 {
            Some(h) => rest.push((h.1, h.2, h.0)),
            None => rest,
        }
    }
}

/// Every binding with help text, as a help line, in table order.
pub fn help_rows() -> (r: Vec<HelpRow>)
    ensures
        help_lines_of(r@) == help_lines_from(binding_table()),
{
    let t = bindings();
    let mut rows: Vec<HelpRow> = Vec::new();
    let mut i: usize = 0;
    assert(binding_rows(t@).take(0) =~= Seq::<BindingRow>::empty());
    assert(help_lines_of(rows@) =~= Seq::<HelpLine>::empty());
    while i < t.len()
        invariant
            i <= t@.len(),
            binding_rows(t@) == binding_table(),
            help_lines_of(rows@) == help_lines_from(binding_rows(t@).take(i as int)),
        decreases t@.len() - i,
    {
        let ghost before = help_lines_of(rows@);
        assert(binding_rows(t@).take((i + 1) as int).drop_last() =~= binding_rows(t@).take(i as int));
        assert(binding_rows(t@).take((i + 1) as int).last() == binding_rows(t@)[i as int]);
        match t[i].help {
            Some(h) => {
                rows.push(HelpRow { keys: h.keys, desc: h.description, category: h.category });
                assert(help_lines_of(rows@) =~= before.push((h.keys@, h.description@, h.category@)));
            },
            None => {},
        }
        i = i + 1;
    }
    assert(binding_rows(t@).take(t@.len() as int) =~= binding_rows(t@));
    rows
}

/// Field `f` of a help line (0 keys, 1 description, 2 category).
pub open spec fn line_field(l: HelpLine, f: int) -> Seq<char> {
    if f == 0 { l.0 } else if f == 1 { l.1 } else { l.2 }
}

/// The widest display width of field `f` over `lines` (0 when empty).
pub open spec fn widest(lines: Seq<HelpLine>, f: int) -> nat
    decreases lines.len(),
{
    if lines.len() == 0 {
        0
    } else {
        let w = display_len(line_field(lines.last(), f));
        let r = widest(lines.drop_last(), f);
        if w > r { w } else { r }
    }
}

/// Number of category changes down `lines`, the first line counting as
/// one unless its category is empty.
pub open spec fn section_count(lines: Seq<HelpLine>) -> nat
    decreases lines.len(),
{
    if lines.len() == 0 {
        0
    } else {
        let prev = if lines.len() >= 2 { lines[lines.len() - 2].2 } else { Seq::empty() };
        section_count(lines.drop_last()) + (if lines.last().2 != prev { 1nat } else { 0nat })
    }
}

/// Width the help box needs: borders around the wider of the key and
/// description columns (with padding and gap) and the longest divider.
pub open spec fn help_width(lines: Seq<HelpLine>) -> nat {
    let content = 2 * SIDE_PAD + widest(lines, 0) + KEY_DESC_GAP + widest(lines, 1);
    let divider = widest(lines, 2) + DIVIDER_OVERHEAD;
    (2 + (if content >= divider { content } else { divider })) as nat
}

/// Height the help box needs: borders, one divider per section, one row
/// per line.
pub open spec fn help_height(lines: Seq<HelpLine>) -> nat {
    2 + section_count(lines) + lines.len()
}

/// Whether every field of every line is short printable ASCII.
pub open spec fn lines_printable(lines: Seq<HelpLine>) -> bool {
    forall|i: int| #![trigger lines[i]] 0 <= i < lines.len() ==> short_printable(lines[i].0) && short_printable(lines[i].1) && short_printable(lines[i].2)
}

proof fn lemma_help_lines_printable(table: Seq<BindingRow>)
    requires
        forall|i: int| 0 <= i < table.len() ==> help_printable(#[trigger] table[i].2),
    ensures
        lines_printable(help_lines_from(table)),
        help_lines_from(table).len() <= table.len(),
    decreases table.len(),
{
    if table.len() > 0 {
        let d = table.drop_last();
        assert forall|i: int| 0 <= i < d.len() implies help_printable(#[trigger] d[i].2) by {
            assert(d[i] == table[i]);
        }
        lemma_help_lines_printable(d);
        assert(help_printable(table[table.len() - 1].2));
    }
}

/// The widest field `f`, measured.
fn widest_of(rows: &Vec<HelpRow>, f: u8) -> (w: usize)
    requires
        f < 3,
        lines_printable(help_lines_of(rows@)),
    ensures
        w == widest(help_lines_of(rows@), f as int),
        w <= 64,
        forall|j: int| 0 <= j < rows@.len() ==> #[trigger] display_len(line_field(help_lines_of(rows@)[j], f as int))
            == line_field(help_lines_of(rows@)[j], f as int).len(),
        forall|j: int| 0 <= j < rows@.len() ==> display_len(line_field(#[trigger] help_lines_of(rows@)[j], f as int)) <= w,
{
    let ghost lines = help_lines_of(rows@);
    let mut w: usize = 0;
    let mut i: usize = 0;
    assert(lines.take(0) =~= Seq::<HelpLine>::empty());
    while i < rows.len()
        invariant
            i <= rows@.len(),
            f < 3,
            lines == help_lines_of(rows@),
            lines_printable(lines),
            w == widest(lines.take(i as int), f as int),
            w <= 64,
            forall|j: int| 0 <= j < i ==> #[trigger] display_len(line_field(lines[j], f as int)) == line_field(lines[j], f as int).len(),
            forall|j: int| 0 <= j < i ==> display_len(line_field(#[trigger] lines[j], f as int)) <= w,
        decreases rows@.len() - i,
    {
        let r = rows[i];
        let s = if f == 0 { r.keys } else if f == 1 { r.desc } else { r.category };
        assert(lines[i as int] == help_line(r));
        assert(short_printable(lines[i as int].0) && short_printable(lines[i as int].1) && short_printable(lines[i as int].2));
        assert(short_printable(line_field(lines[i as int], f as int)));
        let x = ulen(s, false);
        assert(lines.take((i + 1) as int).drop_last() =~= lines.take(i as int));
        if x > w {
            w = x;
        }
        i = i + 1;
    }
    assert(lines.take(rows@.len() as int) =~= lines);
    w
}

/// The box size the lines need, as [`help_width`] and [`help_height`].
pub fn dimensions(rows: &Vec<HelpRow>) -> (r: (usize, usize))
    requires
        lines_printable(help_lines_of(rows@)),
        rows@.len() < usize::MAX / 4,
    ensures
        r.0 == help_width(help_lines_of(rows@)),
        r.1 == help_height(help_lines_of(rows@)),
        r.0 <= 300,
        r.1 <= 2 + 2 * rows@.len(),
{
    let ghost lines = help_lines_of(rows@);
    let key_col = widest_of(rows, 0);
    let desc_col = widest_of(rows, 1);
    let longest_section = widest_of(rows, 2);
    let content_width = 2 * SIDE_PAD + key_col + KEY_DESC_GAP + desc_col;
    let divider_width = longest_section + DIVIDER_OVERHEAD;
    let width = 2 + if content_width >= divider_width { content_width } else { divider_width };
    let mut sections: usize = 0;
    let mut i: usize = 0;
    assert(lines.take(0) =~= Seq::<HelpLine>::empty());
    while i < rows.len()
        invariant
            i <= rows@.len(),
            rows@.len() < usize::MAX / 4,
            lines == help_lines_of(rows@),
            sections == section_count(lines.take(i as int)),
            sections <= i,
        decreases rows@.len() - i,
    {
        let changed = if i == 0 { rows[i].category.unicode_len() != 0 } else { !crate::text::str_eq(rows[i].category, rows[i - 1].category) };
        assert(lines.take((i + 1) as int).drop_last() =~= lines.take(i as int));
        proof {
            assert(lines[i as int] == help_line(rows@[i as int]));
            assert(lines.take((i + 1) as int).last() == lines[i as int]);
            if i == 0 && rows@[0].category@.len() == 0 {
                assert(rows@[0].category@ =~= Seq::<char>::empty());
            }
            if i > 0 {
                assert(lines.take((i + 1) as int)[i - 1] == lines[i - 1]);
                assert(lines[i - 1] == help_line(rows@[i - 1]));
            }
        }
        if changed {
            sections = sections + 1;
        }
        i = i + 1;
    }
    assert(lines.take(rows@.len() as int) =~= lines);
    (width, 2 + sections + rows.len())
}

/// Where the help rows go: the box's left column, the last writable
/// row, the divider width, the key and description columns, and the
/// colours.
pub struct HelpLayout {
    pub x: nat,
    pub bottom: nat,
    pub divider_width: nat,
    pub key_x: nat,
    pub key_col: nat,
    pub desc_x: nat,
    pub border: Seq<char>,
    pub title: Seq<char>,
    pub hi: Seq<char>,
    pub fg: Seq<char>,
}

/// One help line drawn on `row`: the key text left-justified in the key
/// column, then the description.
pub open spec fn help_entry(l: HelpLine, row: nat, p: HelpLayout) -> Seq<char> {
    cursor_to(p.key_x, row) + p.hi + ljust_text(l.0, p.key_col, false) + cursor_to(p.desc_x, row) + p.fg + l.1
}

/// Lines `i..` drawn from `row` down, a divider before each new
/// category; drawing stops at the first line or divider past the
/// bottom row.
pub open spec fn help_body(lines: Seq<HelpLine>, i: nat, row: nat, current: Seq<char>, p: HelpLayout) -> Seq<char>
    decreases lines.len() - i,
{
    if i >= lines.len() || row > p.bottom {
        Seq::empty()
    } else {
        let l = lines[i as int];
        if l.2 != current {
            let divider = cursor_to(p.x + 1, row) + section_divider_text(l.2, p.divider_width, p.border, p.title);
            if row + 1 > p.bottom {
                divider
            } else {
                divider + help_entry(l, row + 1, p) + help_body(lines, i + 1, row + 2, l.2, p)
            }
        } else {
            help_entry(l, row, p) + help_body(lines, i + 1, row + 1, current, p)
        }
    }
}

/// The help overlay for a terminal `tw` by `th` cells: the box (sized
/// from the lines, clamped to the terminal, centred) titled `help`, the
/// lines, and a reset.
pub open spec fn help_overlay(lines: Seq<HelpLine>, tw: nat, th: nat, rounded: bool, hi: Seq<char>, title: Seq<char>, fg: Seq<char>, border: Seq<char>) -> Seq<char> {
    let w = if help_width(lines) <= tw { help_width(lines) } else { tw };
    let h = if help_height(lines) <= th { help_height(lines) } else { th };
    let x = ((tw - w) / 2) as nat;
    let y = ((th - h) / 2) as nat;
    let frame = BoxView {
        x, y, width: w, height: h, line_color: border, fill: true,
        title: seq!['h', 'e', 'l', 'p'], title2: Seq::empty(), num: 0, rounded, hi_color: hi, title_color: title,
    };
    let key_x = (x + 2 + SIDE_PAD) as nat;
    let p = HelpLayout {
        x,
        bottom: (y + (if h >= 1 { h - 1 } else { 0 })) as nat,
        divider_width: if w >= 2 { (w - 2) as nat } else { 0 },
        key_x,
        key_col: widest(lines, 0),
        desc_x: (key_x + widest(lines, 0) + KEY_DESC_GAP) as nat,
        border,
        title,
        hi,
        fg,
    };
    box_view_text(frame) + help_body(lines, 0, y + 2, Seq::empty(), p) + sgr_reset()
}

/// Renders the help overlay from the keybind table, in the theme's
/// colours.
pub fn render(state: &HelpState, term_width: usize, term_height: usize, rounded: bool, theme: &Theme) -> (r: String)
    requires
        theme.wf(),
        term_width < usize::MAX / 2,
        term_height < usize::MAX / 2,
    ensures
        r@ == help_overlay(help_lines_from(binding_table()), term_width as nat, term_height as nat, rounded,
            theme.color_spec(color_index(HI_FG) as int), theme.color_spec(color_index(TITLE) as int),
            theme.color_spec(color_index(MAIN_FG) as int), theme.color_spec(color_index(HELP_BOX) as int)),
{
    let rows = help_rows();
    proof {
        lemma_help_texts_printable();
        lemma_help_lines_printable(binding_table());
    }
    render_lines(&rows, term_width, term_height, rounded, theme)
}

/// Renders a help box of `rows` (short printable text), sized from them
/// and clamped to the terminal, in the theme's colours.
pub fn render_lines(rows: &Vec<HelpRow>, term_width: usize, term_height: usize, rounded: bool, theme: &Theme) -> (r: String)
    requires
        theme.wf(),
        term_width < usize::MAX / 2,
        term_height < usize::MAX / 2,
        lines_printable(help_lines_of(rows@)),
        rows@.len() < usize::MAX / 4,
    ensures
        r@ == help_overlay(help_lines_of(rows@), term_width as nat, term_height as nat, rounded,
            theme.color_spec(color_index(HI_FG) as int), theme.color_spec(color_index(TITLE) as int),
            theme.color_spec(color_index(MAIN_FG) as int), theme.color_spec(color_index(HELP_BOX) as int)),
{
    let ghost lines = help_lines_of(rows@);
    let (pw, ph) = dimensions(rows);
    let w = if pw <= term_width { pw } else { term_width };
    let h = if ph <= term_height { ph } else { term_height };
    let x = (term_width - w) / 2;
    let y = (term_height - h) / 2;
    let hi = theme.color(HI_FG);
    let title_c = theme.color(TITLE);
    let fg = theme.color(MAIN_FG);
    let help_c = theme.color(HELP_BOX);
    proof {
        reveal_strlit("help");
        reveal_strlit("");
        assert("help"@ =~= seq!['h', 'e', 'l', 'p']);
    }
    let cfg = BoxConfig {
        x,
        y,
        width: w,
        height: h,
        line_color: help_c,
        fill: true,
        title: "help",
        title2: "",
        num: 0,
        rounded,
        hi_color: hi,
        title_color: title_c,
    };
    let mut out = create_box(&cfg);
    let inner_bottom = y + if h >= 1 { h - 1 } else { 0 };
    let divider_w = if w >= 2 { w - 2 } else { 0 };
    let key_col = widest_of(rows, 0);
    assert forall|j: int| 0 <= j < rows@.len() implies (#[trigger] lines[j]).0.len() <= key_col by {
        assert(display_len(line_field(help_lines_of(rows@)[j], 0)) == line_field(help_lines_of(rows@)[j], 0).len());
        assert(display_len(line_field(help_lines_of(rows@)[j], 0)) <= key_col);
    }
    let key_x = x + 2 + SIDE_PAD;
    let desc_x = key_x + key_col + KEY_DESC_GAP;
    let ghost p = HelpLayout {
        x: x as nat,
        bottom: inner_bottom as nat,
        divider_width: divider_w as nat,
        key_x: key_x as nat,
        key_col: key_col as nat,
        desc_x: desc_x as nat,
        border: help_c@,
        title: title_c@,
        hi: hi@,
        fg: fg@,
    };
    let ghost head = out@;
    let mut row = y + 2;
    let mut current: &str = "";
    assert(current@ =~= Seq::<char>::empty());
    assert(out@ + help_body(lines, 0, row as nat, current@, p) == head + help_body(lines, 0, (y + 2) as nat, Seq::empty(), p));
    let mut i: usize = 0;
    let mut stopped = false;
    while i < rows.len() && !stopped
        invariant
            i <= rows@.len(),
            lines == help_lines_of(rows@),
            lines_printable(lines),
            rows@.len() < usize::MAX / 4,
            row <= inner_bottom + 2,
            inner_bottom < usize::MAX / 2 + 2,
            x <= term_width / 2,
            term_width < usize::MAX / 2,
            key_col <= 64,
            forall|j: int| 0 <= j < rows@.len() ==> (#[trigger] lines[j]).0.len() <= key_col,
            desc_x == key_x + key_col + KEY_DESC_GAP,
            key_x < usize::MAX / 2 + 8,
            p.bottom == inner_bottom,
            p.key_col == key_col,
            p.key_x == key_x,
            p.desc_x == desc_x,
            p.x == x,
            p.divider_width == divider_w,
            p.border == help_c@,
            p.title == title_c@,
            p.hi == hi@,
            p.fg == fg@,
            key_col == widest(lines, 0),
            stopped ==> out@ == head + help_body(lines, 0, (y + 2) as nat, Seq::empty(), p),
            !stopped ==> head + help_body(lines, 0, (y + 2) as nat, Seq::empty(), p)
                == out@ + help_body(lines, i as nat, row as nat, current@, p),
        decreases rows@.len() - i + (if stopped { 0int } else { 1int }),
    {
        let hr = rows[i];
        assert(lines[i as int] == help_line(hr));
        let ghost before = out@;
        if row > inner_bottom {
            stopped = true;
            assert(out@ + Seq::<char>::empty() =~= out@);
        } else if !crate::text::str_eq(hr.category, current) {
            proof {
                assert(short_printable(lines[i as int].0) && short_printable(lines[i as int].1) && short_printable(lines[i as int].2));
                lemma_printable_measures(hr.category@);
            }
            push_cursor_to(&mut out, x + 1, row);
            let div = section_divider(hr.category, divider_w, help_c, title_c);
            push_str(&mut out, div.as_str());
            if row + 1 > inner_bottom {
                stopped = true;
                assert(out@ =~= before + (cursor_to((x + 1) as nat, row as nat) + section_divider_text(hr.category@, divider_w as nat, help_c@, title_c@)));
            } else {
                self::push_entry(&mut out, hr, row + 1, key_x, key_col, desc_x, hi, fg);
                proof {
                    assert(help_body(lines, i as nat, row as nat, current@, p) == (cursor_to((x + 1) as nat, row as nat) + section_divider_text(hr.category@, divider_w as nat, help_c@, title_c@)) + help_entry(lines[i as int], (row + 1) as nat, p) + help_body(lines, (i + 1) as nat, (row + 2) as nat, hr.category@, p));
                    assert(out@ + help_body(lines, (i + 1) as nat, (row + 2) as nat, hr.category@, p) =~= before + help_body(lines, i as nat, row as nat, current@, p));
                }
                current = hr.category;
                row = row + 2;
                i = i + 1;
            }
        } else {
            self::push_entry(&mut out, hr, row, key_x, key_col, desc_x, hi, fg);
            proof {
                assert(out@ + help_body(lines, (i + 1) as nat, (row + 1) as nat, current@, p) =~= before + help_body(lines, i as nat, row as nat, current@, p));
            }
            row = row + 1;
            i = i + 1;
        }
    }
    proof {
        if !stopped {
            assert(help_body(lines, i as nat, row as nat, current@, p) == Seq::<char>::empty());
            assert(out@ + Seq::<char>::empty() =~= out@);
        }
    }
    push_reset(&mut out);
    out
}

fn push_entry(out: &mut String, hr: HelpRow, row: usize, key_x: usize, key_col: usize, desc_x: usize, hi: &str, fg: &str)
    requires
        short_printable(hr.keys@),
        key_col >= hr.keys@.len(),
    ensures
        final(out)@ == old(out)@ + (cursor_to(key_x as nat, row as nat) + hi@ + ljust_text(hr.keys@, key_col as nat, false)
            + cursor_to(desc_x as nat, row as nat) + fg@ + hr.desc@),
{
    proof {
        lemma_printable_measures(hr.keys@);
    }
    push_cursor_to(out, key_x, row);
    push_str(out, hi);
    let k = ljust(hr.keys, key_col, false);
    push_str(out, k.as_str());
    push_cursor_to(out, desc_x, row);
    push_str(out, fg);
    push_str(out, hr.desc);
    assert(final(out)@ =~= old(out)@ + (cursor_to(key_x as nat, row as nat) + hi@ + ljust_text(hr.keys@, key_col as nat, false)
            + cursor_to(desc_x as nat, row as nat) + fg@ + hr.desc@));
}

/// Whether the lines of each category form one block: no category comes
/// back after another one started.
pub open spec fn categories_contiguous(lines: Seq<HelpLine>) -> bool {
    forall|i: int, j: int, k: int|
        #![trigger lines[i], lines[j], lines[k]]
        0 <= i < j < k < lines.len() && lines[i].2 == lines[k].2 ==> lines[j].2 == lines[i].2
}

proof fn lemma_lines_bounded(t: Seq<BindingRow>, bound: int)
    requires
        forall|a: int| 0 <= a < t.len() && (#[trigger] t[a]).2 is Some ==> category_rank(row_category(t[a])) <= bound,
    ensures
        forall|i: int| 0 <= i < help_lines_from(t).len() ==> category_rank((#[trigger] help_lines_from(t)[i]).2) <= bound,
    decreases t.len(),
{
    if t.len() > 0 {
        let rest = t.drop_last();
        assert forall|a: int| 0 <= a < rest.len() && (#[trigger] rest[a]).2 is Some implies category_rank(row_category(rest[a])) <= bound by {
            assert(rest[a] == t[a]);
        }
        lemma_lines_bounded(rest, bound);
        let last = t.len() - 1;
        assert(t.last() == t[last]);
        let lines = help_lines_from(t);
        let prev = help_lines_from(rest);
        if t[last].2 is Some {
            let h = t[last].2->0;
            assert(lines == prev.push((h.1, h.2, h.0)));
            assert forall|i: int| 0 <= i < lines.len() implies category_rank((#[trigger] lines[i]).2) <= bound by {
                if i < prev.len() {
                    assert(lines[i] == prev[i]);
                } else {
                    assert(lines[i].2 == row_category(t[last]));
                }
            }
        } else {
            assert(lines == prev);
        }
    }
}

proof fn lemma_lines_sorted(t: Seq<BindingRow>)
    requires
        forall|a: int, b: int|
            0 <= a < b < t.len() && (#[trigger] t[a]).2 is Some && (#[trigger] t[b]).2 is Some
                ==> category_rank(row_category(t[a])) <= category_rank(row_category(t[b])),
    ensures
        forall|i: int, j: int|
            0 <= i < j < help_lines_from(t).len()
                ==> category_rank((#[trigger] help_lines_from(t)[i]).2) <= category_rank((#[trigger] help_lines_from(t)[j]).2),
    decreases t.len(),
{
    if t.len() > 0 {
        let rest = t.drop_last();
        let last = t.len() - 1;
        assert(t.last() == t[last]);
        assert forall|a: int, b: int|
            0 <= a < b < rest.len() && (#[trigger] rest[a]).2 is Some && (#[trigger] rest[b]).2 is Some
                implies category_rank(row_category(rest[a])) <= category_rank(row_category(rest[b])) by {
            assert(rest[a] == t[a] && rest[b] == t[b]);
        }
        lemma_lines_sorted(rest);
        if t[last].2 is Some {
            let r = category_rank(row_category(t[last]));
            assert forall|a: int| 0 <= a < rest.len() && (#[trigger] rest[a]).2 is Some implies category_rank(row_category(rest[a])) <= r by {
                assert(rest[a] == t[a]);
                assert(t[a].2 is Some && t[last].2 is Some);
            }
            lemma_lines_bounded(rest, r);
            let lines = help_lines_from(t);
            let prev = help_lines_from(rest);
            let h = t[last].2->0;
            assert(lines == prev.push((h.1, h.2, h.0)));
            assert forall|i: int, j: int| 0 <= i < j < lines.len()
                implies category_rank((#[trigger] lines[i]).2) <= category_rank((#[trigger] lines[j]).2) by {
                if j == lines.len() - 1 {
                    assert(lines[i] == prev[i]);
                    assert(lines[j].2 == row_category(t[last]));
                } else {
                    assert(lines[i] == prev[i] && lines[j] == prev[j]);
                }
            }
        } else {
            assert(help_lines_from(t) == help_lines_from(rest));
        }
    }
}

/// The help screen lists each category's keys in one block, in the
/// order the categories first appear: no category comes back after
/// another one started.
pub proof fn lemma_help_groups_contiguous()
    ensures
        categories_contiguous(help_lines_from(binding_table())),
{
    lemma_help_categories_ordered();
    let t = binding_table();
    lemma_lines_sorted(t);
    lemma_lines_bounded(t, 3);
    let lines = help_lines_from(t);
    assert forall|i: int, j: int, k: int|
        #![trigger lines[i], lines[j], lines[k]]
        0 <= i < j < k < lines.len() && lines[i].2 == lines[k].2 implies lines[j].2 == lines[i].2 by {
        let ri = category_rank(lines[i].2);
        let rj = category_rank(lines[j].2);
        let rk = category_rank(lines[k].2);
        assert(ri <= rj && rj <= rk && rk <= 3);
        assert(rj == ri);
    }
}

} // verus!
