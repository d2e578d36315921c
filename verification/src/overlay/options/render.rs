//! The options menu's categories and paging arithmetic.

use vstd::prelude::*;

use crate::config::{BoolKey, ConfigKey, EnumKey, IntKey, StringKey};
use crate::text::{chars_of, push_char, push_str};

verus! {

/// How an option is edited.
#[derive(Clone, Copy, PartialEq, Eq, Debug, Structural)]
pub enum OptKind {
    Bool,
    Int,
    /// Cycles through a fixed list of choices.
    Browsable,
    /// Free-form text.
    StringVal,
}

/// Whether `key` is browsed through a fixed list of choices: every
/// enumeration, and of the strings only the colour theme (chosen among
/// the themes there are).
pub open spec fn browsable(key: ConfigKey) -> bool {
    match key {
        ConfigKey::Enum(_) => true,
        ConfigKey::String(k) => k == StringKey::ColorTheme,
        _ => false,
    }
}

/// How `key` is edited: booleans toggle, integers step, browsable
/// options cycle, other strings are typed.
pub open spec fn opt_kind_of(key: ConfigKey) -> OptKind {
    match key {
        ConfigKey::Bool(_) => OptKind::Bool,
        ConfigKey::Int(_) => OptKind::Int,
        _ => if browsable(key) { OptKind::Browsable } else { OptKind::StringVal },
    }
}

/// How `key` is edited (see [`opt_kind_of`]).
pub fn opt_kind(key: ConfigKey) -> (r: OptKind)
    ensures
        r == opt_kind_of(key),
{
    match key {
        ConfigKey::Bool(_) => OptKind::Bool,
        ConfigKey::Int(_) => OptKind::Int,
        ConfigKey::Enum(_) => OptKind::Browsable,
        ConfigKey::String(StringKey::ColorTheme) => OptKind::Browsable,
        ConfigKey::String(_) => OptKind::StringVal,
    }
}

/// One category tab of the options menu: its name, the letter that jumps
/// to it, and its options.
pub struct Category {
    pub name: &'static str,
    pub hotkey: char,
    pub options: Vec<ConfigKey>,
}

/// Underline on, as text.
pub open spec fn underline_on() -> Seq<char> {
    seq!['\x1b', '[', '4', 'm']
}

/// Underline off, as text.
pub open spec fn underline_off() -> Seq<char> {
    seq!['\x1b', '[', '2', '4', 'm']
}

/// Column `pos` of an edit window: the buffer's character there (a space
/// past its end), underlined at the cursor.
pub open spec fn edit_cell(buffer: Seq<char>, cursor: nat, pos: nat) -> Seq<char> {
    let ch = if pos < buffer.len() { buffer[pos as int] } else { ' ' };
    if pos == cursor { underline_on() + seq![ch] + underline_off() } else { seq![ch] }
}

/// The first `n` columns of an edit window starting at `scroll`.
pub open spec fn edit_cells(buffer: Seq<char>, cursor: nat, scroll: nat, n: nat) -> Seq<char>
    decreases n,
{
    if n == 0 {
        Seq::empty()
    } else {
        edit_cells(buffer, cursor, scroll, (n - 1) as nat) + edit_cell(buffer, cursor, scroll + (n - 1) as nat)
    }
}

/// First buffer position shown: 0 while the cursor is inside the first
/// `width` columns (or the buffer fits), else so that the cursor lands
/// on the last column.
pub open spec fn edit_scroll(len: nat, cursor: nat, width: nat) -> nat {
    if len <= width || cursor < width { 0 } else { (cursor + 1 - width) as nat }
}

/// A `width`-column window on `buffer` for inline editing, the cursor
/// underlined.
pub open spec fn edit_window(buffer: Seq<char>, cursor: nat, width: nat) -> Seq<char> {
    edit_cells(buffer, cursor, edit_scroll(buffer.len(), cursor, width), width)
}

proof fn lemma_edit_cells_len(buffer: Seq<char>, cursor: nat, scroll: nat, n: nat)
    ensures
        edit_cells(buffer, cursor, scroll, n).len()
            == n + (if scroll <= cursor < scroll + n { underline_on().len() + underline_off().len() } else { 0 }),
    decreases n,
{
    if n > 0 {
        lemma_edit_cells_len(buffer, cursor, scroll, (n - 1) as nat);
    }
}

/// The edit window is `width` cells wide, plus the underline markers
/// around the cursor's cell, which the scrolling keeps inside the window
/// (unless the whole buffer fits and the cursor sits just past the last
/// column).
pub proof fn lemma_edit_window_width(buffer: Seq<char>, cursor: nat, width: nat)
    requires
        width > 0,
        cursor <= buffer.len(),
        cursor < width || buffer.len() > width,
    ensures
        edit_window(buffer, cursor, width).len() == width + underline_on().len() + underline_off().len(),
{
    let scroll = edit_scroll(buffer.len(), cursor, width);
    lemma_edit_cells_len(buffer, cursor, scroll, width);
    assert(scroll <= cursor && cursor < scroll + width);
    assert(edit_window(buffer, cursor, width) == edit_cells(buffer, cursor, scroll, width));
}

/// Renders `buffer` as a `width`-character window for inline editing,
/// the cursor (a character index) underlined; the window scrolls to keep
/// the cursor on screen.
pub fn render_edit_value(buffer: &str, cursor: usize, width: usize) -> (r: String)
    ensures
        r@ == edit_window(buffer@, cursor as nat, width as nat),
{
    let chars = chars_of(buffer);
    let cc = chars.len();
    let scroll: u128 = if cc <= width || cursor < width { 0 } else { cursor as u128 + 1 - width as u128 };
    let mut out = String::new();
    let mut col: usize = 0;
    while col < width
        invariant
            col <= width,
            chars@ == buffer@,
            cc == chars@.len(),
            scroll == edit_scroll(buffer@.len(), cursor as nat, width as nat),
            out@ == edit_cells(buffer@, cursor as nat, scroll as nat, col as nat),
        decreases width - col,
    {
        let pos: u128 = scroll + col as u128;
        let ch = if pos < cc as u128 { chars[pos as usize] } else { ' ' };
        let ghost before = out@;
        assert(ch == (if pos < buffer@.len() { buffer@[pos as int] } else { ' ' }));
        if pos == cursor as u128 {
            proof {
                reveal_strlit("\x1b[4m");
                reveal_strlit("\x1b[24m");
                assert(crate::term::UNDERLINE@ =~= underline_on());
                assert(crate::term::UNDERLINE_OFF@ =~= underline_off());
            }
            push_str(&mut out, crate::term::UNDERLINE);
            push_char(&mut out, ch);
            push_str(&mut out, crate::term::UNDERLINE_OFF);
        } else {
            push_char(&mut out, ch);
        }
        assert(out@ =~= before + edit_cell(buffer@, cursor as nat, pos as nat));
        col = col + 1;
        assert(out@ =~= edit_cells(buffer@, cursor as nat, scroll as nat, col as nat));
    }
    out
}

/// Number of categories.
pub const CATEGORY_COUNT: usize = 8;

/// Cells between adjacent tab-bar cells.
pub const INTER_TAB_GAP: usize = 2;

/// The hotkey of each category, in tab order.
pub open spec fn category_hotkey(i: int) -> char {
    if i == 0 { 'r' }
    else if i == 1 { 's' }
    else if i == 2 { 'c' }
    else if i == 3 { 'm' }
    else if i == 4 { 'n' }
    else if i == 5 { 'p' }
    else if i == 6 { 'g' }
    else { 'd' }
}

/// The name of each category, in tab order.
pub open spec fn category_name(i: int) -> Seq<char> {
    if i == 0 { seq!['g', 'e', 'n', 'e', 'r', 'a', 'l'] }
    else if i == 1 { seq!['s', 't', 'a', 't', 'u', 's', 'b', 'a', 'r'] }
    else if i == 2 { seq!['c', 'p', 'u'] }
    else if i == 3 { seq!['m', 'e', 'm'] }
    else if i == 4 { seq!['n', 'e', 't'] }
    else if i == 5 { seq!['p', 'r', 'o', 'c'] }
    else if i == 6 { seq!['g', 'p', 'u'] }
    else { seq!['d', 'i', 's', 'k'] }
}

pub open spec fn general_options() -> Seq<ConfigKey> {
    seq![
        ConfigKey::String(StringKey::ColorTheme),
        ConfigKey::Bool(BoolKey::ThemeBackground),
        ConfigKey::Bool(BoolKey::VimKeys),
        ConfigKey::String(StringKey::CustomLayout),
        ConfigKey::Int(IntKey::UpdateMs),
        ConfigKey::Bool(BoolKey::RoundedCorners),
        ConfigKey::Bool(BoolKey::TerminalSync),
        ConfigKey::Enum(EnumKey::GraphSymbol),
        ConfigKey::Bool(BoolKey::Base10Sizes),
        ConfigKey::Bool(BoolKey::BackgroundUpdate),
        ConfigKey::Enum(EnumKey::LogLevel),
    ]
}

pub open spec fn statusbar_options() -> Seq<ConfigKey> {
    seq![
        ConfigKey::Bool(BoolKey::ShowStatusbar),
        ConfigKey::Bool(BoolKey::StatusbarShowMenu),
        ConfigKey::Bool(BoolKey::StatusbarShowPreset),
        ConfigKey::Bool(BoolKey::StatusbarShowUpdateInterval),
        ConfigKey::Bool(BoolKey::StatusbarShowUptime),
        ConfigKey::Bool(BoolKey::StatusbarShowClock),
        ConfigKey::String(StringKey::StatusbarClockFormat),
    ]
}

pub open spec fn cpu_options() -> Seq<ConfigKey> {
    seq![
        ConfigKey::Enum(EnumKey::GraphSymbolCpu),
        ConfigKey::Enum(EnumKey::CpuGraphUpper),
        ConfigKey::Enum(EnumKey::CpuGraphLower),
        ConfigKey::Bool(BoolKey::CpuInvertLower),
        ConfigKey::Bool(BoolKey::CpuSingleGraph),
        ConfigKey::Bool(BoolKey::CpuAutoScale),
        ConfigKey::Bool(BoolKey::CheckTemp),
        ConfigKey::Bool(BoolKey::ShowCoretemp),
        ConfigKey::Enum(EnumKey::TempScale),
        ConfigKey::Bool(BoolKey::ShowCpuFreq),
        ConfigKey::String(StringKey::CustomCpuName),
        ConfigKey::Bool(BoolKey::ShowCpuWatts),
        ConfigKey::Int(IntKey::CpuUpdateMs),
    ]
}

pub open spec fn mem_options() -> Seq<ConfigKey> {
    seq![ConfigKey::Bool(BoolKey::ShowSwap), ConfigKey::Int(IntKey::MemUpdateMs)]
}

pub open spec fn net_options() -> Seq<ConfigKey> {
    seq![
        ConfigKey::Enum(EnumKey::GraphSymbolNet),
        ConfigKey::Bool(BoolKey::SwapUploadDownload),
        ConfigKey::Int(IntKey::NetDownload),
        ConfigKey::Int(IntKey::NetUpload),
        ConfigKey::Bool(BoolKey::NetAuto),
        ConfigKey::Bool(BoolKey::NetSync),
        ConfigKey::Int(IntKey::NetUpdateMs),
    ]
}

pub open spec fn proc_options() -> Seq<ConfigKey> {
    seq![
        ConfigKey::Enum(EnumKey::ProcSorting),
        ConfigKey::Bool(BoolKey::ProcReversed),
        ConfigKey::Bool(BoolKey::ProcTree),
        ConfigKey::Bool(BoolKey::ProcAggregate),
        ConfigKey::Bool(BoolKey::ProcColors),
        ConfigKey::Bool(BoolKey::ProcGradient),
        ConfigKey::Bool(BoolKey::ProcPerCore),
        ConfigKey::Bool(BoolKey::ProcMemBytes),
        ConfigKey::String(StringKey::ProcFilter),
        ConfigKey::Int(IntKey::ProcUpdateMs),
    ]
}

pub open spec fn gpu_options() -> Seq<ConfigKey> {
    seq![
        ConfigKey::String(StringKey::CustomGpuName0),
        ConfigKey::Int(IntKey::Gpu0UpdateMs),
        ConfigKey::String(StringKey::CustomGpuName1),
        ConfigKey::Int(IntKey::Gpu1UpdateMs),
        ConfigKey::String(StringKey::CustomGpuName2),
        ConfigKey::Int(IntKey::Gpu2UpdateMs),
        ConfigKey::String(StringKey::CustomGpuName3),
        ConfigKey::Int(IntKey::Gpu3UpdateMs),
        ConfigKey::String(StringKey::CustomGpuName4),
        ConfigKey::Int(IntKey::Gpu4UpdateMs),
        ConfigKey::String(StringKey::CustomGpuName5),
        ConfigKey::Int(IntKey::Gpu5UpdateMs),
        ConfigKey::String(StringKey::CustomGpuName6),
        ConfigKey::Int(IntKey::Gpu6UpdateMs),
        ConfigKey::String(StringKey::CustomGpuName7),
        ConfigKey::Int(IntKey::Gpu7UpdateMs),
    ]
}

pub open spec fn disk_options() -> Seq<ConfigKey> {
    seq![
        ConfigKey::Enum(EnumKey::GraphSymbolDisk),
        ConfigKey::Bool(BoolKey::ShowIoStat),
        ConfigKey::Bool(BoolKey::IoMode),
        ConfigKey::Bool(BoolKey::IoGraphCombined),
        ConfigKey::Bool(BoolKey::DiskIoMode),
        ConfigKey::String(StringKey::DiskFilter),
        ConfigKey::Int(IntKey::DiskUpdateMs),
    ]
}

/// The options of each category, in tab order.
pub open spec fn category_options(i: int) -> Seq<ConfigKey> {
    if i == 0 { general_options() }
    else if i == 1 { statusbar_options() }
    else if i == 2 { cpu_options() }
    else if i == 3 { mem_options() }
    else if i == 4 { net_options() }
    else if i == 5 { proc_options() }
    else if i == 6 { gpu_options() }
    else { disk_options() }
}

/// The largest number of options in one category.
pub open spec fn global_max() -> nat { 16 }

pub open spec fn category_views_ok(r: Seq<Category>) -> bool {
    &&& r.len() == 8
    &&& forall|i: int| #![trigger r[i]] 0 <= i < 8 ==> r[i].hotkey == category_hotkey(i) && r[i].name@ == category_name(i)
        && r[i].options@ == category_options(i)
}

fn category(name: &'static str, hotkey: char, options: Vec<ConfigKey>) -> (r: Category)
    ensures
        r.name == name && r.hotkey == hotkey && r.options@ == options@,
{
    Category { name, hotkey, options }
}

/// The categories in tab order.
pub fn categories() -> (r: Vec<Category>)
    ensures
        category_views_ok(r@),
{
    proof {
        reveal_strlit("general");
        reveal_strlit("statusbar");
        reveal_strlit("cpu");
        reveal_strlit("mem");
        reveal_strlit("net");
        reveal_strlit("proc");
        reveal_strlit("gpu");
        reveal_strlit("disk");
    }
    let r = vec![
        category("general", 'r', vec![
            ConfigKey::String(StringKey::ColorTheme),
            ConfigKey::Bool(BoolKey::ThemeBackground),
            ConfigKey::Bool(BoolKey::VimKeys),
            ConfigKey::String(StringKey::CustomLayout),
            ConfigKey::Int(IntKey::UpdateMs),
            ConfigKey::Bool(BoolKey::RoundedCorners),
            ConfigKey::Bool(BoolKey::TerminalSync),
            ConfigKey::Enum(EnumKey::GraphSymbol),
            ConfigKey::Bool(BoolKey::Base10Sizes),
            ConfigKey::Bool(BoolKey::BackgroundUpdate),
            ConfigKey::Enum(EnumKey::LogLevel),
        ]),
        category("statusbar", 's', vec![
            ConfigKey::Bool(BoolKey::ShowStatusbar),
            ConfigKey::Bool(BoolKey::StatusbarShowMenu),
            ConfigKey::Bool(BoolKey::StatusbarShowPreset),
            ConfigKey::Bool(BoolKey::StatusbarShowUpdateInterval),
            ConfigKey::Bool(BoolKey::StatusbarShowUptime),
            ConfigKey::Bool(BoolKey::StatusbarShowClock),
            ConfigKey::String(StringKey::StatusbarClockFormat),
        ]),
        category("cpu", 'c', vec![
            ConfigKey::Enum(EnumKey::GraphSymbolCpu),
            ConfigKey::Enum(EnumKey::CpuGraphUpper),
            ConfigKey::Enum(EnumKey::CpuGraphLower),
            ConfigKey::Bool(BoolKey::CpuInvertLower),
            ConfigKey::Bool(BoolKey::CpuSingleGraph),
            ConfigKey::Bool(BoolKey::CpuAutoScale),
            ConfigKey::Bool(BoolKey::CheckTemp),
            ConfigKey::Bool(BoolKey::ShowCoretemp),
            ConfigKey::Enum(EnumKey::TempScale),
            ConfigKey::Bool(BoolKey::ShowCpuFreq),
            ConfigKey::String(StringKey::CustomCpuName),
            ConfigKey::Bool(BoolKey::ShowCpuWatts),
            ConfigKey::Int(IntKey::CpuUpdateMs),
        ]),
        category("mem", 'm', vec![ConfigKey::Bool(BoolKey::ShowSwap), ConfigKey::Int(IntKey::MemUpdateMs)]),
        category("net", 'n', vec![
            ConfigKey::Enum(EnumKey::GraphSymbolNet),
            ConfigKey::Bool(BoolKey::SwapUploadDownload),
            ConfigKey::Int(IntKey::NetDownload),
            ConfigKey::Int(IntKey::NetUpload),
            ConfigKey::Bool(BoolKey::NetAuto),
            ConfigKey::Bool(BoolKey::NetSync),
            ConfigKey::Int(IntKey::NetUpdateMs),
        ]),
        category("proc", 'p', vec![
            ConfigKey::Enum(EnumKey::ProcSorting),
            ConfigKey::Bool(BoolKey::ProcReversed),
            ConfigKey::Bool(BoolKey::ProcTree),
            ConfigKey::Bool(BoolKey::ProcAggregate),
            ConfigKey::Bool(BoolKey::ProcColors),
            ConfigKey::Bool(BoolKey::ProcGradient),
            ConfigKey::Bool(BoolKey::ProcPerCore),
            ConfigKey::Bool(BoolKey::ProcMemBytes),
            ConfigKey::String(StringKey::ProcFilter),
            ConfigKey::Int(IntKey::ProcUpdateMs),
        ]),
        category("gpu", 'g', vec![
            ConfigKey::String(StringKey::CustomGpuName0),
            ConfigKey::Int(IntKey::Gpu0UpdateMs),
            ConfigKey::String(StringKey::CustomGpuName1),
            ConfigKey::Int(IntKey::Gpu1UpdateMs),
            ConfigKey::String(StringKey::CustomGpuName2),
            ConfigKey::Int(IntKey::Gpu2UpdateMs),
            ConfigKey::String(StringKey::CustomGpuName3),
            ConfigKey::Int(IntKey::Gpu3UpdateMs),
            ConfigKey::String(StringKey::CustomGpuName4),
            ConfigKey::Int(IntKey::Gpu4UpdateMs),
            ConfigKey::String(StringKey::CustomGpuName5),
            ConfigKey::Int(IntKey::Gpu5UpdateMs),
            ConfigKey::String(StringKey::CustomGpuName6),
            ConfigKey::Int(IntKey::Gpu6UpdateMs),
            ConfigKey::String(StringKey::CustomGpuName7),
            ConfigKey::Int(IntKey::Gpu7UpdateMs),
        ]),
        category("disk", 'd', vec![
            ConfigKey::Enum(EnumKey::GraphSymbolDisk),
            ConfigKey::Bool(BoolKey::ShowIoStat),
            ConfigKey::Bool(BoolKey::IoMode),
            ConfigKey::Bool(BoolKey::IoGraphCombined),
            ConfigKey::Bool(BoolKey::DiskIoMode),
            ConfigKey::String(StringKey::DiskFilter),
            ConfigKey::Int(IntKey::DiskUpdateMs),
        ]),
    ];
    proof {
        assert(r@[0].name@ =~= category_name(0));
        assert(r@[1].name@ =~= category_name(1));
        assert(r@[2].name@ =~= category_name(2));
        assert(r@[3].name@ =~= category_name(3));
        assert(r@[4].name@ =~= category_name(4));
        assert(r@[5].name@ =~= category_name(5));
        assert(r@[6].name@ =~= category_name(6));
        assert(r@[7].name@ =~= category_name(7));
        assert(r@[0].options@ =~= category_options(0));
        assert(r@[1].options@ =~= category_options(1));
        assert(r@[2].options@ =~= category_options(2));
        assert(r@[3].options@ =~= category_options(3));
        assert(r@[4].options@ =~= category_options(4));
        assert(r@[5].options@ =~= category_options(5));
        assert(r@[6].options@ =~= category_options(6));
        assert(r@[7].options@ =~= category_options(7));
    }
    r
}

/// The category whose hotkey is `key` (case-sensitive).
pub open spec fn hotkey_category(key: char) -> Option<nat> {
    if key == 'r' { Some(0) }
    else if key == 's' { Some(1) }
    else if key == 'c' { Some(2) }
    else if key == 'm' { Some(3) }
    else if key == 'n' { Some(4) }
    else if key == 'p' { Some(5) }
    else if key == 'g' { Some(6) }
    else if key == 'd' { Some(7) }
    else { None }
}

/// The index of the category whose hotkey is `key`, if any.
pub fn category_index_for_hotkey(key: char) -> (r: Option<usize>)
    ensures
        match hotkey_category(key) {
            Some(i) => r == Some(i as usize),
            None => r is None,
        },
{
    let cats = categories();
    let mut i: usize = 0;
    while i < cats.len()
        invariant
            i <= cats.len(),
            category_views_ok(cats@),
            forall|j: int| 0 <= j < i ==> category_hotkey(j) != key,
        decreases cats.len() - i,
    {
        if cats[i].hotkey == key {
            return Some(i);
        }
        i = i + 1;
    }
    assert(category_hotkey(0) != key && category_hotkey(1) != key && category_hotkey(2) != key);
    assert(category_hotkey(3) != key && category_hotkey(4) != key && category_hotkey(5) != key);
    assert(category_hotkey(6) != key && category_hotkey(7) != key);
    None
}

/// Every category's hotkey leads back to it, and no two categories share
/// a hotkey.
pub proof fn lemma_hotkeys_resolve(i: int)
    requires
        0 <= i < 8,
    ensures
        hotkey_category(category_hotkey(i)) == Some(i as nat),
{
}

pub open spec fn ascii_lower(c: char) -> char {
    if 'A' <= c && c <= 'Z' { (((c as u32) + 32) as u8) as char } else { c }
}

/// Index of the first character of `s` equal to `c` regardless of ASCII
/// case.
pub open spec fn first_ci(s: Seq<char>, c: char, i: int) -> Option<int>
    decreases s.len() - i,
{
    if i < 0 || i >= s.len() {
        None
    } else if ascii_lower(s[i]) == ascii_lower(c) {
        Some(i)
    } else {
        first_ci(s, c, i + 1)
    }
}

/// `name` in `base`, its first letter matching `hotkey` (ignoring ASCII
/// case) in `hi`.
pub open spec fn highlighted(name: Seq<char>, hotkey: char, base: Seq<char>, hi: Seq<char>) -> Seq<char> {
    match first_ci(name, hotkey, 0) {
        Some(i) => base + name.take(i) + hi + seq![name[i]] + base + name.skip(i + 1),
        None => base + name,
    }
}

pub(crate) fn lower(c: char) -> (r: char)
    ensures
        r == ascii_lower(c),
{
    if 'A' <= c && c <= 'Z' { (((c as u32) + 32) as u8) as char } else { c }
}

/// Renders a tab name with its hotkey letter highlighted.
pub fn highlight_hotkey(name: &str, hotkey: char, base: &str, hi: &str) -> (r: String)
    ensures
        r@ == highlighted(name@, hotkey, base@, hi@),
{
    let v = chars_of(name);
    let target = lower(hotkey);
    let mut i: usize = 0;
    while i < v.len() && lower(v[i]) != target
        invariant
            i <= v.len(),
            v@ == name@,
            target == ascii_lower(hotkey),
            first_ci(v@, hotkey, i as int) == first_ci(v@, hotkey, 0),
        decreases v.len() - i,
    {
        i = i + 1;
    }
    let mut out = String::new();
    push_str(&mut out, base);
    let mut k: usize = 0;
    while k < i
        invariant
            k <= i <= v.len(),
            out@ == base@ + v@.take(k as int),
        decreases i - k,
    {
        push_char(&mut out, v[k]);
        k = k + 1;
        assert(out@ =~= base@ + v@.take(k as int));
    }
    if i < v.len() {
        push_str(&mut out, hi);
        push_char(&mut out, v[i]);
        push_str(&mut out, base);
        let mut k: usize = i + 1;
        let ghost head = out@;
        while k < v.len()
            invariant
                i < k <= v.len(),
                out@ == head + v@.subrange(i + 1, k as int),
            decreases v.len() - k,
        {
            push_char(&mut out, v[k]);
            k = k + 1;
            assert(out@ =~= head + v@.subrange(i + 1, k as int));
        }
        assert(v@.subrange(i + 1, v.len() as int) =~= v@.skip(i + 1));
    } else {
        assert(v@.take(i as int) =~= v@);
    }
    assert(out@ =~= highlighted(name@, hotkey, base@, hi@));
    out
}

/// Rows of options that fit on one page at terminal height `th`
/// (`th >= 12`): the menu is as tall as the longest category needs, at
/// most `th - 8` rows, made even; two rows per option after four of
/// frame; at least one.
pub open spec fn items_per_page_at(th: nat) -> nat {
    let h0: nat = if 36 <= th - 8 { 36 } else { (th - 8) as nat };
    let h: nat = if h0 % 2 != 0 { (h0 - 1) as nat } else { h0 };
    let ih: nat = (((h - 4) as nat) / 2) as nat;
    let m = if ih <= global_max() { ih } else { global_max() };
    if m >= 1 { m } else { 1 }
}

/// Options shown per page of category `cat` (1 for an unknown category).
pub fn items_per_page(cat: usize, term_height: usize) -> (r: usize)
    requires
        cat >= CATEGORY_COUNT || term_height >= 12,
    ensures
        cat >= CATEGORY_COUNT ==> r == 1,
        cat < CATEGORY_COUNT ==> r == items_per_page_at(term_height as nat),
        r >= 1,
{
    if cat >= CATEGORY_COUNT {
        return 1;
    }
    let global_max: usize = 16;
    let avail = term_height - 8;
    let height = if global_max * 2 + 4 <= avail { global_max * 2 + 4 } else { avail };
    let height = if height % 2 != 0 { height - 1 } else { height };
    let ih = (height - 4) / 2;
    let m = if ih <= global_max { ih } else { global_max };
    if m >= 1 { m } else { 1 }
}

/// Number of options in category `cat`.
pub open spec fn option_count(cat: int) -> nat {
    category_options(cat).len()
}

/// Whether `page` of category `cat` can be measured at terminal height
/// `th`: an unknown category always can; a known one needs `th >= 12`
/// and a first row index that fits in `usize`.
pub open spec fn geometry_ok(cat: nat, page: nat, th: nat) -> bool {
    cat >= CATEGORY_COUNT || (th >= 12 && items_per_page_at(th) * page <= usize::MAX)
}

/// Pages of category `cat` at terminal height `th`.
pub open spec fn page_count_at(cat: nat, th: nat) -> nat {
    if cat >= CATEGORY_COUNT {
        1
    } else {
        let ipp = items_per_page_at(th);
        ((option_count(cat as int) + ipp - 1) as nat) / ipp
    }
}

/// The last selectable row on `page` of category `cat` at height `th`.
pub open spec fn select_max_at(cat: nat, page: nat, th: nat) -> nat {
    if cat >= CATEGORY_COUNT {
        0
    } else {
        let ipp = items_per_page_at(th);
        let remaining = if option_count(cat as int) >= ipp * page { (option_count(cat as int) - ipp * page) as nat } else { 0 };
        let shown = if ipp <= remaining { ipp } else { remaining };
        if shown >= 1 { (shown - 1) as nat } else { 0 }
    }
}

/// A known category holds at most [`global_max`] options, and a page
/// holds between one and that many rows.
pub proof fn lemma_category_bounds(cat: nat, th: nat)
    requires
        cat < CATEGORY_COUNT,
    ensures
        option_count(cat as int) <= global_max(),
        1 <= items_per_page_at(th) <= global_max(),
        page_count_at(cat, th) <= global_max(),
{
    let ipp = items_per_page_at(th);
    let n = option_count(cat as int);
    assert(n <= 16) by {
        assert(general_options().len() <= 16);
        assert(statusbar_options().len() <= 16);
        assert(cpu_options().len() <= 16);
        assert(mem_options().len() <= 16);
        assert(net_options().len() <= 16);
        assert(proc_options().len() <= 16);
        assert(gpu_options().len() <= 16);
        assert(disk_options().len() <= 16);
    }
    assert(((n + ipp - 1) as nat) / ipp <= 16) by (nonlinear_arith)
        requires
            n <= 16,
            1 <= ipp,
    ;
}

/// Pages of category `cat` (1 for an unknown category).
pub fn page_count(cat: usize, term_height: usize) -> (r: usize)
    requires
        cat >= CATEGORY_COUNT || term_height >= 12,
    ensures
        cat >= CATEGORY_COUNT ==> r == 1,
        cat < CATEGORY_COUNT ==> r == ((option_count(cat as int) + items_per_page_at(term_height as nat) - 1) as nat) / items_per_page_at(term_height as nat),
        r == page_count_at(cat as nat, term_height as nat),
{
    if cat >= CATEGORY_COUNT {
        return 1;
    }
    let cats = categories();
    assert(cats@[cat as int].options@ == category_options(cat as int));
    let max_items = cats[cat].options.len();
    let ipp = items_per_page(cat, term_height);
    assert(max_items <= 16);
    (max_items + ipp - 1) / ipp
}

/// The last selectable row on `page` of category `cat` (0 for an unknown
/// category or a page past the end).
pub fn select_max(cat: usize, page: usize, term_height: usize) -> (r: usize)
    requires
        cat >= CATEGORY_COUNT || term_height >= 12,
        cat < CATEGORY_COUNT ==> items_per_page_at(term_height as nat) * page <= usize::MAX,
    ensures
        cat >= CATEGORY_COUNT ==> r == 0,
        cat < CATEGORY_COUNT ==> {
            let ipp = items_per_page_at(term_height as nat);
            let remaining = if option_count(cat as int) >= ipp * page { (option_count(cat as int) - ipp * page) as nat } else { 0 };
            let shown = if ipp <= remaining { ipp } else { remaining };
            r == (if shown >= 1 { (shown - 1) as nat } else { 0 })
        },
        r == select_max_at(cat as nat, page as nat, term_height as nat),
{
    if cat >= CATEGORY_COUNT {
        return 0;
    }
    let cats = categories();
    assert(cats@[cat as int].options@ == category_options(cat as int));
    let max_items = cats[cat].options.len();
    let ipp = items_per_page(cat, term_height);
    let remaining = max_items.saturating_sub(ipp * page);
    let shown = if ipp <= remaining { ipp } else { remaining };
    shown.saturating_sub(1)
}

/// The option at row `selected` of `page` of category `cat`.
pub fn opt_key(cat: usize, page: usize, selected: usize, term_height: usize) -> (r: Option<ConfigKey>)
    requires
        cat >= CATEGORY_COUNT || term_height >= 12,
        cat < CATEGORY_COUNT ==> {
            let h0: nat = if 36 <= term_height - 8 { 36 } else { (term_height - 8) as nat };
            let h: nat = if h0 % 2 != 0 { (h0 - 1) as nat } else { h0 };
            let ih: nat = (((h - 4) as nat) / 2) as nat;
            let item_height = if ih <= global_max() { ih } else { global_max() };
            item_height * page + selected <= usize::MAX
        },
    ensures
        cat >= CATEGORY_COUNT ==> r is None,
        cat < CATEGORY_COUNT ==> {
            let h0: nat = if 36 <= term_height - 8 { 36 } else { (term_height - 8) as nat };
            let h: nat = if h0 % 2 != 0 { (h0 - 1) as nat } else { h0 };
            let ih: nat = (((h - 4) as nat) / 2) as nat;
            let item_height = if ih <= global_max() { ih } else { global_max() };
            let idx = item_height * page + selected;
            r == (if idx < option_count(cat as int) { Some(category_options(cat as int)[idx as int]) } else { None })
        },
{
    if cat >= CATEGORY_COUNT {
        return None;
    }
    let cats = categories();
    let global_max: usize = 16;
    let avail = term_height - 8;
    let height = if global_max * 2 + 4 <= avail { global_max * 2 + 4 } else { avail };
    let height = if height % 2 != 0 { height - 1 } else { height };
    let ih = (height - 4) / 2;
    let item_height = if ih <= global_max { ih } else { global_max };
    let idx = item_height * page + selected;
    assert(cats@[cat as int].options@ == category_options(cat as int));
    if idx < cats[cat].options.len() {
        Some(cats[cat].options[idx])
    } else {
        None
    }
}

} // verus!
