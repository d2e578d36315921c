//! Decisions behind the normal-mode keys: the update-rate step, process
//! cursor movement, cycling through sort orders and interfaces, the
//! two-press terminate / kill confirmation, following a process and the
//! widget number keys.
//!
//! Each function takes the state it reads as plain values and returns
//! the new state; the caller stores it, talks to the operating system and
//! marks what needs repainting.

use vstd::prelude::*;

use crate::domain::widget_kind::{toggle_key_of, WidgetKind};
use crate::domain::widget_set::WidgetSet;
use crate::text::{str_eq, to_owned_string};

verus! {

/// Shortest update interval, in milliseconds.
pub const MIN_UPDATE_MS: i64 = 100;
/// Longest update interval, in milliseconds (one day).
pub const MAX_UPDATE_MS: i64 = 86_400_000;

/// The step `+` / `-` move the update interval by: a second above two
/// seconds, a tenth of a second below.
pub open spec fn update_step(update_ms: int) -> int {
    if update_ms > 2000 { 1000 } else { 100 }
}

/// `v` clamped to `lo..=hi`.
pub open spec fn clamped(v: int, lo: int, hi: int) -> int {
    if v < lo { lo } else if v > hi { hi } else { v }
}

/// The update interval after one press moving it by `delta` steps.
pub open spec fn stepped_update_ms(update_ms: int, delta: int) -> int {
    clamped(update_ms + delta * update_step(update_ms), MIN_UPDATE_MS as int, MAX_UPDATE_MS as int)
}

/// The update interval after `+` (`delta` 1) or `-` (`delta` -1): moved
/// by [`update_step`] and clamped to a tenth of a second .. a day.
pub fn step_update_rate(update_ms: i64, delta: i64) -> (r: i64)
    requires
        i64::MIN <= delta * update_step(update_ms as int) <= i64::MAX,
        i64::MIN <= update_ms + delta * update_step(update_ms as int) <= i64::MAX,
    ensures
        r == stepped_update_ms(update_ms as int, delta as int),
        MIN_UPDATE_MS <= r <= MAX_UPDATE_MS,
{
    let step: i64 = if update_ms > 2000 { 1000 } else { 100 };
    let moved = update_ms + delta * step;
    if moved < MIN_UPDATE_MS {
        MIN_UPDATE_MS
    } else if moved > MAX_UPDATE_MS {
        MAX_UPDATE_MS
    } else {
        moved
    }
}

/// A cursor movement key of the process list.
#[derive(Debug, Clone, Copy, PartialEq, Eq, Structural)]
pub enum ProcNav {
    Up,
    Down,
    PageUp,
    PageDown,
    HalfPageUp,
    HalfPageDown,
    Home,
    End,
}

/// The process list's cursor: the selected row and the first row shown.
#[derive(Debug, Clone, Copy, PartialEq, Eq, Structural)]
pub struct ProcCursor {
    pub selected: usize,
    pub start: usize,
}

/// Rows a page key moves: the terminal height less ten rows of chrome.
pub open spec fn page_rows(height: nat) -> nat {
    if height >= 10 { (height - 10) as nat } else { 0 }
}

/// The last row of a list of `count` rows (0 when it is empty).
pub open spec fn last_row(count: nat) -> nat {
    if count >= 1 { (count - 1) as nat } else { 0 }
}

/// `a - b`, stopping at zero.
pub open spec fn sat_sub(a: nat, b: nat) -> nat {
    if a >= b { (a - b) as nat } else { 0 }
}

/// The smaller of two naturals.
pub open spec fn min_nat(a: nat, b: nat) -> nat {
    if a <= b { a } else { b }
}

/// The selected row after `nav` from row `sel`, in a list of `count`
/// rows on a terminal `height` rows tall.
pub open spec fn nav_target(nav: ProcNav, sel: nat, count: nat, height: nat) -> nat {
    match nav {
        ProcNav::Up => if sel > 0 { (sel - 1) as nat } else { sel },
        ProcNav::Down => if sel + 1 < count { sel + 1 } else { sel },
        ProcNav::PageUp => sat_sub(sel, page_rows(height)),
        ProcNav::PageDown => min_nat(sel + page_rows(height), last_row(count)),
        ProcNav::HalfPageUp => sat_sub(sel, page_rows(height) / 2),
        ProcNav::HalfPageDown => min_nat(sel + page_rows(height) / 2, last_row(count)),
        ProcNav::Home => 0,
        ProcNav::End => last_row(count),
    }
}

/// Whether `nav` repaints the list: `Up` and `Down` only when the cursor
/// moved, every other key always.
pub open spec fn nav_redraws(nav: ProcNav, sel: nat, count: nat) -> bool {
    match nav {
        ProcNav::Up => sel > 0,
        ProcNav::Down => sel + 1 < count,
        _ => true,
    }
}

/// Whether the row arithmetic of `nav` stays within `usize`.
pub open spec fn nav_fits(nav: ProcNav, sel: nat, height: nat) -> bool {
    match nav {
        ProcNav::PageDown => sel + page_rows(height) <= usize::MAX,
        ProcNav::HalfPageDown => sel + page_rows(height) / 2 <= usize::MAX,
        _ => true,
    }
}

/// Moves the process cursor for `nav` over `count` rows on a terminal
/// `height` rows tall; `Home` also scrolls back to the top. Returns the
/// new cursor and whether the list needs repainting.
pub fn navigate(nav: ProcNav, cursor: ProcCursor, count: usize, height: usize) -> (r: (ProcCursor, bool))
    requires
        nav_fits(nav, cursor.selected as nat, height as nat),
    ensures
        r.0.selected == nav_target(nav, cursor.selected as nat, count as nat, height as nat),
        r.0.start == (if nav == ProcNav::Home { 0 } else { cursor.start }),
        r.1 == nav_redraws(nav, cursor.selected as nat, count as nat),
{
    let sel = cursor.selected;
    let page = height.saturating_sub(10);
    let last = count.saturating_sub(1);
    match nav {
        ProcNav::Up => {
            if sel > 0 {
                (ProcCursor { selected: sel - 1, start: cursor.start }, true)
            } else {
                (cursor, false)
            }
        },
        ProcNav::Down => {
            if sel < count && sel + 1 < count {
                (ProcCursor { selected: sel + 1, start: cursor.start }, true)
            } else {
                (cursor, false)
            }
        },
        ProcNav::PageUp => (ProcCursor { selected: sel.saturating_sub(page), start: cursor.start }, true),
        ProcNav::PageDown => {
            let to = sel + page;
            (ProcCursor { selected: if to <= last { to } else { last }, start: cursor.start }, true)
        },
        ProcNav::HalfPageUp => (ProcCursor { selected: sel.saturating_sub(page / 2), start: cursor.start }, true),
        ProcNav::HalfPageDown => {
            let to = sel + page / 2;
            (ProcCursor { selected: if to <= last { to } else { last }, start: cursor.start }, true)
        },
        ProcNav::Home => (ProcCursor { selected: 0, start: 0 }, true),
        ProcNav::End => (ProcCursor { selected: last, start: cursor.start }, true),
    }
}

/// A cursor on a row of the list stays on a row of the list, whatever
/// key moves it.
pub proof fn lemma_nav_stays_in_list(nav: ProcNav, sel: nat, count: nat, height: nat)
    requires
        sel <= last_row(count),
    ensures
        nav_target(nav, sel, count, height) <= last_row(count),
{
}

/// `Down` then `Up`, from any row but the last, comes back to the same
/// row; so does `Up` then `Down` from any row but the first.
pub proof fn lemma_up_down_inverse(sel: nat, count: nat, height: nat)
    requires
        sel < count,
    ensures
        sel + 1 < count ==> nav_target(ProcNav::Up, nav_target(ProcNav::Down, sel, count, height), count, height) == sel,
        sel > 0 ==> nav_target(ProcNav::Down, nav_target(ProcNav::Up, sel, count, height), count, height) == sel,
{
}

/// The index after `current` in a ring of `len` entries, going back when
/// `backward`.
pub open spec fn cycled(current: nat, len: nat, backward: bool) -> nat {
    if backward {
        if current == 0 { (len - 1) as nat } else { (current - 1) as nat }
    } else {
        (current + 1) % len
    }
}

/// Steps `current` one place round a ring of `len` entries (the sort
/// orders, the network interfaces, the GPUs).
pub fn cycle_index(current: usize, len: usize, backward: bool) -> (r: usize)
    requires
        current < len,
    ensures
        r == cycled(current as nat, len as nat, backward),
        r < len,
{
    if backward {
        if current == 0 { len - 1 } else { current - 1 }
    } else {
        (current + 1) % len
    }
}

/// Stepping forward then back, or back then forward, returns to the
/// same entry of the ring.
pub proof fn lemma_cycle_inverse(current: nat, len: nat)
    requires
        current < len,
    ensures
        cycled(cycled(current, len, false), len, true) == current,
        cycled(cycled(current, len, true), len, false) == current,
{
    if current + 1 < len {
        assert((current + 1) % len == current + 1) by (nonlinear_arith)
            requires current + 1 < len;
    } else {
        assert((current + 1) % len == 0) by (nonlinear_arith)
            requires current + 1 == len;
    }
    if current > 0 {
        assert(current % len == current) by (nonlinear_arith)
            requires current < len;
    } else {
        assert(((len - 1) as nat + 1) % len == 0) by (nonlinear_arith)
            requires len >= 1;
    }
}

/// Whether `cur` is where a ring of `names` stands for the selection
/// `sel`: the first entry named `sel`, or the first entry when none is.
pub open spec fn is_current(names: Seq<Seq<char>>, sel: Seq<char>, cur: int) -> bool {
    &&& 0 <= cur < names.len()
    &&& forall|j: int| 0 <= j < cur ==> #[trigger] names[j] != sel
    &&& (names[cur] == sel || (cur == 0 && forall|j: int| 0 <= j < names.len() ==> #[trigger] names[j] != sel))
}

/// The texts of a sequence of strings.
pub open spec fn texts(names: Seq<String>) -> Seq<Seq<char>> {
    names.map_values(|s: String| s@)
}

/// Where the ring `names` stands for the selection `sel`.
pub fn current_position(names: &Vec<String>, sel: &str) -> (r: usize)
    requires
        names.len() > 0,
    ensures
        is_current(texts(names@), sel@, r as int),
{
    let mut i: usize = 0;
    while i < names.len()
        invariant
            i <= names.len(),
            forall|j: int| 0 <= j < i ==> #[trigger] texts(names@)[j] != sel@,
        decreases names.len() - i,
    {
        if str_eq(names[i].as_str(), sel) {
            return i;
        }
        i = i + 1;
    }
    0
}

/// The entry of `names` after (or, when `backward`, before) the one the
/// selection `sel` stands on; none when `names` is empty.
pub fn cycle_name(names: &Vec<String>, sel: &str, backward: bool) -> (r: Option<String>)
    ensures
        r is None <==> names.len() == 0,
        r matches Some(n) ==> exists|cur: int| #[trigger] is_current(texts(names@), sel@, cur)
            && n@ == texts(names@)[cycled(cur as nat, names.len() as nat, backward) as int],
{
    if names.len() == 0 {
        return None;
    }
    let cur = current_position(names, sel);
    let next = cycle_index(cur, names.len(), backward);
    let n = to_owned_string(names[next].as_str());
    assert(is_current(texts(names@), sel@, cur as int));
    Some(n)
}

/// The network interface `<` / `>` switch to: the one after (or before)
/// the selected interface `selected` among `names`; none while no
/// interface is known.
pub fn cycle_net_iface(names: &Vec<String>, selected: &str, direction: isize) -> (r: Option<String>)
    ensures
        r is None <==> names.len() == 0,
        r matches Some(n) ==> exists|cur: int| #[trigger] is_current(texts(names@), selected@, cur)
            && n@ == texts(names@)[cycled(cur as nat, names.len() as nat, direction < 0) as int],
{
    cycle_name(names, selected, direction < 0)
}

/// The stable ids of the GPUs present, in slot order.
pub open spec fn present_ids(slots: Seq<Option<String>>) -> Seq<Seq<char>>
    decreases slots.len(),
{
    if slots.len() == 0 {
        Seq::empty()
    } else {
        let rest = present_ids(slots.drop_last());
        match slots.last() {
            Some(id) => rest.push(id@),
            None => rest,
        }
    }
}

/// The GPU the GPU keys switch to: the one after (or before) the
/// selected `selected` among the GPUs present in `slots` (each slot holds
/// its GPU's stable id, or nothing); none while no GPU is present.
pub fn cycle_gpu_iface(slots: &Vec<Option<String>>, selected: &str, direction: isize) -> (r: Option<String>)
    ensures
        r is None <==> present_ids(slots@).len() == 0,
        r matches Some(n) ==> exists|cur: int| #[trigger] is_current(present_ids(slots@), selected@, cur)
            && n@ == present_ids(slots@)[cycled(cur as nat, present_ids(slots@).len(), direction < 0) as int],
{
    let mut present: Vec<String> = Vec::new();
    let mut i: usize = 0;
    while i < slots.len()
        invariant
            i <= slots.len(),
            texts(present@) == present_ids(slots@.subrange(0, i as int)),
        decreases slots.len() - i,
    {
        assert(slots@.subrange(0, (i + 1) as int).drop_last() =~= slots@.subrange(0, i as int));
        match &slots[i] {
            Some(id) => {
                let ghost before = present@;
                present.push(to_owned_string(id.as_str()));
                assert(texts(present@) =~= texts(before).push(id@));
            },
            None => {},
        }
        i = i + 1;
    }
    assert(slots@.subrange(0, slots.len() as int) =~= slots@);
    cycle_name(&present, selected, direction < 0)
}

/// A process armed by a first `t` (terminate) or `T` (kill) press.
#[derive(Debug, Clone, Copy, PartialEq, Eq, Structural)]
pub struct Armed {
    pub pid: u32,
    /// Whether the confirming press kills rather than asks the process
    /// to close.
    pub kill: bool,
}

/// What a terminate (`kill` false) or kill (`kill` true) press does.
#[derive(Debug, Clone, Copy, PartialEq, Eq, Structural)]
pub enum ArmStep {
    /// The armed process exited meanwhile: disarm, send nothing.
    DisarmExited,
    /// Confirming press: send the request to the process, and disarm.
    Fire(u32),
    /// The selected process has exited: nothing is armed or repainted.
    RefuseExited,
    /// First press: arm the selected process.
    Arm(u32),
    /// No process is selected.
    Idle,
}

/// The step a press takes, given what is armed (and whether it has
/// exited) and the selected process (and whether it has exited). Only a
/// process armed for the same key is confirmed; otherwise the selected
/// process is armed.
pub open spec fn arm_step_spec(
    armed: Option<Armed>,
    kill: bool,
    armed_exited: bool,
    selected: Option<u32>,
    selected_exited: bool,
) -> ArmStep {
    if armed matches Some(a) && a.kill == kill {
        if armed_exited { ArmStep::DisarmExited } else { ArmStep::Fire(armed->0.pid) }
    } else {
        match selected {
            Some(pid) => if selected_exited { ArmStep::RefuseExited } else { ArmStep::Arm(pid) },
            None => ArmStep::Idle,
        }
    }
}

/// Decides a terminate or kill press (see [`arm_step_spec`]).
pub fn arm_step(
    armed: Option<Armed>,
    kill: bool,
    armed_exited: bool,
    selected: Option<u32>,
    selected_exited: bool,
) -> (r: ArmStep)
    ensures
        r == arm_step_spec(armed, kill, armed_exited, selected, selected_exited),
{
    match armed {
        Some(a) if a.kill == kill => {
            if armed_exited {
                return ArmStep::DisarmExited;
            }
            return ArmStep::Fire(a.pid);
        },
        _ => {},
    }
    match selected {
        Some(pid) => if selected_exited { ArmStep::RefuseExited } else { ArmStep::Arm(pid) },
        None => ArmStep::Idle,
    }
}

/// What is armed after `step`, taken by a press of the `kill` key.
pub open spec fn armed_after_spec(step: ArmStep, armed: Option<Armed>, kill: bool) -> Option<Armed> {
    match step {
        ArmStep::DisarmExited | ArmStep::Fire(_) => None,
        ArmStep::Arm(pid) => Some(Armed { pid, kill }),
        ArmStep::RefuseExited | ArmStep::Idle => armed,
    }
}

/// What is armed after `step` (see [`armed_after_spec`]).
pub fn armed_after(step: ArmStep, armed: Option<Armed>, kill: bool) -> (r: Option<Armed>)
    ensures
        r == armed_after_spec(step, armed, kill),
{
    match step {
        ArmStep::DisarmExited | ArmStep::Fire(_) => None,
        ArmStep::Arm(pid) => Some(Armed { pid, kill }),
        ArmStep::RefuseExited | ArmStep::Idle => armed,
    }
}

/// Whether `step` repaints the process list: every step but a refusal.
pub fn arm_step_redraws(step: ArmStep) -> (r: bool)
    ensures
        r == !(step is RefuseExited),
{
    match step {
        ArmStep::RefuseExited => false,
        _ => true,
    }
}

/// Two presses of the same key on a running process ask it to stop: the
/// first arms it, the second sends the request and disarms. A process
/// that exited is never sent anything.
pub proof fn lemma_two_press_confirm(armed: Option<Armed>, kill: bool, pid: u32)
    requires
        !(armed matches Some(a) && a.kill == kill),
    ensures
        arm_step_spec(armed, kill, false, Some(pid), false) == ArmStep::Arm(pid),
        ({
            let armed2 = armed_after_spec(ArmStep::Arm(pid), armed, kill);
            &&& arm_step_spec(armed2, kill, false, Some(pid), false) == ArmStep::Fire(pid)
            &&& armed_after_spec(ArmStep::Fire(pid), armed2, kill) is None
        }),
        forall|a: Option<Armed>, k: bool, s: Option<u32>, se: bool|
            #[trigger] arm_step_spec(a, k, true, s, se) is Fire ==> !(a matches Some(x) && x.kill == k),
{
}

/// The followed process after pressing follow on `pid`: following it,
/// or none (0) when it was already followed.
pub fn toggled_follow(followed: u32, pid: u32) -> (r: u32)
    ensures
        r == (if followed == pid { 0 } else { pid }),
{
    if followed == pid { 0 } else { pid }
}

/// The widget a number key toggles: the one whose [`WidgetKind::toggle_key`]
/// is the digit whose code is the key's low byte.
pub open spec fn widget_for_code(code: int) -> Option<WidgetKind> {
    if code == 1 {
        Some(WidgetKind::Cpu)
    } else if code == 2 {
        Some(WidgetKind::Mem)
    } else if code == 3 {
        Some(WidgetKind::Net)
    } else if code == 4 {
        Some(WidgetKind::Proc)
    } else if code == 5 {
        Some(WidgetKind::Disk)
    } else if code == 6 {
        Some(WidgetKind::Gpu)
    } else {
        None
    }
}

/// The widget the number key `c` toggles: its low byte less `'0'` is the
/// widget's number (1 cpu .. 6 gpu); any other value toggles nothing.
pub fn toggle_widget_for_key(c: char) -> (r: Option<WidgetKind>)
    requires
        (c as u32) % 256 >= 48,
    ensures
        r == widget_for_code((c as u32) % 256 - 48),
        r matches Some(k) ==> toggle_key_of(k) == Some(c) || (c as u32) >= 256,
{
    let code = (c as u32) % 256 - 48;
    if code == 1 {
        Some(WidgetKind::Cpu)
    } else if code == 2 {
        Some(WidgetKind::Mem)
    } else if code == 3 {
        Some(WidgetKind::Net)
    } else if code == 4 {
        Some(WidgetKind::Proc)
    } else if code == 5 {
        Some(WidgetKind::Disk)
    } else if code == 6 {
        Some(WidgetKind::Gpu)
    } else {
        None
    }
}

/// Shows every hidden widget again; tells whether any was hidden (and
/// so whether the layout changes).
pub fn restore_widgets(hidden: &mut WidgetSet) -> (changed: bool)
    ensures
        changed == (old(hidden)@ != Set::<WidgetKind>::empty()),
        final(hidden)@ == Set::<WidgetKind>::empty(),
{
    if hidden.is_empty() {
        return false;
    }
    hidden.clear();
    true
}

} // verus!
