//! The keybind table: which key, in which overlay, runs which action.
//!
//! Bindings are matched in table order; the first whose key triggers
//! and overlay list match the event wins. `VimOnly` triggers fire only
//! with vim-style navigation enabled. Bindings with a help entry make up
//! the help overlay, grouped by category in first-seen order.

use vstd::prelude::*;

use crate::input::Key;
use crate::overlay::OverlayKind;
use crate::tools::printable_ascii;

verus! {

/// How one key trigger takes part in matching.
#[derive(Debug, Clone, Copy, PartialEq, Eq, Structural)]
pub enum KeySpec {
    Always(Key),
    /// Fires only when vim-style navigation is enabled.
    VimOnly(Key),
}

/// Help-overlay text of a binding.
#[derive(Debug, Clone, Copy)]
pub struct HelpEntry {
    /// Section of the help overlay.
    pub category: &'static str,
    /// The key column, written for people (`"p / Shift+P"`).
    pub keys: &'static str,
    pub description: &'static str,
}

/// What a binding does; the application runs it against its state.
#[derive(Debug, Clone, Copy, PartialEq, Eq, Structural)]
pub enum Action {
    NormalQuit,
    NormalOpenMainMenu,
    NormalOpenHelpMenu,
    NormalOpenOptionsMenu,
    NormalPresetForward,
    NormalPresetBack,
    NormalConfigReload,
    NormalUpdateRateUp,
    NormalUpdateRateDown,
    NormalToggleWidgetMain,
    NormalToggleWidgetGpuLow,
    NormalToggleWidgetGpuHigh,
    NormalRestoreWidgets,
    NormalNavUp,
    NormalNavDown,
    NormalNavPageUp,
    NormalNavPageDown,
    NormalNavHalfPageDown,
    NormalNavHalfPageUp,
    NormalNavHome,
    NormalNavEnd,
    NormalSortBack,
    NormalSortForward,
    NormalToggleReverse,
    NormalOpenFilter,
    NormalToggleTree,
    NormalTogglePerCore,
    NormalTerminate,
    NormalKill,
    NormalDetail,
    NormalFollow,
    NormalToggleIo,
    NormalIfaceBack,
    NormalIfaceForward,
    NormalNetAuto,
    NormalNetSync,
    NormalNetZero,
    MainMenuQuit,
    MainMenuClose,
    MainMenuSelectPrev,
    MainMenuSelectNext,
    MainMenuActivateSelected,
    MainMenuOpenOptions,
    MainMenuOpenHelp,
    HelpClose,
    OptionsQuit,
    OptionsClose,
    OptionsCatNext,
    OptionsCatPrev,
    OptionsCatSelectHotkey,
    OptionsSelectUp,
    OptionsSelectDown,
    OptionsPageUp,
    OptionsPageDown,
    OptionsEnter,
    OptionsStepLeft,
    OptionsStepRight,
    OptionsEditCancel,
    OptionsEditCommit,
    OptionsEditBackspace,
    OptionsEditDelete,
    OptionsEditMoveLeft,
    OptionsEditMoveRight,
    OptionsEditMoveHome,
    OptionsEditMoveEnd,
    FilterCancel,
    FilterCommit,
    FilterBackspace,
    FilterDeleteClear,
}

/// One keybind: its triggers, the overlays it is active in, its help
/// text (none for overlay-internal keys) and its action.
pub struct Binding {
    pub keys: Vec<KeySpec>,
    pub states: Vec<OverlayKind>,
    pub help: Option<HelpEntry>,
    pub action: Action,
}

/// A binding as values: triggers, overlays, help text (category, keys,
/// description) and action.
pub type BindingRow = (Seq<KeySpec>, Seq<OverlayKind>, Option<(Seq<char>, Seq<char>, Seq<char>)>, Action);

/// The help text of an entry, as values.
pub open spec fn help_text(h: Option<HelpEntry>) -> Option<(Seq<char>, Seq<char>, Seq<char>)> {
    match h {
        Some(e) => Some((e.category@, e.keys@, e.description@)),
        None => None,
    }
}

/// A binding as values.
pub open spec fn binding_row(b: Binding) -> BindingRow {
    (b.keys@, b.states@, help_text(b.help), b.action)
}

/// Bindings as values.
pub open spec fn binding_rows(v: Seq<Binding>) -> Seq<BindingRow> {
    v.map_values(|b: Binding| binding_row(b))
}

/// Whether the trigger `spec` fires for `key`.
pub open spec fn trigger_fires(spec: KeySpec, key: Key, vim: bool) -> bool {
    match spec {
        KeySpec::Always(k) => k == key,
        KeySpec::VimOnly(k) => vim && k == key,
    }
}

/// Whether a binding with these triggers and overlays fires for `key` in
/// overlay `state`.
pub open spec fn fires(keys: Seq<KeySpec>, states: Seq<OverlayKind>, key: Key, state: OverlayKind, vim: bool) -> bool {
    states.contains(state) && exists|i: int| 0 <= i < keys.len() && trigger_fires(#[trigger] keys[i], key, vim)
}

impl Binding {
    /// Whether this binding fires for `key` in overlay `state`, with vim
    /// navigation on or off.
    pub fn matches(&self, key: &Key, state: OverlayKind, vim: bool) -> (r: bool)
        ensures
            r == fires(self.keys@, self.states@, *key, state, vim),
    {
        let mut in_state = false;
        let mut i: usize = 0;
        while i < self.states.len()
            invariant
                i <= self.states@.len(),
                in_state == exists|q: int| 0 <= q < i && self.states@[q] == state,
            decreases self.states@.len() - i,
        {
            if self.states[i] == state {
                in_state = true;
            }
            i = i + 1;
        }
        if !in_state {
            return false;
        }
        assert(self.states@.contains(state));
        let mut j: usize = 0;
        while j < self.keys.len()
            invariant
                j <= self.keys@.len(),
                self.states@.contains(state),
                forall|q: int| 0 <= q < j ==> !trigger_fires(#[trigger] self.keys@[q], *key, vim),
            decreases self.keys@.len() - j,
        {
            let hit = match self.keys[j] {
                KeySpec::Always(k) => k == *key,
                KeySpec::VimOnly(k) => vim && k == *key,
            };
            if hit {
                assert(trigger_fires(self.keys@[j as int], *key, vim));
                assert(exists|q: int| 0 <= q < self.keys@.len() && trigger_fires(#[trigger] self.keys@[q], *key, vim));
                return true;
            }
            j = j + 1;
        }
        false
    }
}

/// Index of the first binding of `table` that fires for `key` in
/// overlay `state`, if any.
pub open spec fn first_firing(table: Seq<BindingRow>, key: Key, state: OverlayKind, vim: bool) -> Option<int> {
    if exists|i: int| 0 <= i < table.len() && fires(table[i].0, table[i].1, key, state, vim) {
        Some(choose|i: int| 0 <= i < table.len() && fires(table[i].0, table[i].1, key, state, vim)
            && forall|j: int| 0 <= j < i ==> !fires(#[trigger] table[j].0, table[j].1, key, state, vim))
    } else {
        None
    }
}

/// The binding that handles `key` in overlay `state`: the first in
/// `table` that fires.
pub fn find_binding(table: &Vec<Binding>, key: &Key, state: OverlayKind, vim: bool) -> (r: Option<usize>)
    ensures
        match r {
            Some(i) => i < table@.len()
                && fires(table@[i as int].keys@, table@[i as int].states@, *key, state, vim)
                && forall|j: int| 0 <= j < i ==> !fires(#[trigger] table@[j].keys@, table@[j].states@, *key, state, vim),
            None => forall|j: int| 0 <= j < table@.len() ==> !fires(#[trigger] table@[j].keys@, table@[j].states@, *key, state, vim),
        },
{
    let mut i: usize = 0;
    while i < table.len()
        invariant
            i <= table@.len(),
            forall|j: int| 0 <= j < i ==> !fires(#[trigger] table@[j].keys@, table@[j].states@, *key, state, vim),
        decreases table@.len() - i,
    {
        if table[i].matches(key, state, vim) {
            return Some(i);
        }
        i = i + 1;
    }
    None
}

/// What a text-input overlay does with a key no binding takes.
#[derive(Debug, Clone, Copy, PartialEq, Eq, Structural)]
pub enum Fallback {
    /// Type the character into the process filter.
    FilterTyped,
    /// Type the character into the option being edited.
    OptionsEditTyped,
}

/// The catch-all of overlay `state`, if it has one: only the two
/// text-input overlays take unbound keys.
pub fn fallback_for(state: OverlayKind) -> (r: Option<Fallback>)
    ensures
        r == (match state {
            OverlayKind::Filter => Some(Fallback::FilterTyped),
            OverlayKind::OptionsEdit => Some(Fallback::OptionsEditTyped),
            _ => None::<Fallback>,
        }),
{
    match state {
        OverlayKind::Filter => Some(Fallback::FilterTyped),
        OverlayKind::OptionsEdit => Some(Fallback::OptionsEditTyped),
        _ => None,
    }
}

/// A hook run before the binding scan.
#[derive(Debug, Clone, Copy, PartialEq, Eq, Structural)]
pub enum PrehookKind {
    /// Any key but `t`/`T` disarms a pending terminate and is consumed.
    ArmedTerminateDisarm,
    /// A navigation key stops following a process, then is dispatched.
    CancelFollowOnNav,
}

/// A pre-dispatch hook and the overlays it runs in.
pub struct Prehook {
    pub states: Vec<OverlayKind>,
    pub hook: PrehookKind,
}

/// The pre-dispatch hooks, in order; both run with no overlay open.
pub fn prehooks() -> (r: Vec<Prehook>)
    ensures
        r@.len() == 2,
        r@[0].states@ == seq![OverlayKind::Closed],
        r@[0].hook == PrehookKind::ArmedTerminateDisarm,
        r@[1].states@ == seq![OverlayKind::Closed],
        r@[1].hook == PrehookKind::CancelFollowOnNav,
{
    vec![
        Prehook { states: vec![OverlayKind::Closed], hook: PrehookKind::ArmedTerminateDisarm },
        Prehook { states: vec![OverlayKind::Closed], hook: PrehookKind::CancelFollowOnNav },
    ]
}

/// Whether `key` disarms a pending terminate (any key but `t` and `T`).
pub fn disarms_terminate(key: &Key) -> (r: bool)
    ensures
        r == !(*key == Key::Char('t') || *key == Key::Char('T')),
{
    !(*key == Key::Char('t') || *key == Key::Char('T'))
}

/// Where a key goes once the hooks have run.
#[derive(Debug, Clone, Copy, PartialEq, Eq, Structural)]
pub enum Route {
    /// A pending terminate was disarmed; the key goes no further.
    Disarmed,
    /// The binding at this index of the table handles the key.
    Binding(usize),
    /// The overlay's catch-all takes the key.
    Fallback(Fallback),
    /// Nothing takes the key.
    Unhandled,
}

/// How a key is dispatched: where it goes, and whether following a
/// process stops first.
#[derive(Debug, Clone, Copy, PartialEq, Eq, Structural)]
pub struct Dispatch {
    pub route: Route,
    pub unfollow: bool,
}

/// Dispatches `key` in overlay `state`: with no overlay open the hooks
/// run first (a pending terminate (`armed`) is disarmed by any key but
/// `t` / `T`, which is then consumed; a navigation key stops following a
/// process (`following`) and goes on); then the first binding of `table`
/// that fires takes the key, else the overlay's catch-all, if any.
pub fn dispatch(table: &Vec<Binding>, key: &Key, state: OverlayKind, vim: bool, armed: bool, following: bool) -> (r: Dispatch)
    ensures
        state == OverlayKind::Closed && armed && !(*key == Key::Char('t') || *key == Key::Char('T'))
            ==> r == (Dispatch { route: Route::Disarmed, unfollow: false }),
        !(state == OverlayKind::Closed && armed && !(*key == Key::Char('t') || *key == Key::Char('T'))) ==> {
            &&& r.unfollow == (state == OverlayKind::Closed && following && is_nav(*key))
            &&& match r.route {
                Route::Binding(i) => i < table@.len()
                    && fires(table@[i as int].keys@, table@[i as int].states@, *key, state, vim)
                    && forall|j: int| 0 <= j < i ==> !fires(#[trigger] table@[j].keys@, table@[j].states@, *key, state, vim),
                Route::Fallback(f) => (forall|j: int| 0 <= j < table@.len() ==> !fires(#[trigger] table@[j].keys@, table@[j].states@, *key, state, vim))
                    && Some(f) == (match state {
                        OverlayKind::Filter => Some(Fallback::FilterTyped),
                        OverlayKind::OptionsEdit => Some(Fallback::OptionsEditTyped),
                        _ => None::<Fallback>,
                    }),
                Route::Unhandled => (forall|j: int| 0 <= j < table@.len() ==> !fires(#[trigger] table@[j].keys@, table@[j].states@, *key, state, vim))
                    && state != OverlayKind::Filter && state != OverlayKind::OptionsEdit,
                Route::Disarmed => false,
            }
        },
{
    let hooks = state == OverlayKind::Closed;
    if hooks && armed && disarms_terminate(key) {
        return Dispatch { route: Route::Disarmed, unfollow: false };
    }
    let unfollow = hooks && following && is_nav_key(key);
    let route = match find_binding(table, key, state, vim) {
        Some(i) => Route::Binding(i),
        None => match fallback_for(state) {
            Some(f) => Route::Fallback(f),
            None => Route::Unhandled,
        },
    };
    Dispatch { route, unfollow }
}

/// Whether `key` is a process-list navigation key.
pub open spec fn is_nav(key: Key) -> bool {
    match key {
        Key::Up | Key::Down | Key::PageUp | Key::PageDown | Key::Home | Key::End
        | Key::CtrlB | Key::CtrlF | Key::CtrlD | Key::CtrlU => true,
        Key::Char(c) => c == 'j' || c == 'k',
        _ => false,
    }
}

/// Whether `key` navigates the process list (and so stops following).
pub fn is_nav_key(key: &Key) -> (r: bool)
    ensures
        r == is_nav(*key),
{
    match key {
        Key::Up | Key::Down | Key::PageUp | Key::PageDown | Key::Home | Key::End
        | Key::CtrlB | Key::CtrlF | Key::CtrlD | Key::CtrlU => true,
        Key::Char(c) => *c == 'j' || *c == 'k',
        _ => false,
    }
}

/// The bindings active with no overlay open, in match order.
pub open spec fn normal_bindings() -> Seq<BindingRow> {
    normal_bindings_a() + normal_bindings_b() + normal_bindings_c()
}

/// Part 1 of the bindings active with no overlay open.
pub open spec fn normal_bindings_a() -> Seq<BindingRow> {
    seq![
        (seq![KeySpec::Always(Key::Char('q'))], seq![OverlayKind::Closed], Some(("Global"@, "q / Ctrl+C"@, "Quit"@)), Action::NormalQuit),
        (seq![KeySpec::Always(Key::Escape), KeySpec::Always(Key::Char('m'))], seq![OverlayKind::Closed], Some(("Global"@, "m / Esc"@, "Toggle main menu"@)), Action::NormalOpenMainMenu),
        (seq![KeySpec::Always(Key::Char('?')), KeySpec::Always(Key::F(1))], seq![OverlayKind::Closed], Some(("Global"@, "? / F1"@, "Toggle help"@)), Action::NormalOpenHelpMenu),
        (seq![KeySpec::Always(Key::Char('o')), KeySpec::Always(Key::F(2))], seq![OverlayKind::Closed], Some(("Global"@, "o / F2"@, "Toggle options"@)), Action::NormalOpenOptionsMenu),
        (seq![KeySpec::Always(Key::Char('p'))], seq![OverlayKind::Closed], Some(("Global"@, "p / Shift+P"@, "Cycle presets forward/back"@)), Action::NormalPresetForward),
        (seq![KeySpec::Always(Key::Char('P'))], seq![OverlayKind::Closed], None, Action::NormalPresetBack),
        (seq![KeySpec::Always(Key::CtrlR)], seq![OverlayKind::Closed], Some(("Global"@, "Ctrl+R"@, "Reload config"@)), Action::NormalConfigReload),
        (seq![KeySpec::Always(Key::Char('+'))], seq![OverlayKind::Closed], Some(("Global"@, "+ / -"@, "Adjust update speed"@)), Action::NormalUpdateRateUp),
        (seq![KeySpec::Always(Key::Char('-'))], seq![OverlayKind::Closed], None, Action::NormalUpdateRateDown),
        (seq![KeySpec::Always(Key::Char('1')), KeySpec::Always(Key::Char('2')), KeySpec::Always(Key::Char('3')), KeySpec::Always(Key::Char('4')), KeySpec::Always(Key::Char('5'))], seq![OverlayKind::Closed], Some(("Global"@, "1-5"@, "Toggle widget (cpu/mem/net/proc/disk)"@)), Action::NormalToggleWidgetMain),
        (seq![KeySpec::Always(Key::Char('6')), KeySpec::Always(Key::Char('7')), KeySpec::Always(Key::Char('8')), KeySpec::Always(Key::Char('9'))], seq![OverlayKind::Closed], Some(("Global"@, "6-9"@, "Toggle GPU 0-3"@)), Action::NormalToggleWidgetGpuLow),
        (seq![KeySpec::Always(Key::Char('0'))], seq![OverlayKind::Closed], Some(("Global"@, "0"@, "Toggle GPU 4-7"@)), Action::NormalToggleWidgetGpuHigh),
        (seq![KeySpec::Always(Key::Char('R'))], seq![OverlayKind::Closed], Some(("Global"@, "Shift+R"@, "Restore all hidden widgets"@)), Action::NormalRestoreWidgets),
        (seq![KeySpec::Always(Key::Up), KeySpec::VimOnly(Key::Char('k'))], seq![OverlayKind::Closed], Some(("Process"@, "Up / Down"@, "Select process"@)), Action::NormalNavUp),
    ]
}

/// Part 2 of the bindings active with no overlay open.
pub open spec fn normal_bindings_b() -> Seq<BindingRow> {
    seq![
        (seq![KeySpec::Always(Key::Down), KeySpec::VimOnly(Key::Char('j'))], seq![OverlayKind::Closed], None, Action::NormalNavDown),
        (seq![KeySpec::Always(Key::PageUp)], seq![OverlayKind::Closed], Some(("Process"@, "PgUp / PgDn"@, "Page through processes"@)), Action::NormalNavPageUp),
        (seq![KeySpec::Always(Key::PageDown)], seq![OverlayKind::Closed], None, Action::NormalNavPageDown),
        (seq![KeySpec::VimOnly(Key::CtrlB)], seq![OverlayKind::Closed], None, Action::NormalNavPageUp),
        (seq![KeySpec::VimOnly(Key::CtrlF)], seq![OverlayKind::Closed], None, Action::NormalNavPageDown),
        (seq![KeySpec::VimOnly(Key::CtrlD)], seq![OverlayKind::Closed], None, Action::NormalNavHalfPageDown),
        (seq![KeySpec::VimOnly(Key::CtrlU)], seq![OverlayKind::Closed], None, Action::NormalNavHalfPageUp),
        (seq![KeySpec::Always(Key::Home), KeySpec::VimOnly(Key::Char('g'))], seq![OverlayKind::Closed], Some(("Process"@, "Home / End"@, "Jump to first/last"@)), Action::NormalNavHome),
        (seq![KeySpec::Always(Key::End), KeySpec::VimOnly(Key::Char('G'))], seq![OverlayKind::Closed], None, Action::NormalNavEnd),
        (seq![KeySpec::Always(Key::Left)], seq![OverlayKind::Closed], Some(("Process"@, "Left / Right"@, "Cycle sort column"@)), Action::NormalSortBack),
        (seq![KeySpec::Always(Key::Right)], seq![OverlayKind::Closed], None, Action::NormalSortForward),
        (seq![KeySpec::VimOnly(Key::Char('h'))], seq![OverlayKind::Closed], None, Action::NormalSortBack),
        (seq![KeySpec::VimOnly(Key::Char('l'))], seq![OverlayKind::Closed], None, Action::NormalSortForward),
        (seq![KeySpec::Always(Key::Char('r'))], seq![OverlayKind::Closed], Some(("Process"@, "r"@, "Toggle reverse sort"@)), Action::NormalToggleReverse),
    ]
}

/// Part 3 of the bindings active with no overlay open.
pub open spec fn normal_bindings_c() -> Seq<BindingRow> {
    seq![
        (seq![KeySpec::Always(Key::Char('f')), KeySpec::Always(Key::Char('/'))], seq![OverlayKind::Closed], Some(("Process"@, "f / /"@, "Filter processes"@)), Action::NormalOpenFilter),
        (seq![KeySpec::Always(Key::Char('e'))], seq![OverlayKind::Closed], Some(("Process"@, "e"@, "Toggle tree view"@)), Action::NormalToggleTree),
        (seq![KeySpec::Always(Key::Char('c'))], seq![OverlayKind::Closed], Some(("Process"@, "c"@, "Toggle per-core CPU"@)), Action::NormalTogglePerCore),
        (seq![KeySpec::Always(Key::Char('t'))], seq![OverlayKind::Closed], Some(("Process"@, "t"@, "Terminate process (graceful, double-tap)"@)), Action::NormalTerminate),
        (seq![KeySpec::Always(Key::Char('T'))], seq![OverlayKind::Closed], Some(("Process"@, "Shift+T"@, "Kill process (force, double-tap)"@)), Action::NormalKill),
        (seq![KeySpec::Always(Key::Enter)], seq![OverlayKind::Closed], Some(("Process"@, "Enter"@, "Show/hide process details"@)), Action::NormalDetail),
        (seq![KeySpec::Always(Key::Char('F'))], seq![OverlayKind::Closed], Some(("Process"@, "Shift+F"@, "Follow/unfollow process"@)), Action::NormalFollow),
        (seq![KeySpec::Always(Key::Char('i'))], seq![OverlayKind::Closed], Some(("Disk"@, "i"@, "Toggle disk IO mode"@)), Action::NormalToggleIo),
        (seq![KeySpec::Always(Key::Char('b'))], seq![OverlayKind::Closed], Some(("Network"@, "n / b"@, "Cycle network interfaces"@)), Action::NormalIfaceBack),
        (seq![KeySpec::Always(Key::Char('n'))], seq![OverlayKind::Closed], None, Action::NormalIfaceForward),
        (seq![KeySpec::Always(Key::Char('a'))], seq![OverlayKind::Closed], Some(("Network"@, "a"@, "Toggle network auto scale"@)), Action::NormalNetAuto),
        (seq![KeySpec::Always(Key::Char('s'))], seq![OverlayKind::Closed], Some(("Network"@, "s"@, "Toggle network sync scale"@)), Action::NormalNetSync),
        (seq![KeySpec::Always(Key::Char('z'))], seq![OverlayKind::Closed], Some(("Network"@, "z"@, "Reset network totals"@)), Action::NormalNetZero),
    ]
}

/// The bindings active in the main menu, in match order.
pub open spec fn main_menu_bindings() -> Seq<BindingRow> {
    seq![
        (seq![KeySpec::Always(Key::Char('q'))], seq![OverlayKind::Main], None, Action::MainMenuQuit),
        (seq![KeySpec::Always(Key::Escape), KeySpec::Always(Key::Char('m'))], seq![OverlayKind::Main], None, Action::MainMenuClose),
        (seq![KeySpec::Always(Key::Up), KeySpec::Always(Key::ShiftTab), KeySpec::VimOnly(Key::Char('k'))], seq![OverlayKind::Main], None, Action::MainMenuSelectPrev),
        (seq![KeySpec::Always(Key::Down), KeySpec::Always(Key::Tab), KeySpec::VimOnly(Key::Char('j'))], seq![OverlayKind::Main], None, Action::MainMenuSelectNext),
        (seq![KeySpec::Always(Key::Enter), KeySpec::Always(Key::Space)], seq![OverlayKind::Main], None, Action::MainMenuActivateSelected),
        (seq![KeySpec::Always(Key::Char('o')), KeySpec::Always(Key::F(2))], seq![OverlayKind::Main], None, Action::MainMenuOpenOptions),
        (seq![KeySpec::Always(Key::Char('?')), KeySpec::Always(Key::F(1))], seq![OverlayKind::Main], None, Action::MainMenuOpenHelp),
    ]
}

/// The bindings active in the help overlay, in match order.
pub open spec fn help_bindings() -> Seq<BindingRow> {
    seq![
        (seq![KeySpec::Always(Key::Char('q'))], seq![OverlayKind::Help], None, Action::NormalQuit),
        (seq![KeySpec::Always(Key::Escape), KeySpec::Always(Key::Char('?')), KeySpec::Always(Key::F(1))], seq![OverlayKind::Help], None, Action::HelpClose),
    ]
}

/// The bindings active in the options overlay, in match order.
pub open spec fn options_bindings() -> Seq<BindingRow> {
    seq![
        (seq![KeySpec::Always(Key::Char('q'))], seq![OverlayKind::Options], None, Action::OptionsQuit),
        (seq![KeySpec::Always(Key::Escape), KeySpec::Always(Key::Backspace), KeySpec::Always(Key::Char('o')), KeySpec::Always(Key::F(2))], seq![OverlayKind::Options], None, Action::OptionsClose),
        (seq![KeySpec::Always(Key::Tab)], seq![OverlayKind::Options], None, Action::OptionsCatNext),
        (seq![KeySpec::Always(Key::ShiftTab)], seq![OverlayKind::Options], None, Action::OptionsCatPrev),
        (seq![KeySpec::Always(Key::Char('r')), KeySpec::Always(Key::Char('s')), KeySpec::Always(Key::Char('c')), KeySpec::Always(Key::Char('m')), KeySpec::Always(Key::Char('n')), KeySpec::Always(Key::Char('p')), KeySpec::Always(Key::Char('g')), KeySpec::Always(Key::Char('d'))], seq![OverlayKind::Options], None, Action::OptionsCatSelectHotkey),
        (seq![KeySpec::Always(Key::Up), KeySpec::VimOnly(Key::Char('k'))], seq![OverlayKind::Options], None, Action::OptionsSelectUp),
        (seq![KeySpec::Always(Key::Down), KeySpec::VimOnly(Key::Char('j'))], seq![OverlayKind::Options], None, Action::OptionsSelectDown),
        (seq![KeySpec::Always(Key::PageUp)], seq![OverlayKind::Options], None, Action::OptionsPageUp),
        (seq![KeySpec::Always(Key::PageDown)], seq![OverlayKind::Options], None, Action::OptionsPageDown),
        (seq![KeySpec::Always(Key::Enter)], seq![OverlayKind::Options], None, Action::OptionsEnter),
        (seq![KeySpec::Always(Key::Left), KeySpec::VimOnly(Key::Char('h'))], seq![OverlayKind::Options], None, Action::OptionsStepLeft),
        (seq![KeySpec::Always(Key::Right), KeySpec::Always(Key::Space), KeySpec::VimOnly(Key::Char('l'))], seq![OverlayKind::Options], None, Action::OptionsStepRight),
    ]
}

/// The bindings active while an option is edited inline, in match order.
pub open spec fn options_edit_bindings() -> Seq<BindingRow> {
    seq![
        (seq![KeySpec::Always(Key::Escape)], seq![OverlayKind::OptionsEdit], None, Action::OptionsEditCancel),
        (seq![KeySpec::Always(Key::Enter)], seq![OverlayKind::OptionsEdit], None, Action::OptionsEditCommit),
        (seq![KeySpec::Always(Key::Backspace)], seq![OverlayKind::OptionsEdit], None, Action::OptionsEditBackspace),
        (seq![KeySpec::Always(Key::Delete)], seq![OverlayKind::OptionsEdit], None, Action::OptionsEditDelete),
        (seq![KeySpec::Always(Key::Left)], seq![OverlayKind::OptionsEdit], None, Action::OptionsEditMoveLeft),
        (seq![KeySpec::Always(Key::Right)], seq![OverlayKind::OptionsEdit], None, Action::OptionsEditMoveRight),
        (seq![KeySpec::Always(Key::Home)], seq![OverlayKind::OptionsEdit], None, Action::OptionsEditMoveHome),
        (seq![KeySpec::Always(Key::End)], seq![OverlayKind::OptionsEdit], None, Action::OptionsEditMoveEnd),
    ]
}

/// The bindings active in the process filter, in match order.
pub open spec fn filter_bindings() -> Seq<BindingRow> {
    seq![
        (seq![KeySpec::Always(Key::Escape)], seq![OverlayKind::Filter], None, Action::FilterCancel),
        (seq![KeySpec::Always(Key::Enter)], seq![OverlayKind::Filter], None, Action::FilterCommit),
        (seq![KeySpec::Always(Key::Backspace)], seq![OverlayKind::Filter], None, Action::FilterBackspace),
        (seq![KeySpec::Always(Key::Delete)], seq![OverlayKind::Filter], None, Action::FilterDeleteClear),
    ]
}

fn push_normal_bindings_a(t: &mut Vec<Binding>)
    ensures
        binding_rows(final(t)@) == binding_rows(old(t)@) + normal_bindings_a(),
{
    let ghost start = t@;
    let b = Binding { keys: vec![KeySpec::Always(Key::Char('q'))], states: vec![OverlayKind::Closed], help: Some(HelpEntry { category: "Global", keys: "q / Ctrl+C", description: "Quit" }), action: Action::NormalQuit };
    assert(binding_row(b) == normal_bindings_a()[0]);
    t.push(b);
    let b = Binding { keys: vec![KeySpec::Always(Key::Escape), KeySpec::Always(Key::Char('m'))], states: vec![OverlayKind::Closed], help: Some(HelpEntry { category: "Global", keys: "m / Esc", description: "Toggle main menu" }), action: Action::NormalOpenMainMenu };
    assert(binding_row(b) == normal_bindings_a()[1]);
    t.push(b);
    let b = Binding { keys: vec![KeySpec::Always(Key::Char('?')), KeySpec::Always(Key::F(1))], states: vec![OverlayKind::Closed], help: Some(HelpEntry { category: "Global", keys: "? / F1", description: "Toggle help" }), action: Action::NormalOpenHelpMenu };
    assert(binding_row(b) == normal_bindings_a()[2]);
    t.push(b);
    let b = Binding { keys: vec![KeySpec::Always(Key::Char('o')), KeySpec::Always(Key::F(2))], states: vec![OverlayKind::Closed], help: Some(HelpEntry { category: "Global", keys: "o / F2", description: "Toggle options" }), action: Action::NormalOpenOptionsMenu };
    assert(binding_row(b) == normal_bindings_a()[3]);
    t.push(b);
    let b = Binding { keys: vec![KeySpec::Always(Key::Char('p'))], states: vec![OverlayKind::Closed], help: Some(HelpEntry { category: "Global", keys: "p / Shift+P", description: "Cycle presets forward/back" }), action: Action::NormalPresetForward };
    assert(binding_row(b) == normal_bindings_a()[4]);
    t.push(b);
    let b = Binding { keys: vec![KeySpec::Always(Key::Char('P'))], states: vec![OverlayKind::Closed], help: None, action: Action::NormalPresetBack };
    assert(binding_row(b) == normal_bindings_a()[5]);
    t.push(b);
    let b = Binding { keys: vec![KeySpec::Always(Key::CtrlR)], states: vec![OverlayKind::Closed], help: Some(HelpEntry { category: "Global", keys: "Ctrl+R", description: "Reload config" }), action: Action::NormalConfigReload };
    assert(binding_row(b) == normal_bindings_a()[6]);
    t.push(b);
    let b = Binding { keys: vec![KeySpec::Always(Key::Char('+'))], states: vec![OverlayKind::Closed], help: Some(HelpEntry { category: "Global", keys: "+ / -", description: "Adjust update speed" }), action: Action::NormalUpdateRateUp };
    assert(binding_row(b) == normal_bindings_a()[7]);
    t.push(b);
    let b = Binding { keys: vec![KeySpec::Always(Key::Char('-'))], states: vec![OverlayKind::Closed], help: None, action: Action::NormalUpdateRateDown };
    assert(binding_row(b) == normal_bindings_a()[8]);
    t.push(b);
    let b = Binding { keys: vec![KeySpec::Always(Key::Char('1')), KeySpec::Always(Key::Char('2')), KeySpec::Always(Key::Char('3')), KeySpec::Always(Key::Char('4')), KeySpec::Always(Key::Char('5'))], states: vec![OverlayKind::Closed], help: Some(HelpEntry { category: "Global", keys: "1-5", description: "Toggle widget (cpu/mem/net/proc/disk)" }), action: Action::NormalToggleWidgetMain };
    assert(binding_row(b) == normal_bindings_a()[9]);
    t.push(b);
    let b = Binding { keys: vec![KeySpec::Always(Key::Char('6')), KeySpec::Always(Key::Char('7')), KeySpec::Always(Key::Char('8')), KeySpec::Always(Key::Char('9'))], states: vec![OverlayKind::Closed], help: Some(HelpEntry { category: "Global", keys: "6-9", description: "Toggle GPU 0-3" }), action: Action::NormalToggleWidgetGpuLow };
    assert(binding_row(b) == normal_bindings_a()[10]);
    t.push(b);
    let b = Binding { keys: vec![KeySpec::Always(Key::Char('0'))], states: vec![OverlayKind::Closed], help: Some(HelpEntry { category: "Global", keys: "0", description: "Toggle GPU 4-7" }), action: Action::NormalToggleWidgetGpuHigh };
    assert(binding_row(b) == normal_bindings_a()[11]);
    t.push(b);
    let b = Binding { keys: vec![KeySpec::Always(Key::Char('R'))], states: vec![OverlayKind::Closed], help: Some(HelpEntry { category: "Global", keys: "Shift+R", description: "Restore all hidden widgets" }), action: Action::NormalRestoreWidgets };
    assert(binding_row(b) == normal_bindings_a()[12]);
    t.push(b);
    let b = Binding { keys: vec![KeySpec::Always(Key::Up), KeySpec::VimOnly(Key::Char('k'))], states: vec![OverlayKind::Closed], help: Some(HelpEntry { category: "Process", keys: "Up / Down", description: "Select process" }), action: Action::NormalNavUp };
    assert(binding_row(b) == normal_bindings_a()[13]);
    t.push(b);
    assert(binding_rows(t@) =~= binding_rows(start) + normal_bindings_a());
}

fn push_normal_bindings_b(t: &mut Vec<Binding>)
    ensures
        binding_rows(final(t)@) == binding_rows(old(t)@) + normal_bindings_b(),
{
    let ghost start = t@;
    let b = Binding { keys: vec![KeySpec::Always(Key::Down), KeySpec::VimOnly(Key::Char('j'))], states: vec![OverlayKind::Closed], help: None, action: Action::NormalNavDown };
    assert(binding_row(b) == normal_bindings_b()[0]);
    t.push(b);
    let b = Binding { keys: vec![KeySpec::Always(Key::PageUp)], states: vec![OverlayKind::Closed], help: Some(HelpEntry { category: "Process", keys: "PgUp / PgDn", description: "Page through processes" }), action: Action::NormalNavPageUp };
    assert(binding_row(b) == normal_bindings_b()[1]);
    t.push(b);
    let b = Binding { keys: vec![KeySpec::Always(Key::PageDown)], states: vec![OverlayKind::Closed], help: None, action: Action::NormalNavPageDown };
    assert(binding_row(b) == normal_bindings_b()[2]);
    t.push(b);
    let b = Binding { keys: vec![KeySpec::VimOnly(Key::CtrlB)], states: vec![OverlayKind::Closed], help: None, action: Action::NormalNavPageUp };
    assert(binding_row(b) == normal_bindings_b()[3]);
    t.push(b);
    let b = Binding { keys: vec![KeySpec::VimOnly(Key::CtrlF)], states: vec![OverlayKind::Closed], help: None, action: Action::NormalNavPageDown };
    assert(binding_row(b) == normal_bindings_b()[4]);
    t.push(b);
    let b = Binding { keys: vec![KeySpec::VimOnly(Key::CtrlD)], states: vec![OverlayKind::Closed], help: None, action: Action::NormalNavHalfPageDown };
    assert(binding_row(b) == normal_bindings_b()[5]);
    t.push(b);
    let b = Binding { keys: vec![KeySpec::VimOnly(Key::CtrlU)], states: vec![OverlayKind::Closed], help: None, action: Action::NormalNavHalfPageUp };
    assert(binding_row(b) == normal_bindings_b()[6]);
    t.push(b);
    let b = Binding { keys: vec![KeySpec::Always(Key::Home), KeySpec::VimOnly(Key::Char('g'))], states: vec![OverlayKind::Closed], help: Some(HelpEntry { category: "Process", keys: "Home / End", description: "Jump to first/last" }), action: Action::NormalNavHome };
    assert(binding_row(b) == normal_bindings_b()[7]);
    t.push(b);
    let b = Binding { keys: vec![KeySpec::Always(Key::End), KeySpec::VimOnly(Key::Char('G'))], states: vec![OverlayKind::Closed], help: None, action: Action::NormalNavEnd };
    assert(binding_row(b) == normal_bindings_b()[8]);
    t.push(b);
    let b = Binding { keys: vec![KeySpec::Always(Key::Left)], states: vec![OverlayKind::Closed], help: Some(HelpEntry { category: "Process", keys: "Left / Right", description: "Cycle sort column" }), action: Action::NormalSortBack };
    assert(binding_row(b) == normal_bindings_b()[9]);
    t.push(b);
    let b = Binding { keys: vec![KeySpec::Always(Key::Right)], states: vec![OverlayKind::Closed], help: None, action: Action::NormalSortForward };
    assert(binding_row(b) == normal_bindings_b()[10]);
    t.push(b);
    let b = Binding { keys: vec![KeySpec::VimOnly(Key::Char('h'))], states: vec![OverlayKind::Closed], help: None, action: Action::NormalSortBack };
    assert(binding_row(b) == normal_bindings_b()[11]);
    t.push(b);
    let b = Binding { keys: vec![KeySpec::VimOnly(Key::Char('l'))], states: vec![OverlayKind::Closed], help: None, action: Action::NormalSortForward };
    assert(binding_row(b) == normal_bindings_b()[12]);
    t.push(b);
    let b = Binding { keys: vec![KeySpec::Always(Key::Char('r'))], states: vec![OverlayKind::Closed], help: Some(HelpEntry { category: "Process", keys: "r", description: "Toggle reverse sort" }), action: Action::NormalToggleReverse };
    assert(binding_row(b) == normal_bindings_b()[13]);
    t.push(b);
    assert(binding_rows(t@) =~= binding_rows(start) + normal_bindings_b());
}

fn push_normal_bindings_c(t: &mut Vec<Binding>)
    ensures
        binding_rows(final(t)@) == binding_rows(old(t)@) + normal_bindings_c(),
{
    let ghost start = t@;
    let b = Binding { keys: vec![KeySpec::Always(Key::Char('f')), KeySpec::Always(Key::Char('/'))], states: vec![OverlayKind::Closed], help: Some(HelpEntry { category: "Process", keys: "f / /", description: "Filter processes" }), action: Action::NormalOpenFilter };
    assert(binding_row(b) == normal_bindings_c()[0]);
    t.push(b);
    let b = Binding { keys: vec![KeySpec::Always(Key::Char('e'))], states: vec![OverlayKind::Closed], help: Some(HelpEntry { category: "Process", keys: "e", description: "Toggle tree view" }), action: Action::NormalToggleTree };
    assert(binding_row(b) == normal_bindings_c()[1]);
    t.push(b);
    let b = Binding { keys: vec![KeySpec::Always(Key::Char('c'))], states: vec![OverlayKind::Closed], help: Some(HelpEntry { category: "Process", keys: "c", description: "Toggle per-core CPU" }), action: Action::NormalTogglePerCore };
    assert(binding_row(b) == normal_bindings_c()[2]);
    t.push(b);
    let b = Binding { keys: vec![KeySpec::Always(Key::Char('t'))], states: vec![OverlayKind::Closed], help: Some(HelpEntry { category: "Process", keys: "t", description: "Terminate process (graceful, double-tap)" }), action: Action::NormalTerminate };
    assert(binding_row(b) == normal_bindings_c()[3]);
    t.push(b);
    let b = Binding { keys: vec![KeySpec::Always(Key::Char('T'))], states: vec![OverlayKind::Closed], help: Some(HelpEntry { category: "Process", keys: "Shift+T", description: "Kill process (force, double-tap)" }), action: Action::NormalKill };
    assert(binding_row(b) == normal_bindings_c()[4]);
    t.push(b);
    let b = Binding { keys: vec![KeySpec::Always(Key::Enter)], states: vec![OverlayKind::Closed], help: Some(HelpEntry { category: "Process", keys: "Enter", description: "Show/hide process details" }), action: Action::NormalDetail };
    assert(binding_row(b) == normal_bindings_c()[5]);
    t.push(b);
    let b = Binding { keys: vec![KeySpec::Always(Key::Char('F'))], states: vec![OverlayKind::Closed], help: Some(HelpEntry { category: "Process", keys: "Shift+F", description: "Follow/unfollow process" }), action: Action::NormalFollow };
    assert(binding_row(b) == normal_bindings_c()[6]);
    t.push(b);
    let b = Binding { keys: vec![KeySpec::Always(Key::Char('i'))], states: vec![OverlayKind::Closed], help: Some(HelpEntry { category: "Disk", keys: "i", description: "Toggle disk IO mode" }), action: Action::NormalToggleIo };
    assert(binding_row(b) == normal_bindings_c()[7]);
    t.push(b);
    let b = Binding { keys: vec![KeySpec::Always(Key::Char('b'))], states: vec![OverlayKind::Closed], help: Some(HelpEntry { category: "Network", keys: "n / b", description: "Cycle network interfaces" }), action: Action::NormalIfaceBack };
    assert(binding_row(b) == normal_bindings_c()[8]);
    t.push(b);
    let b = Binding { keys: vec![KeySpec::Always(Key::Char('n'))], states: vec![OverlayKind::Closed], help: None, action: Action::NormalIfaceForward };
    assert(binding_row(b) == normal_bindings_c()[9]);
    t.push(b);
    let b = Binding { keys: vec![KeySpec::Always(Key::Char('a'))], states: vec![OverlayKind::Closed], help: Some(HelpEntry { category: "Network", keys: "a", description: "Toggle network auto scale" }), action: Action::NormalNetAuto };
    assert(binding_row(b) == normal_bindings_c()[10]);
    t.push(b);
    let b = Binding { keys: vec![KeySpec::Always(Key::Char('s'))], states: vec![OverlayKind::Closed], help: Some(HelpEntry { category: "Network", keys: "s", description: "Toggle network sync scale" }), action: Action::NormalNetSync };
    assert(binding_row(b) == normal_bindings_c()[11]);
    t.push(b);
    let b = Binding { keys: vec![KeySpec::Always(Key::Char('z'))], states: vec![OverlayKind::Closed], help: Some(HelpEntry { category: "Network", keys: "z", description: "Reset network totals" }), action: Action::NormalNetZero };
    assert(binding_row(b) == normal_bindings_c()[12]);
    t.push(b);
    assert(binding_rows(t@) =~= binding_rows(start) + normal_bindings_c());
}

fn push_main_menu_bindings(t: &mut Vec<Binding>)
    ensures
        binding_rows(final(t)@) == binding_rows(old(t)@) + main_menu_bindings(),
{
    let ghost start = t@;
    let b = Binding { keys: vec![KeySpec::Always(Key::Char('q'))], states: vec![OverlayKind::Main], help: None, action: Action::MainMenuQuit };
    assert(binding_row(b) == main_menu_bindings()[0]);
    t.push(b);
    let b = Binding { keys: vec![KeySpec::Always(Key::Escape), KeySpec::Always(Key::Char('m'))], states: vec![OverlayKind::Main], help: None, action: Action::MainMenuClose };
    assert(binding_row(b) == main_menu_bindings()[1]);
    t.push(b);
    let b = Binding { keys: vec![KeySpec::Always(Key::Up), KeySpec::Always(Key::ShiftTab), KeySpec::VimOnly(Key::Char('k'))], states: vec![OverlayKind::Main], help: None, action: Action::MainMenuSelectPrev };
    assert(binding_row(b) == main_menu_bindings()[2]);
    t.push(b);
    let b = Binding { keys: vec![KeySpec::Always(Key::Down), KeySpec::Always(Key::Tab), KeySpec::VimOnly(Key::Char('j'))], states: vec![OverlayKind::Main], help: None, action: Action::MainMenuSelectNext };
    assert(binding_row(b) == main_menu_bindings()[3]);
    t.push(b);
    let b = Binding { keys: vec![KeySpec::Always(Key::Enter), KeySpec::Always(Key::Space)], states: vec![OverlayKind::Main], help: None, action: Action::MainMenuActivateSelected };
    assert(binding_row(b) == main_menu_bindings()[4]);
    t.push(b);
    let b = Binding { keys: vec![KeySpec::Always(Key::Char('o')), KeySpec::Always(Key::F(2))], states: vec![OverlayKind::Main], help: None, action: Action::MainMenuOpenOptions };
    assert(binding_row(b) == main_menu_bindings()[5]);
    t.push(b);
    let b = Binding { keys: vec![KeySpec::Always(Key::Char('?')), KeySpec::Always(Key::F(1))], states: vec![OverlayKind::Main], help: None, action: Action::MainMenuOpenHelp };
    assert(binding_row(b) == main_menu_bindings()[6]);
    t.push(b);
    assert(binding_rows(t@) =~= binding_rows(start) + main_menu_bindings());
}

fn push_help_bindings(t: &mut Vec<Binding>)
    ensures
        binding_rows(final(t)@) == binding_rows(old(t)@) + help_bindings(),
{
    let ghost start = t@;
    let b = Binding { keys: vec![KeySpec::Always(Key::Char('q'))], states: vec![OverlayKind::Help], help: None, action: Action::NormalQuit };
    assert(binding_row(b) == help_bindings()[0]);
    t.push(b);
    let b = Binding { keys: vec![KeySpec::Always(Key::Escape), KeySpec::Always(Key::Char('?')), KeySpec::Always(Key::F(1))], states: vec![OverlayKind::Help], help: None, action: Action::HelpClose };
    assert(binding_row(b) == help_bindings()[1]);
    t.push(b);
    assert(binding_rows(t@) =~= binding_rows(start) + help_bindings());
}

fn push_options_bindings(t: &mut Vec<Binding>)
    ensures
        binding_rows(final(t)@) == binding_rows(old(t)@) + options_bindings(),
{
    let ghost start = t@;
    let b = Binding { keys: vec![KeySpec::Always(Key::Char('q'))], states: vec![OverlayKind::Options], help: None, action: Action::OptionsQuit };
    assert(binding_row(b) == options_bindings()[0]);
    t.push(b);
    let b = Binding { keys: vec![KeySpec::Always(Key::Escape), KeySpec::Always(Key::Backspace), KeySpec::Always(Key::Char('o')), KeySpec::Always(Key::F(2))], states: vec![OverlayKind::Options], help: None, action: Action::OptionsClose };
    assert(binding_row(b) == options_bindings()[1]);
    t.push(b);
    let b = Binding { keys: vec![KeySpec::Always(Key::Tab)], states: vec![OverlayKind::Options], help: None, action: Action::OptionsCatNext };
    assert(binding_row(b) == options_bindings()[2]);
    t.push(b);
    let b = Binding { keys: vec![KeySpec::Always(Key::ShiftTab)], states: vec![OverlayKind::Options], help: None, action: Action::OptionsCatPrev };
    assert(binding_row(b) == options_bindings()[3]);
    t.push(b);
    let b = Binding { keys: vec![KeySpec::Always(Key::Char('r')), KeySpec::Always(Key::Char('s')), KeySpec::Always(Key::Char('c')), KeySpec::Always(Key::Char('m')), KeySpec::Always(Key::Char('n')), KeySpec::Always(Key::Char('p')), KeySpec::Always(Key::Char('g')), KeySpec::Always(Key::Char('d'))], states: vec![OverlayKind::Options], help: None, action: Action::OptionsCatSelectHotkey };
    assert(binding_row(b) == options_bindings()[4]);
    t.push(b);
    let b = Binding { keys: vec![KeySpec::Always(Key::Up), KeySpec::VimOnly(Key::Char('k'))], states: vec![OverlayKind::Options], help: None, action: Action::OptionsSelectUp };
    assert(binding_row(b) == options_bindings()[5]);
    t.push(b);
    let b = Binding { keys: vec![KeySpec::Always(Key::Down), KeySpec::VimOnly(Key::Char('j'))], states: vec![OverlayKind::Options], help: None, action: Action::OptionsSelectDown };
    assert(binding_row(b) == options_bindings()[6]);
    t.push(b);
    let b = Binding { keys: vec![KeySpec::Always(Key::PageUp)], states: vec![OverlayKind::Options], help: None, action: Action::OptionsPageUp };
    assert(binding_row(b) == options_bindings()[7]);
    t.push(b);
    let b = Binding { keys: vec![KeySpec::Always(Key::PageDown)], states: vec![OverlayKind::Options], help: None, action: Action::OptionsPageDown };
    assert(binding_row(b) == options_bindings()[8]);
    t.push(b);
    let b = Binding { keys: vec![KeySpec::Always(Key::Enter)], states: vec![OverlayKind::Options], help: None, action: Action::OptionsEnter };
    assert(binding_row(b) == options_bindings()[9]);
    t.push(b);
    let b = Binding { keys: vec![KeySpec::Always(Key::Left), KeySpec::VimOnly(Key::Char('h'))], states: vec![OverlayKind::Options], help: None, action: Action::OptionsStepLeft };
    assert(binding_row(b) == options_bindings()[10]);
    t.push(b);
    let b = Binding { keys: vec![KeySpec::Always(Key::Right), KeySpec::Always(Key::Space), KeySpec::VimOnly(Key::Char('l'))], states: vec![OverlayKind::Options], help: None, action: Action::OptionsStepRight };
    assert(binding_row(b) == options_bindings()[11]);
    t.push(b);
    assert(binding_rows(t@) =~= binding_rows(start) + options_bindings());
}

fn push_options_edit_bindings(t: &mut Vec<Binding>)
    ensures
        binding_rows(final(t)@) == binding_rows(old(t)@) + options_edit_bindings(),
{
    let ghost start = t@;
    let b = Binding { keys: vec![KeySpec::Always(Key::Escape)], states: vec![OverlayKind::OptionsEdit], help: None, action: Action::OptionsEditCancel };
    assert(binding_row(b) == options_edit_bindings()[0]);
    t.push(b);
    let b = Binding { keys: vec![KeySpec::Always(Key::Enter)], states: vec![OverlayKind::OptionsEdit], help: None, action: Action::OptionsEditCommit };
    assert(binding_row(b) == options_edit_bindings()[1]);
    t.push(b);
    let b = Binding { keys: vec![KeySpec::Always(Key::Backspace)], states: vec![OverlayKind::OptionsEdit], help: None, action: Action::OptionsEditBackspace };
    assert(binding_row(b) == options_edit_bindings()[2]);
    t.push(b);
    let b = Binding { keys: vec![KeySpec::Always(Key::Delete)], states: vec![OverlayKind::OptionsEdit], help: None, action: Action::OptionsEditDelete };
    assert(binding_row(b) == options_edit_bindings()[3]);
    t.push(b);
    let b = Binding { keys: vec![KeySpec::Always(Key::Left)], states: vec![OverlayKind::OptionsEdit], help: None, action: Action::OptionsEditMoveLeft };
    assert(binding_row(b) == options_edit_bindings()[4]);
    t.push(b);
    let b = Binding { keys: vec![KeySpec::Always(Key::Right)], states: vec![OverlayKind::OptionsEdit], help: None, action: Action::OptionsEditMoveRight };
    assert(binding_row(b) == options_edit_bindings()[5]);
    t.push(b);
    let b = Binding { keys: vec![KeySpec::Always(Key::Home)], states: vec![OverlayKind::OptionsEdit], help: None, action: Action::OptionsEditMoveHome };
    assert(binding_row(b) == options_edit_bindings()[6]);
    t.push(b);
    let b = Binding { keys: vec![KeySpec::Always(Key::End)], states: vec![OverlayKind::OptionsEdit], help: None, action: Action::OptionsEditMoveEnd };
    assert(binding_row(b) == options_edit_bindings()[7]);
    t.push(b);
    assert(binding_rows(t@) =~= binding_rows(start) + options_edit_bindings());
}

fn push_filter_bindings(t: &mut Vec<Binding>)
    ensures
        binding_rows(final(t)@) == binding_rows(old(t)@) + filter_bindings(),
{
    let ghost start = t@;
    let b = Binding { keys: vec![KeySpec::Always(Key::Escape)], states: vec![OverlayKind::Filter], help: None, action: Action::FilterCancel };
    assert(binding_row(b) == filter_bindings()[0]);
    t.push(b);
    let b = Binding { keys: vec![KeySpec::Always(Key::Enter)], states: vec![OverlayKind::Filter], help: None, action: Action::FilterCommit };
    assert(binding_row(b) == filter_bindings()[1]);
    t.push(b);
    let b = Binding { keys: vec![KeySpec::Always(Key::Backspace)], states: vec![OverlayKind::Filter], help: None, action: Action::FilterBackspace };
    assert(binding_row(b) == filter_bindings()[2]);
    t.push(b);
    let b = Binding { keys: vec![KeySpec::Always(Key::Delete)], states: vec![OverlayKind::Filter], help: None, action: Action::FilterDeleteClear };
    assert(binding_row(b) == filter_bindings()[3]);
    t.push(b);
    assert(binding_rows(t@) =~= binding_rows(start) + filter_bindings());
}

/// Printable ASCII, at most 64 characters.
pub open spec fn short_printable(s: Seq<char>) -> bool {
    printable_ascii(s) && s.len() <= 64
}

/// Whether every part of a help entry is short printable ASCII.
pub open spec fn help_printable(h: Option<(Seq<char>, Seq<char>, Seq<char>)>) -> bool {
    match h {
        Some(t) => short_printable(t.0) && short_printable(t.1) && short_printable(t.2),
        None => true,
    }
}

proof fn lemma_normal_bindings_a_help_printable()
    ensures
        forall|i: int| 0 <= i < normal_bindings_a().len() ==> help_printable(#[trigger] normal_bindings_a()[i].2),
{
    reveal_strlit("Global");
    assert("Global"@ =~= seq!['G', 'l', 'o', 'b', 'a', 'l']);
    assert(short_printable("Global"@));
    reveal_strlit("q / Ctrl+C");
    assert("q / Ctrl+C"@ =~= seq!['q', ' ', '/', ' ', 'C', 't', 'r', 'l', '+', 'C']);
    assert(short_printable("q / Ctrl+C"@));
    reveal_strlit("Quit");
    assert("Quit"@ =~= seq!['Q', 'u', 'i', 't']);
    assert(short_printable("Quit"@));
    reveal_strlit("m / Esc");
    assert("m / Esc"@ =~= seq!['m', ' ', '/', ' ', 'E', 's', 'c']);
    assert(short_printable("m / Esc"@));
    reveal_strlit("Toggle main menu");
    assert("Toggle main menu"@ =~= seq!['T', 'o', 'g', 'g', 'l', 'e', ' ', 'm', 'a', 'i', 'n', ' ', 'm', 'e', 'n', 'u']);
    assert(short_printable("Toggle main menu"@));
    reveal_strlit("? / F1");
    assert("? / F1"@ =~= seq!['?', ' ', '/', ' ', 'F', '1']);
    assert(short_printable("? / F1"@));
    reveal_strlit("Toggle help");
    assert("Toggle help"@ =~= seq!['T', 'o', 'g', 'g', 'l', 'e', ' ', 'h', 'e', 'l', 'p']);
    assert(short_printable("Toggle help"@));
    reveal_strlit("o / F2");
    assert("o / F2"@ =~= seq!['o', ' ', '/', ' ', 'F', '2']);
    assert(short_printable("o / F2"@));
    reveal_strlit("Toggle options");
    assert("Toggle options"@ =~= seq!['T', 'o', 'g', 'g', 'l', 'e', ' ', 'o', 'p', 't', 'i', 'o', 'n', 's']);
    assert(short_printable("Toggle options"@));
    reveal_strlit("p / Shift+P");
    assert("p / Shift+P"@ =~= seq!['p', ' ', '/', ' ', 'S', 'h', 'i', 'f', 't', '+', 'P']);
    assert(short_printable("p / Shift+P"@));
    reveal_strlit("Cycle presets forward/back");
    assert("Cycle presets forward/back"@ =~= seq!['C', 'y', 'c', 'l', 'e', ' ', 'p', 'r', 'e', 's', 'e', 't', 's', ' ', 'f', 'o', 'r', 'w', 'a', 'r', 'd', '/', 'b', 'a', 'c', 'k']);
    assert(short_printable("Cycle presets forward/back"@));
    reveal_strlit("Ctrl+R");
    assert("Ctrl+R"@ =~= seq!['C', 't', 'r', 'l', '+', 'R']);
    assert(short_printable("Ctrl+R"@));
    reveal_strlit("Reload config");
    assert("Reload config"@ =~= seq!['R', 'e', 'l', 'o', 'a', 'd', ' ', 'c', 'o', 'n', 'f', 'i', 'g']);
    assert(short_printable("Reload config"@));
    reveal_strlit("+ / -");
    assert("+ / -"@ =~= seq!['+', ' ', '/', ' ', '-']);
    assert(short_printable("+ / -"@));
    reveal_strlit("Adjust update speed");
    assert("Adjust update speed"@ =~= seq!['A', 'd', 'j', 'u', 's', 't', ' ', 'u', 'p', 'd', 'a', 't', 'e', ' ', 's', 'p', 'e', 'e', 'd']);
    assert(short_printable("Adjust update speed"@));
    reveal_strlit("1-5");
    assert("1-5"@ =~= seq!['1', '-', '5']);
    assert(short_printable("1-5"@));
    reveal_strlit("Toggle widget (cpu/mem/net/proc/disk)");
    assert("Toggle widget (cpu/mem/net/proc/disk)"@ =~= seq!['T', 'o', 'g', 'g', 'l', 'e', ' ', 'w', 'i', 'd', 'g', 'e', 't', ' ', '(', 'c', 'p', 'u', '/', 'm', 'e', 'm', '/', 'n', 'e', 't', '/', 'p', 'r', 'o', 'c', '/', 'd', 'i', 's', 'k', ')']);
    assert(short_printable("Toggle widget (cpu/mem/net/proc/disk)"@));
    reveal_strlit("6-9");
    assert("6-9"@ =~= seq!['6', '-', '9']);
    assert(short_printable("6-9"@));
    reveal_strlit("Toggle GPU 0-3");
    assert("Toggle GPU 0-3"@ =~= seq!['T', 'o', 'g', 'g', 'l', 'e', ' ', 'G', 'P', 'U', ' ', '0', '-', '3']);
    assert(short_printable("Toggle GPU 0-3"@));
    reveal_strlit("0");
    assert("0"@ =~= seq!['0']);
    assert(short_printable("0"@));
    reveal_strlit("Toggle GPU 4-7");
    assert("Toggle GPU 4-7"@ =~= seq!['T', 'o', 'g', 'g', 'l', 'e', ' ', 'G', 'P', 'U', ' ', '4', '-', '7']);
    assert(short_printable("Toggle GPU 4-7"@));
    reveal_strlit("Shift+R");
    assert("Shift+R"@ =~= seq!['S', 'h', 'i', 'f', 't', '+', 'R']);
    assert(short_printable("Shift+R"@));
    reveal_strlit("Restore all hidden widgets");
    assert("Restore all hidden widgets"@ =~= seq!['R', 'e', 's', 't', 'o', 'r', 'e', ' ', 'a', 'l', 'l', ' ', 'h', 'i', 'd', 'd', 'e', 'n', ' ', 'w', 'i', 'd', 'g', 'e', 't', 's']);
    assert(short_printable("Restore all hidden widgets"@));
    reveal_strlit("Process");
    assert("Process"@ =~= seq!['P', 'r', 'o', 'c', 'e', 's', 's']);
    assert(short_printable("Process"@));
    reveal_strlit("Up / Down");
    assert("Up / Down"@ =~= seq!['U', 'p', ' ', '/', ' ', 'D', 'o', 'w', 'n']);
    assert(short_printable("Up / Down"@));
    reveal_strlit("Select process");
    assert("Select process"@ =~= seq!['S', 'e', 'l', 'e', 'c', 't', ' ', 'p', 'r', 'o', 'c', 'e', 's', 's']);
    assert(short_printable("Select process"@));
}

proof fn lemma_normal_bindings_b_help_printable()
    ensures
        forall|i: int| 0 <= i < normal_bindings_b().len() ==> help_printable(#[trigger] normal_bindings_b()[i].2),
{
    reveal_strlit("Process");
    assert("Process"@ =~= seq!['P', 'r', 'o', 'c', 'e', 's', 's']);
    assert(short_printable("Process"@));
    reveal_strlit("PgUp / PgDn");
    assert("PgUp / PgDn"@ =~= seq!['P', 'g', 'U', 'p', ' ', '/', ' ', 'P', 'g', 'D', 'n']);
    assert(short_printable("PgUp / PgDn"@));
    reveal_strlit("Page through processes");
    assert("Page through processes"@ =~= seq!['P', 'a', 'g', 'e', ' ', 't', 'h', 'r', 'o', 'u', 'g', 'h', ' ', 'p', 'r', 'o', 'c', 'e', 's', 's', 'e', 's']);
    assert(short_printable("Page through processes"@));
    reveal_strlit("Home / End");
    assert("Home / End"@ =~= seq!['H', 'o', 'm', 'e', ' ', '/', ' ', 'E', 'n', 'd']);
    assert(short_printable("Home / End"@));
    reveal_strlit("Jump to first/last");
    assert("Jump to first/last"@ =~= seq!['J', 'u', 'm', 'p', ' ', 't', 'o', ' ', 'f', 'i', 'r', 's', 't', '/', 'l', 'a', 's', 't']);
    assert(short_printable("Jump to first/last"@));
    reveal_strlit("Left / Right");
    assert("Left / Right"@ =~= seq!['L', 'e', 'f', 't', ' ', '/', ' ', 'R', 'i', 'g', 'h', 't']);
    assert(short_printable("Left / Right"@));
    reveal_strlit("Cycle sort column");
    assert("Cycle sort column"@ =~= seq!['C', 'y', 'c', 'l', 'e', ' ', 's', 'o', 'r', 't', ' ', 'c', 'o', 'l', 'u', 'm', 'n']);
    assert(short_printable("Cycle sort column"@));
    reveal_strlit("r");
    assert("r"@ =~= seq!['r']);
    assert(short_printable("r"@));
    reveal_strlit("Toggle reverse sort");
    assert("Toggle reverse sort"@ =~= seq!['T', 'o', 'g', 'g', 'l', 'e', ' ', 'r', 'e', 'v', 'e', 'r', 's', 'e', ' ', 's', 'o', 'r', 't']);
    assert(short_printable("Toggle reverse sort"@));
}

proof fn lemma_normal_bindings_c_help_printable()
    ensures
        forall|i: int| 0 <= i < normal_bindings_c().len() ==> help_printable(#[trigger] normal_bindings_c()[i].2),
{
    reveal_strlit("Process");
    assert("Process"@ =~= seq!['P', 'r', 'o', 'c', 'e', 's', 's']);
    assert(short_printable("Process"@));
    reveal_strlit("f / /");
    assert("f / /"@ =~= seq!['f', ' ', '/', ' ', '/']);
    assert(short_printable("f / /"@));
    reveal_strlit("Filter processes");
    assert("Filter processes"@ =~= seq!['F', 'i', 'l', 't', 'e', 'r', ' ', 'p', 'r', 'o', 'c', 'e', 's', 's', 'e', 's']);
    assert(short_printable("Filter processes"@));
    reveal_strlit("e");
    assert("e"@ =~= seq!['e']);
    assert(short_printable("e"@));
    reveal_strlit("Toggle tree view");
    assert("Toggle tree view"@ =~= seq!['T', 'o', 'g', 'g', 'l', 'e', ' ', 't', 'r', 'e', 'e', ' ', 'v', 'i', 'e', 'w']);
    assert(short_printable("Toggle tree view"@));
    reveal_strlit("c");
    assert("c"@ =~= seq!['c']);
    assert(short_printable("c"@));
    reveal_strlit("Toggle per-core CPU");
    assert("Toggle per-core CPU"@ =~= seq!['T', 'o', 'g', 'g', 'l', 'e', ' ', 'p', 'e', 'r', '-', 'c', 'o', 'r', 'e', ' ', 'C', 'P', 'U']);
    assert(short_printable("Toggle per-core CPU"@));
    reveal_strlit("t");
    assert("t"@ =~= seq!['t']);
    assert(short_printable("t"@));
    reveal_strlit("Terminate process (graceful, double-tap)");
    assert("Terminate process (graceful, double-tap)"@ =~= seq!['T', 'e', 'r', 'm', 'i', 'n', 'a', 't', 'e', ' ', 'p', 'r', 'o', 'c', 'e', 's', 's', ' ', '(', 'g', 'r', 'a', 'c', 'e', 'f', 'u', 'l', ',', ' ', 'd', 'o', 'u', 'b', 'l', 'e', '-', 't', 'a', 'p', ')']);
    assert(short_printable("Terminate process (graceful, double-tap)"@));
    reveal_strlit("Shift+T");
    assert("Shift+T"@ =~= seq!['S', 'h', 'i', 'f', 't', '+', 'T']);
    assert(short_printable("Shift+T"@));
    reveal_strlit("Kill process (force, double-tap)");
    assert("Kill process (force, double-tap)"@ =~= seq!['K', 'i', 'l', 'l', ' ', 'p', 'r', 'o', 'c', 'e', 's', 's', ' ', '(', 'f', 'o', 'r', 'c', 'e', ',', ' ', 'd', 'o', 'u', 'b', 'l', 'e', '-', 't', 'a', 'p', ')']);
    assert(short_printable("Kill process (force, double-tap)"@));
    reveal_strlit("Enter");
    assert("Enter"@ =~= seq!['E', 'n', 't', 'e', 'r']);
    assert(short_printable("Enter"@));
    reveal_strlit("Show/hide process details");
    assert("Show/hide process details"@ =~= seq!['S', 'h', 'o', 'w', '/', 'h', 'i', 'd', 'e', ' ', 'p', 'r', 'o', 'c', 'e', 's', 's', ' ', 'd', 'e', 't', 'a', 'i', 'l', 's']);
    assert(short_printable("Show/hide process details"@));
    reveal_strlit("Shift+F");
    assert("Shift+F"@ =~= seq!['S', 'h', 'i', 'f', 't', '+', 'F']);
    assert(short_printable("Shift+F"@));
    reveal_strlit("Follow/unfollow process");
    assert("Follow/unfollow process"@ =~= seq!['F', 'o', 'l', 'l', 'o', 'w', '/', 'u', 'n', 'f', 'o', 'l', 'l', 'o', 'w', ' ', 'p', 'r', 'o', 'c', 'e', 's', 's']);
    assert(short_printable("Follow/unfollow process"@));
    reveal_strlit("Disk");
    assert("Disk"@ =~= seq!['D', 'i', 's', 'k']);
    assert(short_printable("Disk"@));
    reveal_strlit("i");
    assert("i"@ =~= seq!['i']);
    assert(short_printable("i"@));
    reveal_strlit("Toggle disk IO mode");
    assert("Toggle disk IO mode"@ =~= seq!['T', 'o', 'g', 'g', 'l', 'e', ' ', 'd', 'i', 's', 'k', ' ', 'I', 'O', ' ', 'm', 'o', 'd', 'e']);
    assert(short_printable("Toggle disk IO mode"@));
    reveal_strlit("Network");
    assert("Network"@ =~= seq!['N', 'e', 't', 'w', 'o', 'r', 'k']);
    assert(short_printable("Network"@));
    reveal_strlit("n / b");
    assert("n / b"@ =~= seq!['n', ' ', '/', ' ', 'b']);
    assert(short_printable("n / b"@));
    reveal_strlit("Cycle network interfaces");
    assert("Cycle network interfaces"@ =~= seq!['C', 'y', 'c', 'l', 'e', ' ', 'n', 'e', 't', 'w', 'o', 'r', 'k', ' ', 'i', 'n', 't', 'e', 'r', 'f', 'a', 'c', 'e', 's']);
    assert(short_printable("Cycle network interfaces"@));
    reveal_strlit("a");
    assert("a"@ =~= seq!['a']);
    assert(short_printable("a"@));
    reveal_strlit("Toggle network auto scale");
    assert("Toggle network auto scale"@ =~= seq!['T', 'o', 'g', 'g', 'l', 'e', ' ', 'n', 'e', 't', 'w', 'o', 'r', 'k', ' ', 'a', 'u', 't', 'o', ' ', 's', 'c', 'a', 'l', 'e']);
    assert(short_printable("Toggle network auto scale"@));
    reveal_strlit("s");
    assert("s"@ =~= seq!['s']);
    assert(short_printable("s"@));
    reveal_strlit("Toggle network sync scale");
    assert("Toggle network sync scale"@ =~= seq!['T', 'o', 'g', 'g', 'l', 'e', ' ', 'n', 'e', 't', 'w', 'o', 'r', 'k', ' ', 's', 'y', 'n', 'c', ' ', 's', 'c', 'a', 'l', 'e']);
    assert(short_printable("Toggle network sync scale"@));
    reveal_strlit("z");
    assert("z"@ =~= seq!['z']);
    assert(short_printable("z"@));
    reveal_strlit("Reset network totals");
    assert("Reset network totals"@ =~= seq!['R', 'e', 's', 'e', 't', ' ', 'n', 'e', 't', 'w', 'o', 'r', 'k', ' ', 't', 'o', 't', 'a', 'l', 's']);
    assert(short_printable("Reset network totals"@));
}

proof fn lemma_main_menu_bindings_help_printable()
    ensures
        forall|i: int| 0 <= i < main_menu_bindings().len() ==> help_printable(#[trigger] main_menu_bindings()[i].2),
{
}

proof fn lemma_help_bindings_help_printable()
    ensures
        forall|i: int| 0 <= i < help_bindings().len() ==> help_printable(#[trigger] help_bindings()[i].2),
{
}

proof fn lemma_options_bindings_help_printable()
    ensures
        forall|i: int| 0 <= i < options_bindings().len() ==> help_printable(#[trigger] options_bindings()[i].2),
{
}

proof fn lemma_options_edit_bindings_help_printable()
    ensures
        forall|i: int| 0 <= i < options_edit_bindings().len() ==> help_printable(#[trigger] options_edit_bindings()[i].2),
{
}

proof fn lemma_filter_bindings_help_printable()
    ensures
        forall|i: int| 0 <= i < filter_bindings().len() ==> help_printable(#[trigger] filter_bindings()[i].2),
{
}

/// Every help text in the table is short printable ASCII.
pub proof fn lemma_help_texts_printable()
    ensures
        forall|i: int| 0 <= i < binding_table().len() ==> help_printable(#[trigger] binding_table()[i].2),
{
    lemma_normal_bindings_a_help_printable();
    lemma_normal_bindings_b_help_printable();
    lemma_normal_bindings_c_help_printable();
    lemma_main_menu_bindings_help_printable();
    lemma_help_bindings_help_printable();
    lemma_options_bindings_help_printable();
    lemma_options_edit_bindings_help_printable();
    lemma_filter_bindings_help_printable();
    let ab = normal_bindings_a() + normal_bindings_b();
    let abc = ab + normal_bindings_c();
    let n1 = abc + main_menu_bindings();
    let n2 = n1 + help_bindings();
    let n3 = n2 + options_bindings();
    let n4 = n3 + options_edit_bindings();
    let n5 = n4 + filter_bindings();
    assert forall|i: int| 0 <= i < ab.len() implies help_printable(#[trigger] ab[i].2) by {
        if i >= normal_bindings_a().len() { assert(ab[i] == normal_bindings_b()[i - normal_bindings_a().len()]); }
    }
    assert forall|i: int| 0 <= i < abc.len() implies help_printable(#[trigger] abc[i].2) by {
        if i >= ab.len() { assert(abc[i] == normal_bindings_c()[i - ab.len()]); } else { assert(abc[i] == ab[i]); }
    }
    assert forall|i: int| 0 <= i < n1.len() implies help_printable(#[trigger] n1[i].2) by {
        if i >= abc.len() { assert(n1[i] == main_menu_bindings()[i - abc.len()]); } else { assert(n1[i] == abc[i]); }
    }
    assert forall|i: int| 0 <= i < n2.len() implies help_printable(#[trigger] n2[i].2) by {
        if i >= n1.len() { assert(n2[i] == help_bindings()[i - n1.len()]); } else { assert(n2[i] == n1[i]); }
    }
    assert forall|i: int| 0 <= i < n3.len() implies help_printable(#[trigger] n3[i].2) by {
        if i >= n2.len() { assert(n3[i] == options_bindings()[i - n2.len()]); } else { assert(n3[i] == n2[i]); }
    }
    assert forall|i: int| 0 <= i < n4.len() implies help_printable(#[trigger] n4[i].2) by {
        if i >= n3.len() { assert(n4[i] == options_edit_bindings()[i - n3.len()]); } else { assert(n4[i] == n3[i]); }
    }
    assert forall|i: int| 0 <= i < n5.len() implies help_printable(#[trigger] n5[i].2) by {
        if i >= n4.len() { assert(n5[i] == filter_bindings()[i - n4.len()]); } else { assert(n5[i] == n4[i]); }
    }
    assert(binding_table() == n5);
}

/// Whether `s` is an overlay that takes typed text.
pub open spec fn is_text_state(s: OverlayKind) -> bool {
    s == OverlayKind::Filter || s == OverlayKind::OptionsEdit
}

/// Whether a trigger is a key that types a character.
pub open spec fn printable_trigger(k: KeySpec) -> bool {
    let key = match k {
        KeySpec::Always(x) => x,
        KeySpec::VimOnly(x) => x,
    };
    key is Char || key is Space
}

/// A binding with at least one trigger and one overlay, and, when active
/// in a text-input overlay, no trigger that types a character.
pub open spec fn row_well_formed(r: BindingRow) -> bool {
    &&& r.0.len() > 0
    &&& r.1.len() > 0
    &&& (exists|j: int| 0 <= j < r.1.len() && is_text_state(#[trigger] r.1[j]))
        ==> forall|k: int| 0 <= k < r.0.len() ==> !printable_trigger(#[trigger] r.0[k])
}

proof fn lemma_normal_bindings_a_well_formed()
    ensures
        forall|i: int| 0 <= i < normal_bindings_a().len() ==> row_well_formed(#[trigger] normal_bindings_a()[i]),
{
    let t = normal_bindings_a();
    assert forall|i: int| 0 <= i < t.len() implies row_well_formed(#[trigger] t[i]) by {
        let r = t[i];
        assert(r.1.len() == 1);
        if exists|j: int| 0 <= j < r.1.len() && is_text_state(#[trigger] r.1[j]) {
            assert forall|k: int| 0 <= k < r.0.len() implies !printable_trigger(#[trigger] r.0[k]) by {}
        }
    }
}

proof fn lemma_normal_bindings_b_well_formed()
    ensures
        forall|i: int| 0 <= i < normal_bindings_b().len() ==> row_well_formed(#[trigger] normal_bindings_b()[i]),
{
    let t = normal_bindings_b();
    assert forall|i: int| 0 <= i < t.len() implies row_well_formed(#[trigger] t[i]) by {
        let r = t[i];
        assert(r.1.len() == 1);
        if exists|j: int| 0 <= j < r.1.len() && is_text_state(#[trigger] r.1[j]) {
            assert forall|k: int| 0 <= k < r.0.len() implies !printable_trigger(#[trigger] r.0[k]) by {}
        }
    }
}

proof fn lemma_normal_bindings_c_well_formed()
    ensures
        forall|i: int| 0 <= i < normal_bindings_c().len() ==> row_well_formed(#[trigger] normal_bindings_c()[i]),
{
    let t = normal_bindings_c();
    assert forall|i: int| 0 <= i < t.len() implies row_well_formed(#[trigger] t[i]) by {
        let r = t[i];
        assert(r.1.len() == 1);
        if exists|j: int| 0 <= j < r.1.len() && is_text_state(#[trigger] r.1[j]) {
            assert forall|k: int| 0 <= k < r.0.len() implies !printable_trigger(#[trigger] r.0[k]) by {}
        }
    }
}

proof fn lemma_main_menu_bindings_well_formed()
    ensures
        forall|i: int| 0 <= i < main_menu_bindings().len() ==> row_well_formed(#[trigger] main_menu_bindings()[i]),
{
    let t = main_menu_bindings();
    assert forall|i: int| 0 <= i < t.len() implies row_well_formed(#[trigger] t[i]) by {
        let r = t[i];
        assert(r.1.len() == 1);
        if exists|j: int| 0 <= j < r.1.len() && is_text_state(#[trigger] r.1[j]) {
            assert forall|k: int| 0 <= k < r.0.len() implies !printable_trigger(#[trigger] r.0[k]) by {}
        }
    }
}

proof fn lemma_help_bindings_well_formed()
    ensures
        forall|i: int| 0 <= i < help_bindings().len() ==> row_well_formed(#[trigger] help_bindings()[i]),
{
    let t = help_bindings();
    assert forall|i: int| 0 <= i < t.len() implies row_well_formed(#[trigger] t[i]) by {
        let r = t[i];
        assert(r.1.len() == 1);
        if exists|j: int| 0 <= j < r.1.len() && is_text_state(#[trigger] r.1[j]) {
            assert forall|k: int| 0 <= k < r.0.len() implies !printable_trigger(#[trigger] r.0[k]) by {}
        }
    }
}

proof fn lemma_options_bindings_well_formed()
    ensures
        forall|i: int| 0 <= i < options_bindings().len() ==> row_well_formed(#[trigger] options_bindings()[i]),
{
    let t = options_bindings();
    assert forall|i: int| 0 <= i < t.len() implies row_well_formed(#[trigger] t[i]) by {
        let r = t[i];
        assert(r.1.len() == 1);
        if exists|j: int| 0 <= j < r.1.len() && is_text_state(#[trigger] r.1[j]) {
            assert forall|k: int| 0 <= k < r.0.len() implies !printable_trigger(#[trigger] r.0[k]) by {}
        }
    }
}

proof fn lemma_options_edit_bindings_well_formed()
    ensures
        forall|i: int| 0 <= i < options_edit_bindings().len() ==> row_well_formed(#[trigger] options_edit_bindings()[i]),
{
    let t = options_edit_bindings();
    assert forall|i: int| 0 <= i < t.len() implies row_well_formed(#[trigger] t[i]) by {
        let r = t[i];
        assert(r.1.len() == 1);
        if exists|j: int| 0 <= j < r.1.len() && is_text_state(#[trigger] r.1[j]) {
            assert forall|k: int| 0 <= k < r.0.len() implies !printable_trigger(#[trigger] r.0[k]) by {}
        }
    }
}

proof fn lemma_filter_bindings_well_formed()
    ensures
        forall|i: int| 0 <= i < filter_bindings().len() ==> row_well_formed(#[trigger] filter_bindings()[i]),
{
    let t = filter_bindings();
    assert forall|i: int| 0 <= i < t.len() implies row_well_formed(#[trigger] t[i]) by {
        let r = t[i];
        assert(r.1.len() == 1);
        if exists|j: int| 0 <= j < r.1.len() && is_text_state(#[trigger] r.1[j]) {
            assert forall|k: int| 0 <= k < r.0.len() implies !printable_trigger(#[trigger] r.0[k]) by {}
        }
    }
}

/// Every binding has a trigger and an overlay, and none active in the
/// filter or the inline editor is triggered by a key that types a
/// character (those keys belong to the text being typed).
pub proof fn lemma_bindings_well_formed()
    ensures
        forall|i: int| 0 <= i < binding_table().len() ==> row_well_formed(#[trigger] binding_table()[i]),
{
    lemma_normal_bindings_a_well_formed();
    lemma_normal_bindings_b_well_formed();
    lemma_normal_bindings_c_well_formed();
    lemma_main_menu_bindings_well_formed();
    lemma_help_bindings_well_formed();
    lemma_options_bindings_well_formed();
    lemma_options_edit_bindings_well_formed();
    lemma_filter_bindings_well_formed();
    let ab = normal_bindings_a() + normal_bindings_b();
    let abc = ab + normal_bindings_c();
    let n1 = abc + main_menu_bindings();
    let n2 = n1 + help_bindings();
    let n3 = n2 + options_bindings();
    let n4 = n3 + options_edit_bindings();
    let n5 = n4 + filter_bindings();
    assert forall|i: int| 0 <= i < ab.len() implies row_well_formed(#[trigger] ab[i]) by {
        if i >= normal_bindings_a().len() { assert(ab[i] == normal_bindings_b()[i - normal_bindings_a().len()]); }
    }
    assert forall|i: int| 0 <= i < abc.len() implies row_well_formed(#[trigger] abc[i]) by {
        if i >= ab.len() { assert(abc[i] == normal_bindings_c()[i - ab.len()]); } else { assert(abc[i] == ab[i]); }
    }
    assert forall|i: int| 0 <= i < n1.len() implies row_well_formed(#[trigger] n1[i]) by {
        if i >= abc.len() { assert(n1[i] == main_menu_bindings()[i - abc.len()]); } else { assert(n1[i] == abc[i]); }
    }
    assert forall|i: int| 0 <= i < n2.len() implies row_well_formed(#[trigger] n2[i]) by {
        if i >= n1.len() { assert(n2[i] == help_bindings()[i - n1.len()]); } else { assert(n2[i] == n1[i]); }
    }
    assert forall|i: int| 0 <= i < n3.len() implies row_well_formed(#[trigger] n3[i]) by {
        if i >= n2.len() { assert(n3[i] == options_bindings()[i - n2.len()]); } else { assert(n3[i] == n2[i]); }
    }
    assert forall|i: int| 0 <= i < n4.len() implies row_well_formed(#[trigger] n4[i]) by {
        if i >= n3.len() { assert(n4[i] == options_edit_bindings()[i - n3.len()]); } else { assert(n4[i] == n3[i]); }
    }
    assert forall|i: int| 0 <= i < n5.len() implies row_well_formed(#[trigger] n5[i]) by {
        if i >= n4.len() { assert(n5[i] == filter_bindings()[i - n4.len()]); } else { assert(n5[i] == n4[i]); }
    }
    assert(binding_table() == n5);
}

/// Whether no trigger of `g` repeats, within a binding or across two.
pub open spec fn triggers_distinct(g: Seq<BindingRow>) -> bool {
    forall|i: int, j: int, k1: int, k2: int|
        0 <= i < g.len() && 0 <= j < g.len() && 0 <= k1 < g[i].0.len() && 0 <= k2 < g[j].0.len()
            && (i != j || k1 != k2) ==> #[trigger] g[i].0[k1] != #[trigger] g[j].0[k2]
}

/// Whether every binding of `g` is active in overlay `s` alone.
pub open spec fn all_in_state(g: Seq<BindingRow>, s: OverlayKind) -> bool {
    forall|i: int| 0 <= i < g.len() ==> (#[trigger] g[i]).1 == seq![s]
}

/// Whether no trigger of `x` equals a trigger of `y`.
pub open spec fn triggers_apart(x: Seq<BindingRow>, y: Seq<BindingRow>) -> bool {
    forall|i: int, j: int, k1: int, k2: int|
        0 <= i < x.len() && 0 <= j < y.len() && 0 <= k1 < x[i].0.len() && 0 <= k2 < y[j].0.len()
            ==> #[trigger] x[i].0[k1] != #[trigger] y[j].0[k2]
}

/// Whether no two (overlay, trigger) pairs of `t` are the same: the
/// first binding that fires for a key in an overlay is the only one.
pub open spec fn no_trigger_clash(t: Seq<BindingRow>) -> bool {
    forall|i: int, j: int, k1: int, k2: int, s1: int, s2: int|
        0 <= i < t.len() && 0 <= j < t.len() && 0 <= k1 < t[i].0.len() && 0 <= k2 < t[j].0.len()
            && 0 <= s1 < t[i].1.len() && 0 <= s2 < t[j].1.len() && (i != j || k1 != k2 || s1 != s2)
            && #[trigger] t[i].1[s1] == #[trigger] t[j].1[s2] ==> #[trigger] t[i].0[k1] != #[trigger] t[j].0[k2]
}

/// Whether every overlay of every binding of `g` is in `states`.
pub open spec fn states_within(g: Seq<BindingRow>, states: Set<OverlayKind>) -> bool {
    forall|i: int, s: int| 0 <= i < g.len() && 0 <= s < g[i].1.len() ==> states.contains(#[trigger] g[i].1[s])
}

proof fn lemma_normal_bindings_a_shape()
    ensures
        triggers_distinct(normal_bindings_a()),
        all_in_state(normal_bindings_a(), OverlayKind::Closed),
{
}

proof fn lemma_normal_bindings_b_shape()
    ensures
        triggers_distinct(normal_bindings_b()),
        all_in_state(normal_bindings_b(), OverlayKind::Closed),
{
}

proof fn lemma_normal_bindings_c_shape()
    ensures
        triggers_distinct(normal_bindings_c()),
        all_in_state(normal_bindings_c(), OverlayKind::Closed),
{
}

proof fn lemma_main_menu_bindings_shape()
    ensures
        triggers_distinct(main_menu_bindings()),
        all_in_state(main_menu_bindings(), OverlayKind::Main),
{
}

proof fn lemma_help_bindings_shape()
    ensures
        triggers_distinct(help_bindings()),
        all_in_state(help_bindings(), OverlayKind::Help),
{
}

proof fn lemma_options_bindings_shape()
    ensures
        triggers_distinct(options_bindings()),
        all_in_state(options_bindings(), OverlayKind::Options),
{
}

proof fn lemma_options_edit_bindings_shape()
    ensures
        triggers_distinct(options_edit_bindings()),
        all_in_state(options_edit_bindings(), OverlayKind::OptionsEdit),
{
}

proof fn lemma_filter_bindings_shape()
    ensures
        triggers_distinct(filter_bindings()),
        all_in_state(filter_bindings(), OverlayKind::Filter),
{
}

proof fn lemma_normal_bindings_a_apart_b()
    ensures
        triggers_apart(normal_bindings_a(), normal_bindings_b()),
{
}

proof fn lemma_normal_bindings_a_apart_c()
    ensures
        triggers_apart(normal_bindings_a(), normal_bindings_c()),
{
}

proof fn lemma_normal_bindings_b_apart_c()
    ensures
        triggers_apart(normal_bindings_b(), normal_bindings_c()),
{
}

proof fn lemma_join_distinct(x: Seq<BindingRow>, y: Seq<BindingRow>)
    requires
        triggers_distinct(x),
        triggers_distinct(y),
        triggers_apart(x, y),
    ensures
        triggers_distinct(x + y),
{
    let z = x + y;
    assert forall|i: int, j: int, k1: int, k2: int|
        0 <= i < z.len() && 0 <= j < z.len() && 0 <= k1 < z[i].0.len() && 0 <= k2 < z[j].0.len()
            && (i != j || k1 != k2) implies #[trigger] z[i].0[k1] != #[trigger] z[j].0[k2] by {
        if i < x.len() && j < x.len() {
            assert(z[i] == x[i] && z[j] == x[j]);
        } else if i >= x.len() && j >= x.len() {
            assert(z[i] == y[i - x.len()] && z[j] == y[j - x.len()]);
        } else if i < x.len() {
            assert(z[i] == x[i] && z[j] == y[j - x.len()]);
        } else {
            assert(z[j] == x[j] && z[i] == y[i - x.len()]);
        }
    }
}

proof fn lemma_join_state(x: Seq<BindingRow>, y: Seq<BindingRow>, s: OverlayKind)
    requires
        all_in_state(x, s),
        all_in_state(y, s),
    ensures
        all_in_state(x + y, s),
{
    assert forall|i: int| 0 <= i < (x + y).len() implies (#[trigger] (x + y)[i]).1 == seq![s] by {
        if i < x.len() { assert((x + y)[i] == x[i]); } else { assert((x + y)[i] == y[i - x.len()]); }
    }
}

proof fn lemma_one_state_clash_free(g: Seq<BindingRow>, s: OverlayKind)
    requires
        triggers_distinct(g),
        all_in_state(g, s),
    ensures
        no_trigger_clash(g),
        states_within(g, set![s]),
{
    assert forall|i: int, j: int, k1: int, k2: int, s1: int, s2: int|
        0 <= i < g.len() && 0 <= j < g.len() && 0 <= k1 < g[i].0.len() && 0 <= k2 < g[j].0.len()
            && 0 <= s1 < g[i].1.len() && 0 <= s2 < g[j].1.len() && (i != j || k1 != k2 || s1 != s2)
            && #[trigger] g[i].1[s1] == #[trigger] g[j].1[s2] implies #[trigger] g[i].0[k1] != #[trigger] g[j].0[k2] by {
        assert(g[i].1 == seq![s] && g[j].1 == seq![s]);
    }
    assert forall|i: int, q: int| 0 <= i < g.len() && 0 <= q < g[i].1.len() implies set![s].contains(#[trigger] g[i].1[q]) by {
        assert(g[i].1 == seq![s]);
    }
}

proof fn lemma_join_clash_free(x: Seq<BindingRow>, y: Seq<BindingRow>, sx: Set<OverlayKind>, sy: Set<OverlayKind>)
    requires
        no_trigger_clash(x),
        no_trigger_clash(y),
        states_within(x, sx),
        states_within(y, sy),
        sx.disjoint(sy),
    ensures
        no_trigger_clash(x + y),
        states_within(x + y, sx + sy),
{
    let z = x + y;
    assert forall|i: int, j: int, k1: int, k2: int, s1: int, s2: int|
        0 <= i < z.len() && 0 <= j < z.len() && 0 <= k1 < z[i].0.len() && 0 <= k2 < z[j].0.len()
            && 0 <= s1 < z[i].1.len() && 0 <= s2 < z[j].1.len() && (i != j || k1 != k2 || s1 != s2)
            && #[trigger] z[i].1[s1] == #[trigger] z[j].1[s2] implies #[trigger] z[i].0[k1] != #[trigger] z[j].0[k2] by {
        if i < x.len() && j < x.len() {
            assert(z[i] == x[i] && z[j] == x[j]);
        } else if i >= x.len() && j >= x.len() {
            assert(z[i] == y[i - x.len()] && z[j] == y[j - x.len()]);
        } else if i < x.len() {
            assert(z[i] == x[i] && z[j] == y[j - x.len()]);
            assert(sx.contains(x[i].1[s1]));
            assert(sy.contains(y[j - x.len()].1[s2]));
        } else {
            assert(z[j] == x[j] && z[i] == y[i - x.len()]);
            assert(sx.contains(x[j].1[s2]));
            assert(sy.contains(y[i - x.len()].1[s1]));
        }
    }
    assert forall|i: int, q: int| 0 <= i < z.len() && 0 <= q < z[i].1.len() implies (sx + sy).contains(#[trigger] z[i].1[q]) by {
        if i < x.len() { assert(z[i] == x[i]); } else { assert(z[i] == y[i - x.len()]); }
    }
}

/// No key is bound twice in one overlay: every (overlay, trigger) pair of
/// the table belongs to one binding, so first-match dispatch never
/// shadows a binding.
pub proof fn lemma_no_trigger_clash()
    ensures
        no_trigger_clash(binding_table()),
{

    lemma_normal_bindings_a_shape();
    lemma_normal_bindings_b_shape();
    lemma_normal_bindings_c_shape();
    lemma_main_menu_bindings_shape();
    lemma_help_bindings_shape();
    lemma_options_bindings_shape();
    lemma_options_edit_bindings_shape();
    lemma_filter_bindings_shape();
    lemma_normal_bindings_a_apart_b();
    lemma_normal_bindings_a_apart_c();
    lemma_normal_bindings_b_apart_c();
    let a = normal_bindings_a();
    let b = normal_bindings_b();
    let c = normal_bindings_c();
    lemma_join_distinct(a, b);
    assert forall|i: int, j: int, k1: int, k2: int|
        0 <= i < (a + b).len() && 0 <= j < c.len() && 0 <= k1 < (a + b)[i].0.len() && 0 <= k2 < c[j].0.len()
            implies #[trigger] (a + b)[i].0[k1] != #[trigger] c[j].0[k2] by {
        if i < a.len() { assert((a + b)[i] == a[i]); } else { assert((a + b)[i] == b[i - a.len()]); }
    }
    lemma_join_distinct(a + b, c);
    lemma_join_state(a, b, OverlayKind::Closed);
    lemma_join_state(a + b, c, OverlayKind::Closed);
    let normal = a + b + c;
    lemma_one_state_clash_free(normal, OverlayKind::Closed);
    lemma_one_state_clash_free(main_menu_bindings(), OverlayKind::Main);
    lemma_one_state_clash_free(help_bindings(), OverlayKind::Help);
    lemma_one_state_clash_free(options_bindings(), OverlayKind::Options);
    lemma_one_state_clash_free(options_edit_bindings(), OverlayKind::OptionsEdit);
    lemma_one_state_clash_free(filter_bindings(), OverlayKind::Filter);
    let s0 = set![OverlayKind::Closed];
    let s1 = s0 + set![OverlayKind::Main];
    let s2 = s1 + set![OverlayKind::Help];
    let s3 = s2 + set![OverlayKind::Options];
    let s4 = s3 + set![OverlayKind::OptionsEdit];
    lemma_join_clash_free(normal, main_menu_bindings(), s0, set![OverlayKind::Main]);
    let n1 = normal + main_menu_bindings();
    lemma_join_clash_free(n1, help_bindings(), s1, set![OverlayKind::Help]);
    let n2 = n1 + help_bindings();
    lemma_join_clash_free(n2, options_bindings(), s2, set![OverlayKind::Options]);
    let n3 = n2 + options_bindings();
    lemma_join_clash_free(n3, options_edit_bindings(), s3, set![OverlayKind::OptionsEdit]);
    let n4 = n3 + options_edit_bindings();
    lemma_join_clash_free(n4, filter_bindings(), s4, set![OverlayKind::Filter]);
    assert(binding_table() == n4 + filter_bindings());
}

/// Every binding, in match order.
pub open spec fn binding_table() -> Seq<BindingRow> {
    normal_bindings() + main_menu_bindings() + help_bindings() + options_bindings() + options_edit_bindings() + filter_bindings()
}

/// The keybind table, in match order.
pub fn bindings() -> (r: Vec<Binding>)
    ensures
        binding_rows(r@) == binding_table(),
{
    let mut t: Vec<Binding> = Vec::new();
    assert(binding_rows(t@) =~= Seq::<BindingRow>::empty());
    push_normal_bindings_a(&mut t);
    push_normal_bindings_b(&mut t);
    push_normal_bindings_c(&mut t);
    push_main_menu_bindings(&mut t);
    push_help_bindings(&mut t);
    push_options_bindings(&mut t);
    push_options_edit_bindings(&mut t);
    push_filter_bindings(&mut t);
    assert(binding_rows(t@) =~= binding_table());
    t
}

/// Where a help category stands on the help screen: Global, Process,
/// Disk, Network; 4 for any other.
pub open spec fn category_rank(c: Seq<char>) -> int {
    if c == "Global"@ {
        0
    } else if c == "Process"@ {
        1
    } else if c == "Disk"@ {
        2
    } else if c == "Network"@ {
        3
    } else {
        4
    }
}

/// The category of a binding with help text.
pub open spec fn row_category(r: BindingRow) -> Seq<char> {
    match r.2 {
        Some(h) => h.0,
        None => Seq::empty(),
    }
}

/// The rank the help category of the binding at `idx` of the table has:
/// Global up to row 13, Process up to row 35, Disk at 35, Network after.
spec fn rank_at(idx: int) -> int {
    if idx < 13 { 0 } else if idx < 35 { 1 } else if idx < 36 { 2 } else { 3 }
}

proof fn lemma_category_literals()
    ensures
        category_rank("Global"@) == 0,
        category_rank("Process"@) == 1,
        category_rank("Disk"@) == 2,
        category_rank("Network"@) == 3,
{
    reveal_strlit("Global");
    reveal_strlit("Process");
    reveal_strlit("Disk");
    reveal_strlit("Network");
    assert("Global"@ =~= seq!['G', 'l', 'o', 'b', 'a', 'l']);
    assert("Process"@ =~= seq!['P', 'r', 'o', 'c', 'e', 's', 's']);
    assert("Disk"@ =~= seq!['D', 'i', 's', 'k']);
    assert("Network"@ =~= seq!['N', 'e', 't', 'w', 'o', 'r', 'k']);
    assert("Process"@[0] != "Global"@[0]);
    assert("Disk"@[0] != "Global"@[0] && "Disk"@[0] != "Process"@[0]);
    assert("Network"@[0] != "Global"@[0] && "Network"@[0] != "Process"@[0] && "Network"@[0] != "Disk"@[0]);
}

proof fn lemma_normal_bindings_a_ranks()
    ensures
        forall|i: int| 0 <= i < normal_bindings_a().len() && (#[trigger] normal_bindings_a()[i]).2 is Some
            ==> category_rank(row_category(normal_bindings_a()[i])) == rank_at(i + 0),
{
    lemma_category_literals();
}

proof fn lemma_normal_bindings_b_ranks()
    ensures
        forall|i: int| 0 <= i < normal_bindings_b().len() && (#[trigger] normal_bindings_b()[i]).2 is Some
            ==> category_rank(row_category(normal_bindings_b()[i])) == rank_at(i + 14),
{
    lemma_category_literals();
}

proof fn lemma_normal_bindings_c_ranks()
    ensures
        forall|i: int| 0 <= i < normal_bindings_c().len() && (#[trigger] normal_bindings_c()[i]).2 is Some
            ==> category_rank(row_category(normal_bindings_c()[i])) == rank_at(i + 28),
{
    lemma_category_literals();
}

proof fn lemma_main_menu_bindings_have_no_help()
    ensures
        forall|i: int| 0 <= i < main_menu_bindings().len() ==> (#[trigger] main_menu_bindings()[i]).2 is None,
{
}

proof fn lemma_help_bindings_have_no_help()
    ensures
        forall|i: int| 0 <= i < help_bindings().len() ==> (#[trigger] help_bindings()[i]).2 is None,
{
}

proof fn lemma_options_bindings_have_no_help()
    ensures
        forall|i: int| 0 <= i < options_bindings().len() ==> (#[trigger] options_bindings()[i]).2 is None,
{
}

proof fn lemma_options_edit_bindings_have_no_help()
    ensures
        forall|i: int| 0 <= i < options_edit_bindings().len() ==> (#[trigger] options_edit_bindings()[i]).2 is None,
{
}

proof fn lemma_filter_bindings_have_no_help()
    ensures
        forall|i: int| 0 <= i < filter_bindings().len() ==> (#[trigger] filter_bindings()[i]).2 is None,
{
}

/// The help categories come in table order Global, Process, Disk,
/// Network: along the table, a binding with help never has a category
/// ranked before that of an earlier one, and every category is one of
/// the four.
pub proof fn lemma_help_categories_ordered()
    ensures
        forall|a: int, b: int|
            0 <= a < b < binding_table().len() && (#[trigger] binding_table()[a]).2 is Some
                && (#[trigger] binding_table()[b]).2 is Some
                ==> category_rank(row_category(binding_table()[a])) <= category_rank(row_category(binding_table()[b])),
        forall|a: int| 0 <= a < binding_table().len() && (#[trigger] binding_table()[a]).2 is Some
            ==> category_rank(row_category(binding_table()[a])) <= 3,
{
    lemma_normal_bindings_a_ranks();
    lemma_normal_bindings_b_ranks();
    lemma_normal_bindings_c_ranks();
    lemma_main_menu_bindings_have_no_help();
    lemma_help_bindings_have_no_help();
    lemma_options_bindings_have_no_help();
    lemma_options_edit_bindings_have_no_help();
    lemma_filter_bindings_have_no_help();
    let t = binding_table();
    let ab = normal_bindings_a() + normal_bindings_b();
    let abc = ab + normal_bindings_c();
    let n1 = abc + main_menu_bindings();
    let n2 = n1 + help_bindings();
    let n3 = n2 + options_bindings();
    let n4 = n3 + options_edit_bindings();
    let n5 = n4 + filter_bindings();
    assert(t == n5);
    assert forall|i: int| 0 <= i < t.len() && (#[trigger] t[i]).2 is Some implies category_rank(row_category(t[i])) == rank_at(i) by {
        if i < 14 {
            assert(t[i] == normal_bindings_a()[i]);
        } else if i < 28 {
            assert(t[i] == normal_bindings_b()[i - 14]);
        } else if i < 41 {
            assert(t[i] == normal_bindings_c()[i - 28]);
        } else if i < abc.len() + main_menu_bindings().len() {
            assert(t[i] == main_menu_bindings()[i - abc.len()]);
        } else if i < n1.len() + help_bindings().len() {
            assert(t[i] == help_bindings()[i - n1.len()]);
        } else if i < n2.len() + options_bindings().len() {
            assert(t[i] == options_bindings()[i - n2.len()]);
        } else if i < n3.len() + options_edit_bindings().len() {
            assert(t[i] == options_edit_bindings()[i - n3.len()]);
        } else {
            assert(t[i] == filter_bindings()[i - n4.len()]);
        }
    }
}

/// What a character key does with no overlay open, as the help screen
/// lists the keys; `vim` adds the vim navigation letters.
pub open spec fn normal_char_action(c: char, vim: bool) -> Option<Action> {
    if c == 'q' { Some(Action::NormalQuit) }
    else if c == 'm' { Some(Action::NormalOpenMainMenu) }
    else if c == '?' { Some(Action::NormalOpenHelpMenu) }
    else if c == 'o' { Some(Action::NormalOpenOptionsMenu) }
    else if c == 'p' { Some(Action::NormalPresetForward) }
    else if c == 'P' { Some(Action::NormalPresetBack) }
    else if c == '+' { Some(Action::NormalUpdateRateUp) }
    else if c == '-' { Some(Action::NormalUpdateRateDown) }
    else if '1' <= c && c <= '5' { Some(Action::NormalToggleWidgetMain) }
    else if '6' <= c && c <= '9' { Some(Action::NormalToggleWidgetGpuLow) }
    else if c == '0' { Some(Action::NormalToggleWidgetGpuHigh) }
    else if c == 'R' { Some(Action::NormalRestoreWidgets) }
    else if c == 'r' { Some(Action::NormalToggleReverse) }
    else if c == 'f' || c == '/' { Some(Action::NormalOpenFilter) }
    else if c == 'e' { Some(Action::NormalToggleTree) }
    else if c == 'c' { Some(Action::NormalTogglePerCore) }
    else if c == 't' { Some(Action::NormalTerminate) }
    else if c == 'T' { Some(Action::NormalKill) }
    else if c == 'F' { Some(Action::NormalFollow) }
    else if c == 'i' { Some(Action::NormalToggleIo) }
    else if c == 'b' { Some(Action::NormalIfaceBack) }
    else if c == 'n' { Some(Action::NormalIfaceForward) }
    else if c == 'a' { Some(Action::NormalNetAuto) }
    else if c == 's' { Some(Action::NormalNetSync) }
    else if c == 'z' { Some(Action::NormalNetZero) }
    else if vim && c == 'k' { Some(Action::NormalNavUp) }
    else if vim && c == 'j' { Some(Action::NormalNavDown) }
    else if vim && c == 'g' { Some(Action::NormalNavHome) }
    else if vim && c == 'G' { Some(Action::NormalNavEnd) }
    else if vim && c == 'h' { Some(Action::NormalSortBack) }
    else if vim && c == 'l' { Some(Action::NormalSortForward) }
    else { None }
}

/// What a key does with no overlay open, as the help screen lists the
/// keys; `vim` adds the vim letters and the Ctrl page keys.
pub open spec fn normal_key_action(key: Key, vim: bool) -> Option<Action> {
    match key {
        Key::Char(c) => normal_char_action(c, vim),
        Key::Escape => Some(Action::NormalOpenMainMenu),
        Key::F(n) => if n == 1 { Some(Action::NormalOpenHelpMenu) } else if n == 2 { Some(Action::NormalOpenOptionsMenu) } else { None },
        Key::CtrlR => Some(Action::NormalConfigReload),
        Key::Up => Some(Action::NormalNavUp),
        Key::Down => Some(Action::NormalNavDown),
        Key::PageUp => Some(Action::NormalNavPageUp),
        Key::PageDown => Some(Action::NormalNavPageDown),
        Key::CtrlB => if vim { Some(Action::NormalNavPageUp) } else { None },
        Key::CtrlF => if vim { Some(Action::NormalNavPageDown) } else { None },
        Key::CtrlD => if vim { Some(Action::NormalNavHalfPageDown) } else { None },
        Key::CtrlU => if vim { Some(Action::NormalNavHalfPageUp) } else { None },
        Key::Home => Some(Action::NormalNavHome),
        Key::End => Some(Action::NormalNavEnd),
        Key::Left => Some(Action::NormalSortBack),
        Key::Right => Some(Action::NormalSortForward),
        Key::Enter => Some(Action::NormalDetail),
        _ => None,
    }
}

/// Whether trigger `t` leads, by the key map, to action `a` whenever it
/// fires.
spec fn trigger_maps(t: KeySpec, a: Action) -> bool {
    match t {
        KeySpec::Always(k) => normal_key_action(k, false) == Some(a) && normal_key_action(k, true) == Some(a),
        KeySpec::VimOnly(k) => normal_key_action(k, true) == Some(a),
    }
}

/// Whether a binding active with no overlay open follows the key map.
spec fn row_follows_key_map(r: BindingRow) -> bool {
    r.1.contains(OverlayKind::Closed) ==> forall|j: int| 0 <= j < r.0.len() ==> trigger_maps(#[trigger] r.0[j], r.3)
}

spec fn rows_follow_key_map(g: Seq<BindingRow>) -> bool {
    forall|i: int| 0 <= i < g.len() ==> row_follows_key_map(#[trigger] g[i])
}

proof fn lemma_join_follow_key_map(x: Seq<BindingRow>, y: Seq<BindingRow>)
    requires
        rows_follow_key_map(x),
        rows_follow_key_map(y),
    ensures
        rows_follow_key_map(x + y),
{
    assert forall|i: int| 0 <= i < (x + y).len() implies row_follows_key_map(#[trigger] (x + y)[i]) by {
        if i < x.len() { assert((x + y)[i] == x[i]); } else { assert((x + y)[i] == y[i - x.len()]); }
    }
}

proof fn lemma_other_state_follows(g: Seq<BindingRow>, s: OverlayKind)
    requires
        all_in_state(g, s),
        s != OverlayKind::Closed,
    ensures
        rows_follow_key_map(g),
{
    assert forall|i: int| 0 <= i < g.len() implies row_follows_key_map(#[trigger] g[i]) by {
        assert(g[i].1 == seq![s]);
        assert(!g[i].1.contains(OverlayKind::Closed)) by {
            if g[i].1.contains(OverlayKind::Closed) {
                let q = choose|q: int| 0 <= q < g[i].1.len() && g[i].1[q] == OverlayKind::Closed;
                assert(g[i].1[q] == s);
            }
        }
    }
}

proof fn lemma_normal_bindings_a_key_map()
    ensures
        rows_follow_key_map(normal_bindings_a()),
{
    let t = normal_bindings_a();
    assert forall|i: int| 0 <= i < t.len() implies row_follows_key_map(#[trigger] t[i]) by {
        assert forall|j: int| 0 <= j < t[i].0.len() implies trigger_maps(#[trigger] t[i].0[j], t[i].3) by {}
    }
}

proof fn lemma_normal_bindings_b_key_map()
    ensures
        rows_follow_key_map(normal_bindings_b()),
{
    let t = normal_bindings_b();
    assert forall|i: int| 0 <= i < t.len() implies row_follows_key_map(#[trigger] t[i]) by {
        assert forall|j: int| 0 <= j < t[i].0.len() implies trigger_maps(#[trigger] t[i].0[j], t[i].3) by {}
    }
}

proof fn lemma_normal_bindings_c_key_map()
    ensures
        rows_follow_key_map(normal_bindings_c()),
{
    let t = normal_bindings_c();
    assert forall|i: int| 0 <= i < t.len() implies row_follows_key_map(#[trigger] t[i]) by {
        assert forall|j: int| 0 <= j < t[i].0.len() implies trigger_maps(#[trigger] t[i].0[j], t[i].3) by {}
    }
}

/// With no overlay open, a binding that fires for a key does what the
/// key map [`normal_key_action`] says the key does: `e` toggles the tree
/// view, `c` per-core CPU, and so on for every key of the help screen.
pub proof fn lemma_normal_keys_follow_key_map(key: Key, vim: bool, i: int)
    requires
        0 <= i < binding_table().len(),
        fires(binding_table()[i].0, binding_table()[i].1, key, OverlayKind::Closed, vim),
    ensures
        normal_key_action(key, vim) == Some(binding_table()[i].3),
{
    lemma_normal_bindings_a_key_map();
    lemma_normal_bindings_b_key_map();
    lemma_normal_bindings_c_key_map();
    lemma_main_menu_bindings_shape();
    lemma_help_bindings_shape();
    lemma_options_bindings_shape();
    lemma_options_edit_bindings_shape();
    lemma_filter_bindings_shape();
    lemma_other_state_follows(main_menu_bindings(), OverlayKind::Main);
    lemma_other_state_follows(help_bindings(), OverlayKind::Help);
    lemma_other_state_follows(options_bindings(), OverlayKind::Options);
    lemma_other_state_follows(options_edit_bindings(), OverlayKind::OptionsEdit);
    lemma_other_state_follows(filter_bindings(), OverlayKind::Filter);
    let ab = normal_bindings_a() + normal_bindings_b();
    lemma_join_follow_key_map(normal_bindings_a(), normal_bindings_b());
    let abc = ab + normal_bindings_c();
    lemma_join_follow_key_map(ab, normal_bindings_c());
    let n1 = abc + main_menu_bindings();
    lemma_join_follow_key_map(abc, main_menu_bindings());
    let n2 = n1 + help_bindings();
    lemma_join_follow_key_map(n1, help_bindings());
    let n3 = n2 + options_bindings();
    lemma_join_follow_key_map(n2, options_bindings());
    let n4 = n3 + options_edit_bindings();
    lemma_join_follow_key_map(n3, options_edit_bindings());
    lemma_join_follow_key_map(n4, filter_bindings());
    assert(binding_table() == n4 + filter_bindings());
    let r = binding_table()[i];
    assert(row_follows_key_map(r));
    let j = choose|j: int| 0 <= j < r.0.len() && trigger_fires(#[trigger] r.0[j], key, vim);
    assert(trigger_maps(r.0[j], r.3));
}

proof fn lemma_bound_at(i: int, j: int, key: Key, vim: bool)
    requires
        0 <= i < normal_bindings().len(),
        0 <= j < normal_bindings()[i].0.len(),
        trigger_fires(normal_bindings()[i].0[j], key, vim),
    ensures
        exists|k: int| 0 <= k < binding_table().len()
            && fires(#[trigger] binding_table()[k].0, binding_table()[k].1, key, OverlayKind::Closed, vim),
{
    lemma_normal_bindings_a_shape();
    lemma_normal_bindings_b_shape();
    lemma_normal_bindings_c_shape();
    let a = normal_bindings_a();
    let b = normal_bindings_b();
    lemma_join_state(a, b, OverlayKind::Closed);
    lemma_join_state(a + b, normal_bindings_c(), OverlayKind::Closed);
    let r = normal_bindings()[i];
    assert(r.1 == seq![OverlayKind::Closed]);
    assert(r.1[0] == OverlayKind::Closed);
    assert(binding_table()[i] == r);
    assert(fires(r.0, r.1, key, OverlayKind::Closed, vim));
}

/// Every key of the key map [`normal_key_action`] is bound with no
/// overlay open: some binding of the table fires for it.
pub proof fn lemma_key_map_keys_are_bound(key: Key, vim: bool)
    requires
        normal_key_action(key, vim) is Some,
    ensures
        exists|k: int| 0 <= k < binding_table().len()
            && fires(#[trigger] binding_table()[k].0, binding_table()[k].1, key, OverlayKind::Closed, vim),
{
    if key == Key::Char('q') {
        lemma_bound_at(0, 0, key, vim);
    }
    if key == Key::Escape {
        lemma_bound_at(1, 0, key, vim);
    }
    if key == Key::Char('m') {
        lemma_bound_at(1, 1, key, vim);
    }
    if key == Key::Char('?') {
        lemma_bound_at(2, 0, key, vim);
    }
    if key == Key::F(1) {
        lemma_bound_at(2, 1, key, vim);
    }
    if key == Key::Char('o') {
        lemma_bound_at(3, 0, key, vim);
    }
    if key == Key::F(2) {
        lemma_bound_at(3, 1, key, vim);
    }
    if key == Key::Char('p') {
        lemma_bound_at(4, 0, key, vim);
    }
    if key == Key::Char('P') {
        lemma_bound_at(5, 0, key, vim);
    }
    if key == Key::CtrlR {
        lemma_bound_at(6, 0, key, vim);
    }
    if key == Key::Char('+') {
        lemma_bound_at(7, 0, key, vim);
    }
    if key == Key::Char('-') {
        lemma_bound_at(8, 0, key, vim);
    }
    if key == Key::Char('1') {
        lemma_bound_at(9, 0, key, vim);
    }
    if key == Key::Char('2') {
        lemma_bound_at(9, 1, key, vim);
    }
    if key == Key::Char('3') {
        lemma_bound_at(9, 2, key, vim);
    }
    if key == Key::Char('4') {
        lemma_bound_at(9, 3, key, vim);
    }
    if key == Key::Char('5') {
        lemma_bound_at(9, 4, key, vim);
    }
    if key == Key::Char('6') {
        lemma_bound_at(10, 0, key, vim);
    }
    if key == Key::Char('7') {
        lemma_bound_at(10, 1, key, vim);
    }
    if key == Key::Char('8') {
        lemma_bound_at(10, 2, key, vim);
    }
    if key == Key::Char('9') {
        lemma_bound_at(10, 3, key, vim);
    }
    if key == Key::Char('0') {
        lemma_bound_at(11, 0, key, vim);
    }
    if key == Key::Char('R') {
        lemma_bound_at(12, 0, key, vim);
    }
    if key == Key::Up {
        lemma_bound_at(13, 0, key, vim);
    }
    if vim && key == Key::Char('k') {
        lemma_bound_at(13, 1, key, vim);
    }
    if key == Key::Down {
        lemma_bound_at(14, 0, key, vim);
    }
    if vim && key == Key::Char('j') {
        lemma_bound_at(14, 1, key, vim);
    }
    if key == Key::PageUp {
        lemma_bound_at(15, 0, key, vim);
    }
    if key == Key::PageDown {
        lemma_bound_at(16, 0, key, vim);
    }
    if vim && key == Key::CtrlB {
        lemma_bound_at(17, 0, key, vim);
    }
    if vim && key == Key::CtrlF {
        lemma_bound_at(18, 0, key, vim);
    }
    if vim && key == Key::CtrlD {
        lemma_bound_at(19, 0, key, vim);
    }
    if vim && key == Key::CtrlU {
        lemma_bound_at(20, 0, key, vim);
    }
    if key == Key::Home {
        lemma_bound_at(21, 0, key, vim);
    }
    if vim && key == Key::Char('g') {
        lemma_bound_at(21, 1, key, vim);
    }
    if key == Key::End {
        lemma_bound_at(22, 0, key, vim);
    }
    if vim && key == Key::Char('G') {
        lemma_bound_at(22, 1, key, vim);
    }
    if key == Key::Left {
        lemma_bound_at(23, 0, key, vim);
    }
    if key == Key::Right {
        lemma_bound_at(24, 0, key, vim);
    }
    if vim && key == Key::Char('h') {
        lemma_bound_at(25, 0, key, vim);
    }
    if vim && key == Key::Char('l') {
        lemma_bound_at(26, 0, key, vim);
    }
    if key == Key::Char('r') {
        lemma_bound_at(27, 0, key, vim);
    }
    if key == Key::Char('f') {
        lemma_bound_at(28, 0, key, vim);
    }
    if key == Key::Char('/') {
        lemma_bound_at(28, 1, key, vim);
    }
    if key == Key::Char('e') {
        lemma_bound_at(29, 0, key, vim);
    }
    if key == Key::Char('c') {
        lemma_bound_at(30, 0, key, vim);
    }
    if key == Key::Char('t') {
        lemma_bound_at(31, 0, key, vim);
    }
    if key == Key::Char('T') {
        lemma_bound_at(32, 0, key, vim);
    }
    if key == Key::Enter {
        lemma_bound_at(33, 0, key, vim);
    }
    if key == Key::Char('F') {
        lemma_bound_at(34, 0, key, vim);
    }
    if key == Key::Char('i') {
        lemma_bound_at(35, 0, key, vim);
    }
    if key == Key::Char('b') {
        lemma_bound_at(36, 0, key, vim);
    }
    if key == Key::Char('n') {
        lemma_bound_at(37, 0, key, vim);
    }
    if key == Key::Char('a') {
        lemma_bound_at(38, 0, key, vim);
    }
    if key == Key::Char('s') {
        lemma_bound_at(39, 0, key, vim);
    }
    if key == Key::Char('z') {
        lemma_bound_at(40, 0, key, vim);
    }
    if key is Char {
        let c = key->Char_0;
        if '1' <= c && c <= '5' {
            assert(c == '1' || c == '2' || c == '3' || c == '4' || c == '5');
        }
        if '6' <= c && c <= '9' {
            assert(c == '6' || c == '7' || c == '8' || c == '9');
        }
    }
}

} // verus!
