//! The options overlay's state: the selected category, page and row,
//! where it returns on close, and the inline edit when one is active.

pub mod draw;
pub mod edit;
pub mod render;

use vstd::prelude::*;

use crate::config::{BoolKey, ConfigKey, EnumKey, IntKey, StringKey};
use crate::overlay::ReturnTarget;
use self::edit::{EditKind, OptionEditState};
use self::render::{
    geometry_ok, lemma_category_bounds, opt_kind, opt_kind_of, page_count, page_count_at, select_max,
    select_max_at, OptKind, CATEGORY_COUNT, category_index_for_hotkey, hotkey_category,
};
use crate::handlers::normal::{cycle_name, cycled, is_current, lemma_cycle_inverse, texts};

verus! {

/// State of the options overlay.
#[derive(Debug, Clone)]
pub struct OptionsState {
    cat: usize,
    selected: usize,
    page: usize,
    return_to: ReturnTarget,
    edit: Option<OptionEditState>,
}

impl OptionsState {
    pub closed spec fn cat_spec(&self) -> nat { self.cat as nat }
    pub closed spec fn selected_spec(&self) -> nat { self.selected as nat }
    pub closed spec fn page_spec(&self) -> nat { self.page as nat }
    pub closed spec fn return_spec(&self) -> ReturnTarget { self.return_to }
    pub closed spec fn edit_spec(&self) -> Option<OptionEditState> { self.edit }

    /// Whether an inline edit is active.
    pub open spec fn editing(&self) -> bool {
        self.edit_spec() is Some
    }

    /// Options at the first category, page and row, with no edit.
    pub fn new(return_to: ReturnTarget) -> (r: Self)
        ensures
            r.cat_spec() == 0 && r.selected_spec() == 0 && r.page_spec() == 0,
            r.return_spec() == return_to,
            r.edit_spec() is None,
    {
        OptionsState { cat: 0, selected: 0, page: 0, return_to, edit: None }
    }

    /// The selected category.
    pub fn cat(&self) -> (r: usize)
        ensures
            r == self.cat_spec(),
    {
        self.cat
    }

    /// The selected row of the page.
    pub fn selected(&self) -> (r: usize)
        ensures
            r == self.selected_spec(),
    {
        self.selected
    }

    /// The page shown.
    pub fn page(&self) -> (r: usize)
        ensures
            r == self.page_spec(),
    {
        self.page
    }

    /// Where the overlay returns on close.
    pub fn return_to(&self) -> (r: ReturnTarget)
        ensures
            r == self.return_spec(),
    {
        self.return_to
    }

    /// The active edit, if any.
    pub fn edit(&self) -> (r: Option<&OptionEditState>)
        ensures
            match self.edit_spec() {
                Some(e) => r == Some(&e),
                None => r is None,
            },
    {
        match &self.edit {
            Some(e) => Some(e),
            None => None,
        }
    }

    /// The active edit, for changing it in place.
    pub fn edit_mut(&mut self) -> (r: Option<&mut OptionEditState>)
        ensures
            match old(self).edit_spec() {
                Some(e) => r matches Some(m) && *m == e && final(self).edit_spec() == Some(*final(m)),
                None => r is None && final(self).edit_spec() is None,
            },
            final(self).cat_spec() == old(self).cat_spec(),
            final(self).selected_spec() == old(self).selected_spec(),
            final(self).page_spec() == old(self).page_spec(),
            final(self).return_spec() == old(self).return_spec(),
    {
        match &mut self.edit {
            Some(e) => Some(e),
            None => None,
        }
    }

    /// Whether an inline edit is active.
    pub fn is_editing(&self) -> (r: bool)
        ensures
            r == self.editing(),
    {
        self.edit.is_some()
    }

    /// The next category of `cat_count`, wrapping; page and row reset.
    /// Nothing happens when there are no categories.
    pub fn cat_next(&mut self, cat_count: usize)
        ensures
            cat_count == 0 ==> *final(self) == *old(self),
            cat_count > 0 ==> final(self).cat_spec() == next_cat(old(self).cat_spec(), cat_count as nat)
                && final(self).page_spec() == 0 && final(self).selected_spec() == 0,
            final(self).return_spec() == old(self).return_spec(),
            final(self).edit_spec() == old(self).edit_spec(),
    {
        if cat_count == 0 {
            return;
        }
        self.cat = ((self.cat as u128 + 1) % (cat_count as u128)) as usize;
        self.page = 0;
        self.selected = 0;
    }

    /// The previous category of `cat_count`, wrapping; page and row
    /// reset. Nothing happens when there are no categories.
    pub fn cat_prev(&mut self, cat_count: usize)
        ensures
            cat_count == 0 ==> *final(self) == *old(self),
            cat_count > 0 ==> final(self).cat_spec() == prev_cat(old(self).cat_spec(), cat_count as nat)
                && final(self).page_spec() == 0 && final(self).selected_spec() == 0,
            final(self).return_spec() == old(self).return_spec(),
            final(self).edit_spec() == old(self).edit_spec(),
    {
        if cat_count == 0 {
            return;
        }
        self.cat = if self.cat == 0 { cat_count - 1 } else { self.cat - 1 };
        self.page = 0;
        self.selected = 0;
    }

    /// Selects category `cat` (reduced modulo `cat_count`). Returns
    /// whether the category changed; only a change resets page and row.
    pub fn set_cat(&mut self, cat: usize, cat_count: usize) -> (changed: bool)
        ensures
            ({
                let new_cat = if cat_count == 0 { 0 } else { cat as nat % (cat_count as nat) };
                &&& changed == (new_cat != old(self).cat_spec())
                &&& !changed ==> *final(self) == *old(self)
                &&& changed ==> final(self).cat_spec() == new_cat && final(self).page_spec() == 0
                    && final(self).selected_spec() == 0
            }),
            final(self).return_spec() == old(self).return_spec(),
            final(self).edit_spec() == old(self).edit_spec(),
    {
        let new_cat = if cat_count == 0 { 0 } else { cat % cat_count };
        if new_cat == self.cat {
            return false;
        }
        self.cat = new_cat;
        self.page = 0;
        self.selected = 0;
        true
    }

    /// Jumps to the category whose hotkey is `key`. Returns whether the
    /// category changed; a key that is no hotkey changes nothing.
    pub fn select_by_hotkey(&mut self, key: char) -> (changed: bool)
        ensures
            match hotkey_category(key) {
                Some(i) => {
                    &&& changed == (i != old(self).cat_spec())
                    &&& !changed ==> *final(self) == *old(self)
                    &&& changed ==> final(self).cat_spec() == i && final(self).page_spec() == 0
                        && final(self).selected_spec() == 0
                },
                None => !changed && *final(self) == *old(self),
            },
            final(self).return_spec() == old(self).return_spec(),
            final(self).edit_spec() == old(self).edit_spec(),
    {
        match category_index_for_hotkey(key) {
            Some(i) => self.set_cat(i, CATEGORY_COUNT),
            None => false,
        }
    }

    /// Selects a row of the page (the caller clamps it).
    pub fn set_selected(&mut self, selected: usize)
        ensures
            final(self).selected_spec() == selected,
            final(self).cat_spec() == old(self).cat_spec(),
            final(self).page_spec() == old(self).page_spec(),
            final(self).return_spec() == old(self).return_spec(),
            final(self).edit_spec() == old(self).edit_spec(),
    {
        self.selected = selected;
    }

    /// Shows a page (the caller clamps it); the row resets.
    pub fn set_page(&mut self, page: usize)
        ensures
            final(self).page_spec() == page,
            final(self).selected_spec() == 0,
            final(self).cat_spec() == old(self).cat_spec(),
            final(self).return_spec() == old(self).return_spec(),
            final(self).edit_spec() == old(self).edit_spec(),
    {
        self.page = page;
        self.selected = 0;
    }

    /// Starts an inline edit, replacing any active one.
    pub fn enter_edit(&mut self, edit: OptionEditState)
        ensures
            final(self).edit_spec() == Some(edit),
            final(self).cat_spec() == old(self).cat_spec(),
            final(self).selected_spec() == old(self).selected_spec(),
            final(self).page_spec() == old(self).page_spec(),
            final(self).return_spec() == old(self).return_spec(),
    {
        self.edit = Some(edit);
    }

    /// Ends the inline edit, handing it back.
    pub fn exit_edit(&mut self) -> (r: Option<OptionEditState>)
        ensures
            r == old(self).edit_spec(),
            final(self).edit_spec() is None,
            final(self).cat_spec() == old(self).cat_spec(),
            final(self).selected_spec() == old(self).selected_spec(),
            final(self).page_spec() == old(self).page_spec(),
            final(self).return_spec() == old(self).return_spec(),
    {
        let mut taken: Option<OptionEditState> = None;
        std::mem::swap(&mut taken, &mut self.edit);
        taken
    }
}

/// Where `Up` leads from row `sel` of `page`: the row above, else the
/// last row of the previous page, wrapping to the last page.
pub open spec fn stepped_up(cat: nat, page: nat, sel: nat, th: nat) -> (nat, nat) {
    if sel > 0 {
        (page, (sel - 1) as nat)
    } else {
        let pages = page_count_at(cat, th);
        let np: nat = if page > 0 { (page - 1) as nat } else if pages >= 1 { (pages - 1) as nat } else { 0 };
        (np, select_max_at(cat, np, th))
    }
}

/// Where `Down` leads from row `sel` of `page`: the row below, else the
/// first row of the next page, wrapping to the first page.
pub open spec fn stepped_down(cat: nat, page: nat, sel: nat, th: nat) -> (nat, nat) {
    if sel < select_max_at(cat, page, th) {
        (page, sel + 1)
    } else {
        let pages = page_count_at(cat, th);
        let np: nat = if page + 1 < pages { page + 1 } else if pages > 1 { 0 } else { page };
        (np, 0)
    }
}

/// The page before `page`, wrapping to the last.
pub open spec fn paged_up(page: nat, pages: nat) -> nat {
    if page > 0 { (page - 1) as nat } else { (pages - 1) as nat }
}

/// The page after `page`, wrapping to the first.
pub open spec fn paged_down(page: nat, pages: nat) -> nat {
    if page + 1 < pages { page + 1 } else { 0 }
}

/// A position the menu can show: a known category, a page that exists
/// and a row on it.
pub open spec fn position_valid(cat: nat, page: nat, sel: nat, th: nat) -> bool {
    &&& cat < CATEGORY_COUNT
    &&& th >= 12
    &&& page < page_count_at(cat, th)
    &&& sel <= select_max_at(cat, page, th)
}

impl OptionsState {
    /// Moves the selection up one row, onto the previous page (or the last
    /// one) past the top.
    pub fn select_up(&mut self, term_height: usize)
        requires
            old(self).selected_spec() == 0 ==> geometry_ok(old(self).cat_spec(), old(self).page_spec(), term_height as nat),
        ensures
            (final(self).page_spec(), final(self).selected_spec())
                == stepped_up(old(self).cat_spec(), old(self).page_spec(), old(self).selected_spec(), term_height as nat),
            final(self).cat_spec() == old(self).cat_spec(),
            final(self).return_spec() == old(self).return_spec(),
            final(self).edit_spec() == old(self).edit_spec(),
    {
        if self.selected > 0 {
            self.selected = self.selected - 1;
        } else {
            let pages = page_count(self.cat, term_height);
            let new_page = if self.page > 0 {
                self.page - 1
            } else if pages >= 1 {
                pages - 1
            } else {
                0
            };
            proof {
                if self.cat < CATEGORY_COUNT {
                    lemma_category_bounds(self.cat as nat, term_height as nat);
                    let ipp = render::items_per_page_at(term_height as nat);
                    let p = self.page as nat;
                    let np = new_page as nat;
                    assert(ipp * np <= usize::MAX) by (nonlinear_arith)
                        requires
                            ipp * p <= usize::MAX,
                            1 <= ipp <= 16,
                            np < p || np <= 16,
                    ;
                }
            }
            let new_selected = select_max(self.cat, new_page, term_height);
            self.page = new_page;
            self.selected = new_selected;
        }
    }

    /// Moves the selection down one row, onto the next page (or the first
    /// one) past the bottom.
    pub fn select_down(&mut self, term_height: usize)
        requires
            geometry_ok(old(self).cat_spec(), old(self).page_spec(), term_height as nat),
        ensures
            (final(self).page_spec(), final(self).selected_spec())
                == stepped_down(old(self).cat_spec(), old(self).page_spec(), old(self).selected_spec(), term_height as nat),
            final(self).cat_spec() == old(self).cat_spec(),
            final(self).return_spec() == old(self).return_spec(),
            final(self).edit_spec() == old(self).edit_spec(),
    {
        let sm = select_max(self.cat, self.page, term_height);
        if self.selected < sm {
            self.selected = self.selected + 1;
        } else {
            let pages = page_count(self.cat, term_height);
            let new_page = if pages >= 1 && self.page < pages - 1 {
                self.page + 1
            } else if pages > 1 {
                0
            } else {
                self.page
            };
            self.page = new_page;
            self.selected = 0;
        }
    }

    /// Shows the previous page (the last past the first) when there is
    /// more than one; tells whether it did.
    pub fn page_up(&mut self, term_height: usize) -> (moved: bool)
        requires
            old(self).cat_spec() >= CATEGORY_COUNT || term_height >= 12,
        ensures
            moved == (page_count_at(old(self).cat_spec(), term_height as nat) > 1),
            moved ==> final(self).page_spec() == paged_up(old(self).page_spec(), page_count_at(old(self).cat_spec(), term_height as nat))
                && final(self).selected_spec() == 0,
            !moved ==> *final(self) == *old(self),
            final(self).cat_spec() == old(self).cat_spec(),
            final(self).return_spec() == old(self).return_spec(),
            final(self).edit_spec() == old(self).edit_spec(),
    {
        let pages = page_count(self.cat, term_height);
        if pages > 1 {
            let new_page = if self.page > 0 { self.page - 1 } else { pages - 1 };
            self.set_page(new_page);
            true
        } else {
            false
        }
    }

    /// Shows the next page (the first past the last) when there is more
    /// than one; tells whether it did.
    pub fn page_down(&mut self, term_height: usize) -> (moved: bool)
        requires
            old(self).cat_spec() >= CATEGORY_COUNT || term_height >= 12,
        ensures
            moved == (page_count_at(old(self).cat_spec(), term_height as nat) > 1),
            moved ==> final(self).page_spec() == paged_down(old(self).page_spec(), page_count_at(old(self).cat_spec(), term_height as nat))
                && final(self).selected_spec() == 0,
            !moved ==> *final(self) == *old(self),
            final(self).cat_spec() == old(self).cat_spec(),
            final(self).return_spec() == old(self).return_spec(),
            final(self).edit_spec() == old(self).edit_spec(),
    {
        let pages = page_count(self.cat, term_height);
        if pages > 1 {
            let new_page = if self.page < pages - 1 { self.page + 1 } else { 0 };
            self.set_page(new_page);
            true
        } else {
            false
        }
    }
}

/// `Down` then `Up` comes back to where it started, from any position
/// the menu can show, wrapping across pages included.
pub proof fn lemma_down_then_up(cat: nat, page: nat, sel: nat, th: nat)
    requires
        position_valid(cat, page, sel, th),
    ensures
        ({
            let (p1, s1) = stepped_down(cat, page, sel, th);
            stepped_up(cat, p1, s1, th) == (page, sel)
        }),
{
}

/// `Up` then `Down` comes back to where it started, from any position
/// the menu can show, wrapping across pages included.
pub proof fn lemma_up_then_down(cat: nat, page: nat, sel: nat, th: nat)
    requires
        position_valid(cat, page, sel, th),
    ensures
        ({
            let (p1, s1) = stepped_up(cat, page, sel, th);
            stepped_down(cat, p1, s1, th) == (page, sel)
        }),
{
}

/// The category tab after `cat` among `count` (what `Tab` selects).
pub open spec fn next_cat(cat: nat, count: nat) -> nat {
    (cat + 1) % count
}

/// The category tab before `cat` among `count` (what `Shift+Tab` selects).
pub open spec fn prev_cat(cat: nat, count: nat) -> nat {
    if cat == 0 { (count - 1) as nat } else { (cat - 1) as nat }
}

/// `Tab` then `Shift+Tab`, or the reverse, comes back to the same
/// category tab.
pub proof fn lemma_category_tabs_inverse(cat: nat, count: nat)
    requires
        cat < count,
    ensures
        prev_cat(next_cat(cat, count), count) == cat,
        next_cat(prev_cat(cat, count), count) == cat,
{
    lemma_cycle_inverse(cat, count);
}

/// Paging down then up, or up then down, returns to the same page.
pub proof fn lemma_paging_inverse(page: nat, pages: nat)
    requires
        page < pages,
        pages > 1,
    ensures
        paged_up(paged_down(page, pages), pages) == page,
        paged_down(paged_up(page, pages), pages) == page,
{
}

/// What must happen after an option changed, beyond storing it.
#[derive(Debug, Clone, Copy, PartialEq, Eq, Structural)]
pub struct ChangeEffects {
    /// Load the newly chosen theme.
    pub reload_theme: bool,
    /// Lay the frame out again and repaint every widget.
    pub relayout: bool,
    /// Hand the new log level to the logger.
    pub update_log_level: bool,
    /// Send the refresh intervals to the collectors again.
    pub refresh_intervals: bool,
    /// Copy the runtime view toggles from the configuration.
    pub sync_view: bool,
    /// Rebuild the process list.
    pub proc_data_changed: bool,
}

/// Whether `key` is one of the runtime view toggles kept outside the
/// configuration while the program runs.
pub open spec fn view_key(key: ConfigKey) -> bool {
    key == ConfigKey::Bool(BoolKey::ProcTree) || key == ConfigKey::Bool(BoolKey::ProcReversed)
        || key == ConfigKey::Bool(BoolKey::ProcPerCore) || key == ConfigKey::Bool(BoolKey::IoMode)
        || key == ConfigKey::Bool(BoolKey::NetAuto) || key == ConfigKey::Bool(BoolKey::NetSync)
        || key == ConfigKey::Enum(EnumKey::ProcSorting) || key == ConfigKey::String(StringKey::ProcFilter)
}

/// Whether `key` changes the status bar's size or content.
pub open spec fn statusbar_key(key: ConfigKey) -> bool {
    key == ConfigKey::Bool(BoolKey::ShowStatusbar) || key == ConfigKey::Bool(BoolKey::StatusbarShowMenu)
        || key == ConfigKey::Bool(BoolKey::StatusbarShowPreset)
        || key == ConfigKey::Bool(BoolKey::StatusbarShowUpdateInterval)
        || key == ConfigKey::Bool(BoolKey::StatusbarShowUptime)
        || key == ConfigKey::Bool(BoolKey::StatusbarShowClock)
        || key == ConfigKey::String(StringKey::StatusbarClockFormat)
}

/// Whether `key` changes which processes are listed or how.
pub open spec fn proc_list_key(key: ConfigKey) -> bool {
    key == ConfigKey::String(StringKey::ProcFilter) || key == ConfigKey::Enum(EnumKey::ProcSorting)
        || key == ConfigKey::Bool(BoolKey::ProcReversed) || key == ConfigKey::Bool(BoolKey::ProcTree)
        || key == ConfigKey::Bool(BoolKey::ProcAggregate) || key == ConfigKey::Bool(BoolKey::ProcMemBytes)
        || key == ConfigKey::Bool(BoolKey::ProcGradient) || key == ConfigKey::Bool(BoolKey::ProcColors)
        || key == ConfigKey::Bool(BoolKey::ProcPerCore)
}

/// Whether `key` is a refresh interval, global or per widget.
pub open spec fn interval_key(key: ConfigKey) -> bool {
    key == ConfigKey::Int(IntKey::UpdateMs) || key == ConfigKey::Int(IntKey::CpuUpdateMs)
        || key == ConfigKey::Int(IntKey::MemUpdateMs) || key == ConfigKey::Int(IntKey::DiskUpdateMs)
        || key == ConfigKey::Int(IntKey::NetUpdateMs) || key == ConfigKey::Int(IntKey::GpuUpdateMs)
        || key == ConfigKey::Int(IntKey::ProcUpdateMs)
}

/// The effects of changing `key`: a new theme is loaded and relaid out;
/// the theme background and the status bar options relay out; the log
/// level goes to the logger; intervals go to the collectors; view toggles
/// are copied back; process-list options rebuild the list.
pub open spec fn change_effects(key: ConfigKey) -> ChangeEffects {
    ChangeEffects {
        reload_theme: key == ConfigKey::String(StringKey::ColorTheme),
        relayout: key == ConfigKey::String(StringKey::ColorTheme) || key == ConfigKey::Bool(BoolKey::ThemeBackground)
            || statusbar_key(key),
        update_log_level: key == ConfigKey::Enum(EnumKey::LogLevel),
        refresh_intervals: interval_key(key),
        sync_view: view_key(key),
        proc_data_changed: proc_list_key(key),
    }
}

/// Whether `key` is one of the runtime view toggles.
pub fn is_view_key(key: ConfigKey) -> (r: bool)
    ensures
        r == view_key(key),
{
    match key {
        ConfigKey::Bool(BoolKey::ProcTree) | ConfigKey::Bool(BoolKey::ProcReversed)
        | ConfigKey::Bool(BoolKey::ProcPerCore) | ConfigKey::Bool(BoolKey::IoMode)
        | ConfigKey::Bool(BoolKey::NetAuto) | ConfigKey::Bool(BoolKey::NetSync)
        | ConfigKey::Enum(EnumKey::ProcSorting) | ConfigKey::String(StringKey::ProcFilter) => true,
        _ => false,
    }
}

/// What the application must do after `key` changed.
pub fn post_change_effects(key: ConfigKey) -> (r: ChangeEffects)
    ensures
        r == change_effects(key),
{
    let reload_theme = match key {
        ConfigKey::String(StringKey::ColorTheme) => true,
        _ => false,
    };
    let statusbar = match key {
        ConfigKey::Bool(BoolKey::ShowStatusbar) | ConfigKey::Bool(BoolKey::StatusbarShowMenu)
        | ConfigKey::Bool(BoolKey::StatusbarShowPreset) | ConfigKey::Bool(BoolKey::StatusbarShowUpdateInterval)
        | ConfigKey::Bool(BoolKey::StatusbarShowUptime) | ConfigKey::Bool(BoolKey::StatusbarShowClock)
        | ConfigKey::String(StringKey::StatusbarClockFormat) => true,
        _ => false,
    };
    let background = match key {
        ConfigKey::Bool(BoolKey::ThemeBackground) => true,
        _ => false,
    };
    let log_level = match key {
        ConfigKey::Enum(EnumKey::LogLevel) => true,
        _ => false,
    };
    let interval = match key {
        ConfigKey::Int(IntKey::UpdateMs) | ConfigKey::Int(IntKey::CpuUpdateMs) | ConfigKey::Int(IntKey::MemUpdateMs)
        | ConfigKey::Int(IntKey::DiskUpdateMs) | ConfigKey::Int(IntKey::NetUpdateMs)
        | ConfigKey::Int(IntKey::GpuUpdateMs) | ConfigKey::Int(IntKey::ProcUpdateMs) => true,
        _ => false,
    };
    let proc_list = match key {
        ConfigKey::String(StringKey::ProcFilter) | ConfigKey::Enum(EnumKey::ProcSorting)
        | ConfigKey::Bool(BoolKey::ProcReversed) | ConfigKey::Bool(BoolKey::ProcTree)
        | ConfigKey::Bool(BoolKey::ProcAggregate) | ConfigKey::Bool(BoolKey::ProcMemBytes)
        | ConfigKey::Bool(BoolKey::ProcGradient) | ConfigKey::Bool(BoolKey::ProcColors)
        | ConfigKey::Bool(BoolKey::ProcPerCore) => true,
        _ => false,
    };
    ChangeEffects {
        reload_theme,
        relayout: reload_theme || background || statusbar,
        update_log_level: log_level,
        refresh_intervals: interval,
        sync_view: is_view_key(key),
        proc_data_changed: proc_list,
    }
}

/// What committing an inline edit comes to.
#[derive(Debug, Clone, Copy)]
pub enum CommitOutcome {
    /// Nothing to commit: no edit is open, or an integer edit is open on
    /// an option that is not an integer.
    Ignored,
    /// The value was refused; the editor stays open showing the message.
    Rejected(&'static str),
    /// The value was stored; the editor closes and the effects follow.
    Committed(ChangeEffects),
}

/// What committing the text of an edit of `key` (edited as `kind`) comes
/// to, given the option's own check of the text (`checked`: the integer
/// parse, or the string validation) and whether storing it succeeded
/// (`stored`: strings and enumerations).
pub open spec fn commit_outcome(key: ConfigKey, kind: EditKind, checked: Result<(), &'static str>, stored: bool) -> CommitOutcome {
    match kind {
        EditKind::Integer => match key {
            ConfigKey::Int(_) => match checked {
                Err(msg) => CommitOutcome::Rejected(msg),
                Ok(_) => CommitOutcome::Committed(change_effects(key)),
            },
            _ => CommitOutcome::Ignored,
        },
        EditKind::Text => match key {
            ConfigKey::String(_) => match checked {
                Err(msg) => CommitOutcome::Rejected(msg),
                Ok(_) => if stored {
                    CommitOutcome::Committed(change_effects(key))
                } else {
                    CommitOutcome::Rejected("could not save value")
                },
            },
            ConfigKey::Enum(_) => if stored {
                CommitOutcome::Committed(change_effects(key))
            } else {
                CommitOutcome::Rejected("invalid value")
            },
            _ => CommitOutcome::Rejected("not a string-typed option"),
        },
    }
}

impl OptionsState {
    /// Commits the open edit (`Enter` in the editor): on a refusal the
    /// message is shown and the editor stays, on success the editor closes
    /// and the effects of the change are returned.
    pub fn commit(&mut self, checked: Result<(), &'static str>, stored: bool) -> (r: CommitOutcome)
        ensures
            match old(self).edit_spec() {
                None => r == CommitOutcome::Ignored && *final(self) == *old(self),
                Some(e) => {
                    &&& r == commit_outcome(e.key_spec(), e.kind_spec(), checked, stored)
                    &&& r is Ignored ==> *final(self) == *old(self)
                    &&& r is Committed ==> final(self).edit_spec() is None
                    &&& r matches CommitOutcome::Rejected(msg) ==> (final(self).edit_spec() matches Some(f)
                        && f.error_spec() == Some(msg)
                        && f.buffer_spec() == e.buffer_spec()
                        && f.cursor_spec() == e.cursor_spec()
                        && f.key_spec() == e.key_spec()
                        && f.kind_spec() == e.kind_spec())
                },
            },
            final(self).cat_spec() == old(self).cat_spec(),
            final(self).selected_spec() == old(self).selected_spec(),
            final(self).page_spec() == old(self).page_spec(),
            final(self).return_spec() == old(self).return_spec(),
    {
        let (key, kind) = match &self.edit {
            Some(e) => (e.key(), e.kind()),
            None => return CommitOutcome::Ignored,
        };
        let outcome = match kind {
            EditKind::Integer => match key {
                ConfigKey::Int(_) => match checked {
                    Err(msg) => CommitOutcome::Rejected(msg),
                    Ok(_) => CommitOutcome::Committed(post_change_effects(key)),
                },
                _ => CommitOutcome::Ignored,
            },
            EditKind::Text => match key {
                ConfigKey::String(_) => match checked {
                    Err(msg) => CommitOutcome::Rejected(msg),
                    Ok(_) => if stored {
                        CommitOutcome::Committed(post_change_effects(key))
                    } else {
                        CommitOutcome::Rejected("could not save value")
                    },
                },
                ConfigKey::Enum(_) => if stored {
                    CommitOutcome::Committed(post_change_effects(key))
                } else {
                    CommitOutcome::Rejected("invalid value")
                },
                _ => CommitOutcome::Rejected("not a string-typed option"),
            },
        };
        match outcome {
            CommitOutcome::Rejected(msg) => {
                if let Some(e) = self.edit_mut() {
                    e.set_error(Some(msg));
                }
            },
            CommitOutcome::Committed(_) => {
                let _ = self.exit_edit();
            },
            CommitOutcome::Ignored => {},
        }
        outcome
    }
}

/// What `Enter` does on an option.
#[derive(Debug, Clone, Copy, PartialEq, Eq, Structural)]
pub enum EnterStep {
    /// Open the inline editor on it, as integer or text.
    Edit(ConfigKey, EditKind),
    /// Step it to the right, as the arrow key does.
    Step(ConfigKey),
}

/// What `Enter` does on `key`: integers and free text open the editor,
/// booleans and browsable options step right.
pub open spec fn enter_step_of(key: ConfigKey) -> EnterStep {
    match opt_kind_of(key) {
        OptKind::Int => EnterStep::Edit(key, EditKind::Integer),
        OptKind::StringVal => EnterStep::Edit(key, EditKind::Text),
        _ => EnterStep::Step(key),
    }
}

/// What `Enter` does on `key` (see [`enter_step_of`]).
pub fn enter_step(key: ConfigKey) -> (r: EnterStep)
    ensures
        r == enter_step_of(key),
{
    match opt_kind(key) {
        OptKind::Int => EnterStep::Edit(key, EditKind::Integer),
        OptKind::StringVal => EnterStep::Edit(key, EditKind::Text),
        _ => EnterStep::Step(key),
    }
}

/// The change an arrow key makes to an option.
#[derive(Debug, Clone, Copy, PartialEq, Eq, Structural)]
pub enum OptionStep {
    /// Flip the boolean.
    Toggle(BoolKey),
    /// Move the integer by this many of its steps.
    StepInt(IntKey, i64),
    /// Move to the next choice, or the previous one when `backward`.
    Cycle(ConfigKey, bool),
    /// Free text is only changed in the editor.
    Nothing,
}

/// The change `Left` (`dir` -1) or `Right` (`dir` 1) makes to `key`.
pub open spec fn option_step_of(key: ConfigKey, dir: i32) -> OptionStep {
    match key {
        ConfigKey::Bool(k) => OptionStep::Toggle(k),
        ConfigKey::Int(k) => OptionStep::StepInt(k, dir as i64),
        _ => if opt_kind_of(key) == OptKind::Browsable { OptionStep::Cycle(key, !(dir > 0)) } else { OptionStep::Nothing },
    }
}

/// The change an arrow key makes to `key` (see [`option_step_of`]); the
/// effects of [`post_change_effects`] follow it in every case.
pub fn option_step(key: ConfigKey, dir: i32) -> (r: OptionStep)
    ensures
        r == option_step_of(key, dir),
{
    match opt_kind(key) {
        OptKind::Bool => match key {
            ConfigKey::Bool(k) => OptionStep::Toggle(k),
            _ => OptionStep::Nothing,
        },
        OptKind::Int => match key {
            ConfigKey::Int(k) => OptionStep::StepInt(k, dir as i64),
            _ => OptionStep::Nothing,
        },
        OptKind::Browsable => OptionStep::Cycle(key, !(dir > 0)),
        OptKind::StringVal => OptionStep::Nothing,
    }
}

/// The choice a browsable option moves to from its current value
/// `current`: the next of `choices` (the previous when `backward`),
/// counting from the first choice when `current` is none of them; none
/// when there are no choices.
pub fn cycle_choice(choices: &Vec<String>, current: &str, backward: bool) -> (r: Option<String>)
    ensures
        r is None <==> choices.len() == 0,
        r matches Some(n) ==> exists|cur: int| #[trigger] is_current(texts(choices@), current@, cur)
            && n@ == texts(choices@)[cycled(cur as nat, choices.len() as nat, backward) as int],
{
    cycle_name(choices, current, backward)
}

/// A selection standing on a choice that occurs once stands on that
/// choice's own position.
proof fn lemma_current_of_distinct(names: Seq<Seq<char>>, i: int, cur: int)
    requires
        0 <= i < names.len(),
        forall|a: int, b: int| 0 <= a < b < names.len() ==> names[a] != names[b],
        is_current(names, names[i], cur),
    ensures
        cur == i,
{
    if cur < i {
        assert(names[cur] == names[i] || (cur == 0 && names[i] != names[i]));
    } else if cur > i {
        assert(names[i] != names[i]);
    }
}

/// Browsing a browsable option forward and then back returns to the
/// value it had, when its choices are all different: from choice `i`
/// the next is choice `i + 1` (wrapping), and from there the previous
/// is choice `i` again.
pub proof fn lemma_choice_forward_back(names: Seq<Seq<char>>, i: int)
    requires
        0 <= i < names.len(),
        forall|a: int, b: int| 0 <= a < b < names.len() ==> names[a] != names[b],
    ensures
        forall|cur: int| #[trigger] is_current(names, names[i], cur) ==> {
            let j = cycled(cur as nat, names.len(), false) as int;
            &&& j == cycled(i as nat, names.len(), false)
            &&& forall|cur2: int| #[trigger] is_current(names, names[j], cur2)
                ==> cycled(cur2 as nat, names.len(), true) == i
        },
{
    assert forall|cur: int| #[trigger] is_current(names, names[i], cur) implies {
        let j = cycled(cur as nat, names.len(), false) as int;
        &&& j == cycled(i as nat, names.len(), false)
        &&& forall|cur2: int| #[trigger] is_current(names, names[j], cur2)
            ==> cycled(cur2 as nat, names.len(), true) == i
    } by {
        lemma_current_of_distinct(names, i, cur);
        lemma_cycle_inverse(i as nat, names.len());
        let j = cycled(i as nat, names.len(), false) as int;
        assert forall|cur2: int| #[trigger] is_current(names, names[j], cur2)
            implies cycled(cur2 as nat, names.len(), true) == i by {
            lemma_current_of_distinct(names, j, cur2);
        }
    }
}

} // verus!
