//! Typed identifier for the named layout widgets (cpu, mem, net,
//! proc, disk, gpu, statusbar) and a per-widget indexed container.

use vstd::prelude::*;

use crate::text::{chars_eq_str, to_owned_string};

verus! {

/// One layout widget. Each variant is a singleton.
#[derive(Debug, Clone, Copy, PartialEq, Eq, Hash, Structural)]
pub enum WidgetKind {
    Cpu,
    Mem,
    Net,
    Proc,
    Disk,
    Gpu,
    Statusbar,
}

/// How a widget interacts with its enclosing container's slack along
/// the major axis.
#[derive(Debug, Clone, Copy, PartialEq, Eq, Structural)]
pub enum WidgetSizing {
    /// Renders at its preferred height; surplus goes to `Fill` siblings.
    Preferred,
    /// Absorbs slack along the parent stack's axis.
    Fill,
}

/// Error returned when a string names no [`WidgetKind`]; carries the input.
#[derive(Debug, Clone, PartialEq, Eq)]
pub struct ParseWidgetKindError(pub String);

/// Canonical lowercase name of a widget kind.
pub open spec fn widget_name(k: WidgetKind) -> Seq<char> {
    match k {
        WidgetKind::Cpu => seq!['c', 'p', 'u'],
        WidgetKind::Mem => seq!['m', 'e', 'm'],
        WidgetKind::Net => seq!['n', 'e', 't'],
        WidgetKind::Proc => seq!['p', 'r', 'o', 'c'],
        WidgetKind::Disk => seq!['d', 'i', 's', 'k'],
        WidgetKind::Gpu => seq!['g', 'p', 'u'],
        WidgetKind::Statusbar => seq!['s', 't', 'a', 't', 'u', 's', 'b', 'a', 'r'],
    }
}

/// The widget kind whose canonical name is `s`, if any.
pub open spec fn widget_from_name(s: Seq<char>) -> Option<WidgetKind> {
    if s == widget_name(WidgetKind::Cpu) { Some(WidgetKind::Cpu) }
    else if s == widget_name(WidgetKind::Mem) { Some(WidgetKind::Mem) }
    else if s == widget_name(WidgetKind::Net) { Some(WidgetKind::Net) }
    else if s == widget_name(WidgetKind::Proc) { Some(WidgetKind::Proc) }
    else if s == widget_name(WidgetKind::Disk) { Some(WidgetKind::Disk) }
    else if s == widget_name(WidgetKind::Gpu) { Some(WidgetKind::Gpu) }
    else if s == widget_name(WidgetKind::Statusbar) { Some(WidgetKind::Statusbar) }
    else { None }
}

/// The seven widget kinds in canonical order.
pub open spec fn all_widgets() -> Seq<WidgetKind> {
    seq![
        WidgetKind::Cpu,
        WidgetKind::Mem,
        WidgetKind::Net,
        WidgetKind::Proc,
        WidgetKind::Disk,
        WidgetKind::Gpu,
        WidgetKind::Statusbar,
    ]
}

/// Name and parse are inverse: every kind's name parses back to it.
pub proof fn lemma_widget_name_round_trip(k: WidgetKind)
    ensures
        widget_from_name(widget_name(k)) == Some(k),
{
    assert(widget_name(WidgetKind::Cpu) != widget_name(WidgetKind::Mem));
    assert(widget_name(WidgetKind::Cpu) != widget_name(WidgetKind::Net));
    assert(widget_name(WidgetKind::Mem) != widget_name(WidgetKind::Net));
    assert(widget_name(WidgetKind::Cpu) != widget_name(WidgetKind::Gpu));
    assert(widget_name(WidgetKind::Mem) != widget_name(WidgetKind::Gpu));
    assert(widget_name(WidgetKind::Net) != widget_name(WidgetKind::Gpu));
    assert(widget_name(WidgetKind::Proc) != widget_name(WidgetKind::Disk));
}

/// Parsing a name gives a kind exactly when the input is that kind's name.
pub proof fn lemma_widget_from_name_sound(s: Seq<char>)
    ensures
        widget_from_name(s) matches Some(k) ==> widget_name(k) == s,
        widget_from_name(s) is None ==> forall|k: WidgetKind| widget_name(k) != s,
{
}

/// Numeric keybind that toggles a widget's visibility: `1`-`6` for the
/// six base widgets, none for the statusbar.
pub open spec fn toggle_key_of(k: WidgetKind) -> Option<char> {
    match k {
        WidgetKind::Cpu => Some('1'),
        WidgetKind::Mem => Some('2'),
        WidgetKind::Net => Some('3'),
        WidgetKind::Proc => Some('4'),
        WidgetKind::Disk => Some('5'),
        WidgetKind::Gpu => Some('6'),
        WidgetKind::Statusbar => None,
    }
}

impl WidgetKind {
    /// Numeric keybind that toggles this widget's visibility: `1`-`6` for
    /// the six base widgets, none for the statusbar.
    pub fn toggle_key(self) -> (r: Option<char>)
        ensures
            r == toggle_key_of(self),
    {
        match self {
            WidgetKind::Cpu => Some('1'),
            WidgetKind::Mem => Some('2'),
            WidgetKind::Net => Some('3'),
            WidgetKind::Proc => Some('4'),
            WidgetKind::Disk => Some('5'),
            WidgetKind::Gpu => Some('6'),
            WidgetKind::Statusbar => None,
        }
    }

    /// Every widget kind in canonical order: the six base widgets, then
    /// the statusbar.
    pub fn all() -> (r: Vec<WidgetKind>)
        ensures
            r@ == all_widgets(),
    {
        let r = vec![
            WidgetKind::Cpu,
            WidgetKind::Mem,
            WidgetKind::Net,
            WidgetKind::Proc,
            WidgetKind::Disk,
            WidgetKind::Gpu,
            WidgetKind::Statusbar,
        ];
        assert(r@ =~= all_widgets());
        r
    }

    /// Intrinsic sizing classification: net and proc absorb slack, every
    /// other widget renders at its preferred height.
    pub fn sizing(self) -> (r: WidgetSizing)
        ensures
            r == spec_sizing(self),
    {
        match self {
            WidgetKind::Net | WidgetKind::Proc => WidgetSizing::Fill,
            _ => WidgetSizing::Preferred,
        }
    }

    /// Canonical lowercase name (`"cpu"`, `"gpu"`, `"statusbar"`, ...).
    pub fn name(self) -> (r: &'static str)
        ensures
            r@ == widget_name(self),
    {
        proof {
            reveal_strlit("cpu");
            reveal_strlit("mem");
            reveal_strlit("net");
            reveal_strlit("proc");
            reveal_strlit("disk");
            reveal_strlit("gpu");
            reveal_strlit("statusbar");
        }
        match self {
            WidgetKind::Cpu => "cpu",
            WidgetKind::Mem => "mem",
            WidgetKind::Net => "net",
            WidgetKind::Proc => "proc",
            WidgetKind::Disk => "disk",
            WidgetKind::Gpu => "gpu",
            WidgetKind::Statusbar => "statusbar",
        }
    }

    /// The canonical name as an owned string.
    pub fn to_string(&self) -> (r: String)
        ensures
            r@ == widget_name(*self),
    {
        to_owned_string(self.name())
    }

    /// Parse a canonical (case-sensitive) widget name.
    pub fn parse(s: &str) -> (r: Result<WidgetKind, ParseWidgetKindError>)
        ensures
            match widget_from_name(s@) {
                Some(k) => r == Ok::<WidgetKind, ParseWidgetKindError>(k),
                None => r matches Err(e) && e.0@ == s@,
            },
    {
        let v = crate::text::chars_of(s);
        Self::parse_chars(&v, s)
    }

    /// Parse the characters `v` (which equal `s`); the error carries `s`.
    pub fn parse_chars(v: &Vec<char>, s: &str) -> (r: Result<WidgetKind, ParseWidgetKindError>)
        requires
            v@ == s@,
        ensures
            match widget_from_name(s@) {
                Some(k) => r == Ok::<WidgetKind, ParseWidgetKindError>(k),
                None => r matches Err(e) && e.0@ == s@,
            },
    {
        match Self::from_chars(v) {
            Some(k) => Ok(k),
            None => Err(ParseWidgetKindError(to_owned_string(s))),
        }
    }

    /// The kind named by the characters `v`, if any.
    pub fn from_chars(v: &Vec<char>) -> (r: Option<WidgetKind>)
        ensures
            r == widget_from_name(v@),
    {
        let kinds = Self::all();
        let mut i: usize = 0;
        while i < kinds.len()
            invariant
                kinds@ == all_widgets(),
                i <= kinds.len(),
                forall|j: int| 0 <= j < i ==> widget_name(#[trigger] all_widgets()[j]) != v@,
            decreases kinds.len() - i,
        {
            let k = kinds[i];
            if chars_eq_str(v, k.name()) {
                proof {
                    lemma_widget_name_round_trip(k);
                }
                return Some(k);
            }
            i = i + 1;
        }
        proof {
            if widget_from_name(v@) is Some {
                let k = widget_from_name(v@)->0;
                lemma_widget_from_name_sound(v@);
                assert(all_widgets()[0] == WidgetKind::Cpu);
                assert(all_widgets()[1] == WidgetKind::Mem);
                assert(all_widgets()[2] == WidgetKind::Net);
                assert(all_widgets()[3] == WidgetKind::Proc);
                assert(all_widgets()[4] == WidgetKind::Disk);
                assert(all_widgets()[5] == WidgetKind::Gpu);
                assert(all_widgets()[6] == WidgetKind::Statusbar);
                assert(false);
            }
        }
        None
    }
}

/// Sizing classification: `Fill` exactly for net and proc.
pub open spec fn spec_sizing(k: WidgetKind) -> WidgetSizing {
    match k {
        WidgetKind::Net | WidgetKind::Proc => WidgetSizing::Fill,
        _ => WidgetSizing::Preferred,
    }
}

/// Typed indexed container with one slot per [`WidgetKind`].
#[derive(Debug, Clone, Copy, PartialEq, Eq, Default, Structural)]
pub struct PerWidget<T> {
    pub cpu: T,
    pub mem: T,
    pub net: T,
    pub process: T,
    pub disk: T,
    pub gpu: T,
    pub statusbar: T,
}

impl<T> PerWidget<T> {
    /// The value held for `kind`.
    pub open spec fn at(self, kind: WidgetKind) -> T {
        match kind {
            WidgetKind::Cpu => self.cpu,
            WidgetKind::Mem => self.mem,
            WidgetKind::Net => self.net,
            WidgetKind::Proc => self.process,
            WidgetKind::Disk => self.disk,
            WidgetKind::Gpu => self.gpu,
            WidgetKind::Statusbar => self.statusbar,
        }
    }

    /// This container with the slot for `kind` replaced by `v`.
    pub open spec fn with(self, kind: WidgetKind, v: T) -> Self {
        match kind {
            WidgetKind::Cpu => PerWidget { cpu: v, ..self },
            WidgetKind::Mem => PerWidget { mem: v, ..self },
            WidgetKind::Net => PerWidget { net: v, ..self },
            WidgetKind::Proc => PerWidget { process: v, ..self },
            WidgetKind::Disk => PerWidget { disk: v, ..self },
            WidgetKind::Gpu => PerWidget { gpu: v, ..self },
            WidgetKind::Statusbar => PerWidget { statusbar: v, ..self },
        }
    }

    /// Borrow the slot for `kind`.
    pub fn get(&self, kind: WidgetKind) -> (r: &T)
        ensures
            *r == self.at(kind),
    {
        match kind {
            WidgetKind::Cpu => &self.cpu,
            WidgetKind::Mem => &self.mem,
            WidgetKind::Net => &self.net,
            WidgetKind::Proc => &self.process,
            WidgetKind::Disk => &self.disk,
            WidgetKind::Gpu => &self.gpu,
            WidgetKind::Statusbar => &self.statusbar,
        }
    }

    /// Mutably borrow the slot for `kind`; every other slot is untouched.
    pub fn get_mut(&mut self, kind: WidgetKind) -> (r: &mut T)
        ensures
            *r == old(self).at(kind),
            *final(self) == old(self).with(kind, *final(r)),
    {
        match kind {
            WidgetKind::Cpu => &mut self.cpu,
            WidgetKind::Mem => &mut self.mem,
            WidgetKind::Net => &mut self.net,
            WidgetKind::Proc => &mut self.process,
            WidgetKind::Disk => &mut self.disk,
            WidgetKind::Gpu => &mut self.gpu,
            WidgetKind::Statusbar => &mut self.statusbar,
        }
    }
}

/// Writing a slot and reading it back gives the value written; other
/// slots keep their values.
pub proof fn lemma_per_widget_read_write<T>(p: PerWidget<T>, k: WidgetKind, j: WidgetKind, v: T)
    ensures
        p.with(k, v).at(k) == v,
        k != j ==> p.with(k, v).at(j) == p.at(j),
{
}

impl std::str::FromStr for WidgetKind {
    type Err = ParseWidgetKindError;

    fn from_str(s: &str) -> (r: Result<Self, Self::Err>)
        ensures
            match widget_from_name(s@) {
                Some(k) => r == Ok::<WidgetKind, ParseWidgetKindError>(k),
                None => r matches Err(e) && e.0@ == s@,
            },
    {
        WidgetKind::parse(s)
    }
}

} // verus!
