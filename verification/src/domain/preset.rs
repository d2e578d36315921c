//! Layout presets: a fixed set of curated layouts the user cycles
//! through, plus the user's own custom layout. The only preset state
//! kept across runs is the active cursor, stored by canonical name.

use vstd::prelude::*;

use crate::domain::layout_spec::{dup_scan, first_duplicate, leaves, lemma_shapes_push, shape_wf, shapes, hwf, vwf, HStackChild, Slot, SlotShape};
use crate::domain::widget_kind::WidgetKind;
use crate::text::{str_eq, to_owned_string};

verus! {

/// Width weight of the process column in two-column layouts.
pub const PROC_WEIGHT: u8 = 60;
/// Width weight of the other column in two-column layouts.
pub const LEFT_WEIGHT: u8 = 40;

/// One of the curated, read-only layouts, in cycle order.
#[derive(Debug, Clone, Copy, PartialEq, Eq, Hash, Structural)]
pub enum BuiltinPreset {
    /// Every base widget: the dashboard.
    All,
    /// CPU and processes.
    CpuProc,
    /// Memory and processes.
    MemProc,
    /// Disk and processes.
    DiskProc,
    /// CPU, network and processes.
    CpuNetProc,
    /// CPU, GPU and processes.
    CpuGpuProc,
    /// CPU, network, memory and disk, without processes.
    CpuNetMemDisk,
}

/// Canonical name of a preset.
pub open spec fn preset_name(p: BuiltinPreset) -> Seq<char> {
    match p {
        BuiltinPreset::All => seq!['a', 'l', 'l'],
        BuiltinPreset::CpuProc => seq!['c', 'p', 'u', '+', 'p', 'r', 'o', 'c'],
        BuiltinPreset::MemProc => seq!['m', 'e', 'm', '+', 'p', 'r', 'o', 'c'],
        BuiltinPreset::DiskProc => seq!['d', 'i', 's', 'k', '+', 'p', 'r', 'o', 'c'],
        BuiltinPreset::CpuNetProc => seq!['c', 'p', 'u', '+', 'n', 'e', 't', '+', 'p', 'r', 'o', 'c'],
        BuiltinPreset::CpuGpuProc => seq!['c', 'p', 'u', '+', 'g', 'p', 'u', '+', 'p', 'r', 'o', 'c'],
        BuiltinPreset::CpuNetMemDisk => seq![
            'c', 'p', 'u', '+', 'n', 'e', 't', '+', 'm', 'e', 'm', '+', 'd', 'i', 's', 'k'
        ],
    }
}

/// Position of a preset in cycle order.
pub open spec fn preset_index(p: BuiltinPreset) -> nat {
    match p {
        BuiltinPreset::All => 0,
        BuiltinPreset::CpuProc => 1,
        BuiltinPreset::MemProc => 2,
        BuiltinPreset::DiskProc => 3,
        BuiltinPreset::CpuNetProc => 4,
        BuiltinPreset::CpuGpuProc => 5,
        BuiltinPreset::CpuNetMemDisk => 6,
    }
}

/// The preset at cycle position `i` (`i < 7`).
pub open spec fn preset_at(i: nat) -> BuiltinPreset {
    if i == 0 { BuiltinPreset::All }
    else if i == 1 { BuiltinPreset::CpuProc }
    else if i == 2 { BuiltinPreset::MemProc }
    else if i == 3 { BuiltinPreset::DiskProc }
    else if i == 4 { BuiltinPreset::CpuNetProc }
    else if i == 5 { BuiltinPreset::CpuGpuProc }
    else { BuiltinPreset::CpuNetMemDisk }
}

/// The preset a name denotes, if any.
pub open spec fn preset_from_name(s: Seq<char>) -> Option<BuiltinPreset> {
    if s == preset_name(BuiltinPreset::All) { Some(BuiltinPreset::All) }
    else if s == preset_name(BuiltinPreset::CpuProc) { Some(BuiltinPreset::CpuProc) }
    else if s == preset_name(BuiltinPreset::MemProc) { Some(BuiltinPreset::MemProc) }
    else if s == preset_name(BuiltinPreset::DiskProc) { Some(BuiltinPreset::DiskProc) }
    else if s == preset_name(BuiltinPreset::CpuNetProc) { Some(BuiltinPreset::CpuNetProc) }
    else if s == preset_name(BuiltinPreset::CpuGpuProc) { Some(BuiltinPreset::CpuGpuProc) }
    else if s == preset_name(BuiltinPreset::CpuNetMemDisk) { Some(BuiltinPreset::CpuNetMemDisk) }
    else { None }
}

pub open spec fn leaf(k: WidgetKind) -> SlotShape {
    SlotShape::Widget(k)
}

/// A layout with the status bar as the last child of its outermost
/// vertical stack (wrapping the layout in one when it is not a stack).
pub open spec fn with_statusbar_shape(s: SlotShape) -> SlotShape {
    match s {
        SlotShape::VStack(cs) => SlotShape::VStack(cs.push(leaf(WidgetKind::Statusbar))),
        other => SlotShape::VStack(seq![other, leaf(WidgetKind::Statusbar)]),
    }
}

/// The layout of a preset before the status bar is added.
pub open spec fn preset_body(p: BuiltinPreset) -> SlotShape {
    match p {
        BuiltinPreset::All => SlotShape::VStack(seq![
            leaf(WidgetKind::Cpu),
            SlotShape::HStack(seq![
                (LEFT_WEIGHT, SlotShape::VStack(seq![
                    leaf(WidgetKind::Gpu),
                    leaf(WidgetKind::Mem),
                    leaf(WidgetKind::Net),
                    leaf(WidgetKind::Disk),
                ])),
                (PROC_WEIGHT, leaf(WidgetKind::Proc)),
            ]),
        ]),
        BuiltinPreset::CpuProc => SlotShape::VStack(seq![leaf(WidgetKind::Cpu), leaf(WidgetKind::Proc)]),
        BuiltinPreset::MemProc => SlotShape::VStack(seq![leaf(WidgetKind::Mem), leaf(WidgetKind::Proc)]),
        BuiltinPreset::DiskProc => SlotShape::VStack(seq![leaf(WidgetKind::Disk), leaf(WidgetKind::Proc)]),
        BuiltinPreset::CpuNetProc => SlotShape::VStack(seq![
            leaf(WidgetKind::Cpu),
            SlotShape::HStack(seq![
                (LEFT_WEIGHT, leaf(WidgetKind::Net)),
                (PROC_WEIGHT, leaf(WidgetKind::Proc)),
            ]),
        ]),
        BuiltinPreset::CpuGpuProc => SlotShape::VStack(seq![
            leaf(WidgetKind::Cpu),
            leaf(WidgetKind::Gpu),
            leaf(WidgetKind::Proc),
        ]),
        BuiltinPreset::CpuNetMemDisk => SlotShape::VStack(seq![
            leaf(WidgetKind::Cpu),
            leaf(WidgetKind::Net),
            leaf(WidgetKind::Mem),
            leaf(WidgetKind::Disk),
        ]),
    }
}

/// The layout of a preset.
pub open spec fn preset_shape(p: BuiltinPreset) -> SlotShape {
    with_statusbar_shape(preset_body(p))
}

fn widget(k: WidgetKind) -> (r: Slot)
    ensures
        r.shape() == leaf(k),
{
    Slot::Widget(k)
}

fn vstack_of(cs: Vec<Slot>) -> (r: Slot)
    ensures
        r.shape() == SlotShape::VStack(shapes(cs@)),
{
    Slot::VStack(cs)
}

/// `v` with `x` appended.
fn pushed(v: Vec<Slot>, x: Slot) -> (r: Vec<Slot>)
    ensures
        shapes(r@) == shapes(v@).push(x.shape()),
{
    let mut v = v;
    proof { lemma_shapes_push(v@, x); }
    v.push(x);
    v
}

fn vstack2(a: Slot, b: Slot) -> (r: Slot)
    ensures
        r.shape() == SlotShape::VStack(seq![a.shape(), b.shape()]),
{
    let v = pushed(pushed(Vec::new(), a), b);
    assert(shapes(Seq::<Slot>::empty()) =~= Seq::<SlotShape>::empty());
    assert(shapes(v@) =~= seq![a.shape(), b.shape()]);
    vstack_of(v)
}

fn vstack3(a: Slot, b: Slot, c: Slot) -> (r: Slot)
    ensures
        r.shape() == SlotShape::VStack(seq![a.shape(), b.shape(), c.shape()]),
{
    let v = pushed(pushed(pushed(Vec::new(), a), b), c);
    assert(shapes(Seq::<Slot>::empty()) =~= Seq::<SlotShape>::empty());
    assert(shapes(v@) =~= seq![a.shape(), b.shape(), c.shape()]);
    vstack_of(v)
}

fn vstack4(a: Slot, b: Slot, c: Slot, d: Slot) -> (r: Slot)
    ensures
        r.shape() == SlotShape::VStack(seq![a.shape(), b.shape(), c.shape(), d.shape()]),
{
    let v = pushed(pushed(pushed(pushed(Vec::new(), a), b), c), d);
    assert(shapes(Seq::<Slot>::empty()) =~= Seq::<SlotShape>::empty());
    assert(shapes(v@) =~= seq![a.shape(), b.shape(), c.shape(), d.shape()]);
    vstack_of(v)
}

fn hstack2(wa: u8, a: Slot, wb: u8, b: Slot) -> (r: Slot)
    requires
        wa > 0,
        wb > 0,
    ensures
        r.shape() == SlotShape::HStack(seq![(wa, a.shape()), (wb, b.shape())]),
{
    let mut v: Vec<HStackChild> = Vec::new();
    let ca = HStackChild::new(a, wa);
    let cb = HStackChild::new(b, wb);
    proof {
        crate::domain::layout_spec::lemma_hshapes_push(v@, ca);
    }
    v.push(ca);
    proof {
        crate::domain::layout_spec::lemma_hshapes_push(v@, cb);
        assert(crate::domain::layout_spec::hshapes(Seq::<HStackChild>::empty()) =~= Seq::<(u8, SlotShape)>::empty());
    }
    v.push(cb);
    assert(crate::domain::layout_spec::hshapes(v@) =~= seq![(wa, a.shape()), (wb, b.shape())]);
    Slot::HStack(v)
}

/// Appends the status bar as the last child of the outermost vertical
/// stack; a root that is not a vertical stack is wrapped in a new one
/// with the status bar as its second child.
pub fn with_statusbar(root: Slot) -> (r: Slot)
    ensures
        r.shape() == with_statusbar_shape(root.shape()),
{
    match root {
        Slot::VStack(children) => {
            let v = pushed(children, widget(WidgetKind::Statusbar));
            vstack_of(v)
        },
        other => {
            let ghost s = other.shape();
            let r = vstack2(other, widget(WidgetKind::Statusbar));
            assert(with_statusbar_shape(s) == r.shape());
            r
        },
    }
}

impl BuiltinPreset {
    /// Number of built-in presets.
    pub const COUNT: usize = 7;

    /// Every built-in preset, in cycle order.
    pub fn all() -> (r: Vec<BuiltinPreset>)
        ensures
            r@.len() == 7,
            forall|i: int| 0 <= i < 7 ==> #[trigger] r@[i] == preset_at(i as nat),
    {
        vec![
            BuiltinPreset::All,
            BuiltinPreset::CpuProc,
            BuiltinPreset::MemProc,
            BuiltinPreset::DiskProc,
            BuiltinPreset::CpuNetProc,
            BuiltinPreset::CpuGpuProc,
            BuiltinPreset::CpuNetMemDisk,
        ]
    }

    /// The preset's canonical, user-visible name.
    pub fn name(self) -> (r: &'static str)
        ensures
            r@ == preset_name(self),
    {
        proof {
            reveal_strlit("all");
            reveal_strlit("cpu+proc");
            reveal_strlit("mem+proc");
            reveal_strlit("disk+proc");
            reveal_strlit("cpu+net+proc");
            reveal_strlit("cpu+gpu+proc");
            reveal_strlit("cpu+net+mem+disk");
        }
        match self {
            BuiltinPreset::All => "all",
            BuiltinPreset::CpuProc => "cpu+proc",
            BuiltinPreset::MemProc => "mem+proc",
            BuiltinPreset::DiskProc => "disk+proc",
            BuiltinPreset::CpuNetProc => "cpu+net+proc",
            BuiltinPreset::CpuGpuProc => "cpu+gpu+proc",
            BuiltinPreset::CpuNetMemDisk => "cpu+net+mem+disk",
        }
    }

    /// The preset with the given canonical name (case-sensitive).
    pub fn from_name(s: &str) -> (r: Option<BuiltinPreset>)
        ensures
            r == preset_from_name(s@),
    {
        if str_eq(s, BuiltinPreset::All.name()) {
            Some(BuiltinPreset::All)
        } else if str_eq(s, BuiltinPreset::CpuProc.name()) {
            Some(BuiltinPreset::CpuProc)
        } else if str_eq(s, BuiltinPreset::MemProc.name()) {
            Some(BuiltinPreset::MemProc)
        } else if str_eq(s, BuiltinPreset::DiskProc.name()) {
            Some(BuiltinPreset::DiskProc)
        } else if str_eq(s, BuiltinPreset::CpuNetProc.name()) {
            Some(BuiltinPreset::CpuNetProc)
        } else if str_eq(s, BuiltinPreset::CpuGpuProc.name()) {
            Some(BuiltinPreset::CpuGpuProc)
        } else if str_eq(s, BuiltinPreset::CpuNetMemDisk.name()) {
            Some(BuiltinPreset::CpuNetMemDisk)
        } else {
            None
        }
    }

    /// The preset's layout, with the status bar as the last child of the
    /// outermost vertical stack.
    pub fn layout_spec(self) -> (r: Slot)
        ensures
            r.shape() == preset_shape(self),
    {
        let body = match self {
            BuiltinPreset::All => all_layout_spec(),
            BuiltinPreset::CpuProc => vstack2(widget(WidgetKind::Cpu), widget(WidgetKind::Proc)),
            BuiltinPreset::MemProc => vstack2(widget(WidgetKind::Mem), widget(WidgetKind::Proc)),
            BuiltinPreset::DiskProc => vstack2(widget(WidgetKind::Disk), widget(WidgetKind::Proc)),
            BuiltinPreset::CpuNetProc => vstack2(
                widget(WidgetKind::Cpu),
                hstack2(LEFT_WEIGHT, widget(WidgetKind::Net), PROC_WEIGHT, widget(WidgetKind::Proc)),
            ),
            BuiltinPreset::CpuGpuProc => vstack3(
                widget(WidgetKind::Cpu),
                widget(WidgetKind::Gpu),
                widget(WidgetKind::Proc),
            ),
            BuiltinPreset::CpuNetMemDisk => vstack4(
                widget(WidgetKind::Cpu),
                widget(WidgetKind::Net),
                widget(WidgetKind::Mem),
                widget(WidgetKind::Disk),
            ),
        };
        with_statusbar(body)
    }
}

/// The `all` layout: CPU on top, then GPU, memory, network and disk in a
/// left column beside processes.
fn all_layout_spec() -> (r: Slot)
    ensures
        r.shape() == preset_body(BuiltinPreset::All),
{
    let left = vstack4(
        widget(WidgetKind::Gpu),
        widget(WidgetKind::Mem),
        widget(WidgetKind::Net),
        widget(WidgetKind::Disk),
    );
    vstack2(widget(WidgetKind::Cpu), hstack2(LEFT_WEIGHT, left, PROC_WEIGHT, widget(WidgetKind::Proc)))
}

/// The active preset: a built-in one, or the user's custom layout.
#[derive(Debug, Clone, Copy, PartialEq, Eq, Hash, Structural)]
pub enum ActivePreset {
    Builtin(BuiltinPreset),
    Custom,
}

/// Number of positions in the preset cycle: the built-ins, then custom.
pub open spec fn cycle_len() -> nat { 8 }

/// Position of a cursor in the cycle.
pub open spec fn cycle_index(a: ActivePreset) -> nat {
    match a {
        ActivePreset::Builtin(b) => preset_index(b),
        ActivePreset::Custom => 7,
    }
}

/// The cursor at cycle position `i` (`i < 8`).
pub open spec fn from_cycle_index(i: nat) -> ActivePreset {
    if i < 7 { ActivePreset::Builtin(preset_at(i)) } else { ActivePreset::Custom }
}

pub open spec fn custom_name() -> Seq<char> { seq!['c', 'u', 's', 't', 'o', 'm'] }

pub open spec fn active_name(a: ActivePreset) -> Seq<char> {
    match a {
        ActivePreset::Builtin(b) => preset_name(b),
        ActivePreset::Custom => custom_name(),
    }
}

pub open spec fn active_from_name(s: Seq<char>) -> Option<ActivePreset> {
    if s == custom_name() {
        Some(ActivePreset::Custom)
    } else {
        match preset_from_name(s) {
            Some(b) => Some(ActivePreset::Builtin(b)),
            None => None,
        }
    }
}

impl Default for ActivePreset {
    /// The dashboard (`all`) preset.
    fn default() -> (r: Self)
        ensures
            r == ActivePreset::Builtin(BuiltinPreset::All),
    {
        ActivePreset::Builtin(BuiltinPreset::All)
    }
}

fn index_of(b: BuiltinPreset) -> (r: usize)
    ensures
        r == preset_index(b),
{
    match b {
        BuiltinPreset::All => 0,
        BuiltinPreset::CpuProc => 1,
        BuiltinPreset::MemProc => 2,
        BuiltinPreset::DiskProc => 3,
        BuiltinPreset::CpuNetProc => 4,
        BuiltinPreset::CpuGpuProc => 5,
        BuiltinPreset::CpuNetMemDisk => 6,
    }
}

impl ActivePreset {
    /// Canonical name of the custom cursor.
    pub const NAME_CUSTOM: &'static str = "custom";

    /// Number of positions the cycle visits.
    pub const CYCLE_LEN: usize = 8;

    /// The cursor's canonical name.
    pub fn name(self) -> (r: &'static str)
        ensures
            r@ == active_name(self),
    {
        match self {
            ActivePreset::Builtin(b) => b.name(),
            ActivePreset::Custom => {
                proof { reveal_strlit("custom"); }
                "custom"
            },
        }
    }

    /// The cursor with the given canonical name.
    pub fn from_name(s: &str) -> (r: Option<ActivePreset>)
        ensures
            r == active_from_name(s@),
    {
        proof {
            reveal_strlit("custom");
            assert("custom"@ =~= custom_name());
        }
        if str_eq(s, "custom") {
            Some(ActivePreset::Custom)
        } else {
            match BuiltinPreset::from_name(s) {
                Some(b) => Some(ActivePreset::Builtin(b)),
                None => None,
            }
        }
    }

    fn cycle_index(self) -> (r: usize)
        ensures
            r == cycle_index(self),
    {
        match self {
            ActivePreset::Builtin(b) => index_of(b),
            ActivePreset::Custom => 7,
        }
    }

    fn from_cycle_index(i: usize) -> (r: ActivePreset)
        requires
            i < 8,
        ensures
            r == from_cycle_index(i as nat),
    {
        if i < 7 {
            let all = BuiltinPreset::all();
            ActivePreset::Builtin(all[i])
        } else {
            ActivePreset::Custom
        }
    }

    /// The next cursor in the cycle, wrapping from custom to the first
    /// built-in.
    pub fn next(self) -> (r: ActivePreset)
        ensures
            r == from_cycle_index((cycle_index(self) + 1) % cycle_len()),
    {
        let i = (self.cycle_index() + 1) % 8;
        Self::from_cycle_index(i)
    }

    /// The previous cursor in the cycle, wrapping from the first built-in
    /// to custom.
    pub fn prev(self) -> (r: ActivePreset)
        ensures
            r == from_cycle_index(((cycle_index(self) + cycle_len()) - 1) as nat % cycle_len()),
    {
        let i = (self.cycle_index() + 8 - 1) % 8;
        Self::from_cycle_index(i)
    }
}

pub open spec fn spec_next(a: ActivePreset) -> ActivePreset {
    from_cycle_index((cycle_index(a) + 1) % cycle_len())
}

pub open spec fn spec_prev(a: ActivePreset) -> ActivePreset {
    from_cycle_index(((cycle_index(a) + cycle_len()) - 1) as nat % cycle_len())
}

/// `n` steps forward from `a`.
pub open spec fn next_n(a: ActivePreset, n: nat) -> ActivePreset
    decreases n,
{
    if n == 0 { a } else { spec_next(next_n(a, (n - 1) as nat)) }
}

proof fn lemma_cycle_index_round_trip(a: ActivePreset)
    ensures
        cycle_index(a) < cycle_len(),
        from_cycle_index(cycle_index(a)) == a,
{
}

/// Stepping back undoes stepping forward, and the other way round.
pub proof fn lemma_next_prev_inverse(a: ActivePreset)
    ensures
        spec_prev(spec_next(a)) == a,
        spec_next(spec_prev(a)) == a,
{
    lemma_cycle_index_round_trip(a);
}

proof fn lemma_next_n_index(a: ActivePreset, k: nat)
    ensures
        cycle_index(next_n(a, k)) == (cycle_index(a) + k) % cycle_len(),
    decreases k,
{
    lemma_cycle_index_round_trip(a);
    if k > 0 {
        lemma_next_n_index(a, (k - 1) as nat);
        let x = next_n(a, (k - 1) as nat);
        lemma_cycle_index_round_trip(x);
        assert(cycle_index(spec_next(x)) == (cycle_index(x) + 1) % 8);
    }
}

/// A full round of `next` comes back to the start, and no shorter one
/// does: the cycle visits every position once.
pub proof fn lemma_next_full_cycle(a: ActivePreset)
    ensures
        next_n(a, cycle_len()) == a,
        forall|k: nat| 0 < k < cycle_len() ==> #[trigger] next_n(a, k) != a,
{
    lemma_cycle_index_round_trip(a);
    lemma_next_n_index(a, cycle_len());
    lemma_cycle_index_round_trip(next_n(a, cycle_len()));
    assert forall|k: nat| 0 < k < cycle_len() implies #[trigger] next_n(a, k) != a by {
        lemma_next_n_index(a, k);
    }
}

/// `n` steps back from `a`.
pub open spec fn prev_n(a: ActivePreset, n: nat) -> ActivePreset
    decreases n,
{
    if n == 0 { a } else { spec_prev(prev_n(a, (n - 1) as nat)) }
}

proof fn lemma_prev_n_index(a: ActivePreset, k: nat)
    requires
        k <= cycle_len(),
    ensures
        cycle_index(prev_n(a, k)) == ((cycle_index(a) + cycle_len() - k) as nat) % cycle_len(),
    decreases k,
{
    lemma_cycle_index_round_trip(a);
    if k > 0 {
        lemma_prev_n_index(a, (k - 1) as nat);
        let x = prev_n(a, (k - 1) as nat);
        lemma_cycle_index_round_trip(x);
        assert(cycle_index(spec_prev(x)) == ((cycle_index(x) + 8) - 1) as nat % 8);
    }
}

/// A full round of `prev` comes back to the start, and no shorter one
/// does; step `k` back is step `8 - k` forward, so the backward round
/// visits every position once, in reverse order.
#[verifier::spinoff_prover]
#[verifier::rlimit(40)]
pub proof fn lemma_prev_full_cycle(a: ActivePreset)
    ensures
        prev_n(a, cycle_len()) == a,
        forall|k: nat| 0 < k < cycle_len() ==> #[trigger] prev_n(a, k) != a,
        forall|k: nat| 0 < k < cycle_len() ==> #[trigger] prev_n(a, k) == next_n(a, (cycle_len() - k) as nat),
{
    lemma_cycle_index_round_trip(a);
    lemma_prev_n_index(a, cycle_len());
    lemma_cycle_index_round_trip(prev_n(a, cycle_len()));
    assert forall|k: nat| 0 < k < cycle_len() implies #[trigger] prev_n(a, k) != a by {
        lemma_prev_n_index(a, k);
    }
    assert forall|k: nat| 0 < k < cycle_len() implies #[trigger] prev_n(a, k) == next_n(a, (cycle_len() - k) as nat) by {
        lemma_prev_n_index(a, k);
        lemma_next_n_index(a, (cycle_len() - k) as nat);
        lemma_cycle_index_round_trip(prev_n(a, k));
        lemma_cycle_index_round_trip(next_n(a, (cycle_len() - k) as nat));
    }
}

/// Every cursor's name resolves back to that cursor.
pub proof fn lemma_active_name_round_trip(a: ActivePreset)
    ensures
        active_from_name(active_name(a)) == Some(a),
{
    match a {
        ActivePreset::Builtin(b) => {
            assert(preset_name(b) != custom_name());
            lemma_preset_name_round_trip(b);
        },
        ActivePreset::Custom => {},
    }
}

/// Every built-in preset's name resolves back to that preset.
pub proof fn lemma_preset_name_round_trip(b: BuiltinPreset)
    ensures
        preset_from_name(preset_name(b)) == Some(b),
{
    assert(preset_name(BuiltinPreset::All) != preset_name(BuiltinPreset::CpuProc));
    assert(preset_name(BuiltinPreset::CpuProc) != preset_name(BuiltinPreset::MemProc));
    assert(preset_name(BuiltinPreset::MemProc) != preset_name(BuiltinPreset::DiskProc));
    assert(preset_name(BuiltinPreset::DiskProc) != preset_name(BuiltinPreset::CpuNetProc));
    assert(preset_name(BuiltinPreset::CpuNetProc) != preset_name(BuiltinPreset::CpuGpuProc));
    assert(preset_name(BuiltinPreset::CpuGpuProc) != preset_name(BuiltinPreset::CpuNetMemDisk));
    match b {
        BuiltinPreset::All => {},
        BuiltinPreset::CpuProc => { assert(preset_name(b)[0] != preset_name(BuiltinPreset::All)[0]); },
        BuiltinPreset::MemProc => {
            assert(preset_name(b)[0] != preset_name(BuiltinPreset::All)[0]);
            assert(preset_name(b)[0] != preset_name(BuiltinPreset::CpuProc)[0]);
        },
        BuiltinPreset::DiskProc => {
            assert(preset_name(b)[0] != preset_name(BuiltinPreset::All)[0]);
            assert(preset_name(b)[0] != preset_name(BuiltinPreset::CpuProc)[0]);
            assert(preset_name(b)[0] != preset_name(BuiltinPreset::MemProc)[0]);
        },
        BuiltinPreset::CpuNetProc => {
            assert(preset_name(b)[0] != preset_name(BuiltinPreset::All)[0]);
            assert(preset_name(b).len() != preset_name(BuiltinPreset::CpuProc).len());
            assert(preset_name(b)[0] != preset_name(BuiltinPreset::MemProc)[0]);
            assert(preset_name(b)[0] != preset_name(BuiltinPreset::DiskProc)[0]);
        },
        BuiltinPreset::CpuGpuProc => {
            assert(preset_name(b)[0] != preset_name(BuiltinPreset::All)[0]);
            assert(preset_name(b).len() != preset_name(BuiltinPreset::CpuProc).len());
            assert(preset_name(b)[0] != preset_name(BuiltinPreset::MemProc)[0]);
            assert(preset_name(b)[0] != preset_name(BuiltinPreset::DiskProc)[0]);
            assert(preset_name(b)[4] != preset_name(BuiltinPreset::CpuNetProc)[4]);
        },
        BuiltinPreset::CpuNetMemDisk => {
            assert(preset_name(b)[0] != preset_name(BuiltinPreset::All)[0]);
            assert(preset_name(b).len() != preset_name(BuiltinPreset::CpuProc).len());
            assert(preset_name(b)[0] != preset_name(BuiltinPreset::MemProc)[0]);
            assert(preset_name(b)[0] != preset_name(BuiltinPreset::DiskProc)[0]);
            assert(preset_name(b).len() != preset_name(BuiltinPreset::CpuNetProc).len());
            assert(preset_name(b).len() != preset_name(BuiltinPreset::CpuGpuProc).len());
        },
    }
}

proof fn lemma_dup_scan_none(r: Seq<WidgetKind>, i: nat)
    requires
        r.no_duplicates(),
    ensures
        dup_scan(r, i) is None,
    decreases r.len() - i,
{
    if i < r.len() {
        if r.subrange(0, i as int).contains(r[i as int]) {
            let j = choose|j: int| 0 <= j < i && r.subrange(0, i as int)[j] == r[i as int];
            assert(r[j] == r[i as int]);
        }
        lemma_dup_scan_none(r, i + 1);
    }
}

/// A layout whose leaves are all distinct has no duplicate.
pub proof fn lemma_first_duplicate_none(s: SlotShape)
    requires
        leaves(s).no_duplicates(),
    ensures
        first_duplicate(s) is None,
{
    let r = leaves(s).reverse();
    assert forall|i: int, j: int| 0 <= i < r.len() && 0 <= j < r.len() && i != j implies r[i] != r[j] by {
        assert(r[i] == leaves(s)[leaves(s).len() - 1 - i]);
        assert(r[j] == leaves(s)[leaves(s).len() - 1 - j]);
    }
    lemma_dup_scan_none(r, 0);
}

/// The widgets of each built-in layout, top to bottom, left to right.
pub open spec fn preset_leaves(b: BuiltinPreset) -> Seq<WidgetKind> {
    match b {
        BuiltinPreset::All => seq![WidgetKind::Cpu, WidgetKind::Gpu, WidgetKind::Mem, WidgetKind::Net, WidgetKind::Disk, WidgetKind::Proc, WidgetKind::Statusbar],
        BuiltinPreset::CpuProc => seq![WidgetKind::Cpu, WidgetKind::Proc, WidgetKind::Statusbar],
        BuiltinPreset::MemProc => seq![WidgetKind::Mem, WidgetKind::Proc, WidgetKind::Statusbar],
        BuiltinPreset::DiskProc => seq![WidgetKind::Disk, WidgetKind::Proc, WidgetKind::Statusbar],
        BuiltinPreset::CpuNetProc => seq![WidgetKind::Cpu, WidgetKind::Net, WidgetKind::Proc, WidgetKind::Statusbar],
        BuiltinPreset::CpuGpuProc => seq![WidgetKind::Cpu, WidgetKind::Gpu, WidgetKind::Proc, WidgetKind::Statusbar],
        BuiltinPreset::CpuNetMemDisk => seq![WidgetKind::Cpu, WidgetKind::Net, WidgetKind::Mem, WidgetKind::Disk, WidgetKind::Statusbar],
    }
}

proof fn lemma_leaves_all()
    ensures
        leaves(preset_shape(BuiltinPreset::All)) == preset_leaves(BuiltinPreset::All),
{
    let b = BuiltinPreset::All;
    reveal_with_fuel(crate::domain::layout_spec::vleaves, 6);
    reveal_with_fuel(crate::domain::layout_spec::hleaves, 3);
    let sb = leaf(WidgetKind::Statusbar);

    let left = SlotShape::VStack(seq![leaf(WidgetKind::Gpu), leaf(WidgetKind::Mem), leaf(WidgetKind::Net), leaf(WidgetKind::Disk)]);
    let lcs = seq![leaf(WidgetKind::Gpu), leaf(WidgetKind::Mem), leaf(WidgetKind::Net), leaf(WidgetKind::Disk)];
    assert(crate::domain::layout_spec::vleaves(lcs, 4) =~= Seq::<WidgetKind>::empty());
    assert(crate::domain::layout_spec::vleaves(lcs, 3) =~= seq![WidgetKind::Disk]);
    assert(crate::domain::layout_spec::vleaves(lcs, 2) =~= seq![WidgetKind::Net, WidgetKind::Disk]);
    assert(crate::domain::layout_spec::vleaves(lcs, 1) =~= seq![WidgetKind::Mem, WidgetKind::Net, WidgetKind::Disk]);
    assert(crate::domain::layout_spec::vleaves(lcs, 0) =~= seq![WidgetKind::Gpu, WidgetKind::Mem, WidgetKind::Net, WidgetKind::Disk]);
    assert(leaves(left) =~= seq![WidgetKind::Gpu, WidgetKind::Mem, WidgetKind::Net, WidgetKind::Disk]);
    let h = SlotShape::HStack(seq![(LEFT_WEIGHT, left), (PROC_WEIGHT, leaf(WidgetKind::Proc))]);
    let hcs = seq![(LEFT_WEIGHT, left), (PROC_WEIGHT, leaf(WidgetKind::Proc))];
    assert(crate::domain::layout_spec::hleaves(hcs, 2) =~= Seq::<WidgetKind>::empty());
    assert(crate::domain::layout_spec::hleaves(hcs, 1) =~= seq![WidgetKind::Proc]);
    assert(leaves(h) =~= seq![WidgetKind::Gpu, WidgetKind::Mem, WidgetKind::Net, WidgetKind::Disk, WidgetKind::Proc]);
    let cs = seq![leaf(WidgetKind::Cpu), h, sb];
    assert(seq![leaf(WidgetKind::Cpu), h].push(sb) =~= cs);
    assert(preset_shape(b) == SlotShape::VStack(cs));
    assert(crate::domain::layout_spec::vleaves(cs, 3) =~= Seq::<WidgetKind>::empty());
    assert(crate::domain::layout_spec::vleaves(cs, 2) =~= seq![WidgetKind::Statusbar]);
    assert(crate::domain::layout_spec::vleaves(cs, 1) =~= seq![WidgetKind::Gpu, WidgetKind::Mem, WidgetKind::Net, WidgetKind::Disk, WidgetKind::Proc, WidgetKind::Statusbar]);
    assert(crate::domain::layout_spec::vleaves(cs, 0) =~= preset_leaves(b));
    assert(leaves(preset_shape(b)) =~= preset_leaves(b));
}

proof fn lemma_leaves_cpu_net_proc()
    ensures
        leaves(preset_shape(BuiltinPreset::CpuNetProc)) == preset_leaves(BuiltinPreset::CpuNetProc),
{
    let b = BuiltinPreset::CpuNetProc;
    reveal_with_fuel(crate::domain::layout_spec::vleaves, 6);
    reveal_with_fuel(crate::domain::layout_spec::hleaves, 3);
    let sb = leaf(WidgetKind::Statusbar);

    let h = SlotShape::HStack(seq![(LEFT_WEIGHT, leaf(WidgetKind::Net)), (PROC_WEIGHT, leaf(WidgetKind::Proc))]);
    let hcs = seq![(LEFT_WEIGHT, leaf(WidgetKind::Net)), (PROC_WEIGHT, leaf(WidgetKind::Proc))];
    assert(crate::domain::layout_spec::hleaves(hcs, 2) =~= Seq::<WidgetKind>::empty());
    assert(crate::domain::layout_spec::hleaves(hcs, 1) =~= seq![WidgetKind::Proc]);
    assert(crate::domain::layout_spec::hleaves(hcs, 0) =~= seq![WidgetKind::Net, WidgetKind::Proc]);
    assert(leaves(h) =~= seq![WidgetKind::Net, WidgetKind::Proc]);
    let cs = seq![leaf(WidgetKind::Cpu), h, sb];
    assert(seq![leaf(WidgetKind::Cpu), h].push(sb) =~= cs);
    assert(preset_shape(b) == SlotShape::VStack(cs));
    assert(crate::domain::layout_spec::vleaves(cs, 3) =~= Seq::<WidgetKind>::empty());
    assert(crate::domain::layout_spec::vleaves(cs, 2) =~= seq![WidgetKind::Statusbar]);
    assert(crate::domain::layout_spec::vleaves(cs, 1) =~= seq![WidgetKind::Net, WidgetKind::Proc, WidgetKind::Statusbar]);
    assert(crate::domain::layout_spec::vleaves(cs, 0) =~= preset_leaves(b));
    assert(leaves(preset_shape(b)) =~= preset_leaves(b));
}

proof fn lemma_leaves_cpu_gpu_proc()
    ensures
        leaves(preset_shape(BuiltinPreset::CpuGpuProc)) == preset_leaves(BuiltinPreset::CpuGpuProc),
{
    let b = BuiltinPreset::CpuGpuProc;
    reveal_with_fuel(crate::domain::layout_spec::vleaves, 6);
    reveal_with_fuel(crate::domain::layout_spec::hleaves, 3);
    let sb = leaf(WidgetKind::Statusbar);

    let cs = seq![leaf(WidgetKind::Cpu), leaf(WidgetKind::Gpu), leaf(WidgetKind::Proc), sb];
    assert(seq![leaf(WidgetKind::Cpu), leaf(WidgetKind::Gpu), leaf(WidgetKind::Proc)].push(sb) =~= cs);
    assert(preset_shape(b) == SlotShape::VStack(cs));
    assert(crate::domain::layout_spec::vleaves(cs, 4) =~= Seq::<WidgetKind>::empty());
    assert(crate::domain::layout_spec::vleaves(cs, 3) =~= seq![WidgetKind::Statusbar]);
    assert(crate::domain::layout_spec::vleaves(cs, 2) =~= seq![WidgetKind::Proc, WidgetKind::Statusbar]);
    assert(crate::domain::layout_spec::vleaves(cs, 1) =~= seq![WidgetKind::Gpu, WidgetKind::Proc, WidgetKind::Statusbar]);
    assert(crate::domain::layout_spec::vleaves(cs, 0) =~= preset_leaves(b));
    assert(leaves(preset_shape(b)) =~= preset_leaves(b));
}

proof fn lemma_leaves_cpu_net_mem_disk()
    ensures
        leaves(preset_shape(BuiltinPreset::CpuNetMemDisk)) == preset_leaves(BuiltinPreset::CpuNetMemDisk),
{
    let b = BuiltinPreset::CpuNetMemDisk;
    reveal_with_fuel(crate::domain::layout_spec::vleaves, 6);
    reveal_with_fuel(crate::domain::layout_spec::hleaves, 3);
    let sb = leaf(WidgetKind::Statusbar);

    let cs = seq![leaf(WidgetKind::Cpu), leaf(WidgetKind::Net), leaf(WidgetKind::Mem), leaf(WidgetKind::Disk), sb];
    assert(seq![leaf(WidgetKind::Cpu), leaf(WidgetKind::Net), leaf(WidgetKind::Mem), leaf(WidgetKind::Disk)].push(sb) =~= cs);
    assert(preset_shape(b) == SlotShape::VStack(cs));
    assert(crate::domain::layout_spec::vleaves(cs, 5) =~= Seq::<WidgetKind>::empty());
    assert(crate::domain::layout_spec::vleaves(cs, 4) =~= seq![WidgetKind::Statusbar]);
    assert(crate::domain::layout_spec::vleaves(cs, 3) =~= seq![WidgetKind::Disk, WidgetKind::Statusbar]);
    assert(crate::domain::layout_spec::vleaves(cs, 2) =~= seq![WidgetKind::Mem, WidgetKind::Disk, WidgetKind::Statusbar]);
    assert(crate::domain::layout_spec::vleaves(cs, 1) =~= seq![WidgetKind::Net, WidgetKind::Mem, WidgetKind::Disk, WidgetKind::Statusbar]);
    assert(crate::domain::layout_spec::vleaves(cs, 0) =~= preset_leaves(b));
    assert(leaves(preset_shape(b)) =~= preset_leaves(b));
}

proof fn lemma_leaves_pair(b: BuiltinPreset)
    requires
        b == BuiltinPreset::CpuProc || b == BuiltinPreset::MemProc || b == BuiltinPreset::DiskProc,
    ensures
        leaves(preset_shape(b)) == preset_leaves(b),
{
    reveal_with_fuel(crate::domain::layout_spec::vleaves, 6);
    reveal_with_fuel(crate::domain::layout_spec::hleaves, 3);
    let sb = leaf(WidgetKind::Statusbar);

    let k = if b == BuiltinPreset::CpuProc { WidgetKind::Cpu } else if b == BuiltinPreset::MemProc { WidgetKind::Mem } else { WidgetKind::Disk };
    let cs = seq![leaf(k), leaf(WidgetKind::Proc), sb];
    assert(seq![leaf(k), leaf(WidgetKind::Proc)].push(sb) =~= cs);
    assert(preset_shape(b) == SlotShape::VStack(cs));
    assert(crate::domain::layout_spec::vleaves(cs, 3) =~= Seq::<WidgetKind>::empty());
    assert(crate::domain::layout_spec::vleaves(cs, 2) =~= seq![WidgetKind::Statusbar]);
    assert(crate::domain::layout_spec::vleaves(cs, 1) =~= seq![WidgetKind::Proc, WidgetKind::Statusbar]);
    assert(crate::domain::layout_spec::vleaves(cs, 0) =~= preset_leaves(b));
    assert(leaves(preset_shape(b)) =~= preset_leaves(b));
}

proof fn lemma_preset_leaves(b: BuiltinPreset)
    ensures
        leaves(preset_shape(b)) == preset_leaves(b),
{
    match b {
        BuiltinPreset::All => lemma_leaves_all(),
        BuiltinPreset::CpuNetProc => lemma_leaves_cpu_net_proc(),
        BuiltinPreset::CpuGpuProc => lemma_leaves_cpu_gpu_proc(),
        BuiltinPreset::CpuNetMemDisk => lemma_leaves_cpu_net_mem_disk(),
        _ => lemma_leaves_pair(b),
    }
}

/// Every built-in layout names each widget at most once and ends its
/// outermost vertical stack with the status bar.
pub proof fn lemma_preset_layouts_well_formed(b: BuiltinPreset)
    ensures
        first_duplicate(preset_shape(b)) is None,
        preset_shape(b) is VStack,
        preset_shape(b)->VStack_0.last() == leaf(WidgetKind::Statusbar),
        shape_wf(preset_shape(b)),
{
    lemma_preset_leaves(b);
    lemma_first_duplicate_none(preset_shape(b));
    lemma_preset_shape_wf(b);
}

proof fn lemma_vwf_from(cs: Seq<SlotShape>, i: nat)
    requires
        forall|k: int| 0 <= k < cs.len() ==> shape_wf(#[trigger] cs[k]),
    ensures
        vwf(cs, i),
    decreases cs.len() - i,
{
    if i < cs.len() {
        lemma_vwf_from(cs, i + 1);
    }
}

proof fn lemma_hwf_from(cs: Seq<(u8, SlotShape)>, i: nat)
    requires
        forall|k: int| 0 <= k < cs.len() ==> (#[trigger] cs[k]).0 > 0 && shape_wf(cs[k].1),
    ensures
        hwf(cs, i),
    decreases cs.len() - i,
{
    if i < cs.len() {
        lemma_hwf_from(cs, i + 1);
    }
}

/// A vertical stack of well-formed layouts is well formed.
proof fn lemma_vstack_wf(cs: Seq<SlotShape>)
    requires
        cs.len() > 0,
        forall|k: int| 0 <= k < cs.len() ==> shape_wf(#[trigger] cs[k]),
    ensures
        shape_wf(SlotShape::VStack(cs)),
{
    lemma_vwf_from(cs, 0);
}

proof fn lemma_preset_shape_wf(b: BuiltinPreset)
    ensures
        shape_wf(preset_shape(b)),
{
    let body = preset_body(b);
    let sb = leaf(WidgetKind::Statusbar);
    assert(shape_wf(sb));
    match b {
        BuiltinPreset::All => {
            let left = SlotShape::VStack(seq![
                leaf(WidgetKind::Gpu),
                leaf(WidgetKind::Mem),
                leaf(WidgetKind::Net),
                leaf(WidgetKind::Disk),
            ]);
            lemma_vstack_wf(left->VStack_0);
            let hs = seq![(LEFT_WEIGHT, left), (PROC_WEIGHT, leaf(WidgetKind::Proc))];
            lemma_hwf_from(hs, 0);
            let row = SlotShape::HStack(hs);
            assert(shape_wf(row));
            let cs = seq![leaf(WidgetKind::Cpu), row, sb];
            assert(preset_shape(b) == SlotShape::VStack(cs)) by {
                assert(body->VStack_0.push(sb) =~= cs);
            }
            lemma_vstack_wf(cs);
        },
        BuiltinPreset::CpuNetProc => {
            let hs = seq![(LEFT_WEIGHT, leaf(WidgetKind::Net)), (PROC_WEIGHT, leaf(WidgetKind::Proc))];
            lemma_hwf_from(hs, 0);
            let row = SlotShape::HStack(hs);
            assert(shape_wf(row));
            let cs = seq![leaf(WidgetKind::Cpu), row, sb];
            assert(preset_shape(b) == SlotShape::VStack(cs)) by {
                assert(body->VStack_0.push(sb) =~= cs);
            }
            lemma_vstack_wf(cs);
        },
        _ => {
            let cs = body->VStack_0.push(sb);
            assert forall|k: int| 0 <= k < cs.len() implies shape_wf(#[trigger] cs[k]) by {
                assert(cs[k] is Widget);
            }
            lemma_vstack_wf(cs);
        },
    }
}

/// The persisted preset cursor, with the name that failed to resolve
/// when it was read (kept until [`PresetField::take_invalid`] drains it).
#[derive(Debug, Clone, PartialEq, Eq)]
pub struct PresetField {
    active: ActivePreset,
    invalid: Option<String>,
}

impl Default for PresetField {
    fn default() -> (r: Self)
        ensures
            r.active_spec() == ActivePreset::Builtin(BuiltinPreset::All),
            r.invalid_spec() is None,
    {
        PresetField { active: ActivePreset::Builtin(BuiltinPreset::All), invalid: None }
    }
}

impl PresetField {
    pub closed spec fn active_spec(&self) -> ActivePreset {
        self.active
    }

    pub closed spec fn invalid_spec(&self) -> Option<Seq<char>> {
        match self.invalid {
            Some(s) => Some(s@),
            None => None,
        }
    }

    /// The active cursor.
    pub fn active(&self) -> (r: ActivePreset)
        ensures
            r == self.active_spec(),
    {
        self.active
    }

    /// Sets the active cursor.
    pub fn set(&mut self, active: ActivePreset)
        ensures
            final(self).active_spec() == active,
            final(self).invalid_spec() == old(self).invalid_spec(),
    {
        self.active = active;
    }

    /// Returns the name that failed to resolve, if any, and forgets it.
    pub fn take_invalid(&mut self) -> (r: Option<String>)
        ensures
            final(self).active_spec() == old(self).active_spec(),
            final(self).invalid_spec() is None,
            match r {
                Some(s) => old(self).invalid_spec() == Some(s@),
                None => old(self).invalid_spec() is None,
            },
    {
        let mut taken: Option<String> = None;
        std::mem::swap(&mut taken, &mut self.invalid);
        taken
    }

    /// The field as read from a stored name: the cursor the name denotes,
    /// or custom with the name kept as invalid when it denotes none.
    pub fn from_stored_name(s: &str) -> (r: PresetField)
        ensures
            match active_from_name(s@) {
                Some(a) => r.active_spec() == a && r.invalid_spec() is None,
                None => r.active_spec() == ActivePreset::Custom && r.invalid_spec() == Some(s@),
            },
    {
        match ActivePreset::from_name(s) {
            Some(active) => PresetField { active, invalid: None },
            None => PresetField { active: ActivePreset::Custom, invalid: Some(to_owned_string(s)) },
        }
    }

    /// The name the field is stored under: the active cursor's name.
    pub fn stored_name(&self) -> (r: &'static str)
        ensures
            r@ == active_name(self.active_spec()),
    {
        self.active.name()
    }
}

/// Reading back the stored name of a field gives its cursor, with nothing
/// marked invalid.
pub proof fn lemma_stored_name_round_trip(a: ActivePreset)
    ensures
        active_from_name(active_name(a)) == Some(a),
{
    lemma_active_name_round_trip(a);
}

/// The custom layout's first-launch default: the `all` preset's layout.
pub fn default_custom_layout() -> (r: Slot)
    ensures
        r.shape() == preset_shape(BuiltinPreset::All),
{
    BuiltinPreset::All.layout_spec()
}

} // verus!
