//! Layout engine: turns a terminal size, a slot tree, the widgets'
//! sizes and the set of hidden widgets into a rectangle per widget.
//!
//! The engine walks the slot tree. Vertical stacks give each visible
//! child its preferred height and share what is left among the children
//! that fill; horizontal stacks split their width by weight, the last
//! visible child taking the rounding remainder. Hidden widgets take no
//! space and are not placed; their siblings absorb what they would have
//! used. No widget is special-cased by name: filling and the CPU height
//! cap are properties of the widget kind.

use vstd::prelude::*;

use crate::domain::layout_spec::{HStackChild, Slot, SlotShape, shapes, hshapes, lemma_shapes_len, lemma_hshapes_len};
use crate::domain::widget_kind::{spec_sizing, PerWidget, WidgetKind, WidgetSizing};
use crate::domain::widget_set::WidgetSet;

verus! {

/// Position and size of a placed widget.
#[derive(Debug, Clone, Copy, PartialEq, Eq, Structural)]
pub struct WidgetDimensions {
    pub x: usize,
    pub y: usize,
    pub width: usize,
    pub height: usize,
}

impl Default for WidgetDimensions {
    fn default() -> (r: Self)
        ensures
            r == (WidgetDimensions { x: 0, y: 0, width: 0, height: 0 }),
    {
        WidgetDimensions { x: 0, y: 0, width: 0, height: 0 }
    }
}

/// Snapshot-derived inputs to the widgets' sizes (core count, disk count,
/// whether swap is shown, ...), as the user sees them.
#[derive(Debug, Clone, Copy, PartialEq, Eq, Structural)]
pub struct LayoutHints {
    pub core_count: usize,
    pub gpu_count: usize,
    pub disk_count: usize,
    pub has_swap: bool,
    pub has_cpu_temp: bool,
    pub has_cpu_watts: bool,
    /// Rows the disk widget uses per disk in its current view.
    pub disk_rows_per_unit: u8,
}

impl Default for LayoutHints {
    fn default() -> (r: Self)
        ensures
            r == (LayoutHints {
                core_count: 0,
                gpu_count: 0,
                disk_count: 0,
                has_swap: false,
                has_cpu_temp: false,
                has_cpu_watts: false,
                disk_rows_per_unit: 0,
            }),
    {
        LayoutHints {
            core_count: 0,
            gpu_count: 0,
            disk_count: 0,
            has_swap: false,
            has_cpu_temp: false,
            has_cpu_watts: false,
            disk_rows_per_unit: 0,
        }
    }
}

/// The sizes one widget asks for, as its renderer computes them from
/// the [`LayoutHints`].
#[derive(Debug, Clone, Copy, PartialEq, Eq, Structural)]
pub struct WidgetMetrics {
    pub preferred_height: usize,
    pub min_width: usize,
    pub min_height: usize,
}

impl Default for WidgetMetrics {
    fn default() -> (r: Self)
        ensures
            r == (WidgetMetrics { preferred_height: 0, min_width: 0, min_height: 0 }),
    {
        WidgetMetrics { preferred_height: 0, min_width: 0, min_height: 0 }
    }
}

/// Minimum CPU widget height.
pub const MIN_CPU_HEIGHT: usize = 8;
/// Minimum width for the memory widget.
pub const MIN_MEM_WIDTH: usize = 36;
/// Minimum height for the network widget.
pub const MIN_NET_HEIGHT: usize = 6;
/// Minimum width for the network widget.
pub const MIN_NET_WIDTH: usize = 20;
/// Minimum width for the process widget.
pub const MIN_PROC_WIDTH: usize = 44;
/// Minimum height for a GPU widget (5 content rows + 2 borders).
pub const MIN_GPU_HEIGHT: usize = 7;
/// Minimum height for the disk widget.
pub const MIN_DISK_HEIGHT: usize = 4;
/// Minimum height for the process widget.
pub const MIN_PROC_HEIGHT: usize = 8;

/// What the sizing rules consult: hidden widgets, widget sizes, and the
/// terminal height (for the CPU cap).
pub struct SizeCtx {
    pub hidden: Set<WidgetKind>,
    pub metrics: PerWidget<WidgetMetrics>,
    pub term_height: nat,
}

/// Whether a slot has a visible widget.
pub open spec fn slot_visible(s: SlotShape, h: Set<WidgetKind>) -> bool
    decreases s, 2nat,
{
    match s {
        SlotShape::Widget(k) => !h.contains(k),
        SlotShape::VStack(cs) => v_any_visible(cs, 0, h),
        SlotShape::HStack(cs) => h_any_visible(cs, 0, h),
    }
}

pub open spec fn v_any_visible(cs: Seq<SlotShape>, i: nat, h: Set<WidgetKind>) -> bool
    decreases cs, (cs.len() - i) as nat,
{
    if i >= cs.len() { false } else { slot_visible(cs[i as int], h) || v_any_visible(cs, i + 1, h) }
}

pub open spec fn h_any_visible(cs: Seq<(u8, SlotShape)>, i: nat, h: Set<WidgetKind>) -> bool
    decreases cs, (cs.len() - i) as nat,
{
    if i >= cs.len() { false } else { slot_visible(cs[i as int].1, h) || h_any_visible(cs, i + 1, h) }
}

/// Whether a slot has a visible widget that fills.
pub open spec fn slot_fill(s: SlotShape, h: Set<WidgetKind>) -> bool
    decreases s, 2nat,
{
    match s {
        SlotShape::Widget(k) => !h.contains(k) && spec_sizing(k) == WidgetSizing::Fill,
        SlotShape::VStack(cs) => v_any_fill(cs, 0, h),
        SlotShape::HStack(cs) => h_any_fill(cs, 0, h),
    }
}

pub open spec fn v_any_fill(cs: Seq<SlotShape>, i: nat, h: Set<WidgetKind>) -> bool
    decreases cs, (cs.len() - i) as nat,
{
    if i >= cs.len() { false } else { slot_fill(cs[i as int], h) || v_any_fill(cs, i + 1, h) }
}

pub open spec fn h_any_fill(cs: Seq<(u8, SlotShape)>, i: nat, h: Set<WidgetKind>) -> bool
    decreases cs, (cs.len() - i) as nat,
{
    if i >= cs.len() { false } else { slot_fill(cs[i as int].1, h) || h_any_fill(cs, i + 1, h) }
}

/// Preferred height of a widget: 0 when hidden; the CPU's is held
/// between [`MIN_CPU_HEIGHT`] and a third of the terminal height.
pub open spec fn widget_pref(k: WidgetKind, c: SizeCtx) -> nat {
    if c.hidden.contains(k) {
        0
    } else {
        let raw = c.metrics.at(k).preferred_height as nat;
        if k == WidgetKind::Cpu {
            let hi = if c.term_height / 3 > 8 { c.term_height / 3 } else { 8 };
            if raw < 8 { 8 } else if raw > hi { hi } else { raw }
        } else {
            raw
        }
    }
}

/// Preferred height of a slot: a stack's is the sum of its children's, a
/// row's the largest.
pub open spec fn slot_pref(s: SlotShape, c: SizeCtx) -> nat
    decreases s, 2nat,
{
    match s {
        SlotShape::Widget(k) => widget_pref(k, c),
        SlotShape::VStack(cs) => v_pref_sum(cs, 0, c),
        SlotShape::HStack(cs) => h_pref_max(cs, 0, c),
    }
}

pub open spec fn v_pref_sum(cs: Seq<SlotShape>, i: nat, c: SizeCtx) -> nat
    decreases cs, (cs.len() - i) as nat,
{
    if i >= cs.len() { 0 } else { slot_pref(cs[i as int], c) + v_pref_sum(cs, i + 1, c) }
}

pub open spec fn h_pref_max(cs: Seq<(u8, SlotShape)>, i: nat, c: SizeCtx) -> nat
    decreases cs, (cs.len() - i) as nat,
{
    if i >= cs.len() {
        0
    } else {
        let a = slot_pref(cs[i as int].1, c);
        let b = h_pref_max(cs, i + 1, c);
        if a >= b { a } else { b }
    }
}

/// A bound on every sum the engine forms over a slot: its widgets'
/// preferred heights (at least the CPU floor) and minimum sizes, added up.
pub open spec fn size_bound(s: SlotShape, c: SizeCtx) -> nat
    decreases s, 2nat,
{
    match s {
        SlotShape::Widget(k) => {
            let m = c.metrics.at(k);
            m.preferred_height as nat + 8 + m.min_width as nat + m.min_height as nat
        },
        SlotShape::VStack(cs) => v_bound(cs, 0, c),
        SlotShape::HStack(cs) => h_bound(cs, 0, c),
    }
}

pub open spec fn v_bound(cs: Seq<SlotShape>, i: nat, c: SizeCtx) -> nat
    decreases cs, (cs.len() - i) as nat,
{
    if i >= cs.len() { 0 } else { size_bound(cs[i as int], c) + v_bound(cs, i + 1, c) }
}

pub open spec fn h_bound(cs: Seq<(u8, SlotShape)>, i: nat, c: SizeCtx) -> nat
    decreases cs, (cs.len() - i) as nat,
{
    if i >= cs.len() { 0 } else { size_bound(cs[i as int].1, c) + h_bound(cs, i + 1, c) }
}

proof fn lemma_pref_le_bound(s: SlotShape, c: SizeCtx)
    ensures
        slot_pref(s, c) <= size_bound(s, c),
    decreases s, 2nat,
{
    match s {
        SlotShape::Widget(k) => {},
        SlotShape::VStack(cs) => lemma_v_pref_le_bound(cs, 0, c),
        SlotShape::HStack(cs) => lemma_h_pref_le_bound(cs, 0, c),
    }
}

proof fn lemma_v_pref_le_bound(cs: Seq<SlotShape>, i: nat, c: SizeCtx)
    ensures
        v_pref_sum(cs, i, c) <= v_bound(cs, i, c),
    decreases cs, (cs.len() - i) as nat,
{
    if i < cs.len() {
        lemma_pref_le_bound(cs[i as int], c);
        lemma_v_pref_le_bound(cs, i + 1, c);
    }
}

proof fn lemma_h_pref_le_bound(cs: Seq<(u8, SlotShape)>, i: nat, c: SizeCtx)
    ensures
        h_pref_max(cs, i, c) <= h_bound(cs, i, c),
    decreases cs, (cs.len() - i) as nat,
{
    if i < cs.len() {
        lemma_pref_le_bound(cs[i as int].1, c);
        lemma_h_pref_le_bound(cs, i + 1, c);
    }
}

/// What placement consults, by reference.
pub struct PlaceCtx<'a> {
    pub hidden: &'a WidgetSet,
    pub metrics: &'a PerWidget<WidgetMetrics>,
    pub term_height: usize,
}

impl<'a> PlaceCtx<'a> {
    pub open spec fn size_ctx(&self) -> SizeCtx {
        SizeCtx { hidden: self.hidden@, metrics: *self.metrics, term_height: self.term_height as nat }
    }
}

/// Whether a widget renders this frame: whether it is not hidden.
fn widget_is_visible(kind: WidgetKind, hidden: &WidgetSet) -> (r: bool)
    ensures
        r == !hidden@.contains(kind),
{
    !hidden.contains(kind)
}

/// Whether a slot renders anything this frame.
pub fn slot_is_visible(slot: &Slot, hidden: &WidgetSet) -> (r: bool)
    ensures
        r == slot_visible(slot.shape(), hidden@),
    decreases slot,
{
    match slot {
        Slot::Widget(k) => widget_is_visible(*k, hidden),
        Slot::VStack(cs) => {
            let ghost sh = shapes(cs@);
            proof { lemma_shapes_len(cs@); }
            let mut i: usize = 0;
            while i < cs.len()
                invariant
                    i <= cs.len(),
                    sh == shapes(cs@),
                    sh.len() == cs@.len(),
                    forall|j: int| 0 <= j < cs@.len() ==> #[trigger] sh[j] == cs@[j].shape(),
                    v_any_visible(sh, 0, hidden@) == v_any_visible(sh, i as nat, hidden@),
                    *slot == Slot::VStack(*cs),
                decreases cs.len() - i,
            {
                proof {
                    assert(decreases_to!(*slot => (*slot)->VStack_0));
                    assert(decreases_to!(*cs => cs@));
                    assert(decreases_to!(cs@ => cs@[i as int]));
                }
                if slot_is_visible(&cs[i], hidden) {
                    return true;
                }
                i = i + 1;
            }
            false
        },
        Slot::HStack(cs) => {
            let ghost sh = hshapes(cs@);
            proof { lemma_hshapes_len(cs@); }
            let mut i: usize = 0;
            while i < cs.len()
                invariant
                    i <= cs.len(),
                    sh == hshapes(cs@),
                    sh.len() == cs@.len(),
                    forall|j: int| 0 <= j < cs@.len() ==> #[trigger] sh[j] == (cs@[j].weight, cs@[j].slot.shape()),
                    h_any_visible(sh, 0, hidden@) == h_any_visible(sh, i as nat, hidden@),
                    *slot == Slot::HStack(*cs),
                decreases cs.len() - i,
            {
                proof {
                    assert(decreases_to!(*slot => (*slot)->HStack_0));
                    assert(decreases_to!(*cs => cs@));
                    assert(decreases_to!(cs@ => cs@[i as int]));
                    assert(decreases_to!(cs@[i as int] => cs@[i as int].slot));
                }
                if slot_is_visible(&cs[i].slot, hidden) {
                    return true;
                }
                i = i + 1;
            }
            false
        },
    }
}

/// Whether a slot has a visible widget that fills; a hidden filling
/// widget claims no slack.
pub fn slot_is_fill(slot: &Slot, hidden: &WidgetSet) -> (r: bool)
    ensures
        r == slot_fill(slot.shape(), hidden@),
    decreases slot,
{
    match slot {
        Slot::Widget(k) => widget_is_visible(*k, hidden) && k.sizing() == WidgetSizing::Fill,
        Slot::VStack(cs) => {
            let ghost sh = shapes(cs@);
            proof { lemma_shapes_len(cs@); }
            let mut i: usize = 0;
            while i < cs.len()
                invariant
                    i <= cs.len(),
                    sh == shapes(cs@),
                    sh.len() == cs@.len(),
                    forall|j: int| 0 <= j < cs@.len() ==> #[trigger] sh[j] == cs@[j].shape(),
                    v_any_fill(sh, 0, hidden@) == v_any_fill(sh, i as nat, hidden@),
                    *slot == Slot::VStack(*cs),
                decreases cs.len() - i,
            {
                proof {
                    assert(decreases_to!(*slot => (*slot)->VStack_0));
                    assert(decreases_to!(*cs => cs@));
                    assert(decreases_to!(cs@ => cs@[i as int]));
                }
                if slot_is_fill(&cs[i], hidden) {
                    return true;
                }
                i = i + 1;
            }
            false
        },
        Slot::HStack(cs) => {
            let ghost sh = hshapes(cs@);
            proof { lemma_hshapes_len(cs@); }
            let mut i: usize = 0;
            while i < cs.len()
                invariant
                    i <= cs.len(),
                    sh == hshapes(cs@),
                    sh.len() == cs@.len(),
                    forall|j: int| 0 <= j < cs@.len() ==> #[trigger] sh[j] == (cs@[j].weight, cs@[j].slot.shape()),
                    h_any_fill(sh, 0, hidden@) == h_any_fill(sh, i as nat, hidden@),
                    *slot == Slot::HStack(*cs),
                decreases cs.len() - i,
            {
                proof {
                    assert(decreases_to!(*slot => (*slot)->HStack_0));
                    assert(decreases_to!(*cs => cs@));
                    assert(decreases_to!(cs@ => cs@[i as int]));
                    assert(decreases_to!(cs@[i as int] => cs@[i as int].slot));
                }
                if slot_is_fill(&cs[i].slot, hidden) {
                    return true;
                }
                i = i + 1;
            }
            false
        },
    }
}

/// Preferred height of one widget (0 when hidden), the CPU's capped at a
/// third of the terminal height and floored at [`MIN_CPU_HEIGHT`].
fn widget_preferred_height(kind: WidgetKind, ctx: &PlaceCtx) -> (r: usize)
    ensures
        r == widget_pref(kind, ctx.size_ctx()),
{
    if !widget_is_visible(kind, ctx.hidden) {
        return 0;
    }
    let raw = ctx.metrics.get(kind).preferred_height;
    match kind {
        WidgetKind::Cpu => {
            let third = ctx.term_height / 3;
            let hi = if third > MIN_CPU_HEIGHT { third } else { MIN_CPU_HEIGHT };
            if raw < MIN_CPU_HEIGHT { MIN_CPU_HEIGHT } else if raw > hi { hi } else { raw }
        },
        _ => raw,
    }
}

/// Preferred height of a slot: a stack sums its children's, a row takes
/// the largest; hidden children count 0.
fn slot_preferred_height(slot: &Slot, ctx: &PlaceCtx) -> (r: usize)
    requires
        size_bound(slot.shape(), ctx.size_ctx()) <= usize::MAX,
    ensures
        r == slot_pref(slot.shape(), ctx.size_ctx()),
    decreases slot,
{
    let ghost c = ctx.size_ctx();
    match slot {
        Slot::Widget(k) => widget_preferred_height(*k, ctx),
        Slot::VStack(cs) => {
            let ghost sh = shapes(cs@);
            proof { lemma_shapes_len(cs@); }
            let mut sum: usize = 0;
            let mut i: usize = 0;
            while i < cs.len()
                invariant
                    i <= cs.len(),
                    sh == shapes(cs@),
                    sh.len() == cs@.len(),
                    forall|j: int| 0 <= j < cs@.len() ==> #[trigger] sh[j] == cs@[j].shape(),
                    sum + v_pref_sum(sh, i as nat, c) == v_pref_sum(sh, 0, c),
                    v_bound(sh, i as nat, c) <= v_bound(sh, 0, c),
                    v_bound(sh, 0, c) <= usize::MAX,
                    slot.shape() == SlotShape::VStack(sh),
                    c == ctx.size_ctx(),
                    *slot == Slot::VStack(*cs),
                decreases cs.len() - i,
            {
                proof {
                    assert(decreases_to!(*slot => (*slot)->VStack_0));
                    assert(decreases_to!(*cs => cs@));
                    assert(decreases_to!(cs@ => cs@[i as int]));
                    lemma_v_pref_le_bound(sh, 0, c);
                    lemma_pref_le_bound(sh[i as int], c);
                    lemma_v_pref_le_bound(sh, i as nat, c);
                }
                let h = slot_preferred_height(&cs[i], ctx);
                sum = sum + h;
                i = i + 1;
            }
            sum
        },
        Slot::HStack(cs) => {
            let ghost sh = hshapes(cs@);
            proof { lemma_hshapes_len(cs@); }
            let mut best: usize = 0;
            let mut i: usize = 0;
            while i < cs.len()
                invariant
                    i <= cs.len(),
                    sh == hshapes(cs@),
                    sh.len() == cs@.len(),
                    forall|j: int| 0 <= j < cs@.len() ==> #[trigger] sh[j] == (cs@[j].weight, cs@[j].slot.shape()),
                    (if best >= h_pref_max(sh, i as nat, c) { best as nat } else { h_pref_max(sh, i as nat, c) })
                        == h_pref_max(sh, 0, c),
                    h_bound(sh, i as nat, c) <= h_bound(sh, 0, c),
                    h_bound(sh, 0, c) <= usize::MAX,
                    slot.shape() == SlotShape::HStack(sh),
                    c == ctx.size_ctx(),
                    *slot == Slot::HStack(*cs),
                decreases cs.len() - i,
            {
                proof {
                    assert(decreases_to!(*slot => (*slot)->HStack_0));
                    assert(decreases_to!(*cs => cs@));
                    assert(decreases_to!(cs@ => cs@[i as int]));
                    assert(decreases_to!(cs@[i as int] => cs@[i as int].slot));
                }
                let h = slot_preferred_height(&cs[i].slot, ctx);
                if h > best {
                    best = h;
                }
                i = i + 1;
            }
            best
        },
    }
}

/// A vertical-stack child that takes a share of the slack.
pub open spec fn fills(s: SlotShape, h: Set<WidgetKind>) -> bool {
    slot_visible(s, h) && slot_fill(s, h)
}

/// Number of filling children among the first `i`.
pub open spec fn fill_count(sh: Seq<SlotShape>, h: Set<WidgetKind>, i: int) -> nat
    decreases i,
{
    if i <= 0 { 0 } else { fill_count(sh, h, i - 1) + (if fills(sh[i - 1], h) { 1nat } else { 0nat }) }
}

/// Summed preferred heights of the visible children among the first `i`
/// that do not fill.
pub open spec fn fixed_sum(sh: Seq<SlotShape>, c: SizeCtx, i: int) -> nat
    decreases i,
{
    if i <= 0 {
        0
    } else {
        fixed_sum(sh, c, i - 1) + (if slot_visible(sh[i - 1], c.hidden) && !slot_fill(sh[i - 1], c.hidden) {
            slot_pref(sh[i - 1], c)
        } else {
            0
        })
    }
}

/// Height of child `j` of a vertical stack `total` rows high: nothing
/// when hidden, its preferred height when it does not fill; the filling
/// children share what the others leave, the first ones taking one row
/// more until the rounding remainder is used up.
pub open spec fn vheight(sh: Seq<SlotShape>, c: SizeCtx, total: nat, j: int) -> nat {
    if !slot_visible(sh[j], c.hidden) {
        0
    } else if slot_fill(sh[j], c.hidden) {
        let nf = fill_count(sh, c.hidden, sh.len() as int);
        let fixed = fixed_sum(sh, c, sh.len() as int);
        let rem = if total >= fixed { (total - fixed) as nat } else { 0 };
        rem / nf + (if fill_count(sh, c.hidden, j) < rem % nf { 1nat } else { 0nat })
    } else {
        slot_pref(sh[j], c)
    }
}

pub open spec fn vheights(sh: Seq<SlotShape>, c: SizeCtx, total: nat) -> Seq<nat> {
    Seq::new(sh.len(), |j: int| vheight(sh, c, total, j))
}

proof fn lemma_fill_count_mono(sh: Seq<SlotShape>, h: Set<WidgetKind>, i: int, j: int)
    requires
        0 <= i <= j,
    ensures
        fill_count(sh, h, i) <= fill_count(sh, h, j),
    decreases j - i,
{
    if i < j {
        lemma_fill_count_mono(sh, h, i, j - 1);
    }
}

proof fn lemma_fixed_sum_le(sh: Seq<SlotShape>, c: SizeCtx, i: int)
    requires
        0 <= i <= sh.len(),
    ensures
        fixed_sum(sh, c, i) <= v_bound(sh, 0, c),
{
    lemma_fixed_sum_le_from(sh, c, i, 0);
}

proof fn lemma_fixed_sum_le_from(sh: Seq<SlotShape>, c: SizeCtx, i: int, k: nat)
    requires
        0 <= i <= sh.len(),
        k <= i,
    ensures
        fixed_sum(sh, c, i) - fixed_sum(sh, c, k as int) <= v_bound(sh, k, c) - v_bound(sh, i as nat, c),
        fixed_sum(sh, c, k as int) <= fixed_sum(sh, c, i),
        v_bound(sh, i as nat, c) <= v_bound(sh, k, c),
    decreases i - k,
{
    if k < i {
        lemma_fixed_sum_le_from(sh, c, i, k + 1);
        lemma_pref_le_bound(sh[k as int], c);
    }
}

/// Splits a vertical stack's height among its children (see [`vheight`]).
fn vstack_distribute_heights(children: &Vec<Slot>, ctx: &PlaceCtx, total: usize) -> (r: Vec<usize>)
    requires
        v_bound(shapes(children@), 0, ctx.size_ctx()) <= usize::MAX,
    ensures
        r@.len() == children@.len(),
        forall|j: int| 0 <= j < r@.len() ==> #[trigger] r@[j] as nat == vheight(shapes(children@), ctx.size_ctx(), total as nat, j),
{
    let ghost sh = shapes(children@);
    let ghost c = ctx.size_ctx();
    proof { lemma_shapes_len(children@); }
    let n = children.len();
    let mut heights: Vec<usize> = Vec::new();
    let mut fill_indices: Vec<usize> = Vec::new();
    let mut sum_preferred: usize = 0;
    let mut i: usize = 0;
    while i < n
        invariant
            i <= n,
            n == children@.len(),
            sh == shapes(children@),
            sh.len() == n,
            c == ctx.size_ctx(),
            forall|j: int| 0 <= j < n ==> #[trigger] sh[j] == children@[j].shape(),
            v_bound(sh, 0, c) <= usize::MAX,
            heights@.len() == i,
            sum_preferred == fixed_sum(sh, c, i as int),
            fill_indices@.len() == fill_count(sh, c.hidden, i as int),
            forall|k: int| 0 <= k < fill_indices@.len() ==> #[trigger] fill_indices@[k] < i,
            forall|k: int| 0 <= k < fill_indices@.len() ==> fills(sh[#[trigger] fill_indices@[k] as int], c.hidden),
            forall|k: int| 0 <= k < fill_indices@.len() ==> fill_count(sh, c.hidden, #[trigger] fill_indices@[k] as int) == k,
            forall|j: int| 0 <= j < i ==> (#[trigger] heights@[j] as nat) == (if slot_visible(sh[j], c.hidden) && !slot_fill(sh[j], c.hidden) {
                slot_pref(sh[j], c)
            } else {
                0
            }),
        decreases n - i,
    {
        proof {
            lemma_fixed_sum_le(sh, c, i + 1);
            lemma_fixed_sum_le_from(sh, c, i as int, 0);
            lemma_pref_le_bound(sh[i as int], c);
            assert(size_bound(children@[i as int].shape(), c) <= v_bound(sh, i as nat, c));
        }
        if !slot_is_visible(&children[i], ctx.hidden) {
            heights.push(0);
        } else if slot_is_fill(&children[i], ctx.hidden) {
            proof {
                assert(fill_count(sh, c.hidden, i as int) == fill_indices@.len());
            }
            fill_indices.push(i);
            heights.push(0);
        } else {
            let h = slot_preferred_height(&children[i], ctx);
            heights.push(h);
            sum_preferred = sum_preferred + h;
        }
        i = i + 1;
    }
    let nf = fill_indices.len();
    if nf > 0 {
        let remaining = total.saturating_sub(sum_preferred);
        let per_fill = remaining / nf;
        let leftover = remaining % nf;
        let ghost before = heights@;
        let mut k: usize = 0;
        while k < nf
            invariant
                k <= nf,
                nf == fill_indices@.len(),
                nf == fill_count(sh, c.hidden, n as int),
                heights@.len() == n,
                n == sh.len(),
                before.len() == n,
                c == ctx.size_ctx(),
                remaining == (if total >= fixed_sum(sh, c, n as int) { (total - fixed_sum(sh, c, n as int)) as nat } else { 0nat }),
                per_fill == remaining / nf,
                leftover == remaining % nf,
                forall|q: int| 0 <= q < nf ==> #[trigger] fill_indices@[q] < n,
                forall|q: int| 0 <= q < nf ==> fills(sh[#[trigger] fill_indices@[q] as int], c.hidden),
                forall|q: int| 0 <= q < nf ==> fill_count(sh, c.hidden, #[trigger] fill_indices@[q] as int) == q,
                forall|j: int| 0 <= j < n ==> (#[trigger] before[j] as nat) == (if slot_visible(sh[j], c.hidden) && !slot_fill(sh[j], c.hidden) {
                    slot_pref(sh[j], c)
                } else {
                    0
                }),
                forall|j: int| 0 <= j < n && !fills(sh[j], c.hidden) ==> #[trigger] heights@[j] == before[j],
                forall|j: int| 0 <= j < n && fills(sh[j], c.hidden) && fill_count(sh, c.hidden, j) < k ==> (#[trigger] heights@[j] as nat) == vheight(sh, c, total as nat, j),
                forall|j: int| 0 <= j < n && fills(sh[j], c.hidden) && fill_count(sh, c.hidden, j) >= k ==> #[trigger] heights@[j] == before[j],
            decreases nf - k,
        {
            let j = fill_indices[k];
            proof {
                assert(per_fill <= remaining);
                assert(remaining <= total);
            }
            let extra: usize = if k < leftover { 1 } else { 0 };
            proof {
                if k < leftover {
                    assert(per_fill * nf + leftover == remaining) by (nonlinear_arith)
                        requires per_fill == remaining / nf, leftover == remaining % nf, nf > 0;
                    assert(per_fill + 1 <= remaining) by (nonlinear_arith)
                        requires per_fill * nf + leftover == remaining, k < leftover, nf >= 1, k >= 0;
                }
            }
            heights.set(j, per_fill + extra);
            proof {
                assert forall|j2: int| 0 <= j2 < n && fills(sh[j2], c.hidden) && fill_count(sh, c.hidden, j2) == k implies j2 == j by {
                    if j2 != j {
                        if j2 < j {
                            lemma_fill_count_mono(sh, c.hidden, j2 + 1, j as int);
                        } else {
                            lemma_fill_count_mono(sh, c.hidden, j + 1, j2);
                        }
                    }
                }
            }
            k = k + 1;
        }
        proof {
            assert forall|j: int| 0 <= j < n implies (#[trigger] heights@[j] as nat) == vheight(sh, c, total as nat, j) by {
                if fills(sh[j], c.hidden) {
                    lemma_fill_count_mono(sh, c.hidden, j + 1, n as int);
                }
            }
        }
    } else {
        proof {
            assert forall|j: int| 0 <= j < n implies (#[trigger] heights@[j] as nat) == vheight(sh, c, total as nat, j) by {
                if fills(sh[j], c.hidden) {
                    lemma_fill_count_mono(sh, c.hidden, j + 1, n as int);
                }
            }
        }
    }
    heights
}

/// Summed weights of the visible children among the first `i`.
pub open spec fn weight_sum(cs: Seq<(u8, SlotShape)>, h: Set<WidgetKind>, i: int) -> nat
    decreases i,
{
    if i <= 0 {
        0
    } else {
        weight_sum(cs, h, i - 1) + (if slot_visible(cs[i - 1].1, h) { cs[i - 1].0 as nat } else { 0nat })
    }
}

/// Index of the last visible child among the first `i`, or -1.
pub open spec fn last_visible(cs: Seq<(u8, SlotShape)>, h: Set<WidgetKind>, i: int) -> int
    decreases i,
{
    if i <= 0 { -1 } else if slot_visible(cs[i - 1].1, h) { i - 1 } else { last_visible(cs, h, i - 1) }
}

/// Child `j`'s proportional share of `total`.
pub open spec fn share(cs: Seq<(u8, SlotShape)>, h: Set<WidgetKind>, total: nat, j: int) -> nat {
    total * (cs[j].0 as nat) / weight_sum(cs, h, cs.len() as int)
}

/// Width handed to the visible children among the first `i`, the last
/// visible child aside.
pub open spec fn allocated(cs: Seq<(u8, SlotShape)>, h: Set<WidgetKind>, total: nat, i: int) -> nat
    decreases i,
{
    if i <= 0 {
        0
    } else {
        allocated(cs, h, total, i - 1) + (if slot_visible(cs[i - 1].1, h) { share(cs, h, total, i - 1) } else { 0nat })
    }
}

/// Width of child `j` of a horizontal stack `total` columns wide: nothing
/// when hidden, its share by weight among the visible children, the last
/// visible child taking whatever the others leave.
pub open spec fn hwidth(cs: Seq<(u8, SlotShape)>, h: Set<WidgetKind>, total: nat, j: int) -> nat {
    if !slot_visible(cs[j].1, h) {
        0
    } else if j == last_visible(cs, h, cs.len() as int) {
        let a = allocated(cs, h, total, j);
        if total >= a { (total - a) as nat } else { 0 }
    } else {
        share(cs, h, total, j)
    }
}

pub open spec fn hwidths(cs: Seq<(u8, SlotShape)>, h: Set<WidgetKind>, total: nat) -> Seq<nat> {
    Seq::new(cs.len(), |j: int| hwidth(cs, h, total, j))
}

proof fn lemma_share_le_total(cs: Seq<(u8, SlotShape)>, h: Set<WidgetKind>, total: nat, j: int)
    requires
        0 <= j < cs.len(),
        cs[j].0 > 0,
        slot_visible(cs[j].1, h),
    ensures
        share(cs, h, total, j) <= total,
        weight_sum(cs, h, cs.len() as int) > 0,
{
    lemma_weight_sum_ge(cs, h, j + 1, cs.len() as int);
    let tw = weight_sum(cs, h, cs.len() as int);
    let w = cs[j].0 as nat;
    assert(tw >= weight_sum(cs, h, j + 1));
    assert(weight_sum(cs, h, j + 1) >= w);
    if w > 0 {
        assert(total * w <= total * tw) by (nonlinear_arith)
            requires w <= tw;
        assert(total * w / tw <= total) by (nonlinear_arith)
            requires total * w <= total * tw, tw > 0;
    }
}

proof fn lemma_weight_sum_ge(cs: Seq<(u8, SlotShape)>, h: Set<WidgetKind>, i: int, j: int)
    requires
        0 <= i <= j,
    ensures
        weight_sum(cs, h, i) <= weight_sum(cs, h, j),
    decreases j - i,
{
    if i < j {
        lemma_weight_sum_ge(cs, h, i, j - 1);
    }
}

/// The shares handed out so far are within the proportion of the weight
/// they stand for.
proof fn lemma_allocated_le(cs: Seq<(u8, SlotShape)>, h: Set<WidgetKind>, total: nat, i: int)
    requires
        0 <= i <= cs.len(),
        weight_sum(cs, h, cs.len() as int) > 0,
    ensures
        allocated(cs, h, total, i) <= total * weight_sum(cs, h, i) / weight_sum(cs, h, cs.len() as int),
    decreases i,
{
    if i > 0 {
        lemma_allocated_le(cs, h, total, i - 1);
        if slot_visible(cs[i - 1].1, h) {
            let tw = weight_sum(cs, h, cs.len() as int);
            let a = total * weight_sum(cs, h, i - 1);
            let b = total * (cs[i - 1].0 as nat);
            assert(a / tw + b / tw <= (a + b) / tw) by (nonlinear_arith)
                requires tw > 0, a >= 0, b >= 0;
            assert(a + b == total * weight_sum(cs, h, i)) by (nonlinear_arith)
                requires a == total * weight_sum(cs, h, i - 1), b == total * (cs[i - 1].0 as nat),
                    weight_sum(cs, h, i) == weight_sum(cs, h, i - 1) + (cs[i - 1].0 as nat);
        }
    }
}

proof fn lemma_allocated_le_total(cs: Seq<(u8, SlotShape)>, h: Set<WidgetKind>, total: nat, i: int)
    requires
        0 <= i <= cs.len(),
        weight_sum(cs, h, cs.len() as int) > 0,
    ensures
        allocated(cs, h, total, i) <= total,
{
    lemma_allocated_le(cs, h, total, i);
    lemma_weight_sum_ge(cs, h, i, cs.len() as int);
    let tw = weight_sum(cs, h, cs.len() as int);
    let wi = weight_sum(cs, h, i);
    assert(total * wi <= total * tw) by (nonlinear_arith)
        requires wi <= tw;
    assert(total * wi / tw <= total) by (nonlinear_arith)
        requires total * wi <= total * tw, tw > 0;
}

proof fn lemma_last_visible_props(cs: Seq<(u8, SlotShape)>, h: Set<WidgetKind>, i: int)
    requires
        0 <= i <= cs.len(),
    ensures
        -1 <= last_visible(cs, h, i) < i,
        last_visible(cs, h, i) >= 0 ==> slot_visible(cs[last_visible(cs, h, i)].1, h),
        forall|j: int| last_visible(cs, h, i) < j < i ==> !slot_visible(#[trigger] cs[j].1, h),
        last_visible(cs, h, i) == -1 ==> weight_sum(cs, h, i) == 0,
    decreases i,
{
    if i > 0 {
        lemma_last_visible_props(cs, h, i - 1);
    }
}

/// Splits a horizontal stack's width among its children (see [`hwidth`]).
pub fn hstack_distribute_widths(children: &Vec<HStackChild>, hidden: &WidgetSet, total: usize) -> (r: Vec<usize>)
    requires
        forall|j: int| 0 <= j < children@.len() ==> #[trigger] children@[j].weight > 0,
    ensures
        r@.len() == children@.len(),
        forall|j: int| 0 <= j < r@.len() ==> #[trigger] r@[j] as nat == hwidth(hshapes(children@), hidden@, total as nat, j),
{
    let ghost sh = hshapes(children@);
    let ghost h = hidden@;
    proof { lemma_hshapes_len(children@); }
    let n = children.len();
    let mut visible: Vec<bool> = Vec::new();
    let mut tw: u128 = 0;
    let mut last: usize = 0;
    let mut any = false;
    let mut i: usize = 0;
    while i < n
        invariant
            i <= n,
            n == children@.len(),
            sh == hshapes(children@),
            sh.len() == n,
            h == hidden@,
            forall|j: int| 0 <= j < n ==> #[trigger] sh[j] == (children@[j].weight, children@[j].slot.shape()),
            visible@.len() == i,
            forall|j: int| 0 <= j < i ==> #[trigger] visible@[j] == slot_visible(sh[j].1, h),
            tw == weight_sum(sh, h, i as int),
            tw <= 255 * i,
            any == (last_visible(sh, h, i as int) >= 0),
            any ==> last == last_visible(sh, h, i as int),
        decreases n - i,
    {
        let v = slot_is_visible(&children[i].slot, hidden);
        visible.push(v);
        if v {
            tw = tw + children[i].weight as u128;
            last = i;
            any = true;
        }
        i = i + 1;
    }
    let mut widths: Vec<usize> = Vec::new();
    if !any {
        let mut k: usize = 0;
        while k < n
            invariant
                k <= n,
                widths@.len() == k,
                forall|j: int| 0 <= j < k ==> #[trigger] widths@[j] == 0,
            decreases n - k,
        {
            widths.push(0);
            k = k + 1;
        }
        proof {
            assert forall|j: int| 0 <= j < n implies #[trigger] widths@[j] as nat == hwidth(sh, h, total as nat, j) by {
                lemma_last_visible_props(sh, h, n as int);
            }
        }
        return widths;
    }
    proof {
        lemma_last_visible_props(sh, h, n as int);
        lemma_share_le_total(sh, h, total as nat, last as int);
    }
    let mut alloc: usize = 0;
    let mut k: usize = 0;
    while k < n
        invariant
            k <= n,
            n == sh.len(),
            n == children@.len(),
            h == hidden@,
            visible@.len() == n,
            forall|j: int| 0 <= j < n ==> #[trigger] visible@[j] == slot_visible(sh[j].1, h),
            forall|j: int| 0 <= j < n ==> #[trigger] sh[j] == (children@[j].weight, children@[j].slot.shape()),
            forall|j: int| 0 <= j < children@.len() ==> #[trigger] children@[j].weight > 0,
            tw == weight_sum(sh, h, n as int),
            tw > 0,
            last == last_visible(sh, h, n as int),
            0 <= last < n,
            alloc == allocated(sh, h, total as nat, k as int),
            alloc <= total,
            widths@.len() == k,
            forall|j: int| 0 <= j < k ==> #[trigger] widths@[j] as nat == hwidth(sh, h, total as nat, j),
        decreases n - k,
    {
        proof {
            lemma_allocated_le_total(sh, h, total as nat, k + 1);
        }
        if !visible[k] {
            widths.push(0);
        } else {
            let w: usize = if k == last {
                total - alloc
            } else {
                proof { lemma_share_le_total(sh, h, total as nat, k as int); }
                let wt = children[k].weight;
                assert((total as u128) * (wt as u128) <= 0xffff_ffff_ffff_ffffu128 * 255) by (nonlinear_arith)
                    requires total <= 0xffff_ffff_ffff_ffffu128, wt <= 255;
                ((total as u128) * (wt as u128) / tw) as usize
            };
            widths.push(w);
            if k != last {
                alloc = alloc + w;
            } else {
                proof { lemma_share_le_total(sh, h, total as nat, k as int); }
                let wt = children[k].weight;
                assert((total as u128) * (wt as u128) <= 0xffff_ffff_ffff_ffffu128 * 255) by (nonlinear_arith)
                    requires total <= 0xffff_ffff_ffff_ffffu128, wt <= 255;
                alloc = alloc + (((total as u128) * (wt as u128) / tw) as usize);
            }
        }
        k = k + 1;
    }
    widths
}

/// A widget's minimum width, 0 when hidden.
pub open spec fn min_width_of(k: WidgetKind, c: SizeCtx) -> nat {
    if c.hidden.contains(k) { 0 } else { c.metrics.at(k).min_width as nat }
}

/// A widget's minimum height, 0 when hidden.
pub open spec fn min_height_of(k: WidgetKind, c: SizeCtx) -> nat {
    if c.hidden.contains(k) { 0 } else { c.metrics.at(k).min_height as nat }
}

/// A rectangle of the terminal, as numbers.
pub struct Area {
    pub x: nat,
    pub y: nat,
    pub width: nat,
    pub height: nat,
}

pub type Placements = PerWidget<Option<WidgetDimensions>>;

/// The placements after laying out `s` in `a`, starting from `l`. A
/// visible widget gets the area, widened to its minimum width; a vertical
/// stack places its children one under the other at their heights, a
/// horizontal stack side by side at their widths.
pub open spec fn place_spec(s: SlotShape, a: Area, c: SizeCtx, l: Placements) -> Placements
    decreases s, 2nat,
{
    match s {
        SlotShape::Widget(k) => {
            if c.hidden.contains(k) {
                l
            } else {
                let mw = min_width_of(k, c);
                l.with(k, Some(WidgetDimensions {
                    x: a.x as usize,
                    y: a.y as usize,
                    width: (if a.width >= mw { a.width } else { mw }) as usize,
                    height: a.height as usize,
                }))
            }
        },
        SlotShape::VStack(cs) => v_place(cs, 0, vheights(cs, c, a.height), a, a.y, c, l),
        SlotShape::HStack(cs) => h_place(cs, 0, hwidths(cs, c.hidden, a.width), a, a.x, c, l),
    }
}

pub open spec fn v_place(cs: Seq<SlotShape>, i: nat, hs: Seq<nat>, a: Area, y: nat, c: SizeCtx, l: Placements) -> Placements
    decreases cs, (cs.len() - i) as nat,
{
    if i >= cs.len() {
        l
    } else {
        v_place(cs, i + 1, hs, a, y + hs[i as int], c,
            place_spec(cs[i as int], Area { x: a.x, y, width: a.width, height: hs[i as int] }, c, l))
    }
}

pub open spec fn h_place(cs: Seq<(u8, SlotShape)>, i: nat, ws: Seq<nat>, a: Area, x: nat, c: SizeCtx, l: Placements) -> Placements
    decreases cs, (cs.len() - i) as nat,
{
    if i >= cs.len() {
        l
    } else {
        h_place(cs, i + 1, ws, a, x + ws[i as int], c,
            place_spec(cs[i as int].1, Area { x, y: a.y, width: ws[i as int], height: a.height }, c, l))
    }
}

/// Whether laying out `s` in `a` keeps every number the engine forms
/// within `usize`.
pub open spec fn place_fits(s: SlotShape, a: Area, c: SizeCtx) -> bool
    decreases s, 2nat,
{
    &&& a.x <= usize::MAX
    &&& a.y <= usize::MAX
    &&& a.width <= usize::MAX
    &&& a.height <= usize::MAX
    &&& match s {
        SlotShape::Widget(k) => true,
        SlotShape::VStack(cs) => v_bound(cs, 0, c) <= usize::MAX && v_fits(cs, 0, vheights(cs, c, a.height), a, a.y, c),
        SlotShape::HStack(cs) => (forall|j: int| 0 <= j < cs.len() ==> #[trigger] cs[j].0 > 0) && h_fits(cs, 0, hwidths(cs, c.hidden, a.width), a, a.x, c),
    }
}

pub open spec fn v_fits(cs: Seq<SlotShape>, i: nat, hs: Seq<nat>, a: Area, y: nat, c: SizeCtx) -> bool
    decreases cs, (cs.len() - i) as nat,
{
    i >= cs.len() || (y + hs[i as int] <= usize::MAX
        && place_fits(cs[i as int], Area { x: a.x, y, width: a.width, height: hs[i as int] }, c)
        && v_fits(cs, i + 1, hs, a, y + hs[i as int], c))
}

pub open spec fn h_fits(cs: Seq<(u8, SlotShape)>, i: nat, ws: Seq<nat>, a: Area, x: nat, c: SizeCtx) -> bool
    decreases cs, (cs.len() - i) as nat,
{
    i >= cs.len() || (x + ws[i as int] <= usize::MAX
        && place_fits(cs[i as int].1, Area { x, y: a.y, width: ws[i as int], height: a.height }, c)
        && h_fits(cs, i + 1, ws, a, x + ws[i as int], c))
}

/// Where every visible widget goes this frame.
#[derive(Debug, Clone, Copy)]
pub struct Layout {
    dims: Placements,
}

pub open spec fn no_placements() -> Placements {
    PerWidget {
        cpu: None,
        mem: None,
        net: None,
        process: None,
        disk: None,
        gpu: None,
        statusbar: None,
    }
}

impl Default for Layout {
    fn default() -> (r: Self)
        ensures
            r.placements() == no_placements(),
    {
        Layout {
            dims: PerWidget {
                cpu: None,
                mem: None,
                net: None,
                process: None,
                disk: None,
                gpu: None,
                statusbar: None,
            },
        }
    }
}

impl Layout {
    pub closed spec fn placements(&self) -> Placements {
        self.dims
    }

    /// The rectangle given to `kind`, if it was placed.
    pub fn dims_for(&self, kind: WidgetKind) -> (r: Option<&WidgetDimensions>)
        ensures
            match self.placements().at(kind) {
                Some(d) => r == Some(&d),
                None => r is None,
            },
    {
        match self.dims.get(kind) {
            Some(d) => Some(d),
            None => None,
        }
    }

    /// Whether none of the cpu, mem, net, proc, disk and gpu widgets was
    /// placed (which happens when every widget of the tree is hidden).
    pub fn is_empty(&self) -> (r: bool)
        ensures
            r == (self.placements().cpu is None && self.placements().mem is None
                && self.placements().net is None && self.placements().process is None
                && self.placements().disk is None && self.placements().gpu is None),
    {
        self.dims.cpu.is_none() && self.dims.mem.is_none() && self.dims.net.is_none()
            && self.dims.process.is_none() && self.dims.disk.is_none() && self.dims.gpu.is_none()
    }

    fn set(&mut self, kind: WidgetKind, dim: WidgetDimensions)
        ensures
            final(self).placements() == old(self).placements().with(kind, Some(dim)),
    {
        let slot = self.dims.get_mut(kind);
        *slot = Some(dim);
    }
}

/// A rectangle of the terminal.
#[derive(Debug, Clone, Copy)]
pub struct Rect {
    pub x: usize,
    pub y: usize,
    pub width: usize,
    pub height: usize,
}

impl Rect {
    pub open spec fn area(self) -> Area {
        Area { x: self.x as nat, y: self.y as nat, width: self.width as nat, height: self.height as nat }
    }
}

fn widget_min_width(kind: WidgetKind, ctx: &PlaceCtx) -> (r: usize)
    ensures
        r == min_width_of(kind, ctx.size_ctx()),
{
    if !widget_is_visible(kind, ctx.hidden) {
        return 0;
    }
    ctx.metrics.get(kind).min_width
}

fn widget_min_height(kind: WidgetKind, ctx: &PlaceCtx) -> (r: usize)
    ensures
        r == min_height_of(kind, ctx.size_ctx()),
{
    if !widget_is_visible(kind, ctx.hidden) {
        return 0;
    }
    ctx.metrics.get(kind).min_height
}

fn place(slot: &Slot, area: Rect, ctx: &PlaceCtx, layout: &mut Layout)
    requires
        place_fits(slot.shape(), area.area(), ctx.size_ctx()),
    ensures
        final(layout).placements() == place_spec(slot.shape(), area.area(), ctx.size_ctx(), old(layout).placements()),
    decreases slot,
{
    let ghost c = ctx.size_ctx();
    match slot {
        Slot::Widget(kind) => {
            if !widget_is_visible(*kind, ctx.hidden) {
                return;
            }
            let mw = widget_min_width(*kind, ctx);
            let width = if area.width >= mw { area.width } else { mw };
            layout.set(*kind, WidgetDimensions { x: area.x, y: area.y, width, height: area.height });
        },
        Slot::VStack(children) => {
            let ghost sh = shapes(children@);
            proof { lemma_shapes_len(children@); }
            let heights = vstack_distribute_heights(children, ctx, area.height);
            assert(heights@.map_values(|h: usize| h as nat) =~= vheights(sh, c, area.height as nat));
            let ghost hs = vheights(sh, c, area.height as nat);
            let mut y = area.y;
            let mut i: usize = 0;
            while i < children.len()
                invariant
                    i <= children@.len(),
                    sh == shapes(children@),
                    sh.len() == children@.len(),
                    forall|j: int| 0 <= j < children@.len() ==> #[trigger] sh[j] == children@[j].shape(),
                    hs == vheights(sh, c, area.height as nat),
                    heights@.len() == children@.len(),
                    forall|j: int| 0 <= j < heights@.len() ==> #[trigger] heights@[j] as nat == hs[j],
                    v_fits(sh, i as nat, hs, area.area(), y as nat, c),
                    c == ctx.size_ctx(),
                    v_place(sh, i as nat, hs, area.area(), y as nat, c, layout.placements())
                        == v_place(sh, 0, hs, area.area(), area.y as nat, c, old(layout).placements()),
                    *slot == Slot::VStack(*children),
                decreases children.len() - i,
            {
                proof {
                    assert(decreases_to!(*slot => (*slot)->VStack_0));
                    assert(decreases_to!(*children => children@));
                    assert(decreases_to!(children@ => children@[i as int]));
                }
                let r = Rect { x: area.x, y, width: area.width, height: heights[i] };
                assert(r.area() == (Area { x: area.area().x, y: y as nat, width: area.area().width, height: hs[i as int] }));
                place(&children[i], r, ctx, layout);
                y = y + heights[i];
                i = i + 1;
            }
        },
        Slot::HStack(children) => {
            let ghost sh = hshapes(children@);
            proof { lemma_hshapes_len(children@); }
            assert(forall|j: int| 0 <= j < children@.len() ==> #[trigger] children@[j].weight > 0) by {
                assert forall|j: int| 0 <= j < children@.len() implies #[trigger] children@[j].weight > 0 by {
                    assert(sh[j].0 > 0);
                }
            }
            let widths = hstack_distribute_widths(children, ctx.hidden, area.width);
            let ghost ws = hwidths(sh, c.hidden, area.width as nat);
            let mut x = area.x;
            let mut i: usize = 0;
            while i < children.len()
                invariant
                    i <= children@.len(),
                    sh == hshapes(children@),
                    sh.len() == children@.len(),
                    forall|j: int| 0 <= j < children@.len() ==> #[trigger] sh[j] == (children@[j].weight, children@[j].slot.shape()),
                    ws == hwidths(sh, c.hidden, area.width as nat),
                    widths@.len() == children@.len(),
                    forall|j: int| 0 <= j < widths@.len() ==> #[trigger] widths@[j] as nat == ws[j],
                    h_fits(sh, i as nat, ws, area.area(), x as nat, c),
                    c == ctx.size_ctx(),
                    h_place(sh, i as nat, ws, area.area(), x as nat, c, layout.placements())
                        == h_place(sh, 0, ws, area.area(), area.x as nat, c, old(layout).placements()),
                    *slot == Slot::HStack(*children),
                decreases children.len() - i,
            {
                proof {
                    assert(decreases_to!(*slot => (*slot)->HStack_0));
                    assert(decreases_to!(*children => children@));
                    assert(decreases_to!(children@ => children@[i as int]));
                    assert(decreases_to!(children@[i as int] => children@[i as int].slot));
                }
                let r = Rect { x, y: area.y, width: widths[i], height: area.height };
                assert(r.area() == (Area { x: x as nat, y: area.area().y, width: ws[i as int], height: area.area().height }));
                place(&children[i].slot, r, ctx, layout);
                x = x + widths[i];
                i = i + 1;
            }
        },
    }
}

/// Everything the engine needs for one frame.
pub struct LayoutConfig {
    pub term_width: usize,
    pub term_height: usize,
    /// Root of the slot tree to lay out.
    pub root: Slot,
    /// Snapshot-derived sizing inputs the widgets' sizes were computed from.
    pub hints: LayoutHints,
    /// Widgets not to render this frame; they take no space.
    pub hidden: WidgetSet,
    /// Each widget's sizes, as computed by its renderer from `hints`.
    pub metrics: PerWidget<WidgetMetrics>,
}

impl LayoutConfig {
    pub open spec fn size_ctx(&self) -> SizeCtx {
        SizeCtx { hidden: self.hidden@, metrics: self.metrics, term_height: self.term_height as nat }
    }

    /// The whole terminal.
    pub open spec fn screen(&self) -> Area {
        Area { x: 0, y: 0, width: self.term_width as nat, height: self.term_height as nat }
    }
}

/// Lays out the slot tree over the whole terminal. A terminal narrower or
/// shorter than two cells gets an empty layout.
pub fn calc_sizes(cfg: &LayoutConfig) -> (r: Layout)
    requires
        cfg.term_width >= 2 && cfg.term_height >= 2 ==> place_fits(cfg.root.shape(), cfg.screen(), cfg.size_ctx()),
    ensures
        cfg.term_width < 2 || cfg.term_height < 2 ==> r.placements() == no_placements(),
        cfg.term_width >= 2 && cfg.term_height >= 2 ==> r.placements() == place_spec(
            cfg.root.shape(),
            cfg.screen(),
            cfg.size_ctx(),
            no_placements(),
        ),
{
    let mut layout = Layout::default();
    if cfg.term_width < 2 || cfg.term_height < 2 {
        return layout;
    }
    let area = Rect { x: 0, y: 0, width: cfg.term_width, height: cfg.term_height };
    let ctx = PlaceCtx { hidden: &cfg.hidden, metrics: &cfg.metrics, term_height: cfg.term_height };
    assert(area.area() == cfg.screen());
    place(&cfg.root, area, &ctx, &mut layout);
    layout
}

/// Whether every horizontal stack in `s` has positive weights.
pub open spec fn weights_positive(s: SlotShape) -> bool
    decreases s, 2nat,
{
    match s {
        SlotShape::Widget(_) => true,
        SlotShape::VStack(cs) => v_weights_positive(cs, 0),
        SlotShape::HStack(cs) => h_weights_positive(cs, 0),
    }
}

pub open spec fn v_weights_positive(cs: Seq<SlotShape>, i: nat) -> bool
    decreases cs, (cs.len() - i) as nat,
{
    i >= cs.len() || (weights_positive(cs[i as int]) && v_weights_positive(cs, i + 1))
}

pub open spec fn h_weights_positive(cs: Seq<(u8, SlotShape)>, i: nat) -> bool
    decreases cs, (cs.len() - i) as nat,
{
    i >= cs.len() || (cs[i as int].0 > 0 && weights_positive(cs[i as int].1) && h_weights_positive(cs, i + 1))
}

/// Width a stack must have for a child of minimum width `cw` and weight
/// `w` out of `tw` to get it: `cw * tw / w` rounded up, the product
/// saturating at `usize::MAX`.
pub open spec fn needed_width(cw: nat, tw: nat, w: nat) -> nat {
    let p = if cw * tw > usize::MAX { usize::MAX as nat } else { cw * tw };
    if w == 0 { 0 } else { ((p + w - 1) as nat) / w }
}

/// Smallest `(width, height)` that fits a slot: a widget's minimums; a
/// vertical stack the widest child and the summed heights; a horizontal
/// stack the width every child's weight share needs and the tallest
/// child. Hidden widgets and subtrees count nothing.
pub open spec fn min_size(s: SlotShape, c: SizeCtx) -> (nat, nat)
    decreases s, 2nat,
{
    match s {
        SlotShape::Widget(k) => (min_width_of(k, c), min_height_of(k, c)),
        SlotShape::VStack(cs) => v_min(cs, 0, c),
        SlotShape::HStack(cs) => h_min(cs, 0, c, weight_sum(cs, c.hidden, cs.len() as int)),
    }
}

pub open spec fn v_min(cs: Seq<SlotShape>, i: nat, c: SizeCtx) -> (nat, nat)
    decreases cs, (cs.len() - i) as nat,
{
    if i >= cs.len() {
        (0, 0)
    } else {
        let rest = v_min(cs, i + 1, c);
        if !slot_visible(cs[i as int], c.hidden) {
            rest
        } else {
            let m = min_size(cs[i as int], c);
            (if m.0 >= rest.0 { m.0 } else { rest.0 }, m.1 + rest.1)
        }
    }
}

pub open spec fn h_min(cs: Seq<(u8, SlotShape)>, i: nat, c: SizeCtx, tw: nat) -> (nat, nat)
    decreases cs, (cs.len() - i) as nat,
{
    if i >= cs.len() {
        (0, 0)
    } else {
        let rest = h_min(cs, i + 1, c, tw);
        if !slot_visible(cs[i as int].1, c.hidden) {
            rest
        } else {
            let m = min_size(cs[i as int].1, c);
            let need = needed_width(m.0, tw, cs[i as int].0 as nat);
            (if need >= rest.0 { need } else { rest.0 }, if m.1 >= rest.1 { m.1 } else { rest.1 })
        }
    }
}

proof fn lemma_min_le_bound(s: SlotShape, c: SizeCtx)
    ensures
        min_size(s, c).1 <= size_bound(s, c),
        min_size(s, c).0 <= usize::MAX || min_size(s, c).0 <= size_bound(s, c),
    decreases s, 2nat,
{
    match s {
        SlotShape::Widget(k) => {},
        SlotShape::VStack(cs) => lemma_v_min_le(cs, 0, c),
        SlotShape::HStack(cs) => lemma_h_min_le(cs, 0, c, weight_sum(cs, c.hidden, cs.len() as int)),
    }
}

proof fn lemma_v_min_le(cs: Seq<SlotShape>, i: nat, c: SizeCtx)
    ensures
        v_min(cs, i, c).1 <= v_bound(cs, i, c),
        v_min(cs, i, c).0 <= usize::MAX || v_min(cs, i, c).0 <= v_bound(cs, i, c),
    decreases cs, (cs.len() - i) as nat,
{
    if i < cs.len() {
        lemma_min_le_bound(cs[i as int], c);
        lemma_v_min_le(cs, i + 1, c);
    }
}

proof fn lemma_h_min_le(cs: Seq<(u8, SlotShape)>, i: nat, c: SizeCtx, tw: nat)
    ensures
        h_min(cs, i, c, tw).1 <= h_bound(cs, i, c),
        h_min(cs, i, c, tw).0 <= usize::MAX,
    decreases cs, (cs.len() - i) as nat,
{
    if i < cs.len() {
        lemma_min_le_bound(cs[i as int].1, c);
        lemma_h_min_le(cs, i + 1, c, tw);
        let w = cs[i as int].0 as nat;
        let m = min_size(cs[i as int].1, c);
        if w > 0 {
            let p = if m.0 * tw > usize::MAX { usize::MAX as nat } else { m.0 * tw };
            assert(((p + w - 1) as nat) / w <= p) by (nonlinear_arith)
                requires w >= 1, p >= 0;
        }
    }
}

/// What minimum-size computation consults.
pub struct MinCtx<'a> {
    pub hidden: &'a WidgetSet,
    pub metrics: &'a PerWidget<WidgetMetrics>,
}

impl<'a> MinCtx<'a> {
    pub open spec fn size_ctx(&self) -> SizeCtx {
        SizeCtx { hidden: self.hidden@, metrics: *self.metrics, term_height: 0 }
    }
}

fn min_width_in(kind: WidgetKind, ctx: &MinCtx) -> (r: usize)
    ensures
        r == min_width_of(kind, ctx.size_ctx()),
{
    if !widget_is_visible(kind, ctx.hidden) {
        return 0;
    }
    ctx.metrics.get(kind).min_width
}

fn min_height_in(kind: WidgetKind, ctx: &MinCtx) -> (r: usize)
    ensures
        r == min_height_of(kind, ctx.size_ctx()),
{
    if !widget_is_visible(kind, ctx.hidden) {
        return 0;
    }
    ctx.metrics.get(kind).min_height
}

/// `cw * tw / w` rounded up, the product saturating at `usize::MAX`.
fn needed_total(cw: usize, tw: u128, w: u8) -> (r: usize)
    requires
        w > 0,
    ensures
        r == needed_width(cw as nat, tw as nat, w as nat),
{
    let max = usize::MAX as u128;
    let cw128 = cw as u128;
    let p: u128 = if cw == 0 {
        0
    } else if tw > max / cw128 {
        let q = max / cw128;
        assert((cw as int) * (tw as int) > usize::MAX) by (nonlinear_arith)
            requires tw > q, q == max / cw128, cw128 >= 1, max == usize::MAX, cw128 == cw;
        max
    } else {
        let q = max / cw128;
        assert((cw as int) * (tw as int) <= usize::MAX) by (nonlinear_arith)
            requires tw <= q, q == max / cw128, cw128 >= 1, max == usize::MAX, cw128 == cw;
        cw128 * tw
    };
    let w128 = w as u128;
    let num = p + w128 - 1;
    let r = num / w128;
    assert(r <= p) by (nonlinear_arith)
        requires r == num / w128, num == p + w128 - 1, w128 >= 1;
    r as usize
}

/// Smallest `(width, height)` that fits a slot (see [`min_size`]).
fn slot_min_size(slot: &Slot, ctx: &MinCtx) -> (r: (usize, usize))
    requires
        size_bound(slot.shape(), ctx.size_ctx()) <= usize::MAX,
        weights_positive(slot.shape()),
    ensures
        (r.0 as nat, r.1 as nat) == min_size(slot.shape(), ctx.size_ctx()),
    decreases slot,
{
    let ghost c = ctx.size_ctx();
    proof { lemma_min_le_bound(slot.shape(), c); }
    match slot {
        Slot::Widget(k) => (min_width_in(*k, ctx), min_height_in(*k, ctx)),
        Slot::VStack(cs) => {
            let ghost sh = shapes(cs@);
            proof { lemma_shapes_len(cs@); }
            let mut max_w: usize = 0;
            let mut sum_h: usize = 0;
            let mut i: usize = 0;
            while i < cs.len()
                invariant
                    i <= cs.len(),
                    sh == shapes(cs@),
                    sh.len() == cs@.len(),
                    forall|j: int| 0 <= j < cs@.len() ==> #[trigger] sh[j] == cs@[j].shape(),
                    c == ctx.size_ctx(),
                    slot.shape() == SlotShape::VStack(sh),
                    v_bound(sh, 0, c) <= usize::MAX,
                    v_weights_positive(sh, i as nat),
                    v_bound(sh, i as nat, c) <= v_bound(sh, 0, c),
                    sum_h + v_min(sh, i as nat, c).1 == v_min(sh, 0, c).1,
                    v_min(sh, 0, c).1 <= v_bound(sh, 0, c),
                    (if max_w >= v_min(sh, i as nat, c).0 { max_w as nat } else { v_min(sh, i as nat, c).0 }) == v_min(sh, 0, c).0,
                    *slot == Slot::VStack(*cs),
                decreases cs.len() - i,
            {
                proof {
                    assert(decreases_to!(*slot => (*slot)->VStack_0));
                    assert(decreases_to!(*cs => cs@));
                    assert(decreases_to!(cs@ => cs@[i as int]));
                    lemma_v_min_le(sh, (i + 1) as nat, c);
                }
                if slot_is_visible(&cs[i], ctx.hidden) {
                    let (cw, ch) = slot_min_size(&cs[i], ctx);
                    if cw > max_w {
                        max_w = cw;
                    }
                    sum_h = sum_h + ch;
                }
                i = i + 1;
            }
            (max_w, sum_h)
        },
        Slot::HStack(cs) => {
            let ghost sh = hshapes(cs@);
            proof { lemma_hshapes_len(cs@); }
            let mut tw: u128 = 0;
            let mut i: usize = 0;
            while i < cs.len()
                invariant
                    i <= cs.len(),
                    sh == hshapes(cs@),
                    sh.len() == cs@.len(),
                    forall|j: int| 0 <= j < cs@.len() ==> #[trigger] sh[j] == (cs@[j].weight, cs@[j].slot.shape()),
                    c == ctx.size_ctx(),
                    tw == weight_sum(sh, c.hidden, i as int),
                    tw <= 255 * i,
                decreases cs.len() - i,
            {
                if slot_is_visible(&cs[i].slot, ctx.hidden) {
                    tw = tw + cs[i].weight as u128;
                }
                i = i + 1;
            }
            let mut max_min_w: usize = 0;
            let mut max_h: usize = 0;
            let mut i: usize = 0;
            while i < cs.len()
                invariant
                    i <= cs.len(),
                    sh == hshapes(cs@),
                    sh.len() == cs@.len(),
                    forall|j: int| 0 <= j < cs@.len() ==> #[trigger] sh[j] == (cs@[j].weight, cs@[j].slot.shape()),
                    c == ctx.size_ctx(),
                    slot.shape() == SlotShape::HStack(sh),
                    tw == weight_sum(sh, c.hidden, sh.len() as int),
                    h_bound(sh, 0, c) <= usize::MAX,
                    h_weights_positive(sh, i as nat),
                    h_bound(sh, i as nat, c) <= h_bound(sh, 0, c),
                    (if max_min_w >= h_min(sh, i as nat, c, tw as nat).0 { max_min_w as nat } else { h_min(sh, i as nat, c, tw as nat).0 }) == h_min(sh, 0, c, tw as nat).0,
                    (if max_h >= h_min(sh, i as nat, c, tw as nat).1 { max_h as nat } else { h_min(sh, i as nat, c, tw as nat).1 }) == h_min(sh, 0, c, tw as nat).1,
                    *slot == Slot::HStack(*cs),
                decreases cs.len() - i,
            {
                proof {
                    assert(decreases_to!(*slot => (*slot)->HStack_0));
                    assert(decreases_to!(*cs => cs@));
                    assert(decreases_to!(cs@ => cs@[i as int]));
                    assert(decreases_to!(cs@[i as int] => cs@[i as int].slot));
                }
                if slot_is_visible(&cs[i].slot, ctx.hidden) {
                    let (cw, ch) = slot_min_size(&cs[i].slot, ctx);
                    let need = needed_total(cw, tw, cs[i].weight);
                    if need > max_min_w {
                        max_min_w = need;
                    }
                    if ch > max_h {
                        max_h = ch;
                    }
                }
                i = i + 1;
            }
            (max_min_w, max_h)
        },
    }
}

/// Smallest terminal `(width, height)` at which the layout fits: the
/// tree's minimum size, with the height raised to three times the CPU's
/// preferred height when the tree shows the CPU (its height is capped at
/// a third of the terminal).
pub open spec fn min_terminal(cfg: LayoutConfig) -> (nat, nat) {
    let m = min_size(cfg.root.shape(), cfg.size_ctx());
    let cpu_shown = crate::domain::layout_spec::leaves(cfg.root.shape()).contains(WidgetKind::Cpu)
        && !cfg.hidden@.contains(WidgetKind::Cpu);
    let floor = 3 * (cfg.metrics.cpu.preferred_height as nat);
    (m.0, if cpu_shown && floor > m.1 { floor } else { m.1 })
}

/// Smallest terminal size at which the active layout fits without
/// truncation.
pub fn min_terminal_size(cfg: &LayoutConfig) -> (r: (usize, usize))
    requires
        size_bound(cfg.root.shape(), cfg.size_ctx()) <= usize::MAX,
        weights_positive(cfg.root.shape()),
        3 * (cfg.metrics.cpu.preferred_height as nat) <= usize::MAX,
    ensures
        (r.0 as nat, r.1 as nat) == min_terminal(*cfg),
{
    let ctx = MinCtx { hidden: &cfg.hidden, metrics: &cfg.metrics };
    proof {
        lemma_min_size_ignores_term_height(cfg.root.shape(), ctx.size_ctx(), cfg.size_ctx());
    }
    let (min_w, mut min_h) = slot_min_size(&cfg.root, &ctx);
    if cfg.root.contains(WidgetKind::Cpu) && !cfg.hidden.contains(WidgetKind::Cpu) {
        let cpu_pref = cfg.metrics.cpu.preferred_height;
        if 3 * cpu_pref > min_h {
            min_h = 3 * cpu_pref;
        }
    }
    (min_w, min_h)
}

proof fn lemma_min_size_ignores_term_height(s: SlotShape, c1: SizeCtx, c2: SizeCtx)
    requires
        c1.hidden == c2.hidden,
        c1.metrics == c2.metrics,
    ensures
        min_size(s, c1) == min_size(s, c2),
        size_bound(s, c1) == size_bound(s, c2),
    decreases s, 2nat,
{
    match s {
        SlotShape::Widget(k) => {},
        SlotShape::VStack(cs) => lemma_v_min_ignores(cs, 0, c1, c2),
        SlotShape::HStack(cs) => lemma_h_min_ignores(cs, 0, c1, c2, weight_sum(cs, c1.hidden, cs.len() as int)),
    }
}

proof fn lemma_v_min_ignores(cs: Seq<SlotShape>, i: nat, c1: SizeCtx, c2: SizeCtx)
    requires
        c1.hidden == c2.hidden,
        c1.metrics == c2.metrics,
    ensures
        v_min(cs, i, c1) == v_min(cs, i, c2),
        v_bound(cs, i, c1) == v_bound(cs, i, c2),
    decreases cs, (cs.len() - i) as nat,
{
    if i < cs.len() {
        lemma_min_size_ignores_term_height(cs[i as int], c1, c2);
        lemma_v_min_ignores(cs, i + 1, c1, c2);
    }
}

proof fn lemma_h_min_ignores(cs: Seq<(u8, SlotShape)>, i: nat, c1: SizeCtx, c2: SizeCtx, tw: nat)
    requires
        c1.hidden == c2.hidden,
        c1.metrics == c2.metrics,
    ensures
        h_min(cs, i, c1, tw) == h_min(cs, i, c2, tw),
        h_bound(cs, i, c1) == h_bound(cs, i, c2),
    decreases cs, (cs.len() - i) as nat,
{
    if i < cs.len() {
        lemma_min_size_ignores_term_height(cs[i as int].1, c1, c2);
        lemma_h_min_ignores(cs, i + 1, c1, c2, tw);
    }
}

/// Sum of the first `i` numbers of `s`.
pub open spec fn sum_first(s: Seq<nat>, i: int) -> nat
    decreases i,
{
    if i <= 0 { 0 } else { sum_first(s, i - 1) + s[i - 1] }
}

proof fn lemma_widths_prefix(cs: Seq<(u8, SlotShape)>, h: Set<WidgetKind>, total: nat, i: int)
    requires
        0 <= i <= last_visible(cs, h, cs.len() as int),
        (forall|j: int| 0 <= j < cs.len() ==> #[trigger] cs[j].0 > 0),
    ensures
        sum_first(hwidths(cs, h, total), i) == allocated(cs, h, total, i),
    decreases i,
{
    lemma_last_visible_props(cs, h, cs.len() as int);
    if i > 0 {
        lemma_widths_prefix(cs, h, total, i - 1);
    }
}

proof fn lemma_widths_suffix(cs: Seq<(u8, SlotShape)>, h: Set<WidgetKind>, total: nat, i: int)
    requires
        last_visible(cs, h, cs.len() as int) < i <= cs.len(),
    ensures
        sum_first(hwidths(cs, h, total), i) == sum_first(hwidths(cs, h, total), last_visible(cs, h, cs.len() as int) + 1),
    decreases i,
{
    lemma_last_visible_props(cs, h, cs.len() as int);
    if i > last_visible(cs, h, cs.len() as int) + 1 {
        lemma_widths_suffix(cs, h, total, i - 1);
    }
}

/// A horizontal stack hands out exactly its width: the children's widths
/// add up to the total when any child is visible, and are all zero
/// otherwise.
pub proof fn lemma_hwidths_sum(cs: Seq<(u8, SlotShape)>, h: Set<WidgetKind>, total: nat)
    requires
        forall|j: int| 0 <= j < cs.len() ==> #[trigger] cs[j].0 > 0,
    ensures
        h_any_visible(cs, 0, h) ==> sum_first(hwidths(cs, h, total), cs.len() as int) == total,
        !h_any_visible(cs, 0, h) ==> forall|j: int| 0 <= j < cs.len() ==> #[trigger] hwidths(cs, h, total)[j] == 0,
{
    lemma_last_visible_props(cs, h, cs.len() as int);
    lemma_any_visible_last(cs, h, 0);
    let last = last_visible(cs, h, cs.len() as int);
    if last >= 0 {
        lemma_widths_prefix(cs, h, total, last);
        lemma_share_le_total(cs, h, total, last);
        lemma_allocated_le_total(cs, h, total, last);
        lemma_widths_suffix(cs, h, total, cs.len() as int);
    }
}

proof fn lemma_any_visible_last(cs: Seq<(u8, SlotShape)>, h: Set<WidgetKind>, i: nat)
    requires
        i <= cs.len(),
    ensures
        h_any_visible(cs, i, h) <==> exists|j: int| i <= j < cs.len() && slot_visible(#[trigger] cs[j].1, h),
        (exists|j: int| 0 <= j < cs.len() && slot_visible(#[trigger] cs[j].1, h)) <==> last_visible(cs, h, cs.len() as int) >= 0,
    decreases cs.len() - i,
{
    lemma_last_visible_props(cs, h, cs.len() as int);
    if i < cs.len() {
        lemma_any_visible_last(cs, h, i + 1);
        if slot_visible(cs[i as int].1, h) {
            assert(exists|j: int| i <= j < cs.len() && slot_visible(#[trigger] cs[j].1, h));
        }
    }
    if last_visible(cs, h, cs.len() as int) >= 0 {
        let l = last_visible(cs, h, cs.len() as int);
        assert(slot_visible(cs[l].1, h));
    }
}

/// Hidden widgets are never placed: laying out leaves their entries as
/// they were.
pub proof fn lemma_hidden_not_placed(s: SlotShape, a: Area, c: SizeCtx, l: Placements, k: WidgetKind)
    requires
        c.hidden.contains(k),
    ensures
        place_spec(s, a, c, l).at(k) == l.at(k),
    decreases s, 2nat,
{
    match s {
        SlotShape::Widget(w) => {},
        SlotShape::VStack(cs) => lemma_v_hidden_not_placed(cs, 0, vheights(cs, c, a.height), a, a.y, c, l, k),
        SlotShape::HStack(cs) => lemma_h_hidden_not_placed(cs, 0, hwidths(cs, c.hidden, a.width), a, a.x, c, l, k),
    }
}

proof fn lemma_v_hidden_not_placed(cs: Seq<SlotShape>, i: nat, hs: Seq<nat>, a: Area, y: nat, c: SizeCtx, l: Placements, k: WidgetKind)
    requires
        c.hidden.contains(k),
    ensures
        v_place(cs, i, hs, a, y, c, l).at(k) == l.at(k),
    decreases cs, (cs.len() - i) as nat,
{
    if i < cs.len() {
        let a2 = Area { x: a.x, y, width: a.width, height: hs[i as int] };
        lemma_hidden_not_placed(cs[i as int], a2, c, l, k);
        lemma_v_hidden_not_placed(cs, i + 1, hs, a, y + hs[i as int], c, place_spec(cs[i as int], a2, c, l), k);
    }
}

proof fn lemma_h_hidden_not_placed(cs: Seq<(u8, SlotShape)>, i: nat, ws: Seq<nat>, a: Area, x: nat, c: SizeCtx, l: Placements, k: WidgetKind)
    requires
        c.hidden.contains(k),
    ensures
        h_place(cs, i, ws, a, x, c, l).at(k) == l.at(k),
    decreases cs, (cs.len() - i) as nat,
{
    if i < cs.len() {
        let a2 = Area { x, y: a.y, width: ws[i as int], height: a.height };
        lemma_hidden_not_placed(cs[i as int].1, a2, c, l, k);
        lemma_h_hidden_not_placed(cs, i + 1, ws, a, x + ws[i as int], c, place_spec(cs[i as int].1, a2, c, l), k);
    }
}

proof fn lemma_vheights_prefix(sh: Seq<SlotShape>, c: SizeCtx, total: nat, i: int, per: nat, lo: nat)
    requires
        0 <= i <= sh.len(),
        fill_count(sh, c.hidden, sh.len() as int) > 0,
        per == (if total >= fixed_sum(sh, c, sh.len() as int) { (total - fixed_sum(sh, c, sh.len() as int)) as nat } else { 0nat }) / fill_count(sh, c.hidden, sh.len() as int),
        lo == (if total >= fixed_sum(sh, c, sh.len() as int) { (total - fixed_sum(sh, c, sh.len() as int)) as nat } else { 0nat }) % fill_count(sh, c.hidden, sh.len() as int),
    ensures
        sum_first(vheights(sh, c, total), i) == fixed_sum(sh, c, i) + per * fill_count(sh, c.hidden, i)
            + (if fill_count(sh, c.hidden, i) < lo { fill_count(sh, c.hidden, i) } else { lo }),
    decreases i,
{
    if i > 0 {
        lemma_vheights_prefix(sh, c, total, i - 1, per, lo);
        let fc = fill_count(sh, c.hidden, i - 1);
        let hs = vheights(sh, c, total);
        assert(hs[i - 1] == vheight(sh, c, total, i - 1));
        assert(sum_first(hs, i) == sum_first(hs, i - 1) + hs[i - 1]);
        if fills(sh[i - 1], c.hidden) {
            assert(per * (fc + 1) == per * fc + per) by (nonlinear_arith);
            assert(hs[i - 1] == per + (if fc < lo { 1nat } else { 0nat }));
            assert(fill_count(sh, c.hidden, i) == fc + 1);
            assert(fixed_sum(sh, c, i) == fixed_sum(sh, c, i - 1));
        } else if slot_visible(sh[i - 1], c.hidden) {
            assert(hs[i - 1] == slot_pref(sh[i - 1], c));
            assert(fill_count(sh, c.hidden, i) == fc);
            assert(fixed_sum(sh, c, i) == fixed_sum(sh, c, i - 1) + slot_pref(sh[i - 1], c));
        } else {
            assert(hs[i - 1] == 0);
            assert(fill_count(sh, c.hidden, i) == fc);
            assert(fixed_sum(sh, c, i) == fixed_sum(sh, c, i - 1));
        }
    } else {
        assert(fill_count(sh, c.hidden, 0) == 0);
        assert(per * 0 == 0);
    }
}

/// A vertical stack with a child that fills hands out exactly its height,
/// when the children that do not fill leave room: the heights add up to
/// the total.
pub proof fn lemma_vheights_sum(sh: Seq<SlotShape>, c: SizeCtx, total: nat)
    requires
        fill_count(sh, c.hidden, sh.len() as int) > 0,
        fixed_sum(sh, c, sh.len() as int) <= total,
    ensures
        sum_first(vheights(sh, c, total), sh.len() as int) == total,
{
    let nf = fill_count(sh, c.hidden, sh.len() as int);
    let rem = (total - fixed_sum(sh, c, sh.len() as int)) as nat;
    let per = rem / nf;
    let lo = rem % nf;
    lemma_vheights_prefix(sh, c, total, sh.len() as int, per, lo);
    assert(per * nf + lo == rem) by (nonlinear_arith)
        requires per == rem / nf, lo == rem % nf, nf > 0;
}

} // verus!
