use rtop::domain::layout_spec::{HStackChild, Slot};
use rtop::domain::widget_kind::{PerWidget, WidgetKind};
use rtop::domain::widget_set::WidgetSet;
use rtop::draw::layout::{
    calc_sizes, hstack_distribute_widths, min_terminal_size, slot_is_fill, Layout, LayoutConfig, LayoutHints,
    WidgetMetrics, MIN_CPU_HEIGHT, MIN_DISK_HEIGHT, MIN_GPU_HEIGHT, MIN_MEM_WIDTH, MIN_NET_HEIGHT, MIN_NET_WIDTH,
    MIN_PROC_HEIGHT, MIN_PROC_WIDTH,
};

fn nz(n: u8) -> u8 {
    assert!(n != 0, "test weight must be non-zero");
    n
}

fn hints() -> LayoutHints {
    LayoutHints {
        core_count: 4,
        gpu_count: 0,
        disk_count: 2,
        has_swap: false,
        has_cpu_temp: false,
        has_cpu_watts: false,
        disk_rows_per_unit: 2,
    }
}

/// Widget sizes as the widgets compute them from the hints.
fn metrics_for(h: &LayoutHints) -> PerWidget<WidgetMetrics> {
    let cpu_pref = MIN_CPU_HEIGHT + (h.core_count + 1) / 2;
    let mem_pref = if h.has_swap { 12 } else { 10 };
    let disk_pref = 2 + h.disk_count * h.disk_rows_per_unit as usize;
    PerWidget {
        cpu: WidgetMetrics { preferred_height: cpu_pref, min_width: 0, min_height: MIN_CPU_HEIGHT },
        mem: WidgetMetrics { preferred_height: mem_pref, min_width: MIN_MEM_WIDTH, min_height: mem_pref },
        net: WidgetMetrics { preferred_height: MIN_NET_HEIGHT, min_width: MIN_NET_WIDTH, min_height: MIN_NET_HEIGHT },
        process: WidgetMetrics { preferred_height: MIN_PROC_HEIGHT, min_width: MIN_PROC_WIDTH, min_height: MIN_PROC_HEIGHT },
        disk: WidgetMetrics { preferred_height: disk_pref, min_width: 0, min_height: MIN_DISK_HEIGHT },
        gpu: WidgetMetrics { preferred_height: MIN_GPU_HEIGHT, min_width: 0, min_height: MIN_GPU_HEIGHT },
        statusbar: WidgetMetrics { preferred_height: 1, min_width: 0, min_height: 1 },
    }
}

fn lc(tw: usize, th: usize, root: Slot) -> LayoutConfig {
    LayoutConfig {
        term_width: tw,
        term_height: th,
        root,
        hints: hints(),
        hidden: WidgetSet::new(),
        metrics: metrics_for(&hints()),
    }
}

fn lc_with_hints(
    tw: usize,
    th: usize,
    root: Slot,
    f: impl FnOnce(&mut LayoutHints),
) -> LayoutConfig {
    let mut cfg = lc(tw, th, root);
    f(&mut cfg.hints);
    cfg.metrics = metrics_for(&cfg.hints);
    cfg
}

fn lc_with_hidden(tw: usize, th: usize, root: Slot, hidden: WidgetSet) -> LayoutConfig {
    let mut cfg = lc(tw, th, root);
    cfg.hidden = hidden;
    cfg
}

fn two_col(left: Slot, right: Slot) -> Slot {
    Slot::HStack(vec![
        HStackChild::new(left, nz(40)),
        HStackChild::new(right, nz(60)),
    ])
}

#[test]
fn calc_sizes_single_widget_fills_terminal() {
    let layout = calc_sizes(&lc(100, 30, Slot::Widget(WidgetKind::Proc)));
    let proc = layout.dims_for(WidgetKind::Proc).expect("proc placed");
    assert_eq!(proc.x, 0);
    assert_eq!(proc.y, 0);
    assert_eq!(proc.width, 100);
    assert_eq!(proc.height, 30);
}

#[test]
fn calc_sizes_returns_empty_layout_for_too_small_terminal() {
    let layout = calc_sizes(&lc(1, 30, Slot::Widget(WidgetKind::Proc)));
    assert!(layout.dims_for(WidgetKind::Proc).is_none());
    let layout = calc_sizes(&lc(100, 1, Slot::Widget(WidgetKind::Proc)));
    assert!(layout.dims_for(WidgetKind::Proc).is_none());
}

#[test]
fn calc_sizes_cpu_full_width_then_two_columns() {
    let root = Slot::VStack(vec![
        Slot::Widget(WidgetKind::Cpu),
        two_col(
            Slot::Widget(WidgetKind::Mem),
            Slot::Widget(WidgetKind::Proc),
        ),
    ]);
    let layout = calc_sizes(&lc_with_hints(120, 40, root, |h| h.core_count = 8));
    let cpu = layout.dims_for(WidgetKind::Cpu).expect("cpu placed");
    let mem = layout.dims_for(WidgetKind::Mem).expect("mem placed");
    let proc = layout.dims_for(WidgetKind::Proc).expect("proc placed");
    assert_eq!(cpu.x, 0);
    assert_eq!(cpu.y, 0);
    assert_eq!(cpu.width, 120);
    // Mem and proc are side-by-side below CPU.
    assert_eq!(mem.x, 0);
    assert_eq!(mem.y, cpu.height);
    assert!(proc.x > 0);
    assert_eq!(mem.x + mem.width, proc.x);
    assert_eq!(mem.width + proc.width, 120);
}

#[test]
fn calc_sizes_vstack_cpu_top_vs_cpu_bottom() {
    let cpu_top = Slot::VStack(vec![
        Slot::Widget(WidgetKind::Cpu),
        Slot::Widget(WidgetKind::Mem),
    ]);
    let cpu_bot = Slot::VStack(vec![
        Slot::Widget(WidgetKind::Mem),
        Slot::Widget(WidgetKind::Cpu),
    ]);
    let layout_top = calc_sizes(&lc(80, 40, cpu_top));
    let layout_bot = calc_sizes(&lc(80, 40, cpu_bot));
    assert!(
        layout_top.dims_for(WidgetKind::Cpu).expect("cpu placed").y
            < layout_bot.dims_for(WidgetKind::Cpu).expect("cpu placed").y
    );
}

#[test]
fn calc_sizes_hstack_proc_on_left_when_listed_first() {
    let root = Slot::VStack(vec![
        Slot::Widget(WidgetKind::Cpu),
        two_col(
            Slot::Widget(WidgetKind::Proc),
            Slot::Widget(WidgetKind::Mem),
        ),
    ]);
    let layout = calc_sizes(&lc(120, 40, root));
    let proc_x = layout.dims_for(WidgetKind::Proc).expect("proc placed").x;
    let mem_x = layout.dims_for(WidgetKind::Mem).expect("mem placed").x;
    assert!(proc_x < mem_x);
}

#[test]
fn calc_sizes_widths_sum_to_terminal_width_in_hstack() {
    let root = two_col(
        Slot::Widget(WidgetKind::Mem),
        Slot::Widget(WidgetKind::Proc),
    );
    let layout = calc_sizes(&lc(120, 40, root));
    let mem = layout.dims_for(WidgetKind::Mem).expect("mem placed");
    let proc = layout.dims_for(WidgetKind::Proc).expect("proc placed");
    assert_eq!(mem.width + proc.width, 120);
}

#[test]
fn vstack_preferred_then_fill_proc_absorbs_remainder() {
    let root = Slot::VStack(vec![
        Slot::Widget(WidgetKind::Mem),
        Slot::Widget(WidgetKind::Proc),
    ]);
    let cfg = lc(120, 40, root);
    let mem_pref = cfg.metrics.mem.preferred_height;
    let layout = calc_sizes(&cfg);
    let mem = layout.dims_for(WidgetKind::Mem).expect("mem placed");
    let proc = layout.dims_for(WidgetKind::Proc).expect("proc placed");
    assert_eq!(mem.height, mem_pref);
    assert_eq!(proc.height, 40 - mem_pref);
    assert_eq!(mem.y + mem.height, proc.y);
}

#[test]
fn vstack_two_fill_siblings_share_remainder() {
    let root = Slot::VStack(vec![
        Slot::Widget(WidgetKind::Mem),
        Slot::Widget(WidgetKind::Net),
        Slot::Widget(WidgetKind::Proc),
    ]);
    let cfg = lc(120, 40, root);
    let mem_pref = cfg.metrics.mem.preferred_height;
    let layout = calc_sizes(&cfg);
    let net = layout.dims_for(WidgetKind::Net).expect("net placed");
    let proc = layout.dims_for(WidgetKind::Proc).expect("proc placed");
    let remainder = 40 - mem_pref;
    // Two Fill children share equally; rounding leftover goes to the first one (net).
    assert!(net.height + proc.height == remainder);
    assert!(net.height >= proc.height);
    assert!(net.height - proc.height <= 1);
}

#[test]
fn vstack_only_preferred_children_leave_remainder_unallocated() {
    let root = Slot::VStack(vec![
        Slot::Widget(WidgetKind::Mem),
        Slot::Widget(WidgetKind::Disk),
    ]);
    let cfg = lc(120, 40, root);
    let layout = calc_sizes(&cfg);
    let mem = layout.dims_for(WidgetKind::Mem).expect("mem placed");
    let disk = layout.dims_for(WidgetKind::Disk).expect("disk placed");
    assert_eq!(
        mem.height,
        cfg.metrics.mem.preferred_height
    );
    assert_eq!(
        disk.height,
        cfg.metrics.disk.preferred_height
    );
}

#[test]
fn cpu_clamped_to_one_third_of_terminal_height() {
    let root = Slot::VStack(vec![
        Slot::Widget(WidgetKind::Cpu),
        Slot::Widget(WidgetKind::Proc),
    ]);
    // With many cores, CPU's preferred height is large. Clamp
    // to term_height/3 = 60/3 = 20.
    let cfg = lc_with_hints(200, 60, root, |h| h.core_count = 64);
    let layout = calc_sizes(&cfg);
    let cpu = layout.dims_for(WidgetKind::Cpu).expect("cpu placed");
    assert!(cpu.height <= 60 / 3);
}

fn hidden_set(kinds: &[WidgetKind]) -> WidgetSet {
    let mut s = WidgetSet::new();
    for k in kinds {
        s.insert(*k);
    }
    s
}


#[test]
fn hidden_widget_in_hstack_yields_width_to_visible_sibling() {
    // HStack with [Gpu(5), Proc]; Gpu(5) is hidden. Proc gets
    // the full width.
    let root = Slot::HStack(vec![
        HStackChild::new(Slot::Widget(WidgetKind::Gpu), nz(40)),
        HStackChild::new(Slot::Widget(WidgetKind::Proc), nz(60)),
    ]);
    let cfg = lc_with_hidden(100, 30, root, hidden_set(&[WidgetKind::Gpu]));
    let layout = calc_sizes(&cfg);
    assert!(layout.dims_for(WidgetKind::Gpu).is_none());
    let proc = layout.dims_for(WidgetKind::Proc).expect("proc placed");
    assert_eq!(proc.x, 0);
    assert_eq!(proc.width, 100);
}

#[test]
fn hidden_non_gpu_widget_contributes_zero_size() {
    // The engine doesn't care that a widget is a "GPU" — any
    // hidden widget contributes zero. Hide Mem and verify Net
    // (Fill) absorbs the freed space.
    let root = Slot::VStack(vec![
        Slot::Widget(WidgetKind::Mem),
        Slot::Widget(WidgetKind::Net),
    ]);
    let cfg = lc_with_hidden(120, 40, root, hidden_set(&[WidgetKind::Mem]));
    let layout = calc_sizes(&cfg);
    assert!(layout.dims_for(WidgetKind::Mem).is_none());
    let net = layout.dims_for(WidgetKind::Net).expect("net placed");
    assert_eq!(net.y, 0);
    assert_eq!(net.height, 40);
}


#[test]
fn fully_hidden_tree_yields_empty_layout() {
    // Tree contains only one widget and it's hidden — no
    // terminal-too-small triggers, but nothing renders either.
    let cfg = lc_with_hidden(
        120,
        40,
        Slot::Widget(WidgetKind::Gpu),
        hidden_set(&[WidgetKind::Gpu]),
    );
    let layout = calc_sizes(&cfg);
    assert!(layout.dims_for(WidgetKind::Gpu).is_none());
    assert!(layout.is_empty(), "fully-hidden layout reports empty");
}

#[test]
fn layout_is_empty_returns_false_when_any_widget_placed() {
    let cfg = lc(100, 30, Slot::Widget(WidgetKind::Cpu));
    let layout = calc_sizes(&cfg);
    assert!(!layout.is_empty());
}

#[test]
fn layout_is_empty_returns_true_for_default() {
    // Default Layout has no placements — degenerate
    // terminal-too-small case in the engine returns one.
    let layout = Layout::default();
    assert!(layout.is_empty());
}

#[test]
fn hstack_distribute_widths_sum_equals_total() {
    let children = vec![
        HStackChild::new(Slot::Widget(WidgetKind::Mem), nz(40)),
        HStackChild::new(Slot::Widget(WidgetKind::Proc), nz(60)),
    ];
    let hidden = WidgetSet::new();
    for total in [10usize, 50, 100, 113, 1000] {
        let widths = hstack_distribute_widths(&children, &hidden, total);
        let sum: usize = widths.iter().sum();
        assert_eq!(sum, total, "sum != total for total={total}");
    }
}

#[test]
fn hstack_distribute_widths_skips_hidden_children() {
    let children = vec![
        HStackChild::new(Slot::Widget(WidgetKind::Mem), nz(40)),
        HStackChild::new(Slot::Widget(WidgetKind::Proc), nz(60)),
    ];
    let widths = hstack_distribute_widths(&children, &hidden_set(&[WidgetKind::Mem]), 100);
    assert_eq!(widths[0], 0);
    assert_eq!(widths[1], 100);
}

#[test]
fn hstack_distribute_widths_all_hidden_yields_zeros() {
    let children = vec![
        HStackChild::new(Slot::Widget(WidgetKind::Mem), nz(40)),
        HStackChild::new(Slot::Widget(WidgetKind::Proc), nz(60)),
    ];
    let widths =
        hstack_distribute_widths(&children, &hidden_set(&[WidgetKind::Mem, WidgetKind::Proc]), 100);
    assert_eq!(widths, vec![0, 0]);
}

#[test]
fn min_terminal_size_proc_only_uses_proc_minimums() {
    let (w, h) = min_terminal_size(&lc(0, 0, Slot::Widget(WidgetKind::Proc)));
    assert_eq!(w, MIN_PROC_WIDTH);
    assert_eq!(h, MIN_PROC_HEIGHT);
}

#[test]
fn min_terminal_size_left_only_uses_widest_visible_widget() {
    let (w, _) = min_terminal_size(&lc(0, 0, Slot::Widget(WidgetKind::Net)));
    assert_eq!(w, MIN_NET_WIDTH);
     let root = Slot::VStack(vec![
        Slot::Widget(WidgetKind::Mem),
        Slot::Widget(WidgetKind::Net),
    ]);
    let (w, _) = min_terminal_size(&lc(0, 0, root));
    assert_eq!(w, MIN_MEM_WIDTH);
}

#[test]
fn min_terminal_size_hstack_satisfies_pct_split() {
    let root = two_col(
        Slot::Widget(WidgetKind::Mem),
        Slot::Widget(WidgetKind::Proc),
    );
    let (w, _) = min_terminal_size(&lc(0, 0, root));
    // Both columns must fit at their respective minimums under
    // the 40/60 weight split.
    assert!(w * 60 / 100 >= MIN_PROC_WIDTH);
    assert!(w - w * 60 / 100 >= MIN_MEM_WIDTH);
}

#[test]
fn min_terminal_size_vstack_height_sums_visible_children() {
    let root = Slot::VStack(vec![
        Slot::Widget(WidgetKind::Mem),
        Slot::Widget(WidgetKind::Proc),
    ]);
    let cfg = lc(0, 0, root);
    let (_, h) = min_terminal_size(&cfg);
    let mem_pref = cfg.metrics.mem.preferred_height;
    assert_eq!(h, mem_pref + MIN_PROC_HEIGHT);
}

#[test]
fn min_terminal_size_includes_cpu_clamp_constraint() {
    let root = Slot::VStack(vec![
        Slot::Widget(WidgetKind::Cpu),
        Slot::Widget(WidgetKind::Proc),
    ]);
    let (_, h) = min_terminal_size(&lc(0, 0, root));
    let cpu_pref =
        metrics_for(&LayoutHints::default()).cpu.preferred_height.max(MIN_CPU_HEIGHT);
    assert!(h >= 3 * cpu_pref);
}

#[test]
fn min_terminal_size_hidden_widgets_contribute_zero() {
    // Single-widget tree, widget hidden — reports (0, 0).
    let cfg = lc_with_hidden(
        0,
        0,
        Slot::Widget(WidgetKind::Gpu),
        hidden_set(&[WidgetKind::Gpu]),
    );
    let (w, h) = min_terminal_size(&cfg);
    assert_eq!((w, h), (0, 0));
}

#[test]
fn min_terminal_size_skips_cpu_clamp_when_cpu_hidden() {
    // CPU's 3x preferred-height clamp must not kick in when CPU
    // is hidden — otherwise the user couldn't hide CPU on a
    // small terminal.
    let root = Slot::VStack(vec![
        Slot::Widget(WidgetKind::Cpu),
        Slot::Widget(WidgetKind::Proc),
    ]);
    let cfg = lc_with_hidden(0, 0, root, hidden_set(&[WidgetKind::Cpu]));
    let (_, h) = min_terminal_size(&cfg);
    // Without CPU contribution, the only required height is
    // proc's minimum.
    assert_eq!(h, MIN_PROC_HEIGHT);
}

#[test]
fn slot_is_fill_treats_hidden_fill_as_not_fill() {
    // A Fill widget that's hidden must not claim a slack share.
    let hidden = hidden_set(&[WidgetKind::Net]);
    assert!(!slot_is_fill(&Slot::Widget(WidgetKind::Net), &hidden));
    // A Fill widget in a tree alongside a hidden widget is
    // still Fill (the tree contains a visible Fill).
    let root = Slot::VStack(vec![
        Slot::Widget(WidgetKind::Net),
        Slot::Widget(WidgetKind::Proc),
    ]);
    assert!(slot_is_fill(&root, &hidden));
}
