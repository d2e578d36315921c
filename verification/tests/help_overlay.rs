use rtop::overlay::help::{dimensions, help_rows, render, HelpState};
use rtop::overlay::main_menu::MainMenuState;
use rtop::overlay::ReturnTarget;
use rtop::theme::Theme;
use rtop::themes::{GradientDef, PaletteColors, PaletteGradients, Rgb, ThemePalette};

fn test_theme() -> Theme {
    let c = Rgb(0x80, 0x80, 0x80);
    let g = GradientDef { start: Rgb(0, 0, 0), mid: Rgb(0x80, 0x80, 0x80), end: Rgb(0xff, 0xff, 0xff) };
    let colors = PaletteColors {
        main_bg: Rgb(0, 0, 0), main_fg: Rgb(0xcc, 0xcc, 0xcc), title: Rgb(0xee, 0xee, 0xee), hi_fg: Rgb(0xb5, 0x40, 0x40),
        selected_bg: c, selected_fg: c, graph_text: c, meter_bg: c, proc_tree_fg: c, cpu_widget: c,
        mem_widget: c, net_widget: c, proc_widget: c, gpu_widget: c, disk_widget: c, help_box: Rgb(0x30, 0x60, 0x90),
        options_box: c, followed_bg: c, followed_fg: c, dead_proc_fg: c, statusbar_bg: c, statusbar_fg: c,
        statusbar_hi: c, statusbar_sep: c, data_label_fg: c,
    };
    let gradients = PaletteGradients {
        cpu_upper: g, cpu_lower: g, temp: g, free: g, cached: g, available: g, used: g, download: g,
        upload: g, process: g, gpu: g, gpu_clock: g, gpu_power: g, gpu_vram: g, disk_read: g,
        disk_write: g, disk_busy: g,
    };
    Theme::from_palette(&ThemePalette { colors, gradients })
}

#[test]
fn carries_return_target() {
    let s = HelpState::new(ReturnTarget::Normal);
    assert_eq!(s.return_to, ReturnTarget::Normal);
    let s = HelpState::new(ReturnTarget::Main(MainMenuState::new()));
    assert_eq!(s.return_to, ReturnTarget::Main(MainMenuState::new()));
}

#[test]
fn help_rows_has_all_sections() {
    let rows = help_rows();
    let sections: Vec<&str> = rows.iter().map(|r| r.category).collect();
    assert!(sections.contains(&"Global"), "missing Global section");
    assert!(sections.contains(&"Process"), "missing Process section");
    assert!(sections.contains(&"Disk"), "missing Disk section");
    assert!(sections.contains(&"Network"), "missing Network section");
}

#[test]
fn help_rows_no_empty_entries() {
    let rows = help_rows();
    for r in &rows {
        assert!(!r.keys.is_empty(), "empty keys in help row");
        assert!(!r.desc.is_empty(), "empty desc for keys: {}", r.keys);
        assert!(
            !r.category.is_empty(),
            "empty category for keys: {}",
            r.keys
        );
    }
}

#[test]
fn render_emits_all_sections() {
    let theme = test_theme();
    let state = HelpState::new(ReturnTarget::Normal);
    let out = render(&state, 80, 45, true, &theme);
    assert!(out.contains("Global"));
    assert!(out.contains("Process"));
    assert!(out.contains("Network"));
}

#[test]
fn render_emits_keybind_descriptions() {
    let theme = test_theme();
    let state = HelpState::new(ReturnTarget::Normal);
    let out = render(&state, 200, 60, true, &theme);
    assert!(out.contains("Quit"));
    assert!(out.contains("Toggle main menu"));
    assert!(out.contains("Select process"));
}

#[test]
fn dimensions_height_equals_borders_plus_sections_plus_rows() {
    let rows = help_rows();
    let (_, h) = dimensions(&rows);
    let section_count = rows
        .iter()
        .map(|r| r.category)
        .scan("", |prev, cur| {
            let new = cur != *prev;
            *prev = cur;
            Some(new)
        })
        .filter(|&new| new)
        .count();
    assert_eq!(h, 2 + section_count + rows.len());
}

#[test]
fn help_rows_groups_are_contiguous() {
    let rows = help_rows();
    let mut seen: Vec<&str> = Vec::new();
    let mut current = "";
    for r in &rows {
        if r.category != current {
            assert!(
                !seen.contains(&r.category),
                "category {:?} appears in two non-contiguous blocks in BINDINGS",
                r.category,
            );
            seen.push(r.category);
            current = r.category;
        }
    }
}

#[test]
fn help_rows_follow_table_order() {
    let rows = help_rows();
    assert_eq!(rows.len(), 28);
    assert_eq!(rows[0].keys, "q / Ctrl+C");
    assert_eq!(rows[0].desc, "Quit");
    assert_eq!(rows[0].category, "Global");
}

#[test]
fn dimensions_fit_widest_row() {
    let rows = help_rows();
    let (w, _) = dimensions(&rows);
    let key_col = rows.iter().map(|r| r.keys.len()).max().unwrap();
    let desc_col = rows.iter().map(|r| r.desc.len()).max().unwrap();
    assert_eq!(w, 2 + 2 + key_col + 2 + desc_col);
}

#[test]
fn render_clamps_box_to_small_terminal() {
    let theme = test_theme();
    let out = render(&HelpState::new(ReturnTarget::Normal), 30, 6, false, &theme);
    assert!(out.contains("help"));
    assert!(out.contains("Global"));
    assert!(!out.contains("Process"));
    assert!(out.ends_with("\x1b[0m"));
}
