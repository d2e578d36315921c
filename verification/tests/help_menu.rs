use rtop::menu::help_menu::{dimensions, draw, keybinds};
use rtop::overlay::help::{DIVIDER_OVERHEAD, KEY_DESC_GAP, SIDE_PAD};
use rtop::theme::Theme;
use rtop::themes::{GradientDef, PaletteColors, PaletteGradients, Rgb, ThemePalette};
use rtop::tools::ulen;

fn menu_theme() -> Theme {
    let c = Rgb(0x70, 0x70, 0x70);
    let g = GradientDef { start: Rgb(0, 0, 0), mid: c, end: Rgb(0xff, 0xff, 0xff) };
    let colors = PaletteColors {
        main_bg: Rgb(0, 0, 0), main_fg: Rgb(0xdd, 0xdd, 0xdd), title: Rgb(0xee, 0xee, 0xee), hi_fg: Rgb(0xff, 0x40, 0x40),
        selected_bg: c, selected_fg: c, graph_text: c, meter_bg: c, proc_tree_fg: c, cpu_widget: c,
        mem_widget: c, net_widget: c, proc_widget: c, gpu_widget: c, disk_widget: c, help_box: Rgb(0x20, 0x50, 0x80),
        options_box: c, followed_bg: c, followed_fg: c, dead_proc_fg: c, statusbar_bg: c, statusbar_fg: c,
        statusbar_hi: c, statusbar_sep: c, data_label_fg: c,
    };
    let gradients = PaletteGradients {
        cpu_upper: g, cpu_lower: g, temp: g, free: g, cached: g, available: g, used: g, download: g,
        upload: g, process: g, gpu: g, gpu_clock: g, gpu_power: g, gpu_vram: g, disk_read: g,
        disk_write: g, disk_busy: g,
    };
    Theme::from_palette(&ThemePalette { colors, gradients })
}


#[test]
fn keybinds_has_all_sections() {
    let sections: Vec<&str> = keybinds().iter().map(|kb| kb.section).collect();
    assert!(sections.contains(&"Global"), "missing Global section");
    assert!(sections.contains(&"Process"), "missing Process section");
    assert!(sections.contains(&"Disk"), "missing Disk section");
    assert!(sections.contains(&"Network"), "missing Network section");
}

#[test]
fn keybinds_no_empty_entries() {
    for kb in keybinds() {
        assert!(!kb.key.is_empty(), "empty key in keybinds");
        assert!(!kb.desc.is_empty(), "empty desc for key: {}", kb.key);
        assert!(!kb.section.is_empty(), "empty section for key: {}", kb.key);
    }
}

#[test]
fn draw_renders_all_sections() {
    let theme = menu_theme();
    let out = draw(80, 45, &theme, true);
    assert!(out.contains("Global"), "should contain Global header");
    assert!(out.contains("Process"), "should contain Process header");
    assert!(out.contains("Network"), "should contain Network header");
}

#[test]
fn draw_renders_keybind_descriptions() {
    let theme = menu_theme();
    let out = draw(200, 60, &theme, true);
    assert!(out.contains("Quit"), "should contain Quit");
    assert!(
        out.contains("Toggle main menu"),
        "should contain menu toggle"
    );
    assert!(
        out.contains("Select process"),
        "should contain process selection"
    );
}

#[test]
fn dimensions_height_equals_borders_plus_sections_plus_keybinds() {
    let (_, h) = dimensions();
    let section_count = keybinds()
        .iter()
        .map(|kb| kb.section)
        .scan("", |prev, cur| {
            let new = cur != *prev;
            *prev = cur;
            Some(new)
        })
        .filter(|&new| new)
        .count();
    assert_eq!(h, 2 + section_count + keybinds().len());
}

#[test]
fn dimensions_width_fits_longest_keybind_row() {
    let (w, _) = dimensions();
    let key_col = keybinds()
        .iter()
        .map(|kb| ulen(kb.key, false))
        .max()
        .unwrap();
    let desc_col = keybinds()
        .iter()
        .map(|kb| ulen(kb.desc, false))
        .max()
        .unwrap();
    // 2 borders + 2 paddings + key + gap + desc must fit.
    assert!(w >= 2 + 2 * SIDE_PAD + key_col + KEY_DESC_GAP + desc_col);
}

#[test]
fn dimensions_width_fits_longest_section_divider() {
    let (w, _) = dimensions();
    let longest_section = keybinds()
        .iter()
        .map(|kb| ulen(kb.section, false))
        .max()
        .unwrap();
    // 2 borders + section name + divider overhead must fit.
    assert!(w >= 2 + longest_section + DIVIDER_OVERHEAD);
}
