use rtop::config::{ConfigKey, IntKey};
use rtop::overlay::options::draw::{capitalize_name, center_text, draw, DrawParams};
use rtop::overlay::options::edit::{EditKind, OptionEditState};
use rtop::overlay::options::render::categories;
use rtop::theme::Theme;
use rtop::theme_keys::SELECTED_BG;
use rtop::themes::{GradientDef, PaletteColors, PaletteGradients, Rgb, ThemePalette};

fn greyscale_theme() -> Theme {
    let c = Rgb(0x80, 0x80, 0x80);
    let g = GradientDef { start: Rgb(0, 0, 0), mid: c, end: Rgb(0xff, 0xff, 0xff) };
    let colors = PaletteColors {
        main_bg: Rgb(0, 0, 0), main_fg: Rgb(0xcc, 0xcc, 0xcc), title: Rgb(0xee, 0xee, 0xee), hi_fg: Rgb(0xff, 0xff, 0xff),
        selected_bg: Rgb(0xff, 0xff, 0xff), selected_fg: Rgb(0, 0, 0), graph_text: c, meter_bg: c, proc_tree_fg: c,
        cpu_widget: c, mem_widget: c, net_widget: c, proc_widget: c, gpu_widget: c, disk_widget: c, help_box: c,
        options_box: c, followed_bg: c, followed_fg: c, dead_proc_fg: c, statusbar_bg: c, statusbar_fg: c,
        statusbar_hi: c, statusbar_sep: c, data_label_fg: c,
    };
    let gradients = PaletteGradients {
        cpu_upper: g, cpu_lower: g, temp: g, free: g, cached: g, available: g, used: g, download: g,
        upload: g, process: g, gpu: g, gpu_clock: g, gpu_power: g, gpu_vram: g, disk_read: g,
        disk_write: g, disk_busy: g,
    };
    Theme::from_palette(&ThemePalette { colors, gradients })
}

/// Names, values, choices and descriptions for every option of `cat`.
fn texts_for(cat: usize) -> (Vec<String>, Vec<String>, Vec<Vec<String>>, Vec<Vec<String>>) {
    let n = categories()[cat.min(7)].options.len();
    let names = (0..n).map(|i| format!("option_{i}")).collect();
    let values = (0..n).map(|i| format!("v{i}")).collect();
    let choices = (0..n).map(|_| vec!["v0".to_string(), "v1".to_string()]).collect();
    let descs = (0..n).map(|i| vec![format!("Option {i}."), "More text.".to_string()]).collect();
    (names, values, choices, descs)
}

fn render(cat: usize, selected: usize, page: usize, tw: usize, th: usize, edit: Option<&OptionEditState>, theme: &Theme) -> String {
    let (names, values, choices, descs) = texts_for(cat);
    draw(
        &DrawParams { cat, selected, page, rounded: true, option_edit: edit, names: &names, choices: &choices, descs: &descs, theme },
        &values,
        tw,
        th,
    )
}

/// Visible cells: SGR and cursor moves dropped, `ESC [ N C` as N spaces.
fn strip_ansi(s: &str) -> String {
    let mut out = String::new();
    let mut chars = s.chars().peekable();
    while let Some(c) = chars.next() {
        if c != '\x1b' {
            out.push(c);
            continue;
        }
        if chars.next() != Some('[') {
            continue;
        }
        let mut params = String::new();
        let final_byte = loop {
            match chars.next() {
                Some(c2) if c2.is_ascii_alphabetic() => break c2,
                Some(c2) => params.push(c2),
                None => return out,
            }
        };
        if final_byte == 'C' {
            let n: usize = params.parse().unwrap_or(1);
            for _ in 0..n {
                out.push(' ');
            }
        }
    }
    out
}

fn render_tab_bar_plain(selected: usize) -> String {
    let theme = greyscale_theme();
    strip_ansi(&render(selected, 0, 0, 120, 40, None, &theme))
}

#[test]
fn tab_bar_uses_uniform_inter_tab_spacing() {
    let cats = categories();
    let bar = render_tab_bar_plain(cats.len() - 1);
    for i in 0..cats.len() - 2 {
        let combined = format!("{}    {}", cats[i].name, cats[i + 1].name);
        assert!(bar.contains(&combined), "expected 4-space gap in {bar:?}");
    }
}

#[test]
fn selecting_a_tab_does_not_shift_neighbouring_tab_columns() {
    let bar_a = render_tab_bar_plain(0);
    let bar_b = render_tab_bar_plain(4);
    for (i, cat) in categories().iter().enumerate() {
        if i == 0 || i == 4 {
            continue;
        }
        assert_eq!(bar_a.find(cat.name), bar_b.find(cat.name), "tab {:?} shifted", cat.name);
    }
}

#[test]
fn selected_tab_renders_inside_brackets() {
    let bar = render_tab_bar_plain(1);
    assert!(bar.contains("[statusbar]"), "{bar:?}");
}

#[test]
fn unselected_tab_renders_without_brackets() {
    let bar = render_tab_bar_plain(0);
    assert!(!bar.contains("[statusbar]"));
    assert!(bar.contains("statusbar"));
}

#[test]
fn selected_row_paints_real_background_escape() {
    let theme = greyscale_theme();
    let bg_escape = theme.background(SELECTED_BG);
    assert!(bg_escape.contains("48;2"));
    let out = render(0, 0, 0, 120, 30, None, &theme);
    assert!(out.matches(&bg_escape).count() >= 2);
}

#[test]
fn option_rows_show_names_values_and_description() {
    let theme = greyscale_theme();
    let plain = strip_ansi(&render(0, 1, 0, 120, 40, None, &theme));
    // Names capitalised and centred in 29 columns, values in 25.
    assert!(plain.contains(&center_text("Option 0", 29)));
    assert!(plain.contains(&center_text("v0", 25)));
    assert!(plain.contains("Option 1."));
    assert!(plain.contains("More text."));
    // Only the selected option's description shows.
    assert!(!plain.contains("Option 0."));
    assert!(plain.contains("tab→"));
}

#[test]
fn selected_browsable_option_shows_its_choice_position() {
    // General's eighth option (index 7) is the graph symbol, an enumeration.
    let theme = greyscale_theme();
    let plain = strip_ansi(&render(0, 7, 0, 120, 40, None, &theme));
    assert!(plain.contains("Option 7 1/2"), "{plain:?}");
}

#[test]
fn pages_are_clamped_and_marked() {
    let theme = greyscale_theme();
    // Height 20 leaves room for four options: general's eleven take three pages.
    let plain = strip_ansi(&render(0, 0, 9, 120, 20, None, &theme));
    assert!(plain.contains("↑  page 3/3  ↓"), "{plain:?}");
    assert!(plain.contains(&center_text("Option 8", 29)));
    assert!(!plain.contains(&center_text("Option 7", 29)));
    let single = strip_ansi(&render(1, 0, 0, 120, 40, None, &theme));
    assert!(!single.contains("page"));
}

#[test]
fn open_editor_replaces_the_value_and_shows_its_error() {
    let theme = greyscale_theme();
    let mut e = OptionEditState::new(ConfigKey::Int(IntKey::UpdateMs), EditKind::Integer, "12x".to_string());
    e.set_error(Some("not a number"));
    // UpdateMs is general's fifth option.
    let out = render(0, 4, 0, 120, 40, Some(&e), &theme);
    let plain = strip_ansi(&out);
    assert!(plain.contains("12x"));
    assert!(plain.contains("not a number"));
    assert!(!plain.contains(&center_text("v4", 25)));
}

#[test]
fn display_names_capitalise_words() {
    assert_eq!(capitalize_name("update_ms"), "Update Ms");
    assert_eq!(capitalize_name("proc_per_core"), "Proc Per Core");
    assert_eq!(capitalize_name(""), "");
    assert_eq!(center_text("ab", 5), " ab  ");
    assert_eq!(center_text("abcdef", 3), "abc");
}
