//! The static help menu: a fixed list of keybinds by section, drawn in
//! the same box as the help overlay.

use vstd::prelude::*;

use crate::handlers::keybinds::short_printable;
use crate::overlay::help::{help_lines_of, help_overlay, lines_printable, render_lines, HelpLine, HelpRow};
use crate::theme::Theme;
use crate::theme_keys::{color_index, HELP_BOX, HI_FG, MAIN_FG, TITLE};

verus! {

/// One keybind entry: the key text, its description, its section.
#[derive(Debug, Clone, Copy)]
pub struct Keybind {
    pub key: &'static str,
    pub desc: &'static str,
    pub section: &'static str,
}

/// The entries of the help menu, grouped by section.
pub open spec fn keybind_lines() -> Seq<HelpLine> {
    seq![
        ("q / Ctrl-C"@, "Quit"@, "Global"@),
        ("m / Esc"@, "Toggle main menu"@, "Global"@),
        ("? / F1"@, "Toggle help"@, "Global"@),
        ("o / F2"@, "Toggle options"@, "Global"@),
        ("p / Shift-P"@, "Cycle presets forward/back"@, "Global"@),
        ("Ctrl-R"@, "Reload config"@, "Global"@),
        ("+/-"@, "Adjust update speed"@, "Global"@),
        ("1-5"@, "Toggle widget (cpu/mem/net/proc/disk)"@, "Global"@),
        ("6-9"@, "Toggle GPU 0-3"@, "Global"@),
        ("0"@, "Toggle GPU 4-7"@, "Global"@),
        ("Shift-R"@, "Restore all hidden widgets"@, "Global"@),
        ("Up/Down"@, "Select process"@, "Process"@),
        ("PgUp/PgDn"@, "Page through processes"@, "Process"@),
        ("Home/End"@, "Jump to first/last"@, "Process"@),
        ("Left/Right"@, "Cycle sort column"@, "Process"@),
        ("r"@, "Reverse sort order"@, "Process"@),
        ("f / /"@, "Enter filter mode"@, "Process"@),
        ("e"@, "Toggle tree view"@, "Process"@),
        ("c"@, "Toggle per-core CPU"@, "Process"@),
        ("t"@, "Terminate process (graceful)"@, "Process"@),
        ("T"@, "Kill process (force)"@, "Process"@),
        ("Enter"@, "Show process details"@, "Process"@),
        ("F"@, "Follow/unfollow process"@, "Process"@),
        ("i"@, "Toggle IO mode"@, "Disk"@),
        ("n"@, "Next network interface"@, "Network"@),
        ("b"@, "Previous network interface"@, "Network"@),
        ("a"@, "Toggle net auto-scale"@, "Network"@),
        ("s"@, "Toggle net sync scale"@, "Network"@),
        ("z"@, "Reset network counters"@, "Network"@),
    ]
}

/// A keybind entry as a help line.
pub open spec fn keybind_line(k: Keybind) -> HelpLine {
    (k.key@, k.desc@, k.section@)
}

/// Every keybind of the help menu, grouped by section.
pub fn keybinds() -> (r: Vec<Keybind>)
    ensures
        r@.map_values(|k: Keybind| keybind_line(k)) == keybind_lines(),
{
    let v = vec![
        Keybind { key: "q / Ctrl-C", desc: "Quit", section: "Global" },
        Keybind { key: "m / Esc", desc: "Toggle main menu", section: "Global" },
        Keybind { key: "? / F1", desc: "Toggle help", section: "Global" },
        Keybind { key: "o / F2", desc: "Toggle options", section: "Global" },
        Keybind { key: "p / Shift-P", desc: "Cycle presets forward/back", section: "Global" },
        Keybind { key: "Ctrl-R", desc: "Reload config", section: "Global" },
        Keybind { key: "+/-", desc: "Adjust update speed", section: "Global" },
        Keybind { key: "1-5", desc: "Toggle widget (cpu/mem/net/proc/disk)", section: "Global" },
        Keybind { key: "6-9", desc: "Toggle GPU 0-3", section: "Global" },
        Keybind { key: "0", desc: "Toggle GPU 4-7", section: "Global" },
        Keybind { key: "Shift-R", desc: "Restore all hidden widgets", section: "Global" },
        Keybind { key: "Up/Down", desc: "Select process", section: "Process" },
        Keybind { key: "PgUp/PgDn", desc: "Page through processes", section: "Process" },
        Keybind { key: "Home/End", desc: "Jump to first/last", section: "Process" },
        Keybind { key: "Left/Right", desc: "Cycle sort column", section: "Process" },
        Keybind { key: "r", desc: "Reverse sort order", section: "Process" },
        Keybind { key: "f / /", desc: "Enter filter mode", section: "Process" },
        Keybind { key: "e", desc: "Toggle tree view", section: "Process" },
        Keybind { key: "c", desc: "Toggle per-core CPU", section: "Process" },
        Keybind { key: "t", desc: "Terminate process (graceful)", section: "Process" },
        Keybind { key: "T", desc: "Kill process (force)", section: "Process" },
        Keybind { key: "Enter", desc: "Show process details", section: "Process" },
        Keybind { key: "F", desc: "Follow/unfollow process", section: "Process" },
        Keybind { key: "i", desc: "Toggle IO mode", section: "Disk" },
        Keybind { key: "n", desc: "Next network interface", section: "Network" },
        Keybind { key: "b", desc: "Previous network interface", section: "Network" },
        Keybind { key: "a", desc: "Toggle net auto-scale", section: "Network" },
        Keybind { key: "s", desc: "Toggle net sync scale", section: "Network" },
        Keybind { key: "z", desc: "Reset network counters", section: "Network" },
    ];
    assert(v@.map_values(|k: Keybind| keybind_line(k)) =~= keybind_lines());
    v
}

proof fn lemma_keybind_lines_printable()
    ensures
        lines_printable(keybind_lines()),
{
    reveal_strlit("q / Ctrl-C");
    assert("q / Ctrl-C"@ =~= seq!['q', ' ', '/', ' ', 'C', 't', 'r', 'l', '-', 'C']);
    assert(short_printable("q / Ctrl-C"@));
    reveal_strlit("Quit");
    assert("Quit"@ =~= seq!['Q', 'u', 'i', 't']);
    assert(short_printable("Quit"@));
    reveal_strlit("Global");
    assert("Global"@ =~= seq!['G', 'l', 'o', 'b', 'a', 'l']);
    assert(short_printable("Global"@));
    reveal_strlit("m / Esc");
    assert("m / Esc"@ =~= seq!['m', ' ', '/', ' ', 'E', 's', 'c']);
    assert(short_printable("m / Esc"@));
    reveal_strlit("Toggle main menu");
    assert("Toggle main menu"@ =~= seq!['T', 'o', 'g', 'g', 'l', 'e', ' ', 'm', 'a', 'i', 'n', ' ', 'm', 'e', 'n', 'u']);
    assert(short_printable("Toggle main menu"@));
    reveal_strlit("? / F1");
    assert("? / F1"@ =~= seq!['?', ' ', '/', ' ', 'F', '1']);
    assert(short_printable("? / F1"@));
    reveal_strlit("Toggle help");
    assert("Toggle help"@ =~= seq!['T', 'o', 'g', 'g', 'l', 'e', ' ', 'h', 'e', 'l', 'p']);
    assert(short_printable("Toggle help"@));
    reveal_strlit("o / F2");
    assert("o / F2"@ =~= seq!['o', ' ', '/', ' ', 'F', '2']);
    assert(short_printable("o / F2"@));
    reveal_strlit("Toggle options");
    assert("Toggle options"@ =~= seq!['T', 'o', 'g', 'g', 'l', 'e', ' ', 'o', 'p', 't', 'i', 'o', 'n', 's']);
    assert(short_printable("Toggle options"@));
    reveal_strlit("p / Shift-P");
    assert("p / Shift-P"@ =~= seq!['p', ' ', '/', ' ', 'S', 'h', 'i', 'f', 't', '-', 'P']);
    assert(short_printable("p / Shift-P"@));
    reveal_strlit("Cycle presets forward/back");
    assert("Cycle presets forward/back"@ =~= seq!['C', 'y', 'c', 'l', 'e', ' ', 'p', 'r', 'e', 's', 'e', 't', 's', ' ', 'f', 'o', 'r', 'w', 'a', 'r', 'd', '/', 'b', 'a', 'c', 'k']);
    assert(short_printable("Cycle presets forward/back"@));
    reveal_strlit("Ctrl-R");
    assert("Ctrl-R"@ =~= seq!['C', 't', 'r', 'l', '-', 'R']);
    assert(short_printable("Ctrl-R"@));
    reveal_strlit("Reload config");
    assert("Reload config"@ =~= seq!['R', 'e', 'l', 'o', 'a', 'd', ' ', 'c', 'o', 'n', 'f', 'i', 'g']);
    assert(short_printable("Reload config"@));
    reveal_strlit("+/-");
    assert("+/-"@ =~= seq!['+', '/', '-']);
    assert(short_printable("+/-"@));
    reveal_strlit("Adjust update speed");
    assert("Adjust update speed"@ =~= seq!['A', 'd', 'j', 'u', 's', 't', ' ', 'u', 'p', 'd', 'a', 't', 'e', ' ', 's', 'p', 'e', 'e', 'd']);
    assert(short_printable("Adjust update speed"@));
    reveal_strlit("1-5");
    assert("1-5"@ =~= seq!['1', '-', '5']);
    assert(short_printable("1-5"@));
    reveal_strlit("Toggle widget (cpu/mem/net/proc/disk)");
    assert("Toggle widget (cpu/mem/net/proc/disk)"@ =~= seq!['T', 'o', 'g', 'g', 'l', 'e', ' ', 'w', 'i', 'd', 'g', 'e', 't', ' ', '(', 'c', 'p', 'u', '/', 'm', 'e', 'm', '/', 'n', 'e', 't', '/', 'p', 'r', 'o', 'c', '/', 'd', 'i', 's', 'k', ')']);
    assert(short_printable("Toggle widget (cpu/mem/net/proc/disk)"@));
    reveal_strlit("6-9");
    assert("6-9"@ =~= seq!['6', '-', '9']);
    assert(short_printable("6-9"@));
    reveal_strlit("Toggle GPU 0-3");
    assert("Toggle GPU 0-3"@ =~= seq!['T', 'o', 'g', 'g', 'l', 'e', ' ', 'G', 'P', 'U', ' ', '0', '-', '3']);
    assert(short_printable("Toggle GPU 0-3"@));
    reveal_strlit("0");
    assert("0"@ =~= seq!['0']);
    assert(short_printable("0"@));
    reveal_strlit("Toggle GPU 4-7");
    assert("Toggle GPU 4-7"@ =~= seq!['T', 'o', 'g', 'g', 'l', 'e', ' ', 'G', 'P', 'U', ' ', '4', '-', '7']);
    assert(short_printable("Toggle GPU 4-7"@));
    reveal_strlit("Shift-R");
    assert("Shift-R"@ =~= seq!['S', 'h', 'i', 'f', 't', '-', 'R']);
    assert(short_printable("Shift-R"@));
    reveal_strlit("Restore all hidden widgets");
    assert("Restore all hidden widgets"@ =~= seq!['R', 'e', 's', 't', 'o', 'r', 'e', ' ', 'a', 'l', 'l', ' ', 'h', 'i', 'd', 'd', 'e', 'n', ' ', 'w', 'i', 'd', 'g', 'e', 't', 's']);
    assert(short_printable("Restore all hidden widgets"@));
    reveal_strlit("Up/Down");
    assert("Up/Down"@ =~= seq!['U', 'p', '/', 'D', 'o', 'w', 'n']);
    assert(short_printable("Up/Down"@));
    reveal_strlit("Select process");
    assert("Select process"@ =~= seq!['S', 'e', 'l', 'e', 'c', 't', ' ', 'p', 'r', 'o', 'c', 'e', 's', 's']);
    assert(short_printable("Select process"@));
    reveal_strlit("Process");
    assert("Process"@ =~= seq!['P', 'r', 'o', 'c', 'e', 's', 's']);
    assert(short_printable("Process"@));
    reveal_strlit("PgUp/PgDn");
    assert("PgUp/PgDn"@ =~= seq!['P', 'g', 'U', 'p', '/', 'P', 'g', 'D', 'n']);
    assert(short_printable("PgUp/PgDn"@));
    reveal_strlit("Page through processes");
    assert("Page through processes"@ =~= seq!['P', 'a', 'g', 'e', ' ', 't', 'h', 'r', 'o', 'u', 'g', 'h', ' ', 'p', 'r', 'o', 'c', 'e', 's', 's', 'e', 's']);
    assert(short_printable("Page through processes"@));
    reveal_strlit("Home/End");
    assert("Home/End"@ =~= seq!['H', 'o', 'm', 'e', '/', 'E', 'n', 'd']);
    assert(short_printable("Home/End"@));
    reveal_strlit("Jump to first/last");
    assert("Jump to first/last"@ =~= seq!['J', 'u', 'm', 'p', ' ', 't', 'o', ' ', 'f', 'i', 'r', 's', 't', '/', 'l', 'a', 's', 't']);
    assert(short_printable("Jump to first/last"@));
    reveal_strlit("Left/Right");
    assert("Left/Right"@ =~= seq!['L', 'e', 'f', 't', '/', 'R', 'i', 'g', 'h', 't']);
    assert(short_printable("Left/Right"@));
    reveal_strlit("Cycle sort column");
    assert("Cycle sort column"@ =~= seq!['C', 'y', 'c', 'l', 'e', ' ', 's', 'o', 'r', 't', ' ', 'c', 'o', 'l', 'u', 'm', 'n']);
    assert(short_printable("Cycle sort column"@));
    reveal_strlit("r");
    assert("r"@ =~= seq!['r']);
    assert(short_printable("r"@));
    reveal_strlit("Reverse sort order");
    assert("Reverse sort order"@ =~= seq!['R', 'e', 'v', 'e', 'r', 's', 'e', ' ', 's', 'o', 'r', 't', ' ', 'o', 'r', 'd', 'e', 'r']);
    assert(short_printable("Reverse sort order"@));
    reveal_strlit("f / /");
    assert("f / /"@ =~= seq!['f', ' ', '/', ' ', '/']);
    assert(short_printable("f / /"@));
    reveal_strlit("Enter filter mode");
    assert("Enter filter mode"@ =~= seq!['E', 'n', 't', 'e', 'r', ' ', 'f', 'i', 'l', 't', 'e', 'r', ' ', 'm', 'o', 'd', 'e']);
    assert(short_printable("Enter filter mode"@));
    reveal_strlit("e");
    assert("e"@ =~= seq!['e']);
    assert(short_printable("e"@));
    reveal_strlit("Toggle tree view");
    assert("Toggle tree view"@ =~= seq!['T', 'o', 'g', 'g', 'l', 'e', ' ', 't', 'r', 'e', 'e', ' ', 'v', 'i', 'e', 'w']);
    assert(short_printable("Toggle tree view"@));
    reveal_strlit("c");
    assert("c"@ =~= seq!['c']);
    assert(short_printable("c"@));
    reveal_strlit("Toggle per-core CPU");
    assert("Toggle per-core CPU"@ =~= seq!['T', 'o', 'g', 'g', 'l', 'e', ' ', 'p', 'e', 'r', '-', 'c', 'o', 'r', 'e', ' ', 'C', 'P', 'U']);
    assert(short_printable("Toggle per-core CPU"@));
    reveal_strlit("t");
    assert("t"@ =~= seq!['t']);
    assert(short_printable("t"@));
    reveal_strlit("Terminate process (graceful)");
    assert("Terminate process (graceful)"@ =~= seq!['T', 'e', 'r', 'm', 'i', 'n', 'a', 't', 'e', ' ', 'p', 'r', 'o', 'c', 'e', 's', 's', ' ', '(', 'g', 'r', 'a', 'c', 'e', 'f', 'u', 'l', ')']);
    assert(short_printable("Terminate process (graceful)"@));
    reveal_strlit("T");
    assert("T"@ =~= seq!['T']);
    assert(short_printable("T"@));
    reveal_strlit("Kill process (force)");
    assert("Kill process (force)"@ =~= seq!['K', 'i', 'l', 'l', ' ', 'p', 'r', 'o', 'c', 'e', 's', 's', ' ', '(', 'f', 'o', 'r', 'c', 'e', ')']);
    assert(short_printable("Kill process (force)"@));
    reveal_strlit("Enter");
    assert("Enter"@ =~= seq!['E', 'n', 't', 'e', 'r']);
    assert(short_printable("Enter"@));
    reveal_strlit("Show process details");
    assert("Show process details"@ =~= seq!['S', 'h', 'o', 'w', ' ', 'p', 'r', 'o', 'c', 'e', 's', 's', ' ', 'd', 'e', 't', 'a', 'i', 'l', 's']);
    assert(short_printable("Show process details"@));
    reveal_strlit("F");
    assert("F"@ =~= seq!['F']);
    assert(short_printable("F"@));
    reveal_strlit("Follow/unfollow process");
    assert("Follow/unfollow process"@ =~= seq!['F', 'o', 'l', 'l', 'o', 'w', '/', 'u', 'n', 'f', 'o', 'l', 'l', 'o', 'w', ' ', 'p', 'r', 'o', 'c', 'e', 's', 's']);
    assert(short_printable("Follow/unfollow process"@));
    reveal_strlit("i");
    assert("i"@ =~= seq!['i']);
    assert(short_printable("i"@));
    reveal_strlit("Toggle IO mode");
    assert("Toggle IO mode"@ =~= seq!['T', 'o', 'g', 'g', 'l', 'e', ' ', 'I', 'O', ' ', 'm', 'o', 'd', 'e']);
    assert(short_printable("Toggle IO mode"@));
    reveal_strlit("Disk");
    assert("Disk"@ =~= seq!['D', 'i', 's', 'k']);
    assert(short_printable("Disk"@));
    reveal_strlit("n");
    assert("n"@ =~= seq!['n']);
    assert(short_printable("n"@));
    reveal_strlit("Next network interface");
    assert("Next network interface"@ =~= seq!['N', 'e', 'x', 't', ' ', 'n', 'e', 't', 'w', 'o', 'r', 'k', ' ', 'i', 'n', 't', 'e', 'r', 'f', 'a', 'c', 'e']);
    assert(short_printable("Next network interface"@));
    reveal_strlit("Network");
    assert("Network"@ =~= seq!['N', 'e', 't', 'w', 'o', 'r', 'k']);
    assert(short_printable("Network"@));
    reveal_strlit("b");
    assert("b"@ =~= seq!['b']);
    assert(short_printable("b"@));
    reveal_strlit("Previous network interface");
    assert("Previous network interface"@ =~= seq!['P', 'r', 'e', 'v', 'i', 'o', 'u', 's', ' ', 'n', 'e', 't', 'w', 'o', 'r', 'k', ' ', 'i', 'n', 't', 'e', 'r', 'f', 'a', 'c', 'e']);
    assert(short_printable("Previous network interface"@));
    reveal_strlit("a");
    assert("a"@ =~= seq!['a']);
    assert(short_printable("a"@));
    reveal_strlit("Toggle net auto-scale");
    assert("Toggle net auto-scale"@ =~= seq!['T', 'o', 'g', 'g', 'l', 'e', ' ', 'n', 'e', 't', ' ', 'a', 'u', 't', 'o', '-', 's', 'c', 'a', 'l', 'e']);
    assert(short_printable("Toggle net auto-scale"@));
    reveal_strlit("s");
    assert("s"@ =~= seq!['s']);
    assert(short_printable("s"@));
    reveal_strlit("Toggle net sync scale");
    assert("Toggle net sync scale"@ =~= seq!['T', 'o', 'g', 'g', 'l', 'e', ' ', 'n', 'e', 't', ' ', 's', 'y', 'n', 'c', ' ', 's', 'c', 'a', 'l', 'e']);
    assert(short_printable("Toggle net sync scale"@));
    reveal_strlit("z");
    assert("z"@ =~= seq!['z']);
    assert(short_printable("z"@));
    reveal_strlit("Reset network counters");
    assert("Reset network counters"@ =~= seq!['R', 'e', 's', 'e', 't', ' ', 'n', 'e', 't', 'w', 'o', 'r', 'k', ' ', 'c', 'o', 'u', 'n', 't', 'e', 'r', 's']);
    assert(short_printable("Reset network counters"@));
}

/// The entries as help rows.
fn keybind_rows() -> (r: Vec<HelpRow>)
    ensures
        help_lines_of(r@) == keybind_lines(),
{
    let k = keybinds();
    let mut rows: Vec<HelpRow> = Vec::new();
    let mut i: usize = 0;
    while i < k.len()
        invariant
            i <= k@.len(),
            k@.map_values(|x: Keybind| keybind_line(x)) == keybind_lines(),
            help_lines_of(rows@) == keybind_lines().take(i as int),
        decreases k@.len() - i,
    {
        let e = k[i];
        let ghost before = help_lines_of(rows@);
        rows.push(HelpRow { keys: e.key, desc: e.desc, category: e.section });
        assert(keybind_lines()[i as int] == keybind_line(e));
        assert(help_lines_of(rows@) =~= before.push(keybind_line(e)));
        i = i + 1;
        assert(help_lines_of(rows@) =~= keybind_lines().take(i as int));
    }
    assert(keybind_lines().take(k@.len() as int) =~= keybind_lines());
    rows
}

/// Draws the help menu centred on a terminal `term_width` by
/// `term_height` cells: the box sized from the entries and clamped to
/// the terminal, a divider per section, a row per entry.
pub fn draw(term_width: usize, term_height: usize, theme: &Theme, rounded: bool) -> (r: String)
    requires
        theme.wf(),
        term_width < usize::MAX / 2,
        term_height < usize::MAX / 2,
    ensures
        r@ == help_overlay(keybind_lines(), term_width as nat, term_height as nat, rounded,
            theme.color_spec(color_index(HI_FG) as int), theme.color_spec(color_index(TITLE) as int),
            theme.color_spec(color_index(MAIN_FG) as int), theme.color_spec(color_index(HELP_BOX) as int)),
{
    let rows = keybind_rows();
    proof {
        lemma_keybind_lines_printable();
    }
    render_lines(&rows, term_width, term_height, rounded, theme)
}

/// The box size the entries need: `(width, height)`.
pub fn dimensions() -> (r: (usize, usize))
    ensures
        r.0 == crate::overlay::help::help_width(keybind_lines()),
        r.1 == crate::overlay::help::help_height(keybind_lines()),
{
    let rows = keybind_rows();
    proof {
        lemma_keybind_lines_printable();
    }
    crate::overlay::help::dimensions(&rows)
}

} // verus!
