//! A theme ready for rendering: the palette's colours as escape codes
//! and each gradient expanded to 101 steps (0..=100 %).

use vstd::prelude::*;

use crate::text::{push_str, replace_all, replaced, to_owned_string};
use crate::theme_keys::{color_index, gradient_index, ColorKey, GradientKey};
use crate::overlay::options::render::{ascii_lower, lower};
use crate::themes::{fg_escape, rgb_to_fg_escape, GradientDef, Rgb, ThemePalette};

verus! {

/// Number of theme colours.
pub const COLOR_COUNT: usize = 25;
/// Number of theme gradients.
pub const GRADIENT_COUNT: usize = 17;

/// The palette's colours, in key order.
pub open spec fn palette_rgbs(p: ThemePalette) -> Seq<Rgb> {
    let c = p.colors;
    seq![
        c.main_bg, c.main_fg, c.title, c.hi_fg, c.selected_bg, c.selected_fg, c.graph_text,
        c.meter_bg, c.proc_tree_fg, c.cpu_widget, c.mem_widget, c.net_widget, c.proc_widget,
        c.gpu_widget, c.disk_widget, c.help_box, c.options_box, c.followed_bg, c.followed_fg,
        c.dead_proc_fg, c.statusbar_bg, c.statusbar_fg, c.statusbar_hi, c.statusbar_sep,
        c.data_label_fg,
    ]
}

/// The palette's gradients, in key order.
pub open spec fn palette_gradients(p: ThemePalette) -> Seq<GradientDef> {
    let g = p.gradients;
    seq![
        g.cpu_upper, g.cpu_lower, g.used, g.available, g.cached, g.free, g.download, g.upload,
        g.gpu, g.gpu_clock, g.gpu_power, g.gpu_vram, g.disk_read, g.disk_write, g.disk_busy,
        g.temp, g.process,
    ]
}

/// Step `step` of `total` from `start` to `end`, the offset rounded toward
/// zero and the result kept within 0..=255.
pub open spec fn interpolate_spec(start: u8, end: u8, step: nat, total: nat) -> u8 {
    if total == 0 {
        start
    } else {
        let v: int = if end >= start {
            start + (step * ((end - start) as nat)) / total
        } else {
            start - (step * ((start - end) as nat)) / total
        };
        (if v < 0 { 0 } else if v > 255 { 255 } else { v }) as u8
    }
}

pub open spec fn mix(a: Rgb, b: Rgb, step: nat, total: nat) -> Seq<char> {
    fg_escape(
        interpolate_spec(a.0, b.0, step, total),
        interpolate_spec(a.1, b.1, step, total),
        interpolate_spec(a.2, b.2, step, total),
    )
}

/// Step `k` of a 101-step gradient: a single colour when there is no end,
/// a straight blend to the end when there is no middle, otherwise a blend
/// to the middle over the first half and on to the end over the second.
pub open spec fn gradient_step(start: Rgb, mid: Option<Rgb>, end: Option<Rgb>, k: nat) -> Seq<char> {
    match (mid, end) {
        (_, None) => fg_escape(start.0, start.1, start.2),
        (None, Some(e)) => mix(start, e, k, 100),
        (Some(m), Some(e)) => if k <= 50 { mix(start, m, k, 50) } else { mix(m, e, (k - 50) as nat, 50) },
    }
}

pub open spec fn gradient_ok(g: Seq<String>, start: Rgb, mid: Option<Rgb>, end: Option<Rgb>) -> bool {
    &&& g.len() == 101
    &&& forall|k: int| 0 <= k < 101 ==> #[trigger] g[k]@ == gradient_step(start, mid, end, k as nat)
}

/// One channel of step `step` of `total` between `start` and `end`.
pub fn interpolate(start: u8, end: u8, step: usize, total: usize) -> (r: u8)
    requires
        step <= total,
    ensures
        r == interpolate_spec(start, end, step as nat, total as nat),
{
    if total == 0 {
        return start;
    }
    if end >= start {
        let d = (end - start) as u128;
        assert((step as u128) * d <= (total as u128) * 255) by (nonlinear_arith)
            requires step <= total, d <= 255;
        assert((total as u128) * 255 <= 0xffff_ffff_ffff_ffffu128 * 255) by (nonlinear_arith)
            requires total <= 0xffff_ffff_ffff_ffffu128;
        let prod = (step as u128) * d;
        let t = total as u128;
        let off = prod / t;
        assert(off <= d) by (nonlinear_arith)
            requires off == prod / t, prod == (step as int) * d, step <= t, t > 0, t == total;
        (start as u128 + off) as u8
    } else {
        let d = (start - end) as u128;
        assert((step as u128) * d <= (total as u128) * 255) by (nonlinear_arith)
            requires step <= total, d <= 255;
        assert((total as u128) * 255 <= 0xffff_ffff_ffff_ffffu128 * 255) by (nonlinear_arith)
            requires total <= 0xffff_ffff_ffff_ffffu128;
        let prod = (step as u128) * d;
        let t = total as u128;
        let off = prod / t;
        assert(off <= d) by (nonlinear_arith)
            requires off == prod / t, prod == (step as int) * d, step <= t, t > 0, t == total;
        (start as u128 - off) as u8
    }
}

fn mix_escape(a: Rgb, b: Rgb, step: usize, total: usize) -> (r: String)
    requires
        step <= total,
    ensures
        r@ == mix(a, b, step as nat, total as nat),
{
    rgb_to_fg_escape(interpolate(a.0, b.0, step, total), interpolate(a.1, b.1, step, total), interpolate(a.2, b.2, step, total))
}

/// A 101-step gradient from `start`, through `mid`, to `end`.
pub fn generate_gradient(start: Rgb, mid: Option<Rgb>, end: Option<Rgb>) -> (r: Vec<String>)
    ensures
        gradient_ok(r@, start, mid, end),
{
    let mut result: Vec<String> = Vec::new();
    let mut k: usize = 0;
    while k <= 100
        invariant
            k <= 101,
            result@.len() == k,
            forall|j: int| 0 <= j < k ==> #[trigger] result@[j]@ == gradient_step(start, mid, end, j as nat),
        decreases 101 - k,
    {
        let s = match (mid, end) {
            (_, None) => rgb_to_fg_escape(start.0, start.1, start.2),
            (None, Some(e)) => mix_escape(start, e, k, 100),
            (Some(m), Some(e)) => if k <= 50 { mix_escape(start, m, k, 50) } else { mix_escape(m, e, k - 50, 50) },
        };
        result.push(s);
        k = k + 1;
    }
    result
}

/// A theme's colours as escape codes, its raw colours, and its gradients.
/// Whether two theme names are equal when ASCII letters are compared
/// without regard to case.
pub open spec fn names_match(a: Seq<char>, b: Seq<char>) -> bool {
    &&& a.len() == b.len()
    &&& forall|i: int| 0 <= i < a.len() ==> #[trigger] ascii_lower(a[i]) == ascii_lower(b[i])
}

/// Whether two names match, as [`names_match`].
fn name_matches(a: &str, b: &str) -> (r: bool)
    ensures
        r == names_match(a@, b@),
{
    let n = a.unicode_len();
    if n != b.unicode_len() {
        return false;
    }
    let mut i: usize = 0;
    while i < n
        invariant
            i <= n,
            n == a@.len(),
            n == b@.len(),
            forall|j: int| 0 <= j < i ==> #[trigger] ascii_lower(a@[j]) == ascii_lower(b@[j]),
        decreases n - i,
    {
        if lower(a.get_char(i)) != lower(b.get_char(i)) {
            return false;
        }
        i = i + 1;
    }
    true
}

/// The theme chosen for `name` from a list of theme names: the first one
/// equal to it regardless of ASCII case, or the first of the list when
/// none is.
pub fn theme_index(names: &[&str], name: &str) -> (r: usize)
    requires
        names@.len() > 0,
    ensures
        r < names@.len(),
        (exists|i: int| 0 <= i < names@.len() && names_match(names@[i]@, name@)) ==> {
            &&& names_match(names@[r as int]@, name@)
            &&& forall|j: int| 0 <= j < r ==> !names_match(#[trigger] names@[j]@, name@)
        },
        (forall|i: int| 0 <= i < names@.len() ==> !names_match(#[trigger] names@[i]@, name@)) ==> r == 0,
{
    let mut i: usize = 0;
    while i < names.len()
        invariant
            i <= names@.len(),
            forall|j: int| 0 <= j < i ==> !names_match(#[trigger] names@[j]@, name@),
        decreases names@.len() - i,
    {
        if name_matches(names[i], name) {
            return i;
        }
        i = i + 1;
    }
    0
}

#[derive(Debug, Clone)]
pub struct Theme {
    colors: Vec<String>,
    rgbs: Vec<Rgb>,
    gradients: Vec<Vec<String>>,
}

impl Theme {
    /// The raw colours, in key order.
    pub closed spec fn rgbs_spec(&self) -> Seq<Rgb> {
        self.rgbs@
    }

    /// The colour escape of key index `i`.
    pub closed spec fn color_spec(&self, i: int) -> Seq<char> {
        self.colors@[i]@
    }

    /// Step `k` of gradient index `i`.
    pub closed spec fn gradient_spec(&self, i: int) -> Seq<String> {
        self.gradients@[i]@
    }

    /// Colour escapes and gradients follow the raw palette.
    pub closed spec fn wf(&self) -> bool {
        &&& self.colors@.len() == COLOR_COUNT
        &&& self.rgbs@.len() == COLOR_COUNT
        &&& self.gradients@.len() == GRADIENT_COUNT
        &&& forall|i: int| 0 <= i < COLOR_COUNT ==> (#[trigger] self.colors@[i])@ == fg_escape(self.rgbs@[i].0, self.rgbs@[i].1, self.rgbs@[i].2)
        &&& forall|i: int| 0 <= i < GRADIENT_COUNT ==> (#[trigger] self.gradients@[i])@.len() == 101
    }

    /// The theme of a palette: every colour as a foreground escape, every
    /// gradient expanded from its three stops.
    pub fn from_palette(palette: &ThemePalette) -> (r: Theme)
        ensures
            theme_of(r, *palette),
            r.wf(),
            r.rgbs_spec() == palette_rgbs(*palette),
            forall|i: int| 0 <= i < GRADIENT_COUNT ==> gradient_ok(
                #[trigger] r.gradient_spec(i),
                palette_gradients(*palette)[i].start,
                Some(palette_gradients(*palette)[i].mid),
                Some(palette_gradients(*palette)[i].end),
            ),
    {
        let c = &palette.colors;
        let rgbs: Vec<Rgb> = vec![
            c.main_bg, c.main_fg, c.title, c.hi_fg, c.selected_bg, c.selected_fg, c.graph_text,
            c.meter_bg, c.proc_tree_fg, c.cpu_widget, c.mem_widget, c.net_widget, c.proc_widget,
            c.gpu_widget, c.disk_widget, c.help_box, c.options_box, c.followed_bg, c.followed_fg,
            c.dead_proc_fg, c.statusbar_bg, c.statusbar_fg, c.statusbar_hi, c.statusbar_sep,
            c.data_label_fg,
        ];
        assert(rgbs@ =~= palette_rgbs(*palette));
        let mut colors: Vec<String> = Vec::new();
        let mut i: usize = 0;
        while i < rgbs.len()
            invariant
                i <= rgbs.len(),
                rgbs@.len() == COLOR_COUNT,
                colors@.len() == i,
                forall|j: int| 0 <= j < i ==> (#[trigger] colors@[j])@ == fg_escape(rgbs@[j].0, rgbs@[j].1, rgbs@[j].2),
            decreases rgbs.len() - i,
        {
            colors.push(rgbs[i].to_fg_escape());
            i = i + 1;
        }
        let g = &palette.gradients;
        let defs: Vec<GradientDef> = vec![
            g.cpu_upper, g.cpu_lower, g.used, g.available, g.cached, g.free, g.download, g.upload,
            g.gpu, g.gpu_clock, g.gpu_power, g.gpu_vram, g.disk_read, g.disk_write, g.disk_busy,
            g.temp, g.process,
        ];
        assert(defs@ =~= palette_gradients(*palette));
        let mut gradients: Vec<Vec<String>> = Vec::new();
        let mut i: usize = 0;
        while i < defs.len()
            invariant
                i <= defs.len(),
                defs@ == palette_gradients(*palette),
                defs@.len() == GRADIENT_COUNT,
                gradients@.len() == i,
                forall|j: int| 0 <= j < i ==> gradient_ok(#[trigger] gradients@[j]@, defs@[j].start, Some(defs@[j].mid), Some(defs@[j].end)),
            decreases defs.len() - i,
        {
            let d = defs[i];
            gradients.push(generate_gradient(d.start, Some(d.mid), Some(d.end)));
            i = i + 1;
        }
        Theme { colors, rgbs, gradients }
    }

    /// The escape code of a colour.
    pub fn color(&self, key: ColorKey) -> (r: &str)
        requires
            self.wf(),
        ensures
            r@ == self.color_spec(color_index(key) as int),
            r@ == fg_escape(self.rgbs_spec()[color_index(key) as int].0, self.rgbs_spec()[color_index(key) as int].1, self.rgbs_spec()[color_index(key) as int].2),
    {
        let i = key.index();
        self.colors[i].as_str()
    }

    /// The background escape of a colour: its foreground escape with
    /// `38;2` replaced by `48;2`.
    pub fn background(&self, key: ColorKey) -> (r: String)
        requires
            self.wf(),
        ensures
            r@ == replaced(self.color_spec(color_index(key) as int), seq!['3', '8', ';', '2'], seq!['4', '8', ';', '2']),
    {
        proof {
            reveal_strlit("38;2");
            reveal_strlit("48;2");
            assert("38;2"@ =~= seq!['3', '8', ';', '2']);
            assert("48;2"@ =~= seq!['4', '8', ';', '2']);
        }
        replace_all(self.color(key), "38;2", "48;2")
    }

    /// The raw channels of a colour.
    pub fn rgb(&self, key: ColorKey) -> (r: [u8; 3])
        requires
            self.wf(),
        ensures
            r@ == seq![
                self.rgbs_spec()[color_index(key) as int].0,
                self.rgbs_spec()[color_index(key) as int].1,
                self.rgbs_spec()[color_index(key) as int].2,
            ],
    {
        let c = self.rgbs[key.index()];
        [c.0, c.1, c.2]
    }

    /// The base style of normal text: the main foreground, then the main
    /// background when the theme background is on, else the terminal's
    /// default background (`ESC [ 49 m`).
    pub fn base_style(&self, theme_background: bool) -> (r: String)
        requires
            self.wf(),
        ensures
            r@ == self.color_spec(1) + (if theme_background {
                replaced(self.color_spec(0), seq!['3', '8', ';', '2'], seq!['4', '8', ';', '2'])
            } else {
                seq!['\x1b', '[', '4', '9', 'm']
            }),
    {
        let mut s = to_owned_string(self.color(crate::theme_keys::MAIN_FG));
        if theme_background {
            let bg = self.background(crate::theme_keys::MAIN_BG);
            push_str(&mut s, bg.as_str());
        } else {
            proof { reveal_strlit("\x1b[49m"); }
            push_str(&mut s, "\x1b[49m");
        }
        s
    }

    /// `output` preceded by the base style, with every full reset
    /// (`ESC [ 0 m`) followed by the base style again.
    pub fn style_output(&self, output: &str, theme_background: bool) -> (r: String)
        requires
            self.wf(),
        ensures
            ({
                let base = self.color_spec(1) + (if theme_background {
                    replaced(self.color_spec(0), seq!['3', '8', ';', '2'], seq!['4', '8', ';', '2'])
                } else {
                    seq!['\x1b', '[', '4', '9', 'm']
                });
                r@ == base + replaced(output@, seq!['\x1b', '[', '0', 'm'], seq!['\x1b', '[', '0', 'm'] + base)
            }),
    {
        let base = self.base_style(theme_background);
        let mut reset = String::new();
        proof {
            reveal_strlit("\x1b[0m");
            assert("\x1b[0m"@ =~= seq!['\x1b', '[', '0', 'm']);
        }
        push_str(&mut reset, "\x1b[0m");
        push_str(&mut reset, base.as_str());
        let body = replace_all(output, "\x1b[0m", reset.as_str());
        let mut r = base;
        push_str(&mut r, body.as_str());
        r
    }

    /// A gradient's 101 steps.
    pub fn gradient(&self, key: GradientKey) -> (r: &[String])
        requires
            self.wf(),
        ensures
            r@ == self.gradient_spec(gradient_index(key) as int),
            r@.len() == 101,
    {
        self.gradients[key.index()].as_slice()
    }
}

/// The step of a gradient at `pct` percent, clamped to 0..=100.
pub fn gradient_color(gradient: &[String], pct: i32) -> (r: &str)
    requires
        gradient@.len() > (if pct < 0 { 0 } else if pct > 100 { 100 } else { pct as int }),
    ensures
        r@ == gradient@[if pct < 0 { 0 } else if pct > 100 { 100 } else { pct as int }]@,
{
    let i: usize = if pct < 0 { 0 } else if pct > 100 { 100 } else { pct as usize };
    gradient[i].as_str()
}

/// Whether `t` is the theme of palette `p`: its colours are `p`'s, each
/// as a foreground escape, and each gradient expands its three stops.
pub open spec fn theme_of(t: Theme, p: ThemePalette) -> bool {
    &&& t.wf()
    &&& t.rgbs_spec() == palette_rgbs(p)
    &&& forall|i: int| 0 <= i < GRADIENT_COUNT ==> gradient_ok(
        #[trigger] t.gradient_spec(i),
        palette_gradients(p)[i].start,
        Some(palette_gradients(p)[i].mid),
        Some(palette_gradients(p)[i].end),
    )
}

proof fn lemma_interpolate_ends(a: u8, b: u8, t: nat)
    requires
        t > 0,
    ensures
        interpolate_spec(a, b, 0, t) == a,
        interpolate_spec(a, b, t, t) == b,
{
    let d: nat = if b >= a { (b - a) as nat } else { (a - b) as nat };
    assert((0 * d) / t == 0) by (nonlinear_arith)
        requires t > 0;
    assert((t * d) / t == d) by (nonlinear_arith)
        requires t > 0;
}

proof fn lemma_mix_ends(a: Rgb, b: Rgb, t: nat)
    requires
        t > 0,
    ensures
        mix(a, b, 0, t) == fg_escape(a.0, a.1, a.2),
        mix(a, b, t, t) == fg_escape(b.0, b.1, b.2),
{
    lemma_interpolate_ends(a.0, b.0, t);
    lemma_interpolate_ends(a.1, b.1, t);
    lemma_interpolate_ends(a.2, b.2, t);
}

/// The theme of a palette shows each palette colour as its foreground
/// escape, and each of its gradients has 101 steps that start at the
/// gradient's first stop, pass its middle stop at step 50 and end at its
/// last stop.
pub proof fn lemma_palette_theme(t: Theme, p: ThemePalette)
    requires
        theme_of(t, p),
    ensures
        forall|i: int| 0 <= i < COLOR_COUNT ==> #[trigger] t.color_spec(i) == fg_escape(
            palette_rgbs(p)[i].0,
            palette_rgbs(p)[i].1,
            palette_rgbs(p)[i].2,
        ),
        forall|j: int| 0 <= j < GRADIENT_COUNT ==> {
            let g = #[trigger] t.gradient_spec(j);
            let d = palette_gradients(p)[j];
            &&& g.len() == 101
            &&& g[0]@ == fg_escape(d.start.0, d.start.1, d.start.2)
            &&& g[50]@ == fg_escape(d.mid.0, d.mid.1, d.mid.2)
            &&& g[100]@ == fg_escape(d.end.0, d.end.1, d.end.2)
        },
{
    assert forall|i: int| 0 <= i < COLOR_COUNT implies #[trigger] t.color_spec(i) == fg_escape(
        palette_rgbs(p)[i].0,
        palette_rgbs(p)[i].1,
        palette_rgbs(p)[i].2,
    ) by {
        t.lemma_color_spec_wf(i);
    }
    assert forall|j: int| 0 <= j < GRADIENT_COUNT implies {
        let g = #[trigger] t.gradient_spec(j);
        let d = palette_gradients(p)[j];
        &&& g.len() == 101
        &&& g[0]@ == fg_escape(d.start.0, d.start.1, d.start.2)
        &&& g[50]@ == fg_escape(d.mid.0, d.mid.1, d.mid.2)
        &&& g[100]@ == fg_escape(d.end.0, d.end.1, d.end.2)
    } by {
        let g = t.gradient_spec(j);
        let d = palette_gradients(p)[j];
        assert(gradient_ok(g, d.start, Some(d.mid), Some(d.end)));
        lemma_mix_ends(d.start, d.mid, 50);
        lemma_mix_ends(d.mid, d.end, 50);
        assert(g[0]@ == gradient_step(d.start, Some(d.mid), Some(d.end), 0));
        assert(g[50]@ == gradient_step(d.start, Some(d.mid), Some(d.end), 50));
        assert(g[100]@ == gradient_step(d.start, Some(d.mid), Some(d.end), 100));
    }
}

impl Theme {
    /// Under `wf`, colour `i` is the foreground escape of raw colour `i`.
    pub proof fn lemma_color_spec_wf(&self, i: int)
        requires
            self.wf(),
            0 <= i < COLOR_COUNT,
        ensures
            self.color_spec(i) == fg_escape(self.rgbs_spec()[i].0, self.rgbs_spec()[i].1, self.rgbs_spec()[i].2),
    {
    }
}

} // verus!
