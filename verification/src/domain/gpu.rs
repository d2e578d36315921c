//! GPU readings, and the fingerprint of what the GPU widget shows.

use std::collections::VecDeque;
use std::hash::{Hash, Hasher};
use vstd::prelude::*;

verus! {

/// GPU usage percentage histories.
#[derive(Debug, Clone)]
pub struct GpuPercent {
    pub utilization: VecDeque<i64>,
    pub vram: VecDeque<i64>,
    pub power: VecDeque<i64>,
}

impl Default for GpuPercent {
    fn default() -> (r: Self)
        ensures
            r.utilization@.len() == 0 && r.vram@.len() == 0 && r.power@.len() == 0,
    {
        GpuPercent { utilization: VecDeque::new(), vram: VecDeque::new(), power: VecDeque::new() }
    }
}

/// Readings of one GPU device.
#[derive(Debug, Clone)]
pub struct GpuInfo {
    /// Vendor-prefixed stable identifier (`"<VENDOR>:<UUID-or-fallback>"`).
    pub stable_id: String,
    /// Device name.
    pub name: String,
    /// Usage histories.
    pub gpu_percent: GpuPercent,
    /// Core clock in MHz.
    pub gpu_clock_speed: u32,
    /// Maximum core clock in MHz.
    pub gpu_max_clock_speed: u32,
    /// Power draw in milliwatts.
    pub pwr_usage: i64,
    /// Power limit in milliwatts.
    pub pwr_max_usage: i64,
    /// Temperature history in °C.
    pub temp: VecDeque<i64>,
    /// Total VRAM in bytes.
    pub mem_total: u64,
    /// Used VRAM in bytes.
    pub mem_used: u64,
    /// VRAM utilisation percentage history.
    pub mem_utilization_percent: VecDeque<i64>,
}

impl Default for GpuInfo {
    fn default() -> (r: Self)
        ensures
            r.stable_id@.len() == 0 && r.name@.len() == 0,
            r.gpu_percent.utilization@.len() == 0 && r.gpu_percent.vram@.len() == 0 && r.gpu_percent.power@.len() == 0,
            r.gpu_clock_speed == 0 && r.gpu_max_clock_speed == 0,
            r.pwr_usage == 0 && r.pwr_max_usage == 255_000,
            r.temp@ == seq![0i64],
            r.mem_total == 0 && r.mem_used == 0,
            r.mem_utilization_percent@ == seq![0i64],
    {
        let mut temp = VecDeque::new();
        temp.push_back(0i64);
        let mut mem_utilization_percent = VecDeque::new();
        mem_utilization_percent.push_back(0i64);
        GpuInfo {
            stable_id: String::new(),
            name: String::new(),
            gpu_percent: GpuPercent::default(),
            gpu_clock_speed: 0,
            gpu_max_clock_speed: 0,
            pwr_usage: 0,
            pwr_max_usage: 255_000,
            temp,
            mem_total: 0,
            mem_used: 0,
            mem_utilization_percent,
        }
    }
}

/// The newest sample of a history.
pub open spec fn latest(h: Seq<i64>) -> Option<i64> {
    if h.len() == 0 { None } else { Some(h.last()) }
}

/// What the GPU widget shows of a device: the name, the newest sample of
/// each history, and the scalar readings.
pub struct GpuDisplayed {
    pub name: Seq<char>,
    pub utilization: Option<i64>,
    pub vram: Option<i64>,
    pub power: Option<i64>,
    pub clock: u32,
    pub max_clock: u32,
    pub pwr_usage: i64,
    pub pwr_max_usage: i64,
    pub temp: Option<i64>,
    pub mem_total: u64,
    pub mem_used: u64,
    pub mem_utilization: Option<i64>,
}

pub open spec fn displayed(g: GpuInfo) -> GpuDisplayed {
    GpuDisplayed {
        name: g.name@,
        utilization: latest(g.gpu_percent.utilization@),
        vram: latest(g.gpu_percent.vram@),
        power: latest(g.gpu_percent.power@),
        clock: g.gpu_clock_speed,
        max_clock: g.gpu_max_clock_speed,
        pwr_usage: g.pwr_usage,
        pwr_max_usage: g.pwr_max_usage,
        temp: latest(g.temp@),
        mem_total: g.mem_total,
        mem_used: g.mem_used,
        mem_utilization: latest(g.mem_utilization_percent@),
    }
}

/// The hash std's `DefaultHasher` gives the displayed values, fed in the
/// order of [`GpuDisplayed`]'s fields.
pub uninterp spec fn default_hash_of_displayed(
    name: Seq<char>,
    samples: (Option<i64>, Option<i64>, Option<i64>, Option<i64>, Option<i64>),
    scalars: (u32, u32, i64, i64, u64, u64),
) -> u64;

pub open spec fn gpu_fingerprint(d: GpuDisplayed) -> u64 {
    default_hash_of_displayed(
        d.name,
        (d.utilization, d.vram, d.power, d.temp, d.mem_utilization),
        (d.clock, d.max_clock, d.pwr_usage, d.pwr_max_usage, d.mem_total, d.mem_used),
    )
}

/// Hashes the displayed values with a fresh `std::hash::DefaultHasher`.
///
/// Wraps `DefaultHasher::new`, `Hash::hash` and `Hasher::finish`. The
/// contract names the result: std guarantees that every `DefaultHasher`
/// made by `new` starts in the same state, so the same values give the
/// same hash; nothing is said of which hash.
#[verifier::external_body]
fn hash_displayed(
    name: &str,
    samples: (Option<i64>, Option<i64>, Option<i64>, Option<i64>, Option<i64>),
    scalars: (u32, u32, i64, i64, u64, u64),
) -> (r: u64)
    ensures
        r == default_hash_of_displayed(name@, samples, scalars),
{
    let mut h = std::hash::DefaultHasher::new();
    name.hash(&mut h);
    samples.0.hash(&mut h);
    samples.1.hash(&mut h);
    samples.2.hash(&mut h);
    scalars.0.hash(&mut h);
    scalars.1.hash(&mut h);
    scalars.2.hash(&mut h);
    scalars.3.hash(&mut h);
    samples.3.hash(&mut h);
    scalars.4.hash(&mut h);
    scalars.5.hash(&mut h);
    samples.4.hash(&mut h);
    h.finish()
}

fn latest_of(h: &VecDeque<i64>) -> (r: Option<i64>)
    ensures
        r == latest(h@),
{
    if h.len() > 0 {
        Some(h[h.len() - 1])
    } else {
        None
    }
}

impl GpuInfo {
    /// A hash of the values the GPU widget renders, used to skip redrawing
    /// devices whose display would not change. Only the newest sample of
    /// each history counts: two devices that show the same values hash
    /// the same, whatever their older history.
    pub fn render_fingerprint(&self) -> (r: u64)
        ensures
            r == gpu_fingerprint(displayed(*self)),
    {
        hash_displayed(
            self.name.as_str(),
            (
                latest_of(&self.gpu_percent.utilization),
                latest_of(&self.gpu_percent.vram),
                latest_of(&self.gpu_percent.power),
                latest_of(&self.temp),
                latest_of(&self.mem_utilization_percent),
            ),
            (
                self.gpu_clock_speed,
                self.gpu_max_clock_speed,
                self.pwr_usage,
                self.pwr_max_usage,
                self.mem_total,
                self.mem_used,
            ),
        )
    }
}

/// Devices that show the same values have the same fingerprint, however
/// their histories differ before the newest sample.
pub proof fn lemma_fingerprint_depends_on_display_only(a: GpuInfo, b: GpuInfo)
    requires
        displayed(a) == displayed(b),
    ensures
        gpu_fingerprint(displayed(a)) == gpu_fingerprint(displayed(b)),
{
}

} // verus!
