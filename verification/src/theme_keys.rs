//! Typed indices of the theme's colours and gradients.

use vstd::prelude::*;

pub use self::ColorKey::MainBg as MAIN_BG;
pub use self::ColorKey::MainFg as MAIN_FG;
pub use self::ColorKey::Title as TITLE;
pub use self::ColorKey::HiFg as HI_FG;
pub use self::ColorKey::SelectedBg as SELECTED_BG;
pub use self::ColorKey::SelectedFg as SELECTED_FG;
pub use self::ColorKey::GraphText as GRAPH_TEXT;
pub use self::ColorKey::MeterBg as METER_BG;
pub use self::ColorKey::ProcTreeFg as PROC_TREE_FG;
pub use self::ColorKey::CpuWidget as CPU_WIDGET;
pub use self::ColorKey::MemWidget as MEM_WIDGET;
pub use self::ColorKey::NetWidget as NET_WIDGET;
pub use self::ColorKey::ProcWidget as PROC_WIDGET;
pub use self::ColorKey::GpuWidget as GPU_WIDGET;
pub use self::ColorKey::DiskWidget as DISK_WIDGET;
pub use self::ColorKey::HelpBox as HELP_BOX;
pub use self::ColorKey::OptionsBox as OPTIONS_BOX;
pub use self::ColorKey::FollowedBg as FOLLOWED_BG;
pub use self::ColorKey::FollowedFg as FOLLOWED_FG;
pub use self::GradientKey::CpuUpper as GRAD_CPU_UPPER;
pub use self::GradientKey::CpuLower as GRAD_CPU_LOWER;
pub use self::GradientKey::Used as GRAD_USED;
pub use self::GradientKey::Available as GRAD_AVAILABLE;
pub use self::GradientKey::Cached as GRAD_CACHED;
pub use self::GradientKey::Free as GRAD_FREE;
pub use self::GradientKey::Download as GRAD_DOWNLOAD;
pub use self::GradientKey::Upload as GRAD_UPLOAD;
pub use self::GradientKey::Gpu as GRAD_GPU;
pub use self::GradientKey::GpuClock as GRAD_GPU_CLOCK;
pub use self::GradientKey::GpuPower as GRAD_GPU_POWER;
pub use self::GradientKey::GpuVram as GRAD_GPU_VRAM;
pub use self::GradientKey::DiskRead as GRAD_DISK_READ;
pub use self::GradientKey::DiskWrite as GRAD_DISK_WRITE;
pub use self::GradientKey::DiskBusy as GRAD_DISK_BUSY;
pub use self::GradientKey::Temp as GRAD_TEMP;
pub use self::GradientKey::Process as GRAD_PROCESS;

verus! {

/// A theme colour, in palette order.
#[derive(Debug, Clone, Copy, PartialEq, Eq, Hash, Structural)]
pub enum ColorKey {
    MainBg,
    MainFg,
    Title,
    HiFg,
    SelectedBg,
    SelectedFg,
    GraphText,
    MeterBg,
    ProcTreeFg,
    CpuWidget,
    MemWidget,
    NetWidget,
    ProcWidget,
    GpuWidget,
    DiskWidget,
    HelpBox,
    OptionsBox,
    FollowedBg,
    FollowedFg,
}

/// A theme gradient, in palette order.
#[derive(Debug, Clone, Copy, PartialEq, Eq, Hash, Structural)]
pub enum GradientKey {
    CpuUpper,
    CpuLower,
    Used,
    Available,
    Cached,
    Free,
    Download,
    Upload,
    Gpu,
    GpuClock,
    GpuPower,
    GpuVram,
    DiskRead,
    DiskWrite,
    DiskBusy,
    Temp,
    Process,
}

/// Position of a colour in palette order.
pub open spec fn color_index(k: ColorKey) -> nat {
    match k {
        ColorKey::MainBg => 0,
        ColorKey::MainFg => 1,
        ColorKey::Title => 2,
        ColorKey::HiFg => 3,
        ColorKey::SelectedBg => 4,
        ColorKey::SelectedFg => 5,
        ColorKey::GraphText => 6,
        ColorKey::MeterBg => 7,
        ColorKey::ProcTreeFg => 8,
        ColorKey::CpuWidget => 9,
        ColorKey::MemWidget => 10,
        ColorKey::NetWidget => 11,
        ColorKey::ProcWidget => 12,
        ColorKey::GpuWidget => 13,
        ColorKey::DiskWidget => 14,
        ColorKey::HelpBox => 15,
        ColorKey::OptionsBox => 16,
        ColorKey::FollowedBg => 17,
        ColorKey::FollowedFg => 18,
    }
}

/// Position of a gradient in palette order.
pub open spec fn gradient_index(k: GradientKey) -> nat {
    match k {
        GradientKey::CpuUpper => 0,
        GradientKey::CpuLower => 1,
        GradientKey::Used => 2,
        GradientKey::Available => 3,
        GradientKey::Cached => 4,
        GradientKey::Free => 5,
        GradientKey::Download => 6,
        GradientKey::Upload => 7,
        GradientKey::Gpu => 8,
        GradientKey::GpuClock => 9,
        GradientKey::GpuPower => 10,
        GradientKey::GpuVram => 11,
        GradientKey::DiskRead => 12,
        GradientKey::DiskWrite => 13,
        GradientKey::DiskBusy => 14,
        GradientKey::Temp => 15,
        GradientKey::Process => 16,
    }
}

impl ColorKey {
    /// The colour's index in the theme's colour table.
    pub fn index(self) -> (r: usize)
        ensures
            r == color_index(self),
    {
        match self {
            ColorKey::MainBg => 0,
            ColorKey::MainFg => 1,
            ColorKey::Title => 2,
            ColorKey::HiFg => 3,
            ColorKey::SelectedBg => 4,
            ColorKey::SelectedFg => 5,
            ColorKey::GraphText => 6,
            ColorKey::MeterBg => 7,
            ColorKey::ProcTreeFg => 8,
            ColorKey::CpuWidget => 9,
            ColorKey::MemWidget => 10,
            ColorKey::NetWidget => 11,
            ColorKey::ProcWidget => 12,
            ColorKey::GpuWidget => 13,
            ColorKey::DiskWidget => 14,
            ColorKey::HelpBox => 15,
            ColorKey::OptionsBox => 16,
            ColorKey::FollowedBg => 17,
            ColorKey::FollowedFg => 18,
        }
    }
}

impl GradientKey {
    /// The gradient's index in the theme's gradient table.
    pub fn index(self) -> (r: usize)
        ensures
            r == gradient_index(self),
    {
        match self {
            GradientKey::CpuUpper => 0,
            GradientKey::CpuLower => 1,
            GradientKey::Used => 2,
            GradientKey::Available => 3,
            GradientKey::Cached => 4,
            GradientKey::Free => 5,
            GradientKey::Download => 6,
            GradientKey::Upload => 7,
            GradientKey::Gpu => 8,
            GradientKey::GpuClock => 9,
            GradientKey::GpuPower => 10,
            GradientKey::GpuVram => 11,
            GradientKey::DiskRead => 12,
            GradientKey::DiskWrite => 13,
            GradientKey::DiskBusy => 14,
            GradientKey::Temp => 15,
            GradientKey::Process => 16,
        }
    }
}

} // verus!
