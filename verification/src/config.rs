//! Compile-time limits shared by the domain types, and the typed
//! identifiers of the configuration options.

use vstd::prelude::*;

verus! {

/// Number of GPU device slots (`gpu0` .. `gpu7`).
pub const MAX_GPUS: usize = 8;

/// Boolean configuration options.
#[derive(Debug, Clone, Copy, PartialEq, Eq, Hash, Structural)]
pub enum BoolKey {
    BackgroundUpdate,
    Base10Sizes,
    CheckTemp,
    CpuAutoScale,
    CpuInvertLower,
    CpuSingleGraph,
    DiskIoMode,
    IoGraphCombined,
    IoMode,
    KeepDeadProcUsage,
    NetAuto,
    NetSync,
    ProcAggregate,
    ProcColors,
    ProcGradient,
    ProcMemBytes,
    ProcPerCore,
    ProcReversed,
    ProcTree,
    RoundedCorners,
    SaveConfigOnExit,
    ShowCoretemp,
    ShowCpuFreq,
    ShowCpuWatts,
    ShowIoStat,
    ShowStatusbar,
    ShowSwap,
    ShowUptime,
    StatusbarShowClock,
    StatusbarShowMenu,
    StatusbarShowPreset,
    StatusbarShowUpdateInterval,
    StatusbarShowUptime,
    SwapUploadDownload,
    TerminalSync,
    ThemeBackground,
    VimKeys,
}

/// Integer configuration options.
#[derive(Debug, Clone, Copy, PartialEq, Eq, Hash, Structural)]
pub enum IntKey {
    CpuUpdateMs,
    DiskUpdateMs,
    Gpu0UpdateMs,
    Gpu1UpdateMs,
    Gpu2UpdateMs,
    Gpu3UpdateMs,
    Gpu4UpdateMs,
    Gpu5UpdateMs,
    Gpu6UpdateMs,
    Gpu7UpdateMs,
    GpuUpdateMs,
    MemUpdateMs,
    NetDownload,
    NetUpdateMs,
    NetUpload,
    ProcUpdateMs,
    UpdateMs,
}

/// String configuration options.
#[derive(Debug, Clone, Copy, PartialEq, Eq, Hash, Structural)]
pub enum StringKey {
    ClockFormat,
    ColorTheme,
    CustomCpuName,
    CustomGpuName0,
    CustomGpuName1,
    CustomGpuName2,
    CustomGpuName3,
    CustomGpuName4,
    CustomGpuName5,
    CustomGpuName6,
    CustomGpuName7,
    CustomLayout,
    DiskFilter,
    DisksFilter,
    ProcFilter,
    StatusbarClockFormat,
}

/// Configuration options chosen from a fixed list.
#[derive(Debug, Clone, Copy, PartialEq, Eq, Hash, Structural)]
pub enum EnumKey {
    CpuGraphLower,
    CpuGraphUpper,
    GraphSymbol,
    GraphSymbolCpu,
    GraphSymbolDisk,
    GraphSymbolNet,
    LogLevel,
    ProcSorting,
    TempScale,
}

/// Any configuration option.
#[derive(Debug, Clone, Copy, PartialEq, Eq, Hash, Structural)]
pub enum ConfigKey {
    Bool(BoolKey),
    Int(IntKey),
    String(StringKey),
    Enum(EnumKey),
}

} // verus!
