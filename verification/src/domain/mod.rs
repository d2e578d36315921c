pub mod layout_spec;
pub mod widget_kind;
pub mod widget_set;
pub mod box_kind;
pub mod config_enums;
pub mod preset;
pub mod disk;
pub mod cpu;
pub mod gpu;
pub mod memory;
pub mod network;
pub mod process;
