pub mod config;
pub mod domain;
pub mod draw;
pub mod event;
pub mod handlers;
pub mod input;
pub mod menu;
pub mod overlay;
pub mod term;
pub mod text;
pub mod theme;
pub mod theme_keys;
pub mod tools;
pub mod themes;
