pub mod help_menu;
pub mod main_menu;
pub mod msg_box;
pub mod priority_menu;
