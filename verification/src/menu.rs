//! What the numbers typed into the menus stand for.

pub mod main_menu;
pub mod settings_menu;
