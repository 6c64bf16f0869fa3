pub mod actions;
pub mod handler;
pub mod keymap;
