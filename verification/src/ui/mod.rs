pub mod buffer;
pub mod buffer_view;
pub mod command_palette;
pub mod completion;
pub mod confirm_dialog;
pub mod csv_view;
pub mod editor;
pub mod project_search;
pub mod search_bar;
pub mod shortcuts_help;
pub mod sidebar;
pub mod status_bar;
pub mod tab_bar;
pub mod undo_chain;

pub use command::AppCommand;

mod command;
