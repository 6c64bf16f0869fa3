pub mod settings;
pub mod theme;
