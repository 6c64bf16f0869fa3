pub mod cursor;
pub mod history;
pub mod syntax;
pub mod language;
pub mod rope;
pub mod document;
pub mod clipboard;
