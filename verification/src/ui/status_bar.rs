//! The information the status bar shows.
use vstd::prelude::*;

verus! {

/// Information displayed in the status bar.
#[derive(Debug, Clone)]
pub struct StatusInfo {
    pub file_name: String,
    pub language: String,
    pub encoding: String,
    pub line_ending: String,
    pub cursor_line: usize,
    pub cursor_col: usize,
    pub total_lines: usize,
    pub modified: bool,
    pub lsp_status: Option<String>,
}

impl Default for StatusInfo {
    fn default() -> (s: Self)
        ensures
            s.file_name@.len() == 0,
            s.language@.len() == 0,
            s.encoding@.len() == 0,
            s.line_ending@.len() == 0,
            s.cursor_line == 0,
            s.cursor_col == 0,
            s.total_lines == 0,
            !s.modified,
            s.lsp_status is None,
    {
        StatusInfo {
            file_name: String::new(),
            language: String::new(),
            encoding: String::new(),
            line_ending: String::new(),
            cursor_line: 0,
            cursor_col: 0,
            total_lines: 0,
            modified: false,
            lsp_status: None,
        }
    }
}

/// The status bar at the bottom of the editor.
pub struct StatusBar;

} // verus!
