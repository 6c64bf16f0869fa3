//! Application settings and their defaults.
use vstd::prelude::*;
use std::collections::HashMap;
use crate::config::theme::{Theme, default_theme};

verus! {

/// Configuration for a single LSP server.
#[derive(Debug, Clone, PartialEq, Eq)]
pub struct LspServerConfig {
    pub command: String,
    pub args: Vec<String>,
    pub extensions: Vec<String>,
    pub root_markers: Vec<String>,
}

/// Settings for the built-in LSP integration.
#[derive(Debug, Clone)]
pub struct LspSettings {
    pub auto_discover: bool,
    pub servers: HashMap<String, LspServerConfig>,
}

/// Top-level application settings, loaded from `~/.config/pika/config.toml`.
#[derive(Debug, Clone)]
pub struct Settings {
    pub theme: Theme,
    pub sidebar_width: u16,
    pub tab_size: usize,
    pub show_line_numbers: bool,
    pub word_wrap: bool,
    pub auto_save: bool,
    pub lsp: LspSettings,
}

/// The sidebar width used when the configuration does not give one.
pub fn default_sidebar_width() -> (r: u16)
    ensures
        r == 30,
{
    30
}

/// The tab size used when the configuration does not give one.
pub fn default_tab_size() -> (r: usize)
    ensures
        r == 4,
{
    4
}

/// Whether line numbers are shown when the configuration does not say.
pub fn default_show_line_numbers() -> (r: bool)
    ensures
        r,
{
    true
}

/// Whether language servers are discovered when the configuration does not say.
pub fn default_auto_discover() -> (r: bool)
    ensures
        r,
{
    true
}

impl Default for LspSettings {
    fn default() -> (s: Self)
        ensures
            s.auto_discover,
            s.servers@.len() == 0,
    {
        LspSettings { auto_discover: default_auto_discover(), servers: HashMap::new() }
    }
}

impl Default for Settings {
    fn default() -> (s: Self)
        ensures
            s.theme == default_theme(),
            s.sidebar_width == 30,
            s.tab_size == 4,
            s.show_line_numbers,
            !s.word_wrap,
            !s.auto_save,
            s.lsp.auto_discover,
            s.lsp.servers@.len() == 0,
    {
        Settings {
            theme: Theme::default(),
            sidebar_width: default_sidebar_width(),
            tab_size: default_tab_size(),
            show_line_numbers: default_show_line_numbers(),
            word_wrap: false,
            auto_save: false,
            lsp: LspSettings::default(),
        }
    }
}

} // verus!
