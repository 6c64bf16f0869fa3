//! The go-to-line and in-file search bars of a buffer.
use vstd::prelude::*;

verus! {

/// Go-to-line input bar state.
pub struct GotoLineBar {
    pub active: bool,
    pub input: String,
}

impl GotoLineBar {
    pub fn new() -> (g: Self)
        ensures
            !g.active,
            g.input@.len() == 0,
    {
        GotoLineBar { active: false, input: String::new() }
    }

    pub fn activate(&mut self)
        ensures
            final(self).active,
            final(self).input@.len() == 0,
    {
        self.active = true;
        self.input = String::new();
    }

    pub fn dismiss(&mut self)
        ensures
            !final(self).active,
            final(self).input@.len() == 0,
    {
        self.active = false;
        self.input = String::new();
    }
}

/// In-file search state: query, all match positions, and current highlighted match.
pub struct SearchBar {
    pub active: bool,
    pub query: String,
    /// (line, char_col) in document coordinates
    pub matches: Vec<(usize, usize)>,
    pub current: usize,
    pub replace_mode: bool,
    pub replace_query: String,
    pub replace_field_focused: bool,
}

impl SearchBar {
    pub fn new() -> (s: Self)
        ensures
            !s.active,
            s.query@.len() == 0,
            s.matches.len() == 0,
            s.current == 0,
            !s.replace_mode,
            s.replace_query@.len() == 0,
            !s.replace_field_focused,
    {
        SearchBar {
            active: false,
            query: String::new(),
            matches: Vec::new(),
            current: 0,
            replace_mode: false,
            replace_query: String::new(),
            replace_field_focused: false,
        }
    }

    /// Open the bar for searching with an empty query.
    pub fn activate(&mut self)
        ensures
            final(self).active,
            !final(self).replace_mode,
            !final(self).replace_field_focused,
            final(self).query@.len() == 0,
            final(self).matches.len() == 0,
            final(self).current == 0,
            final(self).replace_query == old(self).replace_query,
    {
        self.active = true;
        self.replace_mode = false;
        self.replace_field_focused = false;
        self.query = String::new();
        self.matches.clear();
        self.current = 0;
    }

    /// Open the bar for search and replace with both fields empty.
    pub fn activate_replace(&mut self)
        ensures
            final(self).active,
            final(self).replace_mode,
            !final(self).replace_field_focused,
            final(self).query@.len() == 0,
            final(self).replace_query@.len() == 0,
            final(self).matches.len() == 0,
            final(self).current == 0,
    {
        self.active = true;
        self.replace_mode = true;
        self.replace_field_focused = false;
        self.query = String::new();
        self.replace_query = String::new();
        self.matches.clear();
        self.current = 0;
    }

    /// Close the bar; the query and matches stay.
    pub fn dismiss(&mut self)
        ensures
            !final(self).active,
            !final(self).replace_mode,
            !final(self).replace_field_focused,
            final(self).query == old(self).query,
            final(self).matches == old(self).matches,
            final(self).current == old(self).current,
            final(self).replace_query == old(self).replace_query,
    {
        self.active = false;
        self.replace_mode = false;
        self.replace_field_focused = false;
    }

    /// The highlighted match, if there are matches.
    pub fn current_match(&self) -> (r: Option<(usize, usize)>)
        requires
            self.matches.len() > 0 ==> self.current < self.matches.len(),
        ensures
            self.matches.len() == 0 ==> r is None,
            self.matches.len() > 0 ==> r == Some(self.matches@[self.current as int]),
    {
        if self.matches.len() == 0 {
            None
        } else {
            Some(self.matches[self.current])
        }
    }
}

} // verus!
