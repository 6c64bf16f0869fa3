//! Tab bar state: which tabs are open and which one is active.
use vstd::prelude::*;

verus! {

#[derive(Debug, Clone)]
pub struct TabInfo {
    pub name: String,
    pub modified: bool,
}

/// Tab bar state — tracks which tabs are open and which is active.
pub struct TabBar {
    pub tabs: Vec<TabInfo>,
    pub active: usize,
}

impl TabBar {
    /// The active index points at a tab, or there are no tabs.
    pub open spec fn well_formed(&self) -> bool {
        self.tabs.len() == 0 || self.active < self.tabs.len()
    }

    pub fn new() -> (t: Self)
        ensures
            t.tabs.len() == 0,
            t.active == 0,
            t.well_formed(),
    {
        TabBar { tabs: Vec::new(), active: 0 }
    }

    /// Append a tab and make it the active one.
    pub fn add_tab(&mut self, name: String, modified: bool)
        ensures
            final(self).tabs@ == old(self).tabs@.push(TabInfo { name, modified }),
            final(self).active == old(self).tabs.len(),
            final(self).well_formed(),
    {
        self.tabs.push(TabInfo { name, modified });
        self.active = self.tabs.len() - 1;
    }

    /// Remove the tab at `index`, returning it. The active index is clamped
    /// to the last tab when it falls off the end.
    pub fn close_tab(&mut self, index: usize) -> (r: Option<TabInfo>)
        ensures
            index >= old(self).tabs.len() ==> r is None && *final(self) == *old(self),
            index < old(self).tabs.len() ==> {
                &&& r == Some(old(self).tabs@[index as int])
                &&& final(self).tabs@ == old(self).tabs@.remove(index as int)
                &&& final(self).active == if old(self).active >= final(self).tabs.len()
                    && final(self).tabs.len() > 0 {
                    (final(self).tabs.len() - 1) as usize
                } else {
                    old(self).active
                }
            },
            old(self).well_formed() ==> final(self).well_formed(),
    {
        if index >= self.tabs.len() {
            return None;
        }
        let tab = self.tabs.remove(index);
        if self.active >= self.tabs.len() && self.tabs.len() > 0 {
            self.active = self.tabs.len() - 1;
        }
        Some(tab)
    }

    /// Activate the next tab, wrapping around.
    pub fn next_tab(&mut self)
        ensures
            final(self).tabs@ == old(self).tabs@,
            final(self).active == if old(self).tabs.len() == 0 {
                old(self).active as int
            } else {
                (old(self).active + 1) % (old(self).tabs.len() as int)
            },
            final(self).well_formed(),
    {
        if self.tabs.len() > 0 {
            self.active = ((self.active as u128 + 1) % (self.tabs.len() as u128)) as usize;
        }
    }

    /// Activate the previous tab, wrapping around.
    pub fn previous_tab(&mut self)
        ensures
            final(self).tabs@ == old(self).tabs@,
            final(self).active == if old(self).tabs.len() == 0 {
                old(self).active as int
            } else if old(self).active == 0 {
                old(self).tabs.len() - 1
            } else {
                old(self).active - 1
            },
            old(self).well_formed() ==> final(self).well_formed(),
    {
        if self.tabs.len() > 0 {
            self.active = if self.active == 0 {
                self.tabs.len() - 1
            } else {
                self.active - 1
            };
        }
    }

    /// Activate the tab at `index` if there is one.
    pub fn set_active(&mut self, index: usize)
        ensures
            final(self).tabs == old(self).tabs,
            final(self).active == if index < old(self).tabs.len() { index } else { old(self).active },
            old(self).well_formed() ==> final(self).well_formed(),
    {
        if index < self.tabs.len() {
            self.active = index;
        }
    }

    /// Set the name and modified flag of the tab at `index`, if there is one.
    pub fn update_tab(&mut self, index: usize, name: String, modified: bool)
        ensures
            final(self).active == old(self).active,
            index < old(self).tabs.len() ==> final(self).tabs@ == old(self).tabs@.update(
                index as int,
                TabInfo { name, modified },
            ),
            index >= old(self).tabs.len() ==> final(self).tabs@ == old(self).tabs@,
    {
        if index < self.tabs.len() {
            self.tabs.set(index, TabInfo { name, modified });
        }
    }

    /// The index of the first tab whose name is `name`.
    pub fn find_tab(&self, name: &str) -> (r: Option<usize>)
        ensures
            match r {
                Some(i) => i < self.tabs.len() && self.tabs@[i as int].name@ == name@
                    && forall|j: int| 0 <= j < i ==> self.tabs@[j].name@ != name@,
                None => forall|j: int| 0 <= j < self.tabs.len() ==> self.tabs@[j].name@ != name@,
            },
    {
        let target = name.to_owned();
        let mut i: usize = 0;
        while i < self.tabs.len()
            invariant
                i <= self.tabs.len(),
                target@ == name@,
                forall|j: int| 0 <= j < i ==> self.tabs@[j].name@ != name@,
            decreases self.tabs.len() - i,
        {
            if self.tabs[i].name == target {
                return Some(i);
            }
            i += 1;
        }
        None
    }

    pub fn is_empty(&self) -> (r: bool)
        ensures
            r == (self.tabs.len() == 0),
    {
        self.tabs.len() == 0
    }

    pub fn len(&self) -> (r: usize)
        ensures
            r == self.tabs.len(),
    {
        self.tabs.len()
    }
}

} // verus!
