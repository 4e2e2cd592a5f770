//! The routing-mode submodel ("General"): a cyclable cursor over the three
//! fixed routing modes, plus the mode the server last reported.
//!
//! The cursor and the reported mode are independent: browsing the options
//! never touches the server, and a fetch never moves the cursor.

use vstd::prelude::*;
use vstd::string::StringExecFns;
use crate::cycle::cycle_next;
use crate::cycle::cycle_previous;

verus! {

/// The server's reported configuration: its current routing mode.
pub struct Config {
    pub mode: String,
}

/// The mode-selection submodel.
pub struct GeneralState {
    /// The fixed option list: `global`, `rule`, `direct`.
    pub modes: Vec<String>,
    /// Cursor over the option list.
    pub index: usize,
    /// What the server last reported; absent while no fetch has succeeded.
    pub config: Option<Config>,
}

impl GeneralState {
    /// The option list holds the three routing modes in their fixed order,
    /// and the cursor is in bounds.
    pub open spec fn wf(&self) -> bool {
        &&& self.modes@.len() == 3
        &&& self.modes@[0]@ == "global"@
        &&& self.modes@[1]@ == "rule"@
        &&& self.modes@[2]@ == "direct"@
        &&& self.index < 3
    }

    /// The state after the cursor moves forward.
    pub open spec fn after_next_mode(self) -> GeneralState {
        GeneralState {
            modes: self.modes,
            index: cycle_next(self.index as nat, 3) as usize,
            config: self.config,
        }
    }

    /// The state after the cursor moves back.
    pub open spec fn after_previous_mode(self) -> GeneralState {
        GeneralState {
            modes: self.modes,
            index: cycle_previous(self.index as nat, 3) as usize,
            config: self.config,
        }
    }

    /// A fresh submodel: cursor at the head, nothing fetched yet.
    pub fn new() -> (r: Self)
        ensures
            r.wf(),
            r.index == 0,
            r.config is None,
    {
        let mut modes: Vec<String> = Vec::new();
        modes.push(String::from_str("global"));
        modes.push(String::from_str("rule"));
        modes.push(String::from_str("direct"));
        GeneralState { modes, index: 0, config: None }
    }

    /// Stores a fetch result: the reported mode, or absent on failure.
    /// Never moves the cursor.
    pub fn fetch_data(&mut self, result: Option<Config>)
        ensures
            final(self).config == result,
            final(self).modes == old(self).modes,
            final(self).index == old(self).index,
    {
        self.config = result;
    }

    /// Moves the cursor to the next mode, wrapping after the last.
    pub fn next_mode(&mut self)
        requires
            old(self).wf(),
        ensures
            final(self).wf(),
            *final(self) == old(self).after_next_mode(),
    {
        let len: usize = 3;
        self.index = (self.index + 1) % len;
    }

    /// Moves the cursor to the previous mode, wrapping before the first.
    pub fn previous_mode(&mut self)
        requires
            old(self).wf(),
        ensures
            final(self).wf(),
            *final(self) == old(self).after_previous_mode(),
    {
        let len: usize = 3;
        self.index = (self.index + len - 1) % len;
    }

    /// The mode value the cursor points at: what a confirm sends to the
    /// server before the forced refetch.
    pub fn select_mode(&self) -> (r: String)
        requires
            self.wf(),
        ensures
            r@ == self.modes@[self.index as int]@,
    {
        self.modes[self.index].clone()
    }
}

} // verus!
