//! The title bar's tab-selection state.
//!
//! Rendering lives with the caller; the state here is only which tab is
//! active, changed exactly by the tab-selection message.

use vstd::prelude::*;

verus! {

/// A message of the title bar.
#[derive(Clone, Copy, Debug, PartialEq, Eq, Structural)]
pub enum Message {
    /// The tab with this index was selected.
    TabSelected(usize),
    /// The back button was pressed; handled by the embedding view, not by
    /// the title bar's own state.
    BackButtonPressed,
}

/// The title bar: the index of the active tab.
pub struct TitleBar {
    active_tab: usize,
}

impl TitleBar {
    pub closed spec fn spec_active_tab(&self) -> usize {
        self.active_tab
    }

    /// A title bar with the first tab active.
    pub fn new() -> (r: Self)
        ensures
            r.spec_active_tab() == 0,
    {
        TitleBar { active_tab: 0 }
    }

    /// The index of the active tab.
    pub fn active_tab(&self) -> (r: usize)
        ensures
            r == self.spec_active_tab(),
    {
        self.active_tab
    }

    /// Applies one message: selecting a tab makes it the active one, and
    /// every other message leaves the state unchanged.
    pub fn update(&mut self, message: Message)
        ensures
            final(self).spec_active_tab() == (match message {
                Message::TabSelected(new_active_tab) => new_active_tab,
                Message::BackButtonPressed => old(self).spec_active_tab(),
            }),
    {
        if let Message::TabSelected(new_active_tab) = message {
            self.active_tab = new_active_tab
        }
    }
}

} // verus!
