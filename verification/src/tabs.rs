//! The tab strip of the presentation layer: which tabs exist and how the
//! selection moves. Rendering them is the presentation layer's work.

use vstd::prelude::*;

verus! {

/// The selectable tabs, in display order.
#[derive(Clone, Copy, PartialEq, Eq, Structural, Debug)]
pub enum SelectedTab {
    Chat,
    Users,
    Help,
    Tab4,
}

/// The position of a tab in the strip.
pub open spec fn tab_index(t: SelectedTab) -> int {
    match t {
        SelectedTab::Chat => 0,
        SelectedTab::Users => 1,
        SelectedTab::Help => 2,
        SelectedTab::Tab4 => 3,
    }
}

impl SelectedTab {
    /// The previous tab; the first tab stays where it is.
    pub fn previous(self) -> (r: Self)
        ensures
            tab_index(r) == if tab_index(self) == 0 {
                0int
            } else {
                tab_index(self) - 1
            },
    {
        match self {
            SelectedTab::Chat => SelectedTab::Chat,
            SelectedTab::Users => SelectedTab::Chat,
            SelectedTab::Help => SelectedTab::Users,
            SelectedTab::Tab4 => SelectedTab::Help,
        }
    }

    /// The next tab; the last tab stays where it is.
    pub fn next(self) -> (r: Self)
        ensures
            tab_index(r) == if tab_index(self) == 3 {
                3int
            } else {
                tab_index(self) + 1
            },
    {
        match self {
            SelectedTab::Chat => SelectedTab::Users,
            SelectedTab::Users => SelectedTab::Help,
            SelectedTab::Help => SelectedTab::Tab4,
            SelectedTab::Tab4 => SelectedTab::Tab4,
        }
    }
}

} // verus!
