//! State of the editor's panels.
use vstd::prelude::*;

verus! {

/// A side panel: its title, and whether it is shown and collapsed.
#[derive(Clone, Debug)]
pub struct PanelState {
    pub name: String,
    pub visible: bool,
    pub collapsed: bool,
}

} // verus!
