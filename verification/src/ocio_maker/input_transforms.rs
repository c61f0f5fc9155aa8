//! The input transforms tab.
use vstd::prelude::*;

verus! {

/// Whether the tab shows the editor for the selected color space: it does
/// when the selection names one of the spaces.
pub fn ui(selected_space_index: usize, space_count: usize) -> (show_editor: bool)
    ensures
        show_editor == (selected_space_index < space_count),
{
    selected_space_index < space_count
}

} // verus!
