//! The tab strip at the top of the editor.
use vstd::prelude::*;

use crate::ocio_maker::Tabs;

verus! {

/// The tab shown after one frame: the tab whose label was clicked, the later
/// label winning, else the one shown before.
pub fn top_bar(selected_tab: Tabs, base_config_clicked: bool, input_transforms_clicked: bool) -> (r:
    Tabs)
    ensures
        r == (if input_transforms_clicked {
            Tabs::InputTransforms
        } else if base_config_clicked {
            Tabs::BaseConfig
        } else {
            selected_tab
        }),
{
    let mut tab = selected_tab;
    if base_config_clicked {
        tab = Tabs::BaseConfig;
    }
    if input_transforms_clicked {
        tab = Tabs::InputTransforms;
    }
    tab
}

} // verus!
