//! The base configuration tab.
use vstd::prelude::*;

use crate::ocio_maker::BasePreset;

verus! {

/// What the tab shows after one frame: the preset chosen in its menu, if one
/// was, and whether the working color space editor is shown, which it is for
/// the custom preset alone.
pub fn ui(base_preset: BasePreset, chosen: Option<BasePreset>) -> (r: (BasePreset, bool))
    ensures
        r.0 == (match chosen {
            Some(p) => p,
            None => base_preset,
        }),
        r.1 == (r.0 == BasePreset::Custom),
{
    let preset = match chosen {
        Some(p) => p,
        None => base_preset,
    };
    let show_working_space = match preset {
        BasePreset::Custom => true,
        _ => false,
    };
    (preset, show_working_space)
}

} // verus!
