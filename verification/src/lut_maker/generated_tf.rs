//! The controls of the "Generate" mode.
use vstd::prelude::*;

use crate::lut_maker::TransferFunctionID;

verus! {

/// The state of the mode's controls after one frame, and which estimations
/// its clicks start.
#[derive(Debug, Copy, Clone, PartialEq, Eq, Structural)]
pub struct GeneratedModeActions {
    /// The transfer function menu and the LUT resolution.
    pub controls_enabled: bool,
    /// The exposure index menu, shown for ARRI LogC3 alone.
    pub show_exposure_index_menu: bool,
    pub adjust_floor: bool,
    pub adjust_ceiling: bool,
    pub estimate_floor_enabled: bool,
    pub floor_sliders_enabled: bool,
    pub estimate_ceiling_enabled: bool,
    pub ceiling_sliders_enabled: bool,
    pub estimate_floor: bool,
    pub estimate_ceiling: bool,
}

/// The controls are enabled while no job runs.  The floor and ceiling
/// controls also need their adjustment switched on (as it stood when the frame
/// began); estimating the floor needs bracketed or lens cap images, the
/// ceiling bracketed ones.  A switch that is clicked flips.
pub fn generated_mode_ui(
    transfer_function: TransferFunctionID,
    job_count: usize,
    total_bracket_images: usize,
    total_dark_images: usize,
    adjust_floor: bool,
    adjust_ceiling: bool,
    floor_switch_clicked: bool,
    ceiling_switch_clicked: bool,
    floor_estimate_clicked: bool,
    ceiling_estimate_clicked: bool,
) -> (r: GeneratedModeActions)
    ensures
        r.controls_enabled == (job_count == 0),
        r.show_exposure_index_menu == (transfer_function == TransferFunctionID::ARRILogC3),
        r.adjust_floor == (adjust_floor != floor_switch_clicked),
        r.adjust_ceiling == (adjust_ceiling != ceiling_switch_clicked),
        r.estimate_floor_enabled == (job_count == 0 && adjust_floor && (total_bracket_images > 0
            || total_dark_images > 0)),
        r.floor_sliders_enabled == (job_count == 0 && adjust_floor),
        r.estimate_ceiling_enabled == (job_count == 0 && adjust_ceiling && total_bracket_images
            > 0),
        r.ceiling_sliders_enabled == (job_count == 0 && adjust_ceiling),
        r.estimate_floor == (floor_estimate_clicked && r.estimate_floor_enabled),
        r.estimate_ceiling == (ceiling_estimate_clicked && r.estimate_ceiling_enabled),
{
    let idle = job_count == 0;
    let floor_enabled = idle && adjust_floor && (total_bracket_images > 0 || total_dark_images > 0);
    let ceiling_enabled = idle && adjust_ceiling && total_bracket_images > 0;
    GeneratedModeActions {
        controls_enabled: idle,
        show_exposure_index_menu: transfer_function == TransferFunctionID::ARRILogC3,
        adjust_floor: adjust_floor != floor_switch_clicked,
        adjust_ceiling: adjust_ceiling != ceiling_switch_clicked,
        estimate_floor_enabled: floor_enabled,
        floor_sliders_enabled: idle && adjust_floor,
        estimate_ceiling_enabled: ceiling_enabled,
        ceiling_sliders_enabled: idle && adjust_ceiling,
        estimate_floor: floor_estimate_clicked && floor_enabled,
        estimate_ceiling: ceiling_estimate_clicked && ceiling_enabled,
    }
}

/// The resolution a generated LUT is given: the editor keeps it within
/// 2 to 65536 entries.
pub fn clamp_resolution(resolution: usize) -> (r: usize)
    ensures
        2 <= r <= 65536,
        2 <= resolution <= 65536 ==> r == resolution,
        resolution < 2 ==> r == 2,
        resolution > 65536 ==> r == 65536,
{
    if resolution < 2 {
        2
    } else if resolution > 65536 {
        65536
    } else {
        resolution
    }
}

} // verus!
