//! The controls of the "Modify" mode, which adjusts a loaded LUT.
use vstd::prelude::*;

use crate::job_helpers::{dir_after_pick, follow_picked_file};
use crate::ocio_maker::colorspace_editor::{lut_label, lut_label_text};

verus! {

broadcast use vstd::string::group_string_axioms;

/// What one frame's clicks in the mode's controls were.
#[derive(Debug, Copy, Clone)]
pub struct ModifiedModeClicks {
    pub remove_lut: bool,
    pub flip_lut: bool,
    pub load_lut: bool,
    pub floor_switch: bool,
    pub ceiling_switch: bool,
    pub estimate_floor: bool,
    pub estimate_ceiling: bool,
}

/// The state of the mode's controls after one frame, and what its clicks ask
/// of the application.
#[derive(Debug)]
pub struct ModifiedModeActions {
    /// The label of the loaded LUT, where there is one.
    pub lut_label: Option<String>,
    pub lut_buttons_enabled: bool,
    pub remove_lut: bool,
    pub flip_lut: bool,
    pub load_lut: bool,
    pub adjust_floor: bool,
    pub adjust_ceiling: bool,
    pub estimate_floor_enabled: bool,
    pub floor_sliders_enabled: bool,
    pub estimate_ceiling_enabled: bool,
    pub ceiling_sliders_enabled: bool,
    pub estimate_floor: bool,
    pub estimate_ceiling: bool,
}

/// One frame of the mode.  The LUT buttons work while no job runs: removing
/// or flipping a loaded LUT (a removed LUT is not flipped), or loading one
/// where none is loaded.  The floor and ceiling controls need a LUT still
/// loaded after the frame's clicks, and otherwise follow the "Generate"
/// mode's: a switch clicked flips; estimating and the sliders need no job
/// running and the adjustment switched on as the frame began; estimating the
/// floor needs bracketed or lens cap images, the ceiling bracketed ones.
/// The working directory moves to the folder of the LUT file picked in the
/// dialog that loading opens (`picked`).
pub fn modified_mode_ui(
    lut_path: Option<&str>,
    job_count: usize,
    total_bracket_images: usize,
    total_dark_images: usize,
    adjust_floor: bool,
    adjust_ceiling: bool,
    clicks: ModifiedModeClicks,
    working_dir: &mut String,
    picked: Option<&str>,
) -> (r: ModifiedModeActions)
    ensures
        final(working_dir)@ == if r.load_lut {
            dir_after_pick(
                old(working_dir)@,
                match picked {
                    Some(p) => Some(p@),
                    None => None,
                },
            )
        } else {
            old(working_dir)@
        },
        match lut_path {
            Some(p) => r.lut_label matches Some(l) && l@ == lut_label_text(p@),
            None => r.lut_label is None,
        },
        r.lut_buttons_enabled == (job_count == 0),
        r.remove_lut == (lut_path is Some && clicks.remove_lut && job_count == 0),
        r.flip_lut == (lut_path is Some && !r.remove_lut && clicks.flip_lut && job_count == 0),
        r.load_lut == (lut_path is None && clicks.load_lut && job_count == 0),
        ({
            let have_lut = lut_path is Some && !r.remove_lut;
            let idle = job_count == 0;
            &&& r.adjust_floor == (adjust_floor != (clicks.floor_switch && have_lut))
            &&& r.adjust_ceiling == (adjust_ceiling != (clicks.ceiling_switch && have_lut))
            &&& r.estimate_floor_enabled == (have_lut && idle && adjust_floor && (
            total_bracket_images > 0 || total_dark_images > 0))
            &&& r.floor_sliders_enabled == (have_lut && idle && adjust_floor)
            &&& r.estimate_ceiling_enabled == (have_lut && idle && adjust_ceiling
                && total_bracket_images > 0)
            &&& r.ceiling_sliders_enabled == (have_lut && idle && adjust_ceiling)
            &&& r.estimate_floor == (clicks.estimate_floor && r.estimate_floor_enabled)
            &&& r.estimate_ceiling == (clicks.estimate_ceiling && r.estimate_ceiling_enabled)
        }),
{
    let idle = job_count == 0;
    let (label, remove, flip, load) = match lut_path {
        Some(p) => {
            let remove = clicks.remove_lut && idle;
            (Some(lut_label(p)), remove, !remove && clicks.flip_lut && idle, false)
        },
        None => (None, false, false, clicks.load_lut && idle),
    };
    if load {
        follow_picked_file(working_dir, picked);
    }
    let have_lut = lut_path.is_some() && !remove;
    let floor_enabled = have_lut && idle && adjust_floor && (total_bracket_images > 0
        || total_dark_images > 0);
    let ceiling_enabled = have_lut && idle && adjust_ceiling && total_bracket_images > 0;
    ModifiedModeActions {
        lut_label: label,
        lut_buttons_enabled: idle,
        remove_lut: remove,
        flip_lut: flip,
        load_lut: load,
        adjust_floor: adjust_floor != (clicks.floor_switch && have_lut),
        adjust_ceiling: adjust_ceiling != (clicks.ceiling_switch && have_lut),
        estimate_floor_enabled: floor_enabled,
        floor_sliders_enabled: have_lut && idle && adjust_floor,
        estimate_ceiling_enabled: ceiling_enabled,
        ceiling_sliders_enabled: have_lut && idle && adjust_ceiling,
        estimate_floor: clicks.estimate_floor && floor_enabled,
        estimate_ceiling: clicks.estimate_ceiling && ceiling_enabled,
    }
}

} // verus!
