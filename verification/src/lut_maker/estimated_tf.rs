//! The controls of the "Estimate" mode.
use vstd::prelude::*;

verus! {

/// Which controls of the mode are enabled, and which estimations one frame's
/// clicks start.
#[derive(Debug, Copy, Clone, PartialEq, Eq, Structural)]
pub struct EstimatedModeActions {
    /// The round count, the floor and ceiling sliders.
    pub controls_enabled: bool,
    /// The number of estimation rounds after the frame.
    pub rounds: usize,
    pub estimate_everything_enabled: bool,
    pub estimate_floor_enabled: bool,
    pub estimate_ceiling_enabled: bool,
    pub estimate_everything: bool,
    pub estimate_floor: bool,
    pub estimate_ceiling: bool,
}

/// The number of estimation rounds an edit gives: the value entered, kept
/// within 100 to 200000.
pub fn clamp_rounds(entered: usize) -> (r: usize)
    ensures
        100 <= r <= 200000,
        100 <= entered <= 200000 ==> r == entered,
        entered < 100 ==> r == 100,
        entered > 200000 ==> r == 200000,
{
    if entered < 100 {
        100
    } else if entered > 200000 {
        200000
    } else {
        entered
    }
}

/// The controls are enabled while no job runs; estimating everything and the
/// ceiling also needs bracketed images, estimating the noise floor bracketed
/// or lens cap images.  A click on a disabled button does nothing.  An edit
/// of the round count, taken while no job runs, is kept within 100 to 200000.
pub fn estimated_mode_ui(
    job_count: usize,
    rounds: usize,
    rounds_entered: Option<usize>,
    total_bracket_images: usize,
    total_dark_images: usize,
    everything_clicked: bool,
    floor_clicked: bool,
    ceiling_clicked: bool,
) -> (r: EstimatedModeActions)
    ensures
        r.controls_enabled == (job_count == 0),
        r.rounds == (match rounds_entered {
            Some(n) if job_count == 0 => if n < 100 {
                100
            } else if n > 200000 {
                200000
            } else {
                n
            },
            _ => rounds,
        }),
        r.estimate_everything_enabled == (job_count == 0 && total_bracket_images > 0),
        r.estimate_floor_enabled == (job_count == 0 && (total_bracket_images > 0
            || total_dark_images > 0)),
        r.estimate_ceiling_enabled == (job_count == 0 && total_bracket_images > 0),
        r.estimate_everything == (everything_clicked && r.estimate_everything_enabled),
        r.estimate_floor == (floor_clicked && r.estimate_floor_enabled),
        r.estimate_ceiling == (ceiling_clicked && r.estimate_ceiling_enabled),
{
    let idle = job_count == 0;
    let everything_enabled = idle && total_bracket_images > 0;
    let floor_enabled = idle && (total_bracket_images > 0 || total_dark_images > 0);
    let ceiling_enabled = idle && total_bracket_images > 0;
    let rounds = match rounds_entered {
        Some(n) if idle => clamp_rounds(n),
        _ => rounds,
    };
    EstimatedModeActions {
        controls_enabled: idle,
        rounds,
        estimate_everything_enabled: everything_enabled,
        estimate_floor_enabled: floor_enabled,
        estimate_ceiling_enabled: ceiling_enabled,
        estimate_everything: everything_clicked && everything_enabled,
        estimate_floor: floor_clicked && floor_enabled,
        estimate_ceiling: ceiling_clicked && ceiling_enabled,
    }
}

} // verus!
