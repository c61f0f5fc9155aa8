//! The bar with the mode tabs and the export buttons.
use vstd::prelude::*;

use crate::job_helpers::{dir_after_pick, follow_picked_file};
use crate::lut_maker::{AppMode, ExportFormat};

verus! {

/// The bar's state after one frame, and which exports its clicks ask for.
#[derive(Debug, Copy, Clone, PartialEq, Eq, Structural)]
pub struct BarOutcome {
    pub mode: AppMode,
    pub export_format: ExportFormat,
    pub export_enabled: bool,
    pub export_from_linear: bool,
    pub export_to_linear: bool,
}

/// Exporting is possible while no job runs, in the "Generate" mode always, in
/// the "Estimate" mode once a transfer function has been estimated, in the
/// "Modify" mode once a LUT is loaded.
pub open spec fn can_export(mode: AppMode, job_count: usize, has_estimate: bool, has_lut: bool) -> bool {
    job_count == 0 && ((mode == AppMode::Estimate && has_estimate) || (mode == AppMode::Modify
        && has_lut) || mode == AppMode::Generate)
}

/// One frame of the bar: the export buttons act only when exporting is
/// possible (as the mode stood when the frame began); a chosen format and a
/// clicked mode tab take effect, the later tab (Generate, Estimate, Modify)
/// winning.  The working directory moves to the folder of the file picked
/// in the save dialog an export button opens (`picked`).
pub fn bar(
    mode: AppMode,
    export_format: ExportFormat,
    job_count: usize,
    has_estimate: bool,
    has_lut: bool,
    from_linear_clicked: bool,
    to_linear_clicked: bool,
    format_chosen: Option<ExportFormat>,
    mode_clicked: Option<AppMode>,
    working_dir: &mut String,
    picked: Option<&str>,
) -> (r: BarOutcome)
    ensures
        final(working_dir)@ == if r.export_from_linear || r.export_to_linear {
            dir_after_pick(
                old(working_dir)@,
                match picked {
                    Some(p) => Some(p@),
                    None => None,
                },
            )
        } else {
            old(working_dir)@
        },
        r.export_enabled == can_export(mode, job_count, has_estimate, has_lut),
        r.export_from_linear == (from_linear_clicked && r.export_enabled),
        r.export_to_linear == (to_linear_clicked && r.export_enabled),
        r.export_format == (match format_chosen {
            Some(f) => f,
            None => export_format,
        }),
        r.mode == (match mode_clicked {
            Some(m) => m,
            None => mode,
        }),
{
    let enabled = job_count == 0 && ((mode == AppMode::Estimate && has_estimate) || (mode
        == AppMode::Modify && has_lut) || mode == AppMode::Generate);
    if enabled && (from_linear_clicked || to_linear_clicked) {
        follow_picked_file(working_dir, picked);
    }
    BarOutcome {
        mode: match mode_clicked {
            Some(m) => m,
            None => mode,
        },
        export_format: match format_chosen {
            Some(f) => f,
            None => export_format,
        },
        export_enabled: enabled,
        export_from_linear: from_linear_clicked && enabled,
        export_to_linear: to_linear_clicked && enabled,
    }
}

/// Which export each mode offers: none while a job runs; in the "Estimate"
/// mode only once a transfer function is estimated, in the "Modify" mode
/// only once a LUT is loaded, in the "Generate" mode always.
pub proof fn lemma_export_availability(
    mode: AppMode,
    job_count: usize,
    has_estimate: bool,
    has_lut: bool,
)
    ensures
        job_count > 0 ==> !can_export(mode, job_count, has_estimate, has_lut),
        mode == AppMode::Estimate ==> (can_export(mode, job_count, has_estimate, has_lut) <==> (
        job_count == 0 && has_estimate)),
        mode == AppMode::Modify ==> (can_export(mode, job_count, has_estimate, has_lut) <==> (
        job_count == 0 && has_lut)),
        mode == AppMode::Generate ==> (can_export(mode, job_count, has_estimate, has_lut) <==> (
        job_count == 0)),
{
}

} // verus!
