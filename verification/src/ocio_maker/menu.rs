//! The menu bar: loading a configuration, quitting, and the export directory
//! with its button.
use vstd::prelude::*;

verus! {

/// Where a file dialog opens.
#[derive(Debug, Copy, Clone, PartialEq, Eq, Structural)]
pub enum DialogStart {
    /// In the directory the configuration is exported to.
    ExportDirectory,
    /// In the directory of the configuration last loaded.
    WorkingDirectory,
    /// Where the platform's dialog opens by default.
    Default,
}

/// What the bar does in one frame.
#[derive(Debug, Copy, Clone, PartialEq, Eq, Structural)]
pub struct MenuOutcome {
    /// Where the dialog that picks a configuration to load opens.
    pub load_dialog_start: DialogStart,
    /// Where the dialog that picks the export directory opens.
    pub export_dialog_start: DialogStart,
    pub export_enabled: bool,
    pub export_requested: bool,
    pub close_requested: bool,
}

/// A directory a dialog can open in: one is named, and it is a directory.
pub open spec fn usable_dir(path: Seq<char>, is_dir: bool) -> bool {
    path.len() > 0 && is_dir
}

/// One frame of the bar.  Whether each path names a directory is read from
/// the file system by the caller.  The load dialog opens in the working
/// directory where it is usable; the export directory dialog in the export
/// directory where it is usable, else in the working directory where that
/// is; exporting is open while no job runs; "Quit" asks to close.
pub fn menu_bar(
    export_path: &str,
    export_path_is_dir: bool,
    working_dir: &str,
    working_dir_is_dir: bool,
    job_count: usize,
    export_clicked: bool,
    quit_clicked: bool,
) -> (r: MenuOutcome)
    ensures
        r.load_dialog_start == if usable_dir(working_dir@, working_dir_is_dir) {
            DialogStart::WorkingDirectory
        } else {
            DialogStart::Default
        },
        r.export_dialog_start == if usable_dir(export_path@, export_path_is_dir) {
            DialogStart::ExportDirectory
        } else if usable_dir(working_dir@, working_dir_is_dir) {
            DialogStart::WorkingDirectory
        } else {
            DialogStart::Default
        },
        r.export_enabled == (job_count == 0),
        r.export_requested == (export_clicked && job_count == 0),
        r.close_requested == quit_clicked,
{
    let working_usable = working_dir_is_dir && !working_dir.is_empty();
    let export_usable = export_path_is_dir && !export_path.is_empty();
    MenuOutcome {
        load_dialog_start: if working_usable {
            DialogStart::WorkingDirectory
        } else {
            DialogStart::Default
        },
        export_dialog_start: if export_usable {
            DialogStart::ExportDirectory
        } else if working_usable {
            DialogStart::WorkingDirectory
        } else {
            DialogStart::Default
        },
        export_enabled: job_count == 0,
        export_requested: export_clicked && job_count == 0,
        close_requested: quit_clicked,
    }
}

} // verus!
