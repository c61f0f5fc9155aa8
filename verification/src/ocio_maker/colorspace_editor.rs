//! The editor of the selected input color space.
use vstd::prelude::*;

use crate::job_helpers::{dir_after_pick, follow_picked_file};
use crate::ocio_maker::chroma::ChromaSpace;
use crate::ocio_maker::color_space_spec::ColorSpaceSpecView;
use crate::ocio_maker::colorspace_list::ColorSpaceList;
use crate::ocio_maker::config_file::{file_name, file_name_text};

verus! {

broadcast use vstd::string::group_string_axioms;

/// What the user did in the editor during one frame.
#[derive(Debug)]
pub struct EditorInput {
    /// The name as edited, where it was.
    pub name: Option<String>,
    pub display_toggled: bool,
    pub chroma_chosen: Option<ChromaSpace>,
    /// The custom coordinates as edited, where they were (as text).
    pub custom_chroma: Option<String>,
    pub inverse_toggled: bool,
    pub remove_lut_clicked: bool,
    pub load_lut_clicked: bool,
}

/// What the editor shows after one frame, and what it asks of the
/// application.
#[derive(Debug)]
pub struct EditorOutcome {
    pub show_custom_chroma: bool,
    /// The label of the transfer function, where the space has one.
    pub lut_label: Option<String>,
    pub lut_buttons_enabled: bool,
    /// A LUT file is to be picked and loaded for the space.
    pub load_lut_requested: bool,
}

/// The label a transfer function whose file is named `file` is shown with:
/// that name, or `Unnamed LUT` where its path names no file.
pub open spec fn label_of_file_name(file: Option<Seq<char>>) -> Seq<char> {
    match file {
        Some(f) => f,
        None => "Unnamed LUT"@,
    }
}

/// The label of the transfer function at `path`.
pub open spec fn lut_label_text(path: Seq<char>) -> Seq<char> {
    label_of_file_name(file_name_text(path))
}

/// The label a transfer function whose file is named `file` is shown with.
pub fn file_label(file: Option<String>) -> (r: String)
    ensures
        r@ == label_of_file_name(
            match file {
                Some(f) => Some(f@),
                None => None,
            },
        ),
{
    proof {
        reveal_strlit("Unnamed LUT");
    }
    match file {
        Some(f) => f,
        None => String::from_str("Unnamed LUT"),
    }
}

/// The label the transfer function at `path` is shown with.
pub fn lut_label(path: &str) -> (r: String)
    ensures
        r@ == lut_label_text(path@),
{
    file_label(file_name(path))
}

/// The selected space after one frame of edits: a new name, the display
/// switch flipped where it was clicked, the chosen gamut, new custom
/// coordinates where they were edited while the gamut is custom, the inverse
/// switch flipped, and the transfer function removed where its remove button
/// was clicked while no job runs.
pub open spec fn edited_space(
    v: ColorSpaceSpecView,
    input: EditorInput,
    job_count: usize,
) -> ColorSpaceSpecView {
    let chroma = match input.chroma_chosen {
        Some(c) => c,
        None => v.chroma_space,
    };
    ColorSpaceSpecView {
        name: match input.name {
            Some(n) => n@,
            None => v.name,
        },
        include_as_display: v.include_as_display != input.display_toggled,
        chroma_space: chroma,
        custom_chroma: match input.custom_chroma {
            Some(c) if chroma == ChromaSpace::Custom => c@,
            _ => v.custom_chroma,
        },
        transfer_lut: match v.transfer_lut {
            Some((p, inv)) => if input.remove_lut_clicked && job_count == 0 {
                None
            } else {
                Some((p, inv != input.inverse_toggled))
            },
            None => None,
        },
    }
}

/// One frame of the editor on the selected space.  The transfer function
/// buttons work while no job runs; loading a LUT is offered where the space
/// has no transfer function, and the working directory moves to the folder of
/// the file picked in the dialog loading opens (`picked`).
pub fn editor(
    list: &mut ColorSpaceList,
    job_count: usize,
    input: EditorInput,
    working_dir: &mut String,
    picked: Option<&str>,
) -> (r: EditorOutcome)
    requires
        old(list).selected_space_index < old(list).color_spaces@.len(),
    ensures
        final(working_dir)@ == if r.load_lut_requested {
            dir_after_pick(
                old(working_dir)@,
                match picked {
                    Some(p) => Some(p@),
                    None => None,
                },
            )
        } else {
            old(working_dir)@
        },
        ({
            let k = old(list).selected_space_index as int;
            let v = old(list).color_spaces@[k]@;
            &&& final(list).selected_space_index == old(list).selected_space_index
            &&& final(list).color_spaces@.len() == old(list).color_spaces@.len()
            &&& forall|j: int|
                0 <= j < old(list).color_spaces@.len() && j != k ==> final(list).color_spaces@[j]
                    == old(list).color_spaces@[j]
            &&& final(list).color_spaces@[k]@ == edited_space(v, input, job_count)
            &&& r.show_custom_chroma == (final(list).color_spaces@[k].chroma_space
                == ChromaSpace::Custom)
            &&& r.lut_buttons_enabled == (job_count == 0)
            &&& match v.transfer_lut {
                Some((p, _)) => r.lut_label matches Some(l) && l@ == lut_label_text(p),
                None => r.lut_label is None,
            }
            &&& r.load_lut_requested == (v.transfer_lut is None && input.load_lut_clicked
                && job_count == 0)
        }),
{
    let k = list.selected_space_index;
    let ghost v = list.color_spaces@[k as int]@;
    let mut space = list.color_spaces.remove(k);
    let EditorInput {
        name,
        display_toggled,
        chroma_chosen,
        custom_chroma,
        inverse_toggled,
        remove_lut_clicked,
        load_lut_clicked,
    } = input;
    match name {
        Some(n) => {
            space.name = n;
        },
        None => {},
    }
    if display_toggled {
        space.include_as_display = !space.include_as_display;
    }
    match chroma_chosen {
        Some(c) => {
            space.chroma_space = c;
        },
        None => {},
    }
    let show_custom_chroma = space.chroma_space == ChromaSpace::Custom;
    if show_custom_chroma {
        match custom_chroma {
            Some(c) => {
                space.custom_chroma = c;
            },
            None => {},
        }
    }
    let idle = job_count == 0;
    let mut label: Option<String> = None;
    let mut load_lut_requested = false;
    match space.transfer_lut {
        Some((path, inverse)) => {
            label = Some(lut_label(path.as_str()));
            if remove_lut_clicked && idle {
                space.transfer_lut = None;
            } else {
                space.transfer_lut = Some((path, inverse != inverse_toggled));
            }
        },
        None => {
            load_lut_requested = load_lut_clicked && idle;
        },
    }
    list.color_spaces.insert(k, space);
    if load_lut_requested {
        follow_picked_file(working_dir, picked);
    }
    EditorOutcome {
        show_custom_chroma,
        lut_label: label,
        lut_buttons_enabled: idle,
        load_lut_requested,
    }
}

/// What one frame of edits does to a color space: the name changes only
/// where a new one was entered; the display switch flips exactly when
/// clicked; the gamut changes only where one was chosen; the custom
/// coordinates change only where new ones were entered for a custom gamut;
/// a transfer function is removed exactly when its remove button was
/// clicked while no job runs, and otherwise keeps its path, its inversion
/// flipping exactly when the inverse switch was clicked; a space without a
/// transfer function gets none.
pub proof fn lemma_edit_effects(v: ColorSpaceSpecView, input: EditorInput, job_count: usize)
    ensures
        ({
            let e = edited_space(v, input, job_count);
            &&& input.name is None ==> e.name == v.name
            &&& (e.include_as_display != v.include_as_display) == input.display_toggled
            &&& input.chroma_chosen is None ==> e.chroma_space == v.chroma_space
            &&& input.chroma_chosen matches Some(c) ==> e.chroma_space == c
            &&& (input.custom_chroma is None || e.chroma_space != ChromaSpace::Custom)
                ==> e.custom_chroma == v.custom_chroma
            &&& v.transfer_lut is None ==> e.transfer_lut is None
            &&& v.transfer_lut matches Some((p, inv)) ==> if input.remove_lut_clicked && job_count
                == 0 {
                e.transfer_lut is None
            } else {
                e.transfer_lut matches Some((p2, inv2)) && p2 == p && (inv2 != inv)
                    == input.inverse_toggled
            }
        }),
{
}

} // verus!
