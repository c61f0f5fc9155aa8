//! HDRI Merge: which image the view shows, the image list's selection, which
//! images may join the set, and which actions are open.
use vstd::prelude::*;

verus! {

/// What the main view shows: the selected source image or the merged HDRI.
#[derive(Debug, Copy, Clone, PartialEq, Eq, Structural)]
pub enum ShowImage {
    SelectedImage,
    HDRI,
}

/// The preview the view draws in a frame.
#[derive(Debug, Copy, Clone, PartialEq, Eq, Structural)]
pub enum Shown {
    Nothing,
    Hdri,
    SelectedImage,
}

/// The view's state after one frame, and what it asks of the application.
#[derive(Debug, Copy, Clone, PartialEq, Eq, Structural)]
pub struct ImageViewOutcome {
    pub show_image: ShowImage,
    pub selected_image_enabled: bool,
    pub hdri_enabled: bool,
    pub exposure_shown: bool,
    pub update_hdri_preview: bool,
    pub zoom_enabled: bool,
    pub shown: Shown,
}

/// One frame of the view.  The "Show Selected Image" choice is open while
/// there are images, "Show HDRI" once an HDRI has been built; a click on a
/// closed choice does nothing, and of two clicks the later ("Show HDRI")
/// wins.  The exposure field is shown with the HDRI, and a change to it asks
/// for a new HDRI preview.  The zoom slider is open while there is something
/// to show.  The view draws the HDRI preview, or the selected image's
/// preview, where the chosen one exists.
pub fn image_view(
    image_count: usize,
    have_hdri: bool,
    have_hdri_preview_tex: bool,
    have_image_preview_tex: bool,
    show_image: ShowImage,
    selected_image_clicked: bool,
    hdri_clicked: bool,
    exposure_changed: bool,
) -> (r: ImageViewOutcome)
    ensures
        r.selected_image_enabled == (image_count > 0),
        r.hdri_enabled == have_hdri,
        r.show_image == (if hdri_clicked && have_hdri {
            ShowImage::HDRI
        } else if selected_image_clicked && image_count > 0 {
            ShowImage::SelectedImage
        } else {
            show_image
        }),
        r.exposure_shown == (r.show_image == ShowImage::HDRI),
        r.update_hdri_preview == (r.exposure_shown && exposure_changed),
        r.zoom_enabled == (image_count > 0 || have_hdri),
        r.shown == (if r.show_image == ShowImage::HDRI && have_hdri_preview_tex {
            Shown::Hdri
        } else if r.show_image == ShowImage::SelectedImage && image_count > 0
            && have_image_preview_tex {
            Shown::SelectedImage
        } else {
            Shown::Nothing
        }),
{
    let selected_image_enabled = image_count > 0;
    let mut show = show_image;
    if selected_image_clicked && selected_image_enabled {
        show = ShowImage::SelectedImage;
    }
    if hdri_clicked && have_hdri {
        show = ShowImage::HDRI;
    }
    let exposure_shown = show == ShowImage::HDRI;
    let shown = if show == ShowImage::HDRI && have_hdri_preview_tex {
        Shown::Hdri
    } else if show == ShowImage::SelectedImage && image_count > 0 && have_image_preview_tex {
        Shown::SelectedImage
    } else {
        Shown::Nothing
    };
    ImageViewOutcome {
        show_image: show,
        selected_image_enabled,
        hdri_enabled: have_hdri,
        exposure_shown,
        update_hdri_preview: exposure_shown && exposure_changed,
        zoom_enabled: image_count > 0 || have_hdri,
        shown,
    }
}

/// The image list's state after one frame, and what it asks of the
/// application.
#[derive(Debug, Copy, Clone, PartialEq, Eq, Structural)]
pub struct ImageListOutcome {
    pub show_info: bool,
    pub selected_image_index: usize,
    pub preview_request: Option<usize>,
    pub remove_enabled: bool,
    pub remove_request: Option<usize>,
}

/// One frame of the image list.  The selected image's details are shown
/// when the selection names an image (as it stood when the frame began).  A
/// click on a thumbnail selects that image and asks for its preview; the
/// remove buttons are open while no job runs, and a click on one asks for
/// that image's removal.  Clicks that name no image are passed over.
pub fn image_list(
    selected_image_index: usize,
    image_count: usize,
    job_count: usize,
    thumbnail_clicked: Option<usize>,
    remove_clicked: Option<usize>,
) -> (r: ImageListOutcome)
    ensures
        r.show_info == (selected_image_index < image_count),
        r.remove_enabled == (job_count == 0),
        match thumbnail_clicked {
            Some(i) if i < image_count => r.selected_image_index == i && r.preview_request
                == Some(i),
            _ => r.selected_image_index == selected_image_index && r.preview_request is None,
        },
        r.remove_request == (match remove_clicked {
            Some(i) if i < image_count && job_count == 0 => Some(i),
            _ => None,
        }),
{
    let (selected, preview) = match thumbnail_clicked {
        Some(i) if i < image_count => (i, Some(i)),
        _ => (selected_image_index, None),
    };
    let remove_request = match remove_clicked {
        Some(i) if i < image_count && job_count == 0 => Some(i),
        _ => None,
    };
    ImageListOutcome {
        show_info: selected_image_index < image_count,
        selected_image_index: selected,
        preview_request: preview,
        remove_enabled: job_count == 0,
        remove_request,
    }
}

/// The selection after removing image `k`: a selection past it moves down by
/// one.
pub open spec fn selection_after_removal(selected: usize, k: usize) -> usize {
    if selected > k {
        (selected - 1) as usize
    } else {
        selected
    }
}

/// Removes image `image_index` from the images and from their thumbnails, and
/// keeps the selection on the image it named where that image stays.
pub fn remove_image<I, T>(
    images: &mut Vec<I>,
    thumbnails: &mut Vec<T>,
    selected_image_index: &mut usize,
    image_index: usize,
)
    requires
        image_index < old(images)@.len(),
        image_index < old(thumbnails)@.len(),
    ensures
        final(images)@ == old(images)@.remove(image_index as int),
        final(thumbnails)@ == old(thumbnails)@.remove(image_index as int),
        *final(selected_image_index) == selection_after_removal(
            *old(selected_image_index),
            image_index,
        ),
        *old(selected_image_index) != image_index && *old(selected_image_index) < old(
            thumbnails,
        )@.len() ==> {
            &&& *final(selected_image_index) < final(thumbnails)@.len()
            &&& final(thumbnails)@[*final(selected_image_index) as int] == old(
                thumbnails,
            )@[*old(selected_image_index) as int]
            &&& final(images)@.len() == old(images)@.len() - 1
        },
{
    images.remove(image_index);
    thumbnails.remove(image_index);
    if *selected_image_index > image_index {
        *selected_image_index = *selected_image_index - 1;
    }
}

/// Whether an image of `width` by `height` may join the loaded images: all
/// of them must share one resolution, so it may when there are none yet or
/// when it has the resolution of the first.
pub fn admits_image(loaded: &[(usize, usize)], width: usize, height: usize) -> (r: bool)
    ensures
        r == (loaded@.len() == 0 || loaded@[0] == (width, height)),
{
    loaded.len() == 0 || (loaded[0].0 == width && loaded[0].1 == height)
}

/// All of `dims` are one resolution.
pub open spec fn one_resolution(dims: Seq<(usize, usize)>) -> bool {
    forall|i: int, j: int| 0 <= i < dims.len() && 0 <= j < dims.len() ==> dims[i] == dims[j]
}

/// The loaded images keep one resolution: adding an image that
/// [`admits_image`] lets in, at any place in the list (the list is kept in
/// exposure order), leaves them all of one resolution.
pub proof fn lemma_admission_keeps_one_resolution(
    loaded: Seq<(usize, usize)>,
    width: usize,
    height: usize,
    at: int,
)
    requires
        one_resolution(loaded),
        loaded.len() == 0 || loaded[0] == (width, height),
        0 <= at <= loaded.len(),
    ensures
        one_resolution(loaded.insert(at, (width, height))),
{
    let d = loaded.insert(at, (width, height));
    assert forall|i: int, j: int| 0 <= i < d.len() && 0 <= j < d.len() implies d[i] == d[j] by {
        assert(d[i] == (width, height)) by {
            if i != at {
                assert(d[i] == loaded[if i < at { i } else { i - 1 }]);
            }
        }
        assert(d[j] == (width, height)) by {
            if j != at {
                assert(d[j] == loaded[if j < at { j } else { j - 1 }]);
            }
        }
    }
}

/// Which actions are open: adding images while no job runs, building the
/// HDRI from two images or more while no job runs, saving it once built
/// while no job runs.
#[derive(Debug, Copy, Clone, PartialEq, Eq, Structural)]
pub struct Actions {
    pub add_images: bool,
    pub build_hdri: bool,
    pub save_hdri: bool,
}

pub fn available_actions(image_count: usize, have_hdri: bool, job_count: usize) -> (r: Actions)
    ensures
        r.add_images == (job_count == 0),
        r.build_hdri == (image_count >= 2 && job_count == 0),
        r.save_hdri == (have_hdri && job_count == 0),
{
    Actions {
        add_images: job_count == 0,
        build_hdri: image_count >= 2 && job_count == 0,
        save_hdri: have_hdri && job_count == 0,
    }
}

} // verus!
