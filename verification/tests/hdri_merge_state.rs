use etf_image_tools::hdri_merge::{
    admits_image, available_actions, image_list, image_view, remove_image, ShowImage, Shown,
};

#[test]
fn view_choices_open_with_content() {
    let r = image_view(0, false, false, false, ShowImage::SelectedImage, true, true, false);
    assert!(!r.selected_image_enabled && !r.hdri_enabled && !r.zoom_enabled);
    assert_eq!(r.show_image, ShowImage::SelectedImage);
    assert_eq!(r.shown, Shown::Nothing);
    let r = image_view(3, false, false, true, ShowImage::SelectedImage, false, true, false);
    assert_eq!(r.show_image, ShowImage::SelectedImage);
    assert_eq!(r.shown, Shown::SelectedImage);
    assert!(r.zoom_enabled && !r.exposure_shown);
}

#[test]
fn hdri_view_and_exposure() {
    let r = image_view(3, true, true, true, ShowImage::SelectedImage, true, true, true);
    assert_eq!(r.show_image, ShowImage::HDRI);
    assert!(r.exposure_shown && r.update_hdri_preview);
    assert_eq!(r.shown, Shown::Hdri);
    let r = image_view(3, true, false, true, ShowImage::HDRI, false, false, false);
    assert!(!r.update_hdri_preview);
    assert_eq!(r.shown, Shown::Nothing);
    let r = image_view(3, true, true, true, ShowImage::HDRI, true, false, true);
    assert_eq!(r.show_image, ShowImage::SelectedImage);
    assert!(!r.update_hdri_preview);
}

#[test]
fn image_list_clicks() {
    let r = image_list(5, 3, 0, None, None);
    assert!(!r.show_info);
    assert_eq!(r.selected_image_index, 5);
    let r = image_list(0, 3, 0, Some(2), Some(1));
    assert!(r.show_info && r.remove_enabled);
    assert_eq!(r.selected_image_index, 2);
    assert_eq!(r.preview_request, Some(2));
    assert_eq!(r.remove_request, Some(1));
    let r = image_list(0, 3, 1, Some(7), Some(1));
    assert_eq!(r.selected_image_index, 0);
    assert_eq!(r.preview_request, None);
    assert!(!r.remove_enabled);
    assert_eq!(r.remove_request, None);
}

#[test]
fn removing_image_keeps_selected_one() {
    let mut images = vec!["a", "b", "c", "d"];
    let mut thumbs = vec![1, 2, 3, 4];
    let mut sel = 3;
    remove_image(&mut images, &mut thumbs, &mut sel, 1);
    assert_eq!(images, vec!["a", "c", "d"]);
    assert_eq!(thumbs, vec![1, 3, 4]);
    assert_eq!(sel, 2);
    assert_eq!(thumbs[sel], 4);
    let mut sel2 = 0;
    remove_image(&mut images, &mut thumbs, &mut sel2, 2);
    assert_eq!(sel2, 0);
    assert_eq!(images, vec!["a", "c"]);
}

#[test]
fn images_must_share_resolution() {
    assert!(admits_image(&[], 640, 480));
    assert!(admits_image(&[(640, 480), (640, 480)], 640, 480));
    assert!(!admits_image(&[(640, 480)], 480, 640));
    assert!(!admits_image(&[(640, 480)], 640, 481));
}

#[test]
fn actions_follow_jobs_and_images() {
    let a = available_actions(1, false, 0);
    assert!(a.add_images && !a.build_hdri && !a.save_hdri);
    let a = available_actions(2, true, 0);
    assert!(a.add_images && a.build_hdri && a.save_hdri);
    let a = available_actions(5, true, 1);
    assert!(!a.add_images && !a.build_hdri && !a.save_hdri);
}
