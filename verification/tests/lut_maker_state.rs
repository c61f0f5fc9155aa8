use etf_image_tools::job_helpers::follow_picked_file;
use etf_image_tools::lut_maker::modified_tf::{modified_mode_ui, ModifiedModeClicks};
use etf_image_tools::lut_maker::image_panel;
use etf_image_tools::lut_maker::estimated_tf::{clamp_rounds, estimated_mode_ui};
use etf_image_tools::lut_maker::generated_tf::{clamp_resolution, generated_mode_ui};
use etf_image_tools::lut_maker::image_list::ImageList;
use etf_image_tools::lut_maker::mode_and_export_bar::bar;
use etf_image_tools::lut_maker::{
    arri_logc3_ei_ui_text, arri_logc3_eis, menu_bar, transfer_function_ids, AppMode, ArriLogC3Ei,
    ExportFormat, ImageViewID, TransferFunctionID,
};

fn list_with(sets: Vec<Vec<u32>>, selected: (usize, usize)) -> ImageList<u32, u32> {
    let mut l: ImageList<u32, u32> = ImageList::new(true);
    l.histogram_sets = sets.clone();
    l.thumbnail_sets = sets;
    l.selected_idx = selected;
    l
}

#[test]
fn image_list_starts_empty() {
    let l: ImageList<u8, u8> = ImageList::new(false);
    assert!(l.histogram_sets.is_empty());
    assert!(l.thumbnail_sets.is_empty());
    assert_eq!(l.selected_idx, (0, 0));
    assert!(!l.uses_sets());
    assert_eq!(l.total_image_count(), 0);
}

#[test]
fn adding_starts_sets_as_configured() {
    let mut single: ImageList<u8, u8> = ImageList::new(false);
    single.begin_add();
    single.begin_add();
    assert_eq!(single.histogram_sets.len(), 1);
    let mut multi: ImageList<u8, u8> = ImageList::new(true);
    multi.begin_add();
    multi.begin_add();
    assert_eq!(multi.histogram_sets.len(), 2);
    assert_eq!(multi.thumbnail_sets.len(), 2);
}

#[test]
fn total_counts_all_sets() {
    let l = list_with(vec![vec![1, 2], vec![], vec![3, 4, 5]], (0, 0));
    assert_eq!(l.total_image_count(), 5);
}

#[test]
fn removing_image_keeps_selection_on_image() {
    let mut l = list_with(vec![vec![10, 11, 12]], (0, 2));
    l.remove_image(0, 1);
    assert_eq!(l.histogram_sets, vec![vec![10, 12]]);
    assert_eq!(l.thumbnail_sets, vec![vec![10, 12]]);
    assert_eq!(l.selected_idx, (0, 1));
    // Out of range: nothing happens.
    l.remove_image(3, 0);
    l.remove_image(0, 9);
    assert_eq!(l.histogram_sets, vec![vec![10, 12]]);
}

#[test]
fn removing_last_image_removes_set() {
    let mut l = list_with(vec![vec![1], vec![2, 3]], (1, 1));
    l.remove_image(0, 0);
    assert_eq!(l.histogram_sets, vec![vec![2, 3]]);
    assert_eq!(l.selected_idx, (0, 1));
}

#[test]
fn removing_set_moves_selection() {
    let mut l = list_with(vec![vec![1, 2], vec![3], vec![4, 5]], (2, 1));
    l.remove_image_set(0);
    assert_eq!(l.thumbnail_sets, vec![vec![3], vec![4, 5]]);
    assert_eq!(l.selected_idx, (1, 1));
    l.remove_image_set(1);
    assert_eq!(l.thumbnail_sets, vec![vec![3]]);
    assert_eq!(l.selected_idx, (1, 0));
    l.remove_image_set(4);
    assert_eq!(l.thumbnail_sets, vec![vec![3]]);
}

#[test]
fn export_bar_enables_by_mode() {
    let mut wd = String::from("/start");
    let r = bar(AppMode::Estimate, ExportFormat::Cube, 0, false, false, true, true, None, None, &mut wd, None);
    assert!(!r.export_enabled);
    assert!(!r.export_from_linear && !r.export_to_linear);
    let r = bar(AppMode::Estimate, ExportFormat::Cube, 0, true, false, true, false, Some(ExportFormat::Spi1D), None, &mut wd, None);
    assert!(r.export_enabled && r.export_from_linear && !r.export_to_linear);
    assert_eq!(r.export_format, ExportFormat::Spi1D);
    let r = bar(AppMode::Generate, ExportFormat::Cube, 2, true, true, true, true, None, Some(AppMode::Modify), &mut wd, None);
    assert!(!r.export_enabled);
    assert_eq!(r.mode, AppMode::Modify);
    let r = bar(AppMode::Modify, ExportFormat::Cube, 0, false, true, false, true, None, None, &mut wd, None);
    assert!(r.export_enabled && r.export_to_linear);
    let r = bar(AppMode::Generate, ExportFormat::Cube, 0, false, false, false, false, None, None, &mut wd, None);
    assert!(r.export_enabled);
}

#[test]
fn estimate_mode_buttons_need_images() {
    let r = estimated_mode_ui(0, 4000, None, 0, 0, true, true, true);
    assert!(r.controls_enabled);
    assert!(!r.estimate_everything && !r.estimate_floor && !r.estimate_ceiling);
    let r = estimated_mode_ui(0, 4000, None, 0, 2, true, true, true);
    assert!(r.estimate_floor && !r.estimate_ceiling && !r.estimate_everything);
    let r = estimated_mode_ui(0, 4000, None, 3, 0, true, false, true);
    assert!(r.estimate_everything && !r.estimate_floor && r.estimate_ceiling);
    let r = estimated_mode_ui(1, 4000, None, 3, 3, true, true, true);
    assert!(!r.controls_enabled && !r.estimate_everything_enabled);
}

#[test]
fn generate_mode_controls() {
    let r = generated_mode_ui(TransferFunctionID::ARRILogC3, 0, 1, 0, true, false, false, true, true, true);
    assert!(r.controls_enabled && r.show_exposure_index_menu);
    assert!(r.adjust_floor && r.adjust_ceiling);
    assert!(r.estimate_floor);
    // The ceiling switch was off when the frame began.
    assert!(!r.estimate_ceiling_enabled && !r.estimate_ceiling);
    let r = generated_mode_ui(TransferFunctionID::sRGB, 0, 0, 4, true, true, true, false, true, true);
    assert!(!r.show_exposure_index_menu);
    assert!(!r.adjust_floor);
    assert!(r.estimate_floor && !r.estimate_ceiling);
}

#[test]
fn lut_resolution_is_clamped() {
    assert_eq!(clamp_resolution(0), 2);
    assert_eq!(clamp_resolution(1), 2);
    assert_eq!(clamp_resolution(4096), 4096);
    assert_eq!(clamp_resolution(70000), 65536);
}

#[test]
fn lists_and_labels() {
    let ids = transfer_function_ids();
    assert_eq!(ids.len(), 20);
    assert_eq!(ids[0], TransferFunctionID::Linear);
    assert_eq!(ids[1], TransferFunctionID::sRGB);
    assert_eq!(TransferFunctionID::HLG.ui_text(), "Rec.2100 - HLG");
    assert_eq!(TransferFunctionID::ARRILogC3.ui_text(), "ARRI LogC3 / ALEXA LogC v3");
    let eis = arri_logc3_eis();
    assert_eq!(eis[0], ArriLogC3Ei::Ei160);
    assert_eq!(arri_logc3_ei_ui_text(ArriLogC3Ei::Ei800), "Exposure Index 800");
    assert_eq!(ImageViewID::Dark.ui_text(), "Lens Cap Images");
    assert_eq!(ImageViewID::Bracketed.ui_text(), "Bracketed Exposures");
    for f in [ExportFormat::Cube, ExportFormat::Spi1D] {
        assert_eq!(f.ui_text(), format!(".{}", f.ext()));
    }
    assert_eq!(ExportFormat::Spi1D.ext(), "spi1d");
}

#[test]
fn quit_closes_window() {
    assert!(menu_bar(true));
    assert!(!menu_bar(false));
}

#[test]
fn list_panel_selects_then_removes() {
    let mut wd = String::from("/start");
    let mut l = list_with(vec![vec![1, 2], vec![3, 4, 5]], (0, 0));
    let changed = l.draw(true, false, Some((1, 2)), Some((1, Some(0))), &mut wd, None);
    assert!(changed);
    assert_eq!(l.thumbnail_sets, vec![vec![1, 2], vec![4, 5]]);
    // The selection was on the third image of set 1, which moved back by one.
    assert_eq!(l.selected_idx, (1, 1));
    let changed = l.draw(true, false, None, Some((0, None)), &mut wd, None);
    assert!(changed);
    assert_eq!(l.thumbnail_sets, vec![vec![4, 5]]);
    assert_eq!(l.selected_idx, (0, 1));
}

#[test]
fn list_panel_locked_while_busy() {
    let mut wd = String::from("/start");
    let mut l = list_with(vec![vec![1, 2]], (0, 0));
    let changed = l.draw(false, true, Some((0, 1)), Some((0, Some(0))), &mut wd, None);
    assert!(!changed);
    assert_eq!(l.thumbnail_sets, vec![vec![1, 2]]);
    assert_eq!(l.selected_idx, (0, 1));
    assert!(l.draw(true, true, Some((5, 5)), None, &mut wd, None));
    assert_eq!(l.selected_idx, (0, 1));
}

#[test]
fn image_panel_recomputes_for_bracketed_changes() {
    assert_eq!(image_panel(ImageViewID::Dark, None, true), (ImageViewID::Dark, false));
    assert_eq!(image_panel(ImageViewID::Dark, Some(ImageViewID::Bracketed), true), (ImageViewID::Bracketed, true));
    assert_eq!(image_panel(ImageViewID::Bracketed, None, false), (ImageViewID::Bracketed, false));
}

fn clicks() -> ModifiedModeClicks {
    ModifiedModeClicks {
        remove_lut: false,
        flip_lut: false,
        load_lut: false,
        floor_switch: false,
        ceiling_switch: false,
        estimate_floor: false,
        estimate_ceiling: false,
    }
}

#[test]
fn modify_mode_without_lut() {
    let mut wd = String::from("/start");
    let r = modified_mode_ui(None, 0, 3, 3, true, true, ModifiedModeClicks { load_lut: true, floor_switch: true, estimate_floor: true, ..clicks() }, &mut wd, None);
    assert_eq!(r.lut_label, None);
    assert!(r.load_lut && !r.remove_lut && !r.flip_lut);
    // Without a LUT the floor controls are locked.
    assert!(r.adjust_floor);
    assert!(!r.estimate_floor_enabled && !r.estimate_floor && !r.floor_sliders_enabled);
}

#[test]
fn modify_mode_with_lut() {
    let mut wd = String::from("/start");
    let r = modified_mode_ui(Some("/luts/a.cube"), 0, 2, 0, true, false, ModifiedModeClicks { flip_lut: true, estimate_floor: true, ceiling_switch: true, ..clicks() }, &mut wd, None);
    assert_eq!(r.lut_label, Some("a.cube".to_string()));
    assert!(r.flip_lut && !r.remove_lut && !r.load_lut);
    assert!(r.estimate_floor && r.floor_sliders_enabled);
    assert!(r.adjust_ceiling && !r.estimate_ceiling_enabled);
    let r = modified_mode_ui(Some("/luts/a.cube"), 0, 2, 0, true, true, ModifiedModeClicks { remove_lut: true, flip_lut: true, estimate_floor: true, ..clicks() }, &mut wd, None);
    assert!(r.remove_lut && !r.flip_lut);
    assert!(!r.estimate_floor && !r.floor_sliders_enabled);
    let r = modified_mode_ui(Some("/"), 1, 2, 0, true, true, ModifiedModeClicks { remove_lut: true, ..clicks() }, &mut wd, None);
    assert_eq!(r.lut_label, Some("Unnamed LUT".to_string()));
    assert!(!r.remove_lut && !r.lut_buttons_enabled && !r.floor_sliders_enabled);
}

#[test]
fn working_dir_follows_picked_files() {
    let mut wd = String::from("/start");
    let r = bar(AppMode::Generate, ExportFormat::Cube, 0, false, false, true, false, None, None, &mut wd, Some("/out/luts/x.cube"));
    assert!(r.export_from_linear);
    assert_eq!(wd, "/out/luts");
    // A disabled export opens no dialog: the directory stays.
    let _ = bar(AppMode::Generate, ExportFormat::Cube, 1, false, false, true, false, None, None, &mut wd, Some("/else/y.cube"));
    assert_eq!(wd, "/out/luts");

    let mut l = list_with(vec![vec![1]], (0, 0));
    assert!(l.draw(true, true, None, None, &mut wd, Some("/shots/a.jpg")));
    assert_eq!(wd, "/shots");
    assert!(!l.draw(false, true, None, None, &mut wd, Some("/other/b.jpg")));
    assert_eq!(wd, "/shots");

    let r = modified_mode_ui(None, 0, 0, 0, false, false, ModifiedModeClicks { load_lut: true, ..clicks() }, &mut wd, Some("/luts/log.cube"));
    assert!(r.load_lut);
    assert_eq!(wd, "/luts");
    let r = modified_mode_ui(Some("/luts/log.cube"), 0, 0, 0, false, false, ModifiedModeClicks { load_lut: true, ..clicks() }, &mut wd, Some("/x/y.cube"));
    assert!(!r.load_lut);
    assert_eq!(wd, "/luts");
}

#[test]
fn following_a_file_without_folder_keeps_the_directory() {
    let mut wd = String::from("/start");
    follow_picked_file(&mut wd, Some("/"));
    assert_eq!(wd, "/start");
    follow_picked_file(&mut wd, None);
    assert_eq!(wd, "/start");
    follow_picked_file(&mut wd, Some("rel/file.cube"));
    assert_eq!(wd, "rel");
}

#[test]
fn estimation_rounds_stay_in_range() {
    assert_eq!(clamp_rounds(5), 100);
    assert_eq!(clamp_rounds(4000), 4000);
    assert_eq!(clamp_rounds(1_000_000), 200000);
    assert_eq!(estimated_mode_ui(0, 4000, Some(50), 0, 0, false, false, false).rounds, 100);
    assert_eq!(estimated_mode_ui(0, 4000, Some(300000), 0, 0, false, false, false).rounds, 200000);
    assert_eq!(estimated_mode_ui(0, 4000, Some(1234), 0, 0, false, false, false).rounds, 1234);
    assert_eq!(estimated_mode_ui(2, 4000, Some(1234), 0, 0, false, false, false).rounds, 4000);
    assert_eq!(estimated_mode_ui(0, 4000, None, 0, 0, false, false, false).rounds, 4000);
}
