use etf_image_tools::ocio_maker::colorspace_editor::{editor, file_label, lut_label, EditorInput};
use etf_image_tools::ocio_maker::menu::{menu_bar, DialogStart};
use etf_image_tools::ocio_maker::chroma::{chroma_spaces, ChromaSpace};
use etf_image_tools::ocio_maker::color_space_spec::ColorSpaceSpec;
use etf_image_tools::ocio_maker::colorspace_list::{list, ColorSpaceList};
use etf_image_tools::ocio_maker::top_bar::top_bar;
use etf_image_tools::ocio_maker::{base_config, base_presets, input_transforms, working_color_space};
use etf_image_tools::ocio_maker::{BasePreset, Tabs};

fn names(l: &ColorSpaceList) -> Vec<String> {
    l.color_spaces.iter().map(|s| s.name.clone()).collect()
}

fn empty_list() -> ColorSpaceList {
    ColorSpaceList { color_spaces: Vec::new(), selected_space_index: 0 }
}

#[test]
fn new_spaces_get_first_free_number() {
    let mut l = empty_list();
    l.add_input_color_space();
    l.add_input_color_space();
    l.add_input_color_space();
    assert_eq!(names(&l), vec!["New Color Space 1", "New Color Space 2", "New Color Space 3"]);
    assert_eq!(l.selected_space_index, 2);
    l.remove_color_space(0);
    l.add_input_color_space();
    assert_eq!(names(&l), vec!["New Color Space 2", "New Color Space 3", "New Color Space 1"]);
    assert_eq!(l.selected_space_index, 2);
}

#[test]
fn new_space_skips_taken_names() {
    let mut l = empty_list();
    l.color_spaces.push(ColorSpaceSpec::with_name("New Color Space 1"));
    l.color_spaces.push(ColorSpaceSpec::with_name("New Color Space 3"));
    l.add_input_color_space();
    assert_eq!(l.color_spaces[2].name, "New Color Space 2");
    assert_eq!(l.color_spaces[2].chroma_space, ChromaSpace::NoChroma);
}

#[test]
fn all_numbers_taken_gives_plain_name() {
    let mut l = empty_list();
    for i in 1..200 {
        l.color_spaces.push(ColorSpaceSpec::with_name(&format!("New Color Space {}", i)));
    }
    l.add_input_color_space();
    assert_eq!(l.color_spaces[199].name, "New Color Space");
    assert_eq!(l.selected_space_index, 199);
}

#[test]
fn removal_keeps_selected_space() {
    let mut l = empty_list();
    for _ in 0..4 {
        l.add_input_color_space();
    }
    l.selected_space_index = 2;
    l.remove_color_space(0);
    assert_eq!(l.selected_space_index, 1);
    assert_eq!(l.color_spaces[1].name, "New Color Space 3");
    // Removing the last space while it is selected moves the selection back.
    l.selected_space_index = 2;
    l.remove_color_space(2);
    assert_eq!(l.selected_space_index, 1);
    // An index past the end removes nothing.
    l.remove_color_space(7);
    assert_eq!(l.color_spaces.len(), 2);
    l.remove_color_space(0);
    l.remove_color_space(0);
    assert!(l.color_spaces.is_empty());
    assert_eq!(l.selected_space_index, 0);
}

#[test]
fn transfer_function_set_and_cleared() {
    let mut l = empty_list();
    l.add_input_color_space();
    l.add_input_color_space();
    l.set_transfer_function(1, "/luts/a.cube".to_string());
    assert_eq!(l.color_spaces[1].transfer_lut, Some(("/luts/a.cube".to_string(), false)));
    assert_eq!(l.color_spaces[0].transfer_lut, None);
    l.set_transfer_function(5, "/luts/b.cube".to_string());
    assert_eq!(l.color_spaces.len(), 2);
    l.remove_transfer_function(1);
    assert_eq!(l.color_spaces[1].transfer_lut, None);
}

#[test]
fn list_panel_frame() {
    let mut l = empty_list();
    list(&mut l, 0, true, None, None);
    list(&mut l, 0, true, None, None);
    assert_eq!(l.color_spaces.len(), 2);
    list(&mut l, 0, false, None, Some(0));
    assert_eq!(l.selected_space_index, 0);
    // A remove click while a job runs does nothing.
    list(&mut l, 1, false, Some(0), None);
    assert_eq!(l.color_spaces.len(), 2);
    list(&mut l, 0, false, Some(0), None);
    assert_eq!(names(&l), vec!["New Color Space 2"]);
    assert_eq!(l.selected_space_index, 0);
}

#[test]
fn tabs_switch_on_click() {
    assert_eq!(top_bar(Tabs::BaseConfig, false, false), Tabs::BaseConfig);
    assert_eq!(top_bar(Tabs::BaseConfig, false, true), Tabs::InputTransforms);
    assert_eq!(top_bar(Tabs::InputTransforms, true, false), Tabs::BaseConfig);
    assert_eq!(top_bar(Tabs::BaseConfig, true, true), Tabs::InputTransforms);
}

#[test]
fn base_config_tab_shows_working_space_for_custom() {
    assert_eq!(base_config::ui(BasePreset::Blender3_0, None), (BasePreset::Blender3_0, false));
    assert_eq!(base_config::ui(BasePreset::Blender3_0, Some(BasePreset::Custom)), (BasePreset::Custom, true));
    assert_eq!(base_config::ui(BasePreset::Custom, Some(BasePreset::AcesLite)), (BasePreset::AcesLite, false));
}

#[test]
fn input_transforms_tab_shows_editor_for_valid_selection() {
    assert!(input_transforms::ui(0, 1));
    assert!(!input_transforms::ui(1, 1));
    assert!(!input_transforms::ui(0, 0));
}

#[test]
fn working_space_gamut_choice() {
    let mut w = ColorSpaceSpec::new_default();
    w.chroma_space = ChromaSpace::Rec709;
    assert!(!working_color_space::ui(&mut w, None));
    assert_eq!(w.chroma_space, ChromaSpace::Rec709);
    assert!(working_color_space::ui(&mut w, Some(ChromaSpace::Custom)));
    assert_eq!(w.chroma_space, ChromaSpace::Custom);
    assert_eq!(w.custom_chroma, "0.708 0.292 0.17 0.797 0.131 0.046 0.3127 0.329");
}

#[test]
fn base_presets_names_round_trip() {
    assert_eq!(base_presets(), vec![BasePreset::Custom, BasePreset::Blender3_0, BasePreset::AcesLite]);
    for p in base_presets() {
        assert_eq!(BasePreset::from_str(p.as_str()), Some(p));
        assert_eq!(BasePreset::from_str(&format!("  {}\t", p.as_str())), Some(p));
        assert_eq!(p.ui_text(), p.as_str());
    }
    assert_eq!(BasePreset::Blender3_0.as_str(), "Blender 3.0");
    assert_eq!(BasePreset::from_str("blender 3.0"), None);
}

#[test]
fn gamut_names_round_trip_and_differ() {
    let all = chroma_spaces();
    assert_eq!(all.len(), 22);
    for (i, c) in all.iter().enumerate() {
        assert_eq!(ChromaSpace::from_str(c.as_str()), Some(*c));
        // Gamut names must match exactly.
        assert_eq!(ChromaSpace::from_str(&format!(" {} ", c.as_str())), None);
        for d in all.iter().skip(i + 1) {
            assert_ne!(c.as_str(), d.as_str());
        }
    }
    assert_eq!(ChromaSpace::Rec709.ui_text(), "Rec.709 / sRGB");
    assert_eq!(ChromaSpace::NoChroma.as_str(), "None");
    assert_eq!(ChromaSpace::from_str("Rec.709 / sRGB"), None);
}

fn no_input() -> EditorInput {
    EditorInput {
        name: None,
        display_toggled: false,
        chroma_chosen: None,
        custom_chroma: None,
        inverse_toggled: false,
        remove_lut_clicked: false,
        load_lut_clicked: false,
    }
}

#[test]
fn editor_applies_edits_to_selected_space() {
    let mut wd = String::from("/start");
    let mut l = empty_list();
    l.add_input_color_space();
    l.add_input_color_space();
    l.selected_space_index = 0;
    let out = editor(
        &mut l,
        0,
        EditorInput {
            name: Some("Scanner".to_string()),
            display_toggled: true,
            chroma_chosen: Some(ChromaSpace::Custom),
            custom_chroma: Some("0.7 0.3 0.2 0.7 0.15 0.05 0.31 0.33".to_string()),
            ..no_input()
        },
        &mut wd,
        None,
    );
    assert!(out.show_custom_chroma);
    assert_eq!(out.lut_label, None);
    assert!(!out.load_lut_requested);
    assert_eq!(l.color_spaces[0].name, "Scanner");
    assert!(l.color_spaces[0].include_as_display);
    assert_eq!(l.color_spaces[0].custom_chroma, "0.7 0.3 0.2 0.7 0.15 0.05 0.31 0.33");
    assert_eq!(l.color_spaces[1].name, "New Color Space 2");
}

#[test]
fn editor_transfer_function_controls() {
    let mut wd = String::from("/start");
    let mut l = empty_list();
    l.add_input_color_space();
    let out = editor(&mut l, 0, EditorInput { load_lut_clicked: true, ..no_input() }, &mut wd, None);
    assert!(out.load_lut_requested);
    let out = editor(&mut l, 2, EditorInput { load_lut_clicked: true, ..no_input() }, &mut wd, None);
    assert!(!out.load_lut_requested && !out.lut_buttons_enabled);
    l.set_transfer_function(0, "/luts/film.spi1d".to_string());
    let out = editor(&mut l, 0, EditorInput { inverse_toggled: true, ..no_input() }, &mut wd, None);
    assert_eq!(out.lut_label, Some("film.spi1d".to_string()));
    assert_eq!(l.color_spaces[0].transfer_lut, Some(("/luts/film.spi1d".to_string(), true)));
    // Removal needs an idle job queue.
    editor(&mut l, 1, EditorInput { remove_lut_clicked: true, ..no_input() }, &mut wd, None);
    assert!(l.color_spaces[0].transfer_lut.is_some());
    editor(&mut l, 0, EditorInput { remove_lut_clicked: true, ..no_input() }, &mut wd, None);
    assert_eq!(l.color_spaces[0].transfer_lut, None);
    l.set_transfer_function(0, "/".to_string());
    let out = editor(&mut l, 0, no_input(), &mut wd, None);
    assert_eq!(out.lut_label, Some("Unnamed LUT".to_string()));
}

#[test]
fn transfer_function_labels() {
    assert_eq!(file_label(Some("log.cube".to_string())), "log.cube");
    assert_eq!(file_label(None), "Unnamed LUT");
    assert_eq!(lut_label("/luts/dir/log.spi1d"), "log.spi1d");
    assert_eq!(lut_label("/"), "Unnamed LUT");
}

#[test]
fn menu_dialogs_open_in_usable_directories() {
    let r = menu_bar("/exports", true, "/configs", true, 0, true, false);
    assert_eq!(r.load_dialog_start, DialogStart::WorkingDirectory);
    assert_eq!(r.export_dialog_start, DialogStart::ExportDirectory);
    assert!(r.export_enabled && r.export_requested && !r.close_requested);

    // An export path that is no directory falls back to the working one.
    let r = menu_bar("/exports/file.txt", false, "/configs", true, 0, false, false);
    assert_eq!(r.export_dialog_start, DialogStart::WorkingDirectory);
    assert!(!r.export_requested);

    // Empty paths are never used, whatever the file system says.
    let r = menu_bar("", true, "", true, 2, true, true);
    assert_eq!(r.load_dialog_start, DialogStart::Default);
    assert_eq!(r.export_dialog_start, DialogStart::Default);
    assert!(!r.export_enabled && !r.export_requested && r.close_requested);
}
