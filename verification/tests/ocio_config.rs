use etf_image_tools::ocio_maker::chroma::ChromaSpace;
use etf_image_tools::ocio_maker::color_space_spec::{ColorSpaceSpec, OutsideCheck};
use etf_image_tools::ocio_maker::config_file::{
    escape_space_name, export_plan, header_comment, header_readable, load_chunks, apply_config_file, lut_copy_name, lut_file_name, reference_gamut, space_gamut, Gamut,
    read_header, ConfigChunk, ConfigReadErr, ExportErr, LoadMessage,
};
use etf_image_tools::ocio_maker::colorspace_list::ColorSpaceList;
use etf_image_tools::ocio_maker::BasePreset;

const REC2020: &str = "0.708 0.292 0.17 0.797 0.131 0.046 0.3127 0.329";

fn space(
    name: &str,
    chroma: ChromaSpace,
    custom: &str,
    lut: Option<(&str, bool)>,
    display: bool,
) -> ColorSpaceSpec {
    ColorSpaceSpec {
        name: name.to_string(),
        transfer_lut: lut.map(|(p, inv)| (p.to_string(), inv)),
        chroma_space: chroma,
        custom_chroma: custom.to_string(),
        include_as_display: display,
    }
}

/// The header as the configuration file carries it: each line behind "# ".
fn commented(header: &str) -> String {
    header.lines().map(|l| format!("# {}\n", l)).collect()
}

/// The outcomes of a chunk's outside checks, all passing.
fn passing(chunk: &ConfigChunk) -> Vec<bool> {
    match chunk {
        ConfigChunk::Base { preset: Some(_), working } => {
            vec![true; ColorSpaceSpec::outside_checks(working).len()]
        }
        ConfigChunk::Base { preset: None, .. } => Vec::new(),
        ConfigChunk::Space(t) => vec![true; ColorSpaceSpec::outside_checks(t).len()],
    }
}

#[test]
fn header_for_blender_base_lists_spaces() {
    let working = ColorSpaceSpec::new_default();
    let spaces = vec![space("  Camera A ", ChromaSpace::Rec709, REC2020, None, true)];
    let h = header_comment("1.2.3", BasePreset::Blender3_0, &working, &spaces, "/export");
    assert_eq!(
        h,
        "Generated by ETF OCIO Maker v1.2.3\n\
         \n\
         Do not edit this file by hand if you want to continue managing\n\
         this configuration with ETF OCIO Maker.\n\
         \n\
         ----\n\
         base: Blender 3.0\n\
         ----\n\
         color_space: Camera A\n\
         include_as_display: true\n\
         chroma_space: Rec709\n\
         ----\n"
    );
}

#[test]
fn header_for_custom_base_holds_working_gamut() {
    let working = space("", ChromaSpace::Custom, "0.64 0.33 0.3 0.6 0.15 0.06 0.3127 0.329", None, false);
    let h = header_comment("0.1", BasePreset::Custom, &working, &[], "/export");
    assert_eq!(
        h,
        "Generated by ETF OCIO Maker v0.1\n\
         \n\
         Do not edit this file by hand if you want to continue managing\n\
         this configuration with ETF OCIO Maker.\n\
         \n\
         ----\n\
         base: Custom\n\
         chroma_space: Custom\n\
         custom_chroma: 0.64 0.33 0.3 0.6 0.15 0.06 0.3127 0.329\n\
         ----\n"
    );
}

#[test]
fn export_then_load_gives_configuration_back() {
    let working = space("", ChromaSpace::Custom, "0.64 0.33 0.3 0.6 0.15 0.06 0.3127 0.329", None, false);
    let spaces = vec![
        space("Camera A", ChromaSpace::SGamut3Cine, REC2020, None, true),
        space(" Camera B  ", ChromaSpace::NoChroma, REC2020, None, false),
    ];
    let h = header_comment("2.0", BasePreset::Custom, &working, &spaces, "/export");
    let text = commented(&h) + "ocio_profile_version: 2\n";
    assert!(header_readable(&text));
    let chunks = read_header(&text).unwrap();
    assert_eq!(chunks.len(), 3);
    match &chunks[0] {
        ConfigChunk::Base { preset, working } => {
            assert_eq!(*preset, Some(BasePreset::Custom));
            assert_eq!(
                working,
                "chroma_space: Custom\ncustom_chroma: 0.64 0.33 0.3 0.6 0.15 0.06 0.3127 0.329\n"
            );
        }
        other => panic!("expected the base, got {:?}", other),
    }
    let outcomes: Vec<Vec<bool>> = chunks.iter().map(passing).collect();
    let loaded = load_chunks(&chunks, None, &outcomes);
    assert_eq!(loaded.base_preset, Some(BasePreset::Custom));
    let w = loaded.working_color_space.unwrap();
    assert_eq!(w.chroma_space, ChromaSpace::Custom);
    assert_eq!(w.custom_chroma, "0.64 0.33 0.3 0.6 0.15 0.06 0.3127 0.329");
    assert_eq!(loaded.color_spaces.len(), 2);
    assert_eq!(loaded.color_spaces[0].name, "Camera A");
    assert_eq!(loaded.color_spaces[0].chroma_space, ChromaSpace::SGamut3Cine);
    assert!(loaded.color_spaces[0].include_as_display);
    assert_eq!(loaded.color_spaces[1].name, "Camera B");
    assert_eq!(loaded.color_spaces[1].chroma_space, ChromaSpace::NoChroma);
    assert!(!loaded.color_spaces[1].include_as_display);
    assert!(loaded.messages.is_empty());
}

#[test]
fn export_then_load_keeps_relative_lut_path() {
    let working = ColorSpaceSpec::new_default();
    let spaces = vec![space("Log Cam", ChromaSpace::Rec2020, REC2020, Some(("/export/luts/cam.cube", true)), false)];
    let h = header_comment("1", BasePreset::AcesLite, &working, &spaces, "/export");
    assert!(h.contains("transfer_lut_path: luts/cam.cube\ntransfer_lut_use_inverse: true\n"));
    let chunks = read_header(&commented(&h)).unwrap();
    assert_eq!(chunks.len(), 2);
    match &chunks[1] {
        ConfigChunk::Space(t) => {
            let checks = ColorSpaceSpec::outside_checks(t);
            assert_eq!(checks.len(), 1);
            match &checks[0] {
                OutsideCheck::LutPath(p) => assert_eq!(p, "luts/cam.cube"),
                other => panic!("unexpected check {:?}", other),
            }
        }
        other => panic!("expected a color space, got {:?}", other),
    }
    let outcomes: Vec<Vec<bool>> = chunks.iter().map(passing).collect();
    let loaded = load_chunks(&chunks, None, &outcomes);
    assert_eq!(loaded.base_preset, Some(BasePreset::AcesLite));
    // A base without a custom gamut resets the working space to a new one.
    let w = loaded.working_color_space.unwrap();
    assert_eq!(w.chroma_space, ChromaSpace::NoChroma);
    assert_eq!(
        loaded.color_spaces[0].transfer_lut,
        Some(("luts/cam.cube".to_string(), true))
    );
    // Loaded from the export folder, the path is taken in terms of it.
    let loaded = load_chunks(&chunks, Some("/export"), &outcomes);
    assert_eq!(
        loaded.color_spaces[0].transfer_lut,
        Some(("/export/luts/cam.cube".to_string(), true))
    );
}

#[test]
fn applying_a_loaded_config() {
    let working = space("W", ChromaSpace::Custom, REC2020, None, false);
    let spaces = vec![
        space("A", ChromaSpace::Rec709, REC2020, None, true),
        space("B", ChromaSpace::NoChroma, REC2020, Some(("/cfg/luts/b.cube", false)), false),
    ];
    let h = header_comment("1", BasePreset::Custom, &working, &spaces, "/cfg");
    let chunks = read_header(&commented(&h)).unwrap();
    let outcomes: Vec<Vec<bool>> = chunks.iter().map(passing).collect();
    let loaded = load_chunks(&chunks, Some("/cfg"), &outcomes);

    let mut base = BasePreset::AcesLite;
    let mut w = ColorSpaceSpec::new_default();
    let mut list = ColorSpaceList { color_spaces: Vec::new(), selected_space_index: 0 };
    list.add_input_color_space();
    list.add_input_color_space();
    list.selected_space_index = 1;
    let mut export = String::from("/elsewhere");
    apply_config_file(loaded, "/cfg/config.ocio", &mut base, &mut w, &mut list, &mut export);
    assert_eq!(base, BasePreset::Custom);
    assert_eq!(w.chroma_space, ChromaSpace::Custom);
    assert_eq!(w.custom_chroma, REC2020);
    assert_eq!(list.color_spaces.len(), 2);
    assert_eq!(list.color_spaces[0].name, "A");
    assert!(list.color_spaces[0].include_as_display);
    assert_eq!(list.color_spaces[1].transfer_lut, Some(("/cfg/luts/b.cube".to_string(), false)));
    assert_eq!(list.selected_space_index, 0);
    assert_eq!(export, "/cfg");
}

#[test]
fn unloadable_lut_leaves_a_note() {
    let text = "# Generated by ETF OCIO Maker v1\n\
                # ----\n\
                # color_space: Broken\n\
                # transfer_lut_path: missing.cube\n\
                # transfer_lut_use_inverse: true\n\
                # ----\n";
    let chunks = read_header(text).unwrap();
    let loaded = load_chunks(&chunks, None, &[vec![false]]);
    assert_eq!(loaded.color_spaces.len(), 1);
    assert_eq!(loaded.color_spaces[0].name, "Broken");
    assert_eq!(loaded.color_spaces[0].transfer_lut, None);
    assert_eq!(loaded.messages.len(), 1);
    match &loaded.messages[0] {
        LoadMessage::LutUnloadable { path, space_name } => {
            assert_eq!(path, "missing.cube");
            assert_eq!(space_name, "Broken");
        }
        other => panic!("unexpected note {:?}", other),
    }
}

#[test]
fn invalid_base_leaves_a_note() {
    let text = "# Generated by ETF OCIO Maker v1\n# ----\n# base: Nope\n# ----\n";
    let chunks = read_header(text).unwrap();
    assert_eq!(chunks.len(), 1);
    match &chunks[0] {
        ConfigChunk::Base { preset, working } => {
            assert_eq!(*preset, None);
            assert_eq!(working, "");
        }
        other => panic!("expected the base, got {:?}", other),
    }
    let loaded = load_chunks(&chunks, None, &[Vec::new()]);
    assert_eq!(loaded.base_preset, None);
    assert!(loaded.working_color_space.is_none());
    assert!(matches!(loaded.messages[0], LoadMessage::InvalidBase));
}

#[test]
fn working_space_with_unloadable_lut_is_not_taken() {
    let text = "# Generated by ETF OCIO Maker v1\n\
                # ----\n\
                # base: Custom\n\
                # transfer_lut_path: x.cube\n\
                # ----\n";
    let chunks = read_header(text).unwrap();
    let loaded = load_chunks(&chunks, None, &[vec![false]]);
    assert_eq!(loaded.base_preset, Some(BasePreset::Custom));
    assert!(loaded.working_color_space.is_none());
    assert!(loaded.messages.is_empty());
}

#[test]
fn foreign_file_is_refused() {
    assert!(matches!(
        read_header("ocio_profile_version: 2\n"),
        Err(ConfigReadErr::NotOcioMakerConfig)
    ));
    assert!(matches!(
        read_header("# Generated by something else\n# ----\n"),
        Err(ConfigReadErr::NotOcioMakerConfig)
    ));
}

#[test]
fn empty_file_reads_as_nothing() {
    assert!(read_header("").unwrap().is_empty());
}

#[test]
fn reading_stops_at_first_non_comment() {
    let text = "# Generated by ETF OCIO Maker v1\n\
                roles: {}\n\
                # color_space: Late\n\
                # ----\n";
    assert!(read_header(text).unwrap().is_empty());
}

#[test]
fn unfinished_part_is_dropped() {
    let text = "# Generated by ETF OCIO Maker v1\n# ----\n# color_space: Open\n";
    assert!(read_header(text).unwrap().is_empty());
}

#[test]
fn comment_lines_may_be_indented() {
    let text = "# Generated by ETF OCIO Maker v1\n\t# ----\n# color_space: A\n  # ----\n";
    let chunks = read_header(text).unwrap();
    assert_eq!(chunks.len(), 1);
    match &chunks[0] {
        ConfigChunk::Space(t) => assert_eq!(t, "color_space: A\n"),
        other => panic!("expected a color space, got {:?}", other),
    }
    // An indented content line keeps its '#', so its part is no color space.
    let text = "# Generated by ETF OCIO Maker v1\n# ----\n  # color_space: B\n# ----\n";
    assert!(read_header(text).unwrap().is_empty());
}

#[test]
fn non_ascii_indent_is_not_readable() {
    let text = "# Generated by ETF OCIO Maker v1\n\u{3000}# color_space: A\n";
    assert!(!header_readable(text));
    assert!(header_readable("# Generated by ETF OCIO Maker v1\n  # color_space: A\n"));
    assert!(header_readable("not ours\n\u{3000}# x\n"));
}

#[test]
fn space_names_are_escaped() {
    assert_eq!(
        escape_space_name("  a#b\\c\"d]e}f "),
        "a\\#b\\\\c\\\"d\\]e\\}f"
    );
    assert_eq!(escape_space_name("Plain Name"), "Plain Name");
    assert_ne!(escape_space_name("a\\#"), escape_space_name("a#"));
}

#[test]
fn lut_copies_are_named_by_index_and_file() {
    assert_eq!(lut_file_name(3, "/x/y/curve.spi1d"), "omkr_3__curve.spi1d");
    assert_eq!(lut_file_name(12, "rel/dir/film.cube"), "omkr_12__film.cube");
    assert_eq!(lut_file_name(0, "/"), "omkr_0__lut.cube");
    assert_ne!(lut_file_name(1, "a.cube"), lut_file_name(11, "a.cube"));
}

#[test]
fn export_needs_a_directory() {
    let working = ColorSpaceSpec::new_default();
    assert!(matches!(
        export_plan("1", BasePreset::Custom, &working, &[], ""),
        Err(ExportErr::NoDirectory)
    ));
}

#[test]
fn export_plan_lists_each_space() {
    let working = ColorSpaceSpec::new_default();
    let spaces = vec![
        space(" Cam #1 ", ChromaSpace::Rec709, REC2020, Some(("/out/luts/cam.cube", true)), true),
        space("Plain", ChromaSpace::NoChroma, REC2020, None, false),
    ];
    let plan = export_plan("3", BasePreset::Blender3_0, &working, &spaces, "/out").unwrap();
    assert_eq!(plan.header, header_comment("3", BasePreset::Blender3_0, &working, &spaces, "/out"));
    assert_eq!(plan.spaces.len(), 2);
    assert_eq!(plan.spaces[0].name, "Cam \\#1");
    assert_eq!(plan.spaces[0].lut_file, Some(("omkr_0__cam.cube".to_string(), true)));
    assert!(plan.spaces[0].display);
    assert_eq!(plan.spaces[1].name, "Plain");
    assert_eq!(plan.spaces[1].lut_file, None);
    assert!(!plan.spaces[1].display);
}

#[test]
fn lut_copy_names_from_file_names() {
    assert_eq!(lut_copy_name(7, Some("film.cube")), "omkr_7__film.cube");
    assert_eq!(lut_copy_name(0, None), "omkr_0__lut.cube");
    assert_eq!(lut_copy_name(10, Some("")), "omkr_10__");
}

#[test]
fn reference_gamut_per_preset() {
    let none = ColorSpaceSpec::new_default();
    assert!(matches!(reference_gamut(BasePreset::Custom, &none), Gamut::Listed(ChromaSpace::Rec709)));
    let p3 = space("W", ChromaSpace::DciP3, REC2020, None, false);
    assert!(matches!(reference_gamut(BasePreset::Custom, &p3), Gamut::Listed(ChromaSpace::DciP3)));
    let custom = space("W", ChromaSpace::Custom, "0.7 0.3 0.2 0.7 0.15 0.05 0.31 0.33", None, false);
    match reference_gamut(BasePreset::Custom, &custom) {
        Gamut::Coordinates(t) => assert_eq!(t, "0.7 0.3 0.2 0.7 0.15 0.05 0.31 0.33"),
        other => panic!("unexpected {:?}", other),
    }
    assert!(matches!(reference_gamut(BasePreset::Blender3_0, &p3), Gamut::BlenderReference));
    assert!(matches!(reference_gamut(BasePreset::AcesLite, &p3), Gamut::Listed(ChromaSpace::AcesAP1)));
}

#[test]
fn each_space_keeps_its_gamut_or_takes_the_reference() {
    let working = space("W", ChromaSpace::ProPhoto, REC2020, None, false);
    let own = space("A", ChromaSpace::SGamut, REC2020, None, false);
    let none = space("B", ChromaSpace::NoChroma, REC2020, None, false);
    assert!(matches!(space_gamut(&own, BasePreset::Custom, &working), Gamut::Listed(ChromaSpace::SGamut)));
    assert!(matches!(space_gamut(&none, BasePreset::Custom, &working), Gamut::Listed(ChromaSpace::ProPhoto)));
    assert!(matches!(space_gamut(&none, BasePreset::AcesLite, &working), Gamut::Listed(ChromaSpace::AcesAP1)));
    let plan = export_plan("3", BasePreset::Blender3_0, &working, &[own, none], "/out").unwrap();
    assert!(matches!(plan.reference, Gamut::BlenderReference));
    assert!(matches!(plan.spaces[0].gamut, Gamut::Listed(ChromaSpace::SGamut)));
    assert!(matches!(plan.spaces[1].gamut, Gamut::BlenderReference));
}
