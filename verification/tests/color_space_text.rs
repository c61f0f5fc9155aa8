use etf_image_tools::ocio_maker::chroma::{chroma_spaces, ChromaSpace};
use etf_image_tools::ocio_maker::color_space_spec::{ColorSpaceSpec, ConfigLoadErr, OutsideCheck};

const REC2020: &str = "0.708 0.292 0.17 0.797 0.131 0.046 0.3127 0.329";

fn make_space(
    name: &str,
    chroma: ChromaSpace,
    custom: &str,
    lut: Option<(&str, bool)>,
    display: bool,
) -> ColorSpaceSpec {
    ColorSpaceSpec {
        name: name.to_string(),
        transfer_lut: lut.map(|(p, inv)| (p.to_string(), inv)),
        chroma_space: chroma,
        custom_chroma: custom.to_string(),
        include_as_display: display,
    }
}

fn passing(text: &str) -> Vec<bool> {
    vec![true; ColorSpaceSpec::outside_checks(text).len()]
}

#[test]
fn new_color_space_defaults() {
    let s = ColorSpaceSpec::new_default();
    assert_eq!(s.name, "");
    assert_eq!(s.transfer_lut, None);
    assert_eq!(s.chroma_space, ChromaSpace::NoChroma);
    assert_eq!(s.custom_chroma, REC2020);
    assert!(!s.include_as_display);
    let n = ColorSpaceSpec::with_name("Film Scan");
    assert_eq!(n.name, "Film Scan");
    assert_eq!(n.chroma_space, ChromaSpace::NoChroma);
}

#[test]
fn full_text_of_a_color_space() {
    let s = make_space(" Scan ", ChromaSpace::Custom, "0.1 0.2 0.3 0.4 0.5 0.6 0.7 0.8", Some(("/a/b.cube", false)), true);
    assert_eq!(
        s.to_string(None, false),
        "color_space: Scan\n\
         include_as_display: true\n\
         chroma_space: Custom\n\
         custom_chroma: 0.1 0.2 0.3 0.4 0.5 0.6 0.7 0.8\n\
         transfer_lut_path: /a/b.cube\n\
         transfer_lut_use_inverse: false\n"
    );
}

#[test]
fn chroma_only_text_holds_the_gamut_alone() {
    let s = make_space("Scan", ChromaSpace::DciP3, REC2020, Some(("/a/b.cube", true)), true);
    assert_eq!(s.to_string(None, true), "chroma_space: DciP3\n");
    let none = make_space("Scan", ChromaSpace::NoChroma, REC2020, None, false);
    assert_eq!(none.to_string(None, true), "");
}

#[test]
fn lut_path_is_written_relative_to_base() {
    let s = make_space("Cam", ChromaSpace::NoChroma, REC2020, Some(("/proj/luts/log.spi1d", true)), false);
    assert_eq!(
        s.to_string(Some("/proj"), false),
        "color_space: Cam\n\
         include_as_display: false\n\
         transfer_lut_path: luts/log.spi1d\n\
         transfer_lut_use_inverse: true\n"
    );
    assert!(s.to_string(Some("/other/place"), false).contains("transfer_lut_path: ../../proj/luts/log.spi1d\n"));
}

#[test]
fn text_with_given_lut_path() {
    let s = make_space("Cam", ChromaSpace::NoChroma, REC2020, Some(("/proj/luts/log.spi1d", false)), true);
    assert_eq!(
        s.text_with_lut_path("../log.spi1d", false),
        "color_space: Cam\n\
         include_as_display: true\n\
         transfer_lut_path: ../log.spi1d\n\
         transfer_lut_use_inverse: false\n"
    );
    // The path is only written for a space that has a transfer function.
    let plain = make_space("Plain", ChromaSpace::NoChroma, REC2020, None, false);
    assert_eq!(
        plain.text_with_lut_path("ignored.cube", false),
        "color_space: Plain\ninclude_as_display: false\n"
    );
    assert_eq!(s.text_with_lut_path("x.cube", true), "");
}

#[test]
fn reading_text_back() {
    let text = "color_space:  Tape \n\
                include_as_display: true\n\
                chroma_space: ARRIWideGamut4\n\
                unknown_key: whatever\n\
                a line without colon\n\
                transfer_lut_path: curves/tape.cube\n\
                transfer_lut_use_inverse: true\n";
    let checks = ColorSpaceSpec::outside_checks(text);
    assert_eq!(checks.len(), 1);
    assert!(matches!(&checks[0], OutsideCheck::LutPath(p) if p == "curves/tape.cube"));
    let (s, res) = ColorSpaceSpec::from_str(text, None, &[true]);
    assert!(res.is_ok());
    assert_eq!(s.name, "Tape");
    assert!(s.include_as_display);
    assert_eq!(s.chroma_space, ChromaSpace::ARRIWideGamut4);
    assert_eq!(s.transfer_lut, Some(("curves/tape.cube".to_string(), true)));
    // With a base folder the relative path is taken in terms of it.
    let (s, _) = ColorSpaceSpec::from_str(text, Some("/configs"), &[true]);
    assert_eq!(s.transfer_lut, Some(("/configs/curves/tape.cube".to_string(), true)));
    // An absolute path stays as it is.
    let abs = "transfer_lut_path: /luts/a.cube\n";
    let (s, _) = ColorSpaceSpec::from_str(abs, Some("/configs"), &[true]);
    assert_eq!(s.transfer_lut, Some(("/luts/a.cube".to_string(), false)));
    // The note names the path as written.
    let (s, res) = ColorSpaceSpec::from_str(text, Some("/configs"), &[false]);
    assert_eq!(s.transfer_lut, None);
    assert!(matches!(res, Err(ConfigLoadErr::FileUnloadable(p)) if p == "curves/tape.cube"));
}

#[test]
fn unknown_gamut_reads_as_none() {
    let (s, res) = ColorSpaceSpec::from_str("chroma_space: Mystery\n", None, &[]);
    assert!(res.is_ok());
    assert_eq!(s.chroma_space, ChromaSpace::NoChroma);
}

#[test]
fn failed_checks_keep_defaults_and_report_lut() {
    let text = "custom_chroma: 1 2 3\ntransfer_lut_path: gone.cube\ntransfer_lut_use_inverse: true\n";
    let checks = ColorSpaceSpec::outside_checks(text);
    assert_eq!(checks.len(), 2);
    assert!(matches!(&checks[0], OutsideCheck::CustomChroma(c) if c == "1 2 3"));
    let (s, res) = ColorSpaceSpec::from_str(text, None, &[false, false]);
    assert_eq!(s.custom_chroma, REC2020);
    assert_eq!(s.transfer_lut, None);
    match res {
        Err(ConfigLoadErr::FileUnloadable(p)) => assert_eq!(p, "gone.cube"),
        Ok(()) => panic!("expected an error"),
    }
}

#[test]
fn color_space_round_trip() {
    let s = make_space("  Graded Out ", ChromaSpace::Custom, "0.68 0.32 0.265 0.69 0.15 0.06 0.314 0.351", Some(("grade/out.cube", true)), true);
    let text = s.to_string(None, false);
    let (back, res) = ColorSpaceSpec::from_str(&text, None, &passing(&text));
    assert!(res.is_ok());
    assert_eq!(back.name, "Graded Out");
    assert_eq!(back.chroma_space, ChromaSpace::Custom);
    assert_eq!(back.custom_chroma, "0.68 0.32 0.265 0.69 0.15 0.06 0.314 0.351");
    assert_eq!(back.transfer_lut, Some(("grade/out.cube".to_string(), true)));
    assert!(back.include_as_display);
}

#[test]
fn every_gamut_round_trips_through_text() {
    for c in chroma_spaces() {
        let s = make_space("G", c, REC2020, None, false);
        let text = s.to_string(None, false);
        let (back, res) = ColorSpaceSpec::from_str(&text, None, &passing(&text));
        assert!(res.is_ok());
        assert_eq!(back.chroma_space, c);
    }
}

#[test]
fn whitespace_at_line_ends_is_ignored() {
    let plain = "color_space: X\nchroma_space: Rec709\n";
    let padded = "  color_space: X  \n\tchroma_space: Rec709 \n";
    let (a, _) = ColorSpaceSpec::from_str(plain, None, &[]);
    let (b, _) = ColorSpaceSpec::from_str(padded, None, &[]);
    assert_eq!(a.name, b.name);
    assert_eq!(a.chroma_space, b.chroma_space);
}
