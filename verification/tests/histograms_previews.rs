use etf_image_tools::job_helpers::{exposure_settings, exposure_settings_of, load_1d_lut, lut_source, LutReadErr, LutSource};
use etf_image_tools::job_helpers::LutReadErr::{Format, Io};
use etf_image_tools::job_helpers::{has_3d_size, has_table_opener, pick_lut};
use etf_image_tools::job_helpers::{lut_format, lut_format_of_extension, LutFormat};
use etf_image_tools::histogram::Histogram;
use etf_image_tools::lut_maker::ExportFormat;
use etf_image_tools::job_helpers::{compute_image_histograms, preview_dimensions, ImageData};

#[test]
fn histogram_of_bytes() {
    let h = Histogram::from_u8s(&[0, 255, 7, 7, 0, 7]);
    assert_eq!(h.total_samples, 6);
    assert_eq!(h.buckets.len(), 256);
    assert_eq!(h.buckets[0], 2);
    assert_eq!(h.buckets[7], 3);
    assert_eq!(h.buckets[255], 1);
    assert_eq!(h.buckets.iter().sum::<usize>(), h.total_samples);
}

#[test]
fn histogram_of_words() {
    let h = Histogram::from_u16s(&[65535, 1000, 1000]);
    assert_eq!(h.buckets.len(), 65536);
    assert_eq!(h.buckets[1000], 2);
    assert_eq!(h.buckets[65535], 1);
    assert_eq!(h.total_samples, 3);
    let e = Histogram::from_u8s(&[]);
    assert_eq!(e.total_samples, 0);
    assert!(e.buckets.iter().all(|&b| b == 0));
}

#[test]
fn channel_histograms() {
    let img = ImageData::Rgb8(vec![1, 2, 3, 1, 5, 6]);
    let [r, g, b] = compute_image_histograms(&img);
    assert_eq!(r.buckets[1], 2);
    assert_eq!(g.buckets[2], 1);
    assert_eq!(g.buckets[5], 1);
    assert_eq!(b.buckets[6], 1);
    assert_eq!(r.total_samples, 2);
    let img16 = ImageData::Rgb16(vec![300, 0, 0]);
    let [r16, _, b16] = compute_image_histograms(&img16);
    assert_eq!(r16.buckets.len(), 65536);
    assert_eq!(r16.buckets[300], 1);
    assert_eq!(b16.buckets[0], 1);
}

#[test]
fn preview_sizes() {
    assert_eq!(preview_dimensions((4000, 3000), None, None), (4000, 3000));
    assert_eq!(preview_dimensions((4000, 3000), Some(128), None), (128, 96));
    assert_eq!(preview_dimensions((4000, 3000), None, Some(300)), (400, 300));
    assert_eq!(preview_dimensions((4000, 3000), Some(100), Some(100)), (100, 75));
    assert_eq!(preview_dimensions((3000, 4000), Some(100), Some(100)), (75, 100));
    // Never scaled up.
    assert_eq!(preview_dimensions((64, 48), Some(128), Some(128)), (64, 48));
    assert_eq!(preview_dimensions((64, 48), Some(128), None), (64, 48));
}

#[test]
fn exif_settings_that_count() {
    let s = exposure_settings(Some((1, 250)), Some((28, 10)), Some(400));
    assert_eq!(s.exposure_time, Some((1, 250)));
    assert_eq!(s.fstop, Some((28, 10)));
    assert_eq!(s.iso, Some(400));
    let z = exposure_settings(Some((0, 250)), Some((28, 0)), Some(0));
    assert_eq!(z.exposure_time, None);
    assert_eq!(z.fstop, None);
    assert_eq!(z.iso, None);
    let n = exposure_settings(None, None, None);
    assert_eq!(n.exposure_time, None);
}

#[test]
fn lut_files_by_extension() {
    assert_eq!(lut_format("/luts/log.cube"), Some(LutFormat::Cube));
    assert_eq!(lut_format("rel/curve.spi1d"), Some(LutFormat::Spi1D));
    assert_eq!(lut_format("LOG.CUBE"), None);
    assert_eq!(lut_format("/luts/noext"), None);
    assert_eq!(lut_format("/luts/.cube"), None);
}

#[test]
fn lut_format_by_extension_text() {
    assert_eq!(lut_format_of_extension(Some("cube")), Some(LutFormat::Cube));
    assert_eq!(lut_format_of_extension(Some("spi1d")), Some(LutFormat::Spi1D));
    assert_eq!(lut_format_of_extension(Some("Cube")), None);
    assert_eq!(lut_format_of_extension(Some("")), None);
    assert_eq!(lut_format_of_extension(None), None);
}

#[test]
fn exported_lut_is_read_back_in_its_format() {
    assert_eq!(lut_format_of_extension(Some(ExportFormat::Cube.ext())), Some(LutFormat::Cube));
    assert_eq!(lut_format_of_extension(Some(ExportFormat::Spi1D.ext())), Some(LutFormat::Spi1D));
    let path = format!("/tmp/out.{}", ExportFormat::Spi1D.ext());
    assert_eq!(lut_format(&path), Some(LutFormat::Spi1D));
}

#[test]
fn loading_lut_files_by_their_contents() {
    let iridas = b"TITLE \"t\"\nLUT_1D_SIZE 2\n0 0 0\n1 1 1\n";
    let (lut, src) = load_1d_lut("/luts/a.cube", iridas).unwrap();
    assert_eq!(src, LutSource::CubeIridas);
    assert_eq!(lut.tables.len(), 3);
    assert_eq!(lut.tables[0], vec![0.0, 1.0]);

    let resolve = b"LUT_1D_SIZE 2\nLUT_1D_INPUT_RANGE 0 2\n0 0 0\n1 1 1\n";
    let (lut, src) = load_1d_lut("/luts/b.cube", resolve).unwrap();
    assert_eq!(src, LutSource::CubeResolve);
    assert_eq!(lut.ranges, vec![(0.0, 2.0)]);

    let only_3d = b"LUT_3D_SIZE 2\n0 0 0\n1 0 0\n0 1 0\n1 1 0\n0 0 1\n1 0 1\n0 1 1\n1 1 1\n";
    assert!(matches!(load_1d_lut("/luts/c.cube", only_3d), Err(LutReadErr::Format)));

    let spi = b"Version 1\nFrom 0 1\nLength 2\nComponents 1\n{\n0\n1\n}\n";
    let (lut, src) = load_1d_lut("/luts/d.spi1d", spi).unwrap();
    assert_eq!(src, LutSource::Spi1D);
    assert_eq!(lut.tables[0], vec![0.0, 1.0]);

    // The extension decides the reader.
    assert!(matches!(load_1d_lut("/luts/d.cube", spi), Err(LutReadErr::Format)));
    assert!(matches!(load_1d_lut("/luts/a.txt", iridas), Err(LutReadErr::Format)));
    // Text that is not UTF-8, before the table.
    assert!(matches!(load_1d_lut("/luts/e.spi1d", &[0xff, 0xfe, 0x0a, 0x7b, 0x0a]), Err(LutReadErr::Io)));
    // Without a table the text is no SPI 1D LUT, whatever it holds.
    assert!(matches!(load_1d_lut("/luts/f.spi1d", &[0xff, 0xfe, 0x0a]), Err(LutReadErr::Format)));
}

#[test]
fn choosing_the_lut_reader() {
    let cube = Some(LutFormat::Cube);
    assert_eq!(lut_source(cube, None, Err(Io), Some(Io)), Ok(LutSource::CubeIridas));
    assert_eq!(lut_source(cube, Some(Format), Ok((true, false)), None), Ok(LutSource::CubeResolve));
    assert_eq!(lut_source(cube, Some(Format), Ok((true, true)), None), Err(Format));
    assert_eq!(lut_source(cube, Some(Format), Ok((false, true)), None), Err(Format));
    assert_eq!(lut_source(cube, Some(Format), Err(Io), None), Err(Io));
    assert_eq!(lut_source(Some(LutFormat::Spi1D), None, Ok((true, false)), Some(Io)), Err(Io));
    assert_eq!(lut_source(Some(LutFormat::Spi1D), Some(Io), Err(Io), None), Ok(LutSource::Spi1D));
    assert_eq!(lut_source(None, None, Ok((true, false)), None), Err(Format));
}

#[test]
fn exposure_settings_of_a_file_without_exif() {
    let s = exposure_settings_of(b"not an image at all");
    assert_eq!(s.exposure_time, None);
    assert_eq!(s.fstop, None);
    assert_eq!(s.iso, None);
}

#[test]
fn lut_texts_that_would_stop_the_readers_are_refused() {
    // An empty SPI 1D file opens no table.
    assert!(matches!(load_1d_lut("/luts/empty.spi1d", b""), Err(Format)));
    assert!(matches!(load_1d_lut("/luts/head.spi1d", b"Version 1\nLength 2\n"), Err(Format)));
    // A 3D size that overflows when cubed.
    let huge = b"LUT_3D_SIZE 3000000\n0 0 0\n";
    assert!(matches!(load_1d_lut("/luts/huge.cube", huge), Err(Format)));
}

#[test]
fn spotting_table_openers_and_3d_sizes() {
    assert!(has_table_opener(b"Version 1\n  {\r\n0\n}\n"));
    assert!(has_table_opener(b"{"));
    assert!(!has_table_opener(b"{ 0\n"));
    assert!(!has_table_opener(b"x{\n"));
    assert!(!has_table_opener(b""));
    assert!(has_3d_size(b"TITLE \"a\"\n\tLUT_3D_SIZE 33\n"));
    assert!(has_3d_size(b"LUT_3D_SIZE"));
    assert!(!has_3d_size(b"# LUT_3D_SIZE 33\n"));
    assert!(!has_3d_size(b"LUT_3D_SIZEX 33\n"));
    assert!(!has_3d_size(b"LUT_1D_SIZE 33\n"));
}

#[test]
fn picking_the_readers_lut() {
    let lut = |v: f32| colorbox::lut::Lut1D { ranges: vec![(0.0, 1.0)], tables: vec![vec![v]] };
    let got = pick_lut(LutSource::CubeResolve, Some(lut(1.0)), Some(lut(2.0)), None).unwrap();
    assert_eq!(got.tables[0], vec![2.0]);
    let got = pick_lut(LutSource::Spi1D, Some(lut(1.0)), None, Some(lut(3.0))).unwrap();
    assert_eq!(got.tables[0], vec![3.0]);
    assert!(pick_lut(LutSource::CubeIridas, None, Some(lut(2.0)), None).is_none());
}
