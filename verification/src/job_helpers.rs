//! Work the tools share: the size an image preview is scaled to, the
//! per-channel histograms of an RGB image, the Exif exposure settings that
//! count, loading a 1D LUT file, and the working directory that follows the
//! files picked in a dialog.
use vstd::prelude::*;

use crate::histogram::{is_histogram_of, sum, Histogram};
use crate::text::{chars_of, eq_str};

verus! {

/// The size of a preview of an image of size `old`, scaled down (never up) to
/// fit the given maximum width and height, keeping the aspect ratio with
/// integer division.
pub open spec fn preview_dims(old: (usize, usize), max_width: Option<usize>, max_height: Option<usize>) -> (
    int,
    int,
) {
    let (w0, h0) = (old.0 as int, old.1 as int);
    match (max_width, max_height) {
        (None, None) => (w0, h0),
        (Some(w), None) => if w < w0 {
            (w as int, h0 * w / w0)
        } else {
            (w0, h0)
        },
        (None, Some(h)) => if h < h0 {
            (w0 * h / h0, h as int)
        } else {
            (w0, h0)
        },
        (Some(w), Some(h)) => if w >= w0 && h >= h0 {
            (w0, h0)
        } else {
            let new_w = w0 * h / h0;
            let new_h = h0 * w / w0;
            if new_w > w {
                (w as int, new_h)
            } else {
                (new_w, h as int)
            }
        },
    }
}

/// The inputs on which the preview size can be computed without overflow or a
/// division by zero.
pub open spec fn preview_computable(
    old: (usize, usize),
    max_width: Option<usize>,
    max_height: Option<usize>,
) -> bool {
    let (w0, h0) = (old.0 as int, old.1 as int);
    match (max_width, max_height) {
        (None, None) => true,
        (Some(w), None) => w < w0 ==> h0 * w <= usize::MAX,
        (None, Some(h)) => h < h0 ==> w0 * h <= usize::MAX,
        (Some(w), Some(h)) => !(w >= w0 && h >= h0) ==> w0 > 0 && h0 > 0 && w0 * h <= usize::MAX
            && h0 * w <= usize::MAX,
    }
}

proof fn lemma_scaled_down(a: int, b: int, c: int)
    by (nonlinear_arith)
    requires
        0 <= a,
        0 <= b < c,
    ensures
        0 <= a * b / c <= a,
{
}

proof fn lemma_scaled_up(a: int, b: int, c: int)
    by (nonlinear_arith)
    requires
        0 <= a,
        0 < c <= b,
    ensures
        a * b / c >= a,
{
}

proof fn lemma_cross_bound(w0: int, h0: int, w: int, h: int)
    by (nonlinear_arith)
    requires
        w0 > 0,
        h0 > 0,
        w >= 0,
        h >= 0,
        w0 * h / h0 > w,
    ensures
        h0 * w / w0 <= h,
        w < w0 || h < h0 ==> w < w0,
{
}

/// `q` is the quotient of `a` by `c`, rounded down: `c * q <= a < c * (q + 1)`.
pub open spec fn is_floor_quotient(q: int, a: int, c: int) -> bool {
    c * q <= a < c * q + c
}

proof fn lemma_floor_div(a: int, c: int)
    requires
        0 <= a,
        0 < c,
    ensures
        is_floor_quotient(a / c, a, c),
{
    vstd::arithmetic::div_mod::lemma_fundamental_div_mod(a, c);
    vstd::arithmetic::div_mod::lemma_mod_pos_bound(a, c);
}

/// A preview keeps the image's aspect ratio: the side that is bounded takes
/// its bound, and the other side is scaled by the same factor, rounded down.
/// A bounded width `w` narrower than the image gives height
/// `old.1 * w / old.0`; a bounded height `h` lower than the image gives width
/// `old.0 * h / old.1`; with both bounds, one of the two holds, the preview
/// fits both, and it takes the full height wherever the width that goes with
/// it fits.  An image that fits the bounds is kept as it is.
pub proof fn lemma_preview_keeps_aspect_ratio(
    old: (usize, usize),
    max_width: Option<usize>,
    max_height: Option<usize>,
)
    requires
        preview_computable(old, max_width, max_height),
    ensures
        ({
            let (w0, h0) = (old.0 as int, old.1 as int);
            let (rw, rh) = preview_dims(old, max_width, max_height);
            let width_bound = rw == max_width->0 && is_floor_quotient(rh, h0 * rw, w0);
            let height_bound = rh == max_height->0 && is_floor_quotient(rw, w0 * rh, h0);
            match (max_width, max_height) {
                (None, None) => rw == w0 && rh == h0,
                (Some(w), None) => if w < w0 {
                    width_bound
                } else {
                    rw == w0 && rh == h0
                },
                (None, Some(h)) => if h < h0 {
                    height_bound
                } else {
                    rw == w0 && rh == h0
                },
                (Some(w), Some(h)) => if w >= w0 && h >= h0 {
                    rw == w0 && rh == h0
                } else {
                    &&& width_bound || height_bound
                    &&& rw <= w && rh <= h
                    &&& (w0 * h / h0 <= w ==> rh == h)
                    &&& (w0 * h / h0 > w ==> rw == w)
                },
            }
        }),
{
    let (w0, h0) = (old.0 as int, old.1 as int);
    match (max_width, max_height) {
        (Some(w), None) => {
            if w < w0 {
                lemma_floor_div(h0 * w, w0);
            }
        },
        (None, Some(h)) => {
            if h < h0 {
                lemma_floor_div(w0 * h, h0);
            }
        },
        (Some(w), Some(h)) => {
            if !(w >= w0 && h >= h0) {
                lemma_floor_div(h0 * w, w0);
                lemma_floor_div(w0 * h, h0);
                let new_w = w0 * h / h0;
                if new_w > w {
                    lemma_cross_bound(w0, h0, w as int, h as int);
                } else if h >= h0 {
                    lemma_scaled_up(w0, h as int, h0);
                }
            }
        },
        (None, None) => {},
    }
}

/// The size an image preview is made at; the pixels are resized by the
/// caller.  The preview fits the given bounds, and is never larger than the
/// image in either direction.
pub fn preview_dimensions(old: (usize, usize), max_width: Option<usize>, max_height: Option<usize>) -> (r: (
    usize,
    usize,
))
    requires
        preview_computable(old, max_width, max_height),
    ensures
        r.0 == preview_dims(old, max_width, max_height).0,
        r.1 == preview_dims(old, max_width, max_height).1,
        r.0 <= old.0,
        r.1 <= old.1,
        max_width matches Some(w) ==> r.0 <= w,
        max_height matches Some(h) ==> r.1 <= h,
{
    let (w0, h0) = old;
    match (max_width, max_height) {
        (None, None) => old,
        (Some(w), None) => {
            if w < w0 {
                proof {
                    lemma_scaled_down(h0 as int, w as int, w0 as int);
                }
                (w, h0 * w / w0)
            } else {
                old
            }
        },
        (None, Some(h)) => {
            if h < h0 {
                proof {
                    lemma_scaled_down(w0 as int, h as int, h0 as int);
                }
                (w0 * h / h0, h)
            } else {
                old
            }
        },
        (Some(w), Some(h)) => {
            if w >= w0 && h >= h0 {
                old
            } else {
                let new_w = w0 * h / h0;
                let new_h = h0 * w / w0;
                if new_w > w {
                    proof {
                        lemma_cross_bound(w0 as int, h0 as int, w as int, h as int);
                        lemma_scaled_down(h0 as int, w as int, w0 as int);
                    }
                    (w, new_h)
                } else {
                    proof {
                        if h >= h0 {
                            assert(w < w0);
                            lemma_scaled_up(w0 as int, h as int, h0 as int);
                        }
                        lemma_scaled_down(w0 as int, h as int, h0 as int);
                    }
                    (new_w, h)
                }
            }
        },
    }
}

/// Decoded pixels: 8- or 16-bit RGB, interleaved, or another layout.
#[derive(Debug)]
pub enum ImageData {
    Rgb8(Vec<u8>),
    Rgb16(Vec<u16>),
    Other,
}

/// The values of one channel of interleaved RGB samples.
pub open spec fn channel(s: Seq<int>, chan: int) -> Seq<int> {
    Seq::new((s.len() / 3) as nat, |k: int| s[3 * k + chan])
}

/// The samples of `data` as integers.
pub open spec fn samples(data: ImageData) -> Seq<int> {
    match data {
        ImageData::Rgb8(v) => v@.map_values(|x: u8| x as int),
        ImageData::Rgb16(v) => v@.map_values(|x: u16| x as int),
        ImageData::Other => Seq::<int>::empty(),
    }
}

fn channel_u8(buf: &Vec<u8>, chan: usize) -> (r: Vec<u8>)
    requires
        chan < 3,
        buf@.len() % 3 == 0,
    ensures
        r@.map_values(|x: u8| x as int) == channel(buf@.map_values(|x: u8| x as int), chan as int),
{
    let mut r: Vec<u8> = Vec::new();
    let len = buf.len();
    let n = len / 3;
    let mut k: usize = 0;
    while k < n
        invariant
            len == buf@.len(),
            chan < 3,
            n == buf@.len() / 3,
            buf@.len() % 3 == 0,
            k <= n,
            r@.len() == k,
            forall|j: int| 0 <= j < k ==> r@[j] == buf@[3 * j + chan],
        decreases n - k,
    {
        assert(3 * k + chan < buf@.len()) by (nonlinear_arith)
            requires
                k < n,
                n == buf@.len() / 3,
                chan < 3,
        ;
        r.push(buf[3 * k + chan]);
        k += 1;
    }
    assert(r@.map_values(|x: u8| x as int) =~= channel(buf@.map_values(|x: u8| x as int), chan as int));
    r
}

fn channel_u16(buf: &Vec<u16>, chan: usize) -> (r: Vec<u16>)
    requires
        chan < 3,
        buf@.len() % 3 == 0,
    ensures
        r@.map_values(|x: u16| x as int) == channel(buf@.map_values(|x: u16| x as int), chan as int),
{
    let mut r: Vec<u16> = Vec::new();
    let len = buf.len();
    let n = len / 3;
    let mut k: usize = 0;
    while k < n
        invariant
            len == buf@.len(),
            chan < 3,
            n == buf@.len() / 3,
            buf@.len() % 3 == 0,
            k <= n,
            r@.len() == k,
            forall|j: int| 0 <= j < k ==> r@[j] == buf@[3 * j + chan],
        decreases n - k,
    {
        assert(3 * k + chan < buf@.len()) by (nonlinear_arith)
            requires
                k < n,
                n == buf@.len() / 3,
                chan < 3,
        ;
        r.push(buf[3 * k + chan]);
        k += 1;
    }
    assert(r@.map_values(|x: u16| x as int) =~= channel(
        buf@.map_values(|x: u16| x as int),
        chan as int,
    ));
    r
}

/// The red, green and blue histograms of an RGB image: 256 buckets each for
/// 8-bit samples, 65536 for 16-bit ones.
pub fn compute_image_histograms(data: &ImageData) -> (r: [Histogram; 3])
    requires
        data matches ImageData::Rgb8(v) ==> v@.len() % 3 == 0,
        data matches ImageData::Rgb16(v) ==> v@.len() % 3 == 0,
        !(data is Other),
    ensures
        forall|chan: int|
            0 <= chan < 3 ==> {
                &&& is_histogram_of(
                    #[trigger] r[chan].buckets@,
                    channel(samples(*data), chan),
                    if data is Rgb8 {
                        256nat
                    } else {
                        65536nat
                    },
                )
                &&& r[chan].total_samples == samples(*data).len() / 3
                &&& sum(r[chan].buckets@) == r[chan].total_samples
            },
{
    match data {
        ImageData::Rgb8(buf) => {
            let r = Histogram::from_u8s(&channel_u8(buf, 0));
            let g = Histogram::from_u8s(&channel_u8(buf, 1));
            let b = Histogram::from_u8s(&channel_u8(buf, 2));
            [r, g, b]
        },
        ImageData::Rgb16(buf) => {
            let r = Histogram::from_u16s(&channel_u16(buf, 0));
            let g = Histogram::from_u16s(&channel_u16(buf, 1));
            let b = Histogram::from_u16s(&channel_u16(buf, 2));
            [r, g, b]
        },
        ImageData::Other => {
            proof {
                assert(false);
            }
            [
                Histogram { total_samples: 0, buckets: Vec::new() },
                Histogram { total_samples: 0, buckets: Vec::new() },
                Histogram { total_samples: 0, buckets: Vec::new() },
            ]
        },
    }
}

/// The Exif exposure settings an image's exposure is computed from.
#[derive(Debug, Copy, Clone)]
pub struct ExposureSettings {
    /// Seconds, as a ratio.
    pub exposure_time: Option<(u32, u32)>,
    /// The f-number, as a ratio.
    pub fstop: Option<(u32, u32)>,
    pub iso: Option<u32>,
}

/// A ratio counts where neither of its parts is zero.
pub open spec fn usable_ratio(r: Option<(u32, u32)>) -> Option<(u32, u32)> {
    match r {
        Some((n, d)) if n != 0 && d != 0 => Some((n, d)),
        _ => None,
    }
}

/// The settings that count of those an image's Exif data records: the
/// exposure time and the f-number where neither part of the ratio is zero,
/// the ISO sensitivity where it is not zero.
pub fn exposure_settings(
    exposure_time: Option<(u32, u32)>,
    fnumber: Option<(u32, u32)>,
    sensitivity: Option<u32>,
) -> (r: ExposureSettings)
    ensures
        r.exposure_time == usable_ratio(exposure_time),
        r.fstop == usable_ratio(fnumber),
        r.iso == (match sensitivity {
            Some(n) if n != 0 => Some(n),
            _ => None,
        }),
{
    let exposure_time = match exposure_time {
        Some((n, d)) if n != 0 && d != 0 => Some((n, d)),
        _ => None,
    };
    let fstop = match fnumber {
        Some((n, d)) if n != 0 && d != 0 => Some((n, d)),
        _ => None,
    };
    let iso = match sensitivity {
        Some(n) if n != 0 => Some(n),
        _ => None,
    };
    ExposureSettings { exposure_time, fstop, iso }
}

/// What an image file's Exif data records, as `kamadak-exif` reads it from
/// the file's contents `bytes`: the first ratio of the exposure time, the
/// first ratio of the f-number, and the ISO sensitivity as an unsigned
/// integer; none of them where the data cannot be read.
pub uninterp spec fn exif_fields(bytes: Seq<u8>) -> (Option<(u32, u32)>, Option<(u32, u32)>, Option<u32>);

/// Reads the Exif exposure time, f-number and ISO sensitivity with
/// `exif::Reader::read_from_container` and `Exif::get_field` (primary
/// image); the contract claims only that the result is `exif_fields` of the
/// contents.
#[verifier::external_body]
fn read_exif_fields(bytes: &[u8]) -> (r: (Option<(u32, u32)>, Option<(u32, u32)>, Option<u32>))
    ensures
        r == exif_fields(bytes@),
{
    let e = match exif::Reader::new().read_from_container(&mut std::io::Cursor::new(bytes)) {
        Ok(e) => e,
        Err(_) => return (None, None, None),
    };
    let ratio = |t: exif::Tag| match e.get_field(t, exif::In::PRIMARY).map(|f| &f.value) {
        Some(exif::Value::Rational(v)) => v.first().map(|r| (r.num, r.denom)),
        _ => None,
    };
    let iso = e.get_field(exif::Tag::PhotographicSensitivity, exif::In::PRIMARY);
    (ratio(exif::Tag::ExposureTime), ratio(exif::Tag::FNumber), iso.and_then(|f| f.value.get_uint(0)))
}

/// The exposure settings that count of those recorded in the Exif data of
/// an image file with contents `bytes` (see [`exposure_settings`]).
pub fn exposure_settings_of(bytes: &[u8]) -> (r: ExposureSettings)
    ensures
        r.exposure_time == usable_ratio(exif_fields(bytes@).0),
        r.fstop == usable_ratio(exif_fields(bytes@).1),
        r.iso == (match exif_fields(bytes@).2 {
            Some(n) if n != 0 => Some(n),
            _ => None,
        }),
{
    let (time, fnumber, iso) = read_exif_fields(bytes);
    exposure_settings(time, fnumber, iso)
}

/// What `std::path::Path::extension` gives for `path`, as text: what
/// follows the last `.` of the file name, where there is one that does not
/// begin the name.  It follows the path syntax of the platform the crate is
/// built for, and reads no file system.
pub uninterp spec fn extension_text(path: Seq<char>) -> Option<Seq<char>>;

/// Calls `std::path::Path::extension` on a path given as text; the contract
/// claims only that its result, as text, is `extension_text` of the path.
#[verifier::external_body]
fn extension(path: &str) -> (r: Option<String>)
    ensures
        match r {
            Some(e) => extension_text(path@) == Some(e@),
            None => extension_text(path@) is None,
        },
{
    match std::path::Path::new(path).extension() {
        Some(e) => Some(e.to_string_lossy().into_owned()),
        None => None,
    }
}

/// What `std::path::Path::parent` gives for `path`, as text: the path
/// without its last component, where it has one.  It follows the path syntax
/// of the platform the crate is built for, and reads no file system.
pub uninterp spec fn parent_text(path: Seq<char>) -> Option<Seq<char>>;

/// Calls `std::path::Path::parent` on a path given as text; the contract
/// claims only that its result, as text, is `parent_text` of the path.
#[verifier::external_body]
pub(crate) fn parent_dir(path: &str) -> (r: Option<String>)
    ensures
        match r {
            Some(p) => parent_text(path@) == Some(p@),
            None => parent_text(path@) is None,
        },
{
    match std::path::Path::new(path).parent() {
        Some(p) => Some(p.to_string_lossy().into_owned()),
        None => None,
    }
}

/// The directory to go on in: `parent` where there is one, else `dir`.
pub open spec fn dir_or_parent(dir: Seq<char>, parent: Option<Seq<char>>) -> Seq<char> {
    match parent {
        Some(p) => p,
        None => dir,
    }
}

/// The working directory after a file dialog: the folder of the file
/// picked, where one was picked and its path has a folder; else unchanged.
pub open spec fn dir_after_pick(dir: Seq<char>, picked: Option<Seq<char>>) -> Seq<char> {
    match picked {
        Some(p) => dir_or_parent(dir, parent_text(p)),
        None => dir,
    }
}

/// Moves the working directory `dir` to `parent` where there is one.
pub fn move_to_parent(dir: &mut String, parent: Option<String>)
    ensures
        final(dir)@ == dir_or_parent(
            old(dir)@,
            match parent {
                Some(p) => Some(p@),
                None => None,
            },
        ),
{
    match parent {
        Some(p) => {
            *dir = p;
        },
        None => {},
    }
}

/// Moves the working directory to the folder of the file picked in a
/// dialog, where one was picked.
pub fn follow_picked_file(dir: &mut String, picked: Option<&str>)
    ensures
        final(dir)@ == dir_after_pick(
            old(dir)@,
            match picked {
                Some(p) => Some(p@),
                None => None,
            },
        ),
{
    match picked {
        Some(p) => move_to_parent(dir, parent_dir(p)),
        None => {},
    }
}

/// The formats a 1D LUT file can be read from.
#[derive(Debug, Copy, Clone, PartialEq, Eq, Structural)]
pub enum LutFormat {
    /// A `.cube` file, in either of its two dialects.
    Cube,
    Spi1D,
}

/// The format a file with extension `ext` is read as.
pub open spec fn format_of_extension(ext: Option<Seq<char>>) -> Option<LutFormat> {
    match ext {
        Some(e) => if e == "cube"@ {
            Some(LutFormat::Cube)
        } else if e == "spi1d"@ {
            Some(LutFormat::Spi1D)
        } else {
            None
        },
        None => None,
    }
}

pub open spec fn lut_format_of(path: Seq<char>) -> Option<LutFormat> {
    format_of_extension(extension_text(path))
}

/// The format a file with extension `ext` is read as: `cube` or `spi1d`,
/// exactly so; no other file is read.
pub fn lut_format_of_extension(ext: Option<&str>) -> (r: Option<LutFormat>)
    ensures
        r == format_of_extension(
            match ext {
                Some(e) => Some(e@),
                None => None,
            },
        ),
{
    match ext {
        Some(e) => {
            let c = chars_of(e);
            if eq_str(&c, "cube") {
                Some(LutFormat::Cube)
            } else if eq_str(&c, "spi1d") {
                Some(LutFormat::Spi1D)
            } else {
                None
            }
        },
        None => None,
    }
}

/// The format a 1D LUT file is read as, by the extension of its path.
pub fn lut_format(path: &str) -> (r: Option<LutFormat>)
    ensures
        r == lut_format_of(path@),
{
    match extension(path) {
        Some(e) => lut_format_of_extension(Some(e.as_str())),
        None => lut_format_of_extension(None),
    }
}

//------------------------------------------------------------------------
// Loading 1D LUT files.

#[verifier::external_type_specification]
#[verifier::external_body]
pub struct ExLut1D(colorbox::lut::Lut1D);

/// Why a LUT file's contents could not be read.
#[derive(Debug, Copy, Clone, PartialEq, Eq, Structural)]
pub enum LutReadErr {
    /// The text could not be read: it is not valid UTF-8.
    Io,
    /// The text is not a LUT of the expected form.
    Format,
}

/// The reader a LUT file was loaded with.
#[derive(Debug, Copy, Clone, PartialEq, Eq, Structural)]
pub enum LutSource {
    /// `colorbox::formats::cube_iridas::read_1d`.
    CubeIridas,
    /// `colorbox::formats::cube_resolve::read`, for a file holding a 1D LUT alone.
    CubeResolve,
    /// `colorbox::formats::spi1d::read`.
    Spi1D,
}

/// A byte that is whitespace within a line: tab, vertical tab, form feed,
/// carriage return or space; with `loose`, also any byte of a character
/// beyond ASCII, which may be Unicode whitespace.
pub open spec fn ws_byte(b: u8, loose: bool) -> bool {
    b == 9 || b == 11 || b == 12 || b == 13 || b == 32 || (loose && b >= 128)
}

/// No line break lies in `s[i..k)`.
pub open spec fn no_newline_in(s: Seq<u8>, i: int, k: int) -> bool {
    forall|j: int| i <= j < k ==> #[trigger] s[j] != 10
}

/// Only whitespace lies between the start of the line holding `k` and `k`.
pub open spec fn blank_before(s: Seq<u8>, k: int, loose: bool) -> bool {
    forall|i: int| 0 <= i < k && no_newline_in(s, i, k) ==> #[trigger] ws_byte(s[i], loose)
}

/// Only whitespace lies from `k` to the end of its line.
pub open spec fn blank_from(s: Seq<u8>, k: int, loose: bool) -> bool {
    forall|i: int| k <= i < s.len() && no_newline_in(s, k, i + 1) ==> #[trigger] ws_byte(s[i], loose)
}

/// A line of `s` holds `{` alone, with whitespace around it, at `k`.
pub open spec fn table_opener_at(s: Seq<u8>, k: int) -> bool {
    0 <= k < s.len() && s[k] == 123 && blank_before(s, k, false) && blank_from(s, k + 1, false)
}

/// The text has a line that opens a table, as an SPI 1D file does: `{`
/// alone, with whitespace around it.
pub open spec fn opens_table(s: Seq<u8>) -> bool {
    exists|k: int| table_opener_at(s, k)
}

/// The bytes of `LUT_3D_SIZE`.
pub open spec fn size_3d_keyword() -> Seq<u8> {
    seq![76u8, 85, 84, 95, 51, 68, 95, 83, 73, 90, 69]
}

/// A line of `s` begins, after whitespace, with the word `LUT_3D_SIZE` at
/// `k`.
pub open spec fn size_3d_word_at(s: Seq<u8>, k: int) -> bool {
    &&& 0 <= k
    &&& k + 11 <= s.len()
    &&& s.subrange(k, k + 11) == size_3d_keyword()
    &&& blank_before(s, k, true)
    &&& (k + 11 == s.len() || s[k + 11] == 10 || ws_byte(s[k + 11], true))
}

/// The text has a line declaring a 3D size, as a 3D `.cube` file does.
pub open spec fn declares_3d_size(s: Seq<u8>) -> bool {
    exists|k: int| size_3d_word_at(s, k)
}

fn is_ws_byte(b: u8, loose: bool) -> (r: bool)
    ensures
        r == ws_byte(b, loose),
{
    b == 9 || b == 11 || b == 12 || b == 13 || b == 32 || (loose && b >= 128)
}

fn blank_before_exec(s: &[u8], k: usize, loose: bool) -> (r: bool)
    requires
        k <= s@.len(),
    ensures
        r == blank_before(s@, k as int, loose),
{
    let mut p = k;
    while p > 0
        invariant
            p <= k <= s@.len(),
            forall|i: int| p <= i < k ==> s@[i] != 10 && ws_byte(s@[i], loose),
        decreases p,
    {
        let b = s[p - 1];
        if b == 10 {
            assert forall|i: int| 0 <= i < k && no_newline_in(s@, i, k as int) implies #[trigger] ws_byte(
                s@[i],
                loose,
            ) by {
                if i < p {
                    assert(s@[p - 1] != 10);
                }
            }
            return true;
        }
        if !is_ws_byte(b, loose) {
            assert(no_newline_in(s@, p - 1, k as int));
            assert(!ws_byte(s@[p - 1], loose));
            return false;
        }
        p -= 1;
    }
    true
}

fn blank_from_exec(s: &[u8], k: usize, loose: bool) -> (r: bool)
    requires
        k <= s@.len(),
    ensures
        r == blank_from(s@, k as int, loose),
{
    let mut p = k;
    while p < s.len()
        invariant
            k <= p <= s@.len(),
            forall|i: int| k <= i < p ==> s@[i] != 10 && ws_byte(s@[i], loose),
        decreases s@.len() - p,
    {
        let b = s[p];
        if b == 10 {
            assert forall|i: int|
                k <= i < s@.len() && no_newline_in(s@, k as int, i + 1) implies #[trigger] ws_byte(
                s@[i],
                loose,
            ) by {
                if i >= p {
                    assert(s@[p as int] != 10);
                }
            }
            return true;
        }
        if !is_ws_byte(b, loose) {
            assert(no_newline_in(s@, k as int, p + 1));
            assert(!ws_byte(s@[p as int], loose));
            return false;
        }
        p += 1;
    }
    true
}

/// Whether the text has a line that opens a table (see [`opens_table`]).
pub fn has_table_opener(s: &[u8]) -> (r: bool)
    ensures
        r == opens_table(s@),
{
    let mut k: usize = 0;
    while k < s.len()
        invariant
            k <= s@.len(),
            forall|j: int| 0 <= j < k ==> !table_opener_at(s@, j),
        decreases s@.len() - k,
    {
        if s[k] == 123 && blank_before_exec(s, k, false) && blank_from_exec(s, k + 1, false) {
            assert(table_opener_at(s@, k as int));
            return true;
        }
        k += 1;
    }
    false
}

fn size_3d_word_exec(s: &[u8], k: usize) -> (r: bool)
    requires
        k <= s@.len(),
    ensures
        r == size_3d_word_at(s@, k as int),
{
    if s.len() - k < 11 {
        return false;
    }
    let word = s[k] == 76 && s[k + 1] == 85 && s[k + 2] == 84 && s[k + 3] == 95 && s[k + 4] == 51
        && s[k + 5] == 68 && s[k + 6] == 95 && s[k + 7] == 83 && s[k + 8] == 73 && s[k + 9] == 90
        && s[k + 10] == 69;
    proof {
        if word {
            assert(s@.subrange(k as int, k + 11) =~= size_3d_keyword());
        } else if s@.subrange(k as int, k + 11) == size_3d_keyword() {
            assert(s@.subrange(k as int, k + 11)[0] == 76u8);
            assert(s@.subrange(k as int, k + 11)[1] == 85u8);
            assert(s@.subrange(k as int, k + 11)[2] == 84u8);
            assert(s@.subrange(k as int, k + 11)[3] == 95u8);
            assert(s@.subrange(k as int, k + 11)[4] == 51u8);
            assert(s@.subrange(k as int, k + 11)[5] == 68u8);
            assert(s@.subrange(k as int, k + 11)[6] == 95u8);
            assert(s@.subrange(k as int, k + 11)[7] == 83u8);
            assert(s@.subrange(k as int, k + 11)[8] == 73u8);
            assert(s@.subrange(k as int, k + 11)[9] == 90u8);
            assert(s@.subrange(k as int, k + 11)[10] == 69u8);
        }
    }
    if !word {
        return false;
    }
    let after = k + 11 == s.len() || s[k + 11] == 10 || is_ws_byte(s[k + 11], true);
    after && blank_before_exec(s, k, true)
}

/// Whether the text has a line declaring a 3D size (see
/// [`declares_3d_size`]).
pub fn has_3d_size(s: &[u8]) -> (r: bool)
    ensures
        r == declares_3d_size(s@),
{
    let mut k: usize = 0;
    while k < s.len()
        invariant
            k <= s@.len(),
            forall|j: int| 0 <= j < k ==> !size_3d_word_at(s@, j),
        decreases s@.len() - k,
    {
        if size_3d_word_exec(s, k) {
            return true;
        }
        k += 1;
    }
    assert forall|j: int| !size_3d_word_at(s@, j) by {
        if j >= s@.len() {
            assert(!(j + 11 <= s@.len()));
        }
    }
    false
}

/// Whether `colorbox::formats::cube_iridas::read_1d` reads `bytes`: `None`
/// where it does, else the kind of its error.
pub uninterp spec fn cube_iridas_1d_error(bytes: Seq<u8>) -> Option<LutReadErr>;

/// What `colorbox::formats::cube_resolve::read` gives for `bytes`: whether it
/// holds a 1D LUT and whether it holds a 3D LUT, or the kind of its error.
pub uninterp spec fn cube_resolve_shape(bytes: Seq<u8>) -> Result<(bool, bool), LutReadErr>;

/// Whether `colorbox::formats::spi1d::read` reads `bytes`: `None` where it
/// does, else the kind of its error.
pub uninterp spec fn spi1d_error(bytes: Seq<u8>) -> Option<LutReadErr>;

/// Calls `colorbox::formats::cube_iridas::read_1d` on `bytes`; the contract
/// claims only that it succeeds, or fails with an error of the kind, that
/// `cube_iridas_1d_error` names.
#[verifier::external_body]
fn read_cube_iridas_1d(bytes: &[u8]) -> (r: Result<colorbox::lut::Lut1D, LutReadErr>)
    ensures
        match r {
            Ok(_) => cube_iridas_1d_error(bytes@) is None,
            Err(e) => cube_iridas_1d_error(bytes@) == Some(e),
        },
{
    match colorbox::formats::cube_iridas::read_1d(std::io::Cursor::new(bytes)) {
        Ok(l) => Ok(l),
        Err(colorbox::formats::ReadError::IoErr(_)) => Err(LutReadErr::Io),
        Err(colorbox::formats::ReadError::FormatErr) => Err(LutReadErr::Format),
    }
}

/// Calls `colorbox::formats::cube_resolve::read` on `bytes`, giving its 1D
/// LUT and whether it also held a 3D one; the contract claims only what
/// `cube_resolve_shape` names.  The call multiplies a declared 3D size by
/// itself twice, which can overflow and panic; a size is only declared on a
/// line whose first word is `LUT_3D_SIZE`, so the call is made only on text
/// with no such line.
#[verifier::external_body]
fn read_cube_resolve(bytes: &[u8]) -> (r: Result<(Option<colorbox::lut::Lut1D>, bool), LutReadErr>)
    requires
        !declares_3d_size(bytes@),
    ensures
        match r {
            Ok((l, has_3d)) => cube_resolve_shape(bytes@) == Ok::<(bool, bool), LutReadErr>(
                (l is Some, has_3d),
            ),
            Err(e) => cube_resolve_shape(bytes@) == Err::<(bool, bool), LutReadErr>(e),
        },
{
    match colorbox::formats::cube_resolve::read(std::io::Cursor::new(bytes)) {
        Ok((l, l3)) => Ok((l, l3.is_some())),
        Err(colorbox::formats::ReadError::IoErr(_)) => Err(LutReadErr::Io),
        Err(colorbox::formats::ReadError::FormatErr) => Err(LutReadErr::Format),
    }
}

/// Calls `colorbox::formats::spi1d::read` on `bytes`; the contract claims
/// only that it succeeds, or fails with an error of the kind, that
/// `spi1d_error` names.  The call indexes its first table after reading,
/// which panics where the text opens no table yet ends without an error; a
/// line holding `{` alone (with ASCII whitespace) always opens the table or
/// ends the read with an error, so the call is made only on text with one.
#[verifier::external_body]
fn read_spi1d(bytes: &[u8]) -> (r: Result<colorbox::lut::Lut1D, LutReadErr>)
    requires
        opens_table(bytes@),
    ensures
        match r {
            Ok(_) => spi1d_error(bytes@) is None,
            Err(e) => spi1d_error(bytes@) == Some(e),
        },
{
    match colorbox::formats::spi1d::read(std::io::Cursor::new(bytes)) {
        Ok(l) => Ok(l),
        Err(colorbox::formats::ReadError::IoErr(_)) => Err(LutReadErr::Io),
        Err(colorbox::formats::ReadError::FormatErr) => Err(LutReadErr::Format),
    }
}

/// Which reader a LUT file is loaded with, or why it cannot be, from its
/// format (by extension) and what the readers give: a `.cube` file is read
/// as an Iridas 1D file, else as a Resolve file holding a 1D LUT alone; a
/// `.spi1d` file as such; a file of another extension is no LUT file.
pub open spec fn source_of(
    format: Option<LutFormat>,
    iridas: Option<LutReadErr>,
    resolve: Result<(bool, bool), LutReadErr>,
    spi1d: Option<LutReadErr>,
) -> Result<LutSource, LutReadErr> {
    match format {
        Some(LutFormat::Cube) => match iridas {
            None => Ok(LutSource::CubeIridas),
            Some(_) => match resolve {
                Ok((true, false)) => Ok(LutSource::CubeResolve),
                Ok(_) => Err(LutReadErr::Format),
                Err(e) => Err(e),
            },
        },
        Some(LutFormat::Spi1D) => match spi1d {
            None => Ok(LutSource::Spi1D),
            Some(e) => Err(e),
        },
        None => Err(LutReadErr::Format),
    }
}

/// What loading the LUT file at `path` with contents `bytes` gives.  A
/// `.cube` text that declares a 3D size is not read as a Resolve file (it is
/// a 3D file, which is no 1D LUT); an `.spi1d` text that opens no table is no
/// LUT.
pub open spec fn lut_load_outcome(path: Seq<char>, bytes: Seq<u8>) -> Result<LutSource, LutReadErr> {
    source_of(
        lut_format_of(path),
        cube_iridas_1d_error(bytes),
        if declares_3d_size(bytes) {
            Err(LutReadErr::Format)
        } else {
            cube_resolve_shape(bytes)
        },
        if opens_table(bytes) {
            spi1d_error(bytes)
        } else {
            Some(LutReadErr::Format)
        },
    )
}

/// The LUT the chosen reader gave.
pub fn pick_lut(
    source: LutSource,
    iridas: Option<colorbox::lut::Lut1D>,
    resolve: Option<colorbox::lut::Lut1D>,
    spi1d: Option<colorbox::lut::Lut1D>,
) -> (r: Option<colorbox::lut::Lut1D>)
    ensures
        r == match source {
            LutSource::CubeIridas => iridas,
            LutSource::CubeResolve => resolve,
            LutSource::Spi1D => spi1d,
        },
{
    match source {
        LutSource::CubeIridas => iridas,
        LutSource::CubeResolve => resolve,
        LutSource::Spi1D => spi1d,
    }
}

/// The decision of [`source_of`]: a reader's outcome that the decision does
/// not look at may be anything.
pub fn lut_source(
    format: Option<LutFormat>,
    iridas: Option<LutReadErr>,
    resolve: Result<(bool, bool), LutReadErr>,
    spi1d: Option<LutReadErr>,
) -> (r: Result<LutSource, LutReadErr>)
    ensures
        r == source_of(format, iridas, resolve, spi1d),
{
    match format {
        Some(LutFormat::Cube) => match iridas {
            None => Ok(LutSource::CubeIridas),
            Some(_) => match resolve {
                Ok((true, false)) => Ok(LutSource::CubeResolve),
                Ok(_) => Err(LutReadErr::Format),
                Err(e) => Err(e),
            },
        },
        Some(LutFormat::Spi1D) => match spi1d {
            None => Ok(LutSource::Spi1D),
            Some(e) => Err(e),
        },
        None => Err(LutReadErr::Format),
    }
}

/// Loads a 1D LUT from the contents `bytes` of the file at `path`, by the
/// file's extension: a `.cube` file in either of its two dialects, the second
/// only where it holds a 1D LUT alone; a `.spi1d` file.  Gives the LUT and
/// the reader that read it.
pub fn load_1d_lut(path: &str, bytes: &[u8]) -> (r: Result<(colorbox::lut::Lut1D, LutSource), LutReadErr>)
    ensures
        match r {
            Ok((_, s)) => lut_load_outcome(path@, bytes@) == Ok::<LutSource, LutReadErr>(s),
            Err(e) => lut_load_outcome(path@, bytes@) == Err::<LutSource, LutReadErr>(e),
        },
{
    let format = lut_format(path);
    let mut iridas_lut: Option<colorbox::lut::Lut1D> = None;
    let mut resolve_lut: Option<colorbox::lut::Lut1D> = None;
    let mut spi1d_lut: Option<colorbox::lut::Lut1D> = None;
    let mut iridas: Option<LutReadErr> = Some(LutReadErr::Format);
    let mut resolve: Result<(bool, bool), LutReadErr> = Err(LutReadErr::Format);
    let mut spi1d: Option<LutReadErr> = Some(LutReadErr::Format);
    match format {
        Some(LutFormat::Cube) => match read_cube_iridas_1d(bytes) {
            Ok(l) => {
                iridas_lut = Some(l);
                iridas = None;
            },
            Err(e) => {
                iridas = Some(e);
                if !has_3d_size(bytes) {
                    match read_cube_resolve(bytes) {
                        Ok((l, has_3d)) => {
                            resolve = Ok((l.is_some(), has_3d));
                            resolve_lut = l;
                        },
                        Err(e) => {
                            resolve = Err(e);
                        },
                    }
                }
            },
        },
        Some(LutFormat::Spi1D) => {
            if has_table_opener(bytes) {
                match read_spi1d(bytes) {
                    Ok(l) => {
                        spi1d_lut = Some(l);
                        spi1d = None;
                    },
                    Err(e) => {
                        spi1d = Some(e);
                    },
                }
            }
        },
        None => {},
    }
    match lut_source(format, iridas, resolve, spi1d) {
        Ok(s) => match pick_lut(s, iridas_lut, resolve_lut, spi1d_lut) {
            Some(l) => Ok((l, s)),
            None => {
                proof {
                    assert(false);
                }
                Err(LutReadErr::Format)
            },
        },
        Err(e) => Err(e),
    }
}

} // verus!
