//! LUT Maker: the transfer functions it can generate, and the choices its
//! editor offers.
use vstd::prelude::*;

pub mod estimated_tf;
pub mod generated_tf;
pub mod image_list;
pub mod mode_and_export_bar;
pub mod modified_tf;

use crate::job_helpers::{format_of_extension, LutFormat};

verus! {

/// A transfer function the LUT Maker can generate a LUT from.
#[allow(non_camel_case_types)]
#[derive(Debug, Copy, Clone, PartialEq, Eq, Structural)]
pub enum TransferFunctionID {
    Linear,
    ARRILogC3,
    ARRILogC4,
    BlackmagicFilmGen5,
    DavinciIntermediate,
    CanonLog1,
    CanonLog2,
    CanonLog3,
    DJIDlog,
    FujifilmFlog,
    HLG,
    NikonNlog,
    PanasonicVlog,
    PQ,
    Rec709,
    RedLog3G10,
    SonySlog1,
    SonySlog2,
    SonySlog3,
    sRGB,
}

/// The transfer functions in the order the editor lists them.
pub fn transfer_function_ids() -> (r: Vec<TransferFunctionID>)
    ensures
        r@ == seq![
            TransferFunctionID::Linear,
            TransferFunctionID::sRGB,
            TransferFunctionID::Rec709,
            TransferFunctionID::HLG,
            TransferFunctionID::PQ,
            TransferFunctionID::ARRILogC3,
            TransferFunctionID::ARRILogC4,
            TransferFunctionID::BlackmagicFilmGen5,
            TransferFunctionID::DavinciIntermediate,
            TransferFunctionID::CanonLog1,
            TransferFunctionID::CanonLog2,
            TransferFunctionID::CanonLog3,
            TransferFunctionID::DJIDlog,
            TransferFunctionID::FujifilmFlog,
            TransferFunctionID::NikonNlog,
            TransferFunctionID::PanasonicVlog,
            TransferFunctionID::RedLog3G10,
            TransferFunctionID::SonySlog1,
            TransferFunctionID::SonySlog2,
            TransferFunctionID::SonySlog3,
        ],
{
    vec![
        TransferFunctionID::Linear,
        TransferFunctionID::sRGB,
        TransferFunctionID::Rec709,
        TransferFunctionID::HLG,
        TransferFunctionID::PQ,
        TransferFunctionID::ARRILogC3,
        TransferFunctionID::ARRILogC4,
        TransferFunctionID::BlackmagicFilmGen5,
        TransferFunctionID::DavinciIntermediate,
        TransferFunctionID::CanonLog1,
        TransferFunctionID::CanonLog2,
        TransferFunctionID::CanonLog3,
        TransferFunctionID::DJIDlog,
        TransferFunctionID::FujifilmFlog,
        TransferFunctionID::NikonNlog,
        TransferFunctionID::PanasonicVlog,
        TransferFunctionID::RedLog3G10,
        TransferFunctionID::SonySlog1,
        TransferFunctionID::SonySlog2,
        TransferFunctionID::SonySlog3,
    ]
}

impl TransferFunctionID {
    /// The label shown in the editor.
    pub open spec fn label(self) -> Seq<char> {
        match self {
            TransferFunctionID::Linear => "Linear"@,
            TransferFunctionID::ARRILogC3 => "ARRI LogC3 / ALEXA LogC v3"@,
            TransferFunctionID::ARRILogC4 => "ARRI LogC4"@,
            TransferFunctionID::BlackmagicFilmGen5 => "BMD Film Gen5"@,
            TransferFunctionID::DavinciIntermediate => "DaVinci Intermediate"@,
            TransferFunctionID::CanonLog1 => "Canon Log"@,
            TransferFunctionID::CanonLog2 => "Canon Log 2"@,
            TransferFunctionID::CanonLog3 => "Canon Log 3"@,
            TransferFunctionID::DJIDlog => "DJI D-Log"@,
            TransferFunctionID::FujifilmFlog => "Fujifilm F-Log"@,
            TransferFunctionID::HLG => "Rec.2100 - HLG"@,
            TransferFunctionID::NikonNlog => "Nikon N-Log"@,
            TransferFunctionID::PanasonicVlog => "Panasonic V-Log"@,
            TransferFunctionID::PQ => "Rec.2100 - PQ"@,
            TransferFunctionID::Rec709 => "Rec.709"@,
            TransferFunctionID::RedLog3G10 => "RED Log3G10"@,
            TransferFunctionID::SonySlog1 => "Sony S-Log"@,
            TransferFunctionID::SonySlog2 => "Sony S-Log2"@,
            TransferFunctionID::SonySlog3 => "Sony S-Log3"@,
            TransferFunctionID::sRGB => "sRGB"@,
        }
    }

    pub fn ui_text(&self) -> (r: &'static str)
        ensures
            r@ == self.label(),
    {
        match *self {
            TransferFunctionID::Linear => "Linear",
            TransferFunctionID::ARRILogC3 => "ARRI LogC3 / ALEXA LogC v3",
            TransferFunctionID::ARRILogC4 => "ARRI LogC4",
            TransferFunctionID::BlackmagicFilmGen5 => "BMD Film Gen5",
            TransferFunctionID::DavinciIntermediate => "DaVinci Intermediate",
            TransferFunctionID::CanonLog1 => "Canon Log",
            TransferFunctionID::CanonLog2 => "Canon Log 2",
            TransferFunctionID::CanonLog3 => "Canon Log 3",
            TransferFunctionID::DJIDlog => "DJI D-Log",
            TransferFunctionID::FujifilmFlog => "Fujifilm F-Log",
            TransferFunctionID::HLG => "Rec.2100 - HLG",
            TransferFunctionID::NikonNlog => "Nikon N-Log",
            TransferFunctionID::PanasonicVlog => "Panasonic V-Log",
            TransferFunctionID::PQ => "Rec.2100 - PQ",
            TransferFunctionID::Rec709 => "Rec.709",
            TransferFunctionID::RedLog3G10 => "RED Log3G10",
            TransferFunctionID::SonySlog1 => "Sony S-Log",
            TransferFunctionID::SonySlog2 => "Sony S-Log2",
            TransferFunctionID::SonySlog3 => "Sony S-Log3",
            TransferFunctionID::sRGB => "sRGB",
        }
    }
}

/// The exposure index an ARRI LogC3 curve is made for.
#[derive(Debug, Copy, Clone, PartialEq, Eq, Structural)]
pub enum ArriLogC3Ei {
    Ei160,
    Ei200,
    Ei250,
    Ei320,
    Ei400,
    Ei500,
    Ei640,
    Ei800,
    Ei1000,
    Ei1280,
    Ei1600,
}

/// The exposure indices in the order the editor lists them.
pub fn arri_logc3_eis() -> (r: Vec<ArriLogC3Ei>)
    ensures
        r@ == seq![
            ArriLogC3Ei::Ei160,
            ArriLogC3Ei::Ei200,
            ArriLogC3Ei::Ei250,
            ArriLogC3Ei::Ei320,
            ArriLogC3Ei::Ei400,
            ArriLogC3Ei::Ei500,
            ArriLogC3Ei::Ei640,
            ArriLogC3Ei::Ei800,
            ArriLogC3Ei::Ei1000,
            ArriLogC3Ei::Ei1280,
            ArriLogC3Ei::Ei1600,
        ],
{
    vec![
        ArriLogC3Ei::Ei160,
        ArriLogC3Ei::Ei200,
        ArriLogC3Ei::Ei250,
        ArriLogC3Ei::Ei320,
        ArriLogC3Ei::Ei400,
        ArriLogC3Ei::Ei500,
        ArriLogC3Ei::Ei640,
        ArriLogC3Ei::Ei800,
        ArriLogC3Ei::Ei1000,
        ArriLogC3Ei::Ei1280,
        ArriLogC3Ei::Ei1600,
    ]
}

/// The label of an exposure index: `Exposure Index` and its number.
pub open spec fn ei_label(ei: ArriLogC3Ei) -> Seq<char> {
    match ei {
        ArriLogC3Ei::Ei160 => "Exposure Index 160"@,
        ArriLogC3Ei::Ei200 => "Exposure Index 200"@,
        ArriLogC3Ei::Ei250 => "Exposure Index 250"@,
        ArriLogC3Ei::Ei320 => "Exposure Index 320"@,
        ArriLogC3Ei::Ei400 => "Exposure Index 400"@,
        ArriLogC3Ei::Ei500 => "Exposure Index 500"@,
        ArriLogC3Ei::Ei640 => "Exposure Index 640"@,
        ArriLogC3Ei::Ei800 => "Exposure Index 800"@,
        ArriLogC3Ei::Ei1000 => "Exposure Index 1000"@,
        ArriLogC3Ei::Ei1280 => "Exposure Index 1280"@,
        ArriLogC3Ei::Ei1600 => "Exposure Index 1600"@,
    }
}

pub fn arri_logc3_ei_ui_text(ei: ArriLogC3Ei) -> (r: &'static str)
    ensures
        r@ == ei_label(ei),
{
    match ei {
        ArriLogC3Ei::Ei160 => "Exposure Index 160",
        ArriLogC3Ei::Ei200 => "Exposure Index 200",
        ArriLogC3Ei::Ei250 => "Exposure Index 250",
        ArriLogC3Ei::Ei320 => "Exposure Index 320",
        ArriLogC3Ei::Ei400 => "Exposure Index 400",
        ArriLogC3Ei::Ei500 => "Exposure Index 500",
        ArriLogC3Ei::Ei640 => "Exposure Index 640",
        ArriLogC3Ei::Ei800 => "Exposure Index 800",
        ArriLogC3Ei::Ei1000 => "Exposure Index 1000",
        ArriLogC3Ei::Ei1280 => "Exposure Index 1280",
        ArriLogC3Ei::Ei1600 => "Exposure Index 1600",
    }
}

/// Which images the list panel shows.
#[derive(Debug, Copy, Clone, PartialEq, Eq, Structural)]
pub enum ImageViewID {
    Dark,
    Bracketed,
}

impl ImageViewID {
    pub open spec fn label(self) -> Seq<char> {
        match self {
            ImageViewID::Dark => "Lens Cap Images"@,
            ImageViewID::Bracketed => "Bracketed Exposures"@,
        }
    }

    pub fn ui_text(&self) -> (r: &'static str)
        ensures
            r@ == self.label(),
    {
        match *self {
            ImageViewID::Dark => "Lens Cap Images",
            ImageViewID::Bracketed => "Bracketed Exposures",
        }
    }
}

/// The file format a LUT is exported in.
#[derive(Debug, Copy, Clone, PartialEq, Eq, Structural)]
pub enum ExportFormat {
    Cube,
    Spi1D,
}

impl ExportFormat {
    pub open spec fn label(self) -> Seq<char> {
        match self {
            ExportFormat::Cube => ".cube"@,
            ExportFormat::Spi1D => ".spi1d"@,
        }
    }

    pub open spec fn extension(self) -> Seq<char> {
        match self {
            ExportFormat::Cube => "cube"@,
            ExportFormat::Spi1D => "spi1d"@,
        }
    }

    pub fn ui_text(&self) -> (r: &'static str)
        ensures
            r@ == self.label(),
    {
        match *self {
            ExportFormat::Cube => ".cube",
            ExportFormat::Spi1D => ".spi1d",
        }
    }

    pub fn ext(&self) -> (r: &'static str)
        ensures
            r@ == self.extension(),
    {
        match *self {
            ExportFormat::Cube => "cube",
            ExportFormat::Spi1D => "spi1d",
        }
    }
}

/// The label is the extension with a leading dot.
pub proof fn lemma_export_label_is_dotted_extension(f: ExportFormat)
    ensures
        f.label() == seq!['.'] + f.extension(),
{
    reveal_strlit(".cube");
    reveal_strlit("cube");
    reveal_strlit(".spi1d");
    reveal_strlit("spi1d");
    assert(f.label() =~= seq!['.'] + f.extension());
}

/// The format a LUT file is read back in is the one it was exported in: the
/// extension an export gives the file names that format.
pub proof fn lemma_exported_format_reads_back(f: ExportFormat)
    ensures
        format_of_extension(Some(f.extension())) == Some(
            match f {
                ExportFormat::Cube => LutFormat::Cube,
                ExportFormat::Spi1D => LutFormat::Spi1D,
            },
        ),
{
    reveal_strlit("cube");
    reveal_strlit("spi1d");
    assert("cube"@ != "spi1d"@) by {
        assert("cube"@.len() != "spi1d"@.len());
    }
}

/// How the transfer function is obtained.
#[derive(Debug, Copy, Clone, PartialEq, Eq, Structural)]
pub enum AppMode {
    Generate,
    Modify,
    Estimate,
}

/// What the graph shows.
#[derive(Debug, Copy, Clone, PartialEq, Eq, Structural)]
pub enum PreviewMode {
    ToLinear,
    FromLinear,
    ExposureMappings,
}

/// The File menu of the menu bar: its one item, "Quit", asks to close the
/// window.
pub fn menu_bar(quit_clicked: bool) -> (close_requested: bool)
    ensures
        close_requested == quit_clicked,
{
    quit_clicked
}

/// The image panel of one frame: the view chosen in its menu (else the one
/// shown), and whether the exposure mappings are to be computed again, which
/// they are when the bracketed image sets are shown and their list changed.
pub fn image_panel(
    image_view: ImageViewID,
    chosen: Option<ImageViewID>,
    bracketed_list_changed: bool,
) -> (r: (ImageViewID, bool))
    ensures
        r.0 == (match chosen {
            Some(v) => v,
            None => image_view,
        }),
        r.1 == (r.0 == ImageViewID::Bracketed && bracketed_list_changed),
{
    let view = match chosen {
        Some(v) => v,
        None => image_view,
    };
    let recompute = match view {
        ImageViewID::Bracketed => bracketed_list_changed,
        ImageViewID::Dark => false,
    };
    (view, recompute)
}

} // verus!
