//! The gamuts a color space can be defined by, and their names.
use vstd::prelude::*;

use crate::text::{chars_of, eq_str};

pub mod names;
pub mod proofs;

pub use proofs::{
    lemma_chroma_name_shape, lemma_chroma_names_distinct, lemma_chroma_space_round_trip,
    lemma_parse_names,
};

verus! {

broadcast use vstd::string::group_string_axioms;

/// A set of RGB chromaticities: none, custom coordinates, or a named standard.
#[derive(Debug, Copy, Clone, PartialEq, Eq, Structural)]
pub enum ChromaSpace {
    AcesAP0, AcesAP1, AdobeRGB, AdobeWideGamutRGB, ARRIWideGamut3, ARRIWideGamut4,
    BlackmagicWideGamutGen4, CanonCinemaGamut, Custom, DavinciWideGamut, DciP3, DisplayP3,
    DJIDGamut, EGamut, NoChroma, PanasonicVGamut, ProPhoto, Rec2020, Rec709, RedWideGamutRGB,
    SGamut, SGamut3Cine,
}



/// The gamuts in the order the editor lists them: each once, by
/// [`ChromaSpace::position`].
pub fn chroma_spaces() -> (r: Vec<ChromaSpace>)
    ensures
        r@.len() == 22,
        forall|i: int| 0 <= i < 22 ==> #[trigger] r@[i].position() == i,
{
    let mut r: Vec<ChromaSpace> = Vec::new();
    let mut i: usize = 0;
    while i < 22
        invariant
            i <= 22,
            r@.len() == i,
            forall|j: int| 0 <= j < i ==> #[trigger] r@[j].position() == j,
        decreases 22 - i,
    {
        r.push(ChromaSpace::at(i));
        i += 1;
    }
    r
}

impl ChromaSpace {
    /// Where each gamut stands in the editor's list.
    pub open spec fn position(self) -> int {
        match self {
            Self::AcesAP0 => 2,
            Self::AcesAP1 => 3,
            Self::AdobeRGB => 8,
            Self::AdobeWideGamutRGB => 9,
            Self::ARRIWideGamut3 => 10,
            Self::ARRIWideGamut4 => 11,
            Self::BlackmagicWideGamutGen4 => 12,
            Self::CanonCinemaGamut => 13,
            Self::Custom => 1,
            Self::DavinciWideGamut => 14,
            Self::DciP3 => 6,
            Self::DisplayP3 => 7,
            Self::DJIDGamut => 15,
            Self::EGamut => 16,
            Self::NoChroma => 0,
            Self::PanasonicVGamut => 17,
            Self::ProPhoto => 18,
            Self::Rec2020 => 5,
            Self::Rec709 => 4,
            Self::RedWideGamutRGB => 19,
            Self::SGamut => 20,
            Self::SGamut3Cine => 21,
        }
    }

    /// The gamut at `i` in the editor's list.
    fn at(i: usize) -> (c: Self)
        requires
            i < 22,
        ensures
            c.position() == i,
    {
        match i {
            2 => Self::AcesAP0,
            3 => Self::AcesAP1,
            8 => Self::AdobeRGB,
            9 => Self::AdobeWideGamutRGB,
            10 => Self::ARRIWideGamut3,
            11 => Self::ARRIWideGamut4,
            12 => Self::BlackmagicWideGamutGen4,
            13 => Self::CanonCinemaGamut,
            1 => Self::Custom,
            14 => Self::DavinciWideGamut,
            6 => Self::DciP3,
            7 => Self::DisplayP3,
            15 => Self::DJIDGamut,
            16 => Self::EGamut,
            0 => Self::NoChroma,
            17 => Self::PanasonicVGamut,
            18 => Self::ProPhoto,
            5 => Self::Rec2020,
            4 => Self::Rec709,
            19 => Self::RedWideGamutRGB,
            20 => Self::SGamut,
            _ => Self::SGamut3Cine,
        }
    }


    /// The name and the label of the gamut.
    fn texts_of(&self) -> (r: (&'static str, &'static str))
        ensures
            r.0@ == self.name(),
            r.1@ == self.label(),
    {
        match *self {
            Self::AcesAP0 => ("AcesAPO", "ACES APO"),
            Self::AcesAP1 => ("AcesAP1", "ACES AP1"),
            Self::AdobeRGB => ("AdobeRGB", "Adobe RGB"),
            Self::AdobeWideGamutRGB => ("AdobeWideGamutRGB", "Adobe Wide Gamut RGB"),
            Self::ARRIWideGamut3 => ("ARRIWideGamut3", "ARRI Wide Gamut 3 / Alexa Wide Gamut RGB"),
            Self::ARRIWideGamut4 => ("ARRIWideGamut4", "ARRI Wide Gamut 4"),
            Self::BlackmagicWideGamutGen4 => ("BlackmagicWideGamutGen4", "BMD Wide Gamut Gen4/Gen5"),
            Self::CanonCinemaGamut => ("CanonCinemaGamut", "Canon Cinema Gamut"),
            Self::Custom => ("Custom", "Custom"),
            Self::DavinciWideGamut => ("DavinciWideGamut", "DaVinci Wide Gamut"),
            Self::DciP3 => ("DciP3", "DCI-P3"),
            Self::DisplayP3 => ("DisplayP3", "Display P3"),
            Self::DJIDGamut => ("DJIDGamut", "DJI D-Gamut"),
            Self::EGamut => ("EGamut", "FilmLight E-Gamut"),
            Self::NoChroma => ("None", "None"),
            Self::PanasonicVGamut => ("PanasonicVGamut", "Panasonic V-Gamut"),
            Self::ProPhoto => ("ProPhoto", "ProPhoto"),
            Self::Rec2020 => ("Rec2020", "Rec.2020"),
            Self::Rec709 => ("Rec709", "Rec.709 / sRGB"),
            Self::RedWideGamutRGB => ("RedWideGamutRGB", "RED Wide Gamut RGB"),
            Self::SGamut => ("SGamut", "Sony S-Gamut / S-Gamut3"),
            Self::SGamut3Cine => ("SGamut3Cine", "Sony S-Gamut3.Cine"),
        }
    }

    pub fn ui_text(&self) -> (r: &'static str)
        ensures
            r@ == self.label(),
    {
        self.texts_of().1
    }

    pub fn as_str(&self) -> (r: &'static str)
        ensures
            r@ == self.name(),
    {
        self.texts_of().0
    }

    pub fn from_str(text: &str) -> (r: Option<Self>)
        ensures
            r == Self::parse(text@),
    {
        let t = chars_of(text);
        let mut i: usize = 0;
        while i < 22
            invariant
                i <= 22,
                t@ == text@,
                forall|c: ChromaSpace| c.position() < i ==> c.name() != text@,
            decreases 22 - i,
        {
            let c = Self::at(i);
            if eq_str(&t, c.as_str()) {
                proof {
                    lemma_chroma_space_round_trip(c);
                }
                return Some(c);
            }
            i += 1;
        }
        proof {
            lemma_parse_names(text@);
        }
        None
    }
}

} // verus!
