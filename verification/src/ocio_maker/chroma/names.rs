//! The names gamuts are written with in a configuration and shown with in
//! the editor, and the reading of a written name.
use vstd::prelude::*;

use crate::ocio_maker::chroma::ChromaSpace;

verus! {

impl ChromaSpace {
    /// The name a gamut is written with in a configuration, and the label the
    /// editor shows for it.
    pub open spec fn texts(self) -> (Seq<char>, Seq<char>) {
        match self {
            Self::AcesAP0 => ("AcesAPO"@, "ACES APO"@),
            Self::AcesAP1 => ("AcesAP1"@, "ACES AP1"@),
            Self::AdobeRGB => ("AdobeRGB"@, "Adobe RGB"@),
            Self::AdobeWideGamutRGB => ("AdobeWideGamutRGB"@, "Adobe Wide Gamut RGB"@),
            Self::ARRIWideGamut3 => ("ARRIWideGamut3"@, "ARRI Wide Gamut 3 / Alexa Wide Gamut RGB"@),
            Self::ARRIWideGamut4 => ("ARRIWideGamut4"@, "ARRI Wide Gamut 4"@),
            Self::BlackmagicWideGamutGen4 => ("BlackmagicWideGamutGen4"@, "BMD Wide Gamut Gen4/Gen5"@),
            Self::CanonCinemaGamut => ("CanonCinemaGamut"@, "Canon Cinema Gamut"@),
            Self::Custom => ("Custom"@, "Custom"@),
            Self::DavinciWideGamut => ("DavinciWideGamut"@, "DaVinci Wide Gamut"@),
            Self::DciP3 => ("DciP3"@, "DCI-P3"@),
            Self::DisplayP3 => ("DisplayP3"@, "Display P3"@),
            Self::DJIDGamut => ("DJIDGamut"@, "DJI D-Gamut"@),
            Self::EGamut => ("EGamut"@, "FilmLight E-Gamut"@),
            Self::NoChroma => ("None"@, "None"@),
            Self::PanasonicVGamut => ("PanasonicVGamut"@, "Panasonic V-Gamut"@),
            Self::ProPhoto => ("ProPhoto"@, "ProPhoto"@),
            Self::Rec2020 => ("Rec2020"@, "Rec.2020"@),
            Self::Rec709 => ("Rec709"@, "Rec.709 / sRGB"@),
            Self::RedWideGamutRGB => ("RedWideGamutRGB"@, "RED Wide Gamut RGB"@),
            Self::SGamut => ("SGamut"@, "Sony S-Gamut / S-Gamut3"@),
            Self::SGamut3Cine => ("SGamut3Cine"@, "Sony S-Gamut3.Cine"@),
        }
    }

    /// The label shown in the editor.
    pub open spec fn label(self) -> Seq<char> {
        self.texts().1
    }

    /// The name written in a configuration.
    pub open spec fn name(self) -> Seq<char> {
        self.texts().0
    }

    /// The gamut a configuration name stands for; the name must match exactly.
    pub open spec fn parse(s: Seq<char>) -> Option<Self> {
        if s == "AcesAP1"@ {
            Some(Self::AcesAP1)
        } else if s == "AcesAPO"@ {
            Some(Self::AcesAP0)
        } else if s == "AdobeRGB"@ {
            Some(Self::AdobeRGB)
        } else if s == "AdobeWideGamutRGB"@ {
            Some(Self::AdobeWideGamutRGB)
        } else if s == "ARRIWideGamut3"@ {
            Some(Self::ARRIWideGamut3)
        } else if s == "ARRIWideGamut4"@ {
            Some(Self::ARRIWideGamut4)
        } else if s == "BlackmagicWideGamutGen4"@ {
            Some(Self::BlackmagicWideGamutGen4)
        } else if s == "CanonCinemaGamut"@ {
            Some(Self::CanonCinemaGamut)
        } else if s == "Custom"@ {
            Some(Self::Custom)
        } else if s == "DavinciWideGamut"@ {
            Some(Self::DavinciWideGamut)
        } else if s == "DciP3"@ {
            Some(Self::DciP3)
        } else if s == "DisplayP3"@ {
            Some(Self::DisplayP3)
        } else if s == "DJIDGamut"@ {
            Some(Self::DJIDGamut)
        } else if s == "EGamut"@ {
            Some(Self::EGamut)
        } else if s == "None"@ {
            Some(Self::NoChroma)
        } else if s == "PanasonicVGamut"@ {
            Some(Self::PanasonicVGamut)
        } else if s == "ProPhoto"@ {
            Some(Self::ProPhoto)
        } else if s == "Rec2020"@ {
            Some(Self::Rec2020)
        } else if s == "Rec709"@ {
            Some(Self::Rec709)
        } else if s == "RedWideGamutRGB"@ {
            Some(Self::RedWideGamutRGB)
        } else if s == "SGamut"@ {
            Some(Self::SGamut)
        } else if s == "SGamut3Cine"@ {
            Some(Self::SGamut3Cine)
        } else {
            None
        }
    }

}

} // verus!
