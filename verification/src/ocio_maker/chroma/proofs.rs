//! Facts about the gamut names: each reads back as its gamut, no two are
//! the same, and none has whitespace at its ends.
use vstd::prelude::*;

use crate::ocio_maker::chroma::ChromaSpace;
use crate::text::{is_ws, no_newline};

verus! {

broadcast use vstd::string::group_string_axioms;

/// Reading back the name a gamut is written with gives the gamut.
///
/// Names of different lengths differ; those of one length differ at the
/// characters compared here.
pub proof fn lemma_chroma_space_round_trip(c: ChromaSpace)
    ensures
        ChromaSpace::parse(c.name()) == Some(c),
{
    reveal_strlit("AcesAP1");
    reveal_strlit("AcesAPO");
    reveal_strlit("AdobeRGB");
    reveal_strlit("AdobeWideGamutRGB");
    reveal_strlit("ARRIWideGamut3");
    reveal_strlit("ARRIWideGamut4");
    reveal_strlit("BlackmagicWideGamutGen4");
    reveal_strlit("CanonCinemaGamut");
    reveal_strlit("Custom");
    reveal_strlit("DavinciWideGamut");
    reveal_strlit("DciP3");
    reveal_strlit("DisplayP3");
    reveal_strlit("DJIDGamut");
    reveal_strlit("EGamut");
    reveal_strlit("None");
    reveal_strlit("PanasonicVGamut");
    reveal_strlit("ProPhoto");
    reveal_strlit("Rec2020");
    reveal_strlit("Rec709");
    reveal_strlit("RedWideGamutRGB");
    reveal_strlit("SGamut");
    reveal_strlit("SGamut3Cine");
    // The lengths of the names.
    assert("AcesAP1"@.len() == 7 && "AcesAPO"@.len() == 7 && "AdobeRGB"@.len() == 8 &&
        "AdobeWideGamutRGB"@.len() == 17 && "ARRIWideGamut3"@.len() == 14 &&
        "ARRIWideGamut4"@.len() == 14 && "BlackmagicWideGamutGen4"@.len() == 23 &&
        "CanonCinemaGamut"@.len() == 16 && "Custom"@.len() == 6 &&
        "DavinciWideGamut"@.len() == 16 && "DciP3"@.len() == 5 && "DisplayP3"@.len() == 9 &&
        "DJIDGamut"@.len() == 9 && "EGamut"@.len() == 6 && "None"@.len() == 4 &&
        "PanasonicVGamut"@.len() == 15 && "ProPhoto"@.len() == 8 && "Rec2020"@.len() == 7 &&
        "Rec709"@.len() == 6 && "RedWideGamutRGB"@.len() == 15 && "SGamut"@.len() == 6 &&
        "SGamut3Cine"@.len() == 11);
    // Seven letters.
    assert("AcesAP1"@[6] != "AcesAPO"@[6] && "AcesAP1"@[0] != "Rec2020"@[0] && "AcesAPO"@[0]
        != "Rec2020"@[0]);
    // Eight, fourteen, sixteen, nine and fifteen letters.
    assert("AdobeRGB"@[0] != "ProPhoto"@[0]);
    assert("ARRIWideGamut3"@[13] != "ARRIWideGamut4"@[13]);
    assert("CanonCinemaGamut"@[0] != "DavinciWideGamut"@[0]);
    assert("DisplayP3"@[1] != "DJIDGamut"@[1]);
    assert("PanasonicVGamut"@[0] != "RedWideGamutRGB"@[0]);
    // Six letters: the first letters differ.
    assert("Custom"@[0] != "EGamut"@[0] && "Custom"@[0] != "Rec709"@[0] && "Custom"@[0]
        != "SGamut"@[0] && "EGamut"@[0] != "Rec709"@[0] && "EGamut"@[0] != "SGamut"@[0]
        && "Rec709"@[0] != "SGamut"@[0]);
}

/// A name reads as the gamut it names, and every gamut stands in the
/// editor's list.
pub proof fn lemma_parse_names(s: Seq<char>)
    ensures
        ChromaSpace::parse(s) matches Some(c) ==> c.name() == s,
        forall|c: ChromaSpace| 0 <= #[trigger] c.position() < 22,
{
}



/// No two gamuts share a name.
pub proof fn lemma_chroma_names_distinct()
    ensures
        forall|a: ChromaSpace, b: ChromaSpace| a.name() == b.name() ==> a == b,
{
    assert forall|a: ChromaSpace, b: ChromaSpace| a.name() == b.name() implies a == b by {
        lemma_chroma_space_round_trip(a);
        lemma_chroma_space_round_trip(b);
    }
}

/// Every gamut name is free of whitespace at both ends, and of line breaks.
pub proof fn lemma_chroma_name_shape(c: ChromaSpace)
    ensures
        c.name().len() > 0,
        !is_ws(c.name()[0]),
        !is_ws(c.name().last()),
        no_newline(c.name()),
{
    reveal_strlit("AcesAP1");
    reveal_strlit("AcesAPO");
    reveal_strlit("AdobeRGB");
    reveal_strlit("AdobeWideGamutRGB");
    reveal_strlit("ARRIWideGamut3");
    reveal_strlit("ARRIWideGamut4");
    reveal_strlit("BlackmagicWideGamutGen4");
    reveal_strlit("CanonCinemaGamut");
    reveal_strlit("Custom");
    reveal_strlit("DavinciWideGamut");
    reveal_strlit("DciP3");
    reveal_strlit("DisplayP3");
    reveal_strlit("DJIDGamut");
    reveal_strlit("EGamut");
    reveal_strlit("None");
    reveal_strlit("PanasonicVGamut");
    reveal_strlit("ProPhoto");
    reveal_strlit("Rec2020");
    reveal_strlit("Rec709");
    reveal_strlit("RedWideGamutRGB");
    reveal_strlit("SGamut");
    reveal_strlit("SGamut3Cine");
}

} // verus!
