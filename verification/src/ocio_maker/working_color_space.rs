//! The working color space tab.
use vstd::prelude::*;

use crate::ocio_maker::chroma::ChromaSpace;
use crate::ocio_maker::color_space_spec::{ColorSpaceSpec, ColorSpaceSpecView};

verus! {

/// One frame of the tab: a gamut chosen in its menu becomes the working
/// space's gamut, and the custom coordinates are open for editing while the
/// gamut is custom.  Nothing else of the working space changes.
pub fn ui(working: &mut ColorSpaceSpec, chosen: Option<ChromaSpace>) -> (show_custom: bool)
    ensures
        final(working)@ == (ColorSpaceSpecView {
            chroma_space: match chosen {
                Some(c) => c,
                None => old(working)@.chroma_space,
            },
            ..old(working)@
        }),
        show_custom == (final(working).chroma_space == ChromaSpace::Custom),
{
    match chosen {
        Some(c) => {
            working.chroma_space = c;
        },
        None => {},
    }
    working.chroma_space == ChromaSpace::Custom
}

} // verus!
