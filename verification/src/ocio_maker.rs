//! OCIO Maker: the configuration base presets, the gamut choices, the color
//! space specifications with their text form, and the state changes the
//! editor makes.
use vstd::prelude::*;

use crate::text::{chars_of, eq_str, is_ws, lemma_trim_bounds, no_newline, trim, trim_chars};

pub mod base_config;
pub mod chroma;
pub mod color_space_spec;
pub mod colorspace_editor;
pub mod colorspace_list;
pub mod config_file;
pub mod input_transforms;
pub mod menu;
pub mod top_bar;
pub mod working_color_space;

verus! {

broadcast use vstd::string::group_string_axioms;

/// The template a generated configuration is built on.
#[derive(Debug, Copy, Clone, PartialEq, Eq, Structural)]
pub enum BasePreset {
    Custom,
    Blender3_0,
    AcesLite,
}

/// The tabs of the editor.
#[derive(Debug, Copy, Clone, PartialEq, Eq, Structural)]
pub enum Tabs {
    InputTransforms,
    BaseConfig,
}

/// The presets in the order the editor lists them.
pub fn base_presets() -> (r: Vec<BasePreset>)
    ensures
        r@ == seq![BasePreset::Custom, BasePreset::Blender3_0, BasePreset::AcesLite],
{
    vec![BasePreset::Custom, BasePreset::Blender3_0, BasePreset::AcesLite]
}

impl BasePreset {
    /// The name a preset is shown with, and written with in a configuration.
    pub open spec fn text(self) -> Seq<char> {
        match self {
            BasePreset::Custom => "Custom"@,
            BasePreset::Blender3_0 => "Blender 3.0"@,
            BasePreset::AcesLite => "ACES Lite"@,
        }
    }

    /// The preset that a configuration's `base:` value names, ignoring
    /// surrounding whitespace.
    pub open spec fn parse(s: Seq<char>) -> Option<BasePreset> {
        let t = trim(s);
        if t == "Custom"@ {
            Some(BasePreset::Custom)
        } else if t == "Blender 3.0"@ {
            Some(BasePreset::Blender3_0)
        } else if t == "ACES Lite"@ {
            Some(BasePreset::AcesLite)
        } else {
            None
        }
    }

    pub fn ui_text(&self) -> (r: &'static str)
        ensures
            r@ == self.text(),
    {
        match self {
            BasePreset::Custom => "Custom",
            BasePreset::Blender3_0 => "Blender 3.0",
            BasePreset::AcesLite => "ACES Lite",
        }
    }

    pub fn as_str(&self) -> (r: &'static str)
        ensures
            r@ == self.text(),
    {
        match self {
            BasePreset::Custom => "Custom",
            BasePreset::Blender3_0 => "Blender 3.0",
            BasePreset::AcesLite => "ACES Lite",
        }
    }

    pub fn from_str(text: &str) -> (r: Option<BasePreset>)
        ensures
            r == BasePreset::parse(text@),
    {
        let t = trim_chars(&chars_of(text));
        if eq_str(&t, "Custom") {
            Some(BasePreset::Custom)
        } else if eq_str(&t, "Blender 3.0") {
            Some(BasePreset::Blender3_0)
        } else if eq_str(&t, "ACES Lite") {
            Some(BasePreset::AcesLite)
        } else {
            None
        }
    }
}

/// Reading back the name a preset is written with gives the preset, also
/// with whitespace around the name.
pub proof fn lemma_base_preset_round_trip(p: BasePreset, pre: Seq<char>, post: Seq<char>)
    requires
        forall|i: int| 0 <= i < pre.len() ==> is_ws(#[trigger] pre[i]),
        forall|i: int| 0 <= i < post.len() ==> is_ws(#[trigger] post[i]),
    ensures
        BasePreset::parse(pre + p.text() + post) == Some(p),
{
    reveal_strlit("Custom");
    reveal_strlit("Blender 3.0");
    reveal_strlit("ACES Lite");
    let s = pre + p.text() + post;
    let t = p.text();
    assert(t.len() > 0 && !is_ws(t[0]) && !is_ws(t.last()));
    lemma_trim_bounds(s, pre.len(), pre.len() + t.len());
    assert(s.subrange(pre.len() as int, (pre.len() + t.len()) as int) =~= t);
    assert("Custom"@ != "Blender 3.0"@ && "Custom"@ != "ACES Lite"@ && "Blender 3.0"@
        != "ACES Lite"@) by {
        assert("Custom"@.len() != "Blender 3.0"@.len());
        assert("Custom"@.len() != "ACES Lite"@.len());
        assert("Blender 3.0"@.len() != "ACES Lite"@.len());
    }
}

} // verus!
