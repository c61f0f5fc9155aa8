//! The OCIO Maker data saved in an exported configuration: a header, kept in
//! the configuration file's leading comment, that lists the base preset, the
//! working color space and every input color space, and the reading of that
//! header when a configuration is opened again.
use vstd::prelude::*;

use crate::ocio_maker::color_space_spec::{
    default_view, resolve_lut, lemma_color_space_round_trip, lemma_read_trimmed_text, read_back_view,
    key_color_space, kv_line, lemma_spec_lines_shape, writable, trim_each, checks_in,
    lemma_join_push, spec_lines, spec_read, spec_text, ColorSpaceSpec,
    ColorSpaceSpecView, ConfigLoadErr,
};
use crate::ocio_maker::colorspace_list::{
    decimal, lemma_decimal_digits, lemma_decimal_injective, push_decimal,
};
use crate::job_helpers::{dir_or_parent, move_to_parent, parent_dir, parent_text};
use crate::ocio_maker::chroma::ChromaSpace;
use crate::ocio_maker::colorspace_list::ColorSpaceList;
use crate::ocio_maker::{lemma_base_preset_round_trip, BasePreset};
use crate::text::{
    lead_ws, trail_ws, append_chars, append_str, chars_of, eq_str, find_char, join_lines, lemma_lead_ws_bound,
    lemma_trail_ws_bound, lines, lines_of, split_once, starts_with, starts_with_str, strip_cr,
    split_nl, no_newline, is_ws, lemma_split_nl_join, lemma_split_nl_len, lemma_trim_range,
    lemma_trim_pad, lemma_trim_fixed, lemma_find_at,
    string_from_chars, sub_chars, trim, trim_chars, trim_start,
};

verus! {

broadcast use vstd::string::group_string_axioms;

//------------------------------------------------------------------------
// Writing.

/// The models of a list of color spaces.
pub open spec fn views(spaces: Seq<ColorSpaceSpec>) -> Seq<ColorSpaceSpecView> {
    spaces.map_values(|s: ColorSpaceSpec| s@)
}

/// The line that ends each part of the header.
pub open spec fn separator() -> Seq<char> {
    "----"@
}

/// The opening lines: which program wrote the file, and a warning.
pub open spec fn intro_lines(version: Seq<char>) -> Seq<Seq<char>> {
    seq![
        "Generated by ETF OCIO Maker v"@ + version,
        Seq::<char>::empty(),
        "Do not edit this file by hand if you want to continue managing"@,
        "this configuration with ETF OCIO Maker."@,
        Seq::<char>::empty(),
    ]
}

/// The base preset, and for the custom preset the working space's gamut.
pub open spec fn base_lines(base: BasePreset, working: ColorSpaceSpecView) -> Seq<Seq<char>> {
    seq!["base: "@ + base.text()] + if base == BasePreset::Custom {
        spec_lines(working, None, true)
    } else {
        Seq::<Seq<char>>::empty()
    }
}

/// Each color space, with transfer function paths relative to the export
/// directory, followed by a separator.
pub open spec fn space_lines(spaces: Seq<ColorSpaceSpecView>, export: Seq<char>) -> Seq<Seq<char>>
    decreases spaces.len(),
{
    if spaces.len() == 0 {
        Seq::<Seq<char>>::empty()
    } else {
        space_lines(spaces.drop_last(), export) + spec_lines(spaces.last(), Some(export), false)
            + seq![separator()]
    }
}

/// The lines of the header.
pub open spec fn header_lines(
    version: Seq<char>,
    base: BasePreset,
    working: ColorSpaceSpecView,
    spaces: Seq<ColorSpaceSpecView>,
    export: Seq<char>,
) -> Seq<Seq<char>> {
    intro_lines(version) + seq![separator()] + base_lines(base, working) + seq![separator()]
        + space_lines(spaces, export)
}

/// The header's text.
pub open spec fn header_text(
    version: Seq<char>,
    base: BasePreset,
    working: ColorSpaceSpecView,
    spaces: Seq<ColorSpaceSpecView>,
    export: Seq<char>,
) -> Seq<char> {
    join_lines(header_lines(version, base, working, spaces, export))
}

pub proof fn lemma_join_concat(a: Seq<Seq<char>>, b: Seq<Seq<char>>)
    ensures
        join_lines(a + b) == join_lines(a) + join_lines(b),
    decreases b.len(),
{
    if b.len() == 0 {
        assert(a + b =~= a);
        assert(join_lines(a) + join_lines(b) =~= join_lines(a));
    } else {
        lemma_join_concat(a, b.drop_last());
        assert((a + b).drop_last() =~= a + b.drop_last());
        assert((a + b).last() == b.last());
        assert(join_lines(a + b) =~= join_lines(a) + join_lines(b));
    }
}

/// Appends the line `l` and a newline.
fn push_line(out: &mut Vec<char>, l: &str)
    ensures
        final(out)@ == old(out)@ + l@ + seq!['\n'],
{
    append_str(out, l);
    out.push('\n');
}

/// The header that an export writes at the top of the configuration: the
/// version of the program, the base preset (with the working space's gamut for
/// the custom preset), and each color space, its transfer function path
/// written relative to `export_path`.  Paths are taken as given: making them
/// canonical is the caller's part.
pub fn header_comment(
    version: &str,
    base: BasePreset,
    working: &ColorSpaceSpec,
    spaces: &[ColorSpaceSpec],
    export_path: &str,
) -> (r: String)
    ensures
        r@ == header_text(version@, base, working@, views(spaces@), export_path@),
{
    proof {
        reveal_strlit("----");
        reveal_strlit("");
    }
    let ghost sep = separator();
    let ghost vs = views(spaces@);
    let mut out: Vec<char> = Vec::new();
    let ghost mut ls: Seq<Seq<char>> = Seq::empty();

    let mut first = chars_of("Generated by ETF OCIO Maker v");
    append_str(&mut first, version);
    let first_line = string_from_chars(&first);
    proof {
        lemma_join_push(ls, first_line@);
    }
    push_line(&mut out, first_line.as_str());
    proof {
        ls = ls.push(first_line@);
        lemma_join_push(ls, ""@);
    }
    push_line(&mut out, "");
    proof {
        ls = ls.push(""@);
        lemma_join_push(ls, "Do not edit this file by hand if you want to continue managing"@);
    }
    push_line(&mut out, "Do not edit this file by hand if you want to continue managing");
    proof {
        ls = ls.push("Do not edit this file by hand if you want to continue managing"@);
        lemma_join_push(ls, "this configuration with ETF OCIO Maker."@);
    }
    push_line(&mut out, "this configuration with ETF OCIO Maker.");
    proof {
        ls = ls.push("this configuration with ETF OCIO Maker."@);
        lemma_join_push(ls, ""@);
    }
    push_line(&mut out, "");
    proof {
        ls = ls.push(""@);
        assert(first_line@ =~= "Generated by ETF OCIO Maker v"@ + version@);
        assert(""@ =~= Seq::<char>::empty());
        assert(ls =~= intro_lines(version@));
        lemma_join_push(ls, sep);
    }
    push_line(&mut out, "----");
    proof {
        ls = ls.push(sep);
    }

    let mut base_line = chars_of("base: ");
    append_str(&mut base_line, base.as_str());
    let base_text = string_from_chars(&base_line);
    proof {
        lemma_join_push(ls, base_text@);
    }
    push_line(&mut out, base_text.as_str());
    proof {
        ls = ls.push(base_text@);
    }
    match base {
        BasePreset::Custom => {
            let w = working.to_string(None, true);
            proof {
                lemma_join_concat(ls, spec_lines(working@, None, true));
            }
            append_str(&mut out, w.as_str());
            proof {
                ls = ls + spec_lines(working@, None, true);
            }
        },
        _ => {},
    }
    proof {
        assert(ls =~= intro_lines(version@) + seq![sep] + base_lines(base, working@));
        lemma_join_push(ls, sep);
    }
    push_line(&mut out, "----");
    proof {
        ls = ls.push(sep);
    }
    let ghost head = ls;

    let mut i: usize = 0;
    while i < spaces.len()
        invariant
            i <= spaces@.len(),
            vs == views(spaces@),
            sep == separator(),
            out@ == join_lines(ls),
            ls == head + space_lines(vs.take(i as int), export_path@),
        decreases spaces@.len() - i,
    {
        let s = spaces[i].to_string(Some(export_path), false);
        proof {
            lemma_join_concat(ls, spec_lines(vs[i as int], Some(export_path@), false));
        }
        append_str(&mut out, s.as_str());
        proof {
            ls = ls + spec_lines(vs[i as int], Some(export_path@), false);
            lemma_join_push(ls, sep);
        }
        push_line(&mut out, "----");
        proof {
            ls = ls.push(sep);
            assert(vs.take(i + 1).drop_last() =~= vs.take(i as int));
            assert(vs.take(i + 1).last() == vs[i as int]);
            assert(ls =~= head + space_lines(vs.take(i + 1), export_path@));
        }
        i += 1;
    }
    proof {
        assert(vs.take(spaces@.len() as int) =~= vs);
        assert(ls =~= header_lines(version@, base, working@, vs, export_path@));
    }
    string_from_chars(&out)
}

/// The characters an OCIO configuration needs escaped in a name, each
/// written behind a backslash.
pub open spec fn needs_escape(c: char) -> bool {
    c == '\\' || c == '#' || c == '"' || c == ']' || c == '}'
}

pub open spec fn escaped_char(c: char) -> Seq<char> {
    if needs_escape(c) {
        seq!['\\', c]
    } else {
        seq![c]
    }
}

/// `s` with a backslash before each character that needs one.
pub open spec fn escape(s: Seq<char>) -> Seq<char>
    decreases s.len(),
{
    if s.len() == 0 {
        Seq::<char>::empty()
    } else {
        escaped_char(s[0]) + escape(s.drop_first())
    }
}

/// Undoes [`escape`]: a backslash stands for the character after it.
pub open spec fn unescape(s: Seq<char>) -> Seq<char>
    decreases s.len(),
{
    if s.len() == 0 {
        Seq::<char>::empty()
    } else if s[0] == '\\' && s.len() >= 2 {
        seq![s[1]] + unescape(s.skip(2))
    } else {
        seq![s[0]] + unescape(s.drop_first())
    }
}

pub proof fn lemma_escape_push(s: Seq<char>, c: char)
    ensures
        escape(s.push(c)) == escape(s) + escaped_char(c),
    decreases s.len(),
{
    if s.len() == 0 {
        assert(s.push(c).drop_first() =~= Seq::<char>::empty());
        assert(s.push(c)[0] == c);
        assert(escape(Seq::<char>::empty()) == Seq::<char>::empty());
        assert(escape(s) == Seq::<char>::empty());
        assert(escape(s.push(c)) =~= escaped_char(c));
    } else {
        assert(s.push(c).drop_first() =~= s.drop_first().push(c));
        lemma_escape_push(s.drop_first(), c);
        assert(escape(s.push(c)) =~= escape(s) + escaped_char(c));
    }
}

/// Unescaping an escaped text gives the text.
pub proof fn lemma_unescape_escape(s: Seq<char>)
    ensures
        unescape(escape(s)) == s,
    decreases s.len(),
{
    if s.len() > 0 {
        let rest = s.drop_first();
        lemma_unescape_escape(rest);
        let e = escape(s);
        if needs_escape(s[0]) {
            assert(e.skip(2) =~= escape(rest));
        } else {
            assert(e.drop_first() =~= escape(rest));
        }
        assert(unescape(e) =~= s);
    }
}

/// The name a color space is given in the configuration: its name trimmed,
/// with `\`, `#`, `"`, `]` and `}` escaped.
pub fn escape_space_name(name: &str) -> (r: String)
    ensures
        r@ == escape(trim(name@)),
{
    let t = trim_chars(&chars_of(name));
    let mut out: Vec<char> = Vec::new();
    let mut i: usize = 0;
    while i < t.len()
        invariant
            i <= t@.len(),
            out@ == escape(t@.take(i as int)),
        decreases t@.len() - i,
    {
        let c = t[i];
        proof {
            assert(t@.take(i + 1) =~= t@.take(i as int).push(c));
            lemma_escape_push(t@.take(i as int), c);
        }
        if c == '\\' || c == '#' || c == '"' || c == ']' || c == '}' {
            out.push('\\');
        }
        out.push(c);
        proof {
            assert(out@ =~= escape(t@.take(i + 1)));
        }
        i += 1;
    }
    proof {
        assert(t@.take(t@.len() as int) =~= t@);
    }
    string_from_chars(&out)
}

/// Names in the configuration stay apart: two color spaces whose trimmed
/// names differ get different names in the configuration.
pub proof fn lemma_escaped_names_distinct(a: Seq<char>, b: Seq<char>)
    requires
        trim(a) != trim(b),
    ensures
        escape(trim(a)) != escape(trim(b)),
{
    lemma_unescape_escape(trim(a));
    lemma_unescape_escape(trim(b));
}

/// What `std::path::Path::file_name` gives for `path`, as text: the last
/// component of the path, where it names a file.  It follows the path syntax
/// of the platform the crate is built for, and reads no file system.
pub uninterp spec fn file_name_text(path: Seq<char>) -> Option<Seq<char>>;

/// Calls `std::path::Path::file_name` on a path given as text; the contract
/// claims only that its result, as text, is `file_name_text` of the path.
#[verifier::external_body]
pub(crate) fn file_name(path: &str) -> (r: Option<String>)
    ensures
        match r {
            Some(f) => file_name_text(path@) == Some(f@),
            None => file_name_text(path@) is None,
        },
{
    match std::path::Path::new(path).file_name() {
        Some(f) => Some(f.to_string_lossy().into_owned()),
        None => None,
    }
}

/// The name an export gives the copy of a transfer function file whose own
/// name is `file` (`None` where its path names no file): `omkr_`, the index
/// of its color space, `__`, and the file's name, or `lut.cube`.
pub open spec fn lut_copy_name_text(index: nat, file: Option<Seq<char>>) -> Seq<char> {
    "omkr_"@ + decimal(index) + "__"@ + match file {
        Some(f) => f,
        None => "lut.cube"@,
    }
}

/// The name an export gives the copy of color space `index`'s transfer
/// function file at `path`.
pub open spec fn lut_file_name_text(index: nat, path: Seq<char>) -> Seq<char> {
    lut_copy_name_text(index, file_name_text(path))
}

/// The name of the copy of a transfer function file named `file`, for color
/// space `index`.
pub fn lut_copy_name(index: usize, file: Option<&str>) -> (r: String)
    ensures
        r@ == lut_copy_name_text(
            index as nat,
            match file {
                Some(f) => Some(f@),
                None => None,
            },
        ),
{
    let mut out = chars_of("omkr_");
    push_decimal(&mut out, index);
    append_str(&mut out, "__");
    match file {
        Some(f) => append_str(&mut out, f),
        None => append_str(&mut out, "lut.cube"),
    }
    string_from_chars(&out)
}

/// The name of the copy of color space `index`'s transfer function file at
/// `path`.
pub fn lut_file_name(index: usize, path: &str) -> (r: String)
    ensures
        r@ == lut_file_name_text(index as nat, path@),
{
    match file_name(path) {
        Some(f) => lut_copy_name(index, Some(f.as_str())),
        None => lut_copy_name(index, None),
    }
}

/// Transfer function copies of different color spaces get different names.
pub proof fn lemma_lut_file_names_distinct(i: nat, j: nat, p: Seq<char>, q: Seq<char>)
    requires
        i != j,
    ensures
        lut_file_name_text(i, p) != lut_file_name_text(j, q),
{
    reveal_strlit("omkr_");
    reveal_strlit("__");
    let a = lut_file_name_text(i, p);
    let b = lut_file_name_text(j, q);
    let di = decimal(i);
    let dj = decimal(j);
    lemma_decimal_digits(i);
    lemma_decimal_digits(j);
    if a == b {
        // The index ends at the first `_` after the prefix.
        let k = if di.len() <= dj.len() { di.len() } else { dj.len() };
        assert forall|x: int| 0 <= x < k implies di[x] == dj[x] by {
            assert(a[5 + x] == di[x]);
            assert(b[5 + x] == dj[x]);
        }
        if di.len() < dj.len() {
            assert(a[5 + di.len() as int] == '_');
            assert(b[5 + di.len() as int] == dj[di.len() as int]);
        } else if dj.len() < di.len() {
            assert(b[5 + dj.len() as int] == '_');
            assert(a[5 + dj.len() as int] == di[dj.len() as int]);
        } else {
            assert(di =~= dj);
            lemma_decimal_injective(i, j);
        }
    }
}

/// A gamut an export gives a color space, or the configuration's reference
/// space.
#[derive(Debug)]
pub enum Gamut {
    /// One of the listed gamuts (never `NoChroma` nor `Custom`).
    Listed(ChromaSpace),
    /// Custom chromaticity coordinates, as the text they are held in.
    Coordinates(String),
    /// The reference space of the Blender 3.0 template.
    BlenderReference,
}

pub enum GamutView {
    Listed(ChromaSpace),
    Coordinates(Seq<char>),
    BlenderReference,
}

impl View for Gamut {
    type V = GamutView;

    open spec fn view(&self) -> GamutView {
        match self {
            Gamut::Listed(c) => GamutView::Listed(*c),
            Gamut::Coordinates(t) => GamutView::Coordinates(t@),
            Gamut::BlenderReference => GamutView::BlenderReference,
        }
    }
}

/// The gamut a color space with gamut choice `c` and custom coordinates
/// `custom` names: none for `NoChroma`, the coordinates for `Custom`, else
/// the listed gamut.
pub open spec fn gamut_of(c: ChromaSpace, custom: Seq<char>) -> Option<GamutView> {
    if c == ChromaSpace::NoChroma {
        None
    } else if c == ChromaSpace::Custom {
        Some(GamutView::Coordinates(custom))
    } else {
        Some(GamutView::Listed(c))
    }
}

/// The reference gamut of an exported configuration: for the custom preset
/// the working space's gamut, or Rec.709 where it names none; the Blender
/// template's own reference space for Blender 3.0; ACES AP1 for ACES Lite.
pub open spec fn reference_gamut_of(base: BasePreset, working: ColorSpaceSpecView) -> GamutView {
    match base {
        BasePreset::Custom => match gamut_of(working.chroma_space, working.custom_chroma) {
            Some(g) => g,
            None => GamutView::Listed(ChromaSpace::Rec709),
        },
        BasePreset::Blender3_0 => GamutView::BlenderReference,
        BasePreset::AcesLite => GamutView::Listed(ChromaSpace::AcesAP1),
    }
}

/// The reference gamut of each preset: the custom preset's follows the
/// working space (its listed gamut, its coordinates for a custom gamut, or
/// Rec.709 where it names none); Blender 3.0 has its template's reference
/// space and ACES Lite has ACES AP1, whatever the working space.
pub proof fn lemma_reference_gamut_per_preset(base: BasePreset, working: ColorSpaceSpecView)
    ensures
        ({
            let g = reference_gamut_of(base, working);
            &&& base == BasePreset::Blender3_0 ==> g == GamutView::BlenderReference
            &&& base == BasePreset::AcesLite ==> g == GamutView::Listed(ChromaSpace::AcesAP1)
            &&& base == BasePreset::Custom ==> if working.chroma_space == ChromaSpace::NoChroma {
                g == GamutView::Listed(ChromaSpace::Rec709)
            } else if working.chroma_space == ChromaSpace::Custom {
                g == GamutView::Coordinates(working.custom_chroma)
            } else {
                g == GamutView::Listed(working.chroma_space)
            }
        }),
{
}

/// The gamut a color space is given: its own, else the reference one.
pub open spec fn space_gamut_of(v: ColorSpaceSpecView, reference: GamutView) -> GamutView {
    match gamut_of(v.chroma_space, v.custom_chroma) {
        Some(g) => g,
        None => reference,
    }
}

fn own_gamut(c: ChromaSpace, custom: &String) -> (r: Option<Gamut>)
    ensures
        match r {
            Some(g) => gamut_of(c, custom@) == Some(g@),
            None => gamut_of(c, custom@) is None,
        },
{
    if c == ChromaSpace::NoChroma {
        None
    } else if c == ChromaSpace::Custom {
        Some(Gamut::Coordinates(custom.clone()))
    } else {
        Some(Gamut::Listed(c))
    }
}

/// The reference gamut of a configuration exported on preset `base` with
/// working space `working`.
pub fn reference_gamut(base: BasePreset, working: &ColorSpaceSpec) -> (r: Gamut)
    ensures
        r@ == reference_gamut_of(base, working@),
{
    match base {
        BasePreset::Custom => match own_gamut(working.chroma_space, &working.custom_chroma) {
            Some(g) => g,
            None => Gamut::Listed(ChromaSpace::Rec709),
        },
        BasePreset::Blender3_0 => Gamut::BlenderReference,
        BasePreset::AcesLite => Gamut::Listed(ChromaSpace::AcesAP1),
    }
}

/// The gamut an export gives `space`: its own, else the reference gamut of
/// the configuration (preset `base`, working space `working`).
pub fn space_gamut(space: &ColorSpaceSpec, base: BasePreset, working: &ColorSpaceSpec) -> (r: Gamut)
    ensures
        r@ == space_gamut_of(space@, reference_gamut_of(base, working@)),
{
    match own_gamut(space.chroma_space, &space.custom_chroma) {
        Some(g) => g,
        None => reference_gamut(base, working),
    }
}

/// What an export adds to the configuration for one color space: its name
/// (escaped), its gamut, the name of the copy of its transfer function file
/// with whether the function is applied inverted, and whether it is also a
/// display.
#[derive(Debug)]
pub struct SpaceExport {
    pub name: String,
    pub gamut: Gamut,
    pub lut_file: Option<(String, bool)>,
    pub display: bool,
}

pub struct SpaceExportView {
    pub name: Seq<char>,
    pub gamut: GamutView,
    pub lut_file: Option<(Seq<char>, bool)>,
    pub display: bool,
}

impl View for SpaceExport {
    type V = SpaceExportView;

    open spec fn view(&self) -> SpaceExportView {
        SpaceExportView {
            name: self.name@,
            gamut: self.gamut@,
            lut_file: match self.lut_file {
                Some((f, inv)) => Some((f@, inv)),
                None => None,
            },
            display: self.display,
        }
    }
}

/// What an export adds for color space `v`, the `index`-th of the list, in a
/// configuration whose reference gamut is `reference`.
pub open spec fn space_export(v: ColorSpaceSpecView, index: nat, reference: GamutView) -> SpaceExportView {
    SpaceExportView {
        name: escape(trim(v.name)),
        gamut: space_gamut_of(v, reference),
        lut_file: match v.transfer_lut {
            Some((p, inv)) => Some((lut_file_name_text(index, p), inv)),
            None => None,
        },
        display: v.include_as_display,
    }
}

/// What an export gives each color space: its trimmed name, escaped so that
/// unescaping gives it back; a LUT copy exactly when the space
/// has a transfer function, named after its index and applied in the
/// direction the space holds (inverted exactly when the space's function
/// is); a display exactly when the space is marked as one; its own gamut
/// where it names one (the listed gamut, or its coordinates for a custom
/// gamut), else the reference gamut.
pub proof fn lemma_space_export_effects(v: ColorSpaceSpecView, index: nat, reference: GamutView)
    ensures
        ({
            let x = space_export(v, index, reference);
            &&& unescape(x.name) == trim(v.name)
            &&& v.transfer_lut is None ==> x.lut_file is None
            &&& v.transfer_lut matches Some((p, inv)) ==> x.lut_file matches Some((f, inv2)) && inv2
                == inv && f == lut_file_name_text(index, p)
            &&& x.display == v.include_as_display
            &&& v.chroma_space == ChromaSpace::NoChroma ==> x.gamut == reference
            &&& v.chroma_space == ChromaSpace::Custom ==> x.gamut == GamutView::Coordinates(
                v.custom_chroma,
            )
            &&& v.chroma_space != ChromaSpace::NoChroma && v.chroma_space != ChromaSpace::Custom
                ==> x.gamut == GamutView::Listed(v.chroma_space)
        }),
{
    lemma_unescape_escape(trim(v.name));
}

/// Why an export could not start.
#[derive(Debug, Copy, Clone, PartialEq, Eq, Structural)]
pub enum ExportErr {
    /// No configuration directory has been chosen.
    NoDirectory,
}

/// What an export writes besides the template's own content: the header,
/// the reference gamut the template is built on, and what each color space
/// adds.
#[derive(Debug)]
pub struct ExportPlan {
    pub header: String,
    pub reference: Gamut,
    pub spaces: Vec<SpaceExport>,
}

/// Plans an export into `export_path`: refused where no directory is chosen
/// (the path is empty); else the header (see [`header_comment`]), the
/// reference gamut (see [`reference_gamut_of`]) and, for each color space in
/// order, what it adds.  Paths are taken as given: making
/// them canonical is the caller's part.
pub fn export_plan(
    version: &str,
    base: BasePreset,
    working: &ColorSpaceSpec,
    spaces: &[ColorSpaceSpec],
    export_path: &str,
) -> (r: Result<ExportPlan, ExportErr>)
    ensures
        match r {
            Ok(plan) => {
                &&& export_path@.len() > 0
                &&& plan.header@ == header_text(
                    version@,
                    base,
                    working@,
                    views(spaces@),
                    export_path@,
                )
                &&& plan.reference@ == reference_gamut_of(base, working@)
                &&& plan.spaces@.len() == spaces@.len()
                &&& forall|i: int|
                    0 <= i < spaces@.len() ==> #[trigger] plan.spaces@[i]@ == space_export(
                        spaces@[i]@,
                        i as nat,
                        reference_gamut_of(base, working@),
                    )
            },
            Err(ExportErr::NoDirectory) => export_path@.len() == 0,
        },
{
    if export_path.unicode_len() == 0 {
        return Err(ExportErr::NoDirectory);
    }
    let header = header_comment(version, base, working, spaces, export_path);
    let mut entries: Vec<SpaceExport> = Vec::new();
    let mut i: usize = 0;
    while i < spaces.len()
        invariant
            i <= spaces@.len(),
            entries@.len() == i,
            forall|j: int|
                0 <= j < i ==> #[trigger] entries@[j]@ == space_export(
                    spaces@[j]@,
                    j as nat,
                    reference_gamut_of(base, working@),
                ),
        decreases spaces@.len() - i,
    {
        let space = &spaces[i];
        let lut_file = match &space.transfer_lut {
            Some((path, inverse)) => Some((lut_file_name(i, path.as_str()), *inverse)),
            None => None,
        };
        entries.push(
            SpaceExport {
                name: escape_space_name(space.name.as_str()),
                gamut: space_gamut(space, base, working),
                lut_file,
                display: space.include_as_display,
            },
        );
        i += 1;
    }
    Ok(ExportPlan { header, reference: reference_gamut(base, working), spaces: entries })
}

//------------------------------------------------------------------------
// Reading.

/// One part of a header, as read back: a `base:` part, with the preset it
/// names (if it names one) and the text that follows its first line, or a
/// color space's text.
pub enum ChunkView {
    Base { preset: Option<BasePreset>, working: Seq<char> },
    Space(Seq<char>),
}

/// One part of a header, as read back.
#[derive(Debug)]
pub enum ConfigChunk {
    Base { preset: Option<BasePreset>, working: String },
    Space(String),
}

impl View for ConfigChunk {
    type V = ChunkView;

    open spec fn view(&self) -> ChunkView {
        match self {
            ConfigChunk::Base { preset, working } => ChunkView::Base {
                preset: *preset,
                working: working@,
            },
            ConfigChunk::Space(t) => ChunkView::Space(t@),
        }
    }
}

pub open spec fn chunk_views(v: Seq<ConfigChunk>) -> Seq<ChunkView> {
    v.map_values(|c: ConfigChunk| c@)
}

/// Why a configuration's header could not be read.
#[derive(Debug, Copy, Clone, PartialEq, Eq, Structural)]
pub enum ConfigReadErr {
    /// The file's first line does not say that OCIO Maker wrote it.
    NotOcioMakerConfig,
}

/// Where reading stands after some lines: the part being collected, the
/// parts read, and whether the comment has ended.
pub struct ScanState {
    pub chunk: Seq<char>,
    pub chunks: Seq<ChunkView>,
    pub done: bool,
}

pub open spec fn scan_start() -> ScanState {
    ScanState { chunk: Seq::<char>::empty(), chunks: Seq::<ChunkView>::empty(), done: false }
}

/// A comment line: `#` after any leading whitespace.
pub open spec fn is_comment(line: Seq<char>) -> bool {
    starts_with(trim(line), "#"@)
}

/// The line that ends a part.
pub open spec fn is_separator(line: Seq<char>) -> bool {
    trim(line) == "# ----"@
}

/// What a part keeps of one of its lines: all but the first character,
/// trimmed.
pub open spec fn kept_text(line: Seq<char>) -> Seq<char> {
    trim(line.drop_first())
}

/// What a finished part gives: a `base:` part, split after its first line; a
/// `color_space:` part whole; nothing for any other part.
pub open spec fn chunk_entry(c: Seq<char>) -> Seq<ChunkView> {
    if starts_with(c, "base:"@) {
        match split_once(c, '\n') {
            Some((b, tail)) => seq![
                ChunkView::Base {
                    preset: match split_once(b, ':') {
                        Some((_, v)) => BasePreset::parse(v),
                        None => None,
                    },
                    working: tail,
                },
            ],
            None => Seq::<ChunkView>::empty(),
        }
    } else if starts_with(c, "color_space:"@) {
        seq![ChunkView::Space(c)]
    } else {
        Seq::<ChunkView>::empty()
    }
}

/// Reads one line: the first line that is not a comment ends the header; a
/// separator finishes the part being collected; any other comment line adds
/// its kept text, and a newline, to the part.
pub open spec fn scan_line(st: ScanState, line: Seq<char>) -> ScanState {
    if st.done {
        st
    } else if !is_comment(line) {
        ScanState { done: true, ..st }
    } else if is_separator(line) {
        ScanState {
            chunk: Seq::<char>::empty(),
            chunks: st.chunks + chunk_entry(st.chunk),
            done: false,
        }
    } else {
        ScanState { chunk: st.chunk + kept_text(line) + seq!['\n'], ..st }
    }
}

pub open spec fn scan_from(st: ScanState, ls: Seq<Seq<char>>) -> ScanState
    decreases ls.len(),
{
    if ls.len() == 0 {
        st
    } else {
        scan_line(scan_from(st, ls.drop_last()), ls.last())
    }
}

/// Reading `line` would cut a multi-byte character: a comment line whose
/// first character (whitespace before the `#`) is not ASCII, met while the
/// header is being read.
pub open spec fn line_faults(st: ScanState, line: Seq<char>) -> bool {
    &&& !st.done
    &&& is_comment(line)
    &&& !is_separator(line)
    &&& line[0] as u32 >= 0x80
}

pub open spec fn faults_from(st: ScanState, ls: Seq<Seq<char>>) -> bool
    decreases ls.len(),
{
    if ls.len() == 0 {
        false
    } else {
        faults_from(st, ls.drop_last()) || line_faults(scan_from(st, ls.drop_last()), ls.last())
    }
}

pub open spec fn scan_faults(ls: Seq<Seq<char>>) -> bool {
    faults_from(scan_start(), ls)
}

/// The file says OCIO Maker wrote it: its first line, where it has one,
/// begins with the program's mark.
pub open spec fn marks_ours(ls: Seq<Seq<char>>) -> bool {
    ls.len() == 0 || starts_with(ls[0], "# Generated by ETF OCIO Maker"@)
}

/// The parts a configuration file's header holds, or `None` where the file
/// does not say that OCIO Maker wrote it.
pub open spec fn header_chunks(text: Seq<char>) -> Option<Seq<ChunkView>> {
    if marks_ours(lines(text)) {
        Some(scan_from(scan_start(), lines(text)).chunks)
    } else {
        None
    }
}

/// Reading the header of `text` would cut a multi-byte character.
pub open spec fn header_faults(text: Seq<char>) -> bool {
    marks_ours(lines(text)) && scan_faults(lines(text))
}

fn chunk_entry_of(c: &[char]) -> (r: Option<ConfigChunk>)
    ensures
        match r {
            Some(e) => chunk_entry(c@) == seq![e@],
            None => chunk_entry(c@) == Seq::<ChunkView>::empty(),
        },
{
    let n = c.len();
    if starts_with_str(c, "base:") {
        match find_char(c, '\n') {
            Some(k) => {
                let b = sub_chars(c, 0, k);
                let tail = sub_chars(c, k + 1, n);
                proof {
                    assert(b@ =~= c@.take(k as int));
                    assert(tail@ =~= c@.skip(k + 1));
                }
                let preset = match find_char(&b, ':') {
                    Some(j) => {
                        let v = sub_chars(&b, j + 1, b.len());
                        proof {
                            assert(v@ =~= b@.skip(j + 1));
                        }
                        let vs = string_from_chars(&v);
                        BasePreset::from_str(vs.as_str())
                    },
                    None => None,
                };
                Some(ConfigChunk::Base { preset, working: string_from_chars(&tail) })
            },
            None => None,
        }
    } else if starts_with_str(c, "color_space:") {
        Some(ConfigChunk::Space(string_from_chars(c)))
    } else {
        None
    }
}

pub open spec fn line_views(ls: Seq<Vec<char>>) -> Seq<Seq<char>> {
    ls.map_values(|l: Vec<char>| l@)
}

proof fn lemma_trim_len(s: Seq<char>)
    ensures
        trim(s).len() <= s.len(),
{
    lemma_lead_ws_bound(s);
    let t = trim_start(s);
    assert(t.len() == s.len() - lead_ws(s));
    lemma_trail_ws_bound(t);
    assert(trim(s).len() == t.len() - trail_ws(t));
}

/// A fault in some first lines is a fault of all of them.
proof fn lemma_faults_prefix(ls: Seq<Seq<char>>, k: int)
    requires
        0 <= k <= ls.len(),
        scan_faults(ls.take(k)),
    ensures
        scan_faults(ls),
    decreases ls.len() - k,
{
    if k < ls.len() {
        assert(ls.take(k + 1).drop_last() =~= ls.take(k));
        lemma_faults_prefix(ls, k + 1);
    } else {
        assert(ls.take(k) =~= ls);
    }
}

/// Reads the header's lines; `Err` gives the first line at which reading
/// would cut a multi-byte character.
fn scan_config(ls: &Vec<Vec<char>>) -> (r: Result<Vec<ConfigChunk>, usize>)
    ensures
        match r {
            Ok(v) => !scan_faults(line_views(ls@)) && chunk_views(v@) == scan_from(
                scan_start(),
                line_views(ls@),
            ).chunks,
            Err(_) => scan_faults(line_views(ls@)),
        },
{
    proof {
        reveal_strlit("#");
        reveal_strlit("# ----");
    }
    let ghost lv = line_views(ls@);
    let mut chunks: Vec<ConfigChunk> = Vec::new();
    let mut chunk: Vec<char> = Vec::new();
    let mut done = false;
    let mut i: usize = 0;
    while i < ls.len()
        invariant
            i <= ls@.len(),
            lv == line_views(ls@),
            !scan_faults(lv.take(i as int)),
            ({
                let st = scan_from(scan_start(), lv.take(i as int));
                &&& chunk@ == st.chunk
                &&& chunk_views(chunks@) == st.chunks
                &&& done == st.done
            }),
        decreases ls@.len() - i,
    {
        let ghost st = scan_from(scan_start(), lv.take(i as int));
        proof {
            reveal_strlit("#");
            reveal_strlit("# ----");
            assert(lv.take(i + 1).drop_last() =~= lv.take(i as int));
            assert(lv.take(i + 1).last() == ls@[i as int]@);
        }
        let line = &ls[i];
        if !done {
            let t = trim_chars(line);
            if !starts_with_str(&t, "#") {
                done = true;
            } else if eq_str(&t, "# ----") {
                match chunk_entry_of(&chunk) {
                    Some(e) => {
                        chunks.push(e);
                        proof {
                            assert(chunk_views(chunks@) =~= st.chunks + chunk_entry(st.chunk));
                        }
                    },
                    None => {
                        proof {
                            assert(chunk_views(chunks@) =~= st.chunks + chunk_entry(st.chunk));
                        }
                    },
                }
                chunk = Vec::new();
            } else {
                proof {
                    lemma_trim_len(line@);
                }
                assert(t@.len() >= 1);
                if line[0] as u32 >= 0x80 {
                    proof {
                        assert(line_faults(st, lv[i as int]));
                        assert(scan_faults(lv.take(i + 1)));
                        lemma_faults_prefix(lv, i + 1);
                    }
                    return Err(i);
                }
                let rest = trim_chars(&sub_chars(line, 1, line.len()));
                proof {
                    assert(line@.subrange(1, line@.len() as int) =~= line@.drop_first());
                }
                append_chars(&mut chunk, &rest);
                chunk.push('\n');
            }
        }
        i += 1;
    }
    proof {
        assert(lv.take(ls@.len() as int) =~= lv);
    }
    Ok(chunks)
}

/// Reads the header of a configuration file: the parts between its
/// separator lines, up to the first line that is not a comment.  A part that
/// begins with `base:` is split after its first line; one that begins with
/// `color_space:` is kept whole; others (the opening lines) are passed over,
/// and so is a last part that no separator ends.
pub fn read_header(text: &str) -> (r: Result<Vec<ConfigChunk>, ConfigReadErr>)
    requires
        !header_faults(text@),
    ensures
        match r {
            Ok(v) => header_chunks(text@) == Some(chunk_views(v@)),
            Err(ConfigReadErr::NotOcioMakerConfig) => header_chunks(text@) is None,
        },
{
    let ls = lines_of(&chars_of(text));
    let ghost lv = line_views(ls@);
    assert(lv == lines(text@));
    if ls.len() > 0 && !starts_with_str(&ls[0], "# Generated by ETF OCIO Maker") {
        return Err(ConfigReadErr::NotOcioMakerConfig);
    }
    match scan_config(&ls) {
        Ok(v) => Ok(v),
        Err(_) => {
            proof {
                assert(false);
            }
            Err(ConfigReadErr::NotOcioMakerConfig)
        },
    }
}

/// Whether [`read_header`] can read `text`: it cannot where reading would cut
/// a multi-byte character.
pub fn header_readable(text: &str) -> (b: bool)
    ensures
        b == !header_faults(text@),
{
    let ls = lines_of(&chars_of(text));
    let ghost lv = line_views(ls@);
    assert(lv == lines(text@));
    if ls.len() > 0 && !starts_with_str(&ls[0], "# Generated by ETF OCIO Maker") {
        return true;
    }
    match scan_config(&ls) {
        Ok(_) => true,
        Err(_) => false,
    }
}

//------------------------------------------------------------------------
// Loading.

/// A note that loading leaves in the log.
#[derive(Debug)]
pub enum LoadMessage {
    /// A `base:` part names no preset; loading goes on with the preset and
    /// working space there were.
    InvalidBase,
    /// The transfer function file at `path` could not be loaded, so the color
    /// space `space_name` is incomplete.
    LutUnloadable { path: String, space_name: String },
}

pub enum MessageView {
    InvalidBase,
    LutUnloadable { path: Seq<char>, space_name: Seq<char> },
}

impl View for LoadMessage {
    type V = MessageView;

    open spec fn view(&self) -> MessageView {
        match self {
            LoadMessage::InvalidBase => MessageView::InvalidBase,
            LoadMessage::LutUnloadable { path, space_name } => MessageView::LutUnloadable {
                path: path@,
                space_name: space_name@,
            },
        }
    }
}

/// What loading a configuration's header gives: the base preset and the
/// working space where a part set them (else `None`: keep what there was),
/// the color spaces in order, and the notes for the log.
#[derive(Debug)]
pub struct LoadedConfig {
    pub base_preset: Option<BasePreset>,
    pub working_color_space: Option<ColorSpaceSpec>,
    pub color_spaces: Vec<ColorSpaceSpec>,
    pub messages: Vec<LoadMessage>,
}

pub struct LoadView {
    pub base_preset: Option<BasePreset>,
    pub working: Option<ColorSpaceSpecView>,
    pub spaces: Seq<ColorSpaceSpecView>,
    pub messages: Seq<MessageView>,
}

impl View for LoadedConfig {
    type V = LoadView;

    open spec fn view(&self) -> LoadView {
        LoadView {
            base_preset: self.base_preset,
            working: match self.working_color_space {
                Some(w) => Some(w@),
                None => None,
            },
            spaces: views(self.color_spaces@),
            messages: self.messages@.map_values(|m: LoadMessage| m@),
        }
    }
}

pub open spec fn load_start() -> LoadView {
    LoadView {
        base_preset: None,
        working: None,
        spaces: Seq::<ColorSpaceSpecView>::empty(),
        messages: Seq::<MessageView>::empty(),
    }
}

/// The outside checks a part needs: those of the working space's text for a
/// `base:` part that names a preset (the text is read only then), those of
/// the color space's text for a color space.
pub open spec fn chunk_checks(c: ChunkView) -> nat {
    match c {
        ChunkView::Base { preset, working } => if preset is Some {
            checks_in(lines(working))
        } else {
            0
        },
        ChunkView::Space(t) => checks_in(lines(t)),
    }
}

/// Loads one part, given the outcomes of its outside checks.  A `base:` part
/// that names a preset sets the preset, and the working space where its text
/// reads without an unloadable transfer function; one that names none leaves
/// a note.  A color space part adds the color space read from it, with a note
/// where its transfer function could not be loaded.
pub open spec fn load_step(st: LoadView, c: ChunkView, o: Seq<bool>) -> LoadView {
    match c {
        ChunkView::Base { preset, working } => match preset {
            Some(p) => {
                let r = spec_read(working, o);
                LoadView {
                    base_preset: Some(p),
                    working: if r.unloadable is None {
                        Some(r.spec)
                    } else {
                        st.working
                    },
                    ..st
                }
            },
            None => LoadView { messages: st.messages.push(MessageView::InvalidBase), ..st },
        },
        ChunkView::Space(t) => {
            let r = spec_read(t, o);
            LoadView {
                spaces: st.spaces.push(r.spec),
                messages: match r.unloadable {
                    Some(p) => st.messages.push(
                        MessageView::LutUnloadable { path: p, space_name: r.spec.name },
                    ),
                    None => st.messages,
                },
                ..st
            }
        },
    }
}

pub open spec fn load_from(st: LoadView, cs: Seq<ChunkView>, os: Seq<Seq<bool>>) -> LoadView
    decreases cs.len(),
{
    if cs.len() == 0 {
        st
    } else {
        load_step(load_from(st, cs.drop_last(), os), cs.last(), os[cs.len() - 1])
    }
}

/// What loading gives, with each color space's transfer function path taken
/// in terms of the configuration's folder `dir`, where one is known.  The
/// working space is read without a folder.
pub open spec fn resolved_load(l: LoadView, dir: Option<Seq<char>>) -> LoadView {
    LoadView {
        spaces: l.spaces.map_values(|v: ColorSpaceSpecView| resolve_lut(v, dir)),
        ..l
    }
}

pub open spec fn outcome_views(os: Seq<Vec<bool>>) -> Seq<Seq<bool>> {
    os.map_values(|o: Vec<bool>| o@)
}

/// Loads the parts of a header read by [`read_header`], from a configuration
/// in folder `config_dir` where it is known.  `outcomes[j]` holds, in order,
/// the outcomes of the outside checks that part `j` needs (see
/// [`chunk_checks`]): whether each transfer function file loaded (a color
/// space's taken in terms of `config_dir`), and whether the custom gamut's
/// numbers were eight valid numbers.
pub fn load_chunks(chunks: &[ConfigChunk], config_dir: Option<&str>, outcomes: &[Vec<bool>]) -> (r:
    LoadedConfig)
    requires
        outcomes@.len() == chunks@.len(),
        forall|j: int| 0 <= j < chunks@.len() ==> #[trigger] outcomes@[j]@.len() == chunk_checks(
            chunks@[j]@,
        ),
    ensures
        r@ == resolved_load(
            load_from(load_start(), chunk_views(chunks@), outcome_views(outcomes@)),
            match config_dir {
                Some(d) => Some(d@),
                None => None,
            },
        ),
{
    let ghost dir = match config_dir {
        Some(d) => Some(d@),
        None => None::<Seq<char>>,
    };
    let ghost cs = chunk_views(chunks@);
    let ghost os = outcome_views(outcomes@);
    let mut r = LoadedConfig {
        base_preset: None,
        working_color_space: None,
        color_spaces: Vec::new(),
        messages: Vec::new(),
    };
    proof {
        assert(r@.spaces =~= Seq::<ColorSpaceSpecView>::empty());
        assert(r@.messages =~= Seq::<MessageView>::empty());
        assert(cs.take(0) =~= Seq::<ChunkView>::empty());
        assert(resolved_load(load_start(), dir).spaces =~= Seq::<ColorSpaceSpecView>::empty());
    }
    let mut j: usize = 0;
    while j < chunks.len()
        invariant
            j <= chunks@.len(),
            outcomes@.len() == chunks@.len(),
            cs == chunk_views(chunks@),
            os == outcome_views(outcomes@),
            forall|k: int| 0 <= k < chunks@.len() ==> #[trigger] outcomes@[k]@.len() == chunk_checks(
                chunks@[k]@,
            ),
            dir == match config_dir {
                Some(d) => Some(d@),
                None => None::<Seq<char>>,
            },
            r@ == resolved_load(load_from(load_start(), cs.take(j as int), os), dir),
        decreases chunks@.len() - j,
    {
        let ghost prev = r@;
        let ghost prev_raw = load_from(load_start(), cs.take(j as int), os);
        proof {
            assert(cs.take(j + 1).drop_last() =~= cs.take(j as int));
            assert(cs.take(j + 1).last() == chunks@[j as int]@);
            assert(os[j as int] == outcomes@[j as int]@);
        }
        let o = &outcomes[j];
        match &chunks[j] {
            ConfigChunk::Base { preset, working } => match preset {
                Some(p) => {
                    r.base_preset = Some(*p);
                    let (w, res) = ColorSpaceSpec::from_str(working.as_str(), None, o.as_slice());
                    match res {
                        Ok(()) => {
                            r.working_color_space = Some(w);
                        },
                        Err(_) => {},
                    }
                },
                None => {
                    r.messages.push(LoadMessage::InvalidBase);
                    proof {
                        assert(r@.messages =~= prev.messages.push(MessageView::InvalidBase));
                    }
                },
            },
            ConfigChunk::Space(t) => {
                let (space, res) = ColorSpaceSpec::from_str(t.as_str(), config_dir, o.as_slice());
                match res {
                    Ok(()) => {},
                    Err(ConfigLoadErr::FileUnloadable(path)) => {
                        let space_name = space.name.clone();
                        r.messages.push(LoadMessage::LutUnloadable { path, space_name });
                        proof {
                            assert(r@.messages =~= prev.messages.push(
                                MessageView::LutUnloadable {
                                    path: spec_read(t@, o@).unloadable->0,
                                    space_name: spec_read(t@, o@).spec.name,
                                },
                            ));
                        }
                    },
                }
                r.color_spaces.push(space);
                proof {
                    assert(views(r.color_spaces@) =~= prev.spaces.push(
                        resolve_lut(spec_read(t@, o@).spec, dir),
                    ));
                    assert(prev_raw.spaces.push(spec_read(t@, o@).spec).map_values(
                        |v: ColorSpaceSpecView| resolve_lut(v, dir),
                    ) =~= prev.spaces.push(resolve_lut(spec_read(t@, o@).spec, dir)));
                }
            },
        }
        j += 1;
    }
    proof {
        assert(cs.take(chunks@.len() as int) =~= cs);
    }
    r
}

/// Puts a loaded configuration in place of the one being edited: the base
/// preset and the working space where the configuration set them, its color
/// spaces with the first one selected, and the export directory moved to
/// `config_dir`, the configuration's folder, where it has one.
pub fn apply_loaded_config(
    loaded: LoadedConfig,
    config_dir: Option<String>,
    base_preset: &mut BasePreset,
    working: &mut ColorSpaceSpec,
    list: &mut ColorSpaceList,
    export_path: &mut String,
)
    ensures
        *final(base_preset) == match loaded@.base_preset {
            Some(p) => p,
            None => *old(base_preset),
        },
        final(working)@ == match loaded@.working {
            Some(w) => w,
            None => old(working)@,
        },
        views(final(list).color_spaces@) == loaded@.spaces,
        final(list).selected_space_index == 0,
        final(export_path)@ == dir_or_parent(
            old(export_path)@,
            match config_dir {
                Some(d) => Some(d@),
                None => None,
            },
        ),
{
    let LoadedConfig { base_preset: preset, working_color_space, color_spaces, messages: _ } =
        loaded;
    match preset {
        Some(p) => {
            *base_preset = p;
        },
        None => {},
    }
    match working_color_space {
        Some(w) => {
            *working = w;
        },
        None => {},
    }
    list.color_spaces = color_spaces;
    list.selected_space_index = 0;
    move_to_parent(export_path, config_dir);
}

/// Puts the configuration loaded from the file at `config_path` in place of
/// the one being edited (see [`apply_loaded_config`]); the export directory
/// moves to the file's folder.
pub fn apply_config_file(
    loaded: LoadedConfig,
    config_path: &str,
    base_preset: &mut BasePreset,
    working: &mut ColorSpaceSpec,
    list: &mut ColorSpaceList,
    export_path: &mut String,
)
    ensures
        *final(base_preset) == match loaded@.base_preset {
            Some(p) => p,
            None => *old(base_preset),
        },
        final(working)@ == match loaded@.working {
            Some(w) => w,
            None => old(working)@,
        },
        views(final(list).color_spaces@) == loaded@.spaces,
        final(list).selected_space_index == 0,
        final(export_path)@ == dir_or_parent(old(export_path)@, parent_text(config_path@)),
{
    let dir = parent_dir(config_path);
    apply_loaded_config(loaded, dir, base_preset, working, list, export_path);
}

//------------------------------------------------------------------------
// Reading back what an export wrote.

/// A header line as the configuration file carries it: behind `# `, as the
/// reader expects (its separator test is for `# ----`).
pub open spec fn comment_line(l: Seq<char>) -> Seq<char> {
    seq!['#', ' '] + l
}

/// The header as the configuration file carries it.
pub open spec fn commented(ls: Seq<Seq<char>>) -> Seq<char> {
    join_lines(ls.map_values(|l: Seq<char>| comment_line(l)))
}

/// A line free of line breaks and of a final carriage return.
pub open spec fn plain_line(l: Seq<char>) -> bool {
    no_newline(l) && strip_cr(l) == l
}

pub proof fn lemma_split_nl_join_rest(a: Seq<Seq<char>>, r: Seq<char>)
    requires
        forall|i: int| 0 <= i < a.len() ==> no_newline(#[trigger] a[i]),
    ensures
        split_nl(join_lines(a) + r) == a + split_nl(r),
    decreases r.len(),
{
    if r.len() == 0 {
        lemma_split_nl_join(a);
        assert(join_lines(a) + r =~= join_lines(a));
        assert(a.push(Seq::<char>::empty()) =~= a + split_nl(r));
    } else {
        let x = join_lines(a) + r;
        assert(x.drop_last() =~= join_lines(a) + r.drop_last());
        assert(x.last() == r.last());
        lemma_split_nl_join_rest(a, r.drop_last());
        lemma_split_nl_len(r.drop_last());
        let p = split_nl(r.drop_last());
        if r.last() == '\n' {
            assert(split_nl(x) =~= a + split_nl(r));
        } else {
            assert((a + p).last() == p.last());
            assert(split_nl(x) =~= a + split_nl(r));
        }
    }
}

/// The lines of a text that begins with whole lines are those lines, then
/// the lines of the rest.
pub proof fn lemma_lines_join_rest(a: Seq<Seq<char>>, r: Seq<char>)
    requires
        forall|i: int| 0 <= i < a.len() ==> plain_line(#[trigger] a[i]),
    ensures
        lines(join_lines(a) + r) == a + lines(r),
{
    assert forall|i: int| 0 <= i < a.len() implies no_newline(#[trigger] a[i]) by {
        assert(plain_line(a[i]));
    }
    lemma_split_nl_join_rest(a, r);
    lemma_split_nl_len(r);
    let p = split_nl(r);
    let q = a + p;
    assert(q.drop_last() =~= a + p.drop_last());
    assert(q.last() == p.last());
    assert((a + p.drop_last()).map_values(|l: Seq<char>| strip_cr(l)) =~= a + p.drop_last().map_values(
        |l: Seq<char>| strip_cr(l),
    )) by {
        assert forall|i: int| 0 <= i < a.len() implies strip_cr(#[trigger] a[i]) == a[i] by {
            assert(plain_line(a[i]));
        }
    }
    assert(lines(join_lines(a) + r) =~= a + lines(r));
}

/// Reading `a` then `b` is reading `a + b`.
pub proof fn lemma_scan_concat(st: ScanState, a: Seq<Seq<char>>, b: Seq<Seq<char>>)
    ensures
        scan_from(st, a + b) == scan_from(scan_from(st, a), b),
        faults_from(st, a + b) == (faults_from(st, a) || faults_from(scan_from(st, a), b)),
    decreases b.len(),
{
    if b.len() == 0 {
        assert(a + b =~= a);
    } else {
        lemma_scan_concat(st, a, b.drop_last());
        assert((a + b).drop_last() =~= a + b.drop_last());
        assert((a + b).last() == b.last());
    }
}

/// Once the header has ended, further lines change nothing.
pub proof fn lemma_scan_done(st: ScanState, ls: Seq<Seq<char>>)
    requires
        st.done,
    ensures
        scan_from(st, ls) == st,
        !faults_from(st, ls),
    decreases ls.len(),
{
    if ls.len() > 0 {
        lemma_scan_done(st, ls.drop_last());
    }
}

proof fn lemma_trim_first(s: Seq<char>)
    requires
        s.len() > 0,
        !is_ws(s[0]),
    ensures
        trim(s).len() > 0,
        trim(s)[0] == s[0],
        forall|j: int| 0 <= j < s.len() && !is_ws(s[j]) ==> j < trim(s).len() && trim(s)[j] == s[j],
{
    let (lo, hi) = lemma_trim_range(s);
    if lo > 0 {
        assert(is_ws(s[0]));
    }
    assert forall|j: int| 0 <= j < s.len() && !is_ws(s[j]) implies j < trim(s).len() && trim(s)[j]
        == s[j] by {
        if j >= hi {
            assert(is_ws(s[j]));
        }
    }
}

/// A commented header line that is not a separator adds the line, trimmed,
/// to the part being read.
pub proof fn lemma_comment_step(st: ScanState, l: Seq<char>)
    requires
        !st.done,
        !is_separator(comment_line(l)),
    ensures
        scan_line(st, comment_line(l)) == (ScanState {
            chunk: st.chunk + trim(l) + seq!['\n'],
            ..st
        }),
        !line_faults(st, comment_line(l)),
{
    reveal_strlit("#");
    let c = comment_line(l);
    lemma_trim_first(c);
    assert(trim(c).take(1) =~= "#"@);
    assert(is_comment(c));
    assert(c.drop_first() =~= seq![' '] + l + Seq::<char>::empty());
    lemma_trim_pad(seq![' '], l, Seq::<char>::empty());
    assert(kept_text(c) == trim(l));
}

/// A commented separator ends the part being read.
pub proof fn lemma_separator_step(st: ScanState)
    requires
        !st.done,
    ensures
        scan_line(st, comment_line(separator())) == (ScanState {
            chunk: Seq::<char>::empty(),
            chunks: st.chunks + chunk_entry(st.chunk),
            done: false,
        }),
        !line_faults(st, comment_line(separator())),
{
    reveal_strlit("#");
    reveal_strlit("----");
    reveal_strlit("# ----");
    let c = comment_line(separator());
    assert(c =~= "# ----"@);
    lemma_trim_fixed(c);
    assert(trim(c).take(1) =~= "#"@);
}

/// A header line whose commented form is no separator: an empty line, or one
/// that begins with something other than whitespace or `-`.
pub proof fn lemma_not_separator(l: Seq<char>)
    requires
        l.len() > 0 ==> !is_ws(l[0]) && l[0] != '-',
    ensures
        !is_separator(comment_line(l)),
{
    reveal_strlit("# ----");
    let c = comment_line(l);
    if l.len() == 0 {
        lemma_trim_len(c);
        assert("# ----"@.len() == 6);
    } else {
        lemma_trim_first(c);
        assert(c[2] == l[0]);
        assert(trim(c)[2] == l[0]);
        assert("# ----"@[2] == '-');
    }
}

/// The lines of `ls` in commented form.
pub open spec fn commented_lines(ls: Seq<Seq<char>>) -> Seq<Seq<char>> {
    ls.map_values(|l: Seq<char>| comment_line(l))
}

/// Reading a group of commented lines, none a separator, adds their trimmed
/// lines to the part being read.
pub proof fn lemma_scan_group(st: ScanState, g: Seq<Seq<char>>)
    requires
        !st.done,
        forall|i: int| 0 <= i < g.len() ==> !is_separator(comment_line(#[trigger] g[i])),
    ensures
        scan_from(st, commented_lines(g)) == (ScanState {
            chunk: st.chunk + join_lines(trim_each(g)),
            ..st
        }),
        !faults_from(st, commented_lines(g)),
    decreases g.len(),
{
    if g.len() == 0 {
        assert(st.chunk + join_lines(trim_each(g)) =~= st.chunk);
    } else {
        let init = g.drop_last();
        assert(commented_lines(g).drop_last() =~= commented_lines(init));
        assert(commented_lines(g).last() == comment_line(g.last()));
        assert(trim_each(g).drop_last() =~= trim_each(init));
        assert(trim_each(g).last() == trim(g.last()));
        assert forall|i: int| 0 <= i < init.len() implies !is_separator(
            comment_line(#[trigger] init[i]),
        ) by {
            assert(init[i] == g[i]);
        }
        lemma_scan_group(st, init);
        let mid = scan_from(st, commented_lines(init));
        assert(!is_separator(comment_line(g[g.len() - 1])));
        lemma_comment_step(mid, g.last());
        assert(st.chunk + join_lines(trim_each(init)) + trim(g.last()) + seq!['\n'] =~= st.chunk
            + join_lines(trim_each(g)));
    }
}

/// Reading a group of commented lines and a separator, from the start of a
/// part, adds what the group's trimmed lines give.
pub proof fn lemma_scan_part(st: ScanState, g: Seq<Seq<char>>)
    requires
        !st.done,
        st.chunk == Seq::<char>::empty(),
        forall|i: int| 0 <= i < g.len() ==> !is_separator(comment_line(#[trigger] g[i])),
    ensures
        scan_from(st, commented_lines(g + seq![separator()])) == (ScanState {
            chunk: Seq::<char>::empty(),
            chunks: st.chunks + chunk_entry(join_lines(trim_each(g))),
            done: false,
        }),
        !faults_from(st, commented_lines(g + seq![separator()])),
{
    assert(commented_lines(g + seq![separator()]) =~= commented_lines(g) + seq![
        comment_line(separator()),
    ]);
    lemma_scan_group(st, g);
    lemma_scan_concat(st, commented_lines(g), seq![comment_line(separator())]);
    let mid = scan_from(st, commented_lines(g));
    assert(mid.chunk =~= join_lines(trim_each(g)));
    lemma_separator_step(mid);
    let one = seq![comment_line(separator())];
    assert(one.drop_last() =~= Seq::<Seq<char>>::empty());
    assert(scan_from(mid, one.drop_last()) == mid);
    assert(!faults_from(mid, one.drop_last()));
    assert(!faults_from(mid, one));
}

/// The part that reading an exported color space gives.
pub open spec fn space_chunk(s: ColorSpaceSpecView, export: Seq<char>) -> ChunkView {
    ChunkView::Space(join_lines(trim_each(spec_lines(s, Some(export), false))))
}

pub open spec fn space_chunks(sp: Seq<ColorSpaceSpecView>, export: Seq<char>) -> Seq<ChunkView> {
    sp.map_values(|s: ColorSpaceSpecView| space_chunk(s, export))
}

/// The working space text that reading an exported `base:` part gives: the
/// working space's gamut lines, trimmed, for the custom preset; nothing
/// otherwise.
pub open spec fn base_tail(base: BasePreset, working: ColorSpaceSpecView) -> Seq<char> {
    join_lines(
        trim_each(
            if base == BasePreset::Custom {
                spec_lines(working, None, true)
            } else {
                Seq::<Seq<char>>::empty()
            },
        ),
    )
}

/// The parts that reading an exported header gives: the base, then each
/// color space.
pub open spec fn exported_chunks(
    base: BasePreset,
    working: ColorSpaceSpecView,
    spaces: Seq<ColorSpaceSpecView>,
    export: Seq<char>,
) -> Seq<ChunkView> {
    seq![ChunkView::Base { preset: Some(base), working: base_tail(base, working) }] + space_chunks(
        spaces,
        export,
    )
}

/// Lines whose commented forms are no separators.
pub open spec fn content_lines(g: Seq<Seq<char>>) -> bool {
    forall|i: int|
        0 <= i < g.len() ==> (#[trigger] g[i]).len() > 0 ==> !is_ws(g[i][0]) && g[i][0] != '-'
}

pub open spec fn all_plain(ls: Seq<Seq<char>>) -> bool {
    forall|i: int| 0 <= i < ls.len() ==> plain_line(#[trigger] ls[i])
}

proof fn lemma_content_not_separator(g: Seq<Seq<char>>)
    requires
        content_lines(g),
    ensures
        forall|i: int| 0 <= i < g.len() ==> !is_separator(comment_line(#[trigger] g[i])),
{
    assert forall|i: int| 0 <= i < g.len() implies !is_separator(comment_line(#[trigger] g[i])) by {
        lemma_not_separator(g[i]);
    }
}

proof fn lemma_all_plain_concat(a: Seq<Seq<char>>, b: Seq<Seq<char>>)
    requires
        all_plain(a),
        all_plain(b),
    ensures
        all_plain(a + b),
{
    assert forall|i: int| 0 <= i < (a + b).len() implies plain_line(#[trigger] (a + b)[i]) by {
        if i < a.len() {
            assert((a + b)[i] == a[i]);
        } else {
            assert((a + b)[i] == b[i - a.len()]);
        }
    }
}

proof fn lemma_join_first(x: Seq<char>, rest: Seq<Seq<char>>)
    ensures
        join_lines(seq![x] + rest) == x + seq!['\n'] + join_lines(rest),
{
    lemma_join_concat(seq![x], rest);
    assert(seq![x].drop_last() =~= Seq::<Seq<char>>::empty());
    assert(join_lines(Seq::<Seq<char>>::empty()) == Seq::<char>::empty());
    assert(seq![x].last() == x);
    assert(join_lines(seq![x]) =~= x + seq!['\n']);
}

proof fn lemma_spec_lines_content(v: ColorSpaceSpecView, base: Option<Seq<char>>, chroma_only: bool)
    requires
        writable(v, base, chroma_only),
    ensures
        content_lines(spec_lines(v, base, chroma_only)),
        all_plain(spec_lines(v, base, chroma_only)),
{
    lemma_spec_lines_shape(v, base, chroma_only);
    let ls = spec_lines(v, base, chroma_only);
    assert forall|i: int| 0 <= i < ls.len() implies plain_line(#[trigger] ls[i]) by {
        assert(no_newline(ls[i]));
    }
}

/// The opening lines give no part.
proof fn lemma_intro_entry(version: Seq<char>)
    ensures
        chunk_entry(join_lines(trim_each(intro_lines(version)))) == Seq::<ChunkView>::empty(),
        content_lines(intro_lines(version)),
{
    reveal_strlit("Generated by ETF OCIO Maker v");
    reveal_strlit("Do not edit this file by hand if you want to continue managing");
    reveal_strlit("this configuration with ETF OCIO Maker.");
    reveal_strlit("base:");
    reveal_strlit("color_space:");
    let ls = intro_lines(version);
    let l0 = ls[0];
    assert(l0[0] == 'G');
    lemma_trim_first(l0);
    assert(trim_each(ls) =~= seq![trim(l0)] + trim_each(ls.skip(1)));
    lemma_join_first(trim(l0), trim_each(ls.skip(1)));
    let t = join_lines(trim_each(ls));
    assert(t[0] == 'G');
    assert(!starts_with(t, "base:"@)) by {
        if starts_with(t, "base:"@) {
            assert(t.take(5)[0] == 'b');
        }
    }
    assert(!starts_with(t, "color_space:"@)) by {
        if starts_with(t, "color_space:"@) {
            assert(t.take(12)[0] == 'c');
        }
    }
    assert(ls[2][0] == 'D');
    assert(ls[3][0] == 't');
}

/// The text a base preset is written with.
proof fn lemma_base_text(base: BasePreset)
    ensures
        base.text().len() > 0,
        !is_ws(base.text()[0]),
        !is_ws(base.text().last()),
        no_newline(base.text()),
        forall|j: int| 0 <= j < base.text().len() ==> base.text()[j] != ':',
{
    reveal_strlit("Custom");
    reveal_strlit("Blender 3.0");
    reveal_strlit("ACES Lite");
}

/// The `base:` part gives the preset and the working space's text.
proof fn lemma_base_entry(base: BasePreset, working: ColorSpaceSpecView)
    requires
        base == BasePreset::Custom ==> writable(working, None, true),
    ensures
        chunk_entry(join_lines(trim_each(base_lines(base, working)))) == seq![
            ChunkView::Base { preset: Some(base), working: base_tail(base, working) },
        ],
        content_lines(base_lines(base, working)),
        all_plain(base_lines(base, working)),
{
    reveal_strlit("base: ");
    reveal_strlit("base:");
    lemma_base_text(base);
    let x = base.text();
    let b = "base: "@ + x;
    let w = if base == BasePreset::Custom {
        spec_lines(working, None, true)
    } else {
        Seq::<Seq<char>>::empty()
    };
    if base == BasePreset::Custom {
        lemma_spec_lines_content(working, None, true);
    }
    assert(base_lines(base, working) =~= seq![b] + w);
    assert(b.last() == x.last());
    lemma_trim_fixed(b);
    assert(trim_each(seq![b] + w) =~= seq![b] + trim_each(w));
    lemma_join_first(b, trim_each(w));
    let t = join_lines(trim_each(base_lines(base, working)));
    let tail = join_lines(trim_each(w));
    assert(t == b + seq!['\n'] + tail);
    assert(t.take(5) =~= "base:"@);
    assert forall|j: int| 0 <= j < b.len() implies t[j] != '\n' by {
        assert(t[j] == b[j]);
        if j >= 6 {
            assert(b[j] == x[j - 6]);
        }
    }
    assert(t[b.len() as int] == '\n');
    lemma_find_at(t, '\n', b.len());
    assert(t.take(b.len() as int) =~= b);
    assert(t.skip(b.len() + 1 as int) =~= tail);
    assert forall|j: int| 0 <= j < 4 implies b[j] != ':' by {}
    lemma_find_at(b, ':', 4);
    assert(b.skip(5) =~= seq![' '] + x + Seq::<char>::empty());
    lemma_base_preset_round_trip(base, seq![' '], Seq::<char>::empty());
    assert(plain_line(b)) by {
        assert forall|j: int| 0 <= j < b.len() implies b[j] != '\n' by {
            if j >= 6 {
                assert(b[j] == x[j - 6]);
            }
        }
    }
    assert(all_plain(seq![b]));
    if base == BasePreset::Custom {
        lemma_all_plain_concat(seq![b], w);
    } else {
        assert(seq![b] + w =~= seq![b]);
    }
    assert(content_lines(seq![b] + w)) by {
        assert forall|i: int| 0 <= i < (seq![b] + w).len() && (#[trigger] (seq![b] + w)[i]).len()
            > 0 implies !is_ws((seq![b] + w)[i][0]) && (seq![b] + w)[i][0] != '-' by {
            if i > 0 {
                assert((seq![b] + w)[i] == w[i - 1]);
            }
        }
    }
}

/// A color space part gives the color space's text, its lines trimmed.
proof fn lemma_space_entry(v: ColorSpaceSpecView, export: Seq<char>)
    requires
        writable(v, Some(export), false),
    ensures
        chunk_entry(join_lines(trim_each(spec_lines(v, Some(export), false)))) == seq![
            space_chunk(v, export),
        ],
{
    reveal_strlit("color_space");
    reveal_strlit("color_space:");
    reveal_strlit("base:");
    let ls = spec_lines(v, Some(export), false);
    let l0 = kv_line(key_color_space(), trim(v.name));
    assert(ls[0] == l0);
    assert(l0[11] == ':');
    lemma_trim_first(l0);
    assert(trim_each(ls) =~= seq![trim(l0)] + trim_each(ls.skip(1)));
    lemma_join_first(trim(l0), trim_each(ls.skip(1)));
    let t = join_lines(trim_each(ls));
    let r = trim(l0);
    assert forall|j: int| 0 <= j < 12 implies j < r.len() && #[trigger] t[j] == "color_space:"@[j] by {
        if j < 11 {
            assert(l0[j] == "color_space"@[j]);
        }
        assert(!is_ws(l0[j]));
        assert(r[j] == l0[j]);
        assert(t[j] == r[j]);
    }
    assert(t.take(12) =~= "color_space:"@);
    assert(!starts_with(t, "base:"@)) by {
        if starts_with(t, "base:"@) {
            assert(t.take(5)[0] == 'b');
        }
    }
}

proof fn lemma_commented_concat(a: Seq<Seq<char>>, b: Seq<Seq<char>>)
    ensures
        commented_lines(a + b) == commented_lines(a) + commented_lines(b),
{
    assert(commented_lines(a + b) =~= commented_lines(a) + commented_lines(b));
}

/// Reading the color spaces' lines, part by part.
proof fn lemma_scan_spaces(st: ScanState, sp: Seq<ColorSpaceSpecView>, export: Seq<char>)
    requires
        !st.done,
        st.chunk == Seq::<char>::empty(),
        forall|i: int| 0 <= i < sp.len() ==> writable(#[trigger] sp[i], Some(export), false),
    ensures
        scan_from(st, commented_lines(space_lines(sp, export))) == (ScanState {
            chunk: Seq::<char>::empty(),
            chunks: st.chunks + space_chunks(sp, export),
            done: false,
        }),
        !faults_from(st, commented_lines(space_lines(sp, export))),
        all_plain(space_lines(sp, export)),
    decreases sp.len(),
{
    if sp.len() == 0 {
        assert(st.chunks + space_chunks(sp, export) =~= st.chunks);
        assert(commented_lines(space_lines(sp, export)) =~= Seq::<Seq<char>>::empty());
    } else {
        let init = sp.drop_last();
        let v = sp.last();
        assert forall|i: int| 0 <= i < init.len() implies writable(#[trigger] init[i], Some(export), false) by {
            assert(init[i] == sp[i]);
        }
        assert(writable(sp[sp.len() - 1], Some(export), false));
        lemma_scan_spaces(st, init, export);
        let g = spec_lines(v, Some(export), false);
        let part = g + seq![separator()];
        assert(space_lines(sp, export) =~= space_lines(init, export) + part);
        lemma_commented_concat(space_lines(init, export), part);
        lemma_scan_concat(st, commented_lines(space_lines(init, export)), commented_lines(part));
        let mid = scan_from(st, commented_lines(space_lines(init, export)));
        lemma_spec_lines_content(v, Some(export), false);
        lemma_content_not_separator(g);
        lemma_scan_part(mid, g);
        lemma_space_entry(v, export);
        assert(space_chunks(sp, export) =~= space_chunks(init, export).push(space_chunk(v, export)));
        assert(st.chunks + space_chunks(init, export) + seq![space_chunk(v, export)] =~= st.chunks
            + space_chunks(sp, export));
        reveal_strlit("----");
        assert(all_plain(seq![separator()]));
        lemma_all_plain_concat(g, seq![separator()]);
        lemma_all_plain_concat(space_lines(init, export), part);
    }
}

/// The header conditions under which it reads back whole: a version without
/// line breaks or a final carriage return, and color spaces that can be
/// written and read back (see `writable`), the working space where its gamut
/// is written.
pub open spec fn exportable(
    version: Seq<char>,
    base: BasePreset,
    working: ColorSpaceSpecView,
    spaces: Seq<ColorSpaceSpecView>,
    export: Seq<char>,
) -> bool {
    &&& no_newline(version)
    &&& (version.len() > 0 ==> version.last() != '\r')
    &&& (base == BasePreset::Custom ==> writable(working, None, true))
    &&& forall|i: int| 0 <= i < spaces.len() ==> writable(#[trigger] spaces[i], Some(export), false)
}

#[verifier::spinoff_prover]
#[verifier::rlimit(40)]
proof fn lemma_header_scan(
    version: Seq<char>,
    base: BasePreset,
    working: ColorSpaceSpecView,
    spaces: Seq<ColorSpaceSpecView>,
    export: Seq<char>,
)
    requires
        exportable(version, base, working, spaces, export),
    ensures
        scan_from(scan_start(), commented_lines(header_lines(version, base, working, spaces, export)))
            == (ScanState {
            chunk: Seq::<char>::empty(),
            chunks: exported_chunks(base, working, spaces, export),
            done: false,
        }),
        !faults_from(
            scan_start(),
            commented_lines(header_lines(version, base, working, spaces, export)),
        ),
        all_plain(header_lines(version, base, working, spaces, export)),
{
    reveal_strlit("----");
    reveal_strlit("Generated by ETF OCIO Maker v");
    reveal_strlit("Do not edit this file by hand if you want to continue managing");
    reveal_strlit("this configuration with ETF OCIO Maker.");
    let intro = intro_lines(version);
    let bl = base_lines(base, working);
    let sl = space_lines(spaces, export);
    let p1 = intro + seq![separator()];
    let p2 = bl + seq![separator()];
    assert(header_lines(version, base, working, spaces, export) =~= p1 + p2 + sl);
    lemma_commented_concat(p1 + p2, sl);
    lemma_commented_concat(p1, p2);
    lemma_scan_concat(scan_start(), commented_lines(p1) + commented_lines(p2), commented_lines(sl));
    lemma_scan_concat(scan_start(), commented_lines(p1), commented_lines(p2));

    lemma_intro_entry(version);
    lemma_content_not_separator(intro);
    lemma_scan_part(scan_start(), intro);
    let s1 = scan_from(scan_start(), commented_lines(p1));
    assert(s1.chunks =~= Seq::<ChunkView>::empty());

    lemma_base_entry(base, working);
    lemma_content_not_separator(bl);
    lemma_scan_part(s1, bl);
    let s2 = scan_from(s1, commented_lines(p2));

    lemma_scan_spaces(s2, spaces, export);
    assert(s2.chunks + space_chunks(spaces, export) =~= exported_chunks(
        base,
        working,
        spaces,
        export,
    ));

    assert(all_plain(p1)) by {
        let l0 = intro[0];
        assert(l0 == "Generated by ETF OCIO Maker v"@ + version);
        assert forall|j: int| 0 <= j < l0.len() implies l0[j] != '\n' by {
            if j >= 29 {
                assert(l0[j] == version[j - 29]);
            }
        }
        assert(l0.last() != '\r') by {
            if version.len() > 0 {
                assert(l0.last() == version.last());
            }
        }
        assert(plain_line(l0));
        assert(all_plain(intro)) by {
            assert forall|i: int| 0 <= i < intro.len() implies plain_line(#[trigger] intro[i]) by {
                if i == 0 {
                    assert(plain_line(l0));
                }
            }
        }
        assert(all_plain(seq![separator()]));
        lemma_all_plain_concat(intro, seq![separator()]);
    }
    assert(all_plain(p2)) by {
        assert(all_plain(seq![separator()]));
        lemma_all_plain_concat(bl, seq![separator()]);
    }
    lemma_all_plain_concat(p1, p2);
    lemma_all_plain_concat(p1 + p2, sl);
}

/// Reading the header back: a configuration file that begins with an export's
/// header, each line behind `# `, and goes on with a line that is not a
/// comment (or ends), reads as the exported parts: the base preset with the
/// working space's gamut lines, then each color space's lines, the lines
/// trimmed.
pub proof fn lemma_header_read_back(
    version: Seq<char>,
    base: BasePreset,
    working: ColorSpaceSpecView,
    spaces: Seq<ColorSpaceSpecView>,
    export: Seq<char>,
    rest: Seq<char>,
)
    requires
        exportable(version, base, working, spaces, export),
        lines(rest).len() == 0 || !is_comment(lines(rest)[0]),
    ensures
        !header_faults(commented(header_lines(version, base, working, spaces, export)) + rest),
        header_chunks(commented(header_lines(version, base, working, spaces, export)) + rest)
            == Some(exported_chunks(base, working, spaces, export)),
{
    reveal_strlit("Generated by ETF OCIO Maker v");
    reveal_strlit("# Generated by ETF OCIO Maker");
    let hl = header_lines(version, base, working, spaces, export);
    let cl = commented_lines(hl);
    let text = commented(hl) + rest;
    lemma_header_scan(version, base, working, spaces, export);
    assert(all_plain(cl)) by {
        assert forall|i: int| 0 <= i < cl.len() implies plain_line(#[trigger] cl[i]) by {
            let l = hl[i];
            assert(plain_line(l));
            let c = comment_line(l);
            assert(cl[i] == c);
            assert forall|j: int| 0 <= j < c.len() implies c[j] != '\n' by {
                if j >= 2 {
                    assert(c[j] == l[j - 2]);
                }
            }
            if l.len() > 0 {
                assert(c.last() == l.last());
            }
        }
    }
    lemma_lines_join_rest(cl, rest);
    let r = lines(rest);
    assert(lines(text) == cl + r);
    assert(hl[0] == "Generated by ETF OCIO Maker v"@ + version);
    assert((cl + r)[0] == comment_line(hl[0]));
    assert(comment_line(hl[0]).take(29) =~= "# Generated by ETF OCIO Maker"@);
    assert(marks_ours(lines(text)));
    lemma_scan_concat(scan_start(), cl, r);
    let s3 = scan_from(scan_start(), cl);
    if r.len() > 0 {
        assert(r =~= seq![r[0]] + r.skip(1));
        lemma_scan_concat(s3, seq![r[0]], r.skip(1));
        assert(seq![r[0]].drop_last() =~= Seq::<Seq<char>>::empty());
        let s4 = scan_from(s3, seq![r[0]]);
        assert(s4 == scan_line(s3, r[0]));
        assert(s4.done);
        lemma_scan_done(s4, r.skip(1));
        let one = seq![r[0]];
        assert(scan_from(s3, one.drop_last()) == s3);
        assert(!faults_from(s3, one.drop_last()));
        assert(!line_faults(s3, one.last()));
        assert(!faults_from(s3, one));
    }
}

/// Every outside check passes, with as many outcomes as each part needs.
pub open spec fn all_checks_pass(cs: Seq<ChunkView>, os: Seq<Seq<bool>>) -> bool {
    &&& os.len() == cs.len()
    &&& forall|j: int| 0 <= j < cs.len() ==> (#[trigger] os[j]).len() == chunk_checks(cs[j])
    &&& forall|j: int, k: int| 0 <= j < os.len() && 0 <= k < os[j].len() ==> #[trigger] os[j][k]
}

/// What loading an exported header gives back: the base preset; the working
/// space's gamut for the custom preset (and a new color space for the others,
/// whose header holds none); each color space as it reads back from its saved
/// form; no notes.
pub open spec fn exported_load(
    base: BasePreset,
    working: ColorSpaceSpecView,
    spaces: Seq<ColorSpaceSpecView>,
    export: Seq<char>,
) -> LoadView {
    LoadView {
        base_preset: Some(base),
        working: Some(
            if base == BasePreset::Custom {
                read_back_view(working, None, true)
            } else {
                default_view()
            },
        ),
        spaces: spaces.map_values(|v: ColorSpaceSpecView| read_back_view(v, Some(export), false)),
        messages: Seq::<MessageView>::empty(),
    }
}

/// Reading a color space from its saved lines, trimmed, with every check
/// passing, gives what reading back its saved form gives.
proof fn lemma_read_trimmed_spec(
    v: ColorSpaceSpecView,
    base: Option<Seq<char>>,
    chroma_only: bool,
    o: Seq<bool>,
)
    requires
        writable(v, base, chroma_only),
        o.len() == checks_in(lines(join_lines(trim_each(spec_lines(v, base, chroma_only))))),
        forall|k: int| 0 <= k < o.len() ==> o[k],
    ensures
        spec_read(join_lines(trim_each(spec_lines(v, base, chroma_only))), o).spec == read_back_view(
            v,
            base,
            chroma_only,
        ),
        spec_read(join_lines(trim_each(spec_lines(v, base, chroma_only))), o).unloadable is None,
{
    let ls = spec_lines(v, base, chroma_only);
    lemma_spec_lines_shape(v, base, chroma_only);
    assert forall|i: int| 0 <= i < ls.len() implies no_newline(#[trigger] ls[i]) && strip_cr(ls[i])
        == ls[i] by {}
    lemma_read_trimmed_text(ls, o);
    lemma_color_space_round_trip(v, base, chroma_only, o);
}

proof fn lemma_load_prefix(
    base: BasePreset,
    working: ColorSpaceSpecView,
    spaces: Seq<ColorSpaceSpecView>,
    export: Seq<char>,
    os: Seq<Seq<bool>>,
    n: int,
)
    requires
        base == BasePreset::Custom ==> writable(working, None, true),
        forall|i: int| 0 <= i < spaces.len() ==> writable(#[trigger] spaces[i], Some(export), false),
        all_checks_pass(exported_chunks(base, working, spaces, export), os),
        0 <= n <= spaces.len(),
    ensures
        load_from(load_start(), exported_chunks(base, working, spaces, export).take(n + 1), os)
            == (LoadView {
            spaces: exported_load(base, working, spaces, export).spaces.take(n),
            ..exported_load(base, working, spaces, export)
        }),
    decreases n,
{
    let cs = exported_chunks(base, working, spaces, export);
    let want = exported_load(base, working, spaces, export);
    if n == 0 {
        assert(cs.take(1).drop_last() =~= Seq::<ChunkView>::empty());
        assert(cs.take(1).last() == cs[0]);
        let o = os[0];
        assert forall|k: int| 0 <= k < o.len() implies o[k] by {
            assert(os[0][k]);
        }
        let tail = base_tail(base, working);
        if base == BasePreset::Custom {
            lemma_read_trimmed_spec(working, None, true, o);
        } else {
            assert(trim_each(Seq::<Seq<char>>::empty()) =~= Seq::<Seq<char>>::empty());
            assert(tail == Seq::<char>::empty());
            assert(split_nl(tail) =~= seq![Seq::<char>::empty()]);
            assert(lines(tail) =~= Seq::<Seq<char>>::empty());
        }
        let c0 = ChunkView::Base { preset: Some(base), working: tail };
        assert(cs[0] == c0);
        assert(load_from(load_start(), cs.take(1).drop_last(), os) == load_start());
        let got = load_from(load_start(), cs.take(1), os);
        assert(got == load_step(load_start(), c0, o));
        assert(got.spaces =~= want.spaces.take(0));
        assert(got.messages =~= want.messages);
    } else {
        lemma_load_prefix(base, working, spaces, export, os, n - 1);
        assert(cs.take(n + 1).drop_last() =~= cs.take(n));
        assert(cs.take(n + 1).last() == cs[n]);
        assert(cs[n] == space_chunk(spaces[n - 1], export));
        let o = os[n];
        assert forall|k: int| 0 <= k < o.len() implies o[k] by {
            assert(os[n][k]);
        }
        assert(writable(spaces[n - 1], Some(export), false));
        lemma_read_trimmed_spec(spaces[n - 1], Some(export), false, o);
        let got = load_from(load_start(), cs.take(n + 1), os);
        assert(got.spaces =~= want.spaces.take(n));
    }
}

/// Exporting a configuration and opening it again gives the configuration
/// back.  A configuration file that begins with the header an export writes
/// (each line behind `# `) and goes on with a line that is not a comment
/// reads as the exported parts; loading them, with every outside check passing
/// (each transfer function file loads, each custom gamut's numbers read),
/// gives the base preset, the working space's gamut (for the custom preset),
/// and every color space as its saved form reads back, in order, with no note
/// for the log.  Loaded from the folder it was exported to, each color space
/// keeps its transfer function's path as written, taken in terms of that
/// folder.
pub proof fn lemma_export_then_load(
    version: Seq<char>,
    base: BasePreset,
    working: ColorSpaceSpecView,
    spaces: Seq<ColorSpaceSpecView>,
    export: Seq<char>,
    rest: Seq<char>,
    outcomes: Seq<Seq<bool>>,
)
    requires
        exportable(version, base, working, spaces, export),
        lines(rest).len() == 0 || !is_comment(lines(rest)[0]),
        all_checks_pass(exported_chunks(base, working, spaces, export), outcomes),
    ensures
        !header_faults(commented(header_lines(version, base, working, spaces, export)) + rest),
        header_chunks(commented(header_lines(version, base, working, spaces, export)) + rest)
            == Some(exported_chunks(base, working, spaces, export)),
        load_from(load_start(), exported_chunks(base, working, spaces, export), outcomes)
            == exported_load(base, working, spaces, export),
        resolved_load(
            load_from(load_start(), exported_chunks(base, working, spaces, export), outcomes),
            Some(export),
        ) == resolved_load(exported_load(base, working, spaces, export), Some(export)),
{
    lemma_header_read_back(version, base, working, spaces, export, rest);
    let cs = exported_chunks(base, working, spaces, export);
    lemma_load_prefix(base, working, spaces, export, outcomes, spaces.len() as int);
    assert(cs.take(spaces.len() + 1 as int) =~= cs);
    let want = exported_load(base, working, spaces, export);
    assert(want.spaces.take(spaces.len() as int) =~= want.spaces);
}

} // verus!
