//! A color space as the editor defines it, and the text form it is saved in:
//! one `key: value` line per setting.
use vstd::prelude::*;

use crate::ocio_maker::chroma::ChromaSpace;
use crate::ocio_maker::chroma::{lemma_chroma_name_shape, lemma_chroma_space_round_trip};
use crate::text::{
    append_chars, append_str, chars_of, eq_str, find, find_char, is_ws, join_lines, lemma_find_at,
    lemma_lines_join, lemma_split_once_trim, lemma_trim_fixed, lemma_trim_padded, lemma_trim_shape,
    lines, lines_of,
    no_newline, split_once, string_from_chars, strip_cr, sub_chars, trim, trim_chars,
};

verus! {

broadcast use vstd::string::group_string_axioms;

/// What `pathdiff::diff_paths` gives for `path` relative to `base`, as text.
///
/// It is a function of the two paths alone: it reads no file system, and it
/// follows the path syntax of the platform the crate is built for.
pub uninterp spec fn diff_paths_text(path: Seq<char>, base: Seq<char>) -> Option<Seq<char>>;

/// Calls `pathdiff::diff_paths` on two paths given as text; the contract claims
/// only that its result, read back as text, is `diff_paths_text` of the two.
#[verifier::external_body]
fn diff_paths(path: &str, base: &str) -> (r: Option<String>)
    ensures
        match r {
            Some(s) => diff_paths_text(path@, base@) == Some(s@),
            None => diff_paths_text(path@, base@) is None,
        },
{
    match pathdiff::diff_paths(path, base) {
        Some(p) => Some(p.to_string_lossy().into_owned()),
        None => None,
    }
}

/// What `std::path::Path::join` gives for `path` taken in terms of `base`, as
/// text: `path` itself where it is absolute, else `base` and `path` joined by
/// the platform's separator.  It follows the path syntax of the platform the
/// crate is built for, and reads no file system.
pub uninterp spec fn join_text(base: Seq<char>, path: Seq<char>) -> Seq<char>;

/// Calls `std::path::Path::join` on two paths given as text; the contract
/// claims only that its result, as text, is `join_text` of the two.
#[verifier::external_body]
fn join_path(base: &str, path: &str) -> (r: String)
    ensures
        r@ == join_text(base@, path@),
{
    std::path::Path::new(base).join(path).to_string_lossy().into_owned()
}

/// The color space `v` with its transfer function's path taken in terms of
/// `base`, where one is given.
pub open spec fn resolve_lut(v: ColorSpaceSpecView, base: Option<Seq<char>>) -> ColorSpaceSpecView {
    match (v.transfer_lut, base) {
        (Some((p, inv)), Some(b)) => ColorSpaceSpecView {
            transfer_lut: Some((join_text(b, p), inv)),
            ..v
        },
        _ => v,
    }
}

/// Why a saved color space could only be read back in part.
#[derive(Debug, Clone)]
pub enum ConfigLoadErr {
    /// The transfer function file at this path could not be loaded.
    FileUnloadable(String),
}

/// A color space: a name, an optional gamut, and an optional transfer
/// function given by the path of a 1D LUT file and whether to apply it
/// inverted.
///
/// The custom gamut's eight chromaticity coordinates (x and y of red, green,
/// blue and white) are held as the text they are written with: the numbers
/// separated by single spaces.
#[derive(Debug)]
pub struct ColorSpaceSpec {
    pub name: String,
    pub transfer_lut: Option<(String, bool)>,
    pub chroma_space: ChromaSpace,
    pub custom_chroma: String,
    pub include_as_display: bool,
}

/// The model of a [`ColorSpaceSpec`], with text as character sequences.
pub struct ColorSpaceSpecView {
    pub name: Seq<char>,
    pub transfer_lut: Option<(Seq<char>, bool)>,
    pub chroma_space: ChromaSpace,
    pub custom_chroma: Seq<char>,
    pub include_as_display: bool,
}

impl View for ColorSpaceSpec {
    type V = ColorSpaceSpecView;

    open spec fn view(&self) -> ColorSpaceSpecView {
        ColorSpaceSpecView {
            name: self.name@,
            transfer_lut: match self.transfer_lut {
                Some((p, inv)) => Some((p@, inv)),
                None => None,
            },
            chroma_space: self.chroma_space,
            custom_chroma: self.custom_chroma@,
            include_as_display: self.include_as_display,
        }
    }
}

/// The custom gamut a new color space starts with (Rec.2020).
pub open spec fn default_custom_chroma() -> Seq<char> {
    "0.708 0.292 0.17 0.797 0.131 0.046 0.3127 0.329"@
}

/// A new, unnamed color space: no gamut, no transfer function.
pub open spec fn default_view() -> ColorSpaceSpecView {
    ColorSpaceSpecView {
        name: Seq::<char>::empty(),
        transfer_lut: None,
        chroma_space: ChromaSpace::NoChroma,
        custom_chroma: default_custom_chroma(),
        include_as_display: false,
    }
}

pub open spec fn key_color_space() -> Seq<char> {
    "color_space"@
}

pub open spec fn key_include_as_display() -> Seq<char> {
    "include_as_display"@
}

pub open spec fn key_chroma_space() -> Seq<char> {
    "chroma_space"@
}

pub open spec fn key_custom_chroma() -> Seq<char> {
    "custom_chroma"@
}

pub open spec fn key_transfer_lut_path() -> Seq<char> {
    "transfer_lut_path"@
}

pub open spec fn key_transfer_lut_use_inverse() -> Seq<char> {
    "transfer_lut_use_inverse"@
}

/// `true` or `false`, as `{:?}` prints a `bool`.
pub open spec fn bool_text(b: bool) -> Seq<char> {
    if b {
        "true"@
    } else {
        "false"@
    }
}

/// One `key: value` line.
pub open spec fn kv_line(key: Seq<char>, value: Seq<char>) -> Seq<char> {
    key + seq![':', ' '] + value
}

/// The path a transfer function is written with: relative to `base` where
/// one is given and the two paths can be related, else as it is.
pub open spec fn written_lut_path(path: Seq<char>, base: Option<Seq<char>>) -> Seq<char> {
    match base {
        Some(b) => match diff_paths_text(path, b) {
            Some(d) => d,
            None => path,
        },
        None => path,
    }
}

/// The name and display lines.
pub open spec fn head_lines(v: ColorSpaceSpecView, chroma_only: bool) -> Seq<Seq<char>> {
    if !chroma_only {
        seq![
            kv_line(key_color_space(), trim(v.name)),
            kv_line(key_include_as_display(), bool_text(v.include_as_display)),
        ]
    } else {
        Seq::<Seq<char>>::empty()
    }
}

/// The gamut lines.
pub open spec fn gamut_lines(v: ColorSpaceSpecView) -> Seq<Seq<char>> {
    if v.chroma_space != ChromaSpace::NoChroma {
        if v.chroma_space == ChromaSpace::Custom {
            seq![
                kv_line(key_chroma_space(), v.chroma_space.name()),
                kv_line(key_custom_chroma(), v.custom_chroma),
            ]
        } else {
            seq![kv_line(key_chroma_space(), v.chroma_space.name())]
        }
    } else {
        Seq::<Seq<char>>::empty()
    }
}

/// The transfer function lines.
pub open spec fn lut_lines(v: ColorSpaceSpecView, base: Option<Seq<char>>, chroma_only: bool) -> Seq<
    Seq<char>,
> {
    match v.transfer_lut {
        Some((p, inv)) if !chroma_only => seq![
            kv_line(key_transfer_lut_path(), written_lut_path(p, base)),
            kv_line(key_transfer_lut_use_inverse(), bool_text(inv)),
        ],
        _ => Seq::<Seq<char>>::empty(),
    }
}

/// The transfer function lines, with the path written as `written`.
pub open spec fn lut_lines_with(v: ColorSpaceSpecView, written: Seq<char>, chroma_only: bool) -> Seq<
    Seq<char>,
> {
    match v.transfer_lut {
        Some((_, inv)) if !chroma_only => seq![
            kv_line(key_transfer_lut_path(), written),
            kv_line(key_transfer_lut_use_inverse(), bool_text(inv)),
        ],
        _ => Seq::<Seq<char>>::empty(),
    }
}

/// The lines a color space is written as.  With `chroma_only`, only its gamut.
pub open spec fn spec_lines(
    v: ColorSpaceSpecView,
    base: Option<Seq<char>>,
    chroma_only: bool,
) -> Seq<Seq<char>> {
    head_lines(v, chroma_only) + gamut_lines(v) + lut_lines(v, base, chroma_only)
}

/// The text a color space is written as.
pub open spec fn spec_text(v: ColorSpaceSpecView, base: Option<Seq<char>>, chroma_only: bool) -> Seq<
    char,
> {
    join_lines(spec_lines(v, base, chroma_only))
}

//------------------------------------------------------------------------
// Reading.

/// Where a line of saved text stands while it is read back: the color space
/// so far, the path of the last transfer function that could not be loaded,
/// and how many outside checks have been used.
pub struct ReadState {
    pub spec: ColorSpaceSpecView,
    pub unloadable: Option<Seq<char>>,
    pub used: nat,
}

pub open spec fn read_start() -> ReadState {
    ReadState { spec: default_view(), unloadable: None, used: 0 }
}

/// The key of a `key: value` line, if the line has a colon.
pub open spec fn line_key(line: Seq<char>) -> Option<Seq<char>> {
    match split_once(line, ':') {
        Some((k, _)) => Some(trim(k)),
        None => None,
    }
}

/// The trimmed value of a `key: value` line.
pub open spec fn line_value(line: Seq<char>) -> Seq<char> {
    match split_once(line, ':') {
        Some((_, v)) => trim(v),
        None => Seq::<char>::empty(),
    }
}

/// Whether reading this line needs an outside check: loading the transfer
/// function it names, or reading the custom gamut's numbers.
pub open spec fn needs_check(line: Seq<char>) -> bool {
    line_key(line) == Some(key_custom_chroma()) || line_key(line) == Some(key_transfer_lut_path())
}

/// How many of `ls` need an outside check.
pub open spec fn checks_in(ls: Seq<Seq<char>>) -> nat
    decreases ls.len(),
{
    if ls.len() == 0 {
        0
    } else {
        checks_in(ls.drop_last()) + if needs_check(ls.last()) {
            1nat
        } else {
            0nat
        }
    }
}

/// Applies one setting.  `ok` is the outcome of its outside check, where it
/// has one.
pub open spec fn apply_setting(st: ReadState, key: Seq<char>, value: Seq<char>, ok: bool) -> ReadState {
    let s = st.spec;
    if key == key_color_space() {
        ReadState { spec: ColorSpaceSpecView { name: value, ..s }, ..st }
    } else if key == key_include_as_display() {
        ReadState { spec: ColorSpaceSpecView { include_as_display: value == "true"@, ..s }, ..st }
    } else if key == key_chroma_space() {
        ReadState {
            spec: ColorSpaceSpecView {
                chroma_space: match ChromaSpace::parse(value) {
                    Some(c) => c,
                    None => ChromaSpace::NoChroma,
                },
                ..s
            },
            ..st
        }
    } else if key == key_custom_chroma() {
        ReadState {
            spec: if ok {
                ColorSpaceSpecView { custom_chroma: value, ..s }
            } else {
                s
            },
            used: st.used + 1,
            ..st
        }
    } else if key == key_transfer_lut_path() {
        if ok {
            ReadState {
                spec: ColorSpaceSpecView { transfer_lut: Some((value, false)), ..s },
                used: st.used + 1,
                ..st
            }
        } else {
            ReadState { unloadable: Some(value), used: st.used + 1, ..st }
        }
    } else if key == key_transfer_lut_use_inverse() {
        match s.transfer_lut {
            Some((p, _)) => ReadState {
                spec: ColorSpaceSpecView { transfer_lut: Some((p, value == "true"@)), ..s },
                ..st
            },
            None => st,
        }
    } else {
        st
    }
}

/// Reads one line: a `key: value` setting, both trimmed; a line without a
/// colon changes nothing.
pub open spec fn read_line(st: ReadState, line: Seq<char>, ok: bool) -> ReadState {
    match split_once(line, ':') {
        None => st,
        Some((k, v)) => apply_setting(st, trim(k), trim(v), ok),
    }
}

/// Reads `ls` in order, from `st`.  `outcomes` holds, in order, the outcome of
/// each outside check the lines need.
pub open spec fn read_lines(st: ReadState, ls: Seq<Seq<char>>, outcomes: Seq<bool>) -> ReadState
    decreases ls.len(),
{
    if ls.len() == 0 {
        st
    } else {
        let prev = read_lines(st, ls.drop_last(), outcomes);
        read_line(prev, ls.last(), outcomes[prev.used as int])
    }
}

/// The color space a saved text describes, and the path of the last transfer
/// function that could not be loaded, if any.
pub open spec fn spec_read(text: Seq<char>, outcomes: Seq<bool>) -> ReadState {
    read_lines(read_start(), lines(text), outcomes)
}


/// Reading more lines uses up one outside check for each line that needs one.
pub proof fn lemma_read_used(st: ReadState, ls: Seq<Seq<char>>, outcomes: Seq<bool>)
    ensures
        read_lines(st, ls, outcomes).used == st.used + checks_in(ls),
    decreases ls.len(),
{
    if ls.len() > 0 {
        lemma_read_used(st, ls.drop_last(), outcomes);
        let prev = read_lines(st, ls.drop_last(), outcomes);
        lemma_read_line_used(prev, ls.last(), outcomes[prev.used as int]);
    }
}

/// The six keys of the saved form differ from each other.
pub proof fn lemma_keys_distinct()
    ensures
        key_color_space().len() == 11,
        key_include_as_display().len() == 18,
        key_chroma_space().len() == 12,
        key_custom_chroma().len() == 13,
        key_transfer_lut_path().len() == 17,
        key_transfer_lut_use_inverse().len() == 24,
{
    reveal_strlit("color_space");
    reveal_strlit("include_as_display");
    reveal_strlit("chroma_space");
    reveal_strlit("custom_chroma");
    reveal_strlit("transfer_lut_path");
    reveal_strlit("transfer_lut_use_inverse");
}

/// A line uses an outside check exactly when it needs one.
pub proof fn lemma_read_line_used(st: ReadState, line: Seq<char>, ok: bool)
    ensures
        read_line(st, line, ok).used == st.used + if needs_check(line) {
            1nat
        } else {
            0nat
        },
{
    lemma_keys_distinct();
}

/// The checks of a prefix of `ls` are at most those of `ls`.
pub proof fn lemma_checks_prefix(ls: Seq<Seq<char>>, i: int)
    requires
        0 <= i <= ls.len(),
    ensures
        checks_in(ls.take(i)) <= checks_in(ls),
    decreases ls.len() - i,
{
    if i < ls.len() {
        lemma_checks_prefix(ls, i + 1);
        assert(ls.take(i + 1).drop_last() =~= ls.take(i));
    } else {
        assert(ls.take(i) =~= ls);
    }
}

/// What one saved line asks to have checked outside: a transfer function file
/// to load, or the custom gamut's numbers to read.
#[derive(Debug)]
pub enum OutsideCheck {
    LutPath(String),
    CustomChroma(String),
}

pub enum CheckView {
    LutPath(Seq<char>),
    CustomChroma(Seq<char>),
}

impl View for OutsideCheck {
    type V = CheckView;

    open spec fn view(&self) -> CheckView {
        match self {
            OutsideCheck::LutPath(p) => CheckView::LutPath(p@),
            OutsideCheck::CustomChroma(c) => CheckView::CustomChroma(c@),
        }
    }
}

/// The check a line asks for, if any, with the line's value.
pub open spec fn line_check_of(line: Seq<char>) -> Option<CheckView> {
    if line_key(line) == Some(key_custom_chroma()) {
        Some(CheckView::CustomChroma(line_value(line)))
    } else if line_key(line) == Some(key_transfer_lut_path()) {
        Some(CheckView::LutPath(line_value(line)))
    } else {
        None
    }
}

/// The checks that `ls` ask for, in order.
pub open spec fn checks_of(ls: Seq<Seq<char>>) -> Seq<CheckView>
    decreases ls.len(),
{
    if ls.len() == 0 {
        Seq::<CheckView>::empty()
    } else {
        checks_of(ls.drop_last()) + match line_check_of(ls.last()) {
            Some(c) => seq![c],
            None => Seq::<CheckView>::empty(),
        }
    }
}

/// There are as many checks as lines that need one.
pub proof fn lemma_checks_of_len(ls: Seq<Seq<char>>)
    ensures
        checks_of(ls).len() == checks_in(ls),
    decreases ls.len(),
{
    lemma_keys_distinct();
    if ls.len() > 0 {
        lemma_checks_of_len(ls.drop_last());
    }
}

fn bool_str(b: bool) -> (r: &'static str)
    ensures
        r@ == bool_text(b),
{
    if b {
        "true"
    } else {
        "false"
    }
}

/// Appends the line `key: value` and a newline.
fn push_kv(out: &mut Vec<char>, key: &str, value: &[char])
    ensures
        final(out)@ == old(out)@ + kv_line(key@, value@) + seq!['\n'],
{
    append_str(out, key);
    out.push(':');
    out.push(' ');
    append_chars(out, value);
    out.push('\n');
    assert(final(out)@ =~= old(out)@ + kv_line(key@, value@) + seq!['\n']);
}

pub proof fn lemma_join_push(ls: Seq<Seq<char>>, l: Seq<char>)
    ensures
        join_lines(ls.push(l)) == join_lines(ls) + l + seq!['\n'],
{
    assert(ls.push(l).drop_last() =~= ls);
}

impl ColorSpaceSpec {
    /// A new, unnamed color space.
    pub fn new_default() -> (r: ColorSpaceSpec)
        ensures
            r@ == default_view(),
    {
        ColorSpaceSpec {
            name: String::new(),
            transfer_lut: None,
            chroma_space: ChromaSpace::NoChroma,
            custom_chroma: String::from_str("0.708 0.292 0.17 0.797 0.131 0.046 0.3127 0.329"),
            include_as_display: false,
        }
    }

    /// A new color space with the given name.
    pub fn with_name(name: &str) -> (r: ColorSpaceSpec)
        ensures
            r@ == (ColorSpaceSpecView { name: name@, ..default_view() }),
    {
        let mut r = ColorSpaceSpec::new_default();
        r.name = String::from_str(name);
        r
    }

    /// The text this color space is saved as.  Where `base_path` is given,
    /// the transfer function's path is written relative to it.  Both paths
    /// are taken as given: making them canonical is the caller's part.
    pub fn to_string(&self, base_path: Option<&str>, chroma_only: bool) -> (s: String)
        ensures
            s@ == spec_text(
                self@,
                match base_path {
                    Some(b) => Some(b@),
                    None => None,
                },
                chroma_only,
            ),
    {
        let ghost base = match base_path {
            Some(b) => Some(b@),
            None => None::<Seq<char>>,
        };
        let written: String = match &self.transfer_lut {
            Some((path, _)) => match base_path {
                Some(b) => match diff_paths(path.as_str(), b) {
                    Some(d) => d,
                    None => path.clone(),
                },
                None => path.clone(),
            },
            None => String::new(),
        };
        proof {
            if let Some((p, _)) = self@.transfer_lut {
                assert(written@ == written_lut_path(p, base));
            }
            assert(lut_lines(self@, base, chroma_only) =~= lut_lines_with(
                self@,
                written@,
                chroma_only,
            ));
        }
        self.text_with_lut_path(written.as_str(), chroma_only)
    }

    /// The text this color space is saved as, with its transfer function's
    /// path written as `lut_path`.
    pub fn text_with_lut_path(&self, lut_path: &str, chroma_only: bool) -> (s: String)
        ensures
            s@ == join_lines(
                head_lines(self@, chroma_only) + gamut_lines(self@) + lut_lines_with(
                    self@,
                    lut_path@,
                    chroma_only,
                ),
            ),
    {
        let mut out: Vec<char> = Vec::new();
        let ghost mut ls: Seq<Seq<char>> = Seq::empty();
        if !chroma_only {
            let name = trim_chars(&chars_of(self.name.as_str()));
            proof {
                lemma_join_push(ls, kv_line(key_color_space(), name@));
            }
            push_kv(&mut out, "color_space", &name);
            proof {
                ls = ls.push(kv_line(key_color_space(), name@));
            }
            let b = chars_of(bool_str(self.include_as_display));
            proof {
                lemma_join_push(ls, kv_line(key_include_as_display(), b@));
            }
            push_kv(&mut out, "include_as_display", &b);
            proof {
                ls = ls.push(kv_line(key_include_as_display(), b@));
            }
        }
        if self.chroma_space != ChromaSpace::NoChroma {
            let c = chars_of(self.chroma_space.as_str());
            proof {
                lemma_join_push(ls, kv_line(key_chroma_space(), c@));
            }
            push_kv(&mut out, "chroma_space", &c);
            proof {
                ls = ls.push(kv_line(key_chroma_space(), c@));
            }
            if self.chroma_space == ChromaSpace::Custom {
                let cc = chars_of(self.custom_chroma.as_str());
                proof {
                    lemma_join_push(ls, kv_line(key_custom_chroma(), cc@));
                }
                push_kv(&mut out, "custom_chroma", &cc);
                proof {
                    ls = ls.push(kv_line(key_custom_chroma(), cc@));
                }
            }
        }
        if !chroma_only {
            match &self.transfer_lut {
                Some((_, use_inverse)) => {
                    let p = chars_of(lut_path);
                    proof {
                        lemma_join_push(ls, kv_line(key_transfer_lut_path(), p@));
                    }
                    push_kv(&mut out, "transfer_lut_path", &p);
                    proof {
                        ls = ls.push(kv_line(key_transfer_lut_path(), p@));
                    }
                    let b = chars_of(bool_str(*use_inverse));
                    proof {
                        lemma_join_push(ls, kv_line(key_transfer_lut_use_inverse(), b@));
                    }
                    push_kv(&mut out, "transfer_lut_use_inverse", &b);
                    proof {
                        ls = ls.push(kv_line(key_transfer_lut_use_inverse(), b@));
                    }
                },
                None => {},
            }
        }
        proof {
            assert(ls =~= head_lines(self@, chroma_only) + gamut_lines(self@) + lut_lines_with(
                self@,
                lut_path@,
                chroma_only,
            ));
        }
        string_from_chars(&out)
    }
}

/// The key and value of a line, each trimmed, where the line has a colon.
fn key_value(line: &[char]) -> (r: Option<(Vec<char>, Vec<char>)>)
    ensures
        match split_once(line@, ':') {
            Some((k, v)) => r matches Some((key, value)) && key@ == trim(k) && value@ == trim(v),
            None => r is None,
        },
{
    let n = line.len();
    match find_char(line, ':') {
        Some(k) => {
            assert(k < n);
            let key = trim_chars(&sub_chars(line, 0, k));
            let value = trim_chars(&sub_chars(line, k + 1, n));
            proof {
                assert(line@.subrange(0, k as int) =~= line@.take(k as int));
                assert(line@.subrange(k + 1, line@.len() as int) =~= line@.skip(k + 1));
            }
            Some((key, value))
        },
        None => None,
    }
}

/// Which check a line needs, if any.
fn line_check(line: &[char]) -> (r: Option<OutsideCheck>)
    ensures
        r is Some == needs_check(line@),
        match r {
            Some(OutsideCheck::LutPath(p)) => line_key(line@) == Some(key_transfer_lut_path())
                && p@ == line_value(line@),
            Some(OutsideCheck::CustomChroma(c)) => line_key(line@) == Some(key_custom_chroma())
                && c@ == line_value(line@),
            None => true,
        },
{
    proof {
        lemma_keys_distinct();
    }
    match key_value(line) {
        Some((key, value)) => {
            if eq_str(&key, "custom_chroma") {
                Some(OutsideCheck::CustomChroma(string_from_chars(&value)))
            } else if eq_str(&key, "transfer_lut_path") {
                Some(OutsideCheck::LutPath(string_from_chars(&value)))
            } else {
                None
            }
        },
        None => None,
    }
}

impl ColorSpaceSpec {
    /// The outside checks that reading `text` needs, in the order of its lines.
    pub fn outside_checks(text: &str) -> (r: Vec<OutsideCheck>)
        ensures
            r@.map_values(|c: OutsideCheck| c@) == checks_of(lines(text@)),
            r@.len() == checks_in(lines(text@)),
    {
        let ls = lines_of(&chars_of(text));
        let ghost lv = ls@.map_values(|l: Vec<char>| l@);
        let mut r: Vec<OutsideCheck> = Vec::new();
        let mut i: usize = 0;
        while i < ls.len()
            invariant
                i <= ls@.len(),
                lv == ls@.map_values(|l: Vec<char>| l@),
                lv == lines(text@),
                r@.map_values(|c: OutsideCheck| c@) == checks_of(lv.take(i as int)),
            decreases ls@.len() - i,
        {
            let c = line_check(&ls[i]);
            proof {
                lemma_keys_distinct();
                assert(lv.take(i + 1).drop_last() =~= lv.take(i as int));
                assert(lv.take(i + 1).last() == ls@[i as int]@);
            }
            let ghost before = r@.map_values(|c: OutsideCheck| c@);
            match c {
                Some(c) => {
                    r.push(c);
                    assert(r@.map_values(|c: OutsideCheck| c@) =~= before.push(r@.last()@));
                },
                None => {},
            }
            i += 1;
        }
        assert(lv.take(ls@.len() as int) =~= lv);
        proof {
            lemma_checks_of_len(lv);
        }
        r
    }

    /// Reads a color space back from its saved text.  Where `base_path` is
    /// given, the transfer function's path is taken in terms of it: the space
    /// keeps the path joined to it (the file checked is that one too).
    /// `outcomes` is as for [`ColorSpaceSpec::from_str_as_written`].
    pub fn from_str(text: &str, base_path: Option<&str>, outcomes: &[bool]) -> (r: (
        ColorSpaceSpec,
        Result<(), ConfigLoadErr>,
    ))
        requires
            outcomes@.len() == checks_in(lines(text@)),
        ensures
            r.0@ == resolve_lut(
                spec_read(text@, outcomes@).spec,
                match base_path {
                    Some(b) => Some(b@),
                    None => None,
                },
            ),
            match r.1 {
                Ok(()) => spec_read(text@, outcomes@).unloadable is None,
                Err(ConfigLoadErr::FileUnloadable(p)) => spec_read(text@, outcomes@).unloadable
                    == Some(p@),
            },
    {
        let (mut spec, res) = ColorSpaceSpec::from_str_as_written(text, outcomes);
        match base_path {
            Some(b) => {
                let lut = match &spec.transfer_lut {
                    Some((p, inv)) => Some((join_path(b, p.as_str()), *inv)),
                    None => None,
                };
                spec.transfer_lut = lut;
            },
            None => {},
        }
        (spec, res)
    }

    /// Reads a color space back from its saved text, keeping the transfer
    /// function's path as written.  `outcomes` holds, in order, the outcome
    /// of each check that [`ColorSpaceSpec::outside_checks`] lists for the
    /// text: whether the transfer function file loaded, or whether the custom
    /// gamut's numbers were eight valid numbers.
    ///
    /// Keys it does not know, and lines without a colon, are passed over.  The
    /// error names the last transfer function that could not be loaded, as
    /// written.
    pub fn from_str_as_written(text: &str, outcomes: &[bool]) -> (r: (
        ColorSpaceSpec,
        Result<(), ConfigLoadErr>,
    ))
        requires
            outcomes@.len() == checks_in(lines(text@)),
        ensures
            r.0@ == spec_read(text@, outcomes@).spec,
            match r.1 {
                Ok(()) => spec_read(text@, outcomes@).unloadable is None,
                Err(ConfigLoadErr::FileUnloadable(p)) => spec_read(text@, outcomes@).unloadable
                    == Some(p@),
            },
    {
        proof {
            lemma_keys_distinct();
        }
        let ls = lines_of(&chars_of(text));
        let ghost lv = ls@.map_values(|l: Vec<char>| l@);
        let mut spec = ColorSpaceSpec::new_default();
        let mut unloadable: Option<String> = None;
        let mut used: usize = 0;
        let mut i: usize = 0;
        while i < ls.len()
            invariant
                i <= ls@.len(),
                lv == ls@.map_values(|l: Vec<char>| l@),
                lv == lines(text@),
                outcomes@.len() == checks_in(lv),
                ({
                    let st = read_lines(read_start(), lv.take(i as int), outcomes@);
                    &&& spec@ == st.spec
                    &&& used == st.used
                    &&& match unloadable {
                        Some(p) => st.unloadable == Some(p@),
                        None => st.unloadable is None,
                    }
                }),
            decreases ls@.len() - i,
        {
            let ghost prev = read_lines(read_start(), lv.take(i as int), outcomes@);
            proof {
                assert(lv.take(i + 1).drop_last() =~= lv.take(i as int));
                assert(lv.take(i + 1).last() == ls@[i as int]@);
                lemma_read_used(read_start(), lv.take(i as int), outcomes@);
                lemma_checks_prefix(lv, i + 1);
                lemma_read_used(read_start(), lv.take(i + 1), outcomes@);
                lemma_read_line_used(prev, ls@[i as int]@, outcomes@[prev.used as int]);
            }
            let line = &ls[i];
            match key_value(line) {
                Some((key, value)) => {
                    if eq_str(&key, "color_space") {
                        spec.name = string_from_chars(&value);
                    } else if eq_str(&key, "include_as_display") {
                        spec.include_as_display = eq_str(&value, "true");
                    } else if eq_str(&key, "chroma_space") {
                        let v = string_from_chars(&value);
                        spec.chroma_space = match ChromaSpace::from_str(v.as_str()) {
                            Some(c) => c,
                            None => ChromaSpace::NoChroma,
                        };
                    } else if eq_str(&key, "custom_chroma") {
                        if outcomes[used] {
                            spec.custom_chroma = string_from_chars(&value);
                        }
                        used += 1;
                    } else if eq_str(&key, "transfer_lut_path") {
                        if outcomes[used] {
                            spec.transfer_lut = Some((string_from_chars(&value), false));
                        } else {
                            unloadable = Some(string_from_chars(&value));
                        }
                        used += 1;
                    } else if eq_str(&key, "transfer_lut_use_inverse") {
                        let inv = eq_str(&value, "true");
                        match spec.transfer_lut {
                            Some((p, _)) => {
                                spec.transfer_lut = Some((p, inv));
                            },
                            None => {},
                        }
                    }
                },
                None => {},
            }
            i += 1;
        }
        assert(lv.take(ls@.len() as int) =~= lv);
        let result = match unloadable {
            Some(p) => Err(ConfigLoadErr::FileUnloadable(p)),
            None => Ok(()),
        };
        (spec, result)
    }
}

//------------------------------------------------------------------------
// Reading back what was written.

/// A key of the saved form: not empty, free of colons, line breaks and
/// whitespace at its ends.
pub open spec fn plain_key(k: Seq<char>) -> bool {
    &&& k.len() > 0
    &&& !is_ws(k[0])
    &&& !is_ws(k.last())
    &&& forall|i: int| 0 <= i < k.len() ==> k[i] != ':' && k[i] != '\n'
}

pub proof fn lemma_keys_plain()
    ensures
        plain_key(key_color_space()),
        plain_key(key_include_as_display()),
        plain_key(key_chroma_space()),
        plain_key(key_custom_chroma()),
        plain_key(key_transfer_lut_path()),
        plain_key(key_transfer_lut_use_inverse()),
{
    reveal_strlit("color_space");
    reveal_strlit("include_as_display");
    reveal_strlit("chroma_space");
    reveal_strlit("custom_chroma");
    reveal_strlit("transfer_lut_path");
    reveal_strlit("transfer_lut_use_inverse");
}

pub proof fn lemma_bool_text(b: bool)
    ensures
        (bool_text(b) == "true"@) == b,
        bool_text(b).len() > 0,
        !is_ws(bool_text(b)[0]),
        !is_ws(bool_text(b).last()),
        no_newline(bool_text(b)),
{
    reveal_strlit("true");
    reveal_strlit("false");
    assert("false"@.len() != "true"@.len());
}

/// A `key: value` line, for a plain key and a trimmed value without line
/// breaks, reads back as that key and value.
pub proof fn lemma_kv_line(key: Seq<char>, value: Seq<char>)
    requires
        plain_key(key),
        no_newline(value),
        value.len() > 0 ==> !is_ws(value[0]) && !is_ws(value.last()),
    ensures
        split_once(kv_line(key, value), ':') == Some((key, seq![' '] + value)),
        line_key(kv_line(key, value)) == Some(key),
        line_value(kv_line(key, value)) == value,
        no_newline(kv_line(key, value)),
        strip_cr(kv_line(key, value)) == kv_line(key, value),
{
    let l = kv_line(key, value);
    assert(l[key.len() as int] == ':');
    assert forall|j: int| 0 <= j < key.len() implies l[j] != ':' by {
        assert(l[j] == key[j]);
    }
    lemma_find_at(l, ':', key.len());
    assert(l.take(key.len() as int) =~= key);
    assert(l.skip(key.len() + 1 as int) =~= seq![' '] + value);
    lemma_trim_fixed(key);
    lemma_trim_padded(seq![' '], value, Seq::<char>::empty());
    assert(seq![' '] + value + Seq::<char>::empty() =~= seq![' '] + value);
    assert forall|i: int| 0 <= i < l.len() implies l[i] != '\n' by {
        if i < key.len() {
            assert(l[i] == key[i]);
        } else if i >= key.len() + 2 {
            assert(l[i] == value[i - key.len() - 2]);
        }
    }
    if value.len() > 0 {
        assert(l.last() == value.last());
    } else {
        assert(l.last() == ' ');
    }
}

/// Reading `a` then `b` is reading `a + b`.
pub proof fn lemma_read_concat(st: ReadState, a: Seq<Seq<char>>, b: Seq<Seq<char>>, o: Seq<bool>)
    ensures
        read_lines(st, a + b, o) == read_lines(read_lines(st, a, o), b, o),
    decreases b.len(),
{
    if b.len() == 0 {
        assert(a + b =~= a);
    } else {
        assert((a + b).drop_last() =~= a + b.drop_last());
        assert((a + b).last() == b.last());
        lemma_read_concat(st, a, b.drop_last(), o);
    }
}

pub proof fn lemma_checks_concat(a: Seq<Seq<char>>, b: Seq<Seq<char>>)
    ensures
        checks_in(a + b) == checks_in(a) + checks_in(b),
    decreases b.len(),
{
    if b.len() == 0 {
        assert(a + b =~= a);
    } else {
        assert((a + b).drop_last() =~= a + b.drop_last());
        assert((a + b).last() == b.last());
        lemma_checks_concat(a, b.drop_last());
    }
}

pub proof fn lemma_read_two(st: ReadState, l1: Seq<char>, l2: Seq<char>, o: Seq<bool>)
    ensures
        read_lines(st, seq![l1], o) == read_line(st, l1, o[st.used as int]),
        read_lines(st, seq![l1, l2], o) == read_line(
            read_line(st, l1, o[st.used as int]),
            l2,
            o[read_line(st, l1, o[st.used as int]).used as int],
        ),
        checks_in(seq![l1]) == if needs_check(l1) {
            1nat
        } else {
            0nat
        },
        checks_in(seq![l1, l2]) == (if needs_check(l1) {
            1nat
        } else {
            0nat
        }) + (if needs_check(l2) {
            1nat
        } else {
            0nat
        }),
{
    let e = Seq::<Seq<char>>::empty();
    assert(seq![l1].drop_last() =~= e);
    assert(seq![l1].last() == l1);
    assert(read_lines(st, e, o) == st);
    assert(checks_in(e) == 0);
    assert(seq![l1, l2].drop_last() =~= seq![l1]);
    assert(seq![l1, l2].last() == l2);
    assert(read_lines(st, seq![l1], o) == read_line(st, l1, o[st.used as int]));
    assert(checks_in(seq![l1]) == if needs_check(l1) {
        1nat
    } else {
        0nat
    });
}

/// The color space that reading back its saved text gives: its name trimmed,
/// the transfer function's path as written, and, for a gamut that is not
/// custom, the default custom coordinates.  With `chroma_only`, only the gamut.
pub open spec fn read_back_view(
    v: ColorSpaceSpecView,
    base: Option<Seq<char>>,
    chroma_only: bool,
) -> ColorSpaceSpecView {
    ColorSpaceSpecView {
        name: if chroma_only {
            Seq::<char>::empty()
        } else {
            trim(v.name)
        },
        transfer_lut: if chroma_only {
            None
        } else {
            match v.transfer_lut {
                Some((p, inv)) => Some((written_lut_path(p, base), inv)),
                None => None,
            }
        },
        chroma_space: v.chroma_space,
        custom_chroma: if v.chroma_space == ChromaSpace::Custom {
            v.custom_chroma
        } else {
            default_custom_chroma()
        },
        include_as_display: !chroma_only && v.include_as_display,
    }
}

/// What can be written and read back whole: a name without line breaks (where
/// it is written), custom coordinates and a written path that are trimmed and
/// without line breaks.
pub open spec fn writable(v: ColorSpaceSpecView, base: Option<Seq<char>>, chroma_only: bool) -> bool {
    &&& !chroma_only ==> no_newline(v.name)
    &&& v.chroma_space == ChromaSpace::Custom ==> no_newline(v.custom_chroma) && trim(v.custom_chroma)
        == v.custom_chroma
    &&& match v.transfer_lut {
        Some((p, _)) => !chroma_only ==> no_newline(written_lut_path(p, base)) && trim(
            written_lut_path(p, base),
        ) == written_lut_path(p, base),
        None => true,
    }
}

pub proof fn lemma_read_kv(st: ReadState, key: Seq<char>, value: Seq<char>, ok: bool)
    requires
        plain_key(key),
        no_newline(value),
        value.len() > 0 ==> !is_ws(value[0]) && !is_ws(value.last()),
    ensures
        read_line(st, kv_line(key, value), ok) == apply_setting(st, key, value, ok),
        needs_check(kv_line(key, value)) == (key == key_custom_chroma() || key
            == key_transfer_lut_path()),
{
    lemma_kv_line(key, value);
}

/// The head lines need no outside check, the gamut lines one for a custom
/// gamut, the transfer function lines one for the path.
pub proof fn lemma_checks_parts(v: ColorSpaceSpecView, base: Option<Seq<char>>, chroma_only: bool)
    requires
        writable(v, base, chroma_only),
    ensures
        checks_in(head_lines(v, chroma_only)) == 0,
        checks_in(gamut_lines(v)) == if v.chroma_space == ChromaSpace::Custom {
            1nat
        } else {
            0nat
        },
        checks_in(lut_lines(v, base, chroma_only)) == if v.transfer_lut is Some && !chroma_only {
            1nat
        } else {
            0nat
        },
{
    lemma_keys_plain();
    lemma_keys_distinct();
    let e = Seq::<Seq<char>>::empty();
    assert(checks_in(e) == 0);
    lemma_trim_shape(v.name);
    lemma_bool_text(v.include_as_display);
    lemma_chroma_name_shape(v.chroma_space);
    lemma_kv_line(key_include_as_display(), bool_text(v.include_as_display));
    if !chroma_only {
        lemma_kv_line(key_color_space(), trim(v.name));
        lemma_read_two(
            read_start(),
            kv_line(key_color_space(), trim(v.name)),
            kv_line(key_include_as_display(), bool_text(v.include_as_display)),
            Seq::<bool>::empty(),
        );
    }
    lemma_kv_line(key_chroma_space(), v.chroma_space.name());
    if v.chroma_space == ChromaSpace::Custom {
        lemma_trim_shape(v.custom_chroma);
        lemma_kv_line(key_custom_chroma(), v.custom_chroma);
    }
    lemma_read_two(
        read_start(),
        kv_line(key_chroma_space(), v.chroma_space.name()),
        kv_line(key_custom_chroma(), v.custom_chroma),
        Seq::<bool>::empty(),
    );
    match v.transfer_lut {
        Some((p, inv)) => {
            if !chroma_only {
                let wp = written_lut_path(p, base);
                lemma_trim_shape(wp);
                lemma_kv_line(key_transfer_lut_path(), wp);
                lemma_bool_text(inv);
                lemma_kv_line(key_transfer_lut_use_inverse(), bool_text(inv));
                lemma_read_two(
                    read_start(),
                    kv_line(key_transfer_lut_path(), wp),
                    kv_line(key_transfer_lut_use_inverse(), bool_text(inv)),
                    Seq::<bool>::empty(),
                );
            }
        },
        None => {},
    }
}

/// The written lines are free of line breaks and of a final carriage return,
/// so the text splits back into them.
pub proof fn lemma_lines_of_text(v: ColorSpaceSpecView, base: Option<Seq<char>>, chroma_only: bool)
    requires
        writable(v, base, chroma_only),
    ensures
        lines(spec_text(v, base, chroma_only)) == spec_lines(v, base, chroma_only),
{
    lemma_keys_plain();
    lemma_trim_shape(v.name);
    lemma_bool_text(v.include_as_display);
    lemma_chroma_name_shape(v.chroma_space);
    if !chroma_only {
        lemma_kv_line(key_color_space(), trim(v.name));
    }
    lemma_kv_line(key_include_as_display(), bool_text(v.include_as_display));
    lemma_kv_line(key_chroma_space(), v.chroma_space.name());
    if v.chroma_space == ChromaSpace::Custom {
        lemma_trim_shape(v.custom_chroma);
        lemma_kv_line(key_custom_chroma(), v.custom_chroma);
    }
    match v.transfer_lut {
        Some((p, inv)) => {
            if !chroma_only {
                let wp = written_lut_path(p, base);
                lemma_trim_shape(wp);
                lemma_kv_line(key_transfer_lut_path(), wp);
                lemma_bool_text(inv);
                lemma_kv_line(key_transfer_lut_use_inverse(), bool_text(inv));
            }
        },
        None => {},
    }
    let head = head_lines(v, chroma_only);
    let gamut = gamut_lines(v);
    let lut = lut_lines(v, base, chroma_only);
    let ls = spec_lines(v, base, chroma_only);
    assert forall|i: int| 0 <= i < ls.len() implies no_newline(#[trigger] ls[i]) && strip_cr(ls[i])
        == ls[i] by {
        if i < head.len() {
            assert(ls[i] == head[i]);
        } else if i < head.len() + gamut.len() {
            assert(ls[i] == gamut[i - head.len()]);
        } else {
            assert(ls[i] == lut[i - head.len() - gamut.len()]);
        }
    }
    lemma_lines_join(ls);
}

/// Reading the name and display lines.
pub proof fn lemma_read_head(v: ColorSpaceSpecView, o: Seq<bool>)
    requires
        no_newline(v.name),
    ensures
        read_lines(read_start(), head_lines(v, false), o) == (ReadState {
            spec: ColorSpaceSpecView {
                name: trim(v.name),
                include_as_display: v.include_as_display,
                ..default_view()
            },
            unloadable: None,
            used: 0,
        }),
{
    lemma_keys_plain();
    lemma_keys_distinct();
    lemma_trim_shape(v.name);
    lemma_bool_text(v.include_as_display);
    let l1 = kv_line(key_color_space(), trim(v.name));
    let l2 = kv_line(key_include_as_display(), bool_text(v.include_as_display));
    lemma_read_two(read_start(), l1, l2, o);
    lemma_read_kv(read_start(), key_color_space(), trim(v.name), o[0]);
    let s1 = apply_setting(read_start(), key_color_space(), trim(v.name), o[0]);
    lemma_read_kv(s1, key_include_as_display(), bool_text(v.include_as_display), o[0]);
}

/// Reading the gamut lines.
pub proof fn lemma_read_gamut(st: ReadState, v: ColorSpaceSpecView, o: Seq<bool>)
    requires
        v.chroma_space == ChromaSpace::Custom ==> no_newline(v.custom_chroma) && trim(
            v.custom_chroma,
        ) == v.custom_chroma && st.used < o.len() && o[st.used as int],
        st.spec.chroma_space == ChromaSpace::NoChroma,
        st.spec.custom_chroma == default_custom_chroma(),
    ensures
        read_lines(st, gamut_lines(v), o) == (ReadState {
            spec: ColorSpaceSpecView {
                chroma_space: v.chroma_space,
                custom_chroma: if v.chroma_space == ChromaSpace::Custom {
                    v.custom_chroma
                } else {
                    default_custom_chroma()
                },
                ..st.spec
            },
            used: st.used + if v.chroma_space == ChromaSpace::Custom {
                1nat
            } else {
                0nat
            },
            ..st
        }),
{
    lemma_keys_plain();
    lemma_keys_distinct();
    lemma_chroma_name_shape(v.chroma_space);
    lemma_chroma_space_round_trip(v.chroma_space);
    let l1 = kv_line(key_chroma_space(), v.chroma_space.name());
    let l2 = kv_line(key_custom_chroma(), v.custom_chroma);
    lemma_read_kv(st, key_chroma_space(), v.chroma_space.name(), o[st.used as int]);
    let s1 = apply_setting(st, key_chroma_space(), v.chroma_space.name(), o[st.used as int]);
    if v.chroma_space == ChromaSpace::Custom {
        lemma_trim_shape(v.custom_chroma);
        lemma_read_kv(s1, key_custom_chroma(), v.custom_chroma, o[s1.used as int]);
    }
    lemma_read_two(st, l1, l2, o);
    assert(read_lines(st, Seq::<Seq<char>>::empty(), o) == st);
    if v.chroma_space == ChromaSpace::NoChroma {
        assert(st.spec =~= ColorSpaceSpecView {
            chroma_space: v.chroma_space,
            custom_chroma: default_custom_chroma(),
            ..st.spec
        });
    }
}

/// Reading the transfer function lines.
pub proof fn lemma_read_lut(st: ReadState, path: Seq<char>, inv: bool, o: Seq<bool>)
    requires
        no_newline(path),
        trim(path) == path,
        st.used < o.len(),
        o[st.used as int],
    ensures
        read_lines(
            st,
            seq![
                kv_line(key_transfer_lut_path(), path),
                kv_line(key_transfer_lut_use_inverse(), bool_text(inv)),
            ],
            o,
        ) == (ReadState {
            spec: ColorSpaceSpecView { transfer_lut: Some((path, inv)), ..st.spec },
            used: st.used + 1,
            ..st
        }),
{
    lemma_keys_plain();
    lemma_keys_distinct();
    lemma_trim_shape(path);
    lemma_bool_text(inv);
    let l1 = kv_line(key_transfer_lut_path(), path);
    let l2 = kv_line(key_transfer_lut_use_inverse(), bool_text(inv));
    lemma_read_kv(st, key_transfer_lut_path(), path, o[st.used as int]);
    let s1 = apply_setting(st, key_transfer_lut_path(), path, o[st.used as int]);
    lemma_read_kv(s1, key_transfer_lut_use_inverse(), bool_text(inv), o[s1.used as int]);
    lemma_read_two(st, l1, l2, o);
}

/// Reading a color space back from the text it is saved as gives the color
/// space again, where every outside check passes (the transfer function file
/// loads, the custom coordinates are numbers): the saved form loses only
/// whitespace around the name, and the custom coordinates of a gamut that is
/// not custom.
pub proof fn lemma_color_space_round_trip(
    v: ColorSpaceSpecView,
    base: Option<Seq<char>>,
    chroma_only: bool,
    outcomes: Seq<bool>,
)
    requires
        writable(v, base, chroma_only),
        outcomes.len() == checks_in(lines(spec_text(v, base, chroma_only))),
        forall|i: int| 0 <= i < outcomes.len() ==> outcomes[i],
    ensures
        spec_read(spec_text(v, base, chroma_only), outcomes).spec == read_back_view(
            v,
            base,
            chroma_only,
        ),
        spec_read(spec_text(v, base, chroma_only), outcomes).unloadable is None,
{
    let head = head_lines(v, chroma_only);
    let gamut = gamut_lines(v);
    let lut = lut_lines(v, base, chroma_only);
    lemma_lines_of_text(v, base, chroma_only);
    lemma_checks_parts(v, base, chroma_only);
    lemma_checks_concat(head + gamut, lut);
    lemma_checks_concat(head, gamut);
    lemma_read_concat(read_start(), head + gamut, lut, outcomes);
    lemma_read_concat(read_start(), head, gamut, outcomes);
    let s0 = read_start();
    let s1 = read_lines(s0, head, outcomes);
    if !chroma_only {
        lemma_read_head(v, outcomes);
    } else {
        assert(s1 == s0);
    }
    lemma_read_gamut(s1, v, outcomes);
    let s2 = read_lines(s1, gamut, outcomes);
    match v.transfer_lut {
        Some((p, inv)) => {
            if !chroma_only {
                lemma_read_lut(s2, written_lut_path(p, base), inv, outcomes);
            } else {
                assert(read_lines(s2, lut, outcomes) == s2);
            }
        },
        None => {
            assert(read_lines(s2, lut, outcomes) == s2);
        },
    }
    assert(spec_read(spec_text(v, base, chroma_only), outcomes).spec =~= read_back_view(
        v,
        base,
        chroma_only,
    ));
}

//------------------------------------------------------------------------
// Whitespace at the ends of lines.

/// Each of `ls`, trimmed.
pub open spec fn trim_each(ls: Seq<Seq<char>>) -> Seq<Seq<char>> {
    ls.map_values(|l: Seq<char>| trim(l))
}

/// Whitespace at the ends of a saved line changes nothing of what the line
/// reads as, nor whether it needs an outside check.
pub proof fn lemma_read_line_trim(st: ReadState, l: Seq<char>, ok: bool)
    ensures
        read_line(st, trim(l), ok) == read_line(st, l, ok),
        needs_check(trim(l)) == needs_check(l),
{
    lemma_split_once_trim(l, ':');
    match split_once(l, ':') {
        Some((k, v)) => {
            let (k2, v2) = split_once(trim(l), ':')->0;
            lemma_trim_shape(k);
            lemma_trim_shape(v);
            assert(trim(k2) == trim(k));
            assert(trim(v2) == trim(v));
        },
        None => {},
    }
}

pub proof fn lemma_read_lines_trim(st: ReadState, ls: Seq<Seq<char>>, o: Seq<bool>)
    ensures
        read_lines(st, trim_each(ls), o) == read_lines(st, ls, o),
        checks_in(trim_each(ls)) == checks_in(ls),
    decreases ls.len(),
{
    if ls.len() > 0 {
        assert(trim_each(ls).drop_last() =~= trim_each(ls.drop_last()));
        assert(trim_each(ls).last() == trim(ls.last()));
        lemma_read_lines_trim(st, ls.drop_last(), o);
        let prev = read_lines(st, ls.drop_last(), o);
        lemma_read_line_trim(prev, ls.last(), o[prev.used as int]);
    }
}

/// Reading a color space from saved lines ignores whitespace at the ends of
/// the lines: the text of the trimmed lines reads as the same color space,
/// with the same outside checks.
pub proof fn lemma_read_trimmed_text(ls: Seq<Seq<char>>, o: Seq<bool>)
    requires
        forall|i: int| 0 <= i < ls.len() ==> no_newline(#[trigger] ls[i]),
        forall|i: int| 0 <= i < ls.len() ==> strip_cr(#[trigger] ls[i]) == ls[i],
    ensures
        lines(join_lines(trim_each(ls))) == trim_each(ls),
        checks_in(lines(join_lines(trim_each(ls)))) == checks_in(lines(join_lines(ls))),
        spec_read(join_lines(trim_each(ls)), o) == spec_read(join_lines(ls), o),
{
    let t = trim_each(ls);
    lemma_lines_join(ls);
    assert forall|i: int| 0 <= i < t.len() implies no_newline(#[trigger] t[i]) by {
        lemma_trim_shape(ls[i]);
    }
    assert forall|i: int| 0 <= i < t.len() implies strip_cr(#[trigger] t[i]) == t[i] by {
        lemma_trim_shape(ls[i]);
        assert(is_ws('\r'));
    }
    lemma_lines_join(t);
    lemma_read_lines_trim(read_start(), ls, o);
}

/// Each written line is a `key: value` line: free of line breaks and of a
/// final carriage return, and begun by a key's first letter.
pub proof fn lemma_spec_lines_shape(v: ColorSpaceSpecView, base: Option<Seq<char>>, chroma_only: bool)
    requires
        writable(v, base, chroma_only),
    ensures
        forall|i: int|
            0 <= i < spec_lines(v, base, chroma_only).len() ==> {
                let l = #[trigger] spec_lines(v, base, chroma_only)[i];
                &&& no_newline(l)
                &&& strip_cr(l) == l
                &&& l.len() > 0
                &&& !is_ws(l[0])
                &&& l[0] != '-'
            },
{
    reveal_strlit("color_space");
    reveal_strlit("include_as_display");
    reveal_strlit("chroma_space");
    reveal_strlit("custom_chroma");
    reveal_strlit("transfer_lut_path");
    reveal_strlit("transfer_lut_use_inverse");
    lemma_keys_plain();
    lemma_trim_shape(v.name);
    lemma_bool_text(v.include_as_display);
    lemma_chroma_name_shape(v.chroma_space);
    if !chroma_only {
        lemma_kv_line(key_color_space(), trim(v.name));
    }
    lemma_kv_line(key_include_as_display(), bool_text(v.include_as_display));
    lemma_kv_line(key_chroma_space(), v.chroma_space.name());
    if v.chroma_space == ChromaSpace::Custom {
        lemma_trim_shape(v.custom_chroma);
        lemma_kv_line(key_custom_chroma(), v.custom_chroma);
    }
    match v.transfer_lut {
        Some((p, inv)) => {
            if !chroma_only {
                let wp = written_lut_path(p, base);
                lemma_trim_shape(wp);
                lemma_kv_line(key_transfer_lut_path(), wp);
                lemma_bool_text(inv);
                lemma_kv_line(key_transfer_lut_use_inverse(), bool_text(inv));
            }
        },
        None => {},
    }
    let head = head_lines(v, chroma_only);
    let gamut = gamut_lines(v);
    let lut = lut_lines(v, base, chroma_only);
    let ls = spec_lines(v, base, chroma_only);
    assert forall|i: int| 0 <= i < ls.len() implies {
        let l = #[trigger] ls[i];
        &&& no_newline(l)
        &&& strip_cr(l) == l
        &&& l.len() > 0
        &&& !is_ws(l[0])
        &&& l[0] != '-'
    } by {
        if i < head.len() {
            assert(ls[i] == head[i]);
        } else if i < head.len() + gamut.len() {
            assert(ls[i] == gamut[i - head.len()]);
        } else {
            assert(ls[i] == lut[i - head.len() - gamut.len()]);
        }
    }
}

} // verus!
