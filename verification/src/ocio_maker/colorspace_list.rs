//! The editor's list of input color spaces and its selection.
use vstd::prelude::*;

use crate::ocio_maker::color_space_spec::{ColorSpaceSpec, ColorSpaceSpecView, default_view};
use crate::text::append_str;
use vstd::set_lib::{lemma_int_range, lemma_len_subset, lemma_map_size, set_int_range};

verus! {

broadcast use vstd::string::group_string_axioms;

/// The input color spaces and the index of the selected one.
#[derive(Debug)]
pub struct ColorSpaceList {
    pub color_spaces: Vec<ColorSpaceSpec>,
    pub selected_space_index: usize,
}

/// The selection after removing index `i` from a list of `len` spaces, where
/// `sel` was selected: the same space where it stays, clamped to the list.
pub open spec fn selection_after_remove(len: nat, sel: nat, i: nat) -> nat {
    let new_len: nat = if i < len {
        (len - 1) as nat
    } else {
        len
    };
    let shifted: nat = if sel > i {
        (sel - 1) as nat
    } else {
        sel
    };
    let last: nat = if new_len > 0 {
        (new_len - 1) as nat
    } else {
        0
    };
    if last < shifted {
        last
    } else {
        shifted
    }
}

/// The text of `n` in decimal.
pub open spec fn decimal(n: nat) -> Seq<char>
    decreases n,
{
    if n < 10 {
        seq![digit(n)]
    } else {
        decimal(n / 10).push(digit(n % 10))
    }
}

pub open spec fn digit(d: nat) -> char {
    if d == 0 {
        '0'
    } else if d == 1 {
        '1'
    } else if d == 2 {
        '2'
    } else if d == 3 {
        '3'
    } else if d == 4 {
        '4'
    } else if d == 5 {
        '5'
    } else if d == 6 {
        '6'
    } else if d == 7 {
        '7'
    } else if d == 8 {
        '8'
    } else {
        '9'
    }
}

/// The `i`-th name a new color space may get: `New Color Space i`.
pub open spec fn candidate_name(i: nat) -> Seq<char> {
    "New Color Space "@ + decimal(i)
}

/// The names of `spaces`.
pub open spec fn space_names(spaces: Seq<ColorSpaceSpec>) -> Seq<Seq<char>> {
    spaces.map_values(|s: ColorSpaceSpec| s.name@)
}

/// Whether one of `spaces` has the name `name`.
pub open spec fn name_taken(spaces: Seq<ColorSpaceSpec>, name: Seq<char>) -> bool {
    space_names(spaces).contains(name)
}

/// The name a new color space gets: the first of `New Color Space 1` to
/// `New Color Space 199` that no space has, else `New Color Space`.
pub open spec fn new_space_name(spaces: Seq<ColorSpaceSpec>) -> Seq<char> {
    if exists|i: nat| 1 <= i < 200 && !name_taken(spaces, candidate_name(i)) {
        candidate_name(
            choose|i: nat|
                1 <= i < 200 && !name_taken(spaces, candidate_name(i)) && forall|j: nat|
                    1 <= j < i ==> name_taken(spaces, #[trigger] candidate_name(j)),
        )
    } else {
        "New Color Space"@
    }
}

/// Appends the decimal text of `n`.
pub(crate) fn push_decimal(out: &mut Vec<char>, n: usize)
    ensures
        final(out)@ == old(out)@ + decimal(n as nat),
    decreases n,
{
    if n < 10 {
        let c = char_from_digit(n);
        out.push(c);
        assert(final(out)@ =~= old(out)@ + decimal(n as nat));
    } else {
        push_decimal(out, n / 10);
        let c = char_from_digit(n % 10);
        out.push(c);
        assert(final(out)@ =~= old(out)@ + decimal(n as nat));
    }
}

fn char_from_digit(d: usize) -> (c: char)
    requires
        d < 10,
    ensures
        c == digit(d as nat),
{
    match d {
        0 => '0',
        1 => '1',
        2 => '2',
        3 => '3',
        4 => '4',
        5 => '5',
        6 => '6',
        7 => '7',
        8 => '8',
        _ => '9',
    }
}

/// Whether one of `spaces` is named `name`.
fn is_taken(spaces: &Vec<ColorSpaceSpec>, name: &String) -> (b: bool)
    ensures
        b == name_taken(spaces@, name@),
{
    let mut taken = false;
    let mut k: usize = 0;
    while k < spaces.len()
        invariant
            k <= spaces@.len(),
            taken == exists|j: int| 0 <= j < k && spaces@[j].name@ == name@,
        decreases spaces@.len() - k,
    {
        let same = spaces[k].name == *name;
        taken = taken || same;
        k += 1;
    }
    proof {
        let names = space_names(spaces@);
        if taken {
            let j = choose|j: int| 0 <= j < spaces@.len() && spaces@[j].name@ == name@;
            assert(names[j] == name@);
        } else {
            if names.contains(name@) {
                let j = choose|j: int| 0 <= j < names.len() && names[j] == name@;
                assert(spaces@[j].name@ == name@);
            }
        }
    }
    taken
}

impl ColorSpaceList {
    /// Removes the space at `space_i`, where there is one, and keeps the
    /// selection on the same space, within the list.
    pub fn remove_color_space(&mut self, space_i: usize)
        ensures
            final(self).color_spaces@ == if space_i < old(self).color_spaces@.len() {
                old(self).color_spaces@.remove(space_i as int)
            } else {
                old(self).color_spaces@
            },
            final(self).selected_space_index == selection_after_remove(
                old(self).color_spaces@.len(),
                old(self).selected_space_index as nat,
                space_i as nat,
            ),
    {
        if space_i < self.color_spaces.len() {
            self.color_spaces.remove(space_i);
        }
        if self.selected_space_index > space_i {
            self.selected_space_index = self.selected_space_index - 1;
        }
        let last = if self.color_spaces.len() > 0 {
            self.color_spaces.len() - 1
        } else {
            0
        };
        if last < self.selected_space_index {
            self.selected_space_index = last;
        }
    }

    /// Adds a new space, named by [`new_space_name`], and selects it.
    pub fn add_input_color_space(&mut self)
        requires
            old(self).color_spaces@.len() < usize::MAX,
        ensures
            final(self).color_spaces@.len() == old(self).color_spaces@.len() + 1,
            final(self).color_spaces@.drop_last() == old(self).color_spaces@,
            final(self).color_spaces@.last()@ == (ColorSpaceSpecView {
                name: new_space_name(old(self).color_spaces@),
                ..default_view()
            }),
            final(self).selected_space_index == old(self).color_spaces@.len(),
    {
        let ghost spaces = self.color_spaces@;
        let mut chosen: Option<Vec<char>> = None;
        let mut i: usize = 1;
        while i < 200
            invariant
                1 <= i <= 200,
                spaces == self.color_spaces@,
                chosen is None ==> forall|j: nat| 1 <= j < i ==> name_taken(spaces, #[trigger] candidate_name(j)),
                chosen matches Some(c) ==> ({
                    &&& exists|k: nat| #![trigger candidate_name(k)]
                        1 <= k < 200 && c@ == candidate_name(k) && !name_taken(spaces, candidate_name(k))
                        && forall|j: nat| 1 <= j < k ==> name_taken(spaces, #[trigger] candidate_name(j))
                }),
            decreases 200 - i,
        {
            if chosen.is_none() {
                let mut name: Vec<char> = Vec::new();
                append_str(&mut name, "New Color Space ");
                push_decimal(&mut name, i);
                let s = crate::text::string_from_chars(&name);
                if !is_taken(&self.color_spaces, &s) {
                    assert(name@ == candidate_name(i as nat));
                    assert(!name_taken(spaces, candidate_name(i as nat)));
                    chosen = Some(name);
                }
            }
            i += 1;
        }
        let ghost chosen_view = chosen;
        let name: Vec<char> = match chosen {
            Some(c) => c,
            None => {
                let mut d: Vec<char> = Vec::new();
                append_str(&mut d, "New Color Space");
                d
            },
        };
        proof {
            match chosen_view {
                Some(c) => {
                    let k = choose|k: nat| #![trigger candidate_name(k)]
                        1 <= k < 200 && c@ == candidate_name(k) && !name_taken(
                            spaces,
                            candidate_name(k),
                        ) && forall|j: nat|
                            1 <= j < k ==> name_taken(spaces, #[trigger] candidate_name(j));
                    let w = choose|i: nat|
                        1 <= i < 200 && !name_taken(spaces, candidate_name(i)) && forall|j: nat|
                            1 <= j < i ==> name_taken(spaces, #[trigger] candidate_name(j));
                    if w < k {
                        assert(name_taken(spaces, candidate_name(w)));
                    }
                    if k < w {
                        assert(name_taken(spaces, candidate_name(k)));
                    }
                    assert(name@ == new_space_name(spaces));
                },
                None => {
                    assert(name@ == new_space_name(spaces));
                },
            }
        }
        let s = crate::text::string_from_chars(&name);
        let space = ColorSpaceSpec::with_name(s.as_str());
        self.color_spaces.push(space);
        self.selected_space_index = self.color_spaces.len() - 1;
        assert(self.color_spaces@.drop_last() =~= spaces);
    }

    /// Sets the transfer function of the space at `color_space_index`, where
    /// there is one.
    pub fn set_transfer_function(&mut self, color_space_index: usize, path: String)
        ensures
            final(self).selected_space_index == old(self).selected_space_index,
            final(self).color_spaces@.len() == old(self).color_spaces@.len(),
            forall|k: int|
                0 <= k < old(self).color_spaces@.len() && k != color_space_index ==> final(self).color_spaces@[k] == old(self).color_spaces@[k],
            color_space_index < old(self).color_spaces@.len() ==> final(self).color_spaces@[color_space_index as int]@
                == (ColorSpaceSpecView {
                transfer_lut: Some((path@, false)),
                ..old(self).color_spaces@[color_space_index as int]@
            }),
    {
        if color_space_index < self.color_spaces.len() {
            let mut space = self.color_spaces.remove(color_space_index);
            space.transfer_lut = Some((path, false));
            self.color_spaces.insert(color_space_index, space);
        }
    }

    /// Clears the transfer function of the space at `color_space_index`,
    /// where there is one.
    pub fn remove_transfer_function(&mut self, color_space_index: usize)
        ensures
            final(self).selected_space_index == old(self).selected_space_index,
            final(self).color_spaces@.len() == old(self).color_spaces@.len(),
            forall|k: int|
                0 <= k < old(self).color_spaces@.len() && k != color_space_index ==> final(self).color_spaces@[k] == old(self).color_spaces@[k],
            color_space_index < old(self).color_spaces@.len() ==> final(self).color_spaces@[color_space_index as int]@
                == (ColorSpaceSpecView {
                transfer_lut: None,
                ..old(self).color_spaces@[color_space_index as int]@
            }),
    {
        if color_space_index < self.color_spaces.len() {
            let mut space = self.color_spaces.remove(color_space_index);
            space.transfer_lut = None;
            self.color_spaces.insert(color_space_index, space);
        }
    }
}

pub proof fn lemma_decimal_len(n: nat)
    ensures
        decimal(n).len() >= 1,
        n >= 10 ==> decimal(n).len() >= 2,
    decreases n,
{
    if n >= 10 {
        lemma_decimal_len(n / 10);
    }
}

proof fn lemma_digit_injective(x: nat, y: nat)
    requires
        x < 10,
        y < 10,
        digit(x) == digit(y),
    ensures
        x == y,
{
}

/// A decimal text is made of digits alone.
pub proof fn lemma_decimal_digits(n: nat)
    ensures
        forall|x: int| 0 <= x < decimal(n).len() ==> '0' <= #[trigger] decimal(n)[x] <= '9',
    decreases n,
{
    if n >= 10 {
        lemma_decimal_digits(n / 10);
        let d = decimal(n);
        assert forall|x: int| 0 <= x < d.len() implies '0' <= #[trigger] d[x] <= '9' by {
            if x < d.len() - 1 {
                assert(d[x] == decimal(n / 10)[x]);
            }
        }
    }
}

/// Different numbers have different decimal texts.
pub proof fn lemma_decimal_injective(a: nat, b: nat)
    requires
        decimal(a) == decimal(b),
    ensures
        a == b,
    decreases a,
{
    lemma_decimal_len(a);
    lemma_decimal_len(b);
    if a < 10 && b < 10 {
        assert(decimal(a) == seq![digit(a)]);
        assert(decimal(b) == seq![digit(b)]);
        assert(decimal(a)[0] == decimal(b)[0]);
        assert(seq![digit(a)][0] == digit(a));
        assert(seq![digit(b)][0] == digit(b));
        lemma_digit_injective(a, b);
    } else if a >= 10 && b >= 10 {
        assert(decimal(a) == decimal(a / 10).push(digit(a % 10)));
        assert(decimal(b) == decimal(b / 10).push(digit(b % 10)));
        assert(decimal(a).last() == decimal(b).last());
        assert(decimal(a / 10).push(digit(a % 10)).last() == digit(a % 10));
        assert(decimal(b / 10).push(digit(b % 10)).last() == digit(b % 10));
        lemma_digit_injective(a % 10, b % 10);
        assert(decimal(a).drop_last() =~= decimal(a / 10));
        assert(decimal(b).drop_last() =~= decimal(b / 10));
        lemma_decimal_injective(a / 10, b / 10);
    } else {
        assert(decimal(a).len() != decimal(b).len());
    }
}

proof fn lemma_candidate_injective(i: nat, j: nat)
    requires
        candidate_name(i) == candidate_name(j),
    ensures
        i == j,
{
    reveal_strlit("New Color Space ");
    assert(decimal(i) =~= candidate_name(i).skip(16));
    assert(decimal(j) =~= candidate_name(j).skip(16));
    lemma_decimal_injective(i, j);
}

/// Fewer than 199 names leave one of the candidate names free.
proof fn lemma_free_candidate(names: Seq<Seq<char>>)
    requires
        names.len() < 199,
    ensures
        exists|i: nat| 1 <= i < 200 && !names.contains(candidate_name(i)),
{
    if !exists|i: nat| 1 <= i < 200 && !names.contains(candidate_name(i)) {
        let f = |i: int| names.index_of(candidate_name(i as nat));
        let x = set_int_range(1, 200);
        let r = set_int_range(0, names.len() as int);
        lemma_int_range(1, 200);
        lemma_int_range(0, names.len() as int);
        assert forall|i: int| x.contains(i) implies r.contains(#[trigger] f(i)) && names[f(i)]
            == candidate_name(i as nat) by {
            assert(names.contains(candidate_name(i as nat)));
        }
        assert forall|i: int, j: int|
            x.contains(i) && x.contains(j) && #[trigger] f(i) == #[trigger] f(j) implies i == j by {
            lemma_candidate_injective(i as nat, j as nat);
        }
        let y = x.map(f);
        lemma_map_size(x, y, f);
        assert(y.subset_of(r));
        lemma_len_subset(y, r);
    }
}

/// Where some candidate name is free, a least free one exists.
proof fn lemma_least_free(spaces: Seq<ColorSpaceSpec>, i: nat)
    requires
        1 <= i <= 200,
        forall|j: nat| 1 <= j < i ==> name_taken(spaces, #[trigger] candidate_name(j)),
        exists|k: nat| i <= k < 200 && !name_taken(spaces, candidate_name(k)),
    ensures
        exists|k: nat|
            1 <= k < 200 && !name_taken(spaces, candidate_name(k)) && forall|j: nat|
                1 <= j < k ==> name_taken(spaces, #[trigger] candidate_name(j)),
    decreases 200 - i,
{
    if !name_taken(spaces, candidate_name(i)) {
        assert(1 <= i < 200);
    } else {
        let k = choose|k: nat| i <= k < 200 && !name_taken(spaces, candidate_name(k));
        assert(k != i);
        lemma_least_free(spaces, i + 1);
    }
}

/// Where fewer than 199 color spaces exist, a new one gets a name that none of
/// them has.
pub proof fn lemma_new_name_is_free(spaces: Seq<ColorSpaceSpec>)
    requires
        spaces.len() < 199,
    ensures
        !name_taken(spaces, new_space_name(spaces)),
{
    lemma_free_candidate(space_names(spaces));
    lemma_least_free(spaces, 1);
}

/// After a removal the selection lies within the list, and, where the
/// selected space was not the one removed, it is still selected.
pub proof fn lemma_remove_keeps_selection(spaces: Seq<ColorSpaceSpec>, sel: nat, i: nat)
    ensures
        ({
            let new_spaces = if i < spaces.len() {
                spaces.remove(i as int)
            } else {
                spaces
            };
            let new_sel = selection_after_remove(spaces.len(), sel, i);
            &&& new_sel < new_spaces.len() || (new_spaces.len() == 0 && new_sel == 0)
            &&& (i < spaces.len() && sel < spaces.len() && sel != i) ==> new_spaces[new_sel as int]
                == spaces[sel as int]
        }),
{
}

/// The list after removing index `i`, where there is one.
pub open spec fn spaces_after_remove(spaces: Seq<ColorSpaceSpec>, i: nat) -> Seq<ColorSpaceSpec> {
    if i < spaces.len() {
        spaces.remove(i as int)
    } else {
        spaces
    }
}

/// What one frame of the list panel does: the clicked row becomes selected;
/// then a new space is added if "New" was clicked; then the row whose remove
/// button was clicked is removed.  Remove buttons are enabled only while no
/// job runs, so a remove click counts only then.
pub fn list(
    state: &mut ColorSpaceList,
    job_count: usize,
    add_clicked: bool,
    remove_clicked: Option<usize>,
    select_clicked: Option<usize>,
)
    requires
        old(state).color_spaces@.len() < usize::MAX,
        select_clicked matches Some(i) ==> i < old(state).color_spaces@.len(),
        remove_clicked matches Some(i) ==> i < old(state).color_spaces@.len(),
    ensures
        ({
            let old_spaces = old(state).color_spaces@;
            let sel1: nat = match select_clicked {
                Some(i) => i as nat,
                None => old(state).selected_space_index as nat,
            };
            let mid_len: nat = if add_clicked {
                old_spaces.len() + 1
            } else {
                old_spaces.len()
            };
            let mid_sel: nat = if add_clicked {
                old_spaces.len()
            } else {
                sel1
            };
            exists|mid: Seq<ColorSpaceSpec>|
                {
                    &&& mid.len() == mid_len
                    &&& (add_clicked ==> mid.drop_last() == old_spaces && mid.last()@ == (
                    ColorSpaceSpecView { name: new_space_name(old_spaces), ..default_view() }))
                    &&& (!add_clicked ==> mid == old_spaces)
                    &&& match remove_clicked {
                        Some(i) if job_count == 0 => {
                            &&& final(state).color_spaces@ == spaces_after_remove(mid, i as nat)
                            &&& final(state).selected_space_index == selection_after_remove(
                                mid_len,
                                mid_sel,
                                i as nat,
                            )
                        },
                        _ => {
                            &&& final(state).color_spaces@ == mid
                            &&& final(state).selected_space_index == mid_sel
                        },
                    }
                }
        }),
{
    match select_clicked {
        Some(i) => {
            state.selected_space_index = i;
        },
        None => {},
    }
    if add_clicked {
        state.add_input_color_space();
    }
    let ghost mid = state.color_spaces@;
    match remove_clicked {
        Some(i) => {
            if job_count == 0 {
                state.remove_color_space(i);
            }
        },
        None => {},
    }
    assert(mid.len() == if add_clicked {
        old(state).color_spaces@.len() + 1
    } else {
        old(state).color_spaces@.len()
    });
}

} // verus!
