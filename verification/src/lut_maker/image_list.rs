//! The LUT Maker's image lists: sets of images, each image held twice (its
//! histograms for the analysis, its thumbnail for the panel), and the
//! selected image.
use vstd::prelude::*;

use crate::job_helpers::{dir_after_pick, follow_picked_file};

verus! {

/// Sets of images: `histogram_sets` and `thumbnail_sets` hold the analysis
/// data and the thumbnails of the same images, set by set; `selected_idx` is
/// (set index, image index).
#[derive(Debug)]
pub struct ImageList<H, T> {
    pub histogram_sets: Vec<Vec<H>>,
    pub thumbnail_sets: Vec<Vec<T>>,
    pub selected_idx: (usize, usize),
    pub multiple_sets: bool,
}

pub open spec fn sets_view<A>(sets: Seq<Vec<A>>) -> Seq<Seq<A>> {
    sets.map_values(|s: Vec<A>| s@)
}

/// The number of images in all the sets.
pub open spec fn image_total<A>(sets: Seq<Seq<A>>) -> nat
    decreases sets.len(),
{
    if sets.len() == 0 {
        0
    } else {
        image_total(sets.drop_last()) + sets.last().len()
    }
}

/// The two lists hold the same number of sets, with the same number of
/// images in each.
pub open spec fn parallel<A, B>(a: Seq<Seq<A>>, b: Seq<Seq<B>>) -> bool {
    &&& a.len() == b.len()
    &&& forall|k: int| 0 <= k < a.len() ==> #[trigger] a[k].len() == b[k].len()
}

/// The sets after removing set `k`, where there is one.
pub open spec fn without_set<A>(sets: Seq<Seq<A>>, k: nat) -> Seq<Seq<A>> {
    if k < sets.len() {
        sets.remove(k as int)
    } else {
        sets
    }
}

/// The sets after removing image `i` of set `k`, where there is one.
pub open spec fn without_image<A>(sets: Seq<Seq<A>>, k: nat, i: nat) -> Seq<Seq<A>> {
    if k < sets.len() && i < sets[k as int].len() {
        sets.update(k as int, sets[k as int].remove(i as int))
    } else {
        sets
    }
}

/// The selection after removing set `k`, given the thumbnail sets that remain.
pub open spec fn selection_after_set_removal<T>(
    remaining: Seq<Seq<T>>,
    sel: (usize, usize),
    k: nat,
) -> (nat, nat) {
    if k > remaining.len() {
        let new_set: nat = if remaining.len() > 0 {
            (remaining.len() - 1) as nat
        } else {
            0
        };
        let new_image: nat = if new_set < remaining.len() {
            if remaining[new_set as int].len() > 0 {
                (remaining[new_set as int].len() - 1) as nat
            } else {
                0
            }
        } else {
            0
        };
        (new_set, new_image)
    } else if k == sel.0 {
        (sel.0 as nat, 0)
    } else if k < sel.0 {
        ((sel.0 - 1) as nat, sel.1 as nat)
    } else {
        (sel.0 as nat, sel.1 as nat)
    }
}

/// `hs2`, `ts2` and `sel2` are the lists and the selection after removing
/// set `k` from `hs`, `ts` with `sel` selected.
pub open spec fn set_removed<H, T>(
    hs: Seq<Seq<H>>,
    ts: Seq<Seq<T>>,
    sel: (usize, usize),
    k: usize,
    hs2: Seq<Seq<H>>,
    ts2: Seq<Seq<T>>,
    sel2: (usize, usize),
) -> bool {
    &&& hs2 == without_set(hs, k as nat)
    &&& ts2 == without_set(ts, k as nat)
    &&& (sel2.0 as nat, sel2.1 as nat) == selection_after_set_removal(ts2, sel, k as nat)
}

/// `hs2`, `ts2` and `sel2` are the lists and the selection after removing
/// image `i` of set `k` from `hs`, `ts` with `sel` selected: nothing where
/// there is no such image, the whole set where it is the set's only image,
/// else the image, the selection moving back by one where it was a later
/// image of that set.
pub open spec fn image_removed<H, T>(
    hs: Seq<Seq<H>>,
    ts: Seq<Seq<T>>,
    sel: (usize, usize),
    k: usize,
    i: usize,
    hs2: Seq<Seq<H>>,
    ts2: Seq<Seq<T>>,
    sel2: (usize, usize),
) -> bool {
    if k >= hs.len() || i >= hs[k as int].len() {
        &&& hs2 == hs
        &&& ts2 == ts
        &&& sel2 == sel
    } else if hs[k as int].len() <= 1 {
        set_removed(hs, ts, sel, k, hs2, ts2, sel2)
    } else {
        &&& hs2 == without_image(hs, k as nat, i as nat)
        &&& ts2 == without_image(ts, k as nat, i as nat)
        &&& sel2 == if sel.0 == k && sel.1 > i {
            (sel.0, (sel.1 - 1) as usize)
        } else {
            sel
        }
    }
}

fn remove_from_set<A>(sets: &mut Vec<Vec<A>>, k: usize, i: usize)
    requires
        k < old(sets)@.len(),
        i < old(sets)@[k as int]@.len(),
    ensures
        sets_view(final(sets)@) == without_image(sets_view(old(sets)@), k as nat, i as nat),
{
    let mut set = sets.remove(k);
    set.remove(i);
    sets.insert(k, set);
    assert(sets_view(final(sets)@) =~= without_image(sets_view(old(sets)@), k as nat, i as nat));
}

impl<H, T> ImageList<H, T> {
    /// An empty list; `multiple_sets` says whether each addition starts a new
    /// set.
    pub fn new(multiple_sets: bool) -> (r: ImageList<H, T>)
        ensures
            r.histogram_sets@.len() == 0,
            r.thumbnail_sets@.len() == 0,
            r.selected_idx == (0usize, 0usize),
            r.multiple_sets == multiple_sets,
    {
        ImageList {
            histogram_sets: Vec::new(),
            thumbnail_sets: Vec::new(),
            selected_idx: (0, 0),
            multiple_sets,
        }
    }

    pub fn uses_sets(&self) -> (r: bool)
        ensures
            r == self.multiple_sets,
    {
        self.multiple_sets
    }

    /// The number of images in all the sets.
    pub fn total_image_count(&self) -> (r: usize)
        requires
            image_total(sets_view(self.thumbnail_sets@)) <= usize::MAX,
        ensures
            r == image_total(sets_view(self.thumbnail_sets@)),
    {
        let ghost sets = sets_view(self.thumbnail_sets@);
        let mut n: usize = 0;
        let mut k: usize = 0;
        while k < self.thumbnail_sets.len()
            invariant
                k <= self.thumbnail_sets@.len(),
                sets == sets_view(self.thumbnail_sets@),
                image_total(sets) <= usize::MAX,
                n == image_total(sets.take(k as int)),
            decreases self.thumbnail_sets@.len() - k,
        {
            proof {
                assert(sets.take(k + 1).drop_last() =~= sets.take(k as int));
                lemma_total_prefix(sets, k + 1);
            }
            n = n + self.thumbnail_sets[k].len();
            k += 1;
        }
        assert(sets.take(k as int) =~= sets);
        n
    }

    /// Starts the set that added images go into: a new one for each addition
    /// where the list uses sets, else a first one where there is none yet.
    pub fn begin_add(&mut self)
        ensures
            final(self).selected_idx == old(self).selected_idx,
            final(self).multiple_sets == old(self).multiple_sets,
            ({
                let starts = old(self).multiple_sets || old(self).histogram_sets@.len() == 0;
                &&& sets_view(final(self).histogram_sets@) == if starts {
                    sets_view(old(self).histogram_sets@).push(Seq::<H>::empty())
                } else {
                    sets_view(old(self).histogram_sets@)
                }
                &&& sets_view(final(self).thumbnail_sets@) == if starts {
                    sets_view(old(self).thumbnail_sets@).push(Seq::<T>::empty())
                } else {
                    sets_view(old(self).thumbnail_sets@)
                }
            }),
    {
        if self.multiple_sets || self.histogram_sets.len() == 0 {
            self.histogram_sets.push(Vec::new());
            self.thumbnail_sets.push(Vec::new());
            assert(sets_view(self.histogram_sets@) =~= sets_view(old(self).histogram_sets@).push(
                Seq::<H>::empty(),
            ));
            assert(sets_view(self.thumbnail_sets@) =~= sets_view(old(self).thumbnail_sets@).push(
                Seq::<T>::empty(),
            ));
        }
    }

    /// Removes set `set_index`, where there is one, from both lists, and moves
    /// the selection: to the last image where the index lay beyond the sets,
    /// to the first image of the set now at the selected index where the
    /// selected set was removed, one set back where an earlier set was removed.
    pub fn remove_image_set(&mut self, set_index: usize)
        ensures
            final(self).multiple_sets == old(self).multiple_sets,
            set_removed(
                sets_view(old(self).histogram_sets@),
                sets_view(old(self).thumbnail_sets@),
                old(self).selected_idx,
                set_index,
                sets_view(final(self).histogram_sets@),
                sets_view(final(self).thumbnail_sets@),
                final(self).selected_idx,
            ),
    {
        if set_index < self.histogram_sets.len() {
            self.histogram_sets.remove(set_index);
        }
        if set_index < self.thumbnail_sets.len() {
            self.thumbnail_sets.remove(set_index);
        }
        proof {
            assert(sets_view(self.histogram_sets@) =~= without_set(
                sets_view(old(self).histogram_sets@),
                set_index as nat,
            ));
            assert(sets_view(self.thumbnail_sets@) =~= without_set(
                sets_view(old(self).thumbnail_sets@),
                set_index as nat,
            ));
        }
        let n = self.thumbnail_sets.len();
        if set_index > n {
            let new_set_index = if n > 0 {
                n - 1
            } else {
                0
            };
            let new_image_index = if new_set_index < n {
                let len = self.thumbnail_sets[new_set_index].len();
                if len > 0 {
                    len - 1
                } else {
                    0
                }
            } else {
                0
            };
            self.selected_idx = (new_set_index, new_image_index);
        } else if set_index == self.selected_idx.0 {
            self.selected_idx.1 = 0;
        } else if set_index < self.selected_idx.0 {
            self.selected_idx.0 = self.selected_idx.0 - 1;
        }
    }

    /// Removes image `image_index` of set `set_index`, where there is one: the
    /// whole set where it is the set's only image.  Where the selection is a
    /// later image of that set, it moves back by one, so it stays on the same
    /// image.
    pub fn remove_image(&mut self, set_index: usize, image_index: usize)
        ensures
            final(self).multiple_sets == old(self).multiple_sets,
            image_removed(
                sets_view(old(self).histogram_sets@),
                sets_view(old(self).thumbnail_sets@),
                old(self).selected_idx,
                set_index,
                image_index,
                sets_view(final(self).histogram_sets@),
                sets_view(final(self).thumbnail_sets@),
                final(self).selected_idx,
            ),
    {
        if set_index >= self.histogram_sets.len() {
            return;
        }
        let image_count = self.histogram_sets[set_index].len();
        if image_index >= image_count {
            return;
        }
        if image_count <= 1 {
            self.remove_image_set(set_index);
            return;
        }
        remove_from_set(&mut self.histogram_sets, set_index, image_index);
        if set_index < self.thumbnail_sets.len() && image_index < self.thumbnail_sets[set_index].len() {
            remove_from_set(&mut self.thumbnail_sets, set_index, image_index);
        }
        if self.selected_idx.0 == set_index && self.selected_idx.1 > image_index {
            self.selected_idx.1 = self.selected_idx.1 - 1;
        }
    }

    /// One frame of the list's panel.  A click on a thumbnail selects that
    /// image; then, where changes are enabled, a clicked remove button removes
    /// its image, or its whole set where it is a set's button.  The add button,
    /// also enabled with changes, hands the picked files to the caller, who
    /// adds them; the working directory then moves to the folder of the first
    /// file picked (`first_picked`).  Returns whether the list changed (or is
    /// about to, by an addition).  Clicks that name no image are passed over.
    pub fn draw(
        &mut self,
        enable_changes: bool,
        files_picked: bool,
        thumbnail_clicked: Option<(usize, usize)>,
        remove_clicked: Option<(usize, Option<usize>)>,
        working_dir: &mut String,
        first_picked: Option<&str>,
    ) -> (changed: bool)
        ensures
            final(working_dir)@ == if enable_changes && files_picked {
                dir_after_pick(
                    old(working_dir)@,
                    match first_picked {
                        Some(p) => Some(p@),
                        None => None,
                    },
                )
            } else {
                old(working_dir)@
            },
            final(self).multiple_sets == old(self).multiple_sets,
            changed == (enable_changes && (files_picked || remove_clicked is Some)),
            ({
                let hs = sets_view(old(self).histogram_sets@);
                let ts = sets_view(old(self).thumbnail_sets@);
                let sel = match thumbnail_clicked {
                    Some((k, i)) if k < ts.len() && i < ts[k as int].len() => (k, i),
                    _ => old(self).selected_idx,
                };
                let hs2 = sets_view(final(self).histogram_sets@);
                let ts2 = sets_view(final(self).thumbnail_sets@);
                let sel2 = final(self).selected_idx;
                match remove_clicked {
                    Some((k, Some(i))) if enable_changes => image_removed(
                        hs,
                        ts,
                        sel,
                        k,
                        i,
                        hs2,
                        ts2,
                        sel2,
                    ),
                    Some((k, None)) if enable_changes => set_removed(hs, ts, sel, k, hs2, ts2, sel2),
                    _ => hs2 == hs && ts2 == ts && sel2 == sel,
                }
            }),
    {
        match thumbnail_clicked {
            Some((k, i)) => {
                if k < self.thumbnail_sets.len() && i < self.thumbnail_sets[k].len() {
                    self.selected_idx = (k, i);
                }
            },
            None => {},
        }
        let mut changed = enable_changes && files_picked;
        if changed {
            follow_picked_file(working_dir, first_picked);
        }
        if enable_changes {
            match remove_clicked {
                Some((k, Some(i))) => {
                    self.remove_image(k, i);
                    changed = true;
                },
                Some((k, None)) => {
                    self.remove_image_set(k);
                    changed = true;
                },
                None => {},
            }
        }
        changed
    }
}

pub proof fn lemma_total_prefix<A>(sets: Seq<Seq<A>>, k: int)
    requires
        0 <= k <= sets.len(),
    ensures
        image_total(sets.take(k)) <= image_total(sets),
    decreases sets.len() - k,
{
    if k < sets.len() {
        lemma_total_prefix(sets, k + 1);
        assert(sets.take(k + 1).drop_last() =~= sets.take(k));
    } else {
        assert(sets.take(k) =~= sets);
    }
}

/// Removing an image or a set from two parallel lists leaves them parallel.
pub proof fn lemma_removals_keep_parallel<A, B>(a: Seq<Seq<A>>, b: Seq<Seq<B>>, k: nat, i: nat)
    requires
        parallel(a, b),
    ensures
        parallel(without_set(a, k), without_set(b, k)),
        parallel(without_image(a, k, i), without_image(b, k, i)),
{
    let sa = without_set(a, k);
    let sb = without_set(b, k);
    assert forall|j: int| 0 <= j < sa.len() implies #[trigger] sa[j].len() == sb[j].len() by {
        if k < a.len() {
            if j < k {
                assert(sa[j] == a[j] && sb[j] == b[j]);
            } else {
                assert(sa[j] == a[j + 1] && sb[j] == b[j + 1]);
            }
        }
    }
    let ia = without_image(a, k, i);
    let ib = without_image(b, k, i);
    assert forall|j: int| 0 <= j < ia.len() implies #[trigger] ia[j].len() == ib[j].len() by {
        if j != k {
            assert(ia[j] == a[j] && ib[j] == b[j]);
        }
    }
}

/// Removing an image that is not there changes nothing.  Removing one from a
/// set that keeps other images leaves every other set as it was, takes
/// exactly that image out of its set, and keeps the selection on the image
/// it named, in both lists, where that was not the removed image; where it
/// was, the selection keeps its place.
pub proof fn lemma_image_removal_keeps_selected_image<H, T>(
    hs: Seq<Seq<H>>,
    ts: Seq<Seq<T>>,
    sel: (usize, usize),
    k: usize,
    i: usize,
    hs2: Seq<Seq<H>>,
    ts2: Seq<Seq<T>>,
    sel2: (usize, usize),
)
    requires
        parallel(hs, ts),
        image_removed(hs, ts, sel, k, i, hs2, ts2, sel2),
    ensures
        k >= hs.len() || i >= hs[k as int].len() ==> hs2 == hs && ts2 == ts && sel2 == sel,
        k < hs.len() && i < hs[k as int].len() && hs[k as int].len() > 1 ==> image_removal_effects(
            hs,
            ts,
            sel,
            k,
            i,
            hs2,
            ts2,
            sel2,
        ),
{
}

/// What removing image `i` of set `k`, which keeps other images, leaves:
/// the other sets as they were, set `k` without its image `i`, and the
/// selection on the image it named.
pub open spec fn image_removal_effects<H, T>(
    hs: Seq<Seq<H>>,
    ts: Seq<Seq<T>>,
    sel: (usize, usize),
    k: usize,
    i: usize,
    hs2: Seq<Seq<H>>,
    ts2: Seq<Seq<T>>,
    sel2: (usize, usize),
) -> bool {
    &&& ts2.len() == ts.len()
    &&& forall|j: int| 0 <= j < ts.len() && j != k ==> #[trigger] ts2[j] == ts[j] && hs2[j] == hs[j]
    &&& ts2[k as int].len() + 1 == ts[k as int].len()
    &&& forall|m: int| 0 <= m < i ==> #[trigger] ts2[k as int][m] == ts[k as int][m]
    &&& forall|m: int| i < m < ts[k as int].len() ==> #[trigger] ts2[k as int][m - 1] == ts[k as int][m]
    &&& (sel.0 < ts.len() && sel.1 < ts[sel.0 as int].len() && sel != (k, i) ==> {
        &&& sel2.0 < ts2.len()
        &&& sel2.1 < ts2[sel2.0 as int].len()
        &&& ts2[sel2.0 as int][sel2.1 as int] == ts[sel.0 as int][sel.1 as int]
        &&& hs2[sel2.0 as int][sel2.1 as int] == hs[sel.0 as int][sel.1 as int]
    })
    &&& (sel == (k, i) ==> sel2 == sel)
}

/// Removing a set other than the selected one keeps the selection on the
/// image it named, in both lists; removing the selected set selects the
/// first image of the set that takes its place.
pub proof fn lemma_set_removal_keeps_selected_image<H, T>(
    hs: Seq<Seq<H>>,
    ts: Seq<Seq<T>>,
    sel: (usize, usize),
    k: usize,
    hs2: Seq<Seq<H>>,
    ts2: Seq<Seq<T>>,
    sel2: (usize, usize),
)
    requires
        parallel(hs, ts),
        k < ts.len(),
        sel.0 < ts.len(),
        sel.1 < ts[sel.0 as int].len(),
        set_removed(hs, ts, sel, k, hs2, ts2, sel2),
    ensures
        ts2.len() + 1 == ts.len(),
        sel.0 != k ==> {
            &&& sel2.0 < ts2.len()
            &&& sel2.1 < ts2[sel2.0 as int].len()
            &&& ts2[sel2.0 as int][sel2.1 as int] == ts[sel.0 as int][sel.1 as int]
            &&& hs2[sel2.0 as int][sel2.1 as int] == hs[sel.0 as int][sel.1 as int]
        },
        sel.0 == k ==> sel2 == (k, 0usize),
{
}

} // verus!
