//! Histograms of 8- and 16-bit channel values.
use vstd::prelude::*;

verus! {

/// How many of `s` equal `v`.
pub open spec fn count(s: Seq<int>, v: int) -> nat
    decreases s.len(),
{
    if s.len() == 0 {
        0
    } else {
        count(s.drop_last(), v) + if s.last() == v {
            1nat
        } else {
            0nat
        }
    }
}

/// The sum of `s`.
pub open spec fn sum(s: Seq<usize>) -> nat
    decreases s.len(),
{
    if s.len() == 0 {
        0
    } else {
        sum(s.drop_last()) + s.last() as nat
    }
}

/// A histogram of `values` with one bucket for each of `0 .. n`.
pub open spec fn is_histogram_of(buckets: Seq<usize>, values: Seq<int>, n: nat) -> bool {
    &&& buckets.len() == n
    &&& forall|b: int| 0 <= b < n ==> buckets[b] == count(values, b)
}

/// How many samples fell in each bucket, and how many samples there were.
#[derive(Debug)]
pub struct Histogram {
    pub total_samples: usize,
    pub buckets: Vec<usize>,
}

pub proof fn lemma_count_le(s: Seq<int>, v: int)
    ensures
        count(s, v) <= s.len(),
    decreases s.len(),
{
    if s.len() > 0 {
        lemma_count_le(s.drop_last(), v);
    }
}

/// Adding one to an entry adds one to the sum.
pub proof fn lemma_sum_increment(s: Seq<usize>, k: int)
    requires
        0 <= k < s.len(),
        s[k] < usize::MAX,
    ensures
        sum(s.update(k, (s[k] + 1) as usize)) == sum(s) + 1,
    decreases s.len(),
{
    let t = s.update(k, (s[k] + 1) as usize);
    if k == s.len() - 1 {
        assert(t.drop_last() =~= s.drop_last());
    } else {
        assert(t.drop_last() =~= s.drop_last().update(k, (s[k] + 1) as usize));
        lemma_sum_increment(s.drop_last(), k);
    }
}

/// Counting one more value.
pub proof fn lemma_count_push(s: Seq<int>, x: int, v: int)
    ensures
        count(s.push(x), v) == count(s, v) + if x == v {
            1nat
        } else {
            0nat
        },
{
    assert(s.push(x).drop_last() =~= s);
}

/// Builds the histogram of `values`, which all lie in `0 .. n`.
fn histogram_of(values: &Vec<usize>, n: usize) -> (h: Histogram)
    requires
        forall|i: int| 0 <= i < values@.len() ==> values@[i] < n,
    ensures
        is_histogram_of(h.buckets@, values@.map_values(|x: usize| x as int), n as nat),
        h.total_samples == values@.len(),
        sum(h.buckets@) == h.total_samples,
{
    let ghost vals = values@.map_values(|x: usize| x as int);
    let mut buckets: Vec<usize> = vec![0; n];
    proof {
        assert forall|b: int| 0 <= b < n implies buckets@[b] == count(vals.take(0), b) by {
            assert(vals.take(0) =~= Seq::<int>::empty());
        }
        lemma_sum_zero(buckets@);
    }
    let mut total: usize = 0;
    let mut i: usize = 0;
    while i < values.len()
        invariant
            i <= values@.len(),
            vals == values@.map_values(|x: usize| x as int),
            forall|j: int| 0 <= j < values@.len() ==> values@[j] < n,
            buckets@.len() == n,
            forall|b: int| 0 <= b < n ==> buckets@[b] == count(vals.take(i as int), b),
            total == i,
            sum(buckets@) == total,
        decreases values@.len() - i,
    {
        let v = values[i];
        proof {
            assert(vals.take(i + 1) =~= vals.take(i as int).push(v as int));
            lemma_count_le(vals.take(i as int), v as int);
            assert(buckets@[v as int] <= i);
            assert forall|b: int| 0 <= b < n implies count(vals.take(i + 1), b) == count(
                vals.take(i as int),
                b,
            ) + if b == v {
                1nat
            } else {
                0nat
            } by {
                lemma_count_push(vals.take(i as int), v as int, b);
            }
            lemma_sum_increment(buckets@, v as int);
        }
        buckets.set(v, buckets[v] + 1);
        total += 1;
        i += 1;
    }
    proof {
        assert(vals.take(values@.len() as int) =~= vals);
    }
    Histogram { total_samples: total, buckets }
}

pub proof fn lemma_sum_zero(s: Seq<usize>)
    requires
        forall|i: int| 0 <= i < s.len() ==> s[i] == 0,
    ensures
        sum(s) == 0,
    decreases s.len(),
{
    if s.len() > 0 {
        lemma_sum_zero(s.drop_last());
    }
}

impl Histogram {
    /// The histogram of 8-bit values: 256 buckets, one for each value.  The
    /// buckets add up to the number of samples.
    pub fn from_u8s(values: &[u8]) -> (h: Histogram)
        ensures
            is_histogram_of(h.buckets@, values@.map_values(|x: u8| x as int), 256),
            h.total_samples == values@.len(),
            sum(h.buckets@) == h.total_samples,
    {
        let mut wide: Vec<usize> = Vec::new();
        let mut i: usize = 0;
        while i < values.len()
            invariant
                i <= values@.len(),
                wide@.len() == i,
                forall|j: int| 0 <= j < i ==> wide@[j] == values@[j] as usize && wide@[j] < 256,
            decreases values@.len() - i,
        {
            wide.push(values[i] as usize);
            i += 1;
        }
        let h = histogram_of(&wide, 256);
        proof {
            assert(wide@.map_values(|x: usize| x as int) =~= values@.map_values(|x: u8| x as int));
        }
        h
    }

    /// The histogram of 16-bit values: 65536 buckets, one for each value.  The
    /// buckets add up to the number of samples.
    pub fn from_u16s(values: &[u16]) -> (h: Histogram)
        ensures
            is_histogram_of(h.buckets@, values@.map_values(|x: u16| x as int), 65536),
            h.total_samples == values@.len(),
            sum(h.buckets@) == h.total_samples,
    {
        let mut wide: Vec<usize> = Vec::new();
        let mut i: usize = 0;
        while i < values.len()
            invariant
                i <= values@.len(),
                wide@.len() == i,
                forall|j: int| 0 <= j < i ==> wide@[j] == values@[j] as usize && wide@[j] < 65536,
            decreases values@.len() - i,
        {
            wide.push(values[i] as usize);
            i += 1;
        }
        let h = histogram_of(&wide, 65536);
        proof {
            assert(wide@.map_values(|x: usize| x as int) =~= values@.map_values(|x: u16| x as int));
        }
        h
    }
}

} // verus!
