//! Character-level text handling shared by the configuration reader and writer:
//! whitespace, trimming, line splitting and the conversions between `str`,
//! `String` and character vectors.
use vstd::prelude::*;

verus! {

/// Unicode `White_Space`, which is what `char::is_whitespace` tests.
pub open spec fn is_ws(c: char) -> bool {
    let n = c as u32;
    ||| 0x09 <= n <= 0x0D
    ||| n == 0x20
    ||| n == 0x85
    ||| n == 0xA0
    ||| n == 0x1680
    ||| 0x2000 <= n <= 0x200A
    ||| n == 0x2028
    ||| n == 0x2029
    ||| n == 0x202F
    ||| n == 0x205F
    ||| n == 0x3000
}

/// Number of whitespace characters at the start of `s`.
pub open spec fn lead_ws(s: Seq<char>) -> nat
    decreases s.len(),
{
    if s.len() > 0 && is_ws(s[0]) {
        1 + lead_ws(s.drop_first())
    } else {
        0
    }
}

/// Number of whitespace characters at the end of `s`.
pub open spec fn trail_ws(s: Seq<char>) -> nat
    decreases s.len(),
{
    if s.len() > 0 && is_ws(s.last()) {
        1 + trail_ws(s.drop_last())
    } else {
        0
    }
}

pub open spec fn trim_start(s: Seq<char>) -> Seq<char> {
    s.skip(lead_ws(s) as int)
}

pub open spec fn trim_end(s: Seq<char>) -> Seq<char> {
    s.take(s.len() - trail_ws(s))
}

/// What `str::trim` returns: `s` without its leading and trailing whitespace.
pub open spec fn trim(s: Seq<char>) -> Seq<char> {
    trim_end(trim_start(s))
}

/// `p` is a prefix of `s`.
pub open spec fn starts_with(s: Seq<char>, p: Seq<char>) -> bool {
    p.len() <= s.len() && s.take(p.len() as int) == p
}

/// Index of the first `c` in `s`.
pub open spec fn find(s: Seq<char>, c: char) -> Option<nat>
    decreases s.len(),
{
    if s.len() == 0 {
        None
    } else if s[0] == c {
        Some(0)
    } else {
        match find(s.drop_first(), c) {
            Some(k) => Some(k + 1),
            None => None,
        }
    }
}

/// What `str::split_once` with a one-character pattern returns.
pub open spec fn split_once(s: Seq<char>, c: char) -> Option<(Seq<char>, Seq<char>)> {
    match find(s, c) {
        Some(k) => Some((s.take(k as int), s.skip(k + 1 as int))),
        None => None,
    }
}

/// The pieces of `s` between its `'\n'` characters (one more than there are newlines).
pub open spec fn split_nl(s: Seq<char>) -> Seq<Seq<char>>
    decreases s.len(),
{
    if s.len() == 0 {
        seq![Seq::<char>::empty()]
    } else {
        let p = split_nl(s.drop_last());
        if s.last() == '\n' {
            p.push(Seq::<char>::empty())
        } else {
            p.update(p.len() - 1, p.last().push(s.last()))
        }
    }
}

pub open spec fn strip_cr(l: Seq<char>) -> Seq<char> {
    if l.len() > 0 && l.last() == '\r' {
        l.drop_last()
    } else {
        l
    }
}

/// What `str::lines` yields: the text split at `"\n"` or `"\r\n"`, where a final
/// line ending adds no empty line.
pub open spec fn lines(s: Seq<char>) -> Seq<Seq<char>> {
    let p = split_nl(s);
    let body = p.drop_last().map_values(|l: Seq<char>| strip_cr(l));
    if p.last().len() == 0 {
        body
    } else {
        body.push(p.last())
    }
}

/// The text made of each of `ls` followed by a newline.
pub open spec fn join_lines(ls: Seq<Seq<char>>) -> Seq<char>
    decreases ls.len(),
{
    if ls.len() == 0 {
        Seq::<char>::empty()
    } else {
        join_lines(ls.drop_last()) + ls.last() + seq!['\n']
    }
}

pub open spec fn no_newline(s: Seq<char>) -> bool {
    forall|i: int| 0 <= i < s.len() ==> s[i] != '\n'
}

pub proof fn lemma_split_nl_len(s: Seq<char>)
    ensures
        split_nl(s).len() >= 1,
    decreases s.len(),
{
    if s.len() > 0 {
        lemma_split_nl_len(s.drop_last());
    }
}

/// Appending text without a newline extends the last piece.
pub proof fn lemma_split_nl_append_plain(s: Seq<char>, t: Seq<char>)
    requires
        no_newline(t),
    ensures
        split_nl(s + t) == split_nl(s).update(
            split_nl(s).len() - 1,
            split_nl(s).last() + t,
        ),
    decreases t.len(),
{
    lemma_split_nl_len(s);
    if t.len() == 0 {
        assert(s + t =~= s);
        assert(split_nl(s).last() + t =~= split_nl(s).last());
        assert(split_nl(s).update(split_nl(s).len() - 1, split_nl(s).last()) =~= split_nl(s));
    } else {
        let t0 = t.drop_last();
        assert((s + t).drop_last() =~= s + t0);
        assert((s + t).last() == t.last());
        lemma_split_nl_append_plain(s, t0);
        assert(split_nl(s).last() + t0 + seq![t.last()] =~= split_nl(s).last() + t);
        lemma_split_nl_len(s + t0);
        assert(t.last() != '\n') by {
            assert(t.last() == t[t.len() - 1]);
        }
        let p = split_nl(s + t0);
        let l0 = split_nl(s).last();
        assert(p.len() == split_nl(s).len());
        assert(p.last() == l0 + t0);
        assert(split_nl(s + t) == p.update(p.len() - 1, p.last().push(t.last())));
        assert((l0 + t0).push(t.last()) =~= l0 + t);
        assert(split_nl(s + t) =~= split_nl(s).update(
            split_nl(s).len() - 1,
            split_nl(s).last() + t,
        ));
    }
}

/// The pieces of a text made of newline-terminated lines.
pub proof fn lemma_split_nl_join(ls: Seq<Seq<char>>)
    requires
        forall|i: int| 0 <= i < ls.len() ==> no_newline(#[trigger] ls[i]),
    ensures
        split_nl(join_lines(ls)) == ls.push(Seq::<char>::empty()),
    decreases ls.len(),
{
    if ls.len() == 0 {
        assert(split_nl(Seq::<char>::empty()) =~= seq![Seq::<char>::empty()]);
        assert(ls.push(Seq::<char>::empty()) =~= seq![Seq::<char>::empty()]);
    } else {
        let init = ls.drop_last();
        assert forall|i: int| 0 <= i < init.len() implies no_newline(#[trigger] init[i]) by {
            assert(init[i] == ls[i]);
        }
        lemma_split_nl_join(init);
        let a = join_lines(init);
        let l = ls.last();
        assert(no_newline(l)) by {
            assert(l == ls[ls.len() - 1]);
        }
        lemma_split_nl_append_plain(a, l);
        let b = a + l;
        assert(join_lines(ls) == b + seq!['\n']);
        assert((b + seq!['\n']).drop_last() =~= b);
        assert(split_nl(a).last() =~= Seq::<char>::empty());
        assert(Seq::<char>::empty() + l =~= l);
        assert(split_nl(b) =~= init.push(l));
        assert(init.push(l) =~= ls);
        assert(split_nl(b + seq!['\n']) =~= ls.push(Seq::<char>::empty()));
    }
}

/// Splitting newline-terminated lines into lines gives them back, where none
/// of them ends in a carriage return.
pub proof fn lemma_lines_join(ls: Seq<Seq<char>>)
    requires
        forall|i: int| 0 <= i < ls.len() ==> no_newline(#[trigger] ls[i]),
        forall|i: int| 0 <= i < ls.len() ==> strip_cr(#[trigger] ls[i]) == ls[i],
    ensures
        lines(join_lines(ls)) == ls,
{
    lemma_split_nl_join(ls);
    let p = split_nl(join_lines(ls));
    assert(p.drop_last() =~= ls);
    assert(p.last() =~= Seq::<char>::empty());
    assert(ls.map_values(|l: Seq<char>| strip_cr(l)) =~= ls);
}

//------------------------------------------------------------------------
// Whitespace trimming.

pub proof fn lemma_lead_ws_bound(s: Seq<char>)
    ensures
        lead_ws(s) <= s.len(),
        forall|j: int| 0 <= j < lead_ws(s) ==> is_ws(#[trigger] s[j]),
        lead_ws(s) < s.len() ==> !is_ws(s[lead_ws(s) as int]),
    decreases s.len(),
{
    if s.len() > 0 && is_ws(s[0]) {
        lemma_lead_ws_bound(s.drop_first());
        assert forall|j: int| 0 <= j < lead_ws(s) implies is_ws(#[trigger] s[j]) by {
            if j > 0 {
                assert(s[j] == s.drop_first()[j - 1]);
            }
        }
    }
}

/// The leading whitespace count is the first index holding no whitespace.
pub proof fn lemma_lead_ws_unique(s: Seq<char>, k: nat)
    requires
        k <= s.len(),
        forall|j: int| 0 <= j < k ==> is_ws(#[trigger] s[j]),
        k < s.len() ==> !is_ws(s[k as int]),
    ensures
        lead_ws(s) == k,
    decreases k,
{
    if k > 0 {
        let t = s.drop_first();
        assert forall|j: int| 0 <= j < k - 1 implies is_ws(#[trigger] t[j]) by {
            assert(t[j] == s[j + 1]);
        }
        if (k - 1) < t.len() {
            assert(t[k - 1] == s[k as int]);
        }
        assert(is_ws(s[0]));
        lemma_lead_ws_unique(t, (k - 1) as nat);
    }
}

pub proof fn lemma_trail_ws_bound(s: Seq<char>)
    ensures
        trail_ws(s) <= s.len(),
        forall|j: int| s.len() - trail_ws(s) <= j < s.len() ==> is_ws(#[trigger] s[j]),
        trail_ws(s) < s.len() ==> !is_ws(s[s.len() - trail_ws(s) - 1]),
    decreases s.len(),
{
    if s.len() > 0 && is_ws(s.last()) {
        let t = s.drop_last();
        lemma_trail_ws_bound(t);
        assert forall|j: int| s.len() - trail_ws(s) <= j < s.len() implies is_ws(#[trigger] s[j]) by {
            if j < s.len() - 1 {
                assert(s[j] == t[j]);
            }
        }
        if trail_ws(s) < s.len() {
            assert(s[s.len() - trail_ws(s) - 1] == t[t.len() - trail_ws(t) - 1]);
        }
    }
}

/// The trailing whitespace count is fixed by the last index holding no whitespace.
pub proof fn lemma_trail_ws_unique(s: Seq<char>, k: nat)
    requires
        k <= s.len(),
        forall|j: int| s.len() - k <= j < s.len() ==> is_ws(#[trigger] s[j]),
        k < s.len() ==> !is_ws(s[s.len() - k - 1]),
    ensures
        trail_ws(s) == k,
    decreases k,
{
    if k > 0 {
        let t = s.drop_last();
        assert forall|j: int| t.len() - (k - 1) <= j < t.len() implies is_ws(#[trigger] t[j]) by {
            assert(t[j] == s[j]);
        }
        if (k - 1) < t.len() {
            assert(t[t.len() - (k - 1) - 1] == s[s.len() - k - 1]);
        }
        assert(is_ws(s[s.len() - 1]));
        lemma_trail_ws_unique(t, (k - 1) as nat);
    }
}

/// `trim(s)` is the stretch of `s` between the first and the last character that
/// is not whitespace.
pub proof fn lemma_trim_bounds(s: Seq<char>, lo: nat, hi: nat)
    requires
        lo <= hi <= s.len(),
        forall|j: int| 0 <= j < lo ==> is_ws(#[trigger] s[j]),
        lo < s.len() ==> !is_ws(s[lo as int]),
        forall|j: int| hi <= j < s.len() ==> is_ws(#[trigger] s[j]),
        hi > lo ==> !is_ws(s[hi - 1]),
        lo == hi ==> lo == s.len(),
    ensures
        trim(s) == s.subrange(lo as int, hi as int),
{
    lemma_lead_ws_unique(s, lo);
    let t = s.skip(lo as int);
    assert forall|j: int| t.len() - (s.len() - hi) <= j < t.len() implies is_ws(#[trigger] t[j]) by {
        assert(t[j] == s[j + lo]);
    }
    if (s.len() - hi) < t.len() {
        assert(t[t.len() - (s.len() - hi) - 1] == s[hi - 1]);
    }
    lemma_trail_ws_unique(t, (s.len() - hi) as nat);
    assert(trim(s) =~= s.subrange(lo as int, hi as int));
}

/// Text with neither leading nor trailing whitespace is its own trim.
pub proof fn lemma_trim_fixed(s: Seq<char>)
    requires
        s.len() > 0 ==> !is_ws(s[0]) && !is_ws(s.last()),
    ensures
        trim(s) == s,
{
    lemma_trim_bounds(s, 0, s.len());
    assert(s.subrange(0, s.len() as int) =~= s);
}


/// The trimmed text begins and ends with something other than whitespace, and
/// keeps no character the text did not have.
pub proof fn lemma_trim_shape(s: Seq<char>)
    ensures
        trim(s).len() > 0 ==> !is_ws(trim(s)[0]) && !is_ws(trim(s).last()),
        no_newline(s) ==> no_newline(trim(s)),
        trim(trim(s)) == trim(s),
{
    lemma_lead_ws_bound(s);
    let lo = lead_ws(s);
    let t = s.skip(lo as int);
    lemma_trail_ws_bound(t);
    let hi = lo + t.len() - trail_ws(t);
    assert forall|j: int| hi <= j < s.len() implies is_ws(#[trigger] s[j]) by {
        assert(s[j] == t[j - lo]);
    }
    if hi > lo {
        assert(s[hi - 1] == t[t.len() - trail_ws(t) - 1]);
    } else if lo < s.len() {
        assert(!is_ws(s[lo as int]));
        assert(t[0] == s[lo as int]);
        assert(false);
    }
    lemma_trim_bounds(s, lo, hi as nat);
    let r = trim(s);
    if r.len() > 0 {
        assert(r[0] == s[lo as int]);
        assert(r.last() == s[hi - 1]);
    }
    if no_newline(s) {
        assert forall|i: int| 0 <= i < r.len() implies r[i] != '\n' by {
            assert(r[i] == s[lo + i]);
        }
    }
    lemma_trim_fixed(r);
}

/// Trimming whitespace off `pre + s + post`, where `s` begins and ends with
/// something other than whitespace, leaves `s`.
pub proof fn lemma_trim_padded(pre: Seq<char>, s: Seq<char>, post: Seq<char>)
    requires
        forall|i: int| 0 <= i < pre.len() ==> is_ws(#[trigger] pre[i]),
        forall|i: int| 0 <= i < post.len() ==> is_ws(#[trigger] post[i]),
        s.len() > 0 ==> !is_ws(s[0]) && !is_ws(s.last()),
    ensures
        trim(pre + s + post) == s,
{
    let x = pre + s + post;
    if s.len() > 0 {
        lemma_trim_bounds(x, pre.len(), pre.len() + s.len());
    } else {
        assert forall|j: int| 0 <= j < x.len() implies is_ws(#[trigger] x[j]) by {
            if j < pre.len() {
                assert(x[j] == pre[j]);
            } else {
                assert(x[j] == post[j - pre.len()]);
            }
        }
        lemma_trim_bounds(x, x.len(), x.len());
    }
    assert(x.subrange(pre.len() as int, (pre.len() + s.len()) as int) =~= s);
}

/// The first `c` of `s` is where `find` says; where it finds none, there is
/// none.
pub proof fn lemma_find_spec(s: Seq<char>, c: char)
    ensures
        match find(s, c) {
            Some(k) => k < s.len() && s[k as int] == c && forall|j: int| 0 <= j < k ==> s[j] != c,
            None => forall|j: int| 0 <= j < s.len() ==> s[j] != c,
        },
    decreases s.len(),
{
    if s.len() > 0 && s[0] != c {
        let t = s.drop_first();
        lemma_find_spec(t, c);
        match find(t, c) {
            Some(k) => {
                assert forall|j: int| 0 <= j < k + 1 implies s[j] != c by {
                    if j > 0 {
                        assert(s[j] == t[j - 1]);
                    }
                }
            },
            None => {
                assert forall|j: int| 0 <= j < s.len() implies s[j] != c by {
                    if j > 0 {
                        assert(s[j] == t[j - 1]);
                    }
                }
            },
        }
    }
}

/// What `trim` keeps of `s` lies from `lo` to `hi`, with only whitespace
/// outside.
pub proof fn lemma_trim_range(s: Seq<char>) -> (r: (nat, nat))
    ensures
        r.0 <= r.1 <= s.len(),
        trim(s) == s.subrange(r.0 as int, r.1 as int),
        forall|j: int| 0 <= j < r.0 ==> is_ws(#[trigger] s[j]),
        forall|j: int| r.1 <= j < s.len() ==> is_ws(#[trigger] s[j]),
{
    lemma_lead_ws_bound(s);
    let lo = lead_ws(s);
    let t = s.skip(lo as int);
    lemma_trail_ws_bound(t);
    let hi = lo + t.len() - trail_ws(t);
    assert forall|j: int| hi <= j < s.len() implies is_ws(#[trigger] s[j]) by {
        assert(s[j] == t[j - lo]);
    }
    assert(trim(s) =~= s.subrange(lo as int, hi as int));
    (lo, hi as nat)
}

/// Whitespace around `x` changes nothing of what `trim` keeps.
pub proof fn lemma_trim_pad(pre: Seq<char>, x: Seq<char>, post: Seq<char>)
    requires
        forall|i: int| 0 <= i < pre.len() ==> is_ws(#[trigger] pre[i]),
        forall|i: int| 0 <= i < post.len() ==> is_ws(#[trigger] post[i]),
    ensures
        trim(pre + x + post) == trim(x),
{
    let (lo, hi) = lemma_trim_range(x);
    lemma_trim_shape(x);
    let y = trim(x);
    let p1 = pre + x.subrange(0, lo as int);
    let p2 = x.subrange(hi as int, x.len() as int) + post;
    assert forall|i: int| 0 <= i < p1.len() implies is_ws(#[trigger] p1[i]) by {
        if i >= pre.len() {
            assert(p1[i] == x[i - pre.len()]);
        }
    }
    assert forall|i: int| 0 <= i < p2.len() implies is_ws(#[trigger] p2[i]) by {
        if i < x.len() - hi {
            assert(p2[i] == x[hi + i]);
        } else {
            assert(p2[i] == post[i - (x.len() - hi)]);
        }
    }
    assert(pre + x + post =~= p1 + y + p2);
    lemma_trim_padded(p1, y, p2);
}

/// Splitting a trimmed line at a character that is not whitespace gives the
/// parts that splitting the line gives, up to whitespace at their ends.
pub proof fn lemma_split_once_trim(l: Seq<char>, c: char)
    requires
        !is_ws(c),
    ensures
        match split_once(l, c) {
            Some((k, v)) => match split_once(trim(l), c) {
                Some((k2, v2)) => trim(k2) == trim(k) && trim(v2) == trim(v),
                None => false,
            },
            None => split_once(trim(l), c) is None,
        },
{
    let (lo, hi) = lemma_trim_range(l);
    let t = trim(l);
    lemma_find_spec(l, c);
    match find(l, c) {
        Some(k) => {
            assert(lo <= k) by {
                if k < lo {
                    assert(is_ws(l[k as int]));
                }
            }
            assert(k < hi) by {
                if k >= hi {
                    assert(is_ws(l[k as int]));
                }
            }
            let m = (k - lo) as nat;
            assert(t[m as int] == c);
            assert forall|j: int| 0 <= j < m implies t[j] != c by {
                assert(t[j] == l[lo + j]);
            }
            lemma_find_at(t, c, m);
            let k2 = t.take(m as int);
            let v2 = t.skip(m + 1 as int);
            let pre = l.subrange(0, lo as int);
            let post = l.subrange(hi as int, l.len() as int);
            assert(l.take(k as int) =~= pre + k2 + Seq::<char>::empty());
            lemma_trim_pad(pre, k2, Seq::<char>::empty());
            assert(l.skip(k + 1 as int) =~= Seq::<char>::empty() + v2 + post);
            lemma_trim_pad(Seq::<char>::empty(), v2, post);
        },
        None => {
            assert forall|j: int| 0 <= j < t.len() implies t[j] != c by {
                assert(t[j] == l[lo + j]);
            }
            lemma_find_none(t, c);
        },
    }
}

//------------------------------------------------------------------------
// Executable helpers.

/// Whether `c` is Unicode whitespace; this is `char::is_whitespace`.
pub fn is_whitespace(c: char) -> (b: bool)
    ensures
        b == is_ws(c),
{
    let n = c as u32;
    (0x09 <= n && n <= 0x0D) || n == 0x20 || n == 0x85 || n == 0xA0 || n == 0x1680 || (0x2000
        <= n && n <= 0x200A) || n == 0x2028 || n == 0x2029 || n == 0x202F || n == 0x205F || n
        == 0x3000
}

/// The characters of `s`, in order.
pub fn chars_of(s: &str) -> (v: Vec<char>)
    ensures
        v@ == s@,
{
    let mut v: Vec<char> = Vec::new();
    for c in it: s.chars()
        invariant
            v@ == it.seq().take(it.index() as int),
            it.seq() == s@,
    {
        v.push(c);
    }
    v
}

/// A `String` holding the characters of `v`.
///
/// Calls std's `String::from_iter`; what is believed of it is that the string
/// it collects holds exactly the given characters, in order.
#[verifier::external_body]
pub(crate) fn string_from_chars(v: &[char]) -> (s: String)
    ensures
        s@ == v@,
{
    String::from_iter(v.iter())
}

/// Appends the characters of `s` to `out`.
pub fn append_chars(out: &mut Vec<char>, s: &[char])
    ensures
        final(out)@ == old(out)@ + s@,
{
    let ghost start = out@;
    let mut i: usize = 0;
    while i < s.len()
        invariant
            i <= s@.len(),
            out@ == start + s@.take(i as int),
        decreases s@.len() - i,
    {
        out.push(s[i]);
        i += 1;
        proof {
            assert(s@.take(i as int) =~= s@.take(i - 1).push(s@[i - 1]));
        }
    }
    assert(s@.take(s@.len() as int) =~= s@);
}

/// Appends the characters of `s` to `out`.
pub fn append_str(out: &mut Vec<char>, s: &str)
    ensures
        final(out)@ == old(out)@ + s@,
{
    let v = chars_of(s);
    append_chars(out, &v);
}

/// The characters of `v` from `lo` up to `hi`.
pub fn sub_chars(v: &[char], lo: usize, hi: usize) -> (r: Vec<char>)
    requires
        lo <= hi <= v@.len(),
    ensures
        r@ == v@.subrange(lo as int, hi as int),
{
    let mut r: Vec<char> = Vec::new();
    let mut i = lo;
    while i < hi
        invariant
            lo <= i <= hi <= v@.len(),
            r@ == v@.subrange(lo as int, i as int),
        decreases hi - i,
    {
        r.push(v[i]);
        i += 1;
    }
    r
}

/// The characters of `v` without leading and trailing whitespace; this is `str::trim`.
pub fn trim_chars(v: &[char]) -> (r: Vec<char>)
    ensures
        r@ == trim(v@),
{
    let n = v.len();
    let mut lo: usize = 0;
    while lo < n && is_whitespace(v[lo])
        invariant
            lo <= n == v@.len(),
            forall|j: int| 0 <= j < lo ==> is_ws(#[trigger] v@[j]),
        decreases n - lo,
    {
        lo += 1;
    }
    let mut hi: usize = n;
    while hi > lo && is_whitespace(v[hi - 1])
        invariant
            lo <= hi <= n == v@.len(),
            forall|j: int| hi <= j < n ==> is_ws(#[trigger] v@[j]),
        decreases hi,
    {
        hi -= 1;
    }
    proof {
        if lo == hi && lo < n {
            assert(!is_ws(v@[lo as int]));
            assert(false);
        }
        lemma_trim_bounds(v@, lo as nat, hi as nat);
    }
    sub_chars(v, lo, hi)
}

/// Whether `v` holds the same characters as `lit`.
pub fn eq_str(v: &[char], lit: &str) -> (b: bool)
    ensures
        b == (v@ == lit@),
{
    let w = chars_of(lit);
    if v.len() != w.len() {
        return false;
    }
    let mut i: usize = 0;
    while i < v.len()
        invariant
            v@.len() == w@.len(),
            w@ == lit@,
            i <= v@.len(),
            forall|j: int| 0 <= j < i ==> v@[j] == w@[j],
        decreases v@.len() - i,
    {
        if v[i] != w[i] {
            return false;
        }
        i += 1;
    }
    assert(v@ =~= w@);
    true
}

/// Whether `v` begins with the characters of `lit`.
pub fn starts_with_str(v: &[char], lit: &str) -> (b: bool)
    ensures
        b == starts_with(v@, lit@),
{
    let w = chars_of(lit);
    if w.len() > v.len() {
        return false;
    }
    let mut i: usize = 0;
    while i < w.len()
        invariant
            w@.len() <= v@.len(),
            w@ == lit@,
            i <= w@.len(),
            forall|j: int| 0 <= j < i ==> v@[j] == w@[j],
        decreases w@.len() - i,
    {
        if v[i] != w[i] {
            assert(v@.take(w@.len() as int)[i as int] != w@[i as int]);
            return false;
        }
        i += 1;
    }
    assert(v@.take(w@.len() as int) =~= w@);
    true
}

/// Index of the first `c` in `v`.
pub fn find_char(v: &[char], c: char) -> (r: Option<usize>)
    ensures
        match r {
            Some(k) => k < v@.len() && find(v@, c) == Some(k as nat) && v@[k as int] == c,
            None => find(v@, c) is None,
        },
{
    let mut i: usize = 0;
    while i < v.len()
        invariant
            i <= v@.len(),
            forall|j: int| 0 <= j < i ==> v@[j] != c,
        decreases v@.len() - i,
    {
        if v[i] == c {
            proof {
                lemma_find_at(v@, c, i as nat);
            }
            return Some(i);
        }
        i += 1;
    }
    proof {
        lemma_find_none(v@, c);
    }
    None
}

pub proof fn lemma_find_at(s: Seq<char>, c: char, k: nat)
    requires
        k < s.len(),
        s[k as int] == c,
        forall|j: int| 0 <= j < k ==> s[j] != c,
    ensures
        find(s, c) == Some(k),
    decreases k,
{
    if k > 0 {
        let t = s.drop_first();
        assert forall|j: int| 0 <= j < k - 1 implies t[j] != c by {
            assert(t[j] == s[j + 1]);
        }
        assert(s[0] != c);
        lemma_find_at(t, c, (k - 1) as nat);
    }
}

pub proof fn lemma_find_none(s: Seq<char>, c: char)
    requires
        forall|j: int| 0 <= j < s.len() ==> s[j] != c,
    ensures
        find(s, c) == None::<nat>,
    decreases s.len(),
{
    if s.len() > 0 {
        let t = s.drop_first();
        assert forall|j: int| 0 <= j < t.len() implies t[j] != c by {
            assert(t[j] == s[j + 1]);
        }
        assert(s[0] != c);
        lemma_find_none(t, c);
    }
}

/// The lines of `v`, as `str::lines` gives them.
pub fn lines_of(v: &[char]) -> (r: Vec<Vec<char>>)
    ensures
        r@.map_values(|l: Vec<char>| l@) == lines(v@),
{
    let mut done: Vec<Vec<char>> = Vec::new();
    let mut cur: Vec<char> = Vec::new();
    let n = v.len();
    let mut i: usize = 0;
    while i < n
        invariant
            i <= n == v@.len(),
            split_nl(v@.take(i as int)).len() >= 1,
            done@.map_values(|l: Vec<char>| l@) == split_nl(v@.take(i as int)).drop_last().map_values(
                |l: Seq<char>| strip_cr(l),
            ),
            cur@ == split_nl(v@.take(i as int)).last(),
        decreases n - i,
    {
        let c = v[i];
        proof {
            assert(v@.take(i + 1).drop_last() =~= v@.take(i as int));
            assert(v@.take(i + 1).last() == c);
            lemma_split_nl_len(v@.take(i + 1));
        }
        if c == '\n' {
            let k = cur.len();
            let line = if k > 0 && cur[k - 1] == '\r' {
                sub_chars(&cur, 0, k - 1)
            } else {
                sub_chars(&cur, 0, k)
            };
            proof {
                assert(line@ == strip_cr(cur@));
            }
            let ghost old_done = done@;
            done.push(line);
            cur = Vec::new();
            proof {
                let p = split_nl(v@.take(i as int));
                let q = split_nl(v@.take(i + 1));
                assert(q == p.push(Seq::<char>::empty()));
                assert(q.drop_last() =~= p);
                assert(p =~= p.drop_last().push(p.last()));
                assert(done@.map_values(|l: Vec<char>| l@) =~= old_done.map_values(
                    |l: Vec<char>| l@,
                ).push(strip_cr(p.last())));
                assert(q.drop_last().map_values(|l: Seq<char>| strip_cr(l)) =~= p.drop_last().map_values(
                    |l: Seq<char>| strip_cr(l),
                ).push(strip_cr(p.last())));
                assert(cur@ =~= q.last());
            }
        } else {
            cur.push(c);
            proof {
                let p = split_nl(v@.take(i as int));
                let q = split_nl(v@.take(i + 1));
                assert(q == p.update(p.len() - 1, p.last().push(c)));
                assert(q.drop_last() =~= p.drop_last());
            }
        }
        i += 1;
    }
    assert(v@.take(n as int) =~= v@);
    if cur.len() > 0 {
        done.push(cur);
    }
    proof {
        assert(done@.map_values(|l: Vec<char>| l@) =~= lines(v@));
    }
    done
}

} // verus!
