use vstd::prelude::*;

verus! {

broadcast use {vstd::seq_lib::group_to_multiset_ensures, vstd::multiset::group_multiset_axioms};

pub open spec fn is_sorted(t: Seq<usize>) -> bool {
    forall|i: int, j: int| 0 <= i <= j < t.len() ==> t[i] <= t[j]
}

/// `t` holds the values of `s` in ascending order.
pub open spec fn sorts(t: Seq<usize>, s: Seq<usize>) -> bool {
    is_sorted(t) && t.to_multiset() == s.to_multiset()
}

/// The sum of a sequence of values.
pub open spec fn sum(s: Seq<usize>) -> nat
    decreases s.len(),
{
    if s.len() == 0 { 0 } else { sum(s.drop_last()) + s.last() as nat }
}

/// The statistics of one metric over a set of documents.
#[derive(Clone, Copy, PartialEq, Eq, Structural, Debug)]
pub struct Stats {
    pub min: usize,
    pub median: usize,
    pub mean: usize,
    /// The largest value once the single largest value is left out.
    pub max_excluding_outlier: usize,
    pub max: usize,
}

impl Stats {
    /// The statistics read off the ascending sequence `t` of the values,
    /// whose sum is `total`. The median is the upper median, the value at
    /// index n / 2; the mean is truncated; with a single value, leaving the
    /// largest out leaves that value.
    pub open spec fn read_off(self, t: Seq<usize>, total: nat) -> bool {
        let n = t.len() as int;
        &&& self.min == t[0]
        &&& self.median == t[n / 2]
        &&& self.mean == total / (n as nat)
        &&& self.max_excluding_outlier == t[if n >= 2 { n - 2 } else { 0 }]
        &&& self.max == t[n - 1]
    }
}

/// The values in ascending order.
pub fn sorted_copy(values: &Vec<usize>) -> (r: Vec<usize>)
    ensures
        sorts(r@, values@),
{
    let mut out: Vec<usize> = Vec::new();
    let mut i: usize = 0;
    assert(out@ =~= values@.take(0));
    while i < values.len()
        invariant
            i <= values.len(),
            sorts(out@, values@.take(i as int)),
        decreases values.len() - i,
    {
        let x = values[i];
        let mut pos: usize = 0;
        while pos < out.len() && out[pos] <= x
            invariant
                pos <= out.len(),
                forall|k: int| 0 <= k < pos ==> out@[k] <= x,
            decreases out.len() - pos,
        {
            pos = pos + 1;
        }
        let ghost before = out@;
        out.insert(pos, x);
        proof {
            assert(values@.take(i + 1) =~= values@.take(i as int).push(x));
            assert(out@.to_multiset() == before.to_multiset().insert(x)) by {
                vstd::seq_lib::to_multiset_insert(before, pos as int, x);
            }
            assert forall|a: int, b: int| 0 <= a <= b < out@.len() implies out@[a] <= out@[b] by {
                if pos < before.len() {
                    assert(before[pos as int] > x);
                }
                if a < pos && b > pos {
                    assert(out@[a] == before[a]);
                    assert(out@[b] == before[b - 1]);
                }
            }
        }
        i = i + 1;
    }
    assert(values@.take(i as int) =~= values@);
    out
}

/// The sum of the values; the caller guarantees that it fits.
pub fn sum_of(values: &Vec<usize>) -> (r: usize)
    requires
        sum(values@) <= usize::MAX,
    ensures
        r == sum(values@),
{
    let mut total: usize = 0;
    let mut i: usize = 0;
    while i < values.len()
        invariant
            i <= values.len(),
            total == sum(values@.take(i as int)),
            sum(values@) <= usize::MAX,
        decreases values.len() - i,
    {
        assert(values@.take(i + 1).drop_last() =~= values@.take(i as int));
        proof { lemma_sum_prefix(values@, i + 1); }
        total = total + values[i];
        i = i + 1;
    }
    assert(values@.take(i as int) =~= values@);
    total
}

/// The sum of a prefix is at most the sum of the whole.
pub proof fn lemma_sum_prefix(s: Seq<usize>, k: int)
    requires
        0 <= k <= s.len(),
    ensures
        sum(s.take(k)) <= sum(s),
    decreases s.len() - k,
{
    if k < s.len() {
        lemma_sum_prefix(s, k + 1);
        assert(s.take(k + 1).drop_last() =~= s.take(k));
    } else {
        assert(s.take(k) =~= s);
    }
}

/// The sum of the values, or `None` where it does not fit in a `usize`.
pub fn checked_sum(values: &Vec<usize>) -> (r: Option<usize>)
    ensures
        r == (if sum(values@) <= usize::MAX { Some(sum(values@) as usize) } else { None::<usize> }),
{
    let mut total: usize = 0;
    let mut i: usize = 0;
    while i < values.len()
        invariant
            i <= values.len(),
            total == sum(values@.take(i as int)),
        decreases values.len() - i,
    {
        assert(values@.take(i + 1).drop_last() =~= values@.take(i as int));
        match total.checked_add(values[i]) {
            Some(t) => total = t,
            None => {
                proof { lemma_sum_prefix(values@, i + 1); }
                return None;
            },
        }
        i = i + 1;
    }
    assert(values@.take(i as int) =~= values@);
    Some(total)
}

/// The statistics of a non-empty set of values.
pub fn summarize(values: &Vec<usize>) -> (r: Stats)
    requires
        values.len() >= 1,
        sum(values@) <= usize::MAX,
    ensures
        exists|t: Seq<usize>| sorts(t, values@) && #[trigger] r.read_off(t, sum(values@)),
        r.min <= r.median <= r.max,
        r.max_excluding_outlier <= r.max,
{
    let t = sorted_copy(values);
    let n = t.len();
    proof {
        assert(t@.to_multiset().len() == values@.to_multiset().len());
    }
    let total = sum_of(values);
    let r = Stats {
        min: t[0],
        median: t[n / 2],
        mean: total / n,
        max_excluding_outlier: t[if n >= 2 { n - 2 } else { 0 }],
        max: t[n - 1],
    };
    assert(r.read_off(t@, sum(values@)));
    r
}

/// Leaving the largest value out lowers the maximum exactly when that
/// largest value occurs only once among two or more values.
pub proof fn lemma_outlier_strictly_below(values: Seq<usize>, r: Stats)
    requires
        values.len() >= 2,
        exists|t: Seq<usize>| sorts(t, values) && #[trigger] r.read_off(t, sum(values)),
    ensures
        r.max_excluding_outlier < r.max <==> values.to_multiset().count(r.max) == 1,
{
    let t = choose|t: Seq<usize>| sorts(t, values) && #[trigger] r.read_off(t, sum(values));
    let n = t.len() as int;
    assert(t.to_multiset().len() == values.to_multiset().len());
    let u = t.remove(n - 1);
    assert(u.to_multiset() == t.to_multiset().remove(t[n - 1]));
    let m = t[n - 1];
    assert(t.contains(m));
    assert(u.to_multiset().count(m) + 1 == t.to_multiset().count(m));
    assert(values.to_multiset().count(m) == t.to_multiset().count(m));
    assert(u.contains(m) <==> u.to_multiset().count(m) > 0);
    if t[n - 2] == t[n - 1] {
        assert(u[n - 2] == t[n - 1]);
        assert(u.contains(t[n - 1]));
    } else {
        assert(!u.contains(t[n - 1])) by {
            if u.contains(t[n - 1]) {
                let k = choose|k: int| 0 <= k < u.len() && u[k] == t[n - 1];
                assert(u[k] == t[k]);
                assert(t[k] <= t[n - 2]);
            }
        }
    }
}

} // verus!
