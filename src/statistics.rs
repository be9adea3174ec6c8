//! Mean, median and mode of a list of integers, kept exact: the mean as a
//! sum and a count, the median as the two middle values.

use vstd::prelude::*;

use crate::vectors::sum_of;

verus! {

broadcast use {vstd::seq_lib::group_to_multiset_ensures, vstd::multiset::group_multiset_axioms};

/// What `array_stats` finds in a list of integers.
#[derive(Debug, Clone, Copy)]
pub struct ArrayStats {
    /// The sum of the values; the mean is `sum / count`.
    pub sum: i128,
    pub count: usize,
    /// The most frequent value, the least of them on a tie.
    pub mode: i32,
    /// The lower of the two middle values in ascending order; the median is
    /// the average of `median_low` and `median_high`, which are the same
    /// value when the count is odd.
    pub median_low: i32,
    /// The upper of the two middle values.
    pub median_high: i32,
}

/// In ascending order.
pub open spec fn sorted(s: Seq<i32>) -> bool {
    forall|i: int, j: int| 0 <= i <= j < s.len() ==> s[i] <= s[j]
}

/// `m` occurs in `s` as often as any value, and is the least of those that do.
pub open spec fn is_mode(s: Seq<i32>, m: i32) -> bool {
    &&& s.to_multiset().count(m) > 0
    &&& forall|x: i32| #[trigger] s.to_multiset().count(x) <= s.to_multiset().count(m)
    &&& forall|x: i32| #[trigger] s.to_multiset().count(x) == s.to_multiset().count(m) ==> m <= x
}

/// Relies on `slice::sort`: afterwards the values are in ascending order, and
/// they are the values that were there before.
#[verifier::external_body]
fn sort_values(v: &mut Vec<i32>)
    ensures
        sorted(final(v)@),
        final(v)@.to_multiset() == old(v)@.to_multiset(),
{
    v.sort();
}

/// How often `x` occurs in `v`.
fn count_in(v: &Vec<i32>, x: i32) -> (c: usize)
    ensures
        c == v@.to_multiset().count(x),
{
    let mut c: usize = 0;
    let mut j: usize = 0;
    assert(v@.subrange(0, 0) =~= Seq::<i32>::empty());
    while j < v.len()
        invariant
            j <= v@.len(),
            c <= j,
            c == v@.subrange(0, j as int).to_multiset().count(x),
        decreases v@.len() - j,
    {
        assert(v@.subrange(0, j + 1) =~= v@.subrange(0, j as int).push(v@[j as int]));
        if v[j] == x {
            c = c + 1;
        }
        j = j + 1;
    }
    assert(v@.subrange(0, j as int) =~= v@);
    c
}

/// Sorts `vec` and gives its sum, count, mode and middle values.
pub fn array_stats(vec: &mut Vec<i32>) -> (r: ArrayStats)
    requires
        old(vec)@.len() > 0,
    ensures
        sorted(final(vec)@),
        final(vec)@.to_multiset() == old(vec)@.to_multiset(),
        r.sum == sum_of(old(vec)@),
        r.count == old(vec)@.len(),
        is_mode(old(vec)@, r.mode),
        r.median_low == final(vec)@[(final(vec)@.len() - 1) / 2],
        r.median_high == final(vec)@[final(vec)@.len() as int / 2],
{
    let mut sum: i128 = 0;
    let mut i: usize = 0;
    while i < vec.len()
        invariant
            i <= vec@.len(),
            sum == sum_of(vec@.subrange(0, i as int)),
            -0x8000_0000 * i <= sum <= 0x7fff_ffff * i,
        decreases vec@.len() - i,
    {
        assert(vec@.subrange(0, i + 1).drop_last() =~= vec@.subrange(0, i as int));
        sum = sum + vec[i] as i128;
        i = i + 1;
    }
    assert(vec@.subrange(0, i as int) =~= vec@);
    let count = vec.len();

    sort_values(vec);
    let ghost s = vec@;
    assert(s.len() == s.to_multiset().len());

    let mut most_frequent: i32 = vec[0];
    let mut freq_of_most_frequent: usize = count_in(vec, vec[0]);
    let ghost mut best_at: int = 0;
    let mut k: usize = 1;
    while k < count
        invariant
            vec@ == s,
            s.len() == count,
            sorted(s),
            1 <= k <= count,
            0 <= best_at < k,
            s[best_at] == most_frequent,
            freq_of_most_frequent == s.to_multiset().count(most_frequent),
            forall|j: int| 0 <= j < k ==> #[trigger] s.to_multiset().count(s[j]) <= freq_of_most_frequent,
            forall|j: int|
                0 <= j < k && #[trigger] s.to_multiset().count(s[j]) == freq_of_most_frequent
                    ==> most_frequent <= s[j],
        decreases count - k,
    {
        let c = count_in(vec, vec[k]);
        if c > freq_of_most_frequent {
            most_frequent = vec[k];
            freq_of_most_frequent = c;
            proof {
                best_at = k as int;
            }
        } else {
            assert(s[best_at] <= s[k as int]);
        }
        k = k + 1;
    }
    assert(is_mode(s, most_frequent)) by {
        assert(s.contains(s[best_at]));
        assert forall|x: i32| #[trigger] s.to_multiset().count(x) <= s.to_multiset().count(most_frequent)
            && (s.to_multiset().count(x) == s.to_multiset().count(most_frequent) ==> most_frequent <= x) by {
            if s.to_multiset().count(x) > 0 {
                assert(s.contains(x));
                let j = choose|j: int| 0 <= j < s.len() && s[j] == x;
                assert(s.to_multiset().count(s[j]) <= freq_of_most_frequent);
            }
        }
    }

    ArrayStats {
        sum,
        count,
        mode: most_frequent,
        median_low: vec[(count - 1) / 2],
        median_high: vec[count / 2],
    }
}

} // verus!
