//! The median filter over one window of raw samples.
use vstd::prelude::*;
use vstd::relations::{sorted_by, total_ordering};

use crate::NO_SAMPLES;

verus! {

broadcast use {vstd::seq_lib::group_to_multiset_ensures, vstd::multiset::group_multiset_axioms};

/// The order by which samples are ranked.
pub open spec fn ascending() -> spec_fn(u16, u16) -> bool {
    |a: u16, b: u16| a <= b
}

/// The samples of `s`, in ascending order.
pub open spec fn sorted_samples(s: Seq<u16>) -> Seq<u16> {
    s.sort_by(ascending())
}

/// The lower median of `s`: the value at index `len / 2` once `s` is sorted.
pub open spec fn lower_median(s: Seq<u16>) -> u16 {
    sorted_samples(s)[(s.len() / 2) as int]
}

proof fn lemma_ascending_total()
    ensures
        total_ordering(ascending()),
{
}

/// Sorting keeps exactly the samples of `s` and puts them in ascending order.
pub proof fn lemma_sorted_samples(s: Seq<u16>)
    ensures
        sorted_by(sorted_samples(s), ascending()),
        sorted_samples(s).to_multiset() == s.to_multiset(),
        sorted_samples(s).len() == s.len(),
{
    lemma_ascending_total();
    s.lemma_sort_by_ensures(ascending());
    s.to_multiset_ensures();
    sorted_samples(s).to_multiset_ensures();
}

/// Sorting yields the unique ascending arrangement of the same samples.
proof fn lemma_sorted_samples_unique(s: Seq<u16>, t: Seq<u16>)
    requires
        sorted_by(t, ascending()),
        t.to_multiset() == s.to_multiset(),
    ensures
        sorted_samples(s) == t,
{
    lemma_ascending_total();
    s.lemma_sort_by_ensures(ascending());
    vstd::seq_lib::lemma_sorted_unique(sorted_samples(s), t, ascending());
}

/// Sorts a window of samples in place, by insertion.
fn sort_window(data: &mut [u16; NO_SAMPLES])
    ensures
        sorted_by(final(data)@, ascending()),
        final(data)@.to_multiset() == old(data)@.to_multiset(),
{
    let ghost orig = data@;
    let mut i: usize = 1;
    while i < NO_SAMPLES
        invariant
            1 <= i <= NO_SAMPLES,
            data@.len() == NO_SAMPLES,
            forall|a: int, b: int| 0 <= a < b < i ==> data@[a] <= data@[b],
            data@.to_multiset() == orig.to_multiset(),
        decreases NO_SAMPLES - i,
    {
        let mut j: usize = i;
        while j > 0 && data[j - 1] > data[j]
            invariant
                0 <= j <= i < NO_SAMPLES,
                data@.len() == NO_SAMPLES,
                forall|a: int, b: int|
                    0 <= a < b <= i && a != j && b != j ==> data@[a] <= data@[b],
                forall|b: int| j < b <= i ==> data@[j as int] <= data@[b],
                data@.to_multiset() == orig.to_multiset(),
            decreases j,
        {
            let ghost before = data@;
            let lo = data[j - 1];
            let hi = data[j];
            data[j - 1] = hi;
            data[j] = lo;
            proof {
                assert(data@ == before.update(j - 1, hi).update(j as int, lo));
                vstd::seq_lib::to_multiset_update(before, j - 1, hi);
                vstd::seq_lib::to_multiset_update(before.update(j - 1, hi), j as int, lo);
                assert(data@.to_multiset() =~= before.to_multiset());
            }
            j = j - 1;
        }
        i = i + 1;
    }
    assert(sorted_by(data@, ascending()));
}

/// The lower median of a window: the sample at index `NO_SAMPLES / 2` of the
/// window sorted in ascending order.
pub fn median(mut data: [u16; NO_SAMPLES]) -> (r: u16)
    ensures
        r == lower_median(data@),
{
    let ghost orig = data@;
    sort_window(&mut data);
    proof {
        lemma_sorted_samples_unique(orig, data@);
    }
    data[NO_SAMPLES / 2]
}

/// The lower median of a window depends only on which samples it holds, not
/// on the order in which they came.
pub proof fn lemma_median_ignores_order(a: Seq<u16>, b: Seq<u16>)
    requires
        a.len() == NO_SAMPLES,
        a.to_multiset() == b.to_multiset(),
    ensures
        lower_median(a) == lower_median(b),
        sorted_samples(a) == sorted_samples(b),
{
    lemma_ascending_total();
    a.lemma_sort_by_ensures(ascending());
    b.lemma_sort_by_ensures(ascending());
    lemma_sorted_samples_unique(a, sorted_samples(b));
    a.to_multiset_ensures();
    b.to_multiset_ensures();
}

} // verus!
