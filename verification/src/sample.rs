//! Integer measurements and their ordering.
use vstd::prelude::*;
use vstd::relations::{sorted_by, total_ordering};

verus! {

/// An integer type that measurements are recorded in.
///
/// Every sample has an exact integer value; two samples with the same value are the same sample,
/// so ordering samples by value is a total order.
pub trait Sample: Copy {
    /// The mathematical value of the sample.
    spec fn value(self) -> int;

    /// Samples are determined by their values.
    proof fn lemma_value_injective(a: Self, b: Self)
        requires
            a.value() == b.value(),
        ensures
            a == b,
    ;

    /// The value of the sample, widened so that every sample type fits.
    fn wide(self) -> (r: i128)
        ensures
            r as int == self.value(),
    ;
}

impl Sample for i64 {
    open spec fn value(self) -> int {
        self as int
    }

    proof fn lemma_value_injective(a: Self, b: Self) {
    }

    fn wide(self) -> (r: i128) {
        self as i128
    }
}

impl Sample for u64 {
    open spec fn value(self) -> int {
        self as int
    }

    proof fn lemma_value_injective(a: Self, b: Self) {
    }

    fn wide(self) -> (r: i128) {
        self as i128
    }
}

impl Sample for u32 {
    open spec fn value(self) -> int {
        self as int
    }

    proof fn lemma_value_injective(a: Self, b: Self) {
    }

    fn wide(self) -> (r: i128) {
        self as i128
    }
}

/// Ascending order of samples by value.
pub open spec fn by_value<T: Sample>() -> spec_fn(T, T) -> bool {
    |a: T, b: T| a.value() <= b.value()
}

/// The samples of `s` in ascending order.
pub open spec fn sorted_samples<T: Sample>(s: Seq<T>) -> Seq<T> {
    s.sort_by(by_value::<T>())
}

/// Ordering samples by value is a total order.
pub proof fn lemma_by_value_total<T: Sample>()
    ensures
        total_ordering(by_value::<T>()),
{
    let leq = by_value::<T>();
    assert forall|a: T, b: T| #[trigger] leq(a, b) && #[trigger] leq(b, a) implies a == b by {
        T::lemma_value_injective(a, b);
    }
}

/// A sequence sorted by value that is a permutation of `s` is the sorted form of `s`.
pub proof fn lemma_sorted_permutation<T: Sample>(s: Seq<T>, t: Seq<T>)
    requires
        sorted_by(t, by_value::<T>()),
        t.to_multiset() == s.to_multiset(),
    ensures
        t == sorted_samples(s),
{
    lemma_by_value_total::<T>();
    s.lemma_sort_by_ensures(by_value::<T>());
    vstd::seq_lib::lemma_sorted_unique(t, sorted_samples(s), by_value::<T>());
}

/// Sorting forgets the order of the samples: two sequences with the same samples sort alike.
pub proof fn lemma_sorted_samples_ignore_order<T: Sample>(a: Seq<T>, b: Seq<T>)
    requires
        a.to_multiset() == b.to_multiset(),
    ensures
        sorted_samples(a) == sorted_samples(b),
{
    lemma_by_value_total::<T>();
    a.lemma_sort_by_ensures(by_value::<T>());
    lemma_sorted_permutation(b, sorted_samples(a));
}

/// The sorted samples are in ascending order of value and are the same samples.
pub proof fn lemma_sorted_samples_ascending<T: Sample>(s: Seq<T>)
    ensures
        sorted_samples(s).to_multiset() == s.to_multiset(),
        sorted_samples(s).len() == s.len(),
        forall|i: int, j: int|
            0 <= i <= j < s.len() ==> sorted_samples(s)[i].value() <= sorted_samples(s)[j].value(),
{
    broadcast use vstd::seq_lib::group_to_multiset_ensures;
    lemma_by_value_total::<T>();
    s.lemma_sort_by_ensures(by_value::<T>());
    let t = sorted_samples(s);
    assert(t.to_multiset().len() == s.to_multiset().len());
    assert forall|i: int, j: int| 0 <= i <= j < s.len() implies t[i].value() <= t[j].value() by {
        if i < j {
            assert(by_value::<T>()(t[i], t[j]));
        }
    }
}

/// Sorts the samples in ascending order of value with `slice::sort_by_key`.
///
/// The contract claims what std documents of `sort_by_key`: the slice ends up ordered by the key
/// and holds the same elements as before.
#[verifier::external_body]
fn sort_by_key_wide<T: Sample>(v: &mut Vec<T>)
    ensures
        sorted_by(final(v)@, by_value::<T>()),
        final(v)@.to_multiset() == old(v)@.to_multiset(),
{
    v.sort_by_key(|x| x.wide());
}

/// Sorts the samples in ascending order.
pub fn sort_samples<T: Sample>(v: &mut Vec<T>)
    ensures
        final(v)@ == sorted_samples(old(v)@),
        final(v)@.len() == old(v)@.len(),
{
    sort_by_key_wide(v);
    proof {
        broadcast use vstd::seq_lib::group_to_multiset_ensures;
        lemma_sorted_permutation(old(v)@, v@);
        assert(v@.to_multiset().len() == old(v)@.to_multiset().len());
    }
}

} // verus!
