//! The count, minimum and maximum of a stream of measurements, kept in one pass.
use vstd::prelude::*;
use crate::sample::Sample;

verus! {

/// The smallest sample of a non-empty sequence.
pub open spec fn min_of<T: Sample>(s: Seq<T>) -> T
    decreases s.len(),
{
    if s.len() <= 1 {
        s[0]
    } else {
        let m = min_of(s.drop_last());
        if s.last().value() < m.value() {
            s.last()
        } else {
            m
        }
    }
}

/// The largest sample of a non-empty sequence.
pub open spec fn max_of<T: Sample>(s: Seq<T>) -> T
    decreases s.len(),
{
    if s.len() <= 1 {
        s[0]
    } else {
        let m = max_of(s.drop_last());
        if s.last().value() > m.value() {
            s.last()
        } else {
            m
        }
    }
}

/// Count, minimum and maximum of the samples seen so far.
pub struct RunningBounds<T: Sample> {
    n: usize,
    min: T,
    max: T,
    seen: Ghost<Seq<T>>,
    initial: Ghost<T>,
}

impl<T: Sample> RunningBounds<T> {
    /// The fields describe the samples seen; before the first one, minimum and maximum are the
    /// initial value.
    #[verifier::type_invariant]
    spec fn describes_seen(self) -> bool {
        &&& self.n == self.seen@.len()
        &&& self.seen@.len() > 0 ==> self.min == min_of(self.seen@) && self.max == max_of(
            self.seen@,
        )
        &&& self.seen@.len() == 0 ==> self.min == self.initial@ && self.max == self.initial@
    }

    /// The samples seen, in order.
    pub closed spec fn values(self) -> Seq<T> {
        self.seen@
    }

    /// The value that stands for the minimum and maximum before the first sample.
    pub closed spec fn initial_value(self) -> T {
        self.initial@
    }

    /// No sample seen yet; `initial` stands in for the minimum and maximum until the first one.
    pub fn new(initial: T) -> (r: Self)
        ensures
            r.values() == Seq::<T>::empty(),
            r.initial_value() == initial,
    {
        RunningBounds {
            n: 0,
            min: initial,
            max: initial,
            seen: Ghost(Seq::empty()),
            initial: Ghost(initial),
        }
    }

    /// The number of samples seen.
    pub fn count(&self) -> (r: usize)
        ensures
            r == self.values().len(),
    {
        proof {
            use_type_invariant(self);
        }
        self.n
    }

    /// The smallest sample seen, or the initial value before the first sample.
    pub fn minimum(&self) -> (r: T)
        ensures
            r == if self.values().len() > 0 {
                min_of(self.values())
            } else {
                self.initial_value()
            },
    {
        proof {
            use_type_invariant(self);
        }
        self.min
    }

    /// The largest sample seen, or the initial value before the first sample.
    pub fn maximum(&self) -> (r: T)
        ensures
            r == if self.values().len() > 0 {
                max_of(self.values())
            } else {
                self.initial_value()
            },
    {
        proof {
            use_type_invariant(self);
        }
        self.max
    }

    /// Takes the next sample into account.
    pub fn next(&mut self, value: T)
        requires
            old(self).values().len() < usize::MAX,
        ensures
            final(self).values() == old(self).values().push(value),
            final(self).initial_value() == old(self).initial_value(),
    {
        proof {
            use_type_invariant(&*self);
        }
        let mut min = if self.n == 0 {
            value
        } else {
            self.min
        };
        let mut max = if self.n == 0 {
            value
        } else {
            self.max
        };
        if value.wide() < min.wide() {
            min = value;
        }
        if value.wide() > max.wide() {
            max = value;
        }
        let ghost seen = self.seen@.push(value);
        proof {
            assert(seen.drop_last() =~= self.seen@);
        }
        *self = RunningBounds {
            n: self.n + 1,
            min,
            max,
            seen: Ghost(seen),
            initial: Ghost(self.initial@),
        };
    }
}

/// The minimum of a sequence is one of its samples and no sample is smaller; likewise the
/// maximum is one of its samples and no sample is larger.
pub proof fn lemma_min_max_of<T: Sample>(s: Seq<T>)
    requires
        s.len() > 0,
    ensures
        s.contains(min_of(s)),
        s.contains(max_of(s)),
        forall|i: int| 0 <= i < s.len() ==> min_of(s).value() <= #[trigger] s[i].value(),
        forall|i: int| 0 <= i < s.len() ==> #[trigger] s[i].value() <= max_of(s).value(),
    decreases s.len(),
{
    if s.len() > 1 {
        let t = s.drop_last();
        lemma_min_max_of(t);
        assert forall|i: int| 0 <= i < s.len() implies min_of(s).value() <= #[trigger] s[i].value() by {
            if i < s.len() - 1 {
                assert(s[i] == t[i]);
            }
        }
        assert forall|i: int| 0 <= i < s.len() implies #[trigger] s[i].value() <= max_of(s).value() by {
            if i < s.len() - 1 {
                assert(s[i] == t[i]);
            }
        }
        if min_of(s) == min_of(t) {
            let j = choose|j: int| 0 <= j < t.len() && t[j] == min_of(t);
            assert(s[j] == min_of(s));
        } else {
            assert(s[s.len() - 1] == min_of(s));
        }
        if max_of(s) == max_of(t) {
            let j = choose|j: int| 0 <= j < t.len() && t[j] == max_of(t);
            assert(s[j] == max_of(s));
        } else {
            assert(s[s.len() - 1] == max_of(s));
        }
    } else {
        assert(s[0] == min_of(s));
    }
}

} // verus!
