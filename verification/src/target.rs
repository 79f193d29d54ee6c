//! Benchmark targets: the functions under measurement, the generators of their payloads, and
//! the matrix that pairs every function with every generator.
use vstd::prelude::*;
use vstd::string::StringExecFns;
use std::cell::{BorrowError, BorrowMutError, Ref, RefCell, RefMut};
use std::marker::PhantomData;
use std::rc::Rc;
use crate::sample::sorted_samples;
use crate::stats::median;
use crate::timer::{black_box, ActiveTimer, Timer};

verus! {

/// Number of nanoseconds in a millisecond.
pub const NS_TO_MS: usize = 1_000_000;

/// `std::cell::RefCell`, through which several targets share one generator.
#[verifier::external_type_specification]
#[verifier::external_body]
#[verifier::reject_recursive_types(T)]
pub struct ExRefCell<T: ?Sized>(RefCell<T>);

/// `std::cell::Ref`, a shared borrow of a `RefCell`.
#[verifier::external_type_specification]
#[verifier::external_body]
#[verifier::reject_recursive_types(T)]
pub struct ExRef<'b, T: ?Sized>(Ref<'b, T>);

/// `std::cell::RefMut`, an exclusive borrow of a `RefCell`.
#[verifier::external_type_specification]
#[verifier::external_body]
#[verifier::reject_recursive_types(T)]
pub struct ExRefMut<'b, T: ?Sized + 'b>(RefMut<'b, T>);

/// `RefCell::new` wraps a value; the cell is opaque, so nothing is claimed of it.
pub assume_specification<T>[ RefCell::<T>::new ](value: T) -> RefCell<T>;

/// `std::cell::BorrowError`, the failure to borrow a `RefCell` that is borrowed mutably.
#[verifier::external_type_specification]
#[verifier::external_body]
pub struct ExBorrowError(BorrowError);

/// `std::cell::BorrowMutError`, the failure to borrow a `RefCell` that is borrowed.
#[verifier::external_type_specification]
#[verifier::external_body]
pub struct ExBorrowMutError(BorrowMutError);

/// `RefCell::try_borrow`: a shared borrow of the cell, or an error while the cell is borrowed
/// mutably. Which one comes depends on the borrows alive, which are not tracked here, so nothing
/// is claimed of the result.
#[verifier::external_body]
fn try_borrow_cell<'b, T>(cell: &'b RefCell<T>) -> Result<Ref<'b, T>, BorrowError> {
    cell.try_borrow()
}

/// `RefCell::try_borrow_mut`: an exclusive borrow of the cell, or an error while the cell is
/// borrowed. Which one comes depends on the borrows alive, which are not tracked here, so
/// nothing is claimed of the result.
#[verifier::external_body]
fn try_borrow_cell_mut<'b, T>(cell: &'b RefCell<T>) -> Result<RefMut<'b, T>, BorrowMutError> {
    cell.try_borrow_mut()
}

/// `Deref` of a `Ref`: the borrowed value.
#[verifier::external_body]
fn ref_value<'a, 'b, T>(r: &'a Ref<'b, T>) -> &'a T {
    &**r
}

/// `DerefMut` of a `RefMut`: the borrowed value.
#[verifier::external_body]
fn ref_mut_value<'a, 'b, T>(r: &'a mut RefMut<'b, T>) -> &'a mut T {
    &mut **r
}

/// `Rc::clone`: another pointer to the same allocation, hence to the same value.
#[verifier::external_body]
fn share<T>(rc: &Rc<T>) -> (r: Rc<T>)
    ensures
        r == *rc,
{
    Rc::clone(rc)
}

/// The function under benchmark, measured as a whole.
pub trait MeasureTarget {
    /// Measures the performance if the function
    ///
    /// Returns the cumulative execution time (all iterations) with nanoseconds precision,
    /// but not necessarily accuracy. Usually this time is get by `clock_gettime()` call or some
    /// other platform-specific system call.
    ///
    /// This method should use the same arguments for measuring the test function unless
    /// [`next_haystack()`] method is called. Only then new set of input arguments should be
    /// generated. Although it is allowed to call this method without first calling
    /// [`next_haystack()`]. In which case first haystack should be generated automatically.
    ///
    /// [`next_haystack()`]: Self::next_haystack()
    fn measure(&mut self, iterations: usize) -> (r: u64)
        ensures
            old(self).records_measurements() ==> {
                &&& final(self).records_measurements()
                &&& final(self).measurements() == old(self).measurements().push((iterations, r))
            },
    ;

    /// The target keeps a record of its measurements (unless it says otherwise, it does not).
    open spec fn records_measurements(&self) -> bool {
        false
    }

    /// The measurements recorded so far, in order: for each, the number of iterations asked for
    /// and the time returned.
    open spec fn measurements(&self) -> Seq<(usize, u64)> {
        Seq::empty()
    }

    /// Estimates the number of iterations achievable within given time.
    ///
    /// Time span is given in milliseconds (`time_ms`). Estimate can be an approximation and it
    /// is important for implementation to be fast (in the order of 10 ms).
    /// If possible the same input arguments should be used when building the estimate.
    /// If the single call of a function is longer than provided timespan the implementation
    /// should return 0.
    fn estimate_iterations(&mut self, time_ms: u32) -> usize;

    /// Generates next haystack for the measurement
    ///
    /// Calling this method should update internal haystack used for measurement. Returns `true`
    /// if update happend, `false` if implementation doesn't support haystack generation.
    /// Haystack/Needle distinction is described in [`Generator`] trait.
    fn next_haystack(&mut self) -> bool;

    /// Resets the generator of the payload with the given seed.
    fn reset(&mut self, seed: u64);

    /// Name of the benchmark
    fn name(&self) -> &str;
}

/// Generates the payload for the benchmarking functions
///
/// Test function registered in the system can accept two arguments:
/// - *haystack* - usually the data structure we're testing the algorithm on
/// - *needle* - the supplementary used to test the algorithm.
///
/// Haystack generation is not included in timing while needle generation is a part of
/// measurement loop. Therefore needle generation should be relatively lightweight.
/// Tango orchestrates the generating of haystack and needle and guarantees that both
/// benchmarking functions are called with the same input parameters.
pub trait Generator {
    type Haystack;

    type Needle;

    /// Generates next random haystack for the benchmark
    ///
    /// All iterations within sample are using the same haystack. Haystack are changed only
    /// between samples (see. [`MeasureTarget::next_haystack()`]).
    fn next_haystack(&mut self) -> Self::Haystack;

    /// Generates next random needle for the benchmark
    ///
    /// This method should be relatively lightweight, because the execution time of this method
    /// is included in reported by the benchmark time.
    fn next_needle(&mut self, haystack: &Self::Haystack) -> Self::Needle;

    /// Resets internal RNG-state of this generator with given seed
    ///
    /// For benchmarks to be predictable the harness periodically synchronize the RNG state of
    /// all the generators. Implementations are free to transform seed value in any meaningful
    /// way as long as this transformation is deterministic.
    fn reset(&mut self, seed: u64);

    /// Name of generator, usually the name of its type without the module path (see
    /// [`short_type_name`]).
    fn name(&self) -> &str;
}

/// The time a measurement took, in nanoseconds, saturated at `usize::MAX`.
pub open spec fn millis_as_nanos(time_ms: u32) -> int {
    if time_ms * NS_TO_MS <= usize::MAX {
        time_ms * NS_TO_MS
    } else {
        usize::MAX as int
    }
}

/// The duration of one iteration, in nanoseconds, as a `usize`.
pub open spec fn iteration_ns_usize(iteration_ns: u64) -> int {
    (#[verifier::truncate] (iteration_ns as usize)) as int
}

/// The duration of one iteration as the estimates divide by it: a duration too short for the
/// clock to see (0 ns) counts as 1 ns.
pub open spec fn iteration_divisor(iteration_ns: u64) -> int {
    if iteration_ns_usize(iteration_ns) == 0 {
        1
    } else {
        iteration_ns_usize(iteration_ns)
    }
}

/// The number of iterations, each taking `iteration_ns` nanoseconds, that fit within `time_ms`
/// milliseconds (a time span beyond `usize::MAX` nanoseconds, which only a 32-bit target has,
/// counts as `usize::MAX`).
pub fn iterations_within(time_ms: u32, iteration_ns: u64) -> (r: usize)
    requires
        iteration_ns_usize(iteration_ns) != 0,
    ensures
        r == millis_as_nanos(time_ms) / iteration_ns_usize(iteration_ns),
{
    let time_ns = match (time_ms as usize).checked_mul(NS_TO_MS) {
        Some(ns) => ns,
        None => usize::MAX,
    };
    time_ns / (#[verifier::truncate] (iteration_ns as usize))
}

/// The duration of one iteration to estimate with: the measured one, or 1 ns when the clock saw
/// none. A measurement cannot fail here, so a reading of 0 ns is taken as the clock's resolution.
fn visible_duration(iteration_ns: u64) -> (r: u64)
    ensures
        iteration_ns_usize(r) == iteration_divisor(iteration_ns),
{
    let ns = #[verifier::truncate] (iteration_ns as usize);
    if ns == 0 {
        1
    } else {
        iteration_ns
    }
}

/// The number of iterations estimated to fit within `time_ms` milliseconds from the
/// single-iteration measurements `measures`: the time span divided by their median.
pub open spec fn estimate_from(time_ms: u32, measures: Seq<u64>) -> int {
    millis_as_nanos(time_ms) / iteration_divisor(sorted_samples(measures)[(measures.len() / 2) as int])
}

/// A function whose single call takes longer than the time span fits in it zero times.
pub proof fn law_slow_iteration_fits_zero_times(time_ms: u32, iteration_ns: u64)
    requires
        iteration_ns_usize(iteration_ns) > millis_as_nanos(time_ms),
    ensures
        millis_as_nanos(time_ms) / iteration_ns_usize(iteration_ns) == 0,
{
    let t = millis_as_nanos(time_ms);
    let d = iteration_ns_usize(iteration_ns);
    assert(t >= 0);
    assert(t / d == 0) by (nonlinear_arith)
        requires
            0 <= t < d,
    ;
}

/// The record of measurements of one iteration each that took the times `measures`.
pub open spec fn single_iterations(measures: Seq<u64>) -> Seq<(usize, u64)> {
    measures.map_values(|m: u64| (1usize, m))
}

/// The median of `iterations` single-iteration measurements of `target`.
pub fn median_execution_time(target: &mut dyn MeasureTarget, iterations: u32) -> (r: u64)
    requires
        iterations >= 1,
    ensures
        exists|measures: Seq<u64>|
            #![trigger sorted_samples(measures)]
            measures.len() == iterations && r == sorted_samples(measures)[(measures.len() / 2) as int],
        old(target).records_measurements() ==> exists|measures: Seq<u64>|
            #![trigger sorted_samples(measures)]
            measures.len() == iterations && r == sorted_samples(measures)[(measures.len() / 2) as int]
                && final(target).measurements() == old(target).measurements() + single_iterations(
                measures,
            ),
{
    let ghost records = target.records_measurements();
    let ghost before = target.measurements();
    let mut measures: Vec<u64> = Vec::new();
    let mut i: u32 = 0;
    while i < iterations
        invariant
            i <= iterations,
            measures@.len() == i,
            records ==> target.records_measurements(),
            records ==> target.measurements() == before + single_iterations(measures@),
        decreases iterations - i,
    {
        let ghost taken = measures@;
        let time = target.measure(1);
        measures.push(time);
        proof {
            assert(single_iterations(measures@) =~= single_iterations(taken).push((1usize, time)));
            assert(before + single_iterations(measures@) =~= (before + single_iterations(taken)).push(
                (1usize, time),
            ));
        }
        i = i + 1;
    }
    median(measures)
}

/// A benchmark of a function without arguments.
#[verifier::reject_recursive_types(F)]
#[verifier::reject_recursive_types(O)]
pub struct SimpleFunc<F, O> where F: Fn() -> O {
    name: &'static str,
    func: F,
    output: PhantomData<O>,
    measured: Ghost<Seq<(usize, u64)>>,
}

impl<F, O> SimpleFunc<F, O> where F: Fn() -> O {
    /// The function can be called, and the benchmark has a name.
    #[verifier::type_invariant]
    spec fn callable(self) -> bool {
        &&& self.func.requires(())
        &&& self.name@.len() > 0
    }

    /// The name of the benchmark.
    pub closed spec fn name_view(self) -> Seq<char> {
        self.name@
    }

    /// The benchmark after one more measurement, of `iterations` iterations that took `time`.
    pub closed spec fn with_measurement(self, iterations: usize, time: u64) -> Self {
        SimpleFunc { measured: Ghost(self.measured@.push((iterations, time))), ..self }
    }

    /// A benchmark of `func` under a non-empty `name`.
    pub fn new(name: &'static str, func: F) -> (r: Self)
        requires
            name@.len() > 0,
            func.requires(()),
        ensures
            r.name_view() == name@,
            r.measurements() == Seq::<(usize, u64)>::empty(),
    {
        SimpleFunc { name, func, output: PhantomData, measured: Ghost(Seq::empty()) }
    }
}

impl<F, O> MeasureTarget for SimpleFunc<F, O> where F: Fn() -> O {
    /// Every measurement is recorded.
    open spec fn records_measurements(&self) -> bool {
        true
    }

    closed spec fn measurements(&self) -> Seq<(usize, u64)> {
        self.measured@
    }

    fn measure(&mut self, iterations: usize) -> (r: u64)
        ensures
            *final(self) == old(self).with_measurement(iterations, r),
            final(self).name_view() == old(self).name_view(),
            final(self).measurements() == old(self).measurements().push((iterations, r)),
    {
        proof {
            use_type_invariant(&*self);
        }
        let func = &self.func;
        let mut result: Vec<O> = Vec::with_capacity(iterations);
        let start = ActiveTimer::start();
        let mut i: usize = 0;
        while i < iterations
            invariant
                func.requires(()),
            decreases iterations - i,
        {
            result.push(black_box(func()));
            i = i + 1;
        }
        let time = ActiveTimer::stop(start);
        proof {
            self.measured@ = self.measured@.push((iterations, time));
        }
        time
    }

    fn estimate_iterations(&mut self, time_ms: u32) -> (r: usize)
        ensures
            exists|measures: Seq<u64>|
                measures.len() == 11 && r == #[trigger] estimate_from(time_ms, measures),
            exists|measures: Seq<u64>|
                #![trigger estimate_from(time_ms, measures)]
                measures.len() == 11 && r == estimate_from(time_ms, measures)
                    && final(self).measurements() == old(self).measurements() + single_iterations(
                    measures,
                ),
            final(self).name_view() == old(self).name_view(),
    {
        // The median of 11 single-iteration measurements, as `median_execution_time` takes it.
        let mut measures: Vec<u64> = Vec::new();
        let ghost name = self.name_view();
        let ghost before = self.measurements();
        let mut i: usize = 0;
        while i < 11
            invariant
                i <= 11,
                measures@.len() == i,
                self.name_view() == name,
                self.measurements() == before + single_iterations(measures@),
            decreases 11 - i,
        {
            let ghost taken = measures@;
            let time = self.measure(1);
            measures.push(time);
            proof {
                assert(single_iterations(measures@) =~= single_iterations(taken).push((1usize, time)));
                assert(before + single_iterations(measures@) =~= (before + single_iterations(taken)).push((1usize, time)));
            }
            i = i + 1;
        }
        let ghost taken = measures@;
        let median = median(measures);
        let r = iterations_within(time_ms, visible_duration(median));
        assert(r == estimate_from(time_ms, taken));
        r
    }

    fn next_haystack(&mut self) -> (r: bool)
        ensures
            !r,
    {
        false
    }

    fn name(&self) -> (r: &str)
        ensures
            r@ == self.name_view(),
    {
        self.name
    }

    fn reset(&mut self, _seed: u64) {
    }
}

/// A benchmark name for function `name` run with generator `generator`: `name/generator`.
pub open spec fn joined_name(name: Seq<char>, generator: Seq<char>) -> Seq<char> {
    name + seq!['/'] + generator
}

/// `full` is the name of a benchmark of function `name` with some generator.
pub open spec fn named_after(full: Seq<char>, name: Seq<char>) -> bool {
    exists|generator: Seq<char>| full == #[trigger] joined_name(name, generator)
}

/// Makes sure there is a haystack to measure with: the one there is, or else a new one from
/// `generator`.
fn ensure_haystack<G: Generator>(generator: &mut G, haystack: &mut Option<G::Haystack>)
    ensures
        *final(haystack) is Some,
        *old(haystack) is Some ==> *final(haystack) == *old(haystack),
{
    if haystack.is_none() {
        *haystack = Some(generator.next_haystack());
    }
}

/// Replaces the haystack with a new one from `generator`.
fn renew_haystack<G: Generator>(generator: &mut G, haystack: &mut Option<G::Haystack>)
    ensures
        *final(haystack) is Some,
{
    *haystack = Some(generator.next_haystack());
}

/// Implementation of a [`MeasureTarget`] which uses [`Generator`] to generates a new payload for
/// a function each new sample.
#[verifier::reject_recursive_types(F)]
#[verifier::reject_recursive_types(G)]
#[verifier::reject_recursive_types(O)]
pub struct GenFunc<F, G: Generator, O> where F: Fn(&G::Haystack, &G::Needle) -> O {
    f: Rc<F>,
    g: Rc<RefCell<G>>,
    haystack: Option<G::Haystack>,
    name: String,
    output: PhantomData<O>,
    measured: Ghost<Seq<(usize, u64)>>,
}

impl<F, G: Generator, O> GenFunc<F, G, O> where F: Fn(&G::Haystack, &G::Needle) -> O {
    /// The function accepts every haystack and needle.
    #[verifier::type_invariant]
    spec fn callable(self) -> bool {
        forall|h: &G::Haystack, n: &G::Needle| #[trigger] (*self.f).requires((h, n))
    }

    /// The name of the benchmark.
    pub closed spec fn name_view(self) -> Seq<char> {
        self.name@
    }

    /// A haystack has been generated and is used by the measurements.
    pub closed spec fn has_haystack(self) -> bool {
        self.haystack is Some
    }

    /// The haystack that the measurements use, once there is one.
    pub closed spec fn current_haystack(self) -> Option<G::Haystack> {
        self.haystack
    }

    /// The cell of the generator that makes the payloads; it can be shared with other targets.
    pub closed spec fn generator_cell(self) -> Rc<RefCell<G>> {
        self.g
    }

    /// The function under benchmark; it can be shared with other targets.
    pub closed spec fn function(self) -> Rc<F> {
        self.f
    }


    /// A benchmark of `f` on the payloads of `g`, named `name/<generator name>`.
    pub fn new(name: &str, f: F, g: G) -> (r: Self)
        requires
            forall|h: &G::Haystack, n: &G::Needle| #[trigger] f.requires((h, n)),
        ensures
            named_after(r.name_view(), name@),
            !r.has_haystack(),
            r.measurements() == Seq::<(usize, u64)>::empty(),
    {
        let f = Rc::new(f);
        let g = Rc::new(RefCell::new(g));
        Self::from_ref_cell(name, f, g)
    }

    /// A benchmark of the shared function `f` on the payloads of the shared generator `g`.
    ///
    /// The name ends with the generator's name; should the generator be borrowed mutably at the
    /// time, its name cannot be read and that part stays empty.
    fn from_ref_cell(name: &str, f: Rc<F>, g: Rc<RefCell<G>>) -> (r: Self)
        requires
            forall|h: &G::Haystack, n: &G::Needle| #[trigger] (*f).requires((h, n)),
        ensures
            named_after(r.name_view(), name@),
            !r.has_haystack(),
            r.generator_cell() == g,
            r.function() == f,
            r.measurements() == Seq::<(usize, u64)>::empty(),
    {
        let mut full_name = name.to_owned();
        let ghost generator_name: Seq<char>;
        let separator = "/";
        proof {
            reveal_strlit("/");
        }
        full_name.append(separator);
        match try_borrow_cell(&*g) {
            Ok(generator) => {
                let short = ref_value(&generator).name();
                full_name.append(short);
                proof {
                    generator_name = short@;
                }
            },
            Err(_) => {
                proof {
                    generator_name = Seq::empty();
                }
            },
        }
        let r = GenFunc {
            f,
            g,
            haystack: None,
            name: full_name,
            output: PhantomData,
            measured: Ghost(Seq::empty()),
        };
        assert(r.name_view() == joined_name(name@, generator_name));
        r
    }
}

impl<F, G: Generator, O> MeasureTarget for GenFunc<F, G, O> where
    F: Fn(&G::Haystack, &G::Needle) -> O,
 {
    /// Once there is a haystack, every measurement is recorded.
    closed spec fn records_measurements(&self) -> bool {
        self.haystack is Some
    }

    /// The calls of `measure` that ended with a haystack in place, in order.
    closed spec fn measurements(&self) -> Seq<(usize, u64)> {
        self.measured@
    }

    /// Measures with the haystack there is, or with a new one from the generator when there is
    /// none yet, and a fresh needle for each iteration. When the generator is borrowed elsewhere,
    /// no payload can be made: nothing is measured and the result is 0.
    fn measure(&mut self, iterations: usize) -> (r: u64)
        ensures
            old(self).has_haystack() ==> final(self).current_haystack() == old(
                self,
            ).current_haystack(),
            !final(self).has_haystack() ==> r == 0 && *final(self) == *old(self),
            final(self).name_view() == old(self).name_view(),
            final(self).generator_cell() == old(self).generator_cell(),
            final(self).function() == old(self).function(),
            final(self).has_haystack() ==> final(self).measurements() == old(
                self,
            ).measurements().push((iterations, r)),
    {
        proof {
            use_type_invariant(&*self);
        }
        let mut generator = match try_borrow_cell_mut(&*self.g) {
            Ok(generator) => generator,
            Err(_) => {
                if self.haystack.is_some() {
                    proof {
                        self.measured@ = self.measured@.push((iterations, 0u64));
                    }
                }
                return 0;
            },
        };
        let mut current = None;
        std::mem::swap(&mut current, &mut self.haystack);
        ensure_haystack(ref_mut_value(&mut generator), &mut current);
        self.haystack = current;
        let haystack = self.haystack.as_ref().unwrap();
        let f = &*self.f;
        let mut result: Vec<O> = Vec::with_capacity(iterations);
        let start = ActiveTimer::start();
        let mut i: usize = 0;
        while i < iterations
            invariant
                forall|h: &G::Haystack, n: &G::Needle| #[trigger] f.requires((h, n)),
            decreases iterations - i,
        {
            let needle = ref_mut_value(&mut generator).next_needle(haystack);
            result.push(black_box(f(haystack, &needle)));
            i = i + 1;
        }
        let time = ActiveTimer::stop(start);
        proof {
            self.measured@ = self.measured@.push((iterations, time));
        }
        time
    }

    fn estimate_iterations(&mut self, time_ms: u32) -> (r: usize)
        ensures
            exists|measures: Seq<u64>|
                measures.len() == 11 && r == #[trigger] estimate_from(time_ms, measures),
            old(self).has_haystack() ==> final(self).current_haystack() == old(
                self,
            ).current_haystack(),
            old(self).has_haystack() ==> exists|measures: Seq<u64>|
                #![trigger estimate_from(time_ms, measures)]
                measures.len() == 11 && r == estimate_from(time_ms, measures)
                    && final(self).measurements() == old(self).measurements() + single_iterations(
                    measures,
                ),
            final(self).name_view() == old(self).name_view(),
    {
        // Here we rely on the fact that measure() is not generating a new haystack
        // without a call to next_haystack()
        let mut measurements: Vec<u64> = Vec::new();
        let ghost start = *self;
        let mut i: usize = 0;
        while i < 11
            invariant
                i <= 11,
                measurements@.len() == i,
                start.has_haystack() ==> self.current_haystack() == start.current_haystack(),
                start.has_haystack() ==> self.measurements() == start.measurements()
                    + single_iterations(measurements@),
                self.name_view() == start.name_view(),
            decreases 11 - i,
        {
            let ghost taken = measurements@;
            let time = self.measure(1);
            measurements.push(time);
            proof {
                assert(single_iterations(measurements@) =~= single_iterations(taken).push(
                    (1usize, time),
                ));
                assert(start.measurements() + single_iterations(measurements@) =~= (
                start.measurements() + single_iterations(taken)).push((1usize, time)));
            }
            i = i + 1;
        }
        let ghost taken = measurements@;
        let median = median(measurements);
        let r = iterations_within(time_ms, visible_duration(median));
        assert(r == estimate_from(time_ms, taken));
        r
    }

    /// Returns `false`, and changes nothing, when the generator is borrowed elsewhere.
    fn next_haystack(&mut self) -> (r: bool)
        ensures
            r ==> final(self).has_haystack(),
            !r ==> *final(self) == *old(self),
            final(self).name_view() == old(self).name_view(),
            final(self).generator_cell() == old(self).generator_cell(),
            final(self).function() == old(self).function(),
    {
        proof {
            use_type_invariant(&*self);
        }
        match try_borrow_cell_mut(&*self.g) {
            Ok(mut generator) => {
                let mut current = None;
                std::mem::swap(&mut current, &mut self.haystack);
                renew_haystack(ref_mut_value(&mut generator), &mut current);
                self.haystack = current;
                true
            },
            Err(_) => false,
        }
    }

    fn name(&self) -> (r: &str)
        ensures
            r@ == self.name_view(),
    {
        self.name.as_str()
    }

    fn reset(&mut self, seed: u64)
        ensures
            *final(self) == *old(self),
            final(self).name_view() == old(self).name_view(),
            final(self).has_haystack() == old(self).has_haystack(),
    {
        if let Ok(mut generator) = try_borrow_cell_mut(&*self.g) {
            ref_mut_value(&mut generator).reset(seed);
        }
    }
}

/// `generator` applied to each parameter, in the order of the parameters.
fn generators_from<P, G, F: Fn(P) -> G>(params: Vec<P>, generator: &F) -> (r: Vec<G>)
    requires
        forall|p: P| #[trigger] generator.requires((p,)),
    ensures
        r@.len() == params@.len(),
        forall|i: int| 0 <= i < params@.len() ==> generator.ensures((params@[i],), #[trigger] r@[i]),
{
    let ghost items = params@;
    let mut generators: Vec<G> = Vec::new();
    for p in it: params
        invariant
            it.seq() == items,
            generators@.len() == it.index(),
            forall|p: P| #[trigger] generator.requires((p,)),
            forall|i: int| 0 <= i < it.index() ==> generator.ensures((items[i],), #[trigger] generators@[i]),
    {
        generators.push(generator(p));
    }
    generators
}

/// A generator in a cell of its own, to be shared by the benchmarks that use it, together with
/// the generator as it was when the cell was made.
#[verifier::reject_recursive_types(G)]
pub struct SharedGenerator<G> {
    cell: Rc<RefCell<G>>,
    created: Ghost<G>,
}

impl<G> SharedGenerator<G> {
    /// The cell that the benchmarks share.
    pub closed spec fn cell(self) -> Rc<RefCell<G>> {
        self.cell
    }

    /// The generator the cell was made with.
    pub closed spec fn created(self) -> G {
        self.created@
    }

    /// `generator` in a new cell.
    fn new(generator: G) -> (r: Self)
        ensures
            r.created() == generator,
    {
        let ghost made = generator;
        SharedGenerator { cell: Rc::new(RefCell::new(generator)), created: Ghost(made) }
    }
}

/// Each generator in a cell of its own, in the order of the generators.
fn shared_cells<G>(generators: Vec<G>) -> (r: Vec<SharedGenerator<G>>)
    ensures
        r@.len() == generators@.len(),
        forall|k: int| 0 <= k < r@.len() ==> (#[trigger] r@[k]).created() == generators@[k],
{
    let ghost items = generators@;
    let mut cells: Vec<SharedGenerator<G>> = Vec::new();
    for g in it: generators
        invariant
            it.seq() == items,
            cells@.len() == it.index(),
            forall|k: int| 0 <= k < it.index() ==> (#[trigger] cells@[k]).created() == items[k],
    {
        cells.push(SharedGenerator::new(g));
    }
    cells
}

/// The benchmarks of the shared function `f` with each of `generators`, in their order: the
/// `k`-th uses the `k`-th generator, and all of them use `f`.
fn targets_for<F, G: Generator, O>(name: &str, f: &Rc<F>, generators: &Vec<SharedGenerator<G>>) -> (r:
    Vec<GenFunc<F, G, O>>) where F: Fn(&G::Haystack, &G::Needle) -> O
    requires
        forall|h: &G::Haystack, n: &G::Needle| #[trigger] (**f).requires((h, n)),
    ensures
        r@.len() == generators@.len(),
        forall|k: int|
            #![trigger r@[k]]
            0 <= k < r@.len() ==> {
                &&& r@[k].generator_cell() == generators@[k].cell()
                &&& r@[k].function() == *f
                &&& named_after(r@[k].name_view(), name@)
                &&& !r@[k].has_haystack()
            },
{
    let mut targets: Vec<GenFunc<F, G, O>> = Vec::new();
    let n = generators.len();
    let mut i: usize = 0;
    while i < n
        invariant
            n == generators@.len(),
            i <= n,
            targets@.len() == i,
            forall|h: &G::Haystack, n: &G::Needle| #[trigger] (**f).requires((h, n)),
            forall|k: int|
                #![trigger targets@[k]]
                0 <= k < i ==> {
                    &&& targets@[k].generator_cell() == generators@[k].cell()
                    &&& targets@[k].function() == *f
                    &&& named_after(targets@[k].name_view(), name@)
                    &&& !targets@[k].has_haystack()
                },
        decreases n - i,
    {
        let target = GenFunc::from_ref_cell(name, share(f), share(&generators[i].cell));
        targets.push(target);
        i = i + 1;
    }
    targets
}

/// Matrix of functions is used to perform benchmark with different generator strategies
///
/// It is a common task to benchmark function with different payload size and/or different
/// structure of the payload. `BenchmarkMatrix` creates a new [`MeasureTarget`] for each unique
/// combination of [`Generator`] and tested function.
#[verifier::reject_recursive_types(G)]
pub struct BenchmarkMatrix<G> {
    generators: Vec<SharedGenerator<G>>,
    functions: Vec<Box<dyn MeasureTarget>>,
}

impl<G> BenchmarkMatrix<G> {
    /// The generators, in the order they were added.
    pub closed spec fn generator_cells(self) -> Seq<Rc<RefCell<G>>> {
        self.generators@.map_values(|g: SharedGenerator<G>| g.cell())
    }

    /// The generators as they were made, in the order they were added.
    pub closed spec fn generators_created(self) -> Seq<G> {
        self.generators@.map_values(|g: SharedGenerator<G>| g.created())
    }

    /// The benchmarks created so far, in the order they were created.
    pub closed spec fn targets(self) -> Seq<Box<dyn MeasureTarget>> {
        self.functions@
    }

    /// The number of generators.
    pub open spec fn generator_count(self) -> nat {
        self.generator_cells().len()
    }

    /// The number of benchmarks created so far, one per function and generator.
    pub open spec fn function_count(self) -> nat {
        self.targets().len()
    }
}

impl<G: Generator> BenchmarkMatrix<G> {
    /// A matrix with a single generator and no functions.
    pub fn new(generator: G) -> (r: Self)
        ensures
            r.generator_count() == 1,
            r.generators_created() == seq![generator],
            r.targets() == Seq::<Box<dyn MeasureTarget>>::empty(),
    {
        let ghost made = generator;
        let generator = SharedGenerator::new(generator);
        let r = Self { generators: vec![generator], functions: Vec::new() };
        assert(r.generators_created() =~= seq![made]);
        r
    }

    /// New matrix with generator created for a given set of parameters
    pub fn with_params<P, F: Fn(P) -> G>(params: Vec<P>, generator: F) -> (r: Self)
        requires
            forall|p: P| #[trigger] generator.requires((p,)),
        ensures
            r.generator_count() == params@.len(),
            r.generators_created().len() == params@.len(),
            forall|k: int|
                0 <= k < params@.len() ==> generator.ensures(
                    (params@[k],),
                    #[trigger] r.generators_created()[k],
                ),
            r.targets() == Seq::<Box<dyn MeasureTarget>>::empty(),
    {
        let ghost items = params@;
        let generators = shared_cells(generators_from(params, &generator));
        let r = Self { generators, functions: Vec::new() };
        assert forall|k: int| 0 <= k < items.len() implies generator.ensures(
            (items[k],),
            #[trigger] r.generators_created()[k],
        ) by {
            assert(r.generators_created()[k] == r.generators@[k].created());
        }
        r
    }

    /// Adds a generator for each of the given parameters.
    pub fn add_generators_with_params<P, F: Fn(P) -> G>(self, params: Vec<P>, generator: F) -> (r:
        Self)
        requires
            forall|p: P| #[trigger] generator.requires((p,)),
        ensures
            r.targets() == self.targets(),
            r.generator_count() == self.generator_count() + params@.len(),
            r.generator_cells().subrange(0, self.generator_count() as int)
                == self.generator_cells(),
            r.generators_created().len() == self.generators_created().len() + params@.len(),
            r.generators_created().subrange(0, self.generator_count() as int)
                == self.generators_created(),
            forall|k: int|
                0 <= k < params@.len() ==> generator.ensures(
                    (params@[k],),
                    #[trigger] r.generators_created()[self.generator_count() + k],
                ),
    {
        let ghost items = params@;
        let mut this = self;
        let mut generators = shared_cells(generators_from(params, &generator));
        let ghost added = generators@;
        this.generators.append(&mut generators);
        proof {
            let m = self.generators@.len() as int;
            assert(this.generators@ == self.generators@ + added);
            assert(this.generator_cells().subrange(0, m) =~= self.generator_cells());
            assert(this.generators_created().subrange(0, m) =~= self.generators_created());
            assert forall|k: int| 0 <= k < items.len() implies generator.ensures(
                (items[k],),
                #[trigger] this.generators_created()[m + k],
            ) by {
                assert(this.generators@[m + k] == added[k]);
            }
        }
        this
    }

    /// Adds a benchmark of `f` with each of the generators, named `name/<generator name>`.
    pub fn add_function<F, O>(self, name: &str, f: F) -> (r: Self) where
        G: 'static,
        F: Fn(&G::Haystack, &G::Needle) -> O + 'static,
        O: 'static,
        requires
            forall|h: &G::Haystack, n: &G::Needle| #[trigger] f.requires((h, n)),
        ensures
            r.generator_cells() == self.generator_cells(),
            r.generators_created() == self.generators_created(),
            r.function_count() == self.function_count() + self.generator_count(),
            r.targets().subrange(0, self.function_count() as int) == self.targets(),
    {
        let mut this = self;
        let f = Rc::new(f);
        let targets = targets_for(name, &f, &this.generators);
        let ghost start = this.functions@;
        for target in it: targets
            invariant
                this.generators@ == self.generators@,
                start == self.functions@,
                this.functions@.len() == start.len() + it.index(),
                this.functions@.subrange(0, start.len() as int) == start,
        {
            let boxed: Box<dyn MeasureTarget> = Box::new(target);
            let ghost before = this.functions@;
            this.functions.push(boxed);
            proof {
                // The axioms of `push` have to be named for boxed trait objects.
                vstd::seq::axiom_seq_push_len(before, boxed);
                let k = start.len() as int;
                assert forall|j: int| 0 <= j < k implies this.functions@.subrange(0, k)[j]
                    == start[j] by {
                    vstd::seq::axiom_seq_push_index_different(before, boxed, j);
                    assert(before.subrange(0, k)[j] == start[j]);
                }
                assert(this.functions@.subrange(0, k) =~= start);
            }
        }
        this
    }
}

/// A function is benchmarked with the generators present when it is added, and only with them:
/// starting from a matrix with `m` generators and `t` benchmarks, adding a function and then `n`
/// generators leaves `t + m` benchmarks, while adding the `n` generators first and the function
/// after them leaves `t + m + n`. Each step is related to the one before it as `add_function`
/// and `add_generators_with_params` promise.
pub proof fn law_function_uses_generators_present<G>(
    start: BenchmarkMatrix<G>,
    function_added: BenchmarkMatrix<G>,
    then_generators_added: BenchmarkMatrix<G>,
    generators_added: BenchmarkMatrix<G>,
    then_function_added: BenchmarkMatrix<G>,
    n: nat,
)
    requires
        function_added.generator_cells() == start.generator_cells(),
        function_added.function_count() == start.function_count() + start.generator_count(),
        then_generators_added.targets() == function_added.targets(),
        then_generators_added.generator_count() == function_added.generator_count() + n,
        generators_added.targets() == start.targets(),
        generators_added.generator_count() == start.generator_count() + n,
        then_function_added.function_count() == generators_added.function_count()
            + generators_added.generator_count(),
    ensures
        then_generators_added.function_count() == start.function_count() + start.generator_count(),
        then_function_added.function_count() == start.function_count() + start.generator_count()
            + n,
{
}

/// A collection of benchmarks.
pub trait IntoBenchmarks {
    /// The collection is ready to be turned into benchmarks (unless it says otherwise, always).
    open spec fn has_benchmarks(&self) -> bool {
        true
    }

    /// The benchmarks of the collection.
    fn into_benchmarks(self) -> Vec<Box<dyn MeasureTarget>>
        requires
            self.has_benchmarks(),
    ;
}

impl<G> IntoBenchmarks for BenchmarkMatrix<G> {
    /// At least one function was added.
    open spec fn has_benchmarks(&self) -> bool {
        self.function_count() > 0
    }

    fn into_benchmarks(self) -> (r: Vec<Box<dyn MeasureTarget>>)
        ensures
            r@ == self.targets(),
    {
        self.functions
    }
}

/// `Vec::from` an array: the array's items, moved into a vector in order.
#[verifier::external_body]
fn array_into_vec<T, const N: usize>(items: [T; N]) -> (r: Vec<T>)
    ensures
        r@ == items@,
{
    Vec::from(items)
}

impl<const N: usize> IntoBenchmarks for [Box<dyn MeasureTarget>; N] {
    fn into_benchmarks(self) -> (r: Vec<Box<dyn MeasureTarget>>)
        ensures
            r@ == self@,
    {
        array_into_vec(self)
    }
}

impl IntoBenchmarks for Vec<Box<dyn MeasureTarget>> {
    fn into_benchmarks(self) -> (r: Vec<Box<dyn MeasureTarget>>)
        ensures
            r@ == self@,
    {
        self
    }
}

} // verus!
