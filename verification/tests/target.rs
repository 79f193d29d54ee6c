use std::time::{Duration, Instant};
use tango_bench::{
    iterations_within, median_execution_time, short_type_name, BenchmarkMatrix, GenFunc,
    Generator, IntoBenchmarks, MeasureTarget, MeasurementSettings, SimpleFunc, NS_TO_MS,
};

struct CountingGen {
    size: usize,
    haystacks: usize,
    needles: usize,
    seed: u64,
}

impl CountingGen {
    fn new(size: usize) -> Self {
        CountingGen { size, haystacks: 0, needles: 0, seed: 0 }
    }
}

impl Generator for CountingGen {
    type Haystack = Vec<usize>;
    type Needle = usize;

    fn next_haystack(&mut self) -> Vec<usize> {
        self.haystacks += 1;
        (0..self.size).collect()
    }

    fn next_needle(&mut self, haystack: &Vec<usize>) -> usize {
        self.needles += 1;
        haystack.len()
    }

    fn reset(&mut self, seed: u64) {
        self.seed = seed;
    }

    fn name(&self) -> &str {
        "CountingGen"
    }
}

fn total(h: &Vec<usize>, n: &usize) -> usize {
    h.iter().sum::<usize>() + n
}

struct Scripted {
    values: Vec<u64>,
    next: usize,
}

impl MeasureTarget for Scripted {
    fn measure(&mut self, _iterations: usize) -> u64 {
        let v = self.values[self.next % self.values.len()];
        self.next += 1;
        v
    }
    fn estimate_iterations(&mut self, _time_ms: u32) -> usize {
        1
    }
    fn next_haystack(&mut self) -> bool {
        false
    }
    fn reset(&mut self, _seed: u64) {}
    fn name(&self) -> &str {
        "scripted"
    }
}

#[test]
fn simple_func_keeps_its_name() {
    let mut f = SimpleFunc::new("foo", || 42);
    assert_eq!(f.name(), "foo");
    assert!(!f.next_haystack());
    let _ = f.measure(10);
}

#[test]
fn gen_func_is_named_after_function_and_generator() {
    let f = GenFunc::new("sum", total, CountingGen::new(3));
    assert_eq!(f.name(), "sum/CountingGen");
}

#[test]
fn gen_func_keeps_haystack_between_measurements() {
    let mut f = GenFunc::new("sum", total, CountingGen::new(3));
    let _ = f.measure(5);
    let _ = f.measure(2);
    let _ = f.estimate_iterations(1);
    assert!(f.next_haystack());
    let _ = f.measure(1);
    f.reset(9);
    assert_eq!(f.name(), "sum/CountingGen");
}

#[test]
fn matrix_pairs_every_function_with_every_generator() {
    let benchmarks = BenchmarkMatrix::with_params(vec![1, 2, 3], CountingGen::new)
        .add_function("a", total)
        .add_function("b", |h: &Vec<usize>, _: &usize| h.len())
        .into_benchmarks();
    assert_eq!(benchmarks.len(), 6);
    let names: Vec<&str> = benchmarks.iter().map(|b| b.name()).collect();
    assert_eq!(
        names,
        vec![
            "a/CountingGen",
            "a/CountingGen",
            "a/CountingGen",
            "b/CountingGen",
            "b/CountingGen",
            "b/CountingGen"
        ]
    );
}

#[test]
fn matrix_generators_added_later_serve_later_functions() {
    let benchmarks = BenchmarkMatrix::new(CountingGen::new(1))
        .add_function("a", total)
        .add_generators_with_params(vec![5, 6], CountingGen::new)
        .add_function("b", total)
        .into_benchmarks();
    assert_eq!(benchmarks.len(), 1 + 3);
}

#[test]
fn vec_and_array_into_benchmarks() {
    let a: Box<dyn MeasureTarget> = Box::new(SimpleFunc::new("x", || 1));
    let b: Box<dyn MeasureTarget> = Box::new(SimpleFunc::new("y", || 2));
    let v = [a, b].into_benchmarks();
    assert_eq!(v.len(), 2);
    assert_eq!(v[0].name(), "x");
    let w = v.into_benchmarks();
    assert_eq!(w[1].name(), "y");
}

#[test]
fn median_execution_time_takes_median_of_measurements() {
    let mut t = Scripted { values: vec![5, 1, 9, 3, 7], next: 0 };
    assert_eq!(median_execution_time(&mut t, 5), 5);
    let mut t = Scripted { values: vec![40, 10, 30, 20], next: 0 };
    assert_eq!(median_execution_time(&mut t, 4), 30);
}

#[test]
fn check_measure_time() {
    let expected_delay = 1;
    let mut target = SimpleFunc::new("foo", move || {
        let start = Instant::now();
        while start.elapsed() < Duration::from_millis(expected_delay) {}
    });

    let median = median_execution_time(&mut target, 10) / NS_TO_MS as u64;
    assert!(median < expected_delay * 10);
}

#[test]
fn iterations_within_time_span() {
    assert_eq!(iterations_within(10, 1_000_000), 10);
    assert_eq!(iterations_within(1, 3), 333_333);
    assert_eq!(iterations_within(0, 5), 0);
}

#[test]
fn iteration_longer_than_time_span_fits_zero_times() {
    assert_eq!(iterations_within(1, 2_000_000), 0);
}


#[test]
fn short_type_name_drops_module_path() {
    assert_eq!(short_type_name("my_crate::generators::RandomVec"), "RandomVec");
    assert_eq!(short_type_name("RandomVec"), "RandomVec");
    assert_eq!(short_type_name("a:::b"), "b");
    assert_eq!(short_type_name("core::option::Option<alloc::string::String>"), "String>");
    assert_eq!(short_type_name("ünï::cödé"), "cödé");
    assert_eq!(short_type_name(""), "");
    for name in ["a::b::c", "::", "x:::::y", "Vec<a::B>"] {
        assert!(!short_type_name(name).contains("::"));
    }
}

#[test]
fn default_settings() {
    let s = MeasurementSettings::default();
    assert_eq!(s.max_samples, 1_000_000);
    assert_eq!(s.max_duration, Duration::from_millis(100));
    assert!(s.outlier_detection_enabled);
    assert_eq!(s.samples_per_haystack, 1);
    assert_eq!(s.min_iterations_per_sample, 1);
    assert_eq!(s.max_iterations_per_sample, 5000);
}

#[test]
fn settings_override_with_defaults() {
    let s = MeasurementSettings { max_samples: 10_000, ..Default::default() };
    assert_eq!(s.max_samples, 10_000);
    assert_eq!(s.max_iterations_per_sample, 5000);
}

struct Pair;

impl IntoBenchmarks for Pair {
    fn into_benchmarks(self) -> Vec<Box<dyn MeasureTarget>> {
        vec![Box::new(SimpleFunc::new("p", || 0)), Box::new(SimpleFunc::new("q", || 1))]
    }
}

#[test]
fn user_collections_into_benchmarks() {
    let v = Pair.into_benchmarks();
    assert_eq!(v.len(), 2);
    assert_eq!(v[1].name(), "q");
}

struct SizedGen {
    label: String,
    size: usize,
}

impl SizedGen {
    fn new(size: usize) -> Self {
        SizedGen { label: format!("Sized{}", size), size }
    }
}

impl Generator for SizedGen {
    type Haystack = Vec<usize>;
    type Needle = ();

    fn next_haystack(&mut self) -> Vec<usize> {
        vec![1; self.size]
    }

    fn next_needle(&mut self, _haystack: &Vec<usize>) {}

    fn reset(&mut self, _seed: u64) {}

    fn name(&self) -> &str {
        &self.label
    }
}

fn count(h: &Vec<usize>, _: &()) -> usize {
    h.len()
}

#[test]
fn matrix_generators_added_after_a_function_extend_none() {
    let benchmarks = BenchmarkMatrix::new(SizedGen::new(1))
        .add_function("f", count)
        .add_generators_with_params(vec![2, 3], SizedGen::new)
        .into_benchmarks();
    assert_eq!(benchmarks.len(), 1);
    assert_eq!(benchmarks[0].name(), "f/Sized1");
}

#[test]
fn matrix_targets_follow_functions_then_generators() {
    let benchmarks = BenchmarkMatrix::with_params(vec![10, 20, 30], SizedGen::new)
        .add_function("f", count)
        .add_function("g", count)
        .into_benchmarks();
    let names: Vec<&str> = benchmarks.iter().map(|b| b.name()).collect();
    assert_eq!(
        names,
        vec!["f/Sized10", "f/Sized20", "f/Sized30", "g/Sized10", "g/Sized20", "g/Sized30"]
    );
}

#[test]
fn gen_func_measures_without_an_explicit_haystack() {
    let mut t = GenFunc::new("count", count, SizedGen::new(4));
    let _ = t.measure(3);
    assert!(t.next_haystack());
    let _ = t.measure(3);
}
