//! Settings of the measurement process.
use vstd::prelude::*;
use std::time::Duration;

verus! {

/// The duration of `millis` milliseconds, as `Duration::from_millis` makes it.
pub uninterp spec fn duration_of_millis(millis: u64) -> Duration;

/// `Duration::from_millis`: the duration of `millis` milliseconds. The result is named by
/// `duration_of_millis`; the duration itself is opaque here.
pub assume_specification[ Duration::from_millis ](millis: u64) -> (d: Duration)
    ensures
        d == duration_of_millis(millis),
;

/// Describes basic settings for the benchmarking process
///
/// Should be created only with overriding needed properties, like so:
/// ```rust
/// use tango_bench::MeasurementSettings;
///
/// let settings = MeasurementSettings {
///     max_samples: 10_000,
///     ..Default::default()
/// };
/// ```
#[derive(Clone, Copy, Debug)]
pub struct MeasurementSettings {
    pub max_samples: usize,
    pub max_duration: Duration,
    pub outlier_detection_enabled: bool,
    /// The number of samples per one generated haystack
    pub samples_per_haystack: usize,
    /// Minimum number of iterations in a sample for each of 2 tested functions
    pub min_iterations_per_sample: usize,
    /// The number of iterations in a sample for each of 2 tested functions
    pub max_iterations_per_sample: usize,
}

impl Default for MeasurementSettings {
    /// At most a million samples within 100 ms, outliers filtered out, a new haystack for every
    /// sample, and between 1 and 5000 iterations per sample.
    fn default() -> (r: Self)
        ensures
            r.max_samples == 1_000_000,
            r.max_duration == duration_of_millis(100),
            r.outlier_detection_enabled,
            r.samples_per_haystack == 1,
            r.min_iterations_per_sample == 1,
            r.max_iterations_per_sample == 5000,
    {
        MeasurementSettings {
            max_samples: 1_000_000,
            max_duration: Duration::from_millis(100),
            outlier_detection_enabled: true,
            samples_per_haystack: 1,
            min_iterations_per_sample: 1,
            max_iterations_per_sample: 5000,
        }
    }
}

} // verus!
