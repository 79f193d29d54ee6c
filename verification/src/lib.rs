//! Verified core of `tango_bench`, a harness that benchmarks two versions of a function against
//! each other: the targets under measurement and their payload generators, the statistics that
//! turn paired measurements into per-iteration differences with outliers removed, and the
//! settings of the measurement process.
pub mod error;
pub mod names;
pub mod run;
pub mod sample;
pub mod settings;
pub mod stats;
pub mod summary;
pub mod target;
pub mod timer;

pub use error::Error;
pub use names::short_type_name;
pub use run::{filter_measurements, RunMeasurements};
pub use sample::{sort_samples, Sample};
pub use settings::MeasurementSettings;
pub use stats::{iqr_variance_thresholds, median};
pub use summary::RunningBounds;
pub use target::{
    iterations_within, median_execution_time, BenchmarkMatrix, GenFunc, Generator,
    IntoBenchmarks, MeasureTarget, SimpleFunc, NS_TO_MS,
};
pub use timer::{ActiveTimer, PlatformTimer, Timer};
