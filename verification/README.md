# tango_bench

The verified core of a benchmarking harness that measures two versions of a function against
each other, sample by sample.

- `src/` is the library, verified by Verus:
  - `stats.rs`: medians and the interquartile-range outlier thresholds;
  - `run.rs`: turning paired baseline and candidate measurements into per-iteration
    differences and dropping the outliers;
  - `summary.rs`: count, minimum and maximum of a stream of measurements;
  - `target.rs`: benchmark targets, payload generators and the benchmark matrix;
  - `names.rs`, `timer.rs`, `settings.rs`, `sample.rs`, `error.rs`: the pieces around them.
- `app/` holds what stays outside verification: the floating-point mean, variance and
  significance of a run, `benchmark_fn`, the error messages and the hardware timer.
- `tests/` runs the library on concrete inputs.
