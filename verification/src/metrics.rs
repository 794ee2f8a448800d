//! Request metrics, emitted through the `metrics` facade to whichever recorder
//! the process has installed.

use vstd::prelude::*;
use core::time::Duration;

verus! {

/// The name of the request counter.
pub const REQUESTS_TOTAL: &'static str = "requests_total";

/// The name of the processing-time histogram, in seconds.
pub const PROCESSING_TIME_SECONDS: &'static str = "processing_time_seconds";

/// The module that the metrics are reported under, as target and as module path.
pub const MODULE: &'static str = "audio_agent::metrics";

/// Adds `by` to the counter `name`, reported under `module` as target and
/// module path: `metrics::with_recorder` with `Recorder::register_counter`,
/// then `Counter::increment`. What is recorded depends on the recorder that the
/// process installed, so nothing is claimed.
#[verifier::external_body]
fn increment_counter(name: &'static str, module: &'static str, by: u64) {
    let key = ::metrics::Key::from_static_name(name);
    let metadata = ::metrics::Metadata::new(module, ::metrics::Level::INFO, Some(module));
    ::metrics::with_recorder(|recorder| recorder.register_counter(&key, &metadata)).increment(by);
}

/// Records `value` in the histogram `name`, reported under `module` as target
/// and module path: `metrics::with_recorder` with
/// `Recorder::register_histogram`, then `Histogram::record`, which takes a
/// duration as its length in seconds. What is recorded depends on the recorder
/// that the process installed, so nothing is claimed.
#[verifier::external_body]
fn record_histogram(name: &'static str, module: &'static str, value: Duration) {
    let key = ::metrics::Key::from_static_name(name);
    let metadata = ::metrics::Metadata::new(module, ::metrics::Level::INFO, Some(module));
    ::metrics::with_recorder(|recorder| recorder.register_histogram(&key, &metadata)).record(value);
}

/// Handle through which the service reports what it does.
pub struct Metrics;

impl Metrics {
    pub fn new() -> Self {
        Metrics
    }

    /// Counts one request.
    pub fn record_request(&self) {
        increment_counter(REQUESTS_TOTAL, MODULE, 1);
    }

    /// Records how long one request took.
    pub fn record_processing_time(&self, duration: Duration) {
        record_histogram(PROCESSING_TIME_SECONDS, MODULE, duration);
    }
}

} // verus!
