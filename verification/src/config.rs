//! Settings of a pipeline.

use vstd::prelude::*;

verus! {

/// A file system path, carried through to whoever opens it.
#[verifier::external_type_specification]
#[verifier::external_body]
pub struct ExPathBuf(std::path::PathBuf);

/// The duration of the given number of milliseconds, as the standard library makes it.
pub uninterp spec fn duration_of_millis(millis: u64) -> std::time::Duration;

/// `std::time::Duration::from_millis`: the duration is a function of the number of milliseconds
/// alone. Nothing is said of what is inside it.
pub assume_specification[ std::time::Duration::from_millis ](millis: u64) -> (duration:
    std::time::Duration)
    ensures
        duration == duration_of_millis(millis),
;

/// `std::path::PathBuf::clone`: the copy is the same path.
pub assume_specification[ <std::path::PathBuf as Clone>::clone ](path: &std::path::PathBuf) -> (copy:
    std::path::PathBuf)
    ensures
        copy == *path,
;

/// Settings of a pool of identical workers.
#[derive(Debug)]
pub struct PipeConfig {
    pub num_workers: usize,
    pub poll_interval: std::time::Duration,
    pub cancel: std::sync::Arc<std::sync::atomic::AtomicBool>,
}

impl Clone for PipeConfig {
    /// The same settings, with the same flag.
    fn clone(&self) -> (r: Self)
        ensures
            r == *self,
    {
        PipeConfig {
            num_workers: self.num_workers,
            poll_interval: self.poll_interval,
            cancel: self.cancel.clone(),
        }
    }
}

/// Settings of a pipeline.
#[derive(Debug)]
pub struct PiperConfig {
    pub sample_interval: std::time::Duration,
    pub poll_interval: std::time::Duration,
    pub global_worker_cap: Option<usize>,
    pub csv_telemetry: Option<TelemetryLogConfig>,
}

impl Clone for PiperConfig {
    /// The same settings.
    fn clone(&self) -> (r: Self)
        ensures
            r == *self,
    {
        PiperConfig {
            sample_interval: self.sample_interval,
            poll_interval: self.poll_interval,
            global_worker_cap: self.global_worker_cap,
            csv_telemetry: match &self.csv_telemetry {
                Some(log) => Some(log.clone()),
                None => None,
            },
        }
    }
}

impl Default for PiperConfig {
    /// Samples and polls every ten milliseconds, without a worker cap and without a telemetry log.
    fn default() -> (r: Self)
        ensures
            r.sample_interval == duration_of_millis(10),
            r.poll_interval == duration_of_millis(10),
            r.global_worker_cap is None,
            r.csv_telemetry is None,
    {
        PiperConfig {
            sample_interval: std::time::Duration::from_millis(10),
            poll_interval: std::time::Duration::from_millis(10),
            global_worker_cap: None,
            csv_telemetry: None,
        }
    }
}

/// Where and how often telemetry is written.
#[derive(Debug)]
pub struct TelemetryLogConfig {
    pub path: std::path::PathBuf,
    pub interval: std::time::Duration,
}

impl Clone for TelemetryLogConfig {
    /// The same path and interval.
    fn clone(&self) -> (r: Self)
        ensures
            r == *self,
    {
        TelemetryLogConfig { path: self.path.clone(), interval: self.interval }
    }
}

impl TelemetryLogConfig {
    /// A log at `path`, written four times a second.
    pub fn new<P: Into<std::path::PathBuf>>(path: P) -> (r: Self)
        ensures
            call_ensures(P::into, (path,), r.path),
            r.interval == duration_of_millis(250),
    {
        TelemetryLogConfig { path: path.into(), interval: std::time::Duration::from_millis(250) }
    }

    /// The same log with another interval.
    pub fn interval(self, interval: std::time::Duration) -> (r: Self)
        ensures
            r.path == self.path,
            r.interval == interval,
    {
        TelemetryLogConfig { path: self.path, interval }
    }
}

/// Settings of a link that hands its items out through a feeder. All three counts are positive.
#[derive(Clone, Copy, Debug, PartialEq, Eq, Structural)]
pub struct FeederLinkConfig {
    pub scheduler_threads: usize,
    pub water_low: usize,
    pub water_high: usize,
}

impl FeederLinkConfig {
    /// Whether all counts are positive.
    pub open spec fn wf(self) -> bool {
        self.scheduler_threads > 0 && self.water_low > 0 && self.water_high > 0
    }

    /// A configuration with the given counts.
    pub fn new(scheduler_threads: usize, water_low: usize, water_high: usize) -> (r: Self)
        requires
            scheduler_threads > 0,
            water_low > 0,
            water_high > 0,
        ensures
            r == (FeederLinkConfig { scheduler_threads, water_low, water_high }),
            r.wf(),
    {
        FeederLinkConfig { scheduler_threads, water_low, water_high }
    }
}

impl Default for FeederLinkConfig {
    /// Four scheduler threads, and water marks of sixteen and sixty-four items.
    fn default() -> (r: Self)
        ensures
            r == (FeederLinkConfig { scheduler_threads: 4, water_low: 16, water_high: 64 }),
            r.wf(),
    {
        FeederLinkConfig { scheduler_threads: 4, water_low: 16, water_high: 64 }
    }
}

/// Settings of a branch that divides its items between two links.
#[derive(Clone, Copy, Debug)]
pub struct SingleThreadWeightedBranchConfig<R> {
    pub target_queue_seconds: R,
    /// Whether `target_queue_seconds` is a positive finite number.
    pub target_is_usable: bool,
    /// The half life of the branch's averages, in nanoseconds.
    pub ewma_half_life: u128,
}

} // verus!
