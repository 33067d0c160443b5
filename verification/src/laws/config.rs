//! What pipelines are set to.

use crate::config::{
    duration_of_millis, FeederLinkConfig, PipeConfig, PiperConfig, TelemetryLogConfig,
};
use vstd::prelude::*;

verus! {

/// By default a pipeline samples and polls every ten milliseconds, with as many workers as the machine
/// allows and without a log; a feeder has four threads and its water marks at sixteen and sixty-four.
pub proof fn defaults_are_set(pipeline: PiperConfig, feeder: FeederLinkConfig)
    requires
        call_ensures(<PiperConfig as Default>::default, (), pipeline),
        call_ensures(<FeederLinkConfig as Default>::default, (), feeder),
    ensures
        pipeline.sample_interval == duration_of_millis(10),
        pipeline.poll_interval == duration_of_millis(10),
        pipeline.global_worker_cap is None,
        pipeline.csv_telemetry is None,
        feeder.scheduler_threads == 4,
        feeder.water_low == 16,
        feeder.water_high == 64,
{
}

/// Settings are what they were given, and a copy is the same.
pub proof fn settings_are_kept(
    scheduler_threads: usize,
    water_low: usize,
    water_high: usize,
    feeder: FeederLinkConfig,
    log: TelemetryLogConfig,
    interval: std::time::Duration,
    changed: TelemetryLogConfig,
    pipeline: PiperConfig,
    copy: PiperConfig,
    pool: PipeConfig,
    other: PipeConfig,
)
    requires
        call_ensures(FeederLinkConfig::new, (scheduler_threads, water_low, water_high), feeder),
        call_ensures(TelemetryLogConfig::interval, (log, interval), changed),
        call_ensures(<PiperConfig as Clone>::clone, (&pipeline,), copy),
        call_ensures(<PipeConfig as Clone>::clone, (&pool,), other),
    ensures
        feeder.scheduler_threads == scheduler_threads,
        feeder.water_low == water_low,
        feeder.water_high == water_high,
        changed.path == log.path,
        changed.interval == interval,
        copy == pipeline,
        other == pool,
{
}

/// A log is written four times a second unless it is asked otherwise.
pub proof fn logs_are_written_four_times_a_second<P: Into<std::path::PathBuf>>(
    path: P,
    r: TelemetryLogConfig,
)
    requires
        call_ensures(TelemetryLogConfig::new::<P>, (path,), r),
    ensures
        r.interval == duration_of_millis(250),
        call_ensures(P::into, (path,), r.path),
{
}

} // verus!
