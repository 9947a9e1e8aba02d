//! Clocks and the simulation's rates.
//!
//! Nothing is known of what a clock returns, so the functions that read one
//! promise nothing about their results. The simulation itself never reads a
//! clock: it is handed the time.

use crate::fixed::TICK;
use std::time::{Duration, Instant, SystemTime};
use vstd::prelude::*;

verus! {

/// Simulation ticks per second.
pub const SIMULATION_TPS: u32 = 30;

/// Snapshots per second.
pub const SNAPSHOT_TPS: u32 = 20;

/// Length of a tick in microseconds, rounded down.
pub const TICK_DURATION_MICROS: u64 = 33_333;

/// Time between snapshots in microseconds.
pub const SNAPSHOT_INTERVAL_MICROS: u64 = 50_000;

/// Time between checks of the matchmaking queue, in milliseconds.
pub const MATCHMAKING_PERIOD_MILLIS: u64 = 500;

/// A point on the monotonic clock.
#[verifier::external_type_specification]
#[verifier::external_body]
pub struct ExInstant(Instant);

/// A point on the wall clock.
#[verifier::external_type_specification]
#[verifier::external_body]
pub struct ExSystemTime(SystemTime);

/// Copies a point on the monotonic clock.
///
/// Trusted: `Instant::clone`; nothing is claimed of the copy.
pub assume_specification[ <Instant as Clone>::clone ](instant: &Instant) -> Instant;

/// Reads the wall clock.
///
/// Trusted: calls `SystemTime::now`.
#[verifier::external_body]
fn wall_clock_now() -> SystemTime {
    SystemTime::now()
}

/// Time from the Unix epoch to `t`; `None` where `t` lies before the epoch.
///
/// Trusted: calls `SystemTime::duration_since` with `UNIX_EPOCH` and drops
/// the error that it returns for an earlier time.
#[verifier::external_body]
fn since_unix_epoch(t: &SystemTime) -> Option<Duration> {
    t.duration_since(std::time::UNIX_EPOCH).ok()
}

/// Whole milliseconds in `d`.
///
/// Trusted: calls `Duration::as_millis`.
#[verifier::external_body]
fn whole_millis(d: &Duration) -> u128 {
    d.as_millis()
}

/// Whole microseconds in `d`.
///
/// Trusted: calls `Duration::as_micros`.
#[verifier::external_body]
fn whole_micros(d: &Duration) -> u128 {
    d.as_micros()
}

/// Whole seconds in `d`.
///
/// Trusted: calls `Duration::as_secs`.
#[verifier::external_body]
fn whole_secs(d: &Duration) -> u64 {
    d.as_secs()
}

/// Reads the monotonic clock.
///
/// Trusted: calls `Instant::now`.
#[verifier::external_body]
fn monotonic_now() -> Instant {
    Instant::now()
}

/// Time that has passed since `start`.
///
/// Trusted: calls `Instant::elapsed`.
#[verifier::external_body]
fn elapsed_since(start: &Instant) -> Duration {
    start.elapsed()
}

/// The low 64 bits of `n`.
pub open spec fn low_64(n: u128) -> u64 {
    (n % 0x1_0000_0000_0000_0000) as u64
}

/// Keeps the low 64 bits of `n`: what a clock's reading of `n` units is
/// returned as.
pub fn keep_low_64(n: u128) -> (r: u64)
    ensures
        r == low_64(n),
{
    (n % 0x1_0000_0000_0000_0000) as u64
}

/// Milliseconds since the Unix epoch; 0 where the clock stands before it.
pub fn unix_millis() -> u64 {
    match since_unix_epoch(&wall_clock_now()) {
        Some(d) => keep_low_64(whole_millis(&d)),
        None => 0,
    }
}

/// Microseconds since the Unix epoch; 0 where the clock stands before it.
pub fn unix_micros() -> u64 {
    match since_unix_epoch(&wall_clock_now()) {
        Some(d) => keep_low_64(whole_micros(&d)),
        None => 0,
    }
}

/// Marks the moment the server started.
pub fn init_server_time() -> Timer {
    Timer::new()
}

/// Whole seconds since the server started.
pub fn uptime_secs(server_start: &Timer) -> u64 {
    whole_secs(&elapsed_since(&server_start.start))
}

/// Length of a tick, in stored units of a second.
pub fn tick_delta() -> (dt: i64)
    ensures
        dt == TICK,
{
    TICK
}

/// Measures time from a starting moment.
#[derive(Debug, Clone)]
pub struct Timer {
    start: Instant,
}

impl Timer {
    /// A timer that starts now.
    pub fn new() -> Timer {
        Timer { start: monotonic_now() }
    }

    /// Milliseconds since the timer started.
    pub fn elapsed_ms(&self) -> u64 {
        keep_low_64(whole_millis(&elapsed_since(&self.start)))
    }

    /// Microseconds since the timer started.
    pub fn elapsed_micros(&self) -> u64 {
        keep_low_64(whole_micros(&elapsed_since(&self.start)))
    }

    /// Starts the timer anew.
    pub fn reset(&mut self) {
        self.start = monotonic_now();
    }
}

impl Default for Timer {
    fn default() -> Timer {
        Timer::new()
    }
}

} // verus!
