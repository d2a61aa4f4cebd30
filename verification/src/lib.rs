//! Energy-balance simulation of a microgrid: a photovoltaic generator, a
//! fleet of EV chargers with stochastic utilization, and a battery storage
//! buffer, stepped over an hourly time grid.
//!
//! Conventions used throughout: timestamps are hours since the Unix epoch
//! (`u64`), power values are milliwatts (`i64`), energies are milliwatt-hours,
//! dimensionless factors such as power factors, efficiencies and irradiance
//! intensities are scaled by 1000 ("milli" units), and arrival rates are
//! milli-arrivals per minute.
use vstd::prelude::*;

pub mod batteries;
pub mod chargers;
pub mod photovoltaic;
pub mod power;
pub mod series;
pub mod sim;
pub mod stats;
pub mod time_processes;

verus! {

/// Largest power value (milliwatts) a series may carry. Keeping every series
/// value in `[0, MAX_POWER_MW]` and every horizon below `MAX_HORIZON_HOURS`
/// keeps the storage recurrence inside `i64`.
pub const MAX_POWER_MW: i64 = 0x400_0000_0000;

/// Largest horizon, in hours, a simulation run may span.
pub const MAX_HORIZON_HOURS: u64 = 0x10_0000;

/// Largest battery capacity, in milliwatt-hours.
pub const MAX_CAPACITY_MWH: u64 = 0x4_0000_0000_0000;

/// Largest arrival rate, in milli-arrivals per minute, a profile may carry.
pub const MAX_RATE_MILLI: i64 = 0x1000_0000;

/// Every failure the engine can report. Configuration and alignment problems
/// are surfaced as values of this type; no simulation function panics.
#[derive(Clone, Copy, Debug, PartialEq, Eq, Structural)]
pub enum SimError {
    /// A required input or output series was absent.
    MissingSeries,
    /// Two series that must share a timestamp grid differ in length or in
    /// some timestamp.
    Misaligned,
    /// A collection that must be non-empty (such as a charger fleet) was
    /// empty.
    EmptyInput,
    /// Statistics were requested over a zero-length trajectory.
    EmptyTrajectory,
    /// A computed power value fell outside `[0, MAX_POWER_MW]`.
    PowerOutOfRange,
    /// A date string did not parse, the range was not a positive whole number
    /// of hours, or the horizon was too long or not a whole number of days.
    BadDateRange,
    /// An arrival rate was negative or above `MAX_RATE_MILLI`.
    InvalidRate,
    /// An intensity profile did not hold exactly 24 rates.
    InvalidProfileLength,
    /// A battery configuration had a zero or oversized capacity.
    InvalidCapacity,
}

} // verus!
