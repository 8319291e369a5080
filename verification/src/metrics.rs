//! The reduced telemetry snapshot and its invariants.
//!
//! Every quantity is a fixed-point integer: power in milliwatts,
//! temperature in millidegrees Celsius, frequency in megahertz, memory in
//! bytes, and utilization in hundredths of a percent.

use vstd::prelude::*;

verus! {

/// Hundredths of a percent: `PERCENT_SCALE` is 100 %.
pub const PERCENT_SCALE: u64 = 10_000;

/// One usage triple of a processor domain: the window-mean operating
/// frequency, and that mean as a share of the platform maximum frequency,
/// clamped to 100 %.
#[derive(Clone, Copy, Debug, PartialEq, Eq, Structural)]
pub struct Usage {
    /// Window-mean operating frequency, megahertz.
    pub freq_mhz: u64,
    /// `freq_mhz` as a share of the platform maximum, in hundredths of a
    /// percent, clamped to `PERCENT_SCALE`.
    pub percent_centi: u64,
}

impl Usage {
    /// The percent lies in [0 %, 100 %] and the frequency is positive.
    pub open spec fn inv(self) -> bool {
        &&& self.freq_mhz >= 1
        &&& self.percent_centi <= PERCENT_SCALE
    }
}

/// The platform maximum operating frequency of each processor domain.
/// A static platform property, fetched once when the sampler is created
/// and never re-queried per sample.
#[derive(Clone, Copy, Debug, PartialEq, Eq, Structural)]
pub struct MaxFreqs {
    pub ecpu_max_mhz: u64,
    pub pcpu_max_mhz: u64,
    pub gpu_max_mhz: u64,
}

impl MaxFreqs {
    /// Every maximum frequency is positive; a zero means the platform
    /// property could not be read and the sampler cannot be created.
    pub open spec fn inv(self) -> bool {
        &&& self.ecpu_max_mhz >= 1
        &&& self.pcpu_max_mhz >= 1
        &&& self.gpu_max_mhz >= 1
    }
}

/// One memory reading: point-in-time occupancy counters.
#[derive(Clone, Copy, Debug, PartialEq, Eq, Structural)]
pub struct MemReading {
    pub used_bytes: u64,
    pub total_bytes: u64,
}

impl MemReading {
    /// Occupancy never exceeds capacity.
    pub open spec fn inv(self) -> bool {
        self.used_bytes <= self.total_bytes
    }
}

/// One reduced snapshot: the immutable value produced by one sampling
/// call.
#[derive(Clone, Copy, Debug, PartialEq, Eq, Structural)]
pub struct Metrics {
    /// Window-mean power of the CPU rail, milliwatts.
    pub cpu_power_mw: u64,
    /// Window-mean power of the GPU rail, milliwatts.
    pub gpu_power_mw: u64,
    /// Window-mean system power, milliwatts.
    pub sys_power_mw: u64,
    /// Window-mean total power, milliwatts.
    pub all_power_mw: u64,
    /// Memory occupancy at the last successful read of the window, bytes.
    pub mem_usage: u64,
    /// Memory capacity at the last successful read of the window, bytes.
    pub mem_total: u64,
    /// Window mean of the per-sub-read CPU thermal-zone means,
    /// millidegrees Celsius.
    pub cpu_temp_mdeg: u64,
    /// Window mean of the per-sub-read GPU thermal-zone means,
    /// millidegrees Celsius.
    pub gpu_temp_mdeg: u64,
    /// Efficiency-core cluster usage.
    pub ecpu_usage: Usage,
    /// Performance-core cluster usage.
    pub pcpu_usage: Usage,
    /// Graphics unit usage.
    pub gpu_usage: Usage,
}

impl Metrics {
    /// The snapshot invariant: every percent lies in [0 %, 100 %], every
    /// frequency is positive, and memory occupancy never exceeds
    /// capacity.
    pub open spec fn inv(self) -> bool {
        &&& self.mem_usage <= self.mem_total
        &&& self.ecpu_usage.inv()
        &&& self.pcpu_usage.inv()
        &&& self.gpu_usage.inv()
    }
}

} // verus!
