//! A hardware-telemetry sampler: accumulates repeated sensor readings over a
//! bounded time window and reduces them into one consistent `Metrics`
//! snapshot. All quantities are fixed-point integers (milliwatts,
//! millidegrees, megahertz, bytes), so the reduction is exact and verified.

pub mod average;
pub mod errors;
pub mod metrics;
pub mod reduce;
pub mod sampler;
pub mod window;

pub use errors::Domain;
pub use errors::SamplerError;
pub use metrics::MaxFreqs;
pub use metrics::Metrics;
pub use sampler::Sampler;
pub use window::Reading;
