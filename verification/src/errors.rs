use vstd::prelude::*;

verus! {

/// A hardware subsystem whose readings a sampling window must contain.
/// Each domain is required: a window with no successful read for one of
/// them cannot be reduced into a snapshot.
#[derive(Clone, Copy, Debug, PartialEq, Eq, Structural)]
pub enum Domain {
    CpuPower,
    GpuPower,
    SysPower,
    AllPower,
    CpuTemp,
    GpuTemp,
    EcpuFreq,
    PcpuFreq,
    GpuFreq,
    Memory,
}

/// The closed error taxonomy of the sampler.
#[derive(Clone, Copy, Debug, PartialEq, Eq, Structural)]
pub enum SamplerError {
    /// A required sensor interface could not be opened; fatal to the
    /// sampler instance.
    InitializationError,
    /// The requested window length was not positive; returned before any
    /// sensor is touched.
    InvalidArgument,
    /// The named domain produced zero successful reads during the window;
    /// no value is fabricated in its place.
    NoData(Domain),
}

impl SamplerError {
    /// A short human-readable description of the error.
    pub fn describe(&self) -> String {
        match self {
            SamplerError::InitializationError => "a required sensor interface could not be opened"
                .to_string(),
            SamplerError::InvalidArgument => "the sampling duration must be positive".to_string(),
            SamplerError::NoData(_) => "a required domain produced no successful reads".to_string(),
        }
    }
}

} // verus!
