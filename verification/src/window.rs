//! The sampling window: an ephemeral accumulation of raw sub-reads.
//!
//! One `Reading` is the outcome of one sub-read: per sensor either a value
//! or "currently unavailable". The `Window` keeps, per domain, the ordered
//! sequence of the successful values; a transient failure is skipped and
//! leaves the domain's sequence unchanged. The window is modelled by
//! `WindowModel`, a ghost record of those ten sequences.

use vstd::prelude::*;
use crate::average::mean64;
use crate::average::lemma_mean64_exact;
use crate::average::mean;
use crate::metrics::MemReading;

verus! {

/// The outcome of one sub-read: per sensor a current value, or `None`
/// (an empty zone list for the thermal sensors) where the sensor was
/// momentarily unavailable.
#[derive(Clone, Debug, PartialEq, Eq)]
pub struct Reading {
    pub cpu_power_mw: Option<u64>,
    pub gpu_power_mw: Option<u64>,
    pub sys_power_mw: Option<u64>,
    pub all_power_mw: Option<u64>,
    /// One value per CPU thermal zone; empty when the thermal interface
    /// was unavailable for this sub-read.
    pub cpu_temp_zones_mdeg: Vec<u64>,
    /// One value per GPU thermal zone; empty when unavailable.
    pub gpu_temp_zones_mdeg: Vec<u64>,
    pub ecpu_freq_mhz: Option<u64>,
    pub pcpu_freq_mhz: Option<u64>,
    pub gpu_freq_mhz: Option<u64>,
    pub memory: Option<MemReading>,
}

impl Reading {
    /// Well-formedness of one sub-read: an observed operating frequency
    /// is positive, and memory occupancy never exceeds capacity.
    pub open spec fn wf(self) -> bool {
        &&& (self.ecpu_freq_mhz matches Some(f) ==> f >= 1)
        &&& (self.pcpu_freq_mhz matches Some(f) ==> f >= 1)
        &&& (self.gpu_freq_mhz matches Some(f) ==> f >= 1)
        &&& (self.memory matches Some(m) ==> m.inv())
    }

    /// A sub-read on which every sensor was unavailable; recording it
    /// leaves the window unchanged.
    pub fn all_failed() -> (r: Reading)
        ensures
            r.wf(),
            r.cpu_power_mw is None,
            r.gpu_power_mw is None,
            r.sys_power_mw is None,
            r.all_power_mw is None,
            r.cpu_temp_zones_mdeg@.len() == 0,
            r.gpu_temp_zones_mdeg@.len() == 0,
            r.ecpu_freq_mhz is None,
            r.pcpu_freq_mhz is None,
            r.gpu_freq_mhz is None,
            r.memory is None,
    {
        Reading {
            cpu_power_mw: None,
            gpu_power_mw: None,
            sys_power_mw: None,
            all_power_mw: None,
            cpu_temp_zones_mdeg: Vec::new(),
            gpu_temp_zones_mdeg: Vec::new(),
            ecpu_freq_mhz: None,
            pcpu_freq_mhz: None,
            gpu_freq_mhz: None,
            memory: None,
        }
    }
}

/// The mathematical model of a window: per domain, the ordered sequence
/// of successful values accumulated so far. The thermal sequences hold
/// one per-sub-read zone mean per successful sub-read.
#[verifier::ext_equal]
pub ghost struct WindowModel {
    pub cpu_power: Seq<u64>,
    pub gpu_power: Seq<u64>,
    pub sys_power: Seq<u64>,
    pub all_power: Seq<u64>,
    pub cpu_temp: Seq<u64>,
    pub gpu_temp: Seq<u64>,
    pub ecpu_freq: Seq<u64>,
    pub pcpu_freq: Seq<u64>,
    pub gpu_freq: Seq<u64>,
    pub memory: Seq<MemReading>,
}

/// The sequence extended by a successful value, or unchanged on a
/// transient failure.
pub open spec fn appended(s: Seq<u64>, read: Option<u64>) -> Seq<u64> {
    match read {
        Some(v) => s.push(v),
        None => s,
    }
}

/// The thermal sequence extended by the mean of the zones observed in one
/// sub-read, or unchanged where no zone could be read.
pub open spec fn temp_appended(s: Seq<u64>, zones: Seq<u64>) -> Seq<u64> {
    if zones.len() > 0 {
        s.push(mean64(zones))
    } else {
        s
    }
}

impl WindowModel {
    /// The model of a freshly opened window.
    pub open spec fn empty() -> WindowModel {
        WindowModel {
            cpu_power: Seq::empty(),
            gpu_power: Seq::empty(),
            sys_power: Seq::empty(),
            all_power: Seq::empty(),
            cpu_temp: Seq::empty(),
            gpu_temp: Seq::empty(),
            ecpu_freq: Seq::empty(),
            pcpu_freq: Seq::empty(),
            gpu_freq: Seq::empty(),
            memory: Seq::empty(),
        }
    }

    /// The model after one more sub-read: each domain keeps its sequence
    /// where the sensor failed, and appends the observed value where it
    /// succeeded.
    pub open spec fn with_reading(self, r: Reading) -> WindowModel {
        WindowModel {
            cpu_power: appended(self.cpu_power, r.cpu_power_mw),
            gpu_power: appended(self.gpu_power, r.gpu_power_mw),
            sys_power: appended(self.sys_power, r.sys_power_mw),
            all_power: appended(self.all_power, r.all_power_mw),
            cpu_temp: temp_appended(self.cpu_temp, r.cpu_temp_zones_mdeg@),
            gpu_temp: temp_appended(self.gpu_temp, r.gpu_temp_zones_mdeg@),
            ecpu_freq: appended(self.ecpu_freq, r.ecpu_freq_mhz),
            pcpu_freq: appended(self.pcpu_freq, r.pcpu_freq_mhz),
            gpu_freq: appended(self.gpu_freq, r.gpu_freq_mhz),
            memory: match r.memory {
                Some(m) => self.memory.push(m),
                None => self.memory,
            },
        }
    }

    /// The model of a window accumulated from a sequence of sub-reads,
    /// recorded strictly in order.
    pub open spec fn accumulated(rs: Seq<Reading>) -> WindowModel
        decreases rs.len(),
    {
        if rs.len() == 0 {
            WindowModel::empty()
        } else {
            WindowModel::accumulated(rs.drop_last()).with_reading(rs.last())
        }
    }

    /// Every required domain has at least one successful read.
    pub open spec fn complete(self) -> bool {
        &&& self.cpu_power.len() > 0
        &&& self.gpu_power.len() > 0
        &&& self.sys_power.len() > 0
        &&& self.all_power.len() > 0
        &&& self.cpu_temp.len() > 0
        &&& self.gpu_temp.len() > 0
        &&& self.ecpu_freq.len() > 0
        &&& self.pcpu_freq.len() > 0
        &&& self.gpu_freq.len() > 0
        &&& self.memory.len() > 0
    }

    /// Well-formedness carried over from the sub-reads: accumulated
    /// frequencies are positive and memory readings are consistent.
    pub open spec fn wf(self) -> bool {
        &&& (forall|i: int| 0 <= i < self.ecpu_freq.len() ==> #[trigger] self.ecpu_freq[i] >= 1)
        &&& (forall|i: int| 0 <= i < self.pcpu_freq.len() ==> #[trigger] self.pcpu_freq[i] >= 1)
        &&& (forall|i: int| 0 <= i < self.gpu_freq.len() ==> #[trigger] self.gpu_freq[i] >= 1)
        &&& (forall|i: int| 0 <= i < self.memory.len() ==> (#[trigger] self.memory[i]).inv())
    }
}

/// The accumulation buffers of one sampling window: per domain, the
/// successful values observed so far, in sub-read order.
#[derive(Debug)]
pub struct Window {
    pub cpu_power: Vec<u64>,
    pub gpu_power: Vec<u64>,
    pub sys_power: Vec<u64>,
    pub all_power: Vec<u64>,
    pub cpu_temp: Vec<u64>,
    pub gpu_temp: Vec<u64>,
    pub ecpu_freq: Vec<u64>,
    pub pcpu_freq: Vec<u64>,
    pub gpu_freq: Vec<u64>,
    pub memory: Vec<MemReading>,
}

impl View for Window {
    type V = WindowModel;

    open spec fn view(&self) -> WindowModel {
        WindowModel {
            cpu_power: self.cpu_power@,
            gpu_power: self.gpu_power@,
            sys_power: self.sys_power@,
            all_power: self.all_power@,
            cpu_temp: self.cpu_temp@,
            gpu_temp: self.gpu_temp@,
            ecpu_freq: self.ecpu_freq@,
            pcpu_freq: self.pcpu_freq@,
            gpu_freq: self.gpu_freq@,
            memory: self.memory@,
        }
    }
}

impl Window {
    /// Open a fresh, empty window.
    pub fn new() -> (w: Window)
        ensures
            w@ =~= WindowModel::empty(),
    {
        Window {
            cpu_power: Vec::new(),
            gpu_power: Vec::new(),
            sys_power: Vec::new(),
            all_power: Vec::new(),
            cpu_temp: Vec::new(),
            gpu_temp: Vec::new(),
            ecpu_freq: Vec::new(),
            pcpu_freq: Vec::new(),
            gpu_freq: Vec::new(),
            memory: Vec::new(),
        }
    }

    /// Record one sub-read: append each successful value to its domain's
    /// buffer and skip each transient failure. For the thermal domains
    /// the per-sub-read mean across the observed zones is recorded.
    pub fn push_reading(&mut self, r: &Reading)
        ensures
            final(self)@ =~= old(self)@.with_reading(*r),
    {
        match r.cpu_power_mw {
            Some(v) => self.cpu_power.push(v),
            None => (),
        }
        match r.gpu_power_mw {
            Some(v) => self.gpu_power.push(v),
            None => (),
        }
        match r.sys_power_mw {
            Some(v) => self.sys_power.push(v),
            None => (),
        }
        match r.all_power_mw {
            Some(v) => self.all_power.push(v),
            None => (),
        }
        if r.cpu_temp_zones_mdeg.len() > 0 {
            let zone_mean = mean(&r.cpu_temp_zones_mdeg);
            proof {
                lemma_mean64_exact(r.cpu_temp_zones_mdeg@);
            }
            self.cpu_temp.push(zone_mean);
        }
        if r.gpu_temp_zones_mdeg.len() > 0 {
            let zone_mean = mean(&r.gpu_temp_zones_mdeg);
            proof {
                lemma_mean64_exact(r.gpu_temp_zones_mdeg@);
            }
            self.gpu_temp.push(zone_mean);
        }
        match r.ecpu_freq_mhz {
            Some(v) => self.ecpu_freq.push(v),
            None => (),
        }
        match r.pcpu_freq_mhz {
            Some(v) => self.pcpu_freq.push(v),
            None => (),
        }
        match r.gpu_freq_mhz {
            Some(v) => self.gpu_freq.push(v),
            None => (),
        }
        match r.memory {
            Some(m) => self.memory.push(m),
            None => (),
        }
    }
}

/// Recording a well-formed sub-read preserves the window model's
/// well-formedness.
pub proof fn lemma_with_reading_wf(m: WindowModel, r: Reading)
    requires
        m.wf(),
        r.wf(),
    ensures
        m.with_reading(r).wf(),
{
}

} // verus!
