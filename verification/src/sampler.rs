//! The sampler: owns the platform properties and the transient
//! accumulation state of one sampling session, and reduces a finished
//! session into one `Metrics` snapshot.
//!
//! A session is driven in three steps so that the caller can interleave
//! the real sensor reads and the fixed-cadence waits between them:
//! `begin_sample` validates the window length and resets the buffers,
//! `record_read` accumulates one sub-read, and `finish_sample` reduces
//! the window. `get_metrics` runs a whole session over sub-reads the
//! caller has collected. Concurrency discipline: a session mutates the
//! sampler through an exclusive borrow, and `begin_sample` demands that
//! no session is open — two `sample` calls on one sampler can therefore
//! never overlap; the serving layer keeps one long-lived sampler behind a
//! lock and so serializes them.

use vstd::prelude::*;
use crate::errors::SamplerError;
use crate::metrics::MaxFreqs;
use crate::metrics::Metrics;
use crate::reduce::reduce;
use crate::reduce::reduce_model;
use crate::window::Reading;
use crate::window::Window;
use crate::window::WindowModel;
use crate::window::lemma_with_reading_wf;

verus! {

/// The fixed sub-read cadence, milliseconds: windows at least this long
/// are read once per interval, shorter ones once in the whole window.
pub const SUB_INTERVAL_MS: i64 = 100;

/// The read schedule of one sampling session: how many sub-reads to take
/// and how long to wait between them.
#[derive(Clone, Copy, Debug, PartialEq, Eq, Structural)]
pub struct SamplePlan {
    pub sub_reads: u64,
    pub interval_ms: u64,
}

/// The schedule for a window of the given positive length: one sub-read
/// per full sub-interval, and a single read for a window shorter than
/// one sub-interval.
pub open spec fn plan_for(duration_ms: i64) -> SamplePlan
    recommends
        duration_ms > 0,
{
    if duration_ms < SUB_INTERVAL_MS {
        SamplePlan { sub_reads: 1, interval_ms: duration_ms as u64 }
    } else {
        SamplePlan {
            sub_reads: (duration_ms as int / SUB_INTERVAL_MS as int) as u64,
            interval_ms: SUB_INTERVAL_MS as u64,
        }
    }
}

/// The sampler: the platform maximum frequencies fetched at creation,
/// and the transient accumulation state of the current session.
#[derive(Debug)]
pub struct Sampler {
    /// Static platform property, fixed for the sampler's lifetime.
    pub max: MaxFreqs,
    /// Accumulation buffers of the open session; reset at the start of
    /// each session.
    pub window: Window,
    /// Whether a sampling session is open. `begin_sample` demands that
    /// none is, so sessions on one sampler never overlap.
    pub sampling: bool,
}

impl Sampler {
    /// The sampler invariant: the platform maxima are positive and the
    /// accumulated window is well-formed.
    pub open spec fn inv(self) -> bool {
        &&& self.max.inv()
        &&& self.window@.wf()
    }

    /// Create a sampler from the platform maximum frequencies the caller
    /// read at start-up. Fails with `InitializationError` exactly when a
    /// maximum is zero — the mark of a processor-frequency interface
    /// that could not be opened; such a sampler cannot compute usage
    /// shares and must not be created.
    pub fn create(max_freqs: MaxFreqs) -> (r: Result<Sampler, SamplerError>)
        ensures
            max_freqs.inv() ==> (r matches Ok(s) && s.inv() && s.max == max_freqs && !s.sampling
                && s.window@ =~= WindowModel::empty()),
            !max_freqs.inv() ==> r == Err::<Sampler, SamplerError>(
                SamplerError::InitializationError,
            ),
    {
        if max_freqs.ecpu_max_mhz == 0 || max_freqs.pcpu_max_mhz == 0 || max_freqs.gpu_max_mhz
            == 0 {
            return Err(SamplerError::InitializationError);
        }
        Ok(Sampler { max: max_freqs, window: Window::new(), sampling: false })
    }

    /// Open a sampling session. A non-positive window length fails with
    /// `InvalidArgument` at once, before any sensor could be read, and
    /// leaves the sampler untouched; a positive one resets the
    /// accumulation buffers and returns the session's read schedule.
    pub fn begin_sample(&mut self, duration_ms: i64) -> (r: Result<SamplePlan, SamplerError>)
        requires
            old(self).inv(),
            !old(self).sampling,
        ensures
            final(self).inv(),
            final(self).max == old(self).max,
            duration_ms <= 0 ==> (r == Err::<SamplePlan, SamplerError>(
                SamplerError::InvalidArgument,
            ) && *final(self) == *old(self)),
            duration_ms > 0 ==> (r == Ok::<SamplePlan, SamplerError>(plan_for(duration_ms))
                && final(self).sampling && final(self).window@ =~= WindowModel::empty()),
    {
        if duration_ms <= 0 {
            return Err(SamplerError::InvalidArgument);
        }
        self.window = Window::new();
        self.sampling = true;
        if duration_ms < SUB_INTERVAL_MS {
            Ok(SamplePlan { sub_reads: 1, interval_ms: duration_ms as u64 })
        } else {
            Ok(
                SamplePlan {
                    sub_reads: (duration_ms / SUB_INTERVAL_MS) as u64,
                    interval_ms: SUB_INTERVAL_MS as u64,
                },
            )
        }
    }

    /// Record one sub-read of the open session: every successful value
    /// is appended to its domain's buffer, every transient failure is
    /// skipped.
    pub fn record_read(&mut self, r: &Reading)
        requires
            old(self).inv(),
            old(self).sampling,
            r.wf(),
        ensures
            final(self).inv(),
            final(self).sampling,
            final(self).max == old(self).max,
            final(self).window@ =~= old(self).window@.with_reading(*r),
    {
        proof {
            lemma_with_reading_wf(self.window@, *r);
        }
        self.window.push_reading(r);
    }

    /// Close the open session and reduce its window into one snapshot:
    /// window means for power and temperature, mean frequency and its
    /// clamped share of the platform maximum for usage, the last
    /// successful read for memory — or `NoData` naming the first domain
    /// without a successful read. A returned snapshot satisfies the
    /// `Metrics` invariant.
    pub fn finish_sample(&mut self) -> (r: Result<Metrics, SamplerError>)
        requires
            old(self).inv(),
            old(self).sampling,
        ensures
            final(self).inv(),
            !final(self).sampling,
            final(self).max == old(self).max,
            final(self).window@ =~= WindowModel::empty(),
            r == reduce_model(old(self).window@, old(self).max),
            r matches Ok(m) ==> m.inv(),
    {
        let outcome = reduce(&self.window, &self.max);
        self.window = Window::new();
        self.sampling = false;
        outcome
    }

    /// Run one whole sampling session over the sub-reads the caller
    /// collected, strictly in their order: exactly `begin_sample`, one
    /// `record_read` per sub-read, `finish_sample`. A non-positive
    /// window length fails with `InvalidArgument` and no sub-read is
    /// consumed.
    pub fn get_metrics(&mut self, duration_ms: i64, readings: &Vec<Reading>) -> (r: Result<
        Metrics,
        SamplerError,
    >)
        requires
            old(self).inv(),
            !old(self).sampling,
            forall|i: int| 0 <= i < readings@.len() ==> (#[trigger] readings@[i]).wf(),
        ensures
            final(self).inv(),
            !final(self).sampling,
            final(self).max == old(self).max,
            duration_ms <= 0 ==> (r == Err::<Metrics, SamplerError>(SamplerError::InvalidArgument)
                && *final(self) == *old(self)),
            duration_ms > 0 ==> r == reduce_model(
                WindowModel::accumulated(readings@),
                old(self).max,
            ),
            duration_ms > 0 ==> final(self).window@ =~= WindowModel::empty(),
            r matches Ok(m) ==> m.inv(),
    {
        let ghost max0 = self.max;
        match self.begin_sample(duration_ms) {
            Err(e) => Err(e),
            Ok(_plan) => {
                let mut i: usize = 0;
                while i < readings.len()
                    invariant
                        self.inv(),
                        self.sampling,
                        self.max == max0,
                        i <= readings@.len(),
                        forall|k: int| 0 <= k < readings@.len() ==> (#[trigger] readings@[k]).wf(),
                        self.window@ == WindowModel::accumulated(readings@.take(i as int)),
                    decreases readings@.len() - i,
                {
                    self.record_read(&readings[i]);
                    proof {
                        lemma_accumulated_step(readings@, i as int);
                    }
                    i = i + 1;
                }
                proof {
                    assert(readings@.take(readings@.len() as int) =~= readings@);
                }
                self.finish_sample()
            },
        }
    }
}

/// Accumulating one more sub-read extends the accumulated model by
/// exactly that reading.
pub proof fn lemma_accumulated_step(rs: Seq<Reading>, i: int)
    requires
        0 <= i < rs.len(),
    ensures
        WindowModel::accumulated(rs.take(i + 1)) == WindowModel::accumulated(rs.take(i)).with_reading(
            rs[i],
        ),
{
    assert(rs.take(i + 1).drop_last() =~= rs.take(i));
    assert(rs.take(i + 1).last() == rs[i]);
}

} // verus!
