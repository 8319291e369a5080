//! Reduction of an accumulated window into one `Metrics` snapshot.
//!
//! The reduction is a pure function of the window model and the platform
//! maximum frequencies: power and temperature fields are window means,
//! usage fields are the window-mean frequency and its clamped share of the
//! platform maximum, and the memory fields are the last successful read.
//! A domain with no successful read makes the whole reduction fail with
//! `NoData` for that domain; no value is ever fabricated in its place.

use vstd::prelude::*;
use crate::average::mean64;
use crate::average::mean;
use crate::average::lemma_mean64_exact;
use crate::average::lemma_mean_bounds;
use crate::average::lemma_mean_singleton;
use crate::average::lemma_mean_permutation;
use crate::errors::Domain;
use crate::errors::SamplerError;
use crate::metrics::MaxFreqs;
use crate::metrics::Metrics;
use crate::metrics::Usage;
use crate::metrics::PERCENT_SCALE;
use crate::window::Reading;
use crate::window::Window;
use crate::window::WindowModel;

verus! {

/// A mean frequency as a share of the platform maximum, in hundredths of
/// a percent, clamped to 100 % to guard against transient readings above
/// the nominal maximum.
pub open spec fn percent_centi_of(freq: u64, max: u64) -> u64
    recommends
        max >= 1,
{
    let p = freq * PERCENT_SCALE / (max as int);
    if p > PERCENT_SCALE {
        PERCENT_SCALE
    } else {
        p as u64
    }
}

/// Computes `percent_centi_of` exactly, in 128-bit intermediate
/// arithmetic.
pub fn percent_of_max(freq: u64, max: u64) -> (r: u64)
    requires
        max >= 1,
    ensures
        r == percent_centi_of(freq, max),
        r <= PERCENT_SCALE,
{
    let num: u128 = (freq as u128) * (PERCENT_SCALE as u128);
    let p: u128 = num / (max as u128);
    proof {
        vstd::arithmetic::div_mod::lemma_div_pos_is_pos(num as int, max as int);
    }
    if p > PERCENT_SCALE as u128 {
        PERCENT_SCALE
    } else {
        p as u64
    }
}

/// The first required domain for which the window holds no successful
/// read, where there is one; checked in a fixed order.
pub open spec fn first_missing_domain(m: WindowModel) -> Option<Domain> {
    if m.cpu_power.len() == 0 {
        Some(Domain::CpuPower)
    } else if m.gpu_power.len() == 0 {
        Some(Domain::GpuPower)
    } else if m.sys_power.len() == 0 {
        Some(Domain::SysPower)
    } else if m.all_power.len() == 0 {
        Some(Domain::AllPower)
    } else if m.cpu_temp.len() == 0 {
        Some(Domain::CpuTemp)
    } else if m.gpu_temp.len() == 0 {
        Some(Domain::GpuTemp)
    } else if m.ecpu_freq.len() == 0 {
        Some(Domain::EcpuFreq)
    } else if m.pcpu_freq.len() == 0 {
        Some(Domain::PcpuFreq)
    } else if m.gpu_freq.len() == 0 {
        Some(Domain::GpuFreq)
    } else if m.memory.len() == 0 {
        Some(Domain::Memory)
    } else {
        None
    }
}

/// Whether the window holds at least one successful read for the domain.
pub open spec fn has_reads(m: WindowModel, d: Domain) -> bool {
    match d {
        Domain::CpuPower => m.cpu_power.len() > 0,
        Domain::GpuPower => m.gpu_power.len() > 0,
        Domain::SysPower => m.sys_power.len() > 0,
        Domain::AllPower => m.all_power.len() > 0,
        Domain::CpuTemp => m.cpu_temp.len() > 0,
        Domain::GpuTemp => m.gpu_temp.len() > 0,
        Domain::EcpuFreq => m.ecpu_freq.len() > 0,
        Domain::PcpuFreq => m.pcpu_freq.len() > 0,
        Domain::GpuFreq => m.gpu_freq.len() > 0,
        Domain::Memory => m.memory.len() > 0,
    }
}

/// The snapshot a complete window reduces to: window means for power,
/// temperature and frequency, clamped percent-of-max for usage, and the
/// last successful read for memory.
pub open spec fn reduced_metrics(m: WindowModel, max: MaxFreqs) -> Metrics
    recommends
        m.complete(),
        max.inv(),
{
    Metrics {
        cpu_power_mw: mean64(m.cpu_power),
        gpu_power_mw: mean64(m.gpu_power),
        sys_power_mw: mean64(m.sys_power),
        all_power_mw: mean64(m.all_power),
        mem_usage: m.memory.last().used_bytes,
        mem_total: m.memory.last().total_bytes,
        cpu_temp_mdeg: mean64(m.cpu_temp),
        gpu_temp_mdeg: mean64(m.gpu_temp),
        ecpu_usage: Usage {
            freq_mhz: mean64(m.ecpu_freq),
            percent_centi: percent_centi_of(mean64(m.ecpu_freq), max.ecpu_max_mhz),
        },
        pcpu_usage: Usage {
            freq_mhz: mean64(m.pcpu_freq),
            percent_centi: percent_centi_of(mean64(m.pcpu_freq), max.pcpu_max_mhz),
        },
        gpu_usage: Usage {
            freq_mhz: mean64(m.gpu_freq),
            percent_centi: percent_centi_of(mean64(m.gpu_freq), max.gpu_max_mhz),
        },
    }
}

/// The whole reduction: the snapshot of a complete window, or `NoData`
/// naming the first domain that has no successful read.
pub open spec fn reduce_model(m: WindowModel, max: MaxFreqs) -> Result<Metrics, SamplerError>
    recommends
        max.inv(),
{
    match first_missing_domain(m) {
        Some(d) => Err(SamplerError::NoData(d)),
        None => Ok(reduced_metrics(m, max)),
    }
}

/// Reduce an accumulated window. Returns the snapshot that `reduce_model`
/// describes; succeeds exactly when every required domain has at least
/// one successful read, and the snapshot then satisfies the `Metrics`
/// invariant.
pub fn reduce(w: &Window, max: &MaxFreqs) -> (r: Result<Metrics, SamplerError>)
    requires
        w@.wf(),
        max.inv(),
    ensures
        r == reduce_model(w@, *max),
        r matches Ok(m) ==> m.inv() && w@.complete(),
        r matches Err(e) ==> (e matches SamplerError::NoData(d) && !has_reads(w@, d)),
{
    if w.cpu_power.len() == 0 {
        return Err(SamplerError::NoData(Domain::CpuPower));
    }
    if w.gpu_power.len() == 0 {
        return Err(SamplerError::NoData(Domain::GpuPower));
    }
    if w.sys_power.len() == 0 {
        return Err(SamplerError::NoData(Domain::SysPower));
    }
    if w.all_power.len() == 0 {
        return Err(SamplerError::NoData(Domain::AllPower));
    }
    if w.cpu_temp.len() == 0 {
        return Err(SamplerError::NoData(Domain::CpuTemp));
    }
    if w.gpu_temp.len() == 0 {
        return Err(SamplerError::NoData(Domain::GpuTemp));
    }
    if w.ecpu_freq.len() == 0 {
        return Err(SamplerError::NoData(Domain::EcpuFreq));
    }
    if w.pcpu_freq.len() == 0 {
        return Err(SamplerError::NoData(Domain::PcpuFreq));
    }
    if w.gpu_freq.len() == 0 {
        return Err(SamplerError::NoData(Domain::GpuFreq));
    }
    if w.memory.len() == 0 {
        return Err(SamplerError::NoData(Domain::Memory));
    }
    proof {
        lemma_mean64_exact(w@.cpu_power);
        lemma_mean64_exact(w@.gpu_power);
        lemma_mean64_exact(w@.sys_power);
        lemma_mean64_exact(w@.all_power);
        lemma_mean64_exact(w@.cpu_temp);
        lemma_mean64_exact(w@.gpu_temp);
        lemma_mean64_exact(w@.ecpu_freq);
        lemma_mean64_exact(w@.pcpu_freq);
        lemma_mean64_exact(w@.gpu_freq);
        lemma_mean_bounds(w@.ecpu_freq, 1, u64::MAX as int);
        lemma_mean_bounds(w@.pcpu_freq, 1, u64::MAX as int);
        lemma_mean_bounds(w@.gpu_freq, 1, u64::MAX as int);
    }
    let ecpu_mean = mean(&w.ecpu_freq);
    let pcpu_mean = mean(&w.pcpu_freq);
    let gpu_mean = mean(&w.gpu_freq);
    let last = w.memory[w.memory.len() - 1];
    Ok(Metrics {
        cpu_power_mw: mean(&w.cpu_power),
        gpu_power_mw: mean(&w.gpu_power),
        sys_power_mw: mean(&w.sys_power),
        all_power_mw: mean(&w.all_power),
        mem_usage: last.used_bytes,
        mem_total: last.total_bytes,
        cpu_temp_mdeg: mean(&w.cpu_temp),
        gpu_temp_mdeg: mean(&w.gpu_temp),
        ecpu_usage: Usage {
            freq_mhz: ecpu_mean,
            percent_centi: percent_of_max(ecpu_mean, max.ecpu_max_mhz),
        },
        pcpu_usage: Usage {
            freq_mhz: pcpu_mean,
            percent_centi: percent_of_max(pcpu_mean, max.pcpu_max_mhz),
        },
        gpu_usage: Usage {
            freq_mhz: gpu_mean,
            percent_centi: percent_of_max(gpu_mean, max.gpu_max_mhz),
        },
    })
}

/// A complete, well-formed window reduces to a snapshot that satisfies
/// the `Metrics` invariant: percents lie in [0 %, 100 %], frequencies are
/// positive, and memory occupancy never exceeds capacity.
pub proof fn lemma_reduce_ok_invariant(m: WindowModel, max: MaxFreqs)
    requires
        m.wf(),
        max.inv(),
        m.complete(),
    ensures
        reduce_model(m, max) matches Ok(mx) && mx.inv(),
{
    lemma_mean64_exact(m.ecpu_freq);
    lemma_mean64_exact(m.pcpu_freq);
    lemma_mean64_exact(m.gpu_freq);
    lemma_mean_bounds(m.ecpu_freq, 1, u64::MAX as int);
    lemma_mean_bounds(m.pcpu_freq, 1, u64::MAX as int);
    lemma_mean_bounds(m.gpu_freq, 1, u64::MAX as int);
}

/// A window whose reads are missing for exactly one required domain fails
/// with `NoData` naming exactly that domain.
pub proof fn lemma_no_data_exact(m: WindowModel, max: MaxFreqs, d: Domain)
    requires
        !has_reads(m, d),
        forall|d2: Domain| d2 != d ==> #[trigger] has_reads(m, d2),
    ensures
        reduce_model(m, max) == Err::<Metrics, SamplerError>(SamplerError::NoData(d)),
{
    assert(d != Domain::CpuPower ==> has_reads(m, Domain::CpuPower));
    assert(d != Domain::GpuPower ==> has_reads(m, Domain::GpuPower));
    assert(d != Domain::SysPower ==> has_reads(m, Domain::SysPower));
    assert(d != Domain::AllPower ==> has_reads(m, Domain::AllPower));
    assert(d != Domain::CpuTemp ==> has_reads(m, Domain::CpuTemp));
    assert(d != Domain::GpuTemp ==> has_reads(m, Domain::GpuTemp));
    assert(d != Domain::EcpuFreq ==> has_reads(m, Domain::EcpuFreq));
    assert(d != Domain::PcpuFreq ==> has_reads(m, Domain::PcpuFreq));
    assert(d != Domain::GpuFreq ==> has_reads(m, Domain::GpuFreq));
    assert(d != Domain::Memory ==> has_reads(m, Domain::Memory));
}

/// Mean-of-one identity: a window with exactly one successful read per
/// domain reduces to exactly those read values.
pub proof fn lemma_single_read_identity(
    cpu_p: u64,
    gpu_p: u64,
    sys_p: u64,
    all_p: u64,
    cpu_t: u64,
    gpu_t: u64,
    ecpu_f: u64,
    pcpu_f: u64,
    gpu_f: u64,
    mem: crate::metrics::MemReading,
    max: MaxFreqs,
)
    requires
        max.inv(),
    ensures
        ({
            let m = WindowModel {
                cpu_power: seq![cpu_p],
                gpu_power: seq![gpu_p],
                sys_power: seq![sys_p],
                all_power: seq![all_p],
                cpu_temp: seq![cpu_t],
                gpu_temp: seq![gpu_t],
                ecpu_freq: seq![ecpu_f],
                pcpu_freq: seq![pcpu_f],
                gpu_freq: seq![gpu_f],
                memory: seq![mem],
            };
            reduce_model(m, max) == Ok::<Metrics, SamplerError>(
                Metrics {
                    cpu_power_mw: cpu_p,
                    gpu_power_mw: gpu_p,
                    sys_power_mw: sys_p,
                    all_power_mw: all_p,
                    mem_usage: mem.used_bytes,
                    mem_total: mem.total_bytes,
                    cpu_temp_mdeg: cpu_t,
                    gpu_temp_mdeg: gpu_t,
                    ecpu_usage: Usage {
                        freq_mhz: ecpu_f,
                        percent_centi: percent_centi_of(ecpu_f, max.ecpu_max_mhz),
                    },
                    pcpu_usage: Usage {
                        freq_mhz: pcpu_f,
                        percent_centi: percent_centi_of(pcpu_f, max.pcpu_max_mhz),
                    },
                    gpu_usage: Usage {
                        freq_mhz: gpu_f,
                        percent_centi: percent_centi_of(gpu_f, max.gpu_max_mhz),
                    },
                },
            )
        }),
{
    lemma_mean_singleton(cpu_p);
    lemma_mean_singleton(gpu_p);
    lemma_mean_singleton(sys_p);
    lemma_mean_singleton(all_p);
    lemma_mean_singleton(cpu_t);
    lemma_mean_singleton(gpu_t);
    lemma_mean_singleton(ecpu_f);
    lemma_mean_singleton(pcpu_f);
    lemma_mean_singleton(gpu_f);
}

/// Order independence of the reduction: two complete windows holding the
/// same multiset of successful reads per averaged domain — sub-reads
/// permuted arbitrarily — reduce to the same power, temperature and
/// usage fields. (The memory fields report the last read and so do
/// depend on order.)
pub proof fn lemma_reduce_order_independent(m1: WindowModel, m2: WindowModel, max: MaxFreqs)
    requires
        max.inv(),
        m1.complete(),
        m2.memory.len() > 0,
        m1.cpu_power.to_multiset() == m2.cpu_power.to_multiset(),
        m1.gpu_power.to_multiset() == m2.gpu_power.to_multiset(),
        m1.sys_power.to_multiset() == m2.sys_power.to_multiset(),
        m1.all_power.to_multiset() == m2.all_power.to_multiset(),
        m1.cpu_temp.to_multiset() == m2.cpu_temp.to_multiset(),
        m1.gpu_temp.to_multiset() == m2.gpu_temp.to_multiset(),
        m1.ecpu_freq.to_multiset() == m2.ecpu_freq.to_multiset(),
        m1.pcpu_freq.to_multiset() == m2.pcpu_freq.to_multiset(),
        m1.gpu_freq.to_multiset() == m2.gpu_freq.to_multiset(),
    ensures
        reduce_model(m1, max) matches Ok(a) && reduce_model(m2, max) matches Ok(b) && {
            let a = reduce_model(m1, max)->Ok_0;
            let b = reduce_model(m2, max)->Ok_0;
            &&& a.cpu_power_mw == b.cpu_power_mw
            &&& a.gpu_power_mw == b.gpu_power_mw
            &&& a.sys_power_mw == b.sys_power_mw
            &&& a.all_power_mw == b.all_power_mw
            &&& a.cpu_temp_mdeg == b.cpu_temp_mdeg
            &&& a.gpu_temp_mdeg == b.gpu_temp_mdeg
            &&& a.ecpu_usage == b.ecpu_usage
            &&& a.pcpu_usage == b.pcpu_usage
            &&& a.gpu_usage == b.gpu_usage
        },
{
    broadcast use vstd::seq_lib::group_to_multiset_ensures;

    lemma_mean_permutation(m1.cpu_power, m2.cpu_power);
    lemma_mean_permutation(m1.gpu_power, m2.gpu_power);
    lemma_mean_permutation(m1.sys_power, m2.sys_power);
    lemma_mean_permutation(m1.all_power, m2.all_power);
    lemma_mean_permutation(m1.cpu_temp, m2.cpu_temp);
    lemma_mean_permutation(m1.gpu_temp, m2.gpu_temp);
    lemma_mean_permutation(m1.ecpu_freq, m2.ecpu_freq);
    lemma_mean_permutation(m1.pcpu_freq, m2.pcpu_freq);
    lemma_mean_permutation(m1.gpu_freq, m2.gpu_freq);
    assert(m2.cpu_power.len() == m2.cpu_power.to_multiset().len());
    assert(m1.cpu_power.len() == m1.cpu_power.to_multiset().len());
    assert(m2.gpu_power.len() == m2.gpu_power.to_multiset().len());
    assert(m1.gpu_power.len() == m1.gpu_power.to_multiset().len());
    assert(m2.sys_power.len() == m2.sys_power.to_multiset().len());
    assert(m1.sys_power.len() == m1.sys_power.to_multiset().len());
    assert(m2.all_power.len() == m2.all_power.to_multiset().len());
    assert(m1.all_power.len() == m1.all_power.to_multiset().len());
    assert(m2.cpu_temp.len() == m2.cpu_temp.to_multiset().len());
    assert(m1.cpu_temp.len() == m1.cpu_temp.to_multiset().len());
    assert(m2.gpu_temp.len() == m2.gpu_temp.to_multiset().len());
    assert(m1.gpu_temp.len() == m1.gpu_temp.to_multiset().len());
    assert(m2.ecpu_freq.len() == m2.ecpu_freq.to_multiset().len());
    assert(m1.ecpu_freq.len() == m1.ecpu_freq.to_multiset().len());
    assert(m2.pcpu_freq.len() == m2.pcpu_freq.to_multiset().len());
    assert(m1.pcpu_freq.len() == m1.pcpu_freq.to_multiset().len());
    assert(m2.gpu_freq.len() == m2.gpu_freq.to_multiset().len());
    assert(m1.gpu_freq.len() == m1.gpu_freq.to_multiset().len());
}

/// The accumulated sequence of an averaged domain, selected by name.
/// (The memory domain is not averaged and is treated apart.)
pub open spec fn domain_values(m: WindowModel, d: Domain) -> Seq<u64> {
    match d {
        Domain::CpuPower => m.cpu_power,
        Domain::GpuPower => m.gpu_power,
        Domain::SysPower => m.sys_power,
        Domain::AllPower => m.all_power,
        Domain::CpuTemp => m.cpu_temp,
        Domain::GpuTemp => m.gpu_temp,
        Domain::EcpuFreq => m.ecpu_freq,
        Domain::PcpuFreq => m.pcpu_freq,
        Domain::GpuFreq => m.gpu_freq,
        Domain::Memory => Seq::empty(),
    }
}

/// Whether one sub-read contributes a value to the averaged domain.
pub open spec fn read_contributes(r: Reading, d: Domain) -> bool {
    match d {
        Domain::CpuPower => r.cpu_power_mw is Some,
        Domain::GpuPower => r.gpu_power_mw is Some,
        Domain::SysPower => r.sys_power_mw is Some,
        Domain::AllPower => r.all_power_mw is Some,
        Domain::CpuTemp => r.cpu_temp_zones_mdeg@.len() > 0,
        Domain::GpuTemp => r.gpu_temp_zones_mdeg@.len() > 0,
        Domain::EcpuFreq => r.ecpu_freq_mhz is Some,
        Domain::PcpuFreq => r.pcpu_freq_mhz is Some,
        Domain::GpuFreq => r.gpu_freq_mhz is Some,
        Domain::Memory => false,
    }
}

/// The value one contributing sub-read appends to the averaged domain:
/// the observed value, or the mean across the observed zones for the
/// thermal domains.
pub open spec fn read_value(r: Reading, d: Domain) -> u64
    recommends
        read_contributes(r, d),
{
    match d {
        Domain::CpuPower => opt_value(r.cpu_power_mw),
        Domain::GpuPower => opt_value(r.gpu_power_mw),
        Domain::SysPower => opt_value(r.sys_power_mw),
        Domain::AllPower => opt_value(r.all_power_mw),
        Domain::CpuTemp => mean64(r.cpu_temp_zones_mdeg@),
        Domain::GpuTemp => mean64(r.gpu_temp_zones_mdeg@),
        Domain::EcpuFreq => opt_value(r.ecpu_freq_mhz),
        Domain::PcpuFreq => opt_value(r.pcpu_freq_mhz),
        Domain::GpuFreq => opt_value(r.gpu_freq_mhz),
        Domain::Memory => 0,
    }
}

/// The observed value of a successful sub-read.
pub open spec fn opt_value(o: Option<u64>) -> u64
    recommends
        o is Some,
{
    match o {
        Some(v) => v,
        None => 0,
    }
}

/// Recording one sub-read appends its contribution to the averaged
/// domain, or leaves the domain untouched where the sensor failed.
pub proof fn lemma_with_reading_values(m: WindowModel, r: Reading, d: Domain)
    ensures
        domain_values(m.with_reading(r), d) == (if read_contributes(r, d) {
            domain_values(m, d).push(read_value(r, d))
        } else {
            domain_values(m, d)
        }),
{
}

/// Removing one sub-read from a window removes exactly its contribution
/// from the averaged domain's multiset of values.
pub proof fn lemma_accumulated_remove(rs: Seq<Reading>, j: int, d: Domain)
    requires
        0 <= j < rs.len(),
    ensures
        ({
            let with = domain_values(WindowModel::accumulated(rs), d).to_multiset();
            let without = domain_values(WindowModel::accumulated(rs.remove(j)), d).to_multiset();
            if read_contributes(rs[j], d) {
                with == without.insert(read_value(rs[j], d))
            } else {
                with == without
            }
        }),
    decreases rs.len(),
{
    broadcast use vstd::seq_lib::group_to_multiset_ensures;

    let shorter = rs.drop_last();
    if j == rs.len() - 1 {
        assert(rs.remove(j) =~= shorter);
        lemma_with_reading_values(WindowModel::accumulated(shorter), rs.last(), d);
    } else {
        assert(rs.remove(j).drop_last() =~= shorter.remove(j));
        assert(rs.remove(j).last() == rs.last());
        assert(shorter[j] == rs[j]);
        lemma_accumulated_remove(shorter, j, d);
        lemma_with_reading_values(WindowModel::accumulated(shorter), rs.last(), d);
        lemma_with_reading_values(
            WindowModel::accumulated(shorter.remove(j)),
            rs.last(),
            d,
        );
        if read_contributes(rs.last(), d) && read_contributes(rs[j], d) {
            let x = read_value(rs[j], d);
            let y = read_value(rs.last(), d);
            let base = domain_values(WindowModel::accumulated(shorter.remove(j)), d).to_multiset();
            assert(base.insert(x).insert(y) =~= base.insert(y).insert(x));
        }
    }
}

/// Accumulating a permuted sequence of sub-reads yields, per averaged
/// domain, the same multiset of values.
pub proof fn lemma_accumulated_permutation(rs1: Seq<Reading>, rs2: Seq<Reading>, d: Domain)
    requires
        rs1.to_multiset() == rs2.to_multiset(),
    ensures
        domain_values(WindowModel::accumulated(rs1), d).to_multiset() == domain_values(
            WindowModel::accumulated(rs2),
            d,
        ).to_multiset(),
    decreases rs1.len(),
{
    broadcast use vstd::seq_lib::group_to_multiset_ensures;

    if rs1.len() == 0 {
        assert(rs2.to_multiset().len() == 0);
        assert(rs2.len() == 0);
    } else {
        let x = rs1.last();
        assert(rs1.contains(x));
        assert(rs1.to_multiset().count(x) > 0);
        assert(rs2.to_multiset().count(x) > 0);
        assert(rs2.contains(x));
        let j = choose|j: int| 0 <= j < rs2.len() && rs2[j] == x;
        assert(rs1.remove(rs1.len() - 1) =~= rs1.drop_last());
        assert(rs1.drop_last().to_multiset() == rs1.to_multiset().remove(x));
        assert(rs2.remove(j).to_multiset() == rs2.to_multiset().remove(x));
        lemma_accumulated_permutation(rs1.drop_last(), rs2.remove(j), d);
        lemma_with_reading_values(WindowModel::accumulated(rs1.drop_last()), x, d);
        lemma_accumulated_remove(rs2, j, d);
    }
}

/// The memory counterpart of `lemma_accumulated_remove`: removing one
/// sub-read removes exactly its memory reading, where it had one.
pub proof fn lemma_accumulated_memory_remove(rs: Seq<Reading>, j: int)
    requires
        0 <= j < rs.len(),
    ensures
        ({
            let with = WindowModel::accumulated(rs).memory.to_multiset();
            let without = WindowModel::accumulated(rs.remove(j)).memory.to_multiset();
            match rs[j].memory {
                Some(mr) => with == without.insert(mr),
                None => with == without,
            }
        }),
    decreases rs.len(),
{
    broadcast use vstd::seq_lib::group_to_multiset_ensures;

    let shorter = rs.drop_last();
    if j == rs.len() - 1 {
        assert(rs.remove(j) =~= shorter);
    } else {
        assert(rs.remove(j).drop_last() =~= shorter.remove(j));
        assert(rs.remove(j).last() == rs.last());
        assert(shorter[j] == rs[j]);
        lemma_accumulated_memory_remove(shorter, j);
        if rs.last().memory is Some && rs[j].memory is Some {
            let x = rs[j].memory->0;
            let y = rs.last().memory->0;
            let base = WindowModel::accumulated(shorter.remove(j)).memory.to_multiset();
            assert(base.insert(x).insert(y) =~= base.insert(y).insert(x));
        }
    }
}

/// The memory counterpart of `lemma_accumulated_permutation`.
pub proof fn lemma_accumulated_memory_permutation(rs1: Seq<Reading>, rs2: Seq<Reading>)
    requires
        rs1.to_multiset() == rs2.to_multiset(),
    ensures
        WindowModel::accumulated(rs1).memory.to_multiset() == WindowModel::accumulated(
            rs2,
        ).memory.to_multiset(),
    decreases rs1.len(),
{
    broadcast use vstd::seq_lib::group_to_multiset_ensures;

    if rs1.len() == 0 {
        assert(rs2.to_multiset().len() == 0);
        assert(rs2.len() == 0);
    } else {
        let x = rs1.last();
        assert(rs1.contains(x));
        assert(rs1.to_multiset().count(x) > 0);
        assert(rs2.to_multiset().count(x) > 0);
        assert(rs2.contains(x));
        let j = choose|j: int| 0 <= j < rs2.len() && rs2[j] == x;
        assert(rs1.remove(rs1.len() - 1) =~= rs1.drop_last());
        assert(rs1.drop_last().to_multiset() == rs1.to_multiset().remove(x));
        assert(rs2.remove(j).to_multiset() == rs2.to_multiset().remove(x));
        lemma_accumulated_memory_permutation(rs1.drop_last(), rs2.remove(j));
        lemma_accumulated_memory_remove(rs2, j);
    }
}

/// Order independence of a whole sampling call: permuting the sequence
/// of sub-reads handed to `get_metrics` — the same multiset of readings
/// — leaves every averaged field of the snapshot unchanged, and a window
/// complete in one order is complete in every order. (The memory fields
/// report the last successful read and so keep following the order.)
pub proof fn lemma_sample_order_independent(rs1: Seq<Reading>, rs2: Seq<Reading>, max: MaxFreqs)
    requires
        max.inv(),
        rs1.to_multiset() == rs2.to_multiset(),
        WindowModel::accumulated(rs1).complete(),
    ensures
        WindowModel::accumulated(rs2).complete(),
        reduce_model(WindowModel::accumulated(rs1), max) matches Ok(a) && reduce_model(
            WindowModel::accumulated(rs2),
            max,
        ) matches Ok(b) && {
            let a = reduce_model(WindowModel::accumulated(rs1), max)->Ok_0;
            let b = reduce_model(WindowModel::accumulated(rs2), max)->Ok_0;
            &&& a.cpu_power_mw == b.cpu_power_mw
            &&& a.gpu_power_mw == b.gpu_power_mw
            &&& a.sys_power_mw == b.sys_power_mw
            &&& a.all_power_mw == b.all_power_mw
            &&& a.cpu_temp_mdeg == b.cpu_temp_mdeg
            &&& a.gpu_temp_mdeg == b.gpu_temp_mdeg
            &&& a.ecpu_usage == b.ecpu_usage
            &&& a.pcpu_usage == b.pcpu_usage
            &&& a.gpu_usage == b.gpu_usage
        },
{
    broadcast use vstd::seq_lib::group_to_multiset_ensures;

    let m1 = WindowModel::accumulated(rs1);
    let m2 = WindowModel::accumulated(rs2);
    lemma_accumulated_permutation(rs1, rs2, Domain::CpuPower);
    lemma_accumulated_permutation(rs1, rs2, Domain::GpuPower);
    lemma_accumulated_permutation(rs1, rs2, Domain::SysPower);
    lemma_accumulated_permutation(rs1, rs2, Domain::AllPower);
    lemma_accumulated_permutation(rs1, rs2, Domain::CpuTemp);
    lemma_accumulated_permutation(rs1, rs2, Domain::GpuTemp);
    lemma_accumulated_permutation(rs1, rs2, Domain::EcpuFreq);
    lemma_accumulated_permutation(rs1, rs2, Domain::PcpuFreq);
    lemma_accumulated_permutation(rs1, rs2, Domain::GpuFreq);
    lemma_accumulated_memory_permutation(rs1, rs2);
    assert(m2.memory.len() == m2.memory.to_multiset().len());
    assert(m1.memory.len() == m1.memory.to_multiset().len());
    lemma_reduce_order_independent(m1, m2, max);
}

} // verus!
