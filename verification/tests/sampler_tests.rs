use telemetry_sampler::errors::Domain;
use telemetry_sampler::errors::SamplerError;
use telemetry_sampler::metrics::MaxFreqs;
use telemetry_sampler::metrics::MemReading;
use telemetry_sampler::metrics::PERCENT_SCALE;
use telemetry_sampler::sampler::Sampler;
use telemetry_sampler::window::Reading;

fn default_max() -> MaxFreqs {
    MaxFreqs { ecpu_max_mhz: 1000, pcpu_max_mhz: 2000, gpu_max_mhz: 800 }
}

/// A fully successful sub-read with the given constant values.
fn full_reading(
    cpu_p: u64,
    gpu_p: u64,
    sys_p: u64,
    all_p: u64,
    cpu_t: u64,
    gpu_t: u64,
    ecpu_f: u64,
    pcpu_f: u64,
    gpu_f: u64,
    mem_used: u64,
    mem_total: u64,
) -> Reading {
    Reading {
        cpu_power_mw: Some(cpu_p),
        gpu_power_mw: Some(gpu_p),
        sys_power_mw: Some(sys_p),
        all_power_mw: Some(all_p),
        cpu_temp_zones_mdeg: vec![cpu_t],
        gpu_temp_zones_mdeg: vec![gpu_t],
        ecpu_freq_mhz: Some(ecpu_f),
        pcpu_freq_mhz: Some(pcpu_f),
        gpu_freq_mhz: Some(gpu_f),
        memory: Some(MemReading { used_bytes: mem_used, total_bytes: mem_total }),
    }
}

fn plain_reading() -> Reading {
    full_reading(5000, 2000, 8000, 9000, 45_000, 40_000, 500, 1000, 400, 1 << 30, 1 << 33)
}

#[test]
fn create_succeeds_on_positive_maxima() {
    let s = Sampler::create(default_max()).unwrap();
    assert_eq!(s.max.ecpu_max_mhz, 1000);
}

#[test]
fn create_fails_on_zero_maximum() {
    let r = Sampler::create(MaxFreqs { ecpu_max_mhz: 0, pcpu_max_mhz: 2000, gpu_max_mhz: 800 });
    assert_eq!(r.unwrap_err(), SamplerError::InitializationError);
}

#[test]
fn zero_duration_is_invalid_argument() {
    let mut s = Sampler::create(default_max()).unwrap();
    let r = s.get_metrics(0, &vec![plain_reading()]);
    assert_eq!(r.unwrap_err(), SamplerError::InvalidArgument);
}

#[test]
fn negative_duration_is_invalid_argument() {
    let mut s = Sampler::create(default_max()).unwrap();
    let r = s.get_metrics(-250, &vec![plain_reading()]);
    assert_eq!(r.unwrap_err(), SamplerError::InvalidArgument);
}

#[test]
fn invalid_duration_consumes_no_read() {
    // The session never opens: begin_sample refuses the window length
    // before any sensor read could be recorded.
    let mut s = Sampler::create(default_max()).unwrap();
    let r = s.begin_sample(0);
    assert_eq!(r.unwrap_err(), SamplerError::InvalidArgument);
    assert!(!s.sampling);
}

#[test]
fn plan_matches_requested_window() {
    let mut s = Sampler::create(default_max()).unwrap();
    let plan = s.begin_sample(500).unwrap();
    assert_eq!(plan.sub_reads, 5);
    assert_eq!(plan.interval_ms, 100);
    let _ = s.finish_sample();
    let plan = s.begin_sample(1000).unwrap();
    assert_eq!(plan.sub_reads, 10);
    assert_eq!(plan.interval_ms, 100);
    let _ = s.finish_sample();
    let plan = s.begin_sample(60).unwrap();
    assert_eq!(plan.sub_reads, 1);
    assert_eq!(plan.interval_ms, 60);
}

#[test]
fn end_to_end_constant_stub_sensors() {
    // Stub sensors hold cpu_power at 5.0 W and gpu_power at 2.0 W for
    // five sub-reads, with frequencies at half the platform maximum; a
    // 500 ms window at the 100 ms cadence reproduces them exactly.
    let mut s = Sampler::create(default_max()).unwrap();
    let reads: Vec<Reading> = (0..5).map(|_| plain_reading()).collect();
    let m = s.get_metrics(500, &reads).unwrap();
    assert_eq!(m.cpu_power_mw, 5000);
    assert_eq!(m.gpu_power_mw, 2000);
    assert_eq!(m.ecpu_usage.freq_mhz, 500);
    assert_eq!(m.ecpu_usage.percent_centi, PERCENT_SCALE / 2);
    assert_eq!(m.pcpu_usage.percent_centi, PERCENT_SCALE / 2);
    assert_eq!(m.gpu_usage.percent_centi, PERCENT_SCALE / 2);
}

#[test]
fn single_read_window_is_identity() {
    let mut s = Sampler::create(default_max()).unwrap();
    let m = s.get_metrics(50, &vec![plain_reading()]).unwrap();
    assert_eq!(m.cpu_power_mw, 5000);
    assert_eq!(m.gpu_power_mw, 2000);
    assert_eq!(m.sys_power_mw, 8000);
    assert_eq!(m.all_power_mw, 9000);
    assert_eq!(m.cpu_temp_mdeg, 45_000);
    assert_eq!(m.gpu_temp_mdeg, 40_000);
    assert_eq!(m.ecpu_usage.freq_mhz, 500);
    assert_eq!(m.pcpu_usage.freq_mhz, 1000);
    assert_eq!(m.gpu_usage.freq_mhz, 400);
    assert_eq!(m.mem_usage, 1 << 30);
    assert_eq!(m.mem_total, 1 << 33);
}

#[test]
fn no_data_names_the_failed_domain() {
    // Every sub-read of the CPU power rail is forced to fail; the whole
    // call fails with NoData for exactly that domain, fabricating
    // nothing.
    let mut s = Sampler::create(default_max()).unwrap();
    let mut reads = Vec::new();
    for _ in 0..5 {
        let mut r = plain_reading();
        r.cpu_power_mw = None;
        reads.push(r);
    }
    let e = s.get_metrics(500, &reads).unwrap_err();
    assert_eq!(e, SamplerError::NoData(Domain::CpuPower));
}

#[test]
fn no_data_names_a_thermal_domain() {
    let mut s = Sampler::create(default_max()).unwrap();
    let mut reads = Vec::new();
    for _ in 0..3 {
        let mut r = plain_reading();
        r.gpu_temp_zones_mdeg = Vec::new();
        reads.push(r);
    }
    let e = s.get_metrics(300, &reads).unwrap_err();
    assert_eq!(e, SamplerError::NoData(Domain::GpuTemp));
}

#[test]
fn empty_window_has_no_data() {
    let mut s = Sampler::create(default_max()).unwrap();
    let e = s.get_metrics(500, &Vec::new()).unwrap_err();
    assert_eq!(e, SamplerError::NoData(Domain::CpuPower));
}

#[test]
fn transient_failures_are_skipped() {
    // Two of four sub-reads fail entirely; the means are taken over the
    // two successful ones alone.
    let mut s = Sampler::create(default_max()).unwrap();
    let reads = vec![
        full_reading(4000, 1000, 7000, 8000, 40_000, 30_000, 400, 800, 200, 100, 1000),
        Reading::all_failed(),
        full_reading(6000, 3000, 9000, 10_000, 50_000, 50_000, 600, 1200, 600, 200, 1000),
        Reading::all_failed(),
    ];
    let m = s.get_metrics(400, &reads).unwrap();
    assert_eq!(m.cpu_power_mw, 5000);
    assert_eq!(m.gpu_power_mw, 2000);
    assert_eq!(m.sys_power_mw, 8000);
    assert_eq!(m.all_power_mw, 9000);
    assert_eq!(m.cpu_temp_mdeg, 45_000);
    assert_eq!(m.gpu_temp_mdeg, 40_000);
    assert_eq!(m.ecpu_usage.freq_mhz, 500);
}

#[test]
fn averaging_is_order_independent() {
    // The same multiset of sub-reads in two different orders: every
    // averaged field agrees; only the point-in-time memory fields follow
    // the order.
    let a = full_reading(4000, 1000, 7000, 8000, 40_000, 30_000, 400, 800, 200, 100, 1000);
    let b = full_reading(6000, 3000, 9000, 10_000, 50_000, 50_000, 600, 1200, 600, 200, 1000);
    let c = full_reading(2000, 2000, 8000, 9000, 45_000, 40_000, 500, 1000, 400, 300, 1000);
    let mut s1 = Sampler::create(default_max()).unwrap();
    let mut s2 = Sampler::create(default_max()).unwrap();
    let m1 = s1.get_metrics(300, &vec![a.clone(), b.clone(), c.clone()]).unwrap();
    let m2 = s2.get_metrics(300, &vec![c, a, b]).unwrap();
    assert_eq!(m1.cpu_power_mw, m2.cpu_power_mw);
    assert_eq!(m1.gpu_power_mw, m2.gpu_power_mw);
    assert_eq!(m1.sys_power_mw, m2.sys_power_mw);
    assert_eq!(m1.all_power_mw, m2.all_power_mw);
    assert_eq!(m1.cpu_temp_mdeg, m2.cpu_temp_mdeg);
    assert_eq!(m1.gpu_temp_mdeg, m2.gpu_temp_mdeg);
    assert_eq!(m1.ecpu_usage, m2.ecpu_usage);
    assert_eq!(m1.pcpu_usage, m2.pcpu_usage);
    assert_eq!(m1.gpu_usage, m2.gpu_usage);
}

#[test]
fn memory_reports_the_last_read() {
    let mut s = Sampler::create(default_max()).unwrap();
    let mut first = plain_reading();
    first.memory = Some(MemReading { used_bytes: 111, total_bytes: 1000 });
    let mut second = plain_reading();
    second.memory = Some(MemReading { used_bytes: 222, total_bytes: 1000 });
    let mut third = plain_reading();
    third.memory = None;
    let m = s.get_metrics(300, &vec![first, second, third]).unwrap();
    assert_eq!(m.mem_usage, 222);
    assert_eq!(m.mem_total, 1000);
}

#[test]
fn percent_is_clamped_to_one_hundred() {
    // A transient frequency reading above the platform maximum must not
    // push the percent past 100.
    let mut s = Sampler::create(default_max()).unwrap();
    let mut r = plain_reading();
    r.ecpu_freq_mhz = Some(1500);
    let m = s.get_metrics(50, &vec![r]).unwrap();
    assert_eq!(m.ecpu_usage.percent_centi, PERCENT_SCALE);
    assert_eq!(m.ecpu_usage.freq_mhz, 1500);
}

#[test]
fn percent_fields_lie_within_range() {
    let mut s = Sampler::create(default_max()).unwrap();
    let reads = vec![
        full_reading(1, 2, 3, 4, 5, 6, 999_999, 777, 1, u64::MAX, u64::MAX),
        plain_reading(),
    ];
    let m = s.get_metrics(1000, &reads).unwrap();
    assert!(m.ecpu_usage.percent_centi <= PERCENT_SCALE);
    assert!(m.pcpu_usage.percent_centi <= PERCENT_SCALE);
    assert!(m.gpu_usage.percent_centi <= PERCENT_SCALE);
    assert!(m.mem_usage <= m.mem_total);
    assert!(m.ecpu_usage.freq_mhz >= 1);
}

#[test]
fn sessions_are_serialized() {
    // One sampler, two back-to-back sessions: the second can only open
    // after the first has finished, so its reads never interleave with
    // the first session's accumulation.
    let mut s = Sampler::create(default_max()).unwrap();
    let _ = s.begin_sample(200).unwrap();
    assert!(s.sampling);
    s.record_read(&plain_reading());
    s.record_read(&plain_reading());
    let first = s.finish_sample().unwrap();
    assert!(!s.sampling);
    let _ = s.begin_sample(100).unwrap();
    let mut r = plain_reading();
    r.cpu_power_mw = Some(7000);
    s.record_read(&r);
    let second = s.finish_sample().unwrap();
    assert_eq!(first.cpu_power_mw, 5000);
    assert_eq!(second.cpu_power_mw, 7000);
}

#[test]
fn session_buffers_reset_between_samples() {
    // Nothing of the first window leaks into the second.
    let mut s = Sampler::create(default_max()).unwrap();
    let m1 = s.get_metrics(100, &vec![plain_reading()]).unwrap();
    assert_eq!(m1.cpu_power_mw, 5000);
    let e = s.get_metrics(100, &Vec::new()).unwrap_err();
    assert_eq!(e, SamplerError::NoData(Domain::CpuPower));
}

#[test]
fn error_descriptions_are_distinct() {
    let a = SamplerError::InitializationError.describe();
    let b = SamplerError::InvalidArgument.describe();
    let c = SamplerError::NoData(Domain::Memory).describe();
    assert_ne!(a, b);
    assert_ne!(b, c);
    assert_ne!(a, c);
}
