use telemetry_sampler::average::mean;
use telemetry_sampler::metrics::MaxFreqs;
use telemetry_sampler::metrics::MemReading;
use telemetry_sampler::sampler::Sampler;
use telemetry_sampler::window::Reading;

#[test]
fn mean_of_constants_is_the_constant() {
    assert_eq!(mean(&vec![7, 7, 7, 7]), 7);
}

#[test]
fn mean_discards_the_remainder() {
    assert_eq!(mean(&vec![1, 2]), 1);
    assert_eq!(mean(&vec![0, 0, 5]), 1);
}

#[test]
fn mean_handles_large_values() {
    assert_eq!(mean(&vec![u64::MAX, u64::MAX]), u64::MAX);
    assert_eq!(mean(&vec![u64::MAX, u64::MAX - 2]), u64::MAX - 1);
}

#[test]
fn thermal_zones_average_within_one_sub_read() {
    // Two CPU thermal zones in one sub-read: the window records their
    // mean, and a one-read window reports it unchanged.
    let mut s = Sampler::create(MaxFreqs { ecpu_max_mhz: 10, pcpu_max_mhz: 10, gpu_max_mhz: 10 })
        .unwrap();
    let r = Reading {
        cpu_power_mw: Some(1),
        gpu_power_mw: Some(1),
        sys_power_mw: Some(1),
        all_power_mw: Some(1),
        cpu_temp_zones_mdeg: vec![40_000, 50_000],
        gpu_temp_zones_mdeg: vec![30_000, 30_000, 60_000],
        ecpu_freq_mhz: Some(5),
        pcpu_freq_mhz: Some(5),
        gpu_freq_mhz: Some(5),
        memory: Some(MemReading { used_bytes: 0, total_bytes: 0 }),
    };
    let m = s.get_metrics(100, &vec![r]).unwrap();
    assert_eq!(m.cpu_temp_mdeg, 45_000);
    assert_eq!(m.gpu_temp_mdeg, 40_000);
}
