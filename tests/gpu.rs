use rustybench::gpu::{
    select_device, workgroup_count, GpuDevice, COMPUTE_BATCHES_PER_ROUND,
    MEMORY_BATCHES_PER_ROUND, MIN_TEST_NANOS,
};
use rustybench::timebox::TimeBox;
use rustybench::GPUBenchmarkResult;

fn device() -> GpuDevice {
    GpuDevice { name: "Test Adapter".to_string(), device_type: "DiscreteGpu".to_string() }
}

#[test]
fn no_adapter_gives_no_result() {
    assert!(select_device(None, true).is_none());
    assert!(select_device(None, false).is_none());
}

#[test]
fn device_that_fails_to_open_gives_no_result() {
    assert!(select_device(Some(device()), false).is_none());
}

#[test]
fn opened_device_is_kept() {
    let d = select_device(Some(device()), true).unwrap();
    assert_eq!(d.name, "Test Adapter");
    assert_eq!(d.device_type, "DiscreteGpu");
}

#[test]
fn workgroups_cover_every_element() {
    assert_eq!(workgroup_count(), 8192);
}

fn one_round(per_round: u64) -> TimeBox {
    let mut tb = TimeBox::new(MIN_TEST_NANOS, per_round);
    assert!(tb.begin_round(0));
    assert!(!tb.begin_round(MIN_TEST_NANOS));
    tb
}

#[test]
fn scores_from_one_round_each() {
    let compute = one_round(COMPUTE_BATCHES_PER_ROUND);
    let memory = one_round(MEMORY_BATCHES_PER_ROUND);
    let r = GPUBenchmarkResult::from_phases(
        device(),
        &compute,
        3_000_000_000,
        &memory,
        3_000_000_000,
        6_500_000_000,
    );
    assert_eq!(r.device_name, "Test Adapter");
    assert_eq!(r.compute_batches, 100);
    assert_eq!(r.memory_batches, 50);
    assert_eq!(r.duration_nanos, 6_500_000_000);
    // 2,097,152 vectors, 50 passes, 100 batches in three seconds.
    assert_eq!(r.compute_score(), Some(3_495));
    // 50 copies of 512 MiB in three seconds.
    assert_eq!(r.memory_score(), Some(8_533));
}

#[test]
fn scores_over_four_seconds() {
    let compute = one_round(COMPUTE_BATCHES_PER_ROUND);
    let memory = one_round(MEMORY_BATCHES_PER_ROUND);
    let r = GPUBenchmarkResult::from_phases(
        device(),
        &compute,
        4_000_000_000,
        &memory,
        4_000_000_000,
        8_000_000_000,
    );
    assert_eq!(r.compute_score(), Some(2_621));
    assert_eq!(r.memory_score(), Some(6_400));
}

#[test]
fn two_rounds_double_the_batches() {
    let mut compute = TimeBox::new(MIN_TEST_NANOS, COMPUTE_BATCHES_PER_ROUND);
    assert!(compute.begin_round(0));
    assert!(compute.begin_round(2_000_000_000));
    assert!(!compute.begin_round(3_500_000_000));
    let memory = one_round(MEMORY_BATCHES_PER_ROUND);
    let r = GPUBenchmarkResult::from_phases(
        device(),
        &compute,
        3_600_000_000,
        &memory,
        3_000_000_000,
        7_000_000_000,
    );
    assert_eq!(r.compute_batches, 200);
    assert_eq!(r.compute_score(), Some(5_825));
}

#[test]
fn scores_with_zero_time_are_absent() {
    let r = GPUBenchmarkResult {
        device_name: "Test Adapter".to_string(),
        device_type: "Cpu".to_string(),
        compute_batches: 100,
        compute_nanos: 0,
        memory_batches: 50,
        memory_nanos: 0,
        duration_nanos: 0,
    };
    assert_eq!(r.compute_score(), None);
    assert_eq!(r.memory_score(), None);
}
