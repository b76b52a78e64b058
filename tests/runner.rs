use rustybench::cpu::{
    run_kernel, run_workload, target_nanos, workloads, BATCH_SIZE, FULL_TARGET_NANOS,
    QUICK_TARGET_NANOS,
};
use rustybench::kernels::{test_integer, test_prime};
use rustybench::timebox::{per_second, TimeBox};
use rustybench::{BenchmarkResult, Workload};

#[test]
fn per_second_exact_values() {
    assert_eq!(per_second(1000, 1_000_000_000), Some(1000));
    assert_eq!(per_second(3, 2_000_000_000), Some(1));
    assert_eq!(per_second(8_000, 2_000_000_000), Some(4000));
    assert_eq!(per_second(1, 3), Some(333_333_333));
    assert_eq!(per_second(0, 5), Some(0));
}

#[test]
fn per_second_rejects_zero_duration_and_overflow() {
    assert_eq!(per_second(10, 0), None);
    assert_eq!(per_second(u128::MAX, 1), None);
}

#[test]
fn per_second_times_duration_recovers_ops() {
    let ops: u128 = 123_456_789;
    let nanos: u128 = 2_500_000_000;
    let v = per_second(ops, nanos).unwrap();
    assert!(v * nanos <= ops * 1_000_000_000);
    assert!(ops * 1_000_000_000 < (v + 1) * nanos);
    assert_eq!(v, 49_382_715);
}

#[test]
fn time_box_with_fixed_cost_rounds() {
    // A round that always takes 40 ns, against a target of 100 ns.
    let mut tb = TimeBox::new(100, 8);
    let mut clock: u128 = 0;
    while tb.begin_round(clock) {
        clock += 40;
    }
    assert_eq!(tb.rounds, 3);
    assert_eq!(tb.elapsed_nanos, 120);
    assert_eq!(tb.last_round_start_nanos, 80);
    assert!(tb.elapsed_nanos >= tb.target_nanos);
    assert!(tb.elapsed_nanos < tb.target_nanos + 40);
    assert_eq!(tb.total_ops(), 24);
    assert!(tb.finished);
    assert!(!tb.begin_round(0));
    assert_eq!(tb.rounds, 3);
}

#[test]
fn time_box_with_zero_target_runs_no_round() {
    let mut tb = TimeBox::new(0, 5);
    assert!(!tb.begin_round(0));
    assert_eq!(tb.rounds, 0);
    assert_eq!(tb.total_ops(), 0);
}

#[test]
fn time_box_reading_on_the_target_ends_the_loop() {
    let mut tb = TimeBox::new(50, 1);
    assert!(tb.begin_round(49));
    assert!(!tb.begin_round(50));
    assert_eq!(tb.rounds, 1);
    assert_eq!(tb.elapsed_nanos, 50);
}

#[test]
fn workloads_in_order_with_names() {
    let w = workloads();
    assert_eq!(
        w,
        vec![Workload::FloatingPoint, Workload::Integer, Workload::Memory, Workload::Prime]
    );
    let names: Vec<String> = w.iter().map(|k| k.name()).collect();
    assert_eq!(names, vec!["Floating Point", "Integer", "Memory", "Prime"]);
}

#[test]
fn target_durations() {
    assert_eq!(target_nanos(true), 3_000_000_000);
    assert_eq!(target_nanos(false), 10_000_000_000);
    assert_eq!(QUICK_TARGET_NANOS, 3_000_000_000);
    assert_eq!(FULL_TARGET_NANOS, 10_000_000_000);
}

#[test]
fn run_kernel_dispatches() {
    assert_eq!(run_kernel(Workload::Integer, 2), test_integer(2));
    assert_eq!(run_kernel(Workload::Prime, 1), 303);
    assert_eq!(run_kernel(Workload::Prime, 3), test_prime(3));
    assert_eq!(run_kernel(Workload::Memory, 0), 0);
}

fn check_record(r: &BenchmarkResult, target: u128, units: usize, name: &str) {
    assert_eq!(r.benchmark_type, name);
    assert_eq!(r.cpu_count, units);
    assert!(r.rounds >= 1);
    assert_eq!(r.total_ops, r.rounds as u128 * BATCH_SIZE as u128 * units as u128);
    assert!(r.duration_nanos >= target);
    assert!(r.last_round_start_nanos < target);
    let ops = r.operations_per_second().unwrap();
    assert!(ops * r.duration_nanos <= r.total_ops * 1_000_000_000);
    assert!(r.total_ops * 1_000_000_000 < (ops + 1) * r.duration_nanos);
}

#[test]
fn run_workload_prime_is_time_boxed() {
    let target: u128 = 20_000_000;
    let r = run_workload(Workload::Prime, target, 2);
    check_record(&r, target, 2, "Prime");
    assert_eq!(r.checksum, (r.rounds as u64) * 2 * test_prime(BATCH_SIZE));
}

#[test]
fn run_workload_integer_is_time_boxed() {
    let target: u128 = 20_000_000;
    let r = run_workload(Workload::Integer, target, 1);
    check_record(&r, target, 1, "Integer");
    let per_round = test_integer(BATCH_SIZE);
    assert_eq!(r.checksum, per_round.wrapping_mul(r.rounds));
}

#[test]
fn run_workload_with_zero_target_runs_no_round() {
    let r = run_workload(Workload::Integer, 0, 4);
    assert_eq!(r.rounds, 0);
    assert_eq!(r.total_ops, 0);
    assert_eq!(r.checksum, 0);
    assert_eq!(r.last_round_start_nanos, 0);
}
