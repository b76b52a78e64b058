//! The processor benchmark: the fixed set of workloads and the time-boxed
//! runner that fans a workload out over every processing unit, round after
//! round, until the target duration has passed.

use crate::kernels::{
    integer_after, prime_kernel_value, test_integer, test_memory, test_prime, PRIME_CHUNK,
};
use crate::timebox::{per_second, rate_per_second, TimeBox, NANOS_PER_SECOND};
use rayon::prelude::IntoParallelIterator;
use rayon::prelude::ParallelIterator;
use std::num::Wrapping;
use std::time::Duration;
use std::time::Instant;
use vstd::prelude::*;

verus! {

/// Iterations handed to a kernel by each processing unit in one round.
pub const BATCH_SIZE: u64 = 2000;

/// Target duration of one workload in quick mode, in nanoseconds.
pub const QUICK_TARGET_NANOS: u128 = 3_000_000_000;

/// Target duration of one workload by default, in nanoseconds.
pub const FULL_TARGET_NANOS: u128 = 10_000_000_000;

/// The processor workloads, in the order in which they run.
#[derive(Clone, Copy, Debug, PartialEq, Eq, Structural)]
pub enum Workload {
    FloatingPoint,
    Integer,
    Memory,
    Prime,
}

/// The name under which a workload is reported.
pub open spec fn workload_name(w: Workload) -> Seq<char> {
    match w {
        Workload::FloatingPoint => "Floating Point"@,
        Workload::Integer => "Integer"@,
        Workload::Memory => "Memory"@,
        Workload::Prime => "Prime"@,
    }
}

impl Workload {
    pub fn name(&self) -> (r: String)
        ensures
            r@ == workload_name(*self),
    {
        match self {
            Workload::FloatingPoint => "Floating Point".to_owned(),
            Workload::Integer => "Integer".to_owned(),
            Workload::Memory => "Memory".to_owned(),
            Workload::Prime => "Prime".to_owned(),
        }
    }

    /// Whether the workload's kernel is integer code that this crate runs
    /// itself; the floating-point kernel is left to the caller.
    pub open spec fn spec_is_integer(&self) -> bool {
        !(*self is FloatingPoint)
    }
}

/// All processor workloads, in the order in which they run.
pub fn workloads() -> (r: Vec<Workload>)
    ensures
        r@ == seq![Workload::FloatingPoint, Workload::Integer, Workload::Memory, Workload::Prime],
{
    vec![Workload::FloatingPoint, Workload::Integer, Workload::Memory, Workload::Prime]
}

/// The target duration of each workload, in nanoseconds: 3 s in quick mode,
/// 10 s otherwise.
pub fn target_nanos(quick: bool) -> (r: u128)
    ensures
        r == if quick { QUICK_TARGET_NANOS } else { FULL_TARGET_NANOS },
{
    if quick {
        QUICK_TARGET_NANOS
    } else {
        FULL_TARGET_NANOS
    }
}

/// What an admissible kernel call may be given: the prime kernel's last number
/// must fit in `u64`.
pub open spec fn kernel_admits(kind: Workload, iterations: u64) -> bool {
    kind.spec_is_integer() && (kind is Prime ==> iterations * PRIME_CHUNK <= u64::MAX)
}

/// Modulus of the 64-bit wrap-around accumulators.
pub open spec fn word_modulus() -> int {
    0x1_0000_0000_0000_0000
}

/// Whether the kernel's result is a function of its iteration count alone.
pub open spec fn is_deterministic(kind: Workload) -> bool {
    kind is Integer || kind is Prime
}

/// What a deterministic kernel returns after `iterations` iterations.
pub open spec fn kernel_value(kind: Workload, iterations: u64) -> int {
    match kind {
        Workload::Integer => integer_after(iterations as nat).sum as int,
        Workload::Prime => prime_kernel_value(iterations as nat) as int,
        _ => 0,
    }
}

/// Run the kernel of an integer workload for `iterations` iterations.
pub fn run_kernel(kind: Workload, iterations: u64) -> (r: u64)
    requires
        kernel_admits(kind, iterations),
    ensures
        kind is Integer ==> r == integer_after(iterations as nat).sum,
        kind is Prime ==> r == prime_kernel_value(iterations as nat),
        is_deterministic(kind) ==> r == kernel_value(kind, iterations),
        kind is Memory && iterations == 0 ==> r == 0,
{
    match kind {
        Workload::Integer => test_integer(iterations),
        Workload::Memory => test_memory(iterations),
        _ => test_prime(iterations),
    }
}

/// Relies on rayon's parallel iterator over `0..units`, with `map` and `sum`:
/// the kernel runs once for each unit on rayon's pool, and the call returns
/// only once every unit has finished. The accumulators are summed with
/// wrap-around through `Wrapping`, so for a kernel whose result depends on its
/// argument alone the total is `units` times that result, modulo 2^64.
#[verifier::external_body]
fn parallel_round(kind: Workload, iterations: u64, units: usize) -> (r: u64)
    requires
        kernel_admits(kind, iterations),
    ensures
        is_deterministic(kind) ==> r == (units * kernel_value(kind, iterations)) % word_modulus(),
{
    (0..units).into_par_iter().map(|_| Wrapping(run_kernel(kind, iterations))).sum::<Wrapping<u64>>().0
}

#[verifier::external_type_specification]
#[verifier::external_body]
pub struct ExInstant(std::time::Instant);

/// Relies on std's Instant::now: a reading of the monotonic clock.
pub assume_specification[ std::time::Instant::now ]() -> std::time::Instant;

/// Relies on std's Instant::elapsed: the time since the reading.
pub assume_specification[ std::time::Instant::elapsed ](i: &std::time::Instant) -> Duration;

/// Relies on std's Duration::as_nanos: the whole duration in nanoseconds.
pub assume_specification[ core::time::Duration::as_nanos ](d: &Duration) -> u128;

/// One workload's measurement.
pub struct BenchmarkResult {
    /// Elapsed time from the start of the loop to the reading that ended it.
    pub duration_nanos: u128,
    /// Operations performed: iterations per unit and round, times units and rounds.
    pub total_ops: u128,
    pub cpu_count: usize,
    pub benchmark_type: String,
    /// Rounds run.
    pub rounds: u64,
    /// The reading at which the last round was started.
    pub last_round_start_nanos: u128,
    /// Wrap-around sum of what the kernels returned.
    pub checksum: u64,
}

impl BenchmarkResult {
    /// Operations per second, rounded down; `None` for a zero duration (or a
    /// count too large to scale).
    pub fn operations_per_second(&self) -> (r: Option<u128>)
        ensures
            r is Some <==> self.duration_nanos > 0 && self.total_ops * NANOS_PER_SECOND
                <= u128::MAX,
            r matches Some(v) ==> v == rate_per_second(
                self.total_ops as int,
                self.duration_nanos as int,
            ),
            r matches Some(v) ==> v * self.duration_nanos <= self.total_ops * NANOS_PER_SECOND < (v
                + 1) * self.duration_nanos,
    {
        per_second(self.total_ops, self.duration_nanos)
    }
}

/// Adding one more round's wrapped total to the wrapped total of `rounds`
/// rounds gives the wrapped total of `rounds + 1` rounds.
proof fn lemma_fold_round(acc: u64, part: u64, rounds: int, per_round: int)
    requires
        acc == (rounds * per_round) % word_modulus(),
        part == per_round % word_modulus(),
    ensures
        acc.wrapping_add(part) == ((rounds + 1) * per_round) % word_modulus(),
{
    vstd::arithmetic::div_mod::lemma_add_mod_noop(rounds * per_round, per_round, word_modulus());
    assert((rounds + 1) * per_round == rounds * per_round + per_round) by (nonlinear_arith);
    assert(acc.wrapping_add(part) == ((acc + part) as int) % word_modulus());
}

/// Run one integer workload time-boxed to `target` nanoseconds on
/// `cpu_count` units: each round runs the kernel once per unit with
/// `BATCH_SIZE` iterations, and rounds repeat while the elapsed time read
/// between rounds is below the target.
pub fn run_workload(kind: Workload, target: u128, cpu_count: usize) -> (r: BenchmarkResult)
    requires
        kind.spec_is_integer(),
        BATCH_SIZE * cpu_count <= u64::MAX,
    ensures
        r.benchmark_type@ == workload_name(kind),
        r.cpu_count == cpu_count,
        r.total_ops == r.rounds * BATCH_SIZE * cpu_count,
        r.duration_nanos >= target || r.rounds == u64::MAX,
        r.rounds > 0 ==> r.last_round_start_nanos < target,
        r.rounds == 0 ==> r.last_round_start_nanos == 0,
        is_deterministic(kind) ==> r.checksum == (r.rounds * cpu_count * kernel_value(
            kind,
            BATCH_SIZE,
        )) % word_modulus(),
{
    let ops_per_round = BATCH_SIZE * (cpu_count as u64);
    let mut tb = TimeBox::new(target, ops_per_round);
    let mut checksum: u64 = 0;
    assert(kernel_admits(kind, BATCH_SIZE));
    assert(0 * cpu_count * kernel_value(kind, BATCH_SIZE) == 0);
    assert((0int % word_modulus()) == 0);
    let start = Instant::now();
    loop
        invariant_except_break
            !tb.finished,
        invariant
            kernel_admits(kind, BATCH_SIZE),
            is_deterministic(kind) ==> checksum == (tb.rounds * cpu_count * kernel_value(
                kind,
                BATCH_SIZE,
            )) % word_modulus(),
            tb.wf(),
            tb.target_nanos == target,
            tb.ops_per_round == ops_per_round,
        ensures
            tb.ended_within_bounds(),
            tb.target_nanos == target,
            tb.ops_per_round == ops_per_round,
        decreases u64::MAX - tb.rounds,
    {
        let elapsed = start.elapsed().as_nanos();
        if !tb.begin_round(elapsed) {
            break;
        }
        let part = parallel_round(kind, BATCH_SIZE, cpu_count);
        proof {
            if is_deterministic(kind) {
                let per_round = cpu_count * kernel_value(kind, BATCH_SIZE);
                let n = tb.rounds as int;
                assert((n - 1) * cpu_count * kernel_value(kind, BATCH_SIZE) == (n - 1) * per_round)
                    by (nonlinear_arith)
                    requires
                        per_round == cpu_count * kernel_value(kind, BATCH_SIZE),
                ;
                assert(n * cpu_count * kernel_value(kind, BATCH_SIZE) == n * per_round)
                    by (nonlinear_arith)
                    requires
                        per_round == cpu_count * kernel_value(kind, BATCH_SIZE),
                ;
                lemma_fold_round(checksum, part, n - 1, per_round);
            }
        }
        checksum = checksum.wrapping_add(part);
    }
    let total_ops = tb.total_ops();
    proof {
        assert(tb.rounds * ops_per_round == tb.rounds * BATCH_SIZE * cpu_count) by (nonlinear_arith)
            requires
                ops_per_round == BATCH_SIZE * cpu_count,
        ;
    }
    BenchmarkResult {
        duration_nanos: tb.elapsed_nanos,
        total_ops,
        cpu_count,
        benchmark_type: kind.name(),
        rounds: tb.rounds,
        last_round_start_nanos: tb.last_round_start_nanos,
        checksum,
    }
}

} // verus!
