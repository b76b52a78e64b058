//! The accelerator benchmark's decisions and arithmetic. Driving the device
//! (adapter, shaders, buffers, submissions) is the caller's part: it reports
//! what it acquired and how many batches each phase ran, and the phases are
//! time-boxed with `TimeBox`.

use crate::timebox::{TimeBox, NANOS_PER_SECOND};
use vstd::prelude::*;

verus! {

/// Minimum duration of each phase, in nanoseconds.
pub const MIN_TEST_NANOS: u128 = 3_000_000_000;

/// Compute batches submitted per round of the compute phase.
pub const COMPUTE_BATCHES_PER_ROUND: u64 = 100;

/// Copy batches submitted per round of the memory phase.
pub const MEMORY_BATCHES_PER_ROUND: u64 = 50;

/// Invocations per workgroup of the compute program.
pub const WORKGROUP_SIZE: u32 = 256;

/// Four-component vectors processed by one compute batch.
pub const COMPUTE_ELEMENTS: u32 = 2_097_152;

/// Passes of the compute program's inner loop over each vector.
pub const SHADER_PASSES: u128 = 50;

/// Bytes copied by one memory batch (512 MiB).
pub const MEMORY_COPY_BYTES: u64 = 536_870_912;

/// Bytes in one mebibyte, the unit of the memory score.
pub const BYTES_PER_MIB: u128 = 1_048_576;

/// Workgroups dispatched per compute batch.
pub fn workgroup_count() -> (r: u32)
    ensures
        r * WORKGROUP_SIZE == COMPUTE_ELEMENTS,
{
    COMPUTE_ELEMENTS / WORKGROUP_SIZE
}

/// The accelerator that was acquired.
pub struct GpuDevice {
    pub name: String,
    pub device_type: String,
}

/// Decide whether the benchmark has a device to run on: the adapter that the
/// backend offered, if any, and whether it then opened a device on it.
/// Declining is a valid outcome: `None`, never an error.
pub fn select_device(adapter: Option<GpuDevice>, device_opened: bool) -> (r: Option<GpuDevice>)
    ensures
        r is None <==> (adapter is None || !device_opened),
        r matches Some(d) ==> adapter matches Some(a) && d == a,
{
    if device_opened {
        adapter
    } else {
        None
    }
}

/// Operations performed by `batches` compute batches.
pub open spec fn compute_ops_of(batches: int) -> int {
    COMPUTE_ELEMENTS * SHADER_PASSES * batches
}

/// Bytes copied by `batches` memory batches.
pub open spec fn memory_bytes_of(batches: int) -> int {
    MEMORY_COPY_BYTES * batches
}

/// The accelerator benchmark's measurement.
pub struct GPUBenchmarkResult {
    pub device_name: String,
    pub device_type: String,
    pub compute_batches: u128,
    pub compute_nanos: u128,
    pub memory_batches: u128,
    pub memory_nanos: u128,
    pub duration_nanos: u128,
}

/// `amount` divided by `nanos` nanoseconds and by `unit`, per second, rounded down.
pub open spec fn scaled_rate(amount: int, nanos: int, unit: int) -> int {
    (amount * NANOS_PER_SECOND) / (nanos * unit)
}

/// A phase's loop has ended after at least one round of `per_round`
/// batches, on a reading at or past the minimum duration.
pub open spec fn phase_done(phase: TimeBox, per_round: u64) -> bool {
    &&& phase.wf()
    &&& phase.finished
    &&& phase.target_nanos == MIN_TEST_NANOS
    &&& phase.ops_per_round == per_round
    &&& phase.rounds >= 1
    &&& phase.elapsed_nanos >= MIN_TEST_NANOS
}

impl GPUBenchmarkResult {
    /// Batches come in whole rounds, each phase ran at least one round and
    /// lasted at least the minimum duration, and the whole run lasted at
    /// least as long as both phases.
    pub open spec fn wf(&self) -> bool {
        &&& self.compute_batches as int % COMPUTE_BATCHES_PER_ROUND as int == 0
        &&& self.compute_batches >= COMPUTE_BATCHES_PER_ROUND
        &&& self.memory_batches as int % MEMORY_BATCHES_PER_ROUND as int == 0
        &&& self.memory_batches >= MEMORY_BATCHES_PER_ROUND
        &&& self.compute_nanos >= MIN_TEST_NANOS
        &&& self.memory_nanos >= MIN_TEST_NANOS
        &&& self.duration_nanos >= self.compute_nanos + self.memory_nanos
    }

    /// The record of a run on `device`, from the two phases' loops and the
    /// time each took until the device was idle (read after the loop's last
    /// reading), within a run of `duration_nanos`.
    pub fn from_phases(
        device: GpuDevice,
        compute: &TimeBox,
        compute_nanos: u128,
        memory: &TimeBox,
        memory_nanos: u128,
        duration_nanos: u128,
    ) -> (r: GPUBenchmarkResult)
        requires
            phase_done(*compute, COMPUTE_BATCHES_PER_ROUND),
            phase_done(*memory, MEMORY_BATCHES_PER_ROUND),
            compute_nanos >= compute.elapsed_nanos,
            memory_nanos >= memory.elapsed_nanos,
            duration_nanos >= compute_nanos + memory_nanos,
        ensures
            r.wf(),
            r.compute_batches == compute.rounds * COMPUTE_BATCHES_PER_ROUND,
            r.memory_batches == memory.rounds * MEMORY_BATCHES_PER_ROUND,
            r.device_name == device.name,
            r.device_type == device.device_type,
            r.compute_batches == compute.spec_total_ops(),
            r.memory_batches == memory.spec_total_ops(),
            r.compute_nanos == compute_nanos,
            r.memory_nanos == memory_nanos,
            r.duration_nanos == duration_nanos,
    {
        proof {
            vstd::arithmetic::div_mod::lemma_mod_multiples_basic(
                compute.rounds as int,
                COMPUTE_BATCHES_PER_ROUND as int,
            );
            vstd::arithmetic::div_mod::lemma_mod_multiples_basic(
                memory.rounds as int,
                MEMORY_BATCHES_PER_ROUND as int,
            );
        }
        GPUBenchmarkResult {
            device_name: device.name,
            device_type: device.device_type,
            compute_batches: compute.total_ops(),
            compute_nanos,
            memory_batches: memory.total_ops(),
            memory_nanos,
            duration_nanos,
        }
    }

    /// Compute throughput in millions of operations per second, rounded down;
    /// `None` for a zero duration or a count too large to scale.
    pub fn compute_score(&self) -> (r: Option<u128>)
        ensures
            r is Some <==> self.compute_nanos > 0 && compute_ops_of(self.compute_batches as int)
                * NANOS_PER_SECOND <= u128::MAX,
            r matches Some(v) ==> v == scaled_rate(
                compute_ops_of(self.compute_batches as int),
                self.compute_nanos as int,
                1_000_000,
            ),
    {
        let per_batch: u128 = (COMPUTE_ELEMENTS as u128) * SHADER_PASSES;
        scaled_per_second(self.compute_batches, per_batch, self.compute_nanos, 1_000_000)
    }

    /// Copy bandwidth in mebibytes per second, rounded down; `None` for a zero
    /// duration or a count too large to scale.
    pub fn memory_score(&self) -> (r: Option<u128>)
        ensures
            r is Some <==> self.memory_nanos > 0 && memory_bytes_of(self.memory_batches as int)
                * NANOS_PER_SECOND <= u128::MAX,
            r matches Some(v) ==> v == scaled_rate(
                memory_bytes_of(self.memory_batches as int),
                self.memory_nanos as int,
                BYTES_PER_MIB as int,
            ),
    {
        scaled_per_second(self.memory_batches, MEMORY_COPY_BYTES as u128, self.memory_nanos, BYTES_PER_MIB)
    }
}

/// `batches` times `per_batch`, per second over `nanos` nanoseconds, in units
/// of `unit`, rounded down.
fn scaled_per_second(batches: u128, per_batch: u128, nanos: u128, unit: u128) -> (r: Option<u128>)
    requires
        unit > 0,
    ensures
        r is Some <==> nanos > 0 && batches * per_batch * NANOS_PER_SECOND <= u128::MAX,
        r matches Some(v) ==> v == scaled_rate(batches * per_batch, nanos as int, unit as int),
{
    if nanos == 0 {
        return None;
    }
    let amount = match batches.checked_mul(per_batch) {
        None => {
            proof {
                assert(batches * per_batch * NANOS_PER_SECOND > u128::MAX) by (nonlinear_arith)
                    requires
                        batches * per_batch > u128::MAX,
            ;
            }
            return None;
        },
        Some(a) => a,
    };
    match amount.checked_mul(NANOS_PER_SECOND) {
        None => None,
        Some(scaled) => {
            match nanos.checked_mul(unit) {
                None => {
                    proof {
                        assert((scaled as int) / (nanos * unit) == 0) by (nonlinear_arith)
                            requires
                                nanos * unit > u128::MAX,
                                scaled <= u128::MAX,
                                scaled >= 0,
                        ;
                    }
                    Some(0)
                },
                Some(d) => {
                    assert(d > 0) by (nonlinear_arith)
                        requires
                            d == nanos * unit,
                            nanos > 0,
                            unit > 0,
                    ;
                    Some(scaled / d)
                },
            }
        },
    }
}

} // verus!
