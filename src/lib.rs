//! Synthetic processor and accelerator workloads, the time-boxed runner that
//! drives them, and the throughput arithmetic behind the reported scores.

pub mod kernels;
pub mod timebox;
pub mod cpu;
pub mod gpu;

pub use cpu::{BenchmarkResult, Workload};
pub use gpu::GPUBenchmarkResult;
