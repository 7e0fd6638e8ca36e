//! Control plane for an FPGA-style array of numeric processing units.
//!
//! The crate models and verifies the orchestration layer of the accelerator:
//! the locked block memory pool, the versioned command/response wire protocol,
//! the retrying executor, the per-unit priority scheduler, and the status
//! monitor.  Hardware transports, asynchronous plumbing and numeric kernels
//! live outside this crate; everything here is plain logic over plain values.

pub mod types;
pub mod memory;
pub mod errors;
pub mod protocol;
pub mod link;
pub mod executor;
pub mod scheduler;
pub mod monitor;
pub mod unit;
pub mod instructions;
pub mod compute;
pub mod convert;
pub mod device;
pub mod store;
pub mod rest;
