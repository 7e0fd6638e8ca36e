//! Hardware link: the capability set of the unit array and its simulated
//! stand-in.
//!
//! The link is a trait — initialize, send, receive, readiness — so a real
//! transport and a deterministic test double can be swapped at construction
//! time without changing caller code.  The simulated link tracks only the
//! last command sent and reports success for any valid command once
//! initialized; commands sent before initialization are rejected with the
//! same error shape as a real link.

use vstd::prelude::*;

use crate::errors::{AccelError, HardwareError};
use crate::protocol::{wf_command, wf_response, Command, Response};
use crate::types::{OperationStatus, UnitId};

verus! {

/// Link communication configuration.  The timeout bounds one send/receive
/// exchange, in milliseconds.
#[derive(Debug, Clone)]
pub struct FpgaConfig {
    /// Device path of the transport.
    pub device: String,
    /// Communication timeout in milliseconds.
    pub timeout_ms: u64,
}

impl Default for FpgaConfig {
    /// The default configuration: the first array device, one second.
    fn default() -> (r: FpgaConfig)
        ensures
            r.device@ == "/dev/fpga0"@,
            r.timeout_ms == 1000,
    {
        FpgaConfig { device: "/dev/fpga0".to_owned(), timeout_ms: 1000 }
    }
}

/// Health of the unit array: readiness, temperature in milli-degrees
/// Celsius, utilization in per-mille.
#[derive(Debug, Clone, Copy, PartialEq, Eq, Structural)]
pub struct FpgaStatus {
    /// The link answers commands.
    pub ready: bool,
    /// Reported temperature, milli-degrees Celsius.
    pub temperature: u32,
    /// Reported utilization, per-mille.
    pub utilization: u32,
}

/// Capability set of the hardware link.
///
/// Implementations promise little: a command sent over a link that is not
/// ready fails, and whatever response arrives is well-formed.  Everything a
/// caller needs beyond that it must establish from the response values
/// themselves.
pub trait FpgaInterface: Sized {
    /// The link is initialized and answers commands.
    spec fn ready(&self) -> bool;

    /// Initialize the link; on success the link is ready.  Re-initializing
    /// an already-initialized link is a success and does not re-arm the
    /// hardware.
    fn initialize(&mut self, config: &FpgaConfig) -> (r: Result<(), AccelError>)
        ensures
            r is Ok ==> final(self).ready(),
    ;

    /// Send one command.  Fails with a communication error when the link is
    /// not ready.
    fn send_command(&mut self, cmd: Command) -> (r: Result<(), AccelError>)
        requires
            wf_command(cmd),
        ensures
            !old(self).ready() ==> r is Err,
            final(self).ready() == old(self).ready(),
    ;

    /// Wait for the next response.  Blocks the caller until a response
    /// arrives or the transport fails; it does not itself enforce a timeout
    /// — that is the executor's responsibility.
    fn receive_response(&mut self) -> (r: Result<Response, AccelError>)
        ensures
            !old(self).ready() ==> r is Err,
            final(self).ready() == old(self).ready(),
            r matches Ok(resp) ==> wf_response(resp),
    ;

    /// Non-blocking health check.
    fn is_ready(&self) -> (r: bool)
        ensures
            r == self.ready(),
    ;
}

/// Simulated unit array for testing: it tracks only the last command sent
/// and trivially reports success for any valid command once initialized.
#[derive(Debug)]
pub struct MockFpga {
    ready: bool,
    last_command: Option<Command>,
}

impl MockFpga {
    /// The last command the simulated array received.
    pub closed spec fn last_command(&self) -> Option<Command> {
        self.last_command
    }
}

impl Default for MockFpga {
    /// A fresh simulated array: not yet initialized, no command seen.
    fn default() -> (r: MockFpga)
        ensures
            !r.ready(),
            r.last_command() is None,
    {
        MockFpga { ready: false, last_command: None }
    }
}

impl FpgaInterface for MockFpga {
    closed spec fn ready(&self) -> bool {
        self.ready
    }

    fn initialize(&mut self, config: &FpgaConfig) -> (r: Result<(), AccelError>)
        ensures
            r is Ok,
            final(self).ready(),
            final(self).last_command() == old(self).last_command(),
    {
        let _ = config;
        self.ready = true;
        Ok(())
    }

    fn send_command(&mut self, cmd: Command) -> (r: Result<(), AccelError>)
        ensures
            old(self).ready() ==> r is Ok && final(self).last_command() == Some(cmd),
            !old(self).ready() ==> *final(self) == *old(self),
    {
        if !self.ready {
            return Err(AccelError::Hardware(HardwareError::Communication(
                "link not initialized".to_owned(),
            )));
        }
        self.last_command = Some(cmd);
        Ok(())
    }

    fn receive_response(&mut self) -> (r: Result<Response, AccelError>)
        ensures
            *final(self) == *old(self),
            old(self).ready() ==> (r matches Ok(resp) && resp == (Response::Status {
                unit_id: UnitId(0),
                status: OperationStatus::Success,
            })),
    {
        if !self.ready {
            return Err(AccelError::Hardware(HardwareError::Communication(
                "link not initialized".to_owned(),
            )));
        }
        Ok(Response::Status { unit_id: UnitId(0), status: OperationStatus::Success })
    }

    fn is_ready(&self) -> (r: bool) {
        self.ready
    }
}

} // verus!
