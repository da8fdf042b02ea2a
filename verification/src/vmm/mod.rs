//! Virtual machine monitors.

use vstd::prelude::*;

pub mod firecracker;
pub mod microvm;
pub mod qemu;
pub mod qemu_command;

verus! {

/// Why a virtual machine could not be started or stopped.
#[derive(Debug, Clone, Copy, PartialEq, Eq, Structural)]
pub enum MachineError {
    InvalidConfig,
    VmmExitedEarly,
    VmmSpawnFailed,
}

/// The name of an error, as its `Debug` form writes it.
pub open spec fn machine_error_name(e: MachineError) -> Seq<char> {
    match e {
        MachineError::InvalidConfig => "InvalidConfig"@,
        MachineError::VmmExitedEarly => "VmmExitedEarly"@,
        MachineError::VmmSpawnFailed => "VmmSpawnFailed"@,
    }
}

/// The message with which a request fails when its machine could not be
/// started: `error: ` and the error's name.
pub open spec fn start_failure_text(e: MachineError) -> Seq<char> {
    "error: "@ + machine_error_name(e)
}

impl MachineError {
    /// The message with which a request fails when its machine could not
    /// be started (see `start_failure_text`).
    pub fn start_failure(&self) -> (m: String)
        ensures
            m@ == start_failure_text(*self),
    {
        let mut m = String::from_str("error: ");
        match self {
            MachineError::InvalidConfig => m.append("InvalidConfig"),
            MachineError::VmmExitedEarly => m.append("VmmExitedEarly"),
            MachineError::VmmSpawnFailed => m.append("VmmSpawnFailed"),
        }
        m
    }
}

} // verus!
