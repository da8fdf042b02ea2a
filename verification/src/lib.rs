//! Verified core of a small FaaS dispatcher that runs functions in
//! Firecracker/QEMU virtual machines or Docker containers.

pub mod text;
pub mod ipv4;
pub mod network;
pub mod tap;
pub mod dispatcher;
pub mod registry;
pub mod instance;
pub mod vmm;
pub mod callback;
pub mod command;
pub mod docker;
pub mod proxy;
