//! What a function's Docker container is created with.

use vstd::prelude::*;

use crate::instance::{callback_text, callback_url};
use crate::registry::config::ContainerConfig;

verus! {

/// Address of the host on Docker's default bridge (172.17.0.1), where
/// containers reach the ready-callback server.
pub const DOCKER_HOST_ADDR: u32 = 0xAC11_0001;

/// The settings of the container of one instance.
#[derive(Debug)]
pub struct ContainerSpec {
    /// Container name: the instance id.
    pub name: String,
    pub image: String,
    /// Command: the ready-callback address, for the function to call.
    pub cmd: Vec<String>,
    /// Container runtime, if not Docker's default.
    pub runtime: Option<String>,
    /// Memory limit in bytes, for memory and memory plus swap alike.
    pub memory_bytes: i64,
    /// The cpus the container may run on.
    pub cpuset_cpus: String,
}

/// The settings of the container of instance `id` of a function.
pub fn container_spec(id: &str, container: &ContainerConfig) -> (s: ContainerSpec)
    ensures
        s.name@ == id@,
        s.image@ == container.image@,
        s.cmd@.len() == 1,
        s.cmd@[0]@ == callback_text(DOCKER_HOST_ADDR, id@),
        s.runtime == container.runtime,
        s.memory_bytes == container.memory * 1024 * 1024,
        s.cpuset_cpus@ == "1"@,
{
    let callback = callback_url(DOCKER_HOST_ADDR, id);
    let mut cmd = Vec::new();
    cmd.push(callback);
    let mem = (container.memory as i64) * 1024 * 1024;
    ContainerSpec {
        name: id.to_owned(),
        image: container.image.clone(),
        cmd,
        runtime: container.runtime.clone(),
        memory_bytes: mem,
        cpuset_cpus: String::from_str("1"),
    }
}

} // verus!
