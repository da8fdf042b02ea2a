//! Function configuration as read from a function's `function.toml`.

use vstd::prelude::*;

verus! {

/// Default of the boolean options that are on unless set.
pub fn serde_true() -> (b: bool)
    ensures
        b,
{
    true
}

/// Default of the boolean options that are off unless set.
pub fn serde_false() -> (b: bool)
    ensures
        !b,
{
    false
}

/// How the root filesystem is handed to a QEMU machine.
#[derive(Clone, Copy, PartialEq, Eq, Structural, Debug)]
pub enum DiskType {
    /// Host directory shared over virtio-9p (`"9p"`).
    Virtio9p,
    /// Disk image as a virtio block device (`"block"`).
    VirtioBlock,
}

impl DiskType {
    /// Whether the disk is a 9p share.
    pub fn is_9p(&self) -> (b: bool)
        ensures
            b == (*self == DiskType::Virtio9p),
    {
        match self {
            DiskType::Virtio9p => true,
            DiskType::VirtioBlock => false,
        }
    }
}

/// Options of a QEMU microvm machine.
#[derive(Debug)]
pub struct MicrovmConfig {
    pub disk_type: DiskType,
    pub pic: bool,
    pub pit: bool,
    pub rtc: bool,
    pub auto_kernel_cmdline: bool,
    pub acpi: bool,
}

/// Options of a QEMU machine.
#[derive(Debug)]
pub struct QemuConfig {
    pub disk_type: DiskType,
}

/// Options of a Firecracker machine.
#[derive(Debug)]
pub struct FirecrackerConfig {
    /// Give each machine its own copy of the root filesystem image.
    pub copy_rootfs: bool,
}

/// The hypervisor that runs a virtual machine, with its options.
#[derive(Debug)]
pub enum VmmConfig {
    Microvm(MicrovmConfig),
    Qemu(QemuConfig),
    Firecracker(FirecrackerConfig),
}

/// Default memory size in MiB.
pub fn default_memory_size() -> (m: u32)
    ensures
        m == 128,
{
    128
}

/// Default number of virtual cpus.
pub fn default_num_cpus() -> (n: u32)
    ensures
        n == 1,
{
    1
}

/// A function that runs in a virtual machine.
#[derive(Debug)]
pub struct VmConfig {
    /// Kernel command line; `%ip`, `%gateway`, `%netmask` and `%callback`
    /// are filled in per instance.
    pub cmdline: String,
    /// Path of the kernel image.
    pub kernel: String,
    /// Path of the root filesystem image.
    pub image: String,
    /// Memory in MiB.
    pub memory: u32,
    pub cpus: u32,
    pub hypervisor: VmmConfig,
}

/// A function that runs in a Docker container.
#[derive(Debug)]
pub struct ContainerConfig {
    pub image: String,
    /// Memory in MiB.
    pub memory: u32,
    /// Container runtime; Docker's default when absent.
    pub runtime: Option<String>,
}

/// Where a function runs.
#[derive(Debug)]
pub enum RuntimeConfig {
    Vm(VmConfig),
    Container(ContainerConfig),
}

/// The configuration of one function.
#[derive(Debug)]
pub struct FunctionConfig {
    /// Seconds an idle instance is kept running.
    pub keepalive: u64,
    /// Requests one instance handles at the same time.
    pub concurrent_requests: usize,
    /// Stop an instance after its first request.
    pub single_use: bool,
    pub runtime: RuntimeConfig,
}

impl FunctionConfig {
    /// Accepts a parsed configuration unless it admits no request at all.
    pub fn from_parsed(conf: FunctionConfig) -> (r: Result<FunctionConfig, String>)
        ensures
            conf.concurrent_requests >= 1 ==> r == Ok::<FunctionConfig, String>(conf),
            conf.concurrent_requests < 1 ==> (r matches Err(e) && e@ == "concurrent-requests < 1"@),
    {
        if conf.concurrent_requests < 1 {
            return Err(String::from_str("concurrent-requests < 1"));
        }
        Ok(conf)
    }

    /// Whether an instance needs a network interface of its own: virtual
    /// machines do, containers use Docker's networking.
    pub fn needs_netif(&self) -> (b: bool)
        ensures
            b == (self.runtime is Vm),
    {
        if let RuntimeConfig::Vm(_) = self.runtime {
            return true;
        } else {
            return false;
        }
    }
}

} // verus!
