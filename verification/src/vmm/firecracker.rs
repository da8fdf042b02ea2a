//! Configuration of a Firecracker machine.

use vstd::prelude::*;

use crate::registry::{join_path, path_join};

verus! {

/// What a Firecracker machine is started with.
#[derive(Debug)]
pub struct Config {
    /// Number of cpus allocated to the vm.
    pub vcpus: u32,
    /// Amount of ram in MiB allocated to the vm.
    pub memory: u32,
    /// Path to kernel image for direct kernel boot.
    pub kernel: String,
    /// Path to rootfs disk image.
    pub disk: String,
    /// Create copy of rootfs for this machine.
    pub copy_rootfs: bool,
    /// Commandline passed to kernel.
    pub cmdline: String,
    /// Name of the tap interface assigned to this machine.
    pub tap: String,
}

/// Id of the machine's root drive.
pub const ROOT_DRIVE_ID: &'static str = "rootfs";

/// Id of the machine's network interface.
pub const IFACE_ID: &'static str = "eth0";

/// MAC address of the machine's network interface.
pub const GUEST_MAC: &'static str = "AA:FC:00:00:00:01";

/// The `machine-config` section of Firecracker's configuration file.
#[derive(Debug)]
pub struct MachineSection {
    pub vcpu_count: u32,
    pub mem_size_mib: u32,
}

/// The `boot-source` section of Firecracker's configuration file.
#[derive(Debug)]
pub struct BootSource {
    pub kernel_image_path: String,
    pub boot_args: String,
}

/// An entry of the `drives` section of Firecracker's configuration file.
#[derive(Debug)]
pub struct Drive {
    pub drive_id: String,
    pub path_on_host: String,
    pub is_root_device: bool,
    pub is_read_only: bool,
}

/// An entry of the `network-interfaces` section of Firecracker's
/// configuration file.
#[derive(Debug)]
pub struct NetworkInterface {
    pub iface_id: String,
    pub guest_mac: String,
    pub host_dev_name: String,
}

/// What Firecracker's configuration file for a machine holds.
#[derive(Debug)]
pub struct ConfigFile {
    pub machine_config: MachineSection,
    pub boot_source: BootSource,
    pub drives: Vec<Drive>,
    pub network_interfaces: Vec<NetworkInterface>,
}

/// Name of a machine's own copy of its root disk, in its instance
/// directory.
pub const ROOTFS_COPY_NAME: &'static str = "rootfs.img";

impl Config {
    /// The root disk that the machine runs on, and whether it is a copy to
    /// make first: with `copy_rootfs`, `rootfs.img` in the instance
    /// directory, a copy of the configured disk; otherwise the configured
    /// disk itself.
    pub fn root_disk(&self, instance_dir: &str) -> (r: (String, bool))
        ensures
            r.1 == self.copy_rootfs,
            r.0@ == if self.copy_rootfs {
                path_join(instance_dir@, ROOTFS_COPY_NAME@)
            } else {
                self.disk@
            },
    {
        if self.copy_rootfs {
            (join_path(instance_dir, ROOTFS_COPY_NAME), true)
        } else {
            (self.disk.clone(), false)
        }
    }

    /// The configuration file of the machine, with its root disk at
    /// `disk_path` (the disk's canonical path): the machine's cpus and
    /// memory, its kernel and command line, one writable root drive
    /// `rootfs` and one network interface `eth0` on the machine's TAP
    /// interface.
    pub fn config_file(&self, disk_path: &str) -> (f: ConfigFile)
        ensures
            f.machine_config.vcpu_count == self.vcpus,
            f.machine_config.mem_size_mib == self.memory,
            f.boot_source.kernel_image_path@ == self.kernel@,
            f.boot_source.boot_args@ == self.cmdline@,
            f.drives@.len() == 1,
            f.drives@[0].drive_id@ == ROOT_DRIVE_ID@,
            f.drives@[0].path_on_host@ == disk_path@,
            f.drives@[0].is_root_device,
            !f.drives@[0].is_read_only,
            f.network_interfaces@.len() == 1,
            f.network_interfaces@[0].iface_id@ == IFACE_ID@,
            f.network_interfaces@[0].guest_mac@ == GUEST_MAC@,
            f.network_interfaces@[0].host_dev_name@ == self.tap@,
    {
        let drive = Drive {
            drive_id: ROOT_DRIVE_ID.to_owned(),
            path_on_host: disk_path.to_owned(),
            is_root_device: true,
            is_read_only: false,
        };
        let netif = NetworkInterface {
            iface_id: IFACE_ID.to_owned(),
            guest_mac: GUEST_MAC.to_owned(),
            host_dev_name: self.tap.clone(),
        };
        let mut drives = Vec::new();
        drives.push(drive);
        let mut network_interfaces = Vec::new();
        network_interfaces.push(netif);
        ConfigFile {
            machine_config: MachineSection { vcpu_count: self.vcpus, mem_size_mib: self.memory },
            boot_source: BootSource {
                kernel_image_path: self.kernel.clone(),
                boot_args: self.cmdline.clone(),
            },
            drives,
            network_interfaces,
        }
    }
}

} // verus!
