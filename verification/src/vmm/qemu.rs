//! Configuration of a QEMU machine and its command line.

use vstd::prelude::*;

use super::qemu_command::{
    QemuCommand, dev_id, lemma_decimal_text, lemma_no_eq_sign_no_id_key, no_eq_sign, no_id_key,
    virtio_device,
};
use crate::ipv4::{digits_value, lemma_decimal_value};
use crate::text::decimal;

verus! {

/// What a QEMU machine is started with.
#[derive(Debug)]
pub struct Config {
    /// Number of cpus allocated to the vm.
    pub vcpus: u32,
    /// Amount of ram in MiB allocated to the vm.
    pub memory: u32,
    /// Path to kernel image for direct kernel boot.
    pub kernel: String,
    /// Path to rootfs disk image (a directory when shared over 9p).
    pub disk: String,
    /// Whether the disk is passed as virtio 9p host share or as a virtio
    /// block device.
    pub disk_is_9p: bool,
    /// Commandline passed to kernel.
    pub cmdline: String,
    /// Name of the tap interface assigned to this machine.
    pub tap: String,
}

/// The arguments QEMU is started with for a machine: KVM, serial console
/// on stdio, no display or defaults, no reboot, then cpus, memory, kernel,
/// command line, the network device `dev0` and the disk `dev1`.
pub open spec fn qemu_args(c: Config) -> Seq<Seq<char>> {
    seq![
        "-enable-kvm"@,
        "-serial"@,
        "stdio"@,
        "-display"@,
        "none"@,
        "-no-user-config"@,
        "-nographic"@,
        "-nodefaults"@,
        "-no-reboot"@,
        "-smp"@,
        decimal(c.vcpus as nat),
        "-m"@,
        decimal(c.memory as nat),
        "-kernel"@,
        c.kernel@,
        "-append"@,
        c.cmdline@,
        "-netdev"@,
        "tap,id="@ + dev_id(0) + ",ifname="@ + c.tap@ + ",script=no,downscript=no"@,
        "-device"@,
        virtio_device(false, "net"@) + ",netdev="@ + dev_id(0),
    ] + if c.disk_is_9p {
        seq![
            "-fsdev"@,
            "local,security_model=passthrough,id="@ + dev_id(1) + ",path="@ + c.disk@,
            "-device"@,
            virtio_device(false, "9p"@) + ",fsdev="@ + dev_id(1) + ",mount_tag="@ + "fs0"@,
        ]
    } else {
        seq![
            "-drive"@,
            "if=none,id="@ + dev_id(1) + ",format=raw,file="@ + c.disk@,
            "-device"@,
            virtio_device(false, "blk"@) + ",drive="@ + dev_id(1),
        ]
    }
}

/// The QEMU command line of a machine (see `qemu_args`).
pub fn command_from_config(config: &Config) -> (q: QemuCommand)
    ensures
        q.wf(),
        q.next_id() == 2,
        no_id_key(config.kernel@) && no_id_key(config.cmdline@) && no_eq_sign(config.tap@) && no_eq_sign(
            config.disk@,
        ) ==> q.ids_unique(),
        !q.microvm(),
        q.args_view() == qemu_args(*config),
{
    let smp = crate::text::u32_to_decimal(config.vcpus);
    proof {
        reveal_strlit("-serial");
        lemma_no_eq_sign_no_id_key("-serial"@);
        reveal_strlit("stdio");
        lemma_no_eq_sign_no_id_key("stdio"@);
        reveal_strlit("-display");
        lemma_no_eq_sign_no_id_key("-display"@);
        reveal_strlit("none");
        lemma_no_eq_sign_no_id_key("none"@);
        reveal_strlit("-no-user-config");
        lemma_no_eq_sign_no_id_key("-no-user-config"@);
        reveal_strlit("-nographic");
        lemma_no_eq_sign_no_id_key("-nographic"@);
        reveal_strlit("-nodefaults");
        lemma_no_eq_sign_no_id_key("-nodefaults"@);
        reveal_strlit("-no-reboot");
        lemma_no_eq_sign_no_id_key("-no-reboot"@);
        reveal_strlit("-smp");
        lemma_no_eq_sign_no_id_key("-smp"@);
        reveal_strlit("fs0");
        lemma_decimal_text(config.vcpus as nat);
    }
    let q = QemuCommand::new(false).with_kvm().with_option_val("-serial", "stdio").with_option_val(
        "-display",
        "none",
    ).with_option("-no-user-config").with_option("-nographic").with_option(
        "-nodefaults",
    ).with_option("-no-reboot").with_option_val("-smp", smp.as_str()).with_mem(
        config.memory,
    ).with_kernel(config.kernel.as_str()).with_cmdline(config.cmdline.as_str()).with_virtio_net(
        config.tap.as_str(),
    );
    let q = if config.disk_is_9p {
        q.with_virtio_9p(config.disk.as_str(), "fs0")
    } else {
        q.with_virtio_blk(config.disk.as_str())
    };
    assert(q.args_view() =~= qemu_args(*config));
    q
}

/// The machine gets the configured resources, whatever they are: the
/// value after `-smp` reads back as the configured number of cpus, the one
/// after `-m` as the configured memory in MiB, and the kernel and its
/// command line are passed as they are.
pub proof fn lemma_qemu_resources(c: Config)
    ensures
        qemu_args(c)[9] == "-smp"@,
        digits_value(qemu_args(c)[10]) == c.vcpus,
        qemu_args(c)[11] == "-m"@,
        digits_value(qemu_args(c)[12]) == c.memory,
        qemu_args(c)[13] == "-kernel"@,
        qemu_args(c)[14] == c.kernel@,
        qemu_args(c)[15] == "-append"@,
        qemu_args(c)[16] == c.cmdline@,
{
    lemma_decimal_value(c.vcpus as nat);
    lemma_decimal_value(c.memory as nat);
}

} // verus!
