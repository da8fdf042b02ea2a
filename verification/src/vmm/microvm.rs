//! Configuration of a QEMU microvm machine.

use vstd::prelude::*;

use super::qemu_command::{
    QemuCommand, dev_id, lemma_append_plain, lemma_decimal_text, lemma_no_eq_sign_no_id_key,
    lemma_no_key_concat, no_eq_sign, no_id_key, starts_without_eq_sign, virtio_device,
};
use crate::ipv4::{digits_value, lemma_decimal_value};
use crate::text::decimal;

verus! {

/// What a QEMU microvm machine is started with.
#[derive(Debug)]
pub struct Config {
    /// Number of cpus allocated to the vm.
    pub vcpus: u32,
    /// Amount of ram in MiB allocated to the vm.
    pub memory: u32,
    /// Path to kernel image for direct kernel boot.
    pub kernel: String,
    /// Path to rootfs disk image (a directory when shared over 9p).
    pub disk: String,
    /// Whether the disk is shared over virtio 9p.
    pub disk_is_9p: bool,
    /// Commandline passed to kernel.
    pub cmdline: String,
    /// Name of the tap interface assigned to this machine.
    pub tap: String,
    pub pic_enable: bool,
    pub pit_enable: bool,
    pub rtc_enable: bool,
    pub auto_kernel_cmdline: bool,
    pub acpi_enable: bool,
}

/// QEMU's name of a switch's state.
pub open spec fn on_off_text(b: bool) -> Seq<char> {
    if b {
        "on"@
    } else {
        "off"@
    }
}

/// The `-M` value of a microvm: the machine type with its legacy devices,
/// kernel command line extension and ACPI switched on or off.
pub open spec fn machine_text(c: Config) -> Seq<char> {
    "microvm,pic="@ + on_off_text(c.pic_enable) + ",pit="@ + on_off_text(c.pit_enable) + ",rtc="@
        + on_off_text(c.rtc_enable) + ",auto-kernel-cmdline="@ + on_off_text(c.auto_kernel_cmdline)
        + ",acpi="@ + on_off_text(c.acpi_enable)
}

/// The arguments QEMU is started with for a microvm: KVM, the machine
/// type, serial console on stdio, no display or defaults, no reboot, then
/// cpus, memory, kernel, command line, the network device `dev0` and the
/// disk `dev1`, all of them bus-less virtio devices.
pub open spec fn microvm_args(c: Config) -> Seq<Seq<char>> {
    seq![
        "-enable-kvm"@,
        "-M"@,
        machine_text(c),
        "-serial"@,
        "stdio"@,
        "-display"@,
        "none"@,
        "-no-user-config"@,
        "-nographic"@,
        "-nodefaults"@,
        "-no-reboot"@,
        "-smp"@,
        decimal(c.vcpus as nat),
        "-m"@,
        decimal(c.memory as nat),
        "-kernel"@,
        c.kernel@,
        "-append"@,
        c.cmdline@,
        "-netdev"@,
        "tap,id="@ + dev_id(0) + ",ifname="@ + c.tap@ + ",script=no,downscript=no"@,
        "-device"@,
        virtio_device(true, "net"@) + ",netdev="@ + dev_id(0),
    ] + if c.disk_is_9p {
        seq![
            "-fsdev"@,
            "local,security_model=passthrough,id="@ + dev_id(1) + ",path="@ + c.disk@,
            "-device"@,
            virtio_device(true, "9p"@) + ",fsdev="@ + dev_id(1) + ",mount_tag="@ + "fs0"@,
        ]
    } else {
        seq![
            "-drive"@,
            "if=none,id="@ + dev_id(1) + ",format=raw,file="@ + c.disk@,
            "-device"@,
            virtio_device(true, "blk"@) + ",drive="@ + dev_id(1),
        ]
    }
}

proof fn lemma_switch_no_key(p: Seq<char>, b: bool)
    requires
        no_id_key(p),
        p.len() >= 2,
        starts_without_eq_sign(p),
    ensures
        no_id_key(p + on_off_text(b)),
        starts_without_eq_sign(p + on_off_text(b)),
{
    reveal_strlit("on");
    reveal_strlit("off");
    assert(no_eq_sign(on_off_text(b)));
    lemma_append_plain(p, on_off_text(b));
}

proof fn lemma_param_l0()
    ensures
        no_id_key("microvm,pic="@),
        "microvm,pic="@.len() >= 2,
        starts_without_eq_sign("microvm,pic="@),
{
    reveal_strlit("microvm,pic=");
}

proof fn lemma_param_l1()
    ensures
        no_id_key(",pit="@),
        ",pit="@.len() >= 2,
        starts_without_eq_sign(",pit="@),
{
    reveal_strlit(",pit=");
}

proof fn lemma_param_l2()
    ensures
        no_id_key(",rtc="@),
        ",rtc="@.len() >= 2,
        starts_without_eq_sign(",rtc="@),
{
    reveal_strlit(",rtc=");
}

proof fn lemma_param_l3()
    ensures
        no_id_key(",auto-kernel-cmdline="@),
        ",auto-kernel-cmdline="@.len() >= 2,
        starts_without_eq_sign(",auto-kernel-cmdline="@),
{
    reveal_strlit(",auto-kernel-cmdline=");
}

proof fn lemma_param_l4()
    ensures
        no_id_key(",acpi="@),
        ",acpi="@.len() >= 2,
        starts_without_eq_sign(",acpi="@),
{
    reveal_strlit(",acpi=");
}

proof fn lemma_machine_text_no_key(c: Config)
    ensures
        no_id_key(machine_text(c)),
{
    let l0 = "microvm,pic="@;
    lemma_param_l0();
    let l1 = ",pit="@;
    lemma_param_l1();
    let l2 = ",rtc="@;
    lemma_param_l2();
    let l3 = ",auto-kernel-cmdline="@;
    lemma_param_l3();
    let l4 = ",acpi="@;
    lemma_param_l4();
    lemma_switch_no_key(l0, c.pic_enable);
    lemma_switch_no_key(l1, c.pit_enable);
    lemma_switch_no_key(l2, c.rtc_enable);
    lemma_switch_no_key(l3, c.auto_kernel_cmdline);
    lemma_switch_no_key(l4, c.acpi_enable);
    let p0 = l0 + on_off_text(c.pic_enable);
    let p1 = l1 + on_off_text(c.pit_enable);
    let p2 = l2 + on_off_text(c.rtc_enable);
    let p3 = l3 + on_off_text(c.auto_kernel_cmdline);
    let p4 = l4 + on_off_text(c.acpi_enable);
    lemma_no_key_concat(p0, p1);
    lemma_no_key_concat(p0 + p1, p2);
    lemma_no_key_concat(p0 + p1 + p2, p3);
    lemma_no_key_concat(p0 + p1 + p2 + p3, p4);
    lemma_machine_text_shape(c);
}

proof fn lemma_machine_text_shape(c: Config)
    ensures
        machine_text(c) == ("microvm,pic="@ + on_off_text(c.pic_enable)) + (",pit="@ + on_off_text(
            c.pit_enable,
        )) + (",rtc="@ + on_off_text(c.rtc_enable)) + (",auto-kernel-cmdline="@ + on_off_text(
            c.auto_kernel_cmdline,
        )) + (",acpi="@ + on_off_text(c.acpi_enable)),
{
    assert(machine_text(c) =~= ("microvm,pic="@ + on_off_text(c.pic_enable)) + (",pit="@
        + on_off_text(c.pit_enable)) + (",rtc="@ + on_off_text(c.rtc_enable)) + (
    ",auto-kernel-cmdline="@ + on_off_text(c.auto_kernel_cmdline)) + (",acpi="@ + on_off_text(
        c.acpi_enable,
    )));
}

fn push_on_off(s: &mut String, b: bool)
    ensures
        final(s)@ == old(s)@ + on_off_text(b),
{
    if b {
        s.append("on");
    } else {
        s.append("off");
    }
}

/// The `-M` value of a microvm (see `machine_text`).
pub fn machine_option(c: &Config) -> (m: String)
    ensures
        m@ == machine_text(*c),
{
    let mut m = String::from_str("microvm,pic=");
    push_on_off(&mut m, c.pic_enable);
    m.append(",pit=");
    push_on_off(&mut m, c.pit_enable);
    m.append(",rtc=");
    push_on_off(&mut m, c.rtc_enable);
    m.append(",auto-kernel-cmdline=");
    push_on_off(&mut m, c.auto_kernel_cmdline);
    m.append(",acpi=");
    push_on_off(&mut m, c.acpi_enable);
    m
}

/// The QEMU command line of a microvm (see `microvm_args`).
pub fn command_from_config(config: &Config) -> (q: QemuCommand)
    ensures
        q.wf(),
        q.next_id() == 2,
        no_id_key(config.kernel@) && no_id_key(config.cmdline@) && no_eq_sign(config.tap@) && no_eq_sign(
            config.disk@,
        ) ==> q.ids_unique(),
        q.microvm(),
        q.args_view() == microvm_args(*config),
{
    let machine = machine_option(config);
    let smp = crate::text::u32_to_decimal(config.vcpus);
    proof {
        reveal_strlit("-serial");
        lemma_no_eq_sign_no_id_key("-serial"@);
        reveal_strlit("stdio");
        lemma_no_eq_sign_no_id_key("stdio"@);
        reveal_strlit("-display");
        lemma_no_eq_sign_no_id_key("-display"@);
        reveal_strlit("none");
        lemma_no_eq_sign_no_id_key("none"@);
        reveal_strlit("-no-user-config");
        lemma_no_eq_sign_no_id_key("-no-user-config"@);
        reveal_strlit("-nographic");
        lemma_no_eq_sign_no_id_key("-nographic"@);
        reveal_strlit("-nodefaults");
        lemma_no_eq_sign_no_id_key("-nodefaults"@);
        reveal_strlit("-no-reboot");
        lemma_no_eq_sign_no_id_key("-no-reboot"@);
        reveal_strlit("-smp");
        lemma_no_eq_sign_no_id_key("-smp"@);
        reveal_strlit("-M");
        lemma_no_eq_sign_no_id_key("-M"@);
        reveal_strlit("fs0");
        lemma_decimal_text(config.vcpus as nat);
        lemma_machine_text_no_key(*config);
    }
    let q = QemuCommand::new(true).with_kvm().with_option_val("-M", machine.as_str());
    let q = q.with_option_val("-serial", "stdio").with_option_val("-display", "none");
    let q = q.with_option("-no-user-config").with_option("-nographic").with_option("-nodefaults");
    let q = q.with_option("-no-reboot").with_option_val("-smp", smp.as_str());
    let q = q.with_mem(config.memory).with_kernel(config.kernel.as_str());
    let q = q.with_cmdline(config.cmdline.as_str()).with_virtio_net(config.tap.as_str());
    let q = if config.disk_is_9p {
        q.with_virtio_9p(config.disk.as_str(), "fs0")
    } else {
        q.with_virtio_blk(config.disk.as_str())
    };
    assert(q.args_view() =~= microvm_args(*config));
    q
}

/// The machine gets the configured resources, whatever they are: the
/// value after `-smp` reads back as the configured number of cpus, the one
/// after `-m` as the configured memory in MiB, and the kernel and its
/// command line are passed as they are.
pub proof fn lemma_microvm_resources(c: Config)
    ensures
        microvm_args(c)[11] == "-smp"@,
        digits_value(microvm_args(c)[12]) == c.vcpus,
        microvm_args(c)[13] == "-m"@,
        digits_value(microvm_args(c)[14]) == c.memory,
        microvm_args(c)[15] == "-kernel"@,
        microvm_args(c)[16] == c.kernel@,
        microvm_args(c)[17] == "-append"@,
        microvm_args(c)[18] == c.cmdline@,
{
    lemma_decimal_value(c.vcpus as nat);
    lemma_decimal_value(c.memory as nat);
}

} // verus!
