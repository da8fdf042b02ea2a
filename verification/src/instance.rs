//! Per-instance values: the kernel command line of a virtual machine and
//! the address at which an instance reports that it is ready.

use vstd::prelude::*;

use crate::ipv4::{ipv4_text, ipv4_to_string};
use crate::ipv4::netmask_of;
use crate::text::decimal;
use crate::network::{NetLease, lease_guest_addr, lease_host_addr};
use crate::registry::config::{DiskType, VmConfig, VmmConfig};
use crate::vmm::{MachineError, firecracker, microvm, qemu};
use crate::text::{
    chars_of, lemma_replace_absent, occurs_nowhere, replace_all, replace_chars, string_from_chars,
};

verus! {

/// Port of the ready-callback server.
pub const CALLBACK_PORT: u16 = 3000;

/// The address that instance `id` calls once it is ready, on the host side
/// `gw` of its link.
pub open spec fn callback_text(gw: u32, id: Seq<char>) -> Seq<char> {
    "http://"@ + ipv4_text(gw) + ":3000/ready/"@ + id
}

/// A kernel command line with its placeholders filled in, in this order:
/// `%ip` by the guest address, `%gateway` by the host address, `%netmask`
/// by the netmask and `%callback` by the ready-callback address.
pub open spec fn cmdline_text(cmdline: Seq<char>, id: Seq<char>, ip: u32, gw: u32, mask: u32) -> Seq<
    char,
> {
    replace_all(
        replace_all(
            replace_all(replace_all(cmdline, "%ip"@, ipv4_text(ip)), "%gateway"@, ipv4_text(gw)),
            "%netmask"@,
            ipv4_text(mask),
        ),
        "%callback"@,
        callback_text(gw, id),
    )
}

/// The ready-callback address of instance `id`.
pub fn callback_url(gw: u32, id: &str) -> (u: String)
    ensures
        u@ == callback_text(gw, id@),
{
    let mut u = String::from_str("http://");
    let g = ipv4_to_string(gw);
    u.append(g.as_str());
    u.append(":3000/ready/");
    u.append(id);
    u
}

/// Fills in the placeholders of a kernel command line (see `cmdline_text`).
pub fn format_cmdline(cmdline: &str, id: &str, ip: u32, gw: u32, mask: u32) -> (s: String)
    ensures
        s@ == cmdline_text(cmdline@, id@, ip, gw, mask),
{
    proof {
        reveal_strlit("%ip");
        reveal_strlit("%gateway");
        reveal_strlit("%netmask");
        reveal_strlit("%callback");
    }
    let callback = callback_url(gw, id);
    let c = chars_of(cmdline);
    let ip_s = ipv4_to_string(ip);
    let gw_s = ipv4_to_string(gw);
    let mask_s = ipv4_to_string(mask);
    let c = replace_chars(&c, &chars_of("%ip"), &chars_of(ip_s.as_str()));
    let c = replace_chars(&c, &chars_of("%gateway"), &chars_of(gw_s.as_str()));
    let c = replace_chars(&c, &chars_of("%netmask"), &chars_of(mask_s.as_str()));
    let c = replace_chars(&c, &chars_of("%callback"), &chars_of(callback.as_str()));
    string_from_chars(&c)
}

/// Whether the network lease of a stopped virtual machine can go back to
/// the pool: yes when the monitor was killed, or had already exited; no
/// when stopping failed otherwise, as the machine may still use it.
pub fn lease_reusable_after_kill(r: &Result<(), MachineError>) -> (b: bool)
    ensures
        b == (r is Ok || *r == Err::<(), MachineError>(MachineError::VmmExitedEarly)),
{
    match r {
        Ok(_) => true,
        Err(MachineError::VmmExitedEarly) => true,
        Err(_) => false,
    }
}

/// The machine that runs an instance, with what it is started with.
#[derive(Debug)]
pub enum MachineConfig {
    Microvm(microvm::Config),
    Qemu(qemu::Config),
    Firecracker(firecracker::Config),
}

/// The kernel command line of instance `id` on a lease: guest end as its
/// address, host end as gateway.
pub open spec fn lease_cmdline(vm: VmConfig, id: Seq<char>, lease: NetLease) -> Seq<char> {
    cmdline_text(
        vm.cmdline@,
        id,
        lease_guest_addr(lease.subnet_view()) as u32,
        lease_host_addr(lease.subnet_view()) as u32,
        netmask_of(lease.subnet_view().prefix_len as nat) as u32,
    )
}

/// What the machine of instance `id` of a virtual-machine function is
/// started with, on the hypervisor the function asks for: its cpus,
/// memory, kernel and image, the filled-in command line and the lease's
/// interface.
pub fn machine_config(vm: &VmConfig, id: &str, lease: &NetLease) -> (m: MachineConfig)
    ensures
        match (vm.hypervisor, m) {
            (VmmConfig::Microvm(h), MachineConfig::Microvm(c)) => {
                &&& c.vcpus == vm.cpus
                &&& c.memory == vm.memory
                &&& c.kernel@ == vm.kernel@
                &&& c.disk@ == vm.image@
                &&& c.disk_is_9p == (h.disk_type == DiskType::Virtio9p)
                &&& c.cmdline@ == lease_cmdline(*vm, id@, *lease)
                &&& c.tap@ == lease.netif_view().name_view()
                &&& c.pic_enable == h.pic
                &&& c.pit_enable == h.pit
                &&& c.rtc_enable == h.rtc
                &&& c.auto_kernel_cmdline == h.auto_kernel_cmdline
                &&& c.acpi_enable == h.acpi
            },
            (VmmConfig::Qemu(h), MachineConfig::Qemu(c)) => {
                &&& c.vcpus == vm.cpus
                &&& c.memory == vm.memory
                &&& c.kernel@ == vm.kernel@
                &&& c.disk@ == vm.image@
                &&& c.disk_is_9p == (h.disk_type == DiskType::Virtio9p)
                &&& c.cmdline@ == lease_cmdline(*vm, id@, *lease)
                &&& c.tap@ == lease.netif_view().name_view()
            },
            (VmmConfig::Firecracker(h), MachineConfig::Firecracker(c)) => {
                &&& c.vcpus == vm.cpus
                &&& c.memory == vm.memory
                &&& c.kernel@ == vm.kernel@
                &&& c.disk@ == vm.image@
                &&& c.copy_rootfs == h.copy_rootfs
                &&& c.cmdline@ == lease_cmdline(*vm, id@, *lease)
                &&& c.tap@ == lease.netif_view().name_view()
            },
            _ => false,
        },
{
    let cmdline = format_cmdline(
        vm.cmdline.as_str(),
        id,
        lease.guest_addr(),
        lease.host_addr(),
        lease.netmask(),
    );
    let tap = lease.ifname().to_owned();
    match &vm.hypervisor {
        VmmConfig::Microvm(config) => MachineConfig::Microvm(
            microvm::Config {
                vcpus: vm.cpus,
                memory: vm.memory,
                kernel: vm.kernel.clone(),
                disk: vm.image.clone(),
                disk_is_9p: config.disk_type.is_9p(),
                cmdline,
                tap,
                pic_enable: config.pic,
                pit_enable: config.pit,
                rtc_enable: config.rtc,
                auto_kernel_cmdline: config.auto_kernel_cmdline,
                acpi_enable: config.acpi,
            },
        ),
        VmmConfig::Qemu(config) => MachineConfig::Qemu(
            qemu::Config {
                vcpus: vm.cpus,
                memory: vm.memory,
                kernel: vm.kernel.clone(),
                disk: vm.image.clone(),
                disk_is_9p: config.disk_type.is_9p(),
                cmdline,
                tap,
            },
        ),
        VmmConfig::Firecracker(config) => MachineConfig::Firecracker(
            firecracker::Config {
                vcpus: vm.cpus,
                memory: vm.memory,
                kernel: vm.kernel.clone(),
                disk: vm.image.clone(),
                copy_rootfs: config.copy_rootfs,
                cmdline,
                tap,
            },
        ),
    }
}

/// A command line without placeholders is handed to the kernel unchanged.
pub proof fn lemma_cmdline_without_placeholders(
    cmdline: Seq<char>,
    id: Seq<char>,
    ip: u32,
    gw: u32,
    mask: u32,
)
    requires
        occurs_nowhere(cmdline, "%ip"@),
        occurs_nowhere(cmdline, "%gateway"@),
        occurs_nowhere(cmdline, "%netmask"@),
        occurs_nowhere(cmdline, "%callback"@),
    ensures
        cmdline_text(cmdline, id, ip, gw, mask) == cmdline,
{
    reveal_strlit("%ip");
    reveal_strlit("%gateway");
    reveal_strlit("%netmask");
    reveal_strlit("%callback");
    lemma_replace_absent(cmdline, "%ip"@, ipv4_text(ip));
    lemma_replace_absent(cmdline, "%gateway"@, ipv4_text(gw));
    lemma_replace_absent(cmdline, "%netmask"@, ipv4_text(mask));
    lemma_replace_absent(cmdline, "%callback"@, callback_text(gw, id));
}

/// Directory of an instance's files, below the system's temporary
/// directory.
pub open spec fn instance_dir_text(id: Seq<char>) -> Seq<char> {
    "faas/"@ + id
}

/// Directory of an instance's files, below the system's temporary
/// directory (see `instance_dir_text`).
pub fn instance_dir_name(id: &str) -> (d: String)
    ensures
        d@ == instance_dir_text(id@),
{
    let mut d = String::from_str("faas/");
    d.append(id);
    d
}

/// The ready-callback address of an instance is one address per gateway
/// followed by the complete instance id: it ends with the id, and distinct
/// ids give distinct addresses.
pub proof fn lemma_callback_carries_id(gw: u32, id: Seq<char>, id2: Seq<char>)
    ensures
        callback_text(gw, id) == callback_text(gw, Seq::empty()) + id,
        callback_text(gw, id).len() == callback_text(gw, Seq::empty()).len() + id.len(),
        callback_text(gw, id).subrange(
            callback_text(gw, id).len() - id.len(),
            callback_text(gw, id).len() as int,
        ) == id,
        callback_text(gw, id) == callback_text(gw, id2) ==> id == id2,
        callback_text(gw, Seq::empty()) == "http://"@ + ipv4_text(gw) + seq![':'] + decimal(
            CALLBACK_PORT as nat,
        ) + "/ready/"@,
{
    reveal_strlit(":3000/ready/");
    reveal_strlit("/ready/");
    reveal_with_fuel(decimal, 5);
    assert(decimal(3000) =~= seq!['3', '0', '0', '0']) by {
        assert(decimal(3) =~= seq!['3']);
        assert(decimal(30) =~= seq!['3', '0']);
        assert(decimal(300) =~= seq!['3', '0', '0']);
    }
    assert(callback_text(gw, Seq::empty()) =~= "http://"@ + ipv4_text(gw) + seq![':'] + decimal(
        CALLBACK_PORT as nat,
    ) + "/ready/"@);
    let base = callback_text(gw, Seq::empty());
    assert(callback_text(gw, id) =~= base + id);
    assert(callback_text(gw, id2) =~= base + id2);
    assert(id =~= (base + id).subrange(base.len() as int, (base + id).len() as int));
    assert(id2 =~= (base + id2).subrange(base.len() as int, (base + id2).len() as int));
}

} // verus!
