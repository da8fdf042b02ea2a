use unifaas::dispatcher::{
    dispatch_step, LoopAction, LoopEvent, LoopStage, DRAIN_INTERVAL_MS, RECEIVE_TIMEOUT_MS,
};
use unifaas::proxy::{proxy_response, ProxyOutcome, QUEUE_TIMEOUT_MS};
use unifaas::instance::instance_dir_name;
use unifaas::vmm::firecracker;
use unifaas::vmm::MachineError;
use unifaas::vmm::microvm;

#[test]
fn loop_serves_requests_and_reaps() {
    assert_eq!(
        dispatch_step(LoopStage::Serving, LoopEvent::Request),
        (LoopStage::Serving, LoopAction::Dispatch)
    );
    assert_eq!(
        dispatch_step(LoopStage::Serving, LoopEvent::Dispatched),
        (LoopStage::Serving, LoopAction::ReapExpired)
    );
    assert_eq!(
        dispatch_step(LoopStage::Serving, LoopEvent::Timeout),
        (LoopStage::Serving, LoopAction::ReapExpired)
    );
    assert_eq!(RECEIVE_TIMEOUT_MS, 1000);
    assert_eq!(DRAIN_INTERVAL_MS, 20);
}

#[test]
fn loop_shutdown_sequence() {
    let events = [
        LoopEvent::Request,
        LoopEvent::Dispatched,
        LoopEvent::Closed,
        LoopEvent::TableEmpty(false),
        LoopEvent::TableEmpty(false),
        LoopEvent::TableEmpty(true),
        LoopEvent::ReaperDone,
        LoopEvent::NetworkGone,
    ];
    let expected = [
        LoopAction::Dispatch,
        LoopAction::ReapExpired,
        LoopAction::CheckTable,
        LoopAction::ReapAll,
        LoopAction::ReapAll,
        LoopAction::AwaitReaper,
        LoopAction::DestroyNetwork,
        LoopAction::Stop,
    ];
    let mut stage = LoopStage::Serving;
    for (e, a) in events.iter().zip(expected.iter()) {
        let (next, action) = dispatch_step(stage, *e);
        assert_eq!(action, *a);
        stage = next;
    }
    assert_eq!(stage, LoopStage::Stopped);
}

#[test]
fn loop_ignores_out_of_place_events() {
    assert_eq!(
        dispatch_step(LoopStage::Draining, LoopEvent::Request),
        (LoopStage::Draining, LoopAction::Ignore)
    );
    assert_eq!(
        dispatch_step(LoopStage::Serving, LoopEvent::ReaperDone),
        (LoopStage::Serving, LoopAction::Ignore)
    );
    assert_eq!(
        dispatch_step(LoopStage::AwaitingReaper, LoopEvent::NetworkGone),
        (LoopStage::AwaitingReaper, LoopAction::Ignore)
    );
    assert_eq!(
        dispatch_step(LoopStage::Stopped, LoopEvent::Closed),
        (LoopStage::Stopped, LoopAction::Ignore)
    );
}

#[test]
fn proxy_outcomes() {
    assert_eq!(
        proxy_response(&ProxyOutcome::QueueTimeout),
        Some((504, "error: too many requests".to_string()))
    );
    assert_eq!(
        proxy_response(&ProxyOutcome::Failed("Instance did not start".to_string())),
        Some((500, "error: Instance did not start".to_string()))
    );
    assert_eq!(proxy_response(&ProxyOutcome::Answered), None);
    assert_eq!(QUEUE_TIMEOUT_MS, 5000);
}

fn microvm_cfg(disk_is_9p: bool, switches: bool) -> microvm::Config {
    microvm::Config {
        vcpus: 1,
        memory: 128,
        kernel: "/k/vmlinux".into(),
        disk: "/d/rootfs".into(),
        disk_is_9p,
        cmdline: "console=ttyS0".into(),
        tap: "faas3".into(),
        pic_enable: switches,
        pit_enable: !switches,
        rtc_enable: switches,
        auto_kernel_cmdline: !switches,
        acpi_enable: switches,
    }
}

#[test]
fn microvm_machine_option() {
    assert_eq!(
        microvm::machine_option(&microvm_cfg(false, true)),
        "microvm,pic=on,pit=off,rtc=on,auto-kernel-cmdline=off,acpi=on"
    );
    assert_eq!(
        microvm::machine_option(&microvm_cfg(false, false)),
        "microvm,pic=off,pit=on,rtc=off,auto-kernel-cmdline=on,acpi=off"
    );
}

#[test]
fn microvm_command_line() {
    let head = vec![
        "-enable-kvm",
        "-M",
        "microvm,pic=off,pit=on,rtc=off,auto-kernel-cmdline=on,acpi=off",
        "-serial",
        "stdio",
        "-display",
        "none",
        "-no-user-config",
        "-nographic",
        "-nodefaults",
        "-no-reboot",
        "-smp",
        "1",
        "-m",
        "128",
        "-kernel",
        "/k/vmlinux",
        "-append",
        "console=ttyS0",
        "-netdev",
        "tap,id=dev0,ifname=faas3,script=no,downscript=no",
        "-device",
        "virtio-net-device,netdev=dev0",
    ];
    let mut blk = head.clone();
    blk.extend([
        "-drive",
        "if=none,id=dev1,format=raw,file=/d/rootfs",
        "-device",
        "virtio-blk-device,drive=dev1",
    ]);
    assert_eq!(microvm::command_from_config(&microvm_cfg(false, false)).into_args(), blk);
    let mut p9 = head;
    p9.extend([
        "-fsdev",
        "local,security_model=passthrough,id=dev1,path=/d/rootfs",
        "-device",
        "virtio-9p-device,fsdev=dev1,mount_tag=fs0",
    ]);
    assert_eq!(microvm::command_from_config(&microvm_cfg(true, false)).into_args(), p9);
}

#[test]
fn firecracker_config_file() {
    let c = firecracker::Config {
        vcpus: 2,
        memory: 512,
        kernel: "/k/vmlinux".into(),
        disk: "rootfs.ext4".into(),
        copy_rootfs: false,
        cmdline: "console=ttyS0 reboot=k".into(),
        tap: "faas7".into(),
    };
    let f = c.config_file("/var/images/rootfs.ext4");
    assert_eq!(f.machine_config.vcpu_count, 2);
    assert_eq!(f.machine_config.mem_size_mib, 512);
    assert_eq!(f.boot_source.kernel_image_path, "/k/vmlinux");
    assert_eq!(f.boot_source.boot_args, "console=ttyS0 reboot=k");
    assert_eq!(f.drives.len(), 1);
    assert_eq!(f.drives[0].drive_id, "rootfs");
    assert_eq!(f.drives[0].path_on_host, "/var/images/rootfs.ext4");
    assert!(f.drives[0].is_root_device);
    assert!(!f.drives[0].is_read_only);
    assert_eq!(f.network_interfaces.len(), 1);
    assert_eq!(f.network_interfaces[0].iface_id, "eth0");
    assert_eq!(f.network_interfaces[0].guest_mac, "AA:FC:00:00:00:01");
    assert_eq!(f.network_interfaces[0].host_dev_name, "faas7");
}

#[test]
fn firecracker_root_disk() {
    let mut c = firecracker::Config {
        vcpus: 1,
        memory: 128,
        kernel: "/k/vmlinux".into(),
        disk: "/images/rootfs.ext4".into(),
        copy_rootfs: true,
        cmdline: "console=ttyS0".into(),
        tap: "faas0".into(),
    };
    assert_eq!(c.root_disk("/tmp/faas/abc"), ("/tmp/faas/abc/rootfs.img".to_string(), true));
    assert_eq!(c.root_disk("/tmp/faas/abc/"), ("/tmp/faas/abc/rootfs.img".to_string(), true));
    c.copy_rootfs = false;
    assert_eq!(c.root_disk("/tmp/faas/abc"), ("/images/rootfs.ext4".to_string(), false));
}

#[test]
fn instance_files_and_start_failures() {
    assert_eq!(instance_dir_name("5f1c"), "faas/5f1c");
    assert_eq!(MachineError::VmmSpawnFailed.start_failure(), "error: VmmSpawnFailed");
    assert_eq!(MachineError::InvalidConfig.start_failure(), "error: InvalidConfig");
    assert_eq!(MachineError::VmmExitedEarly.start_failure(), "error: VmmExitedEarly");
    assert_eq!(
        MachineError::VmmSpawnFailed.start_failure(),
        format!("error: {:?}", MachineError::VmmSpawnFailed)
    );
}
