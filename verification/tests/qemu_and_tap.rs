use unifaas::callback::Waitlist;
use unifaas::tap::{down_flags, ifr_name_from, ifr_name_of, up_flags, Tap, IFF_RUNNING, IFF_UP};
use unifaas::vmm::qemu::{command_from_config, Config};
use unifaas::vmm::qemu_command::{QemuCommand, QEMU};

fn cfg(disk_is_9p: bool) -> Config {
    Config {
        vcpus: 2,
        memory: 256,
        kernel: "/k/vmlinux".into(),
        disk: "/d/rootfs".into(),
        disk_is_9p,
        cmdline: "console=ttyS0 net.ip=10.0.0.2".into(),
        tap: "faas3".into(),
    }
}

fn expected_prefix() -> Vec<&'static str> {
    vec![
        "-enable-kvm", "-serial", "stdio", "-display", "none", "-no-user-config", "-nographic",
        "-nodefaults", "-no-reboot", "-smp", "2", "-m", "256", "-kernel", "/k/vmlinux",
        "-append", "console=ttyS0 net.ip=10.0.0.2", "-netdev",
        "tap,id=dev0,ifname=faas3,script=no,downscript=no", "-device", "virtio-net-pci,netdev=dev0",
    ]
}

#[test]
fn qemu_block_disk_command() {
    let mut exp = expected_prefix();
    exp.extend(["-drive", "if=none,id=dev1,format=raw,file=/d/rootfs", "-device", "virtio-blk-pci,drive=dev1"]);
    assert_eq!(command_from_config(&cfg(false)).into_args(), exp);
    assert_eq!(QEMU, "qemu-system-x86_64");
}

#[test]
fn qemu_9p_disk_command() {
    let mut exp = expected_prefix();
    exp.extend([
        "-fsdev", "local,security_model=passthrough,id=dev1,path=/d/rootfs", "-device",
        "virtio-9p-pci,fsdev=dev1,mount_tag=fs0",
    ]);
    assert_eq!(command_from_config(&cfg(true)).into_args(), exp);
}

#[test]
fn microvm_devices_and_ids() {
    let q = QemuCommand::new(true)
        .with_virtio_scsi("/a.img")
        .with_virtio_blk("/b.img")
        .with_virtio_net("tap0")
        .with_virtio_9p("/share", "tag")
        .with_mem(64)
        .with_kernel("/k")
        .with_cmdline("c")
        .with_option("-x")
        .with_option_val("-y", "z")
        .with_raw_args(vec!["r1".into(), "r2".into()])
        .with_kvm();
    assert_eq!(
        q.into_args(),
        vec![
            "-drive", "if=none,id=dev0,format=raw,file=/a.img", "-device", "virtio-scsi-device,id=dev1",
            "-device", "scsi-hd,drive=dev0",
            "-drive", "if=none,id=dev2,format=raw,file=/b.img", "-device", "virtio-blk-device,drive=dev2",
            "-netdev", "tap,id=dev3,ifname=tap0,script=no,downscript=no", "-device", "virtio-net-device,netdev=dev3",
            "-fsdev", "local,security_model=passthrough,id=dev4,path=/share", "-device",
            "virtio-9p-device,fsdev=dev4,mount_tag=tag",
            "-m", "64", "-kernel", "/k", "-append", "c", "-x", "-y", "z", "r1", "r2", "-enable-kvm",
        ]
    );
    assert!(QemuCommand::new(false).into_args().is_empty());
}

#[test]
fn interface_name_field() {
    let f = ifr_name_from("faas%d");
    assert_eq!(f.len(), 16);
    assert_eq!(&f[..6], b"faas%d");
    assert!(f[6..].iter().all(|b| *b == 0));
    assert_eq!(ifr_name_of(&f), b"faas%d".to_vec());
    // The kernel writes the assigned name back.
    let mut k = [0u8; 16];
    k[..5].copy_from_slice(b"faas7");
    assert_eq!(ifr_name_of(&k), b"faas7".to_vec());
    // Names are cut to the field's size.
    let long = ifr_name_from("abcdefghijklmnopqrst");
    assert_eq!(long, b"abcdefghijklmnop".to_vec());
    assert_eq!(ifr_name_of(&long), b"abcdefghijklmnop".to_vec());
    assert_eq!(ifr_name_of(&[]), Vec::<u8>::new());
}

#[test]
fn interface_flags() {
    assert_eq!(up_flags(), 0x41);
    assert_eq!(IFF_UP, libc::IFF_UP as i16);
    assert_eq!(IFF_RUNNING, libc::IFF_RUNNING as i16);
    assert_eq!(down_flags(0x1043), 0x1002);
    assert_eq!(down_flags(-1), !0x41);
    assert_eq!(down_flags(0), 0);
}

#[test]
fn tap_name() {
    let t = Tap::from_name("faas12".to_string());
    assert_eq!(t.name(), "faas12");
}

#[test]
fn ready_waiters() {
    let mut w: Waitlist<u32> = Waitlist::new();
    assert!(!w.contains("a"));
    w.register("a", 1);
    w.register("b", 2);
    assert!(w.contains("a"));
    assert_eq!(w.remove("a"), Some(1));
    assert_eq!(w.remove("a"), None);
    assert!(!w.contains("a"));
    assert!(w.contains("b"));
    assert_eq!(w.remove("zz"), None);
    assert_eq!(w.remove("b"), Some(2));
}
