use unifaas::command::{Args, LogLevel};
use unifaas::docker::{container_spec, DOCKER_HOST_ADDR};
use unifaas::registry::config::{
    default_memory_size, default_num_cpus, serde_false, serde_true, ContainerConfig, DiskType,
    FirecrackerConfig, FunctionConfig, MicrovmConfig, QemuConfig, RuntimeConfig, VmConfig, VmmConfig,
};
use unifaas::instance::{machine_config, MachineConfig};
use unifaas::registry::{join_path, Registry};

fn vm_config(kernel: &str, image: &str) -> FunctionConfig {
    FunctionConfig {
        keepalive: 5,
        concurrent_requests: 1,
        single_use: true,
        runtime: RuntimeConfig::Vm(VmConfig {
            cmdline: "console=ttyS0".to_string(),
            kernel: kernel.to_string(),
            image: image.to_string(),
            memory: 512,
            cpus: 2,
            hypervisor: VmmConfig::Firecracker(FirecrackerConfig { copy_rootfs: true }),
        }),
    }
}

#[test]
fn defaults() {
    assert!(serde_true());
    assert!(!serde_false());
    assert_eq!(default_memory_size(), 128);
    assert_eq!(default_num_cpus(), 1);
    assert_eq!(LogLevel::default_level(), LogLevel::Info);
    let a = Args { registry: "/reg".to_string(), log_lvl: LogLevel::default_level() };
    assert_eq!(a.registry, "/reg");
}

#[test]
fn disk_types() {
    assert!(DiskType::Virtio9p.is_9p());
    assert!(!DiskType::VirtioBlock.is_9p());
    let q = QemuConfig { disk_type: DiskType::VirtioBlock };
    assert!(!q.disk_type.is_9p());
}

#[test]
fn only_vms_need_an_interface() {
    assert!(vm_config("k", "i").needs_netif());
    let c = FunctionConfig {
        keepalive: 1,
        concurrent_requests: 1,
        single_use: false,
        runtime: RuntimeConfig::Container(ContainerConfig { image: "x".into(), memory: 1, runtime: None }),
    };
    assert!(!c.needs_netif());
}

#[test]
fn zero_concurrency_is_refused() {
    let mut c = vm_config("k", "i");
    c.concurrent_requests = 0;
    assert_eq!(FunctionConfig::from_parsed(c).unwrap_err(), "concurrent-requests < 1");
    let c = FunctionConfig::from_parsed(vm_config("k", "i")).unwrap();
    assert_eq!(c.concurrent_requests, 1);
}

#[test]
fn path_joining() {
    assert_eq!(join_path("/reg", "foo"), "/reg/foo");
    assert_eq!(join_path("/reg/", "foo"), "/reg/foo");
    assert_eq!(join_path("", "foo"), "foo");
    assert_eq!(join_path("/reg", "/abs/k.img"), "/abs/k.img");
    assert_eq!(join_path("/reg", ""), "/reg/");
    for (a, b) in [("/reg", "foo"), ("/reg/", "foo"), ("/reg", "/abs"), ("x", "y/z"), ("/reg", "")] {
        assert_eq!(
            join_path(a, b),
            std::path::Path::new(a).join(b).to_str().unwrap()
        );
    }
}

#[test]
fn registry_paths() {
    let r = Registry::new("/srv/registry".to_string());
    assert_eq!(r.config_path("foo"), "/srv/registry/foo/function.toml");
    let c = r.get_function("foo", Ok(vm_config("kernel.img", "/images/rootfs.img"))).unwrap();
    match c.runtime {
        RuntimeConfig::Vm(vm) => {
            assert_eq!(vm.kernel, "/srv/registry/foo/kernel.img");
            assert_eq!(vm.image, "/images/rootfs.img");
            assert_eq!(vm.memory, 512);
            assert_eq!(vm.cpus, 2);
            assert_eq!(vm.cmdline, "console=ttyS0");
        }
        _ => panic!("runtime changed"),
    }
    assert_eq!(c.keepalive, 5);
    assert!(c.single_use);
    let err = r.get_function("foo", Err("missing".to_string())).unwrap_err();
    assert_eq!(err, "missing");
    let cont = FunctionConfig {
        keepalive: 1,
        concurrent_requests: 3,
        single_use: false,
        runtime: RuntimeConfig::Container(ContainerConfig { image: "img".into(), memory: 64, runtime: Some("runsc".into()) }),
    };
    match r.get_function("bar", Ok(cont)).unwrap().runtime {
        RuntimeConfig::Container(c) => {
            assert_eq!(c.image, "img");
            assert_eq!(c.runtime.as_deref(), Some("runsc"));
        }
        _ => panic!("runtime changed"),
    }
}

#[test]
fn container_settings() {
    let c = ContainerConfig { image: "fn-image".into(), memory: 512, runtime: Some("runsc".into()) };
    let s = container_spec("inst-9", &c);
    assert_eq!(s.name, "inst-9");
    assert_eq!(s.image, "fn-image");
    assert_eq!(s.cmd, vec!["http://172.17.0.1:3000/ready/inst-9".to_string()]);
    assert_eq!(s.runtime.as_deref(), Some("runsc"));
    assert_eq!(s.memory_bytes, 512 * 1024 * 1024);
    assert_eq!(s.cpuset_cpus, "1");
    assert_eq!(DOCKER_HOST_ADDR, 0xAC11_0001);
    let c = ContainerConfig { image: "x".into(), memory: u32::MAX, runtime: None };
    let s = container_spec("i", &c);
    assert_eq!(s.memory_bytes, (u32::MAX as i64) * 1024 * 1024);
    assert!(s.runtime.is_none());
}

fn lease() -> unifaas::network::NetLease {
    let mut n = unifaas::network::Network::new("10.100.0.0/16").unwrap();
    let s = n.take_subnet().unwrap();
    unifaas::network::NetLease::new(unifaas::tap::Tap::from_name("faas0".to_string()), s)
}

fn vm_with(h: VmmConfig) -> VmConfig {
    VmConfig {
        cmdline: "ip=%ip gw=%gateway mask=%netmask cb=%callback".to_string(),
        kernel: "/k".to_string(),
        image: "/i".to_string(),
        memory: 128,
        cpus: 1,
        hypervisor: h,
    }
}

const EXPECTED_CMDLINE: &str =
    "ip=10.100.0.2 gw=10.100.0.1 mask=255.255.255.252 cb=http://10.100.0.1:3000/ready/id1";

#[test]
fn machine_configs() {
    let l = lease();
    match machine_config(&vm_with(VmmConfig::Firecracker(FirecrackerConfig { copy_rootfs: false })), "id1", &l) {
        MachineConfig::Firecracker(c) => {
            assert_eq!(c.cmdline, EXPECTED_CMDLINE);
            assert_eq!(c.tap, "faas0");
            assert_eq!(c.kernel, "/k");
            assert_eq!(c.disk, "/i");
            assert_eq!((c.vcpus, c.memory, c.copy_rootfs), (1, 128, false));
        }
        _ => panic!("wrong machine"),
    }
    match machine_config(&vm_with(VmmConfig::Qemu(QemuConfig { disk_type: DiskType::Virtio9p })), "id1", &l) {
        MachineConfig::Qemu(c) => {
            assert_eq!(c.cmdline, EXPECTED_CMDLINE);
            assert!(c.disk_is_9p);
            assert_eq!(c.tap, "faas0");
        }
        _ => panic!("wrong machine"),
    }
    let m = MicrovmConfig {
        disk_type: DiskType::VirtioBlock,
        pic: true,
        pit: false,
        rtc: true,
        auto_kernel_cmdline: true,
        acpi: false,
    };
    match machine_config(&vm_with(VmmConfig::Microvm(m)), "id1", &l) {
        MachineConfig::Microvm(c) => {
            assert_eq!(c.cmdline, EXPECTED_CMDLINE);
            assert!(!c.disk_is_9p);
            assert_eq!((c.pic_enable, c.pit_enable, c.rtc_enable, c.auto_kernel_cmdline, c.acpi_enable), (true, false, true, true, false));
        }
        _ => panic!("wrong machine"),
    }
}
