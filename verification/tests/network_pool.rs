use unifaas::ipv4::Ipv4Subnet;
use unifaas::network::{subnet_guest_addr, subnet_host_addr, subnet_netmask, NetLease, Network};
use unifaas::tap::Tap;

fn ip(a: u8, b: u8, c: u8, d: u8) -> u32 {
    ((a as u32) << 24) | ((b as u32) << 16) | ((c as u32) << 8) | (d as u32)
}

#[test]
fn network_is_split_into_slash30() {
    let n = Network::new("10.100.0.0/16").unwrap();
    assert_eq!(n.len(), 16384);
    assert_eq!(n.subnet_at(0), Ipv4Subnet { addr: ip(10, 100, 0, 0), prefix_len: 30 });
    assert_eq!(n.subnet_at(1), Ipv4Subnet { addr: ip(10, 100, 0, 4), prefix_len: 30 });
    assert_eq!(n.subnet_at(16383), Ipv4Subnet { addr: ip(10, 100, 255, 252), prefix_len: 30 });
}

#[test]
fn network_refuses_bad_input() {
    assert!(Network::new("10.100.0.0/31").is_none());
    assert!(Network::new("10.100.0.0/40").is_none());
    assert!(Network::new("ten.hundred").is_none());
    assert_eq!(Network::new("10.0.0.0/30").unwrap().len(), 1);
    // Host bits of the network are dropped.
    let n = Network::new("10.100.3.7/24").unwrap();
    assert_eq!(n.subnet_at(0).addr, ip(10, 100, 3, 0));
}

#[test]
fn pool_is_first_in_first_out() {
    let mut n = Network::new("10.0.0.0/29").unwrap();
    let a = n.take_subnet().unwrap();
    let b = n.take_subnet().unwrap();
    assert_eq!(a.addr, ip(10, 0, 0, 0));
    assert_eq!(b.addr, ip(10, 0, 0, 4));
    assert_eq!(n.take_subnet(), None);
    n.release(NetLease::new(Tap::from_name("faas0".to_string()), a));
    n.give_back(b);
    assert_eq!(n.len(), 2);
    assert_eq!(n.take_subnet(), Some(a));
    assert_eq!(n.take_subnet(), Some(b));
    assert_eq!(n.take_subnet(), None);
}

#[test]
fn lease_addresses() {
    let mut n = Network::new("10.100.0.0/16").unwrap();
    let s0 = n.take_subnet().unwrap();
    let s1 = n.take_subnet().unwrap();
    let l0 = NetLease::new(Tap::from_name("faas0".to_string()), s0);
    let l1 = NetLease::new(Tap::from_name("faas1".to_string()), s1);
    assert_eq!(l0.host_addr(), ip(10, 100, 0, 1));
    assert_eq!(l0.guest_addr(), ip(10, 100, 0, 2));
    assert_eq!(l0.netmask(), ip(255, 255, 255, 252));
    assert_eq!(l1.host_addr(), ip(10, 100, 0, 5));
    assert_eq!(l1.guest_addr(), ip(10, 100, 0, 6));
    assert_eq!(l0.ifname(), "faas0");
    assert_eq!(l1.netif().name(), "faas1");
    // Distinct leases never share an address.
    let all = [l0.host_addr(), l0.guest_addr(), l1.host_addr(), l1.guest_addr()];
    for i in 0..4 {
        for j in 0..4 {
            assert!(i == j || all[i] != all[j]);
        }
    }
    let (tap, s) = l0.into_parts();
    assert_eq!(tap.name(), "faas0");
    assert_eq!(s, s0);
}

#[test]
fn host_and_guest_of_wider_subnets() {
    let s = Ipv4Subnet { addr: ip(192, 168, 1, 77), prefix_len: 24 };
    assert_eq!(subnet_host_addr(s), ip(192, 168, 1, 1));
    assert_eq!(subnet_guest_addr(s), ip(192, 168, 1, 2));
}

#[test]
fn netmasks() {
    let m = |p: u8| subnet_netmask(Ipv4Subnet { addr: ip(10, 1, 0, 0), prefix_len: p });
    assert_eq!(m(0), 0);
    assert_eq!(m(20), ip(255, 255, 240, 0));
    assert_eq!(m(30), ip(255, 255, 255, 252));
    assert_eq!(m(32), u32::MAX);
}

#[test]
fn smallest_networks() {
    // A /30 holds exactly one lease; a /29 two, four addresses apart.
    let mut n = Network::new("192.168.7.9/30").unwrap();
    assert_eq!(n.len(), 1);
    let s = n.take_subnet().unwrap();
    assert_eq!(s, Ipv4Subnet { addr: ip(192, 168, 7, 8), prefix_len: 30 });
    assert_eq!(subnet_host_addr(s), ip(192, 168, 7, 9));
    assert_eq!(subnet_guest_addr(s), ip(192, 168, 7, 10));
    let n = Network::new("0.0.0.0/29").unwrap();
    assert_eq!(n.subnet_at(1).addr, 4);
    // The highest subnet of the address space.
    let n = Network::new("255.255.255.252/30").unwrap();
    let s = n.subnet_at(0);
    assert_eq!(subnet_guest_addr(s), ip(255, 255, 255, 254));
    // Texts that are not networks.
    assert!(Network::new("10.100.0.0").is_none());
    assert!(Network::new("10.100.0.0/").is_none());
    assert!(Network::new("300.1.1.1/8").is_none());
}

#[test]
fn pool_from_parsed_network() {
    let n = Network::from_net(Ipv4Subnet { addr: ip(10, 100, 0, 0), prefix_len: 16 }).unwrap();
    assert_eq!(n.len(), 16384);
    assert_eq!(n.subnet_at(16383), Ipv4Subnet { addr: ip(10, 100, 255, 252), prefix_len: 30 });
    let n = Network::from_net(Ipv4Subnet { addr: ip(10, 1, 2, 3), prefix_len: 30 }).unwrap();
    assert_eq!(n.len(), 1);
    assert_eq!(n.subnet_at(0), Ipv4Subnet { addr: ip(10, 1, 2, 0), prefix_len: 30 });
    assert!(Network::from_net(Ipv4Subnet { addr: ip(10, 1, 2, 0), prefix_len: 31 }).is_none());
    assert!(Network::from_net(Ipv4Subnet { addr: ip(10, 1, 2, 0), prefix_len: 32 }).is_none());
    let n = Network::from_net(Ipv4Subnet { addr: ip(172, 16, 9, 9), prefix_len: 20 }).unwrap();
    assert_eq!(n.len(), 1024);
    assert_eq!(n.subnet_at(0).addr, ip(172, 16, 0, 0));
}

#[test]
fn taken_subnet_leaves_the_pool() {
    let mut n = Network::new("10.0.0.0/28").unwrap();
    let a = n.take_subnet().unwrap();
    assert_eq!(a.prefix_len, 30);
    assert!(!n.contains(a));
    assert!(n.contains(Ipv4Subnet { addr: ip(10, 0, 0, 4), prefix_len: 30 }));
    assert!(!n.contains(Ipv4Subnet { addr: ip(10, 0, 0, 4), prefix_len: 29 }));
    let l = NetLease::new(Tap::from_name("faas0".to_string()), a);
    assert_eq!(l.subnet(), a);
    n.release(l);
    assert!(n.contains(a));
    assert_eq!(n.subnet_at(3), a);
}

#[test]
fn cidr_texts_accepted_and_refused() {
    // Leading zeros are read as decimal digits, up to three per octet and
    // two in the prefix length.
    let n = Network::new("010.000.001.007/30").unwrap();
    assert_eq!(n.subnet_at(0), Ipv4Subnet { addr: ip(10, 0, 1, 4), prefix_len: 30 });
    assert_eq!(Network::new("10.0.0.0/029").map(|n| n.len()), None);
    assert_eq!(Network::new("0010.0.0.0/30").map(|n| n.len()), None);
    assert_eq!(Network::new("192.168.0.0/28").unwrap().len(), 4);
    for bad in [
        "",
        " 10.0.0.0/30",
        "10.0.0.0/30 ",
        "10.0.0/30",
        "10.0.0.0.0/30",
        "10..0.0/30",
        "1000.0.0.0/30",
        "256.0.0.0/30",
        "10.0.0.0/33",
        "10.0.0.0/+30",
        "10.0.0.0/30/30",
        "10.0.0.0\\30",
        "10.0.0.0/30x",
        "::1/128",
    ] {
        assert!(Network::new(bad).is_none(), "{}", bad);
    }
}
