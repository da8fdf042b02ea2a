//! The pool of /30 subnets from which every virtual machine gets its own
//! point-to-point link, and the leases handed out of it.

use vstd::arithmetic::power2::{lemma2_to64, lemma_pow2_adds, pow2};
use vstd::arithmetic::div_mod::{lemma_fundamental_div_mod, lemma_mod_multiples_basic};
use std::collections::VecDeque;
use vstd::prelude::*;

use crate::ipv4::{
    Ipv4Subnet, block_size, cidr_parse, digits_value, host_list, is_cidr_split, lemma_cidr_split_unique, ipv4_net_first_hosts, lemma_cidr_prefix_bound,
    ipv4_net_netmask, ipv4_net_subnets, lemma_network_bounds, netmask_of, network_addr,
    parse_ipv4_net, subnet_list,
};
use crate::tap::Tap;

verus! {

/// The network from which the leases are cut.
pub const FUNCTION_NETWORK: &'static str = "10.100.0.0/16";

/// Name template of the TAP interfaces; the kernel replaces `%d` by a number.
pub const TAP_NAME_TEMPLATE: &'static str = "faas%d";

/// Prefix length of the subnet that each lease gets.
pub const LEASE_PREFIX_LEN: u8 = 30;

/// Address of the host end of a lease's link (its first host address).
pub open spec fn lease_host_addr(s: Ipv4Subnet) -> int {
    network_addr(s.addr, s.prefix_len as nat) + 1
}

/// Address of the guest end of a lease's link (its second host address).
pub open spec fn lease_guest_addr(s: Ipv4Subnet) -> int {
    network_addr(s.addr, s.prefix_len as nat) + 2
}

/// A lease: a TAP interface and the subnet configured on it.
#[derive(Debug)]
pub struct NetLease {
    netif: Tap,
    subnet: Ipv4Subnet,
}

impl NetLease {
    #[verifier::type_invariant]
    closed spec fn wf(self) -> bool {
        self.subnet.prefix_len == LEASE_PREFIX_LEN
    }

    /// The subnet of this lease.
    pub closed spec fn subnet_view(&self) -> Ipv4Subnet {
        self.subnet
    }

    /// The interface of this lease.
    pub closed spec fn netif_view(&self) -> Tap {
        self.netif
    }

    /// A lease of `subnet` on the interface `netif`.
    pub fn new(netif: Tap, subnet: Ipv4Subnet) -> (l: NetLease)
        requires
            subnet.prefix_len == LEASE_PREFIX_LEN,
        ensures
            l.subnet_view() == subnet,
            l.netif_view() == netif,
    {
        NetLease { netif, subnet }
    }

    /// The interface of this lease.
    pub fn netif(&self) -> (t: &Tap)
        ensures
            *t == self.netif_view(),
    {
        &self.netif
    }

    /// The subnet of this lease.
    pub fn subnet(&self) -> (s: Ipv4Subnet)
        ensures
            s == self.subnet_view(),
            s.prefix_len == LEASE_PREFIX_LEN,
    {
        proof {
            use_type_invariant(self);
        }
        self.subnet
    }

    /// The name of the lease's interface.
    pub fn ifname(&self) -> (n: &str)
        ensures
            n@ == self.netif_view().name_view(),
    {
        self.netif.name()
    }

    /// Host end of the link: the smallest host address of the subnet.
    pub fn host_addr(&self) -> (a: u32)
        ensures
            a == lease_host_addr(self.subnet_view()),
    {
        proof {
            use_type_invariant(self);
        }
        subnet_host_addr(self.subnet)
    }

    /// Guest end of the link: the second smallest host address of the subnet.
    pub fn guest_addr(&self) -> (a: u32)
        ensures
            a == lease_guest_addr(self.subnet_view()),
    {
        proof {
            use_type_invariant(self);
        }
        subnet_guest_addr(self.subnet)
    }

    /// Netmask of the lease's subnet.
    pub fn netmask(&self) -> (m: u32)
        ensures
            m == netmask_of(self.subnet_view().prefix_len as nat),
    {
        proof {
            use_type_invariant(self);
        }
        ipv4_net_netmask(self.subnet)
    }

    /// Gives the interface back, for removal, and the subnet, for the pool.
    pub fn into_parts(self) -> (r: (Tap, Ipv4Subnet))
        ensures
            r.0 == self.netif_view(),
            r.1 == self.subnet_view(),
            r.1.prefix_len == LEASE_PREFIX_LEN,
    {
        proof {
            use_type_invariant(&self);
        }
        (self.netif, self.subnet)
    }
}

proof fn lemma_hosts_of_small_net(s: Ipv4Subnet)
    requires
        s.prefix_len <= 30,
    ensures
        host_list(s.addr, s.prefix_len as nat).len() >= 2,
        host_list(s.addr, s.prefix_len as nat)[0] == lease_host_addr(s),
        host_list(s.addr, s.prefix_len as nat)[1] == lease_guest_addr(s),
{
    lemma_network_bounds(s.addr, s.prefix_len as nat);
}

/// The smallest host address of a subnet of prefix length at most 30.
/// The hosts come out of `ipnet` in ascending order, so the smallest is
/// the first one.
pub fn subnet_host_addr(s: Ipv4Subnet) -> (a: u32)
    requires
        s.prefix_len <= 30,
    ensures
        a == lease_host_addr(s),
{
    proof {
        lemma_hosts_of_small_net(s);
    }
    let h = ipv4_net_first_hosts(s, 2);
    h[0]
}

/// The second smallest host address of a subnet of prefix length at most 30.
pub fn subnet_guest_addr(s: Ipv4Subnet) -> (a: u32)
    requires
        s.prefix_len <= 30,
    ensures
        a == lease_guest_addr(s),
{
    proof {
        lemma_hosts_of_small_net(s);
    }
    let h = ipv4_net_first_hosts(s, 2);
    h[1]
}

/// The netmask of a subnet.
pub fn subnet_netmask(s: Ipv4Subnet) -> (m: u32)
    requires
        s.prefix_len <= 32,
    ensures
        m == netmask_of(s.prefix_len as nat),
{
    ipv4_net_netmask(s)
}

/// The pool of subnets not leased out, first-in first-out.
#[derive(Debug)]
pub struct Network {
    subnets: VecDeque<Ipv4Subnet>,
}

impl View for Network {
    type V = Seq<Ipv4Subnet>;

    closed spec fn view(&self) -> Seq<Ipv4Subnet> {
        self.subnets@
    }
}

impl Network {
    /// The pool is well formed: every subnet in it is a /30 and none
    /// occurs twice.
    pub open spec fn wf(&self) -> bool {
        pool_distinct(self@) && forall|i: int|
            0 <= i < self@.len() ==> (#[trigger] self@[i]).prefix_len == LEASE_PREFIX_LEN
    }

    /// Splits a network into its /30 subnets, in ascending order. Nothing
    /// when its prefix is longer than 30.
    pub fn from_net(net: Ipv4Subnet) -> (r: Option<Network>)
        requires
            net.prefix_len <= 32,
        ensures
            r is Some <==> net.prefix_len <= LEASE_PREFIX_LEN,
            r matches Some(n) ==> n@ == subnet_list(net.addr, net.prefix_len as nat, LEASE_PREFIX_LEN)
                && n.wf(),
    {
        match ipv4_net_subnets(net, LEASE_PREFIX_LEN) {
            None => None,
            Some(v) => {
                let mut subnets: VecDeque<Ipv4Subnet> = VecDeque::new();
                let mut i: usize = 0;
                while i < v.len()
                    invariant
                        i <= v@.len(),
                        subnets@ == v@.subrange(0, i as int),
                    decreases v@.len() - i,
                {
                    subnets.push_back(v[i]);
                    i = i + 1;
                    assert(subnets@ =~= v@.subrange(0, i as int));
                }
                assert(subnets@ =~= v@);
                let n = Network { subnets };
                proof {
                    lemma_new_pool_distinct(net.addr, net.prefix_len as nat);
                    assert forall|i: int| 0 <= i < n@.len() implies (#[trigger] n@[i]).prefix_len
                        == LEASE_PREFIX_LEN by {
                        lemma_subnet_entry(net.addr, net.prefix_len as nat, i);
                    }
                }
                Some(n)
            },
        }
    }

    /// Splits the network written in CIDR notation into its /30 subnets.
    /// Nothing when the text is not a network or its prefix is longer than 30.
    pub fn new(net: &str) -> (r: Option<Network>)
        ensures
            match cidr_parse(net@) {
                None => r is None,
                Some((a, p)) => if p <= 30 {
                    r matches Some(n) && n@ == subnet_list(a, p as nat, LEASE_PREFIX_LEN)
                } else {
                    r is None
                },
            },
            r matches Some(n) ==> n.wf(),
    {
        proof {
            lemma_cidr_prefix_bound(net@);
        }
        match parse_ipv4_net(net) {
            None => None,
            Some(n) => Network::from_net(n),
        }
    }

    /// Number of subnets in the pool.
    pub fn len(&self) -> (n: usize)
        ensures
            n == self@.len(),
    {
        self.subnets.len()
    }

    /// The `i`-th subnet of the pool, oldest first.
    pub fn subnet_at(&self, i: usize) -> (s: Ipv4Subnet)
        requires
            i < self@.len(),
        ensures
            s == self@[i as int],
    {
        self.subnets[i]
    }

    /// Whether the subnet is in the pool.
    pub fn contains(&self, s: Ipv4Subnet) -> (b: bool)
        ensures
            b == self@.contains(s),
    {
        let mut i: usize = 0;
        while i < self.subnets.len()
            invariant
                i <= self.subnets@.len(),
                forall|k: int| 0 <= k < i ==> self.subnets@[k] != s,
            decreases self.subnets@.len() - i,
        {
            if self.subnets[i] == s {
                assert(self@[i as int] == s);
                return true;
            }
            i = i + 1;
        }
        false
    }

    /// Takes the oldest subnet out of the pool; nothing when it is empty.
    /// The subnet taken is a /30 and no longer in the pool.
    pub fn take_subnet(&mut self) -> (r: Option<Ipv4Subnet>)
        requires
            old(self).wf(),
        ensures
            final(self).wf(),
            old(self)@.len() == 0 ==> r is None && final(self)@ == old(self)@,
            old(self)@.len() > 0 ==> r == Some(old(self)@[0]) && final(self)@ == old(
                self,
            )@.drop_first(),
            r matches Some(s) ==> s.prefix_len == LEASE_PREFIX_LEN && !final(self)@.contains(s),
    {
        match self.subnets.pop_front() {
            None => None,
            Some(s) => {
                assert(self.subnets@ =~= old(self)@.drop_first());
                proof {
                    lemma_lease_at_most_once(old(self)@, s);
                    assert(s.prefix_len == LEASE_PREFIX_LEN);
                }
                Some(s)
            },
        }
    }

    /// Puts the subnet of a released lease back at the end of the pool.
    /// The subnet must not be in the pool already: a lease is taken from
    /// the pool once and released once.
    pub fn release(&mut self, lease: NetLease)
        requires
            old(self).wf(),
            !old(self)@.contains(lease.subnet_view()),
        ensures
            final(self).wf(),
            final(self)@ == old(self)@.push(lease.subnet_view()),
    {
        let (_tap, s) = lease.into_parts();
        self.give_back(s);
    }

    /// Puts a /30 subnet that is not in the pool back at its end.
    pub fn give_back(&mut self, s: Ipv4Subnet)
        requires
            old(self).wf(),
            s.prefix_len == LEASE_PREFIX_LEN,
            !old(self)@.contains(s),
        ensures
            final(self).wf(),
            final(self)@ == old(self)@.push(s),
    {
        self.subnets.push_back(s);
        proof {
            lemma_lease_at_most_once(old(self)@, s);
            assert forall|i: int| 0 <= i < self@.len() implies (#[trigger] self@[i]).prefix_len
                == LEASE_PREFIX_LEN by {
                if i < old(self)@.len() {
                    assert(self@[i] == old(self)@[i]);
                }
            }
        }
    }
}

/// The `i`-th /30 subnet of a network starts `4 * i` addresses after the
/// network address and is its own network address.
pub proof fn lemma_subnet_entry(a: u32, p: nat, i: int)
    requires
        p <= 30,
        0 <= i < subnet_list(a, p, LEASE_PREFIX_LEN).len(),
    ensures
        subnet_list(a, p, LEASE_PREFIX_LEN)[i].addr == network_addr(a, p) + 4 * i,
        subnet_list(a, p, LEASE_PREFIX_LEN)[i].prefix_len == 30,
        network_addr(subnet_list(a, p, LEASE_PREFIX_LEN)[i].addr, 30) == network_addr(a, p) + 4 * i,
{
    lemma_network_bounds(a, p);
    lemma2_to64();
    lemma_pow2_adds((30 - p) as nat, 2);
    assert(((30 - p) as nat + 2) as nat == (32 - p) as nat);
    let n = network_addr(a, p);
    let k = pow2((30 - p) as nat) as int;
    let b = block_size(p) as int;
    assert(b == k * 4);
    assert(block_size(30) == 4);
    assert(n + 4 * i < 0x1_0000_0000) by (nonlinear_arith)
        requires
            0 <= i < k,
            b == k * 4,
            n + b <= 0x1_0000_0000,
    ;
    let x = n + 4 * i;
    let q = n / b;
    lemma_fundamental_div_mod(n, b);
    assert(n == 4 * (k * q)) by (nonlinear_arith)
        requires
            n == b * q + n % b,
            n % b == 0,
            b == k * 4,
    ;
    lemma_mod_multiples_basic(k * q, 4);
    assert(n % 4 == 0);
    assert(x % 4 == 0) by (nonlinear_arith)
        requires
            n % 4 == 0,
            x == n + 4 * i,
            i >= 0,
            n >= 0,
    ;
}

/// Distinct /30 subnets of one network are disjoint: each one's addresses
/// lie in its own block of four, so no two leases share a host or guest
/// address.
pub proof fn lemma_subnets_disjoint(a: u32, p: nat, i: int, j: int)
    requires
        p <= 30,
        0 <= i < subnet_list(a, p, LEASE_PREFIX_LEN).len(),
        0 <= j < subnet_list(a, p, LEASE_PREFIX_LEN).len(),
        i != j,
    ensures
        subnet_list(a, p, LEASE_PREFIX_LEN)[i] != subnet_list(a, p, LEASE_PREFIX_LEN)[j],
        lease_guest_addr(subnet_list(a, p, LEASE_PREFIX_LEN)[i]) != lease_guest_addr(
            subnet_list(a, p, LEASE_PREFIX_LEN)[j],
        ),
        lease_host_addr(subnet_list(a, p, LEASE_PREFIX_LEN)[i]) != lease_guest_addr(
            subnet_list(a, p, LEASE_PREFIX_LEN)[j],
        ),
        lease_host_addr(subnet_list(a, p, LEASE_PREFIX_LEN)[i]) != lease_host_addr(
            subnet_list(a, p, LEASE_PREFIX_LEN)[j],
        ),
{
    lemma_subnet_entry(a, p, i);
    lemma_subnet_entry(a, p, j);
}

/// No subnet occurs twice in the pool.
pub open spec fn pool_distinct(pool: Seq<Ipv4Subnet>) -> bool {
    forall|i: int, j: int| 0 <= i < pool.len() && 0 <= j < pool.len() && i != j ==> #[trigger] pool[i] != #[trigger] pool[j]
}

/// A fresh pool holds every subnet once.
pub proof fn lemma_new_pool_distinct(a: u32, p: nat)
    requires
        p <= 30,
    ensures
        pool_distinct(subnet_list(a, p, LEASE_PREFIX_LEN)),
{
    assert forall|i: int, j: int|
        0 <= i < subnet_list(a, p, LEASE_PREFIX_LEN).len() && 0 <= j < subnet_list(a, p, LEASE_PREFIX_LEN).len()
            && i != j implies #[trigger] subnet_list(a, p, LEASE_PREFIX_LEN)[i] != #[trigger] subnet_list(
        a,
        p,
        LEASE_PREFIX_LEN,
    )[j] by {
        lemma_subnets_disjoint(a, p, i, j);
    }
}

/// A subnet is leased at most once at a time: the subnet taken from a pool
/// without repeats is no longer in it, the pool keeps no repeats, and
/// giving back a subnet that is not in the pool keeps it without repeats.
pub proof fn lemma_lease_at_most_once(pool: Seq<Ipv4Subnet>, back: Ipv4Subnet)
    requires
        pool_distinct(pool),
    ensures
        pool.len() > 0 ==> !pool.drop_first().contains(pool[0]),
        pool.len() > 0 ==> pool_distinct(pool.drop_first()),
        !pool.contains(back) ==> pool_distinct(pool.push(back)),
{
    if pool.len() > 0 {
        let rest = pool.drop_first();
        if rest.contains(pool[0]) {
            let k = choose|k: int| 0 <= k < rest.len() && rest[k] == pool[0];
            assert(pool[k + 1] == pool[0]);
        }
        assert forall|i: int, j: int| 0 <= i < rest.len() && 0 <= j < rest.len() && i != j implies #[trigger] rest[i] != #[trigger] rest[j] by {
            assert(rest[i] == pool[i + 1] && rest[j] == pool[j + 1]);
        }
    }
    if !pool.contains(back) {
        let q = pool.push(back);
        assert forall|i: int, j: int| 0 <= i < q.len() && 0 <= j < q.len() && i != j implies #[trigger] q[i] != #[trigger] q[j] by {
            if i == pool.len() {
                assert(q[j] == pool[j]);
            } else if j == pool.len() {
                assert(q[i] == pool[i]);
            }
        }
    }
}

/// The network of the functions' leases, `10.100.0.0/16`, is cut into
/// 16384 /30 subnets, from `10.100.0.0/30` to `10.100.255.252/30`: the
/// pool that `Network::new(FUNCTION_NETWORK)` makes.
pub proof fn lemma_function_network_pool()
    ensures
        cidr_parse(FUNCTION_NETWORK@) == Some((0x0A64_0000u32, 16u8)),
        subnet_list(0x0A64_0000u32, 16, LEASE_PREFIX_LEN).len() == 16384,
        subnet_list(0x0A64_0000u32, 16, LEASE_PREFIX_LEN)[0] == (Ipv4Subnet {
            addr: 0x0A64_0000u32,
            prefix_len: 30,
        }),
        subnet_list(0x0A64_0000u32, 16, LEASE_PREFIX_LEN)[16383] == (Ipv4Subnet {
            addr: 0x0A64_FFFCu32,
            prefix_len: 30,
        }),
{
    reveal_strlit("10.100.0.0/16");
    let d = seq![seq!['1', '0'], seq!['1', '0', '0'], seq!['0'], seq!['0'], seq!['1', '6']];
    assert(FUNCTION_NETWORK@ =~= d[0] + seq!['.'] + d[1] + seq!['.'] + d[2] + seq!['.'] + d[3]
        + seq!['/'] + d[4]);
    reveal_with_fuel(digits_value, 4);
    assert(digits_value(d[0]) == 10);
    assert(digits_value(d[1]) == 100);
    assert(digits_value(d[2]) == 0);
    assert(digits_value(d[3]) == 0);
    assert(digits_value(d[4]) == 16);
    assert(is_cidr_split(FUNCTION_NETWORK@, d));
    let e = choose|e: Seq<Seq<char>>| is_cidr_split(FUNCTION_NETWORK@, e);
    lemma_cidr_split_unique(FUNCTION_NETWORK@, d, e);
    lemma2_to64();
    assert(pow2((30 - 16) as nat) == 16384);
    assert(subnet_list(0x0A64_0000u32, 16, LEASE_PREFIX_LEN).len() == 16384);
    lemma_subnet_entry(0x0A64_0000u32, 16, 0);
    lemma_subnet_entry(0x0A64_0000u32, 16, 16383);
    assert(network_addr(0x0A64_0000u32, 16) == 0x0A64_0000) by {
        assert(block_size(16) == 0x1_0000);
        assert((0x0A64_0000u32 as int) % 0x1_0000 == 0);
    }
}

} // verus!
