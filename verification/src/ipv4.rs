//! IPv4 addresses (as `u32`, most significant octet first) and IPv4
//! networks, with the `ipnet` crate doing the network arithmetic.

use vstd::arithmetic::power2::{lemma2_to64, lemma_pow2_adds, lemma_pow2_pos, lemma_pow2_strictly_increases, pow2};
use vstd::arithmetic::div_mod::{lemma_fundamental_div_mod, lemma_mod_bound};
use vstd::prelude::*;

use crate::text::{decimal, digit_char, lemma_decimal_digits, push_char, u32_to_decimal};

verus! {

/// An IPv4 network: an address and a prefix length (at most 32), as
/// `ipnet::Ipv4Net` holds it. The address may carry host bits.
#[derive(Clone, Copy, PartialEq, Eq, Structural, Debug)]
pub struct Ipv4Subnet {
    pub addr: u32,
    pub prefix_len: u8,
}

/// Dotted-decimal rendering of an address, as `Ipv4Addr`'s `Display` gives it.
pub open spec fn ipv4_text(a: u32) -> Seq<char> {
    decimal((a / 0x100_0000) as nat) + seq!['.'] + decimal(((a / 0x1_0000) % 0x100) as nat) + seq![
        '.',
    ] + decimal(((a / 0x100) % 0x100) as nat) + seq!['.'] + decimal((a % 0x100) as nat)
}

/// Number of addresses in a network of prefix length `p`.
pub open spec fn block_size(p: nat) -> nat {
    pow2((32 - p) as nat)
}

/// The network address: `a` with its host bits cleared.
pub open spec fn network_addr(a: u32, p: nat) -> int {
    a - (a as int) % (block_size(p) as int)
}

/// The broadcast address: `a` with its host bits set.
pub open spec fn broadcast_addr(a: u32, p: nat) -> int {
    network_addr(a, p) + block_size(p) - 1
}

/// The netmask of prefix length `p` as an address.
pub open spec fn netmask_of(p: nat) -> int {
    0x1_0000_0000 - block_size(p)
}

/// The subnets of prefix length `new_p` of network (`a`, `p`), in
/// ascending order.
pub open spec fn subnet_list(a: u32, p: nat, new_p: u8) -> Seq<Ipv4Subnet> {
    Seq::new(
        pow2((new_p - p) as nat),
        |i: int|
            Ipv4Subnet {
                addr: (network_addr(a, p) + i * block_size(new_p as nat)) as u32,
                prefix_len: new_p,
            },
    )
}

/// First usable host address of a network.
pub open spec fn first_host(a: u32, p: nat) -> int {
    if p < 31 {
        network_addr(a, p) + 1
    } else {
        network_addr(a, p)
    }
}

/// Last usable host address of a network.
pub open spec fn last_host(a: u32, p: nat) -> int {
    if p < 31 {
        broadcast_addr(a, p) - 1
    } else {
        broadcast_addr(a, p)
    }
}

/// The usable host addresses of a network in ascending order: all of them
/// but the network and broadcast address, unless the prefix is 31 or 32.
pub open spec fn host_list(a: u32, p: nat) -> Seq<u32> {
    Seq::new(
        (last_host(a, p) - first_host(a, p) + 1) as nat,
        |i: int| (first_host(a, p) + i) as u32,
    )
}

/// Whether `c` is a decimal digit.
pub open spec fn is_digit(c: char) -> bool {
    '0' <= c && c <= '9'
}

/// Value of a decimal digit.
pub open spec fn digit_value(c: char) -> nat {
    ((c as u32) - ('0' as u32)) as nat
}

/// Value of a string of decimal digits; leading zeros are allowed.
pub open spec fn digits_value(d: Seq<char>) -> nat
    decreases d.len(),
{
    if d.len() == 0 {
        0
    } else {
        digits_value(d.drop_last()) * 10 + digit_value(d.last())
    }
}

/// `d` is a number of 1 to `max_len` decimal digits with a value below
/// `upto`.
pub open spec fn is_number(d: Seq<char>, max_len: nat, upto: nat) -> bool {
    &&& 1 <= d.len() <= max_len
    &&& forall|i: int| 0 <= i < d.len() ==> is_digit(#[trigger] d[i])
    &&& digits_value(d) < upto
}

/// `s` is a network in CIDR notation, cut into its fields `d`: four octets
/// of one to three digits, each below 256, separated by dots, then a slash
/// and a prefix length of one or two digits, at most 32.
pub open spec fn is_cidr_split(s: Seq<char>, d: Seq<Seq<char>>) -> bool {
    &&& d.len() == 5
    &&& s == d[0] + seq!['.'] + d[1] + seq!['.'] + d[2] + seq!['.'] + d[3] + seq!['/'] + d[4]
    &&& forall|i: int| 0 <= i < 4 ==> is_number(#[trigger] d[i], 3, 256)
    &&& is_number(d[4], 2, 33)
}

/// The network that a text in CIDR notation names: its address and prefix
/// length, or nothing when the text is not of that form.
pub open spec fn cidr_parse(s: Seq<char>) -> Option<(u32, u8)> {
    if exists|d: Seq<Seq<char>>| is_cidr_split(s, d) {
        let d = choose|d: Seq<Seq<char>>| is_cidr_split(s, d);
        Some(
            (
                (digits_value(d[0]) * 0x100_0000 + digits_value(d[1]) * 0x1_0000 + digits_value(d[2])
                    * 0x100 + digits_value(d[3])) as u32,
                digits_value(d[4]) as u8,
            ),
        )
    } else {
        None
    }
}

/// Read back as a number, the decimal rendering of `n` is `n`.
pub proof fn lemma_decimal_value(n: nat)
    ensures
        digits_value(decimal(n)) == n,
    decreases n,
{
    reveal_with_fuel(decimal, 2);
    if n < 10 {
        let d = decimal(n);
        assert(d.drop_last() =~= Seq::<char>::empty());
        assert(digits_value(Seq::<char>::empty()) == 0);
        assert(digit_value(digit_char(n as int)) == n);
    } else {
        lemma_decimal_value(n / 10);
        let d = decimal(n);
        assert(d.drop_last() =~= decimal(n / 10));
        assert(digit_value(digit_char((n % 10) as int)) == n % 10);
    }
}

proof fn lemma_decimal_octet(n: nat)
    requires
        n < 256,
    ensures
        is_number(decimal(n), 3, 256),
        digits_value(decimal(n)) == n,
{
    reveal_with_fuel(decimal, 3);
    lemma_decimal_value(n);
    lemma_decimal_digits(n);
    if n >= 10 {
        if n >= 100 {
            assert(decimal(n / 10 / 10).len() == 1);
            assert(decimal(n / 10).len() == 2);
        } else {
            assert(decimal(n / 10).len() == 1);
        }
    }
    assert forall|i: int| 0 <= i < decimal(n).len() implies is_digit(#[trigger] decimal(n)[i]) by {
        assert('0' <= decimal(n)[i] <= '9');
    }
}

/// An address written in dotted-decimal form reads back as the same
/// address: with a `/32` behind it, it parses to that address.
pub proof fn lemma_ipv4_text_reads_back(a: u32)
    ensures
        cidr_parse(ipv4_text(a) + "/32"@) == Some((a, 32u8)),
{
    let o0 = (a / 0x100_0000) as nat;
    let o1 = ((a / 0x1_0000) % 0x100) as nat;
    let o2 = ((a / 0x100) % 0x100) as nat;
    let o3 = (a % 0x100) as nat;
    lemma_decimal_octet(o0);
    lemma_decimal_octet(o1);
    lemma_decimal_octet(o2);
    lemma_decimal_octet(o3);
    let p = seq!['3', '2'];
    assert(digits_value(p) == 32) by {
        reveal_with_fuel(digits_value, 3);
        assert(p.drop_last() =~= seq!['3']);
        assert(p.drop_last().drop_last() =~= Seq::<char>::empty());
    }
    assert(is_number(p, 2, 33));
    let d = seq![decimal(o0), decimal(o1), decimal(o2), decimal(o3), p];
    let s = ipv4_text(a) + "/32"@;
    reveal_strlit("/32");
    assert(s =~= d[0] + seq!['.'] + d[1] + seq!['.'] + d[2] + seq!['.'] + d[3] + seq!['/'] + d[4]);
    assert(is_cidr_split(s, d));
    let e = choose|e: Seq<Seq<char>>| is_cidr_split(s, e);
    lemma_cidr_split_unique(s, d, e);
    let x = a as int;
    assert(o0 * 0x100_0000 + o1 * 0x1_0000 + o2 * 0x100 + o3 == x) by (nonlinear_arith)
        requires
            0 <= x < 0x1_0000_0000,
            o0 == x / 0x100_0000,
            o1 == (x / 0x1_0000) % 0x100,
            o2 == (x / 0x100) % 0x100,
            o3 == x % 0x100,
    ;
}

/// Distinct addresses have distinct dotted-decimal forms.
pub proof fn lemma_ipv4_text_injective(a: u32, b: u32)
    requires
        ipv4_text(a) == ipv4_text(b),
    ensures
        a == b,
{
    lemma_ipv4_text_reads_back(a);
    lemma_ipv4_text_reads_back(b);
}

/// The prefix length of a network in CIDR notation is at most 32.
pub proof fn lemma_cidr_prefix_bound(s: Seq<char>)
    ensures
        cidr_parse(s) matches Some((a, p)) ==> p <= 32,
{
    if exists|d: Seq<Seq<char>>| is_cidr_split(s, d) {
        let d = choose|d: Seq<Seq<char>>| is_cidr_split(s, d);
        assert(digits_value(d[4]) < 33);
    }
}

proof fn lemma_digit_run_unique(a: Seq<char>, r1: Seq<char>, b: Seq<char>, r2: Seq<char>, c: char)
    requires
        forall|i: int| 0 <= i < a.len() ==> is_digit(#[trigger] a[i]),
        forall|i: int| 0 <= i < b.len() ==> is_digit(#[trigger] b[i]),
        !is_digit(c),
        a + seq![c] + r1 == b + seq![c] + r2,
    ensures
        a == b,
        r1 == r2,
{
    let x = a + seq![c] + r1;
    let y = b + seq![c] + r2;
    if a.len() < b.len() {
        assert(x[a.len() as int] == c);
        assert(y[a.len() as int] == b[a.len() as int]);
    } else if b.len() < a.len() {
        assert(y[b.len() as int] == c);
        assert(x[b.len() as int] == a[b.len() as int]);
    } else {
        assert(a =~= x.subrange(0, a.len() as int));
        assert(b =~= y.subrange(0, b.len() as int));
        assert(r1 =~= x.subrange((a.len() + 1) as int, x.len() as int));
        assert(r2 =~= y.subrange((b.len() + 1) as int, y.len() as int));
    }
}

proof fn lemma_cidr_text_shape(d: Seq<Seq<char>>)
    requires
        d.len() == 5,
    ensures
        d[0] + seq!['.'] + d[1] + seq!['.'] + d[2] + seq!['.'] + d[3] + seq!['/'] + d[4] == d[0]
            + seq!['.'] + (d[1] + seq!['.'] + (d[2] + seq!['.'] + (d[3] + seq!['/'] + d[4]))),
{
    assert(d[0] + seq!['.'] + d[1] + seq!['.'] + d[2] + seq!['.'] + d[3] + seq!['/'] + d[4] =~= d[0]
        + seq!['.'] + (d[1] + seq!['.'] + (d[2] + seq!['.'] + (d[3] + seq!['/'] + d[4]))));
}

/// A text in CIDR notation is cut into its fields in one way only.
pub proof fn lemma_cidr_split_unique(s: Seq<char>, d: Seq<Seq<char>>, e: Seq<Seq<char>>)
    requires
        is_cidr_split(s, d),
        is_cidr_split(s, e),
    ensures
        d == e,
{
    assert(!is_digit('.') && !is_digit('/'));
    lemma_cidr_text_shape(d);
    lemma_cidr_text_shape(e);
    let dr3 = d[3] + seq!['/'] + d[4];
    let er3 = e[3] + seq!['/'] + e[4];
    let dr2 = d[2] + seq!['.'] + dr3;
    let er2 = e[2] + seq!['.'] + er3;
    let dr1 = d[1] + seq!['.'] + dr2;
    let er1 = e[1] + seq!['.'] + er2;
    assert(is_number(d[0], 3, 256) && is_number(e[0], 3, 256));
    assert(is_number(d[1], 3, 256) && is_number(e[1], 3, 256));
    assert(is_number(d[2], 3, 256) && is_number(e[2], 3, 256));
    assert(is_number(d[3], 3, 256) && is_number(e[3], 3, 256));
    lemma_digit_run_unique(d[0], dr1, e[0], er1, '.');
    lemma_digit_run_unique(d[1], dr2, e[1], er2, '.');
    lemma_digit_run_unique(d[2], dr3, e[2], er3, '.');
    lemma_digit_run_unique(d[3], d[4], e[3], e[4], '/');
    assert(d =~= e);
}

/// The arithmetic facts about a network that the rest of the crate uses.
pub proof fn lemma_network_bounds(a: u32, p: nat)
    requires
        p <= 32,
    ensures
        block_size(p) >= 1,
        block_size(p) * pow2(p) == 0x1_0000_0000,
        0 <= network_addr(a, p) <= a,
        network_addr(a, p) % (block_size(p) as int) == 0,
        network_addr(a, p) + block_size(p) <= 0x1_0000_0000,
        p <= 30 ==> block_size(p) >= 4,
        0 <= netmask_of(p) < 0x1_0000_0000,
{
    let b = block_size(p) as int;
    lemma_pow2_pos((32 - p) as nat);
    lemma_pow2_adds((32 - p) as nat, p);
    lemma2_to64();
    assert(((32 - p) as nat + p) as nat == 32nat);
    let k = (a as int) / b;
    let m = pow2(p) as int;
    lemma_fundamental_div_mod(a as int, b);
    lemma_mod_bound(a as int, b);
    assert(network_addr(a, p) == b * k);
    assert(k >= 0) by (nonlinear_arith)
        requires
            b > 0,
            a >= 0,
            k == (a as int) / b,
    ;
    assert((b * k) % b == 0) by (nonlinear_arith)
        requires
            b > 0,
            k >= 0,
    ;
    assert(b * k + b <= 0x1_0000_0000) by (nonlinear_arith)
        requires
            b > 0,
            k >= 0,
            b * k <= a,
            a < 0x1_0000_0000,
            b * m == 0x1_0000_0000,
    ;
    if p <= 30 {
        if p < 30 {
            lemma_pow2_strictly_increases(2, (32 - p) as nat);
        }
    }
}

/// Renders an address in dotted-decimal form.
pub fn ipv4_to_string(a: u32) -> (s: String)
    ensures
        s@ == ipv4_text(a),
{
    let mut s = u32_to_decimal(a / 0x100_0000);
    push_char(&mut s, '.');
    let t = u32_to_decimal((a / 0x1_0000) % 0x100);
    s.append(t.as_str());
    push_char(&mut s, '.');
    let t = u32_to_decimal((a / 0x100) % 0x100);
    s.append(t.as_str());
    push_char(&mut s, '.');
    let t = u32_to_decimal(a % 0x100);
    s.append(t.as_str());
    s
}

/// Parses a network in CIDR notation with `ipnet::Ipv4Net`'s `FromStr`
/// (`str::parse::<ipnet::Ipv4Net>`). Claimed, not proved: the parser
/// accepts exactly the texts of `is_cidr_split` (four octets of at most
/// three digits below 256, dots, a slash, a prefix of at most two digits
/// not above 32, nothing else) and keeps the address as written, host bits
/// included.
#[verifier::external_body]
pub(crate) fn parse_ipv4_net(s: &str) -> (r: Option<Ipv4Subnet>)
    ensures
        match r {
            Some(n) => cidr_parse(s@) == Some((n.addr, n.prefix_len)),
            None => cidr_parse(s@) is None,
        },
{
    match s.parse::<ipnet::Ipv4Net>() {
        Ok(n) => Some(Ipv4Subnet { addr: u32::from(n.addr()), prefix_len: n.prefix_len() }),
        Err(_) => None,
    }
}

/// `ipnet::Ipv4Net::subnets`, collected. Claimed, not proved: it refuses
/// a prefix length shorter than the network's or longer than 32, and
/// otherwise yields, in ascending order, the `2^(new - p)` blocks of
/// `2^(32 - new)` addresses that start at the network address, each with
/// the new prefix length (as the iterator's `next` and
/// `next_ipv4_subnet` compute them).
#[verifier::external_body]
pub(crate) fn ipv4_net_subnets(net: Ipv4Subnet, new_prefix_len: u8) -> (r: Option<Vec<Ipv4Subnet>>)
    requires
        net.prefix_len <= 32,
    ensures
        r is Some <==> net.prefix_len <= new_prefix_len <= 32,
        r matches Some(v) ==> v@ == subnet_list(net.addr, net.prefix_len as nat, new_prefix_len),
{
    let n = ipnet::Ipv4Net::new(net.addr.into(), net.prefix_len).unwrap();
    match n.subnets(new_prefix_len) {
        Ok(it) => {
            let mut v = Vec::new();
            for s in it {
                v.push(Ipv4Subnet { addr: u32::from(s.addr()), prefix_len: s.prefix_len() });
            }
            Some(v)
        },
        Err(_) => None,
    }
}

/// The first `k` addresses of `ipnet::Ipv4Net::hosts`. Claimed, not
/// proved: the hosts run in ascending order from the network address plus
/// one to the broadcast address minus one, or over the whole network for
/// prefix lengths 31 and 32, and at most `k` of them come out.
#[verifier::external_body]
pub(crate) fn ipv4_net_first_hosts(net: Ipv4Subnet, k: usize) -> (v: Vec<u32>)
    requires
        net.prefix_len <= 32,
    ensures
        v@ == if k <= host_list(net.addr, net.prefix_len as nat).len() {
            host_list(net.addr, net.prefix_len as nat).take(k as int)
        } else {
            host_list(net.addr, net.prefix_len as nat)
        },
{
    let n = ipnet::Ipv4Net::new(net.addr.into(), net.prefix_len).unwrap();
    let mut v = Vec::new();
    for h in n.hosts().take(k) {
        v.push(u32::from(h));
    }
    v
}

/// `ipnet::Ipv4Net::netmask` as an address. Claimed, not proved: the mask
/// has the top `prefix_len` bits set and the others clear.
#[verifier::external_body]
pub(crate) fn ipv4_net_netmask(net: Ipv4Subnet) -> (m: u32)
    requires
        net.prefix_len <= 32,
    ensures
        m == netmask_of(net.prefix_len as nat),
{
    let n = ipnet::Ipv4Net::new(net.addr.into(), net.prefix_len).unwrap();
    u32::from(n.netmask())
}

} // verus!
