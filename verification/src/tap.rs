//! TAP network interfaces: the interface handle and the pure parts of the
//! interface requests (name field of an `ifreq`, interface flags).

use vstd::prelude::*;
use vstd::string::StringSliceAdditionalSpecFns;

verus! {

/// A persistent TAP interface, known by its kernel name.
#[derive(Debug)]
pub struct Tap {
    ifname: String,
}

impl Tap {
    /// The interface name.
    pub closed spec fn name_view(&self) -> Seq<char> {
        self.ifname@
    }

    /// The handle of an interface that the kernel created under `ifname`.
    pub fn from_name(ifname: String) -> (t: Tap)
        ensures
            t.name_view() == ifname@,
    {
        Tap { ifname }
    }

    /// The interface name.
    pub fn name(&self) -> (n: &str)
        ensures
            n@ == self.name_view(),
    {
        self.ifname.as_str()
    }
}

/// Size of the name field of an interface request, NUL included.
pub const IFNAMSIZ: usize = 16;

/// Linux's `IFF_UP` interface flag.
pub const IFF_UP: i16 = 0x1;

/// Linux's `IFF_RUNNING` interface flag.
pub const IFF_RUNNING: i16 = 0x40;

/// The raw handles of an opened TAP device: its name, the file descriptor
/// of `/dev/net/tun` and a socket for interface requests.
#[derive(Debug)]
pub struct TapRaw {
    pub ifname: String,
    pub raw_fd: i32,
    pub raw_socket: i32,
}

/// The name field of an interface request holding `name`: its first
/// `IFNAMSIZ` bytes, the rest zero.
pub open spec fn ifr_name_field(name: Seq<u8>) -> Seq<u8> {
    Seq::new(IFNAMSIZ as nat, |i: int| if i < name.len() { name[i] } else { 0u8 })
}

/// The name read back from a name field: the bytes before the first NUL,
/// or the whole field when it has none.
pub open spec fn ifr_name_text(field: Seq<u8>) -> Seq<u8> {
    if exists|i: int| 0 <= i < field.len() && field[i] == 0 {
        field.take(choose|i: int| 0 <= i < field.len() && field[i] == 0 && forall|j: int| 0 <= j < i ==> field[j] != 0)
    } else {
        field
    }
}

/// Fills the name field of an interface request with `name`, cut to
/// `IFNAMSIZ` bytes.
pub fn ifr_name_from(name: &str) -> (f: Vec<u8>)
    ensures
        f@ == ifr_name_field(name.spec_bytes()),
{
    let b = name.as_bytes();
    let mut f: Vec<u8> = Vec::new();
    let mut i: usize = 0;
    while i < IFNAMSIZ
        invariant
            b@ == name.spec_bytes(),
            i <= IFNAMSIZ,
            f@ =~= ifr_name_field(name.spec_bytes()).take(i as int),
        decreases IFNAMSIZ - i,
    {
        if i < b.len() {
            f.push(b[i]);
        } else {
            f.push(0);
        }
        i += 1;
    }
    f
}

/// The name held in the name field of an interface request.
pub fn ifr_name_of(field: &[u8]) -> (n: Vec<u8>)
    ensures
        n@ == ifr_name_text(field@),
{
    let mut n: Vec<u8> = Vec::new();
    let mut i: usize = 0;
    while i < field.len()
        invariant
            i <= field.len(),
            n@ == field@.take(i as int),
            forall|j: int| 0 <= j < i ==> field@[j] != 0,
        decreases field.len() - i,
    {
        if field[i] == 0 {
            proof {
                let k = choose|k: int| 0 <= k < field@.len() && field@[k] == 0 && forall|j: int| 0 <= j < k ==> field@[j] != 0;
                if k < i {
                    assert(field@[k] != 0);
                } else if k > i {
                    assert(field@[i as int] != 0);
                }
            }
            return n;
        }
        n.push(field[i]);
        assert(field@.take(i + 1) =~= field@.take(i as int).push(field@[i as int]));
        i += 1;
    }
    assert(field@.take(field.len() as int) =~= field@);
    n
}

/// A name shorter than the field and free of NUL bytes reads back as it
/// was written.
pub proof fn lemma_ifr_name_roundtrip(name: Seq<u8>)
    requires
        name.len() < IFNAMSIZ,
        forall|i: int| 0 <= i < name.len() ==> name[i] != 0,
    ensures
        ifr_name_text(ifr_name_field(name)) == name,
{
    let f = ifr_name_field(name);
    let n = name.len() as int;
    assert(f[n] == 0);
    let k = choose|i: int| 0 <= i < f.len() && f[i] == 0 && forall|j: int| 0 <= j < i ==> f[j] != 0;
    assert(0 <= k < f.len() && f[k] == 0 && forall|j: int| 0 <= j < k ==> f[j] != 0) by {
        assert(0 <= n < f.len() && f[n] == 0 && forall|j: int| 0 <= j < n ==> f[j] != 0);
    }
    if k < n {
        assert(f[k] == name[k]);
    } else if k > n {
        assert(f[n] != 0);
    }
    assert(f.take(k) =~= name);
}

/// Flags that bring an interface up: `IFF_UP | IFF_RUNNING`.
pub fn up_flags() -> (f: i16)
    ensures
        f == IFF_UP | IFF_RUNNING,
{
    IFF_UP | IFF_RUNNING
}

/// `flags` with the up and running bits cleared and every other bit kept.
pub fn down_flags(flags: i16) -> (f: i16)
    ensures
        f & (IFF_UP | IFF_RUNNING) == 0,
        f | (IFF_UP | IFF_RUNNING) == flags | (IFF_UP | IFF_RUNNING),
{
    let m: i16 = IFF_UP | IFF_RUNNING;
    assert(0x1i16 | 0x40i16 == 0x41i16) by (bit_vector);
    assert(m == 0x41i16);
    let r = flags & !m;
    assert(r & 0x41i16 == 0 && r | 0x41i16 == flags | 0x41i16) by (bit_vector)
        requires
            r == flags & !0x41i16,
    ;
    r
}

} // verus!
