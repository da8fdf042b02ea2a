//! Builder of QEMU command lines. Devices get ids `dev0`, `dev1`, ... in
//! the order in which they are added; each id is declared (`id=devK`) by
//! one argument, and, as long as the texts handed to the builders hold no
//! `id` key of their own (paths and names no `=`), by no other.

use vstd::prelude::*;

use crate::text::{decimal, lemma_decimal_digits, lemma_decimal_injective, u32_to_decimal};

verus! {

/// The QEMU program.
pub const QEMU: &'static str = "qemu-system-x86_64";

/// Text of device id number `n`.
pub open spec fn dev_id(n: nat) -> Seq<char> {
    "dev"@ + decimal(n)
}

/// Name of a virtio device of the given kind (`"blk"`, `"net"`, ...): the
/// bus-less `-device` flavour on a microvm, the PCI one otherwise.
pub open spec fn virtio_device(microvm: bool, kind: Seq<char>) -> Seq<char> {
    "virtio-"@ + kind + if microvm {
        "-device"@
    } else {
        "-pci"@
    }
}

/// Argument `arg` declares device id number `k` at `off`: it holds the
/// key `id=` with that id as value, as one of its comma-separated
/// parameters.
pub open spec fn declares_at(arg: Seq<char>, off: int, k: nat) -> bool {
    let d = "id="@ + dev_id(k);
    &&& 0 <= off
    &&& off + d.len() <= arg.len()
    &&& arg.subrange(off, off + d.len()) == d
    &&& (off == 0 || arg[off - 1] == ',')
    &&& (off + d.len() == arg.len() || arg[off + d.len()] == ',')
}

/// `s` has the key `id` at `off`: `id=` starts one of its comma-separated
/// parameters there.
pub open spec fn id_key_at(s: Seq<char>, off: int) -> bool {
    &&& 0 <= off
    &&& off + 3 <= s.len()
    &&& s[off] == 'i'
    &&& s[off + 1] == 'd'
    &&& s[off + 2] == '='
    &&& (off == 0 || s[off - 1] == ',')
}

/// `s` has no parameter with the key `id`.
pub open spec fn no_id_key(s: Seq<char>) -> bool {
    forall|off: int| !#[trigger] id_key_at(s, off)
}

/// `s` holds no `=`.
pub open spec fn no_eq_sign(s: Seq<char>) -> bool {
    forall|i: int| 0 <= i < s.len() ==> #[trigger] s[i] != '='
}

/// A text without `=` has no key at all.
pub proof fn lemma_no_eq_sign_no_id_key(s: Seq<char>)
    requires
        no_eq_sign(s),
    ensures
        no_id_key(s),
{
    assert forall|off: int| !#[trigger] id_key_at(s, off) by {
        if 0 <= off && off + 3 <= s.len() {
            assert(s[off + 2] != '=');
        }
    }
}

/// Neither of the first two characters of `s` is `=`.
pub open spec fn starts_without_eq_sign(s: Seq<char>) -> bool {
    &&& (s.len() >= 1 ==> s[0] != '=')
    &&& (s.len() >= 2 ==> s[1] != '=')
}

/// A key of `a + b` is a key of `a` or of `b`, when `b` does not start
/// with an `=` that could end a key begun in `a`.
proof fn lemma_keys_concat(a: Seq<char>, b: Seq<char>)
    requires
        starts_without_eq_sign(b),
    ensures
        forall|off: int| #[trigger] id_key_at(a + b, off) ==> id_key_at(a, off) || (off >= a.len()
            && id_key_at(b, off - a.len())),
{
    assert forall|off: int| #[trigger] id_key_at(a + b, off) implies id_key_at(a, off) || (off
        >= a.len() && id_key_at(b, off - a.len())) by {
        let s = a + b;
        if off + 3 <= a.len() {
            assert(s[off] == a[off] && s[off + 1] == a[off + 1] && s[off + 2] == a[off + 2]);
            if off > 0 {
                assert(s[off - 1] == a[off - 1]);
            }
        } else if off >= a.len() {
            let o = off - a.len();
            assert(s[off] == b[o] && s[off + 1] == b[o + 1] && s[off + 2] == b[o + 2]);
            if o > 0 {
                assert(s[off - 1] == b[o - 1]);
            }
        } else {
            assert(s[off + 2] == b[off + 2 - a.len()]);
        }
    }
}

/// Joining two texts without keys, the second not starting with `=`,
/// gives a text without keys.
pub(crate) proof fn lemma_no_key_concat(a: Seq<char>, b: Seq<char>)
    requires
        no_id_key(a),
        no_id_key(b),
        starts_without_eq_sign(b),
    ensures
        no_id_key(a + b),
{
    lemma_keys_concat(a, b);
    assert forall|off: int| !#[trigger] id_key_at(a + b, off) by {
        if id_key_at(a + b, off) {
            assert(id_key_at(a, off) || id_key_at(b, off - a.len()));
        }
    }
}

/// A decimal rendering has no `=`.
pub proof fn lemma_decimal_text(n: nat)
    ensures
        no_eq_sign(decimal(n)),
        no_id_key(decimal(n)),
        starts_without_eq_sign(decimal(n)),
{
    lemma_decimal_digits(n);
    lemma_no_eq_sign_no_id_key(decimal(n));
}

/// A device id has no `=` and starts with `d`.
proof fn lemma_dev_id_text(n: nat)
    ensures
        no_eq_sign(dev_id(n)),
        no_id_key(dev_id(n)),
        starts_without_eq_sign(dev_id(n)),
        dev_id(n).len() >= 4,
{
    reveal_strlit("dev");
    lemma_decimal_digits(n);
    let d = dev_id(n);
    assert(decimal(n).len() >= 1) by {
        if decimal(n).len() == 0 {
            reveal_with_fuel(decimal, 2);
        }
    }
    assert forall|i: int| 0 <= i < d.len() implies #[trigger] d[i] != '=' by {
        if i >= 3 {
            assert(d[i] == decimal(n)[i - 3]);
        }
    }
    lemma_no_eq_sign_no_id_key(d);
}

/// The only key of a declaring argument `pre` + `id=devN` + `post` is the
/// declaration itself.
proof fn lemma_declaring_arg_keys(pre: Seq<char>, n: nat, post: Seq<char>)
    requires
        no_id_key(pre),
        no_id_key(post),
        starts_without_eq_sign(post),
    ensures
        forall|off: int| #[trigger] id_key_at(pre + ("id="@ + dev_id(n)) + post, off) ==> off
            == pre.len(),
{
    reveal_strlit("id=");
    lemma_dev_id_text(n);
    let mid = "id="@ + dev_id(n);
    lemma_keys_concat("id="@, dev_id(n));
    assert forall|off: int| #[trigger] id_key_at(mid, off) implies off == 0 by {
        if off != 0 {
            if off >= 3 {
                assert(id_key_at(dev_id(n), off - 3));
            } else {
                assert(id_key_at("id="@, off));
            }
        }
    }
    assert(starts_without_eq_sign(mid));
    lemma_keys_concat(pre, mid);
    lemma_keys_concat(pre + mid, post);
    assert forall|off: int| #[trigger] id_key_at(pre + mid + post, off) implies off == pre.len() by {
        if id_key_at(pre + mid, off) {
            assert(id_key_at(pre, off) || id_key_at(mid, off - pre.len()));
        } else {
            assert(id_key_at(post, off - (pre + mid).len()));
        }
    }
}

/// The name of a virtio device has no `=`.
proof fn lemma_virtio_device_text(m: bool, kind: Seq<char>)
    requires
        no_eq_sign(kind),
    ensures
        no_eq_sign(virtio_device(m, kind)),
        no_id_key(virtio_device(m, kind)),
{
    reveal_strlit("virtio-");
    reveal_strlit("-device");
    reveal_strlit("-pci");
    let suffix = if m {
        "-device"@
    } else {
        "-pci"@
    };
    let v = virtio_device(m, kind);
    assert forall|i: int| 0 <= i < v.len() implies #[trigger] v[i] != '=' by {
        if i < 7 {
            assert(v[i] == "virtio-"@[i]);
        } else if i < 7 + kind.len() {
            assert(v[i] == kind[i - 7]);
        } else {
            assert(v[i] == suffix[i - 7 - kind.len()]);
        }
    }
    lemma_no_eq_sign_no_id_key(v);
}

/// A device argument `virtio-<kind>...` + `param` + `devN` has no key `id`.
proof fn lemma_device_arg(m: bool, kind: Seq<char>, param: Seq<char>, n: nat)
    requires
        no_eq_sign(kind),
        no_id_key(param),
        starts_without_eq_sign(param),
    ensures
        no_id_key(virtio_device(m, kind) + param + dev_id(n)),
{
    lemma_virtio_device_text(m, kind);
    lemma_dev_id_text(n);
    lemma_no_key_concat(virtio_device(m, kind), param);
    lemma_no_key_concat(virtio_device(m, kind) + param, dev_id(n));
}

/// Joining a text without keys and a text without `=` gives a text
/// without keys that starts as the first one does.
pub(crate) proof fn lemma_append_plain(a: Seq<char>, b: Seq<char>)
    requires
        no_id_key(a),
        a.len() >= 2,
        starts_without_eq_sign(a),
        no_eq_sign(b),
    ensures
        no_id_key(a + b),
        starts_without_eq_sign(a + b),
{
    lemma_no_eq_sign_no_id_key(b);
    lemma_no_key_concat(a, b);
    assert((a + b)[0] == a[0] && (a + b)[1] == a[1]);
}

/// The drive argument `if=none,id=devN,format=raw,file=<path>` has its
/// one key at the declaration.
proof fn lemma_drive_arg_keys(n: nat, path: Seq<char>)
    requires
        no_eq_sign(path),
    ensures
        forall|off: int| #[trigger] id_key_at("if=none,id="@ + dev_id(n) + ",format=raw,file="@ + path, off)
            ==> off == 8,
{
    reveal_strlit("if=none,id=");
    reveal_strlit("if=none,");
    reveal_strlit("id=");
    reveal_strlit(",format=raw,file=");
    let lit = ",format=raw,file="@;
    assert(no_id_key("if=none,"@));
    assert(no_id_key(lit));
    lemma_append_plain(lit, path);
    lemma_declaring_arg_keys("if=none,"@, n, lit + path);
    assert("if=none,id="@ + dev_id(n) + lit + path =~= "if=none,"@ + ("id="@ + dev_id(n)) + (lit
        + path));
}

/// The network argument `tap,id=devN,ifname=<tap>,script=no,...` has its
/// one key at the declaration.
proof fn lemma_netdev_arg_keys(n: nat, tap: Seq<char>)
    requires
        no_eq_sign(tap),
    ensures
        forall|off: int| #[trigger] id_key_at(
            "tap,id="@ + dev_id(n) + ",ifname="@ + tap + ",script=no,downscript=no"@,
            off,
        ) ==> off == 4,
{
    reveal_strlit("tap,id=");
    reveal_strlit("tap,");
    reveal_strlit("id=");
    reveal_strlit(",ifname=");
    reveal_strlit(",script=no,downscript=no");
    let l1 = ",ifname="@;
    let l2 = ",script=no,downscript=no"@;
    assert(no_id_key("tap,"@));
    assert(no_id_key(l1));
    assert(no_id_key(l2));
    lemma_append_plain(l1, tap);
    lemma_no_key_concat(l1 + tap, l2);
    let post = l1 + tap + l2;
    assert(post[0] == l1[0] && post[1] == l1[1]);
    lemma_declaring_arg_keys("tap,"@, n, post);
    assert("tap,id="@ + dev_id(n) + l1 + tap + l2 =~= "tap,"@ + ("id="@ + dev_id(n)) + post);
}

/// The 9p argument `local,security_model=passthrough,id=devN,path=<path>`
/// has its one key at the declaration.
proof fn lemma_fsdev_arg_keys(n: nat, path: Seq<char>)
    requires
        no_eq_sign(path),
    ensures
        forall|off: int| #[trigger] id_key_at(
            "local,security_model=passthrough,id="@ + dev_id(n) + ",path="@ + path,
            off,
        ) ==> off == 33,
{
    reveal_strlit("local,security_model=passthrough,id=");
    reveal_strlit("local,security_model=passthrough,");
    reveal_strlit("id=");
    reveal_strlit(",path=");
    let lit = ",path="@;
    assert(no_id_key("local,security_model=passthrough,"@));
    assert(no_id_key(lit));
    lemma_append_plain(lit, path);
    lemma_declaring_arg_keys("local,security_model=passthrough,"@, n, lit + path);
    assert("local,security_model=passthrough,id="@ + dev_id(n) + lit + path =~= "local,security_model=passthrough,"@
        + ("id="@ + dev_id(n)) + (lit + path));
}

/// The SCSI bus argument `virtio-scsi...,id=devN` has its one key at the
/// declaration.
proof fn lemma_scsi_bus_arg_keys(m: bool, n: nat)
    ensures
        forall|off: int| #[trigger] id_key_at(virtio_device(m, "scsi"@) + ",id="@ + dev_id(n), off)
            ==> off == virtio_device(m, "scsi"@).len() + 1,
{
    reveal_strlit("scsi");
    reveal_strlit(",id=");
    reveal_strlit(",");
    reveal_strlit("id=");
    let v = virtio_device(m, "scsi"@);
    lemma_virtio_device_text(m, "scsi"@);
    assert(no_id_key(","@));
    lemma_no_key_concat(v, ","@);
    lemma_declaring_arg_keys(v + ","@, n, Seq::empty());
    assert(v + ",id="@ + dev_id(n) =~= v + ","@ + ("id="@ + dev_id(n)) + Seq::<char>::empty());
}

/// Two declarations at the same place declare the same id.
proof fn lemma_declares_same(s: Seq<char>, off: int, j: nat, k: nat)
    requires
        declares_at(s, off, j),
        declares_at(s, off, k),
    ensures
        j == k,
{
    reveal_strlit("id=");
    reveal_strlit("dev");
    lemma_decimal_digits(j);
    lemma_decimal_digits(k);
    let dj = "id="@ + dev_id(j);
    let dk = "id="@ + dev_id(k);
    if dj.len() < dk.len() {
        let p = off + dj.len();
        assert(s[p] == s.subrange(off, off + dk.len())[dj.len() as int]);
        assert(dk[dj.len() as int] == decimal(k)[dj.len() - 6]);
    } else if dk.len() < dj.len() {
        let p = off + dk.len();
        assert(s[p] == s.subrange(off, off + dj.len())[dk.len() as int]);
        assert(dj[dk.len() as int] == decimal(j)[dk.len() - 6]);
    } else {
        assert(decimal(j) =~= dj.subrange(6, dj.len() as int));
        assert(decimal(k) =~= dk.subrange(6, dk.len() as int));
        lemma_decimal_injective(j, k);
    }
}

/// A declaration is a key.
proof fn lemma_declaration_is_key(s: Seq<char>, off: int, k: nat)
    requires
        declares_at(s, off, k),
    ensures
        id_key_at(s, off),
{
    reveal_strlit("id=");
    let d = "id="@ + dev_id(k);
    assert(s[off] == s.subrange(off, off + d.len())[0]);
    assert(s[off + 1] == s.subrange(off, off + d.len())[1]);
    assert(s[off + 2] == s.subrange(off, off + d.len())[2]);
}

proof fn lemma_declares_in(pre: Seq<char>, k: nat, post: Seq<char>)
    requires
        pre.len() == 0 || pre.last() == ',',
        post.len() == 0 || post[0] == ',',
    ensures
        declares_at(pre + ("id="@ + dev_id(k)) + post, pre.len() as int, k),
{
    let d = "id="@ + dev_id(k);
    let a = pre + d + post;
    assert(a.subrange(pre.len() as int, (pre.len() + d.len()) as int) =~= d);
    if pre.len() > 0 {
        assert(a[pre.len() - 1] == pre.last());
    }
    if post.len() > 0 {
        assert(a[(pre.len() + d.len()) as int] == post[0]);
    }
}

/// A QEMU command line under construction.
pub struct QemuCommand {
    is_microvm: bool,
    next_id: u32,
    args: Vec<String>,
    /// For each device id given out, the argument that declares it and
    /// where in that argument.
    decls: Ghost<Seq<(int, int)>>,
}

impl QemuCommand {
    /// Whether the machine is a microvm.
    pub closed spec fn microvm(&self) -> bool {
        self.is_microvm
    }

    /// Number of the next device id.
    pub closed spec fn next_id(&self) -> u32 {
        self.next_id
    }

    /// The arguments so far.
    pub closed spec fn args_view(&self) -> Seq<Seq<char>> {
        self.args@.map_values(|s: String| s@)
    }

    /// For each device id number given out, the index of the argument that
    /// declares it and the position of `id=` in that argument.
    pub closed spec fn declarations(&self) -> Seq<(int, int)> {
        self.decls@
    }

    /// Every device id number below `next_id` is declared where
    /// `declarations` says, and no argument declares two of them.
    pub open spec fn wf(&self) -> bool {
        &&& self.declarations().len() == self.next_id()
        &&& forall|k: int|
            0 <= k < self.next_id() ==> 0 <= (#[trigger] self.declarations()[k]).0 < self.args_view().len()
                && declares_at(
                self.args_view()[self.declarations()[k].0],
                self.declarations()[k].1,
                k as nat,
            )
        &&& forall|j: int, k: int|
            0 <= j < k < self.next_id() ==> (#[trigger] self.declarations()[j]).0 != (
            #[trigger] self.declarations()[k]).0
    }

    /// No argument has a parameter with the key `id` but the declarations
    /// of `declarations`: every `id=devK` on the command line is the one
    /// declaration of device `K`.
    pub open spec fn ids_unique(&self) -> bool {
        forall|i: int, off: int|
            0 <= i < self.args_view().len() && #[trigger] id_key_at(self.args_view()[i], off)
                ==> exists|k: int| 0 <= k < self.next_id() && #[trigger] self.declarations()[k] == (i, off)
    }

    proof fn lemma_unique_extend(&self, before: &Self)
        requires
            before.ids_unique(),
            before.next_id() <= self.next_id(),
            forall|k: int| 0 <= k < before.next_id() ==> #[trigger] self.declarations()[k] == before.declarations()[k],
            before.args_view().len() <= self.args_view().len(),
            self.args_view().subrange(0, before.args_view().len() as int) == before.args_view(),
            forall|i: int, off: int|
                before.args_view().len() <= i < self.args_view().len() && #[trigger] id_key_at(
                    self.args_view()[i],
                    off,
                ) ==> exists|k: int| before.next_id() <= k < self.next_id() && #[trigger] self.declarations()[k] == (i, off),
        ensures
            self.ids_unique(),
    {
        assert forall|i: int, off: int|
            0 <= i < self.args_view().len() && #[trigger] id_key_at(self.args_view()[i], off) implies exists|k: int|
                0 <= k < self.next_id() && #[trigger] self.declarations()[k] == (i, off) by {
            if i < before.args_view().len() {
                assert(self.args_view()[i] == self.args_view().subrange(0, before.args_view().len() as int)[i]);
                assert(id_key_at(before.args_view()[i], off));
                let k = choose|k: int| 0 <= k < before.next_id() && #[trigger] before.declarations()[k] == (i, off);
                assert(self.declarations()[k] == (i, off));
            } else {
                let k = choose|k: int| before.next_id() <= k < self.next_id() && #[trigger] self.declarations()[k] == (i, off);
                assert(0 <= k < self.next_id());
            }
        }
    }

    proof fn lemma_wf_grow(&self, before: &Self)
        requires
            before.wf(),
            self.next_id() == before.next_id(),
            self.declarations() == before.declarations(),
            before.args_view().len() <= self.args_view().len(),
            self.args_view().subrange(0, before.args_view().len() as int) == before.args_view(),
        ensures
            self.wf(),
    {
        assert forall|k: int| 0 <= k < self.next_id() implies 0 <= (
        #[trigger] self.declarations()[k]).0 < self.args_view().len() && declares_at(
            self.args_view()[self.declarations()[k].0],
            self.declarations()[k].1,
            k as nat,
        ) by {
            let i = before.declarations()[k].0;
            assert(before.args_view()[i] == self.args_view().subrange(0, before.args_view().len() as int)[i]);
        }
    }

    proof fn lemma_wf_declare(&self, before: &Self, i: int, off: int)
        requires
            before.wf(),
            self.next_id() == before.next_id() + 1,
            self.declarations() == before.declarations().push((i, off)),
            before.args_view().len() <= i < self.args_view().len(),
            self.args_view().subrange(0, before.args_view().len() as int) == before.args_view(),
            declares_at(self.args_view()[i], off, before.next_id() as nat),
        ensures
            self.wf(),
    {
        assert forall|k: int| 0 <= k < self.next_id() implies 0 <= (
        #[trigger] self.declarations()[k]).0 < self.args_view().len() && declares_at(
            self.args_view()[self.declarations()[k].0],
            self.declarations()[k].1,
            k as nat,
        ) by {
            if k < before.next_id() {
                let j = before.declarations()[k].0;
                assert(self.declarations()[k] == before.declarations()[k]);
                assert(before.args_view()[j] == self.args_view().subrange(
                    0,
                    before.args_view().len() as int,
                )[j]);
            }
        }
        assert forall|j: int, k: int| 0 <= j < k < self.next_id() implies (
        #[trigger] self.declarations()[j]).0 != (#[trigger] self.declarations()[k]).0 by {
            assert(self.declarations()[j] == before.declarations()[j]);
            if k < before.next_id() {
                assert(self.declarations()[k] == before.declarations()[k]);
            }
        }
    }

    /// An empty command line for a microvm or for a full machine.
    pub fn new(microvm: bool) -> (q: Self)
        ensures
            q.wf(),
            q.ids_unique(),
            q.microvm() == microvm,
            q.next_id() == 0,
            q.args_view() == Seq::<Seq<char>>::empty(),
    {
        let q = QemuCommand {
            is_microvm: microvm,
            next_id: 0,
            args: Vec::new(),
            decls: Ghost(Seq::empty()),
        };
        assert(q.args_view() =~= Seq::<Seq<char>>::empty());
        q
    }

    /// The arguments, in order.
    pub fn into_args(self) -> (v: Vec<String>)
        ensures
            v@.map_values(|s: String| s@) == self.args_view(),
    {
        self.args
    }

    fn push_arg(&mut self, a: String)
        ensures
            final(self).args_view() == old(self).args_view().push(a@),
            final(self).microvm() == old(self).microvm(),
            final(self).next_id() == old(self).next_id(),
            final(self).declarations() == old(self).declarations(),
    {
        self.args.push(a);
        assert(self.args_view() =~= old(self).args_view().push(a@));
    }

    fn new_device_id(&mut self) -> (id: String)
        requires
            old(self).next_id() < u32::MAX,
        ensures
            id@ == dev_id(old(self).next_id() as nat),
            final(self).next_id() == old(self).next_id() + 1,
            final(self).microvm() == old(self).microvm(),
            final(self).args_view() == old(self).args_view(),
            final(self).declarations() == old(self).declarations(),
    {
        let n = self.next_id;
        self.next_id = n + 1;
        let mut id = String::from_str("dev");
        let d = u32_to_decimal(n);
        id.append(d.as_str());
        id
    }

    fn device_name(&self, kind: &str) -> (name: String)
        ensures
            name@ == virtio_device(self.microvm(), kind@),
    {
        let mut name = String::from_str("virtio-");
        name.append(kind);
        if self.is_microvm {
            name.append("-device");
        } else {
            name.append("-pci");
        }
        name
    }

    /// Adds a raw disk image as a virtio block device.
    pub fn with_virtio_blk(self, path: &str) -> (q: Self)
        requires
            self.wf(),
            self.next_id() < u32::MAX,
        ensures
            q.wf(),
            self.ids_unique() && no_eq_sign(path@) ==> q.ids_unique(),
            q.microvm() == self.microvm(),
            q.next_id() == self.next_id() + 1,
            q.declarations() == self.declarations().push(((self.args_view().len() + 1) as int, 8)),
            q.args_view() == self.args_view() + seq![
                "-drive"@,
                "if=none,id="@ + dev_id(self.next_id() as nat) + ",format=raw,file="@ + path@,
                "-device"@,
                virtio_device(self.microvm(), "blk"@) + ",drive="@ + dev_id(self.next_id() as nat),
            ],
    {
        let ghost s0 = self;
        let ghost start = self.args_view();
        let ghost n0 = self.next_id();
        let ghost m0 = self.microvm();
        let mut this = self;
        let id = this.new_device_id();
        let name = this.device_name("blk");
        let mut drv = String::from_str("if=none,id=");
        drv.append(id.as_str());
        drv.append(",format=raw,file=");
        drv.append(path);
        let mut dev = name;
        dev.append(",drive=");
        dev.append(id.as_str());
        this.push_arg(String::from_str("-drive"));
        this.push_arg(drv);
        this.push_arg(String::from_str("-device"));
        this.push_arg(dev);
        this.decls = Ghost(this.decls@.push(((start.len() + 1) as int, 8)));
        assert(this.args_view() =~= start + seq![
            "-drive"@,
            "if=none,id="@ + dev_id(n0 as nat) + ",format=raw,file="@ + path@,
            "-device"@,
            virtio_device(m0, "blk"@) + ",drive="@ + dev_id(n0 as nat),
        ]);
        proof {
            reveal_strlit("if=none,id=");
            reveal_strlit("if=none,");
            reveal_strlit("id=");
            reveal_strlit(",format=raw,file=");
            let post = ",format=raw,file="@ + path@;
            lemma_declares_in("if=none,"@, n0 as nat, post);
            assert(this.args_view()[(start.len() + 1) as int] =~= "if=none,"@ + ("id="@ + dev_id(n0 as nat)) + post);
            assert(this.args_view().subrange(0, start.len() as int) =~= start);
            this.lemma_wf_declare(&s0, (start.len() + 1) as int, 8);
            if s0.ids_unique() && no_eq_sign(path@) {
                lemma_drive_arg_keys(n0 as nat, path@);
                reveal_strlit("blk");
                reveal_strlit(",drive=");
                reveal_strlit("-drive");
                reveal_strlit("-device");
                assert(no_id_key(",drive="@));
                lemma_device_arg(m0, "blk"@, ",drive="@, n0 as nat);
                lemma_no_eq_sign_no_id_key("-drive"@);
                lemma_no_eq_sign_no_id_key("-device"@);
                assert forall|i: int, off: int|
                    s0.args_view().len() <= i < this.args_view().len() && #[trigger] id_key_at(
                        this.args_view()[i],
                        off,
                    ) implies exists|k: int|
                    s0.next_id() <= k < this.next_id() && #[trigger] this.declarations()[k] == (i, off) by {
                    if i == start.len() + 1 {
                        assert(this.declarations()[n0 as int] == (i, off));
                    } else if i == start.len() {
                        assert(this.args_view()[i] == "-drive"@);
                    } else if i == start.len() + 2 {
                        assert(this.args_view()[i] == "-device"@);
                    } else {
                        assert(this.args_view()[i] == virtio_device(m0, "blk"@) + ",drive="@ + dev_id(n0 as nat));
                    }
                }
                this.lemma_unique_extend(&s0);
            }
        }
        this
    }

    /// Adds a virtio network device on the TAP interface `tap`.
    pub fn with_virtio_net(self, tap: &str) -> (q: Self)
        requires
            self.wf(),
            self.next_id() < u32::MAX,
        ensures
            q.wf(),
            self.ids_unique() && no_eq_sign(tap@) ==> q.ids_unique(),
            q.microvm() == self.microvm(),
            q.next_id() == self.next_id() + 1,
            q.declarations() == self.declarations().push(((self.args_view().len() + 1) as int, 4)),
            q.args_view() == self.args_view() + seq![
                "-netdev"@,
                "tap,id="@ + dev_id(self.next_id() as nat) + ",ifname="@ + tap@
                    + ",script=no,downscript=no"@,
                "-device"@,
                virtio_device(self.microvm(), "net"@) + ",netdev="@ + dev_id(self.next_id() as nat),
            ],
    {
        let ghost s0 = self;
        let ghost start = self.args_view();
        let ghost n0 = self.next_id();
        let ghost m0 = self.microvm();
        let mut this = self;
        let id = this.new_device_id();
        let name = this.device_name("net");
        let mut net = String::from_str("tap,id=");
        net.append(id.as_str());
        net.append(",ifname=");
        net.append(tap);
        net.append(",script=no,downscript=no");
        let mut dev = name;
        dev.append(",netdev=");
        dev.append(id.as_str());
        this.push_arg(String::from_str("-netdev"));
        this.push_arg(net);
        this.push_arg(String::from_str("-device"));
        this.push_arg(dev);
        this.decls = Ghost(this.decls@.push(((start.len() + 1) as int, 4)));
        assert(this.args_view() =~= start + seq![
            "-netdev"@,
            "tap,id="@ + dev_id(n0 as nat) + ",ifname="@ + tap@
                + ",script=no,downscript=no"@,
            "-device"@,
            virtio_device(m0, "net"@) + ",netdev="@ + dev_id(n0 as nat),
        ]);
        proof {
            reveal_strlit("tap,id=");
            reveal_strlit("tap,");
            reveal_strlit("id=");
            reveal_strlit(",ifname=");
            let post = ",ifname="@ + tap@ + ",script=no,downscript=no"@;
            lemma_declares_in("tap,"@, n0 as nat, post);
            assert(this.args_view()[(start.len() + 1) as int] =~= "tap,"@ + ("id="@ + dev_id(n0 as nat)) + post);
            assert(this.args_view().subrange(0, start.len() as int) =~= start);
            this.lemma_wf_declare(&s0, (start.len() + 1) as int, 4);
            if s0.ids_unique() && no_eq_sign(tap@) {
                lemma_netdev_arg_keys(n0 as nat, tap@);
                reveal_strlit("net");
                reveal_strlit(",netdev=");
                reveal_strlit("-netdev");
                reveal_strlit("-device");
                assert(no_id_key(",netdev="@));
                lemma_device_arg(m0, "net"@, ",netdev="@, n0 as nat);
                lemma_no_eq_sign_no_id_key("-netdev"@);
                lemma_no_eq_sign_no_id_key("-device"@);
                assert forall|i: int, off: int|
                    s0.args_view().len() <= i < this.args_view().len() && #[trigger] id_key_at(
                        this.args_view()[i],
                        off,
                    ) implies exists|k: int|
                    s0.next_id() <= k < this.next_id() && #[trigger] this.declarations()[k] == (i, off) by {
                    if i == start.len() + 1 {
                        assert(this.declarations()[n0 as int] == (i, off));
                    } else if i == start.len() {
                        assert(this.args_view()[i] == "-netdev"@);
                    } else if i == start.len() + 2 {
                        assert(this.args_view()[i] == "-device"@);
                    } else {
                        assert(this.args_view()[i] == virtio_device(m0, "net"@) + ",netdev="@ + dev_id(n0 as nat));
                    }
                }
                this.lemma_unique_extend(&s0);
            }
        }
        this
    }

    /// Adds a raw disk image as a SCSI disk behind a virtio SCSI controller.
    pub fn with_virtio_scsi(self, path: &str) -> (q: Self)
        requires
            self.wf(),
            self.next_id() < u32::MAX - 1,
        ensures
            q.wf(),
            self.ids_unique() && no_eq_sign(path@) ==> q.ids_unique(),
            q.microvm() == self.microvm(),
            q.next_id() == self.next_id() + 2,
            q.declarations() == self.declarations().push(((self.args_view().len() + 1) as int, 8)).push(
                ((self.args_view().len() + 3) as int, (virtio_device(self.microvm(), "scsi"@).len() + 1) as int),
            ),
            q.args_view() == self.args_view() + seq![
                "-drive"@,
                "if=none,id="@ + dev_id(self.next_id() as nat) + ",format=raw,file="@ + path@,
                "-device"@,
                virtio_device(self.microvm(), "scsi"@) + ",id="@ + dev_id((self.next_id() + 1) as nat),
                "-device"@,
                "scsi-hd,drive="@ + dev_id(self.next_id() as nat),
            ],
    {
        let ghost s0 = self;
        let ghost start = self.args_view();
        let ghost n0 = self.next_id();
        let ghost m0 = self.microvm();
        let mut this = self;
        let id = this.new_device_id();
        let name = this.device_name("scsi");
        let mut drv = String::from_str("if=none,id=");
        drv.append(id.as_str());
        drv.append(",format=raw,file=");
        drv.append(path);
        this.push_arg(String::from_str("-drive"));
        this.push_arg(drv);
        this.decls = Ghost(this.decls@.push(((start.len() + 1) as int, 8)));
        proof {
            reveal_strlit("if=none,id=");
            reveal_strlit("if=none,");
            reveal_strlit("id=");
            reveal_strlit(",format=raw,file=");
            let post = ",format=raw,file="@ + path@;
            lemma_declares_in("if=none,"@, n0 as nat, post);
            assert(this.args_view()[(start.len() + 1) as int] =~= "if=none,"@ + ("id="@ + dev_id(n0 as nat)) + post);
            assert(this.args_view().subrange(0, start.len() as int) =~= start);
            this.lemma_wf_declare(&s0, (start.len() + 1) as int, 8);
        }
        let ghost s1 = this;
        let ghost mid = this.args_view();
        let bus_id = this.new_device_id();
        let mut bus = name;
        bus.append(",id=");
        bus.append(bus_id.as_str());
        this.push_arg(String::from_str("-device"));
        this.push_arg(bus);
        let ghost off = (virtio_device(m0, "scsi"@).len() + 1) as int;
        this.decls = Ghost(this.decls@.push(((start.len() + 3) as int, off)));
        proof {
            reveal_strlit(",id=");
            reveal_strlit(",");
            let pre = virtio_device(m0, "scsi"@) + ","@;
            lemma_declares_in(pre, (n0 + 1) as nat, Seq::empty());
            assert(this.args_view()[(start.len() + 3) as int] =~= pre + ("id="@ + dev_id((n0 + 1) as nat))
                + Seq::<char>::empty());
            assert(this.args_view().subrange(0, mid.len() as int) =~= mid);
            this.lemma_wf_declare(&s1, (start.len() + 3) as int, off);
        }
        let ghost s2 = this;
        let ghost mid2 = this.args_view();
        let mut dev = String::from_str("scsi-hd,drive=");
        dev.append(id.as_str());
        this.push_arg(String::from_str("-device"));
        this.push_arg(dev);
        proof {
            assert(this.args_view().subrange(0, mid2.len() as int) =~= mid2);
            this.lemma_wf_grow(&s2);
        }
        assert(this.args_view() =~= start + seq![
            "-drive"@,
            "if=none,id="@ + dev_id(n0 as nat) + ",format=raw,file="@ + path@,
            "-device"@,
            virtio_device(m0, "scsi"@) + ",id="@ + dev_id((n0 + 1) as nat),
            "-device"@,
            "scsi-hd,drive="@ + dev_id(n0 as nat),
        ]);
        proof {
            if s0.ids_unique() && no_eq_sign(path@) {
                assert(this.args_view().subrange(0, start.len() as int) =~= start);
                assert(this.declarations()[n0 as int] == ((start.len() + 1) as int, 8int));
                assert(this.declarations()[n0 + 1] == ((start.len() + 3) as int, off));
                lemma_drive_arg_keys(n0 as nat, path@);
                lemma_scsi_bus_arg_keys(m0, (n0 + 1) as nat);
                reveal_strlit("scsi-hd,drive=");
                reveal_strlit("-drive");
                reveal_strlit("-device");
                assert(no_id_key("scsi-hd,drive="@));
                lemma_dev_id_text(n0 as nat);
                lemma_no_key_concat("scsi-hd,drive="@, dev_id(n0 as nat));
                lemma_no_eq_sign_no_id_key("-drive"@);
                lemma_no_eq_sign_no_id_key("-device"@);
                assert forall|i: int, off2: int|
                    s0.args_view().len() <= i < this.args_view().len() && #[trigger] id_key_at(
                        this.args_view()[i],
                        off2,
                    ) implies exists|k: int|
                    s0.next_id() <= k < this.next_id() && #[trigger] this.declarations()[k] == (i, off2) by {
                    if i == start.len() + 1 {
                        assert(this.declarations()[n0 as int] == (i, off2));
                    } else if i == start.len() + 3 {
                        assert(this.declarations()[n0 + 1] == (i, off2));
                    } else if i == start.len() {
                        assert(this.args_view()[i] == "-drive"@);
                    } else if i == start.len() + 2 || i == start.len() + 4 {
                        assert(this.args_view()[i] == "-device"@);
                    } else {
                        assert(this.args_view()[i] == "scsi-hd,drive="@ + dev_id(n0 as nat));
                    }
                }
                this.lemma_unique_extend(&s0);
            }
        }
        this
    }

    /// Shares the host directory `path` over virtio-9p under `mount_tag`.
    pub fn with_virtio_9p(self, path: &str, mount_tag: &str) -> (q: Self)
        requires
            self.wf(),
            self.next_id() < u32::MAX,
        ensures
            q.wf(),
            self.ids_unique() && no_eq_sign(path@) && no_eq_sign(mount_tag@) ==> q.ids_unique(),
            q.microvm() == self.microvm(),
            q.next_id() == self.next_id() + 1,
            q.declarations() == self.declarations().push(((self.args_view().len() + 1) as int, 33)),
            q.args_view() == self.args_view() + seq![
                "-fsdev"@,
                "local,security_model=passthrough,id="@ + dev_id(self.next_id() as nat) + ",path="@
                    + path@,
                "-device"@,
                virtio_device(self.microvm(), "9p"@) + ",fsdev="@ + dev_id(self.next_id() as nat)
                    + ",mount_tag="@ + mount_tag@,
            ],
    {
        let ghost s0 = self;
        let ghost start = self.args_view();
        let ghost n0 = self.next_id();
        let ghost m0 = self.microvm();
        let mut this = self;
        let id = this.new_device_id();
        let name = this.device_name("9p");
        let mut drv = String::from_str("local,security_model=passthrough,id=");
        drv.append(id.as_str());
        drv.append(",path=");
        drv.append(path);
        let mut dev = name;
        dev.append(",fsdev=");
        dev.append(id.as_str());
        dev.append(",mount_tag=");
        dev.append(mount_tag);
        this.push_arg(String::from_str("-fsdev"));
        this.push_arg(drv);
        this.push_arg(String::from_str("-device"));
        this.push_arg(dev);
        this.decls = Ghost(this.decls@.push(((start.len() + 1) as int, 33)));
        assert(this.args_view() =~= start + seq![
            "-fsdev"@,
            "local,security_model=passthrough,id="@ + dev_id(n0 as nat) + ",path="@
                + path@,
            "-device"@,
            virtio_device(m0, "9p"@) + ",fsdev="@ + dev_id(n0 as nat)
                + ",mount_tag="@ + mount_tag@,
        ]);
        proof {
            reveal_strlit("local,security_model=passthrough,id=");
            reveal_strlit("local,security_model=passthrough,");
            reveal_strlit("id=");
            reveal_strlit(",path=");
            let post = ",path="@ + path@;
            lemma_declares_in("local,security_model=passthrough,"@, n0 as nat, post);
            assert(this.args_view()[(start.len() + 1) as int] =~= "local,security_model=passthrough,"@ + (
            "id="@ + dev_id(n0 as nat)) + post);
            assert(this.args_view().subrange(0, start.len() as int) =~= start);
            this.lemma_wf_declare(&s0, (start.len() + 1) as int, 33);
            if s0.ids_unique() && no_eq_sign(path@) && no_eq_sign(mount_tag@) {
                lemma_fsdev_arg_keys(n0 as nat, path@);
                reveal_strlit("9p");
                reveal_strlit(",fsdev=");
                reveal_strlit(",mount_tag=");
                reveal_strlit("-fsdev");
                reveal_strlit("-device");
                assert(no_id_key(",fsdev="@));
                assert(no_id_key(",mount_tag="@));
                lemma_device_arg(m0, "9p"@, ",fsdev="@, n0 as nat);
                lemma_append_plain(",mount_tag="@, mount_tag@);
                lemma_no_key_concat(
                    virtio_device(m0, "9p"@) + ",fsdev="@ + dev_id(n0 as nat),
                    ",mount_tag="@ + mount_tag@,
                );
                assert(virtio_device(m0, "9p"@) + ",fsdev="@ + dev_id(n0 as nat) + ",mount_tag="@
                    + mount_tag@ =~= virtio_device(m0, "9p"@) + ",fsdev="@ + dev_id(n0 as nat) + (
                ",mount_tag="@ + mount_tag@));
                lemma_no_eq_sign_no_id_key("-fsdev"@);
                lemma_no_eq_sign_no_id_key("-device"@);
                assert forall|i: int, off: int|
                    s0.args_view().len() <= i < this.args_view().len() && #[trigger] id_key_at(
                        this.args_view()[i],
                        off,
                    ) implies exists|k: int|
                    s0.next_id() <= k < this.next_id() && #[trigger] this.declarations()[k] == (i, off) by {
                    if i == start.len() + 1 {
                        assert(this.declarations()[n0 as int] == (i, off));
                    } else if i == start.len() {
                        assert(this.args_view()[i] == "-fsdev"@);
                    } else if i == start.len() + 2 {
                        assert(this.args_view()[i] == "-device"@);
                    } else {
                        assert(this.args_view()[i] == virtio_device(m0, "9p"@) + ",fsdev="@ + dev_id(n0 as nat)
                            + ",mount_tag="@ + mount_tag@);
                    }
                }
                this.lemma_unique_extend(&s0);
            }
        }
        this
    }

    /// Turns on KVM acceleration.
    pub fn with_kvm(self) -> (q: Self)
        requires
            self.wf(),
        ensures
            q.wf(),
            self.ids_unique() ==> q.ids_unique(),
            q.microvm() == self.microvm(),
            q.next_id() == self.next_id(),
            q.declarations() == self.declarations(),
            q.args_view() == self.args_view().push("-enable-kvm"@),
    {
        let ghost s0 = self;
        let mut this = self;
        this.push_arg(String::from_str("-enable-kvm"));
        proof {
            assert(this.args_view().subrange(0, s0.args_view().len() as int) =~= s0.args_view());
            this.lemma_wf_grow(&s0);
            reveal_strlit("-enable-kvm");
            lemma_no_eq_sign_no_id_key("-enable-kvm"@);
            if s0.ids_unique() && true {
                assert forall|i: int, off: int|
                    s0.args_view().len() <= i < this.args_view().len() && #[trigger] id_key_at(
                        this.args_view()[i],
                        off,
                    ) implies exists|k: int|
                    s0.next_id() <= k < this.next_id() && #[trigger] this.declarations()[k] == (i, off) by {
                    assert(this.args_view()[i] == "-enable-kvm"@);
                }
                this.lemma_unique_extend(&s0);
            }
        }
        this
    }

    /// Sets the memory size in MiB.
    pub fn with_mem(self, mb: u32) -> (q: Self)
        requires
            self.wf(),
        ensures
            q.wf(),
            self.ids_unique() ==> q.ids_unique(),
            q.microvm() == self.microvm(),
            q.next_id() == self.next_id(),
            q.declarations() == self.declarations(),
            q.args_view() == self.args_view() + seq!["-m"@, decimal(mb as nat)],
    {
        let m = u32_to_decimal(mb);
        proof {
            reveal_strlit("-m");
            lemma_no_eq_sign_no_id_key("-m"@);
            lemma_decimal_text(mb as nat);
        }
        self.with_option_val("-m", m.as_str())
    }

    /// Appends arguments as they are.
    pub fn with_raw_args(self, args: Vec<String>) -> (q: Self)
        requires
            self.wf(),
        ensures
            q.wf(),
            self.ids_unique() && (forall|i: int| 0 <= i < args@.len() ==> no_id_key(#[trigger] args@[i]@))
                ==> q.ids_unique(),
            q.microvm() == self.microvm(),
            q.next_id() == self.next_id(),
            q.declarations() == self.declarations(),
            q.args_view() == self.args_view() + args@.map_values(|s: String| s@),
    {
        let ghost s0 = self;
        let ghost start = self.args_view();
        let ghost extra = args@;
        let mut this = self;
        let mut args = args;
        this.args.append(&mut args);
        assert(this.args_view() =~= start + extra.map_values(|s: String| s@));
        proof {
            assert(this.args_view().subrange(0, start.len() as int) =~= start);
            this.lemma_wf_grow(&s0);
            if s0.ids_unique() && (forall|j: int| 0 <= j < extra.len() ==> no_id_key(#[trigger] extra[j]@)) {
                assert forall|i: int, off: int|
                    s0.args_view().len() <= i < this.args_view().len() && #[trigger] id_key_at(
                        this.args_view()[i],
                        off,
                    ) implies exists|k: int|
                    s0.next_id() <= k < this.next_id() && #[trigger] this.declarations()[k] == (i, off) by {
                    assert(this.args_view()[i] == extra[i - start.len()]@);
                }
                this.lemma_unique_extend(&s0);
            }
        }
        this
    }

    /// Appends an option with its value.
    pub fn with_option_val(self, key: &str, value: &str) -> (q: Self)
        requires
            self.wf(),
        ensures
            q.wf(),
            self.ids_unique() && no_id_key(key@) && no_id_key(value@) ==> q.ids_unique(),
            q.microvm() == self.microvm(),
            q.next_id() == self.next_id(),
            q.declarations() == self.declarations(),
            q.args_view() == self.args_view() + seq![key@, value@],
    {
        let ghost s0 = self;
        let ghost start = self.args_view();
        let mut this = self;
        this.push_arg(key.to_owned());
        this.push_arg(value.to_owned());
        assert(this.args_view() =~= start + seq![key@, value@]);
        proof {
            assert(this.args_view().subrange(0, start.len() as int) =~= start);
            this.lemma_wf_grow(&s0);
            if s0.ids_unique() && no_id_key(key@) && no_id_key(value@) {
                assert forall|i: int, off: int|
                    s0.args_view().len() <= i < this.args_view().len() && #[trigger] id_key_at(
                        this.args_view()[i],
                        off,
                    ) implies exists|k: int|
                    s0.next_id() <= k < this.next_id() && #[trigger] this.declarations()[k] == (i, off) by {
                    assert(this.args_view()[i] == key@ || this.args_view()[i] == value@);
                }
                this.lemma_unique_extend(&s0);
            }
        }
        this
    }

    /// Appends an option without value.
    pub fn with_option(self, key: &str) -> (q: Self)
        requires
            self.wf(),
        ensures
            q.wf(),
            self.ids_unique() && no_id_key(key@) ==> q.ids_unique(),
            q.microvm() == self.microvm(),
            q.next_id() == self.next_id(),
            q.declarations() == self.declarations(),
            q.args_view() == self.args_view().push(key@),
    {
        let ghost s0 = self;
        let mut this = self;
        this.push_arg(key.to_owned());
        proof {
            assert(this.args_view().subrange(0, s0.args_view().len() as int) =~= s0.args_view());
            this.lemma_wf_grow(&s0);
            if s0.ids_unique() && no_id_key(key@) {
                assert forall|i: int, off: int|
                    s0.args_view().len() <= i < this.args_view().len() && #[trigger] id_key_at(
                        this.args_view()[i],
                        off,
                    ) implies exists|k: int|
                    s0.next_id() <= k < this.next_id() && #[trigger] this.declarations()[k] == (i, off) by {
                    assert(this.args_view()[i] == key@);
                }
                this.lemma_unique_extend(&s0);
            }
        }
        this
    }

    /// Sets the kernel command line.
    pub fn with_cmdline(self, cmdline: &str) -> (q: Self)
        requires
            self.wf(),
        ensures
            q.wf(),
            self.ids_unique() && no_id_key(cmdline@) ==> q.ids_unique(),
            q.microvm() == self.microvm(),
            q.next_id() == self.next_id(),
            q.declarations() == self.declarations(),
            q.args_view() == self.args_view() + seq!["-append"@, cmdline@],
    {
        proof {
            reveal_strlit("-append");
            lemma_no_eq_sign_no_id_key("-append"@);
        }
        self.with_option_val("-append", cmdline)
    }

    /// Sets the kernel image for direct kernel boot.
    pub fn with_kernel(self, path: &str) -> (q: Self)
        requires
            self.wf(),
        ensures
            q.wf(),
            self.ids_unique() && no_id_key(path@) ==> q.ids_unique(),
            q.microvm() == self.microvm(),
            q.next_id() == self.next_id(),
            q.declarations() == self.declarations(),
            q.args_view() == self.args_view() + seq!["-kernel"@, path@],
    {
        proof {
            reveal_strlit("-kernel");
            lemma_no_eq_sign_no_id_key("-kernel"@);
        }
        self.with_option_val("-kernel", path)
    }
}

/// Every device of a command line has an id of its own: distinct numbers
/// give distinct ids.
pub proof fn lemma_dev_ids_distinct(n: nat, m: nat)
    requires
        n != m,
    ensures
        dev_id(n) != dev_id(m),
{
    reveal_strlit("dev");
    if dev_id(n) == dev_id(m) {
        assert(dev_id(n).subrange(3, dev_id(n).len() as int) =~= decimal(n));
        assert(dev_id(m).subrange(3, dev_id(m).len() as int) =~= decimal(m));
        lemma_decimal_injective(n, m);
    }
}

/// Each device of a command line built from `new` by the builders is
/// declared exactly where `declarations` says, each in an argument of its
/// own, and no two of them share an id: the texts of distinct ids differ.
pub proof fn lemma_device_ids_declared_once(q: &QemuCommand)
    requires
        q.wf(),
    ensures
        forall|k: int|
            0 <= k < q.next_id() ==> 0 <= (#[trigger] q.declarations()[k]).0 < q.args_view().len()
                && declares_at(q.args_view()[q.declarations()[k].0], q.declarations()[k].1, k as nat),
        forall|j: int, k: int|
            0 <= j < q.next_id() && 0 <= k < q.next_id() && j != k ==> (#[trigger] q.declarations()[j]).0
                != (#[trigger] q.declarations()[k]).0 && dev_id(j as nat) != dev_id(k as nat),
{
    assert forall|j: int, k: int|
        0 <= j < q.next_id() && 0 <= k < q.next_id() && j != k implies (
        #[trigger] q.declarations()[j]).0 != (#[trigger] q.declarations()[k]).0 && dev_id(j as nat)
            != dev_id(k as nat) by {
        lemma_dev_ids_distinct(j as nat, k as nat);
    }
}

/// On a command line whose arguments hold no `id` key but the
/// declarations that the builders make (`ids_unique`), every `id=devK`
/// in any argument is device `K`'s one declaration: `K` is below
/// `next_id` and the place is the one that `declarations` records.
pub proof fn lemma_each_id_declared_once(q: &QemuCommand)
    requires
        q.wf(),
        q.ids_unique(),
    ensures
        forall|i: int, off: int, k: nat|
            0 <= i < q.args_view().len() && #[trigger] declares_at(q.args_view()[i], off, k) ==> k
                < q.next_id() && q.declarations()[k as int] == (i, off),
{
    assert forall|i: int, off: int, k: nat|
        0 <= i < q.args_view().len() && #[trigger] declares_at(q.args_view()[i], off, k) implies k
            < q.next_id() && q.declarations()[k as int] == (i, off) by {
        lemma_declaration_is_key(q.args_view()[i], off, k);
        let j = choose|j: int| 0 <= j < q.next_id() && #[trigger] q.declarations()[j] == (i, off);
        assert(declares_at(q.args_view()[q.declarations()[j].0], q.declarations()[j].1, j as nat));
        lemma_declares_same(q.args_view()[i], off, j as nat, k);
    }
}

} // verus!
