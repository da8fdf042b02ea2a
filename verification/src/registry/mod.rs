//! The function registry: one directory per function, holding its
//! `function.toml` and, for virtual machines, its kernel and image.

use vstd::prelude::*;

pub mod config;

use config::{FunctionConfig, RuntimeConfig};

verus! {

/// `base` joined with `p` as `Path::join` does it: an absolute `p`
/// replaces `base`, otherwise a `/` is put between them unless `base` is
/// empty or already ends in one.
pub open spec fn path_join(base: Seq<char>, p: Seq<char>) -> Seq<char> {
    if p.len() > 0 && p[0] == '/' {
        p
    } else if base.len() == 0 || base.last() == '/' {
        base + p
    } else {
        base + seq!['/'] + p
    }
}

/// Joins two paths (see `path_join`).
pub fn join_path(base: &str, p: &str) -> (r: String)
    ensures
        r@ == path_join(base@, p@),
{
    let pl = p.unicode_len();
    if pl > 0 && p.get_char(0) == '/' {
        return p.to_owned();
    }
    let bl = base.unicode_len();
    let mut r = base.to_owned();
    if bl > 0 && base.get_char(bl - 1) != '/' {
        crate::text::push_char(&mut r, '/');
    }
    r.append(p);
    r
}

/// The registry rooted at a (canonical) directory.
#[derive(Debug)]
pub struct Registry {
    functions: String,
}

impl Registry {
    /// The directory of the functions.
    pub closed spec fn root(&self) -> Seq<char> {
        self.functions@
    }

    /// The registry of the functions under `functions`.
    pub fn new(functions: String) -> (r: Registry)
        ensures
            r.root() == functions@,
    {
        Registry { functions }
    }

    /// Path of the configuration file of function `name`.
    pub fn config_path(&self, name: &str) -> (p: String)
        ensures
            p@ == path_join(path_join(self.root(), name@), "function.toml"@),
    {
        let dir = join_path(self.functions.as_str(), name);
        join_path(dir.as_str(), "function.toml")
    }

    /// The configuration of function `name`, given how loading its
    /// configuration file went: a virtual machine's kernel and image are
    /// taken relative to the function's directory.
    pub fn get_function(&self, name: &str, loaded: Result<FunctionConfig, String>) -> (r: Result<
        FunctionConfig,
        String,
    >)
        ensures
            loaded matches Err(e) ==> r == Err::<FunctionConfig, String>(e),
            loaded matches Ok(c) ==> (r matches Ok(d) && d.keepalive == c.keepalive
                && d.concurrent_requests == c.concurrent_requests && d.single_use == c.single_use
                && match (c.runtime, d.runtime) {
                (RuntimeConfig::Container(a), RuntimeConfig::Container(b)) => a == b,
                (RuntimeConfig::Vm(a), RuntimeConfig::Vm(b)) => {
                    &&& b.kernel@ == path_join(path_join(self.root(), name@), a.kernel@)
                    &&& b.image@ == path_join(path_join(self.root(), name@), a.image@)
                    &&& b.cmdline == a.cmdline
                    &&& b.memory == a.memory
                    &&& b.cpus == a.cpus
                    &&& b.hypervisor == a.hypervisor
                },
                _ => false,
            }),
    {
        let mut conf = match loaded {
            Err(e) => return Err(e),
            Ok(c) => c,
        };
        match &mut conf.runtime {
            RuntimeConfig::Vm(vm) => {
                let dir = join_path(self.functions.as_str(), name);
                vm.kernel = join_path(dir.as_str(), vm.kernel.as_str());
                vm.image = join_path(dir.as_str(), vm.image.as_str());
            },
            RuntimeConfig::Container(_) => {},
        }
        Ok(conf)
    }
}

} // verus!
