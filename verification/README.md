# unifaas

A FaaS server that runs each function in a Firecracker or QEMU virtual
machine (possibly a unikernel) or in a Docker container, proxies
`/invoke/<function>/<path>` requests to its instances and stops idle ones.

- `src/` is the verified library (Verus): which instance serves a request,
  how many requests an instance takes, when instances are stopped, the
  steps of starting an instance and of the dispatch loop with its shutdown
  sequence (`dispatcher`), the answer to a request that fails (`proxy`),
  the pool of /30 subnets and the addresses of each lease (`network`,
  `ipv4`, on top of the `ipnet` crate), the kernel command line and
  callback address of an instance (`instance`, `text`), QEMU command lines
  and the contents of Firecracker's configuration file (`vmm`), container
  settings (`docker`), the function registry and configuration
  (`registry`), the ready-callback waiters (`callback`) and the pure parts
  of TAP interface requests (`tap`).
- `app/` is the program around it: HTTP servers, the tasks that perform
  what the dispatch loop decides, processes, ioctls, Docker, JSON and TOML.
- `tests/` exercise the library on concrete values.
