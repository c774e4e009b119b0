# tinybox

A minimal Linux sandbox runtime for running untrusted commands and AI Agent
tool calls under namespaces, cgroup limits, seccomp, dropped capabilities,
Landlock filesystem ceilings and a brokered network allowlist.

The decisions of the runtime are a library verified with Verus (`src/`);
the system calls, HTTP serving and file access around it are ordinary Rust
(`app/`).

## Layout

- `src/` — the verified library:
  - `policy` — capability descriptors, their validation and content hash;
  - `daemon` — the sandbox and task registry: creation, phase transitions
    (compare-and-swap on a generation), task authorization, removal,
    metrics;
  - `audit` — the bounded per-sandbox audit log;
  - `sandbox`, `cgroup`, `rootfs`, `oci`, `landlock`, `seccomp` — what a
    sandbox is set up with: namespace flags, cgroup files, overlay and
    volume specifications, OCI bundles, Landlock rules, the seccomp
    allow-list and capability masks;
  - `broker`, `proxy` — the network allowlist and the in-sandbox CONNECT
    proxy's parsing;
  - `task`, `exec` — tool calls inside persistent tasks and `tinybox exec`;
  - `environment`, `agent_client`, `agent_integration` — task environments
    and the Agent client;
  - `registry`, `image`, `network`, `doctor`, `cli` — image references and
    the store, bridge commands, host readiness checks, `run` flag checks;
  - `text`, `paths` — string and path helpers with their specifications.
- `tests/` — tests of the library.
- `app/` — the `tinybox` command: argument parsing, the HTTP daemon, process
  and mount work, JSON forms of the library's types.

The laws of the library are its public `law_*` proof functions.

## Collections

String-keyed maps are kept as vectors: the registry as a `Vec` of entries
with distinct ids, the audit summary's tallies as `(key, count)` pairs in
strictly increasing key order with every count positive (the order a
`BTreeMap` walks them in), and a task's merged environment as `NAME=value`
entries sorted by name.  vstd's specifications of `HashMap` hold only for
key types that `obeys_key_model`, and those of `BTreeMap` only for key types
that `obeys_cmp`; vstd establishes both for integers and `bool` (and
`obeys_cmp` for tuples and `Option` of such types), never for `String`, and
the library may not assume them.  With `String` keys no map operation's
result could be proved, so the map forms were not tried further.  The audit
log itself is a `VecDeque`, which vstd specifies for any element type.
