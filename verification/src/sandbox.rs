//! Decisions of the sandbox launcher: what a configuration must satisfy,
//! which namespaces it creates, the payload environment, and how a wait
//! status becomes an exit code.
use vstd::prelude::*;
use crate::text::{concat, chars_of, contains_char_in, contains_char, decimal, u64_to_string};
use crate::policy::{FsRule, NetworkRule, strings_view, copy_strings};
use crate::oci::NamespaceType;

verus! {

/// Everything the launcher needs to start one sandbox.  `cpus_bits` is the
/// bit pattern of the CPU count (`f64::to_bits`).
#[derive(Debug)]
pub struct SandboxConfig {
    pub cgroup_name: Option<String>,
    pub command: Vec<String>,
    pub hostname: Option<String>,
    pub rootfs: Option<String>,
    pub root_readonly: bool,
    pub env: Vec<String>,
    pub proxy: Option<String>,
    pub volumes: Vec<String>,
    pub memory: Option<u64>,
    pub cpus_bits: Option<u64>,
    pub cpu_quota: Option<i64>,
    pub cpu_period: Option<u64>,
    pub pids_limit: Option<u64>,
    pub dangerous: bool,
    pub filesystem_policy: Option<Vec<FsRule>>,
    pub network_policy: Option<Vec<NetworkRule>>,
    pub namespaces: Option<Vec<NamespaceType>>,
    pub cwd: Option<String>,
    pub uid: u32,
    pub gid: u32,
}

/// A failure inside the sandboxed child before the payload started.
#[derive(Debug)]
pub struct SetupError(pub String);

impl SetupError {
    /// `sandbox setup failed: <reason>`.
    pub fn message(&self) -> (m: String)
        ensures
            m@ == "sandbox setup failed: "@ + self.0@,
    {
        concat("sandbox setup failed: ", self.0.as_str())
    }
}

/// Why a configuration was refused before anything was created.
#[derive(Clone, Copy, PartialEq, Eq, Structural, Debug)]
pub enum SandboxError {
    NoCommand,
    /// An argument holds a NUL character and cannot be passed to `exec`.
    NulInArgument,
    VolumesNeedRootfs,
    MountNamespaceRequired,
}

/// Volumes need an isolated rootfs; an explicit namespace list must hold
/// the mount namespace.
pub open spec fn namespace_fault(volumes_empty: bool, has_rootfs: bool, namespaces: Option<Seq<NamespaceType>>) -> Option<SandboxError> {
    if !volumes_empty && !has_rootfs {
        Some(SandboxError::VolumesNeedRootfs)
    } else if namespaces is Some && !namespaces->0.contains(NamespaceType::Mount) {
        Some(SandboxError::MountNamespaceRequired)
    } else {
        None
    }
}

pub open spec fn opt_seq<T>(o: Option<Vec<T>>) -> Option<Seq<T>> {
    match o {
        Some(v) => Some(v@),
        None => None,
    }
}

/// Checks the filesystem requirements of a configuration.
pub fn validate_namespaces(config: &SandboxConfig) -> (r: Result<(), SandboxError>)
    ensures
        r matches Err(e) ==> namespace_fault(config.volumes@.len() == 0, config.rootfs is Some, opt_seq(config.namespaces)) == Some(e),
        r is Ok ==> namespace_fault(config.volumes@.len() == 0, config.rootfs is Some, opt_seq(config.namespaces)) is None,
{
    if config.volumes.len() != 0 && config.rootfs.is_none() {
        return Err(SandboxError::VolumesNeedRootfs);
    }
    if let Some(namespaces) = &config.namespaces {
        let mut i: usize = 0;
        let mut found = false;
        while i < namespaces.len()
            invariant
                i <= namespaces@.len(),
                found == exists|j: int| 0 <= j < i && namespaces@[j] == NamespaceType::Mount,
            decreases namespaces@.len() - i,
        {
            if namespaces[i] == NamespaceType::Mount {
                found = true;
            }
            i = i + 1;
        }
        if !found {
            return Err(SandboxError::MountNamespaceRequired);
        }
    }
    Ok(())
}

pub open spec fn holds_nul(args: Seq<Seq<char>>) -> bool {
    exists|i: int| 0 <= i < args.len() && contains_char(#[trigger] args[i], '\0')
}

/// The checks made before any resource is created, in order: a command,
/// the filesystem requirements, and arguments that `exec` can take.
pub fn check_config(config: &SandboxConfig) -> (r: Result<(), SandboxError>)
    ensures
        config.command@.len() == 0 ==> r == Err::<(), SandboxError>(SandboxError::NoCommand),
        config.command@.len() > 0 ==> match namespace_fault(config.volumes@.len() == 0, config.rootfs is Some, opt_seq(config.namespaces)) {
            Some(e) => r == Err::<(), SandboxError>(e),
            None => if holds_nul(strings_view(config.command@)) {
                r == Err::<(), SandboxError>(SandboxError::NulInArgument)
            } else {
                r is Ok
            },
        },
{
    if config.command.len() == 0 {
        return Err(SandboxError::NoCommand);
    }
    validate_namespaces(config)?;
    let ghost args = strings_view(config.command@);
    let mut i: usize = 0;
    while i < config.command.len()
        invariant
            args == strings_view(config.command@),
            config.command@.len() > 0,
            namespace_fault(config.volumes@.len() == 0, config.rootfs is Some, opt_seq(config.namespaces)) is None,
            i <= args.len(),
            forall|j: int| 0 <= j < i ==> !contains_char(#[trigger] args[j], '\0'),
        decreases args.len() - i,
    {
        let a = chars_of(config.command[i].as_str());
        assert(args[i as int] == a@);
        if contains_char_in(a.as_slice(), '\0') {
            return Err(SandboxError::NulInArgument);
        }
        i = i + 1;
    }
    Ok(())
}

pub const CLONE_NEWNS: u64 = 0x0002_0000;
pub const CLONE_NEWCGROUP: u64 = 0x0200_0000;
pub const CLONE_NEWUTS: u64 = 0x0400_0000;
pub const CLONE_NEWIPC: u64 = 0x0800_0000;
pub const CLONE_NEWPID: u64 = 0x2000_0000;
pub const CLONE_NEWNET: u64 = 0x4000_0000;

pub open spec fn namespace_flag(t: NamespaceType) -> u64 {
    match t {
        NamespaceType::Pid => CLONE_NEWPID,
        NamespaceType::Mount => CLONE_NEWNS,
        NamespaceType::Uts => CLONE_NEWUTS,
        NamespaceType::Network => CLONE_NEWNET,
        NamespaceType::Ipc => CLONE_NEWIPC,
        NamespaceType::Cgroup => CLONE_NEWCGROUP,
    }
}

/// The union of the flags of a list of namespace types.
pub open spec fn flags_of(ts: Seq<NamespaceType>) -> u64
    decreases ts.len(),
{
    if ts.len() == 0 {
        0
    } else {
        flags_of(ts.drop_last()) | namespace_flag(ts.last())
    }
}

/// The `unshare` flags: the PID, mount, UTS and network namespaces by
/// default, or exactly the listed ones.  A user namespace is never created.
pub open spec fn unshare_flags(namespaces: Option<Seq<NamespaceType>>) -> u64 {
    match namespaces {
        None => CLONE_NEWPID | CLONE_NEWNS | CLONE_NEWUTS | CLONE_NEWNET,
        Some(ts) => flags_of(ts),
    }
}

fn flag_of(t: NamespaceType) -> (f: u64)
    ensures
        f == namespace_flag(t),
{
    match t {
        NamespaceType::Pid => CLONE_NEWPID,
        NamespaceType::Mount => CLONE_NEWNS,
        NamespaceType::Uts => CLONE_NEWUTS,
        NamespaceType::Network => CLONE_NEWNET,
        NamespaceType::Ipc => CLONE_NEWIPC,
        NamespaceType::Cgroup => CLONE_NEWCGROUP,
    }
}

/// The namespaces that the sandboxed child unshares.
pub fn namespace_flags(namespaces: &Option<Vec<NamespaceType>>) -> (f: u64)
    ensures
        f == unshare_flags(opt_seq(*namespaces)),
{
    match namespaces {
        None => CLONE_NEWPID | CLONE_NEWNS | CLONE_NEWUTS | CLONE_NEWNET,
        Some(ts) => {
            let mut f: u64 = 0;
            let mut i: usize = 0;
            while i < ts.len()
                invariant
                    i <= ts@.len(),
                    f == flags_of(ts@.subrange(0, i as int)),
                decreases ts@.len() - i,
            {
                assert(ts@.subrange(0, i + 1).drop_last() == ts@.subrange(0, i as int));
                f = f | flag_of(ts[i]);
                i = i + 1;
            }
            assert(ts@.subrange(0, ts@.len() as int) == ts@);
            f
        },
    }
}

/// The address of the in-sandbox CONNECT proxy.
pub open spec fn proxy_url() -> Seq<char> {
    "http://127.0.0.1:18080"@
}

/// The payload environment: the configured entries, then, when a proxy is
/// in use (the policy proxy, or else the configured one), `HTTP_PROXY`,
/// `HTTPS_PROXY` and `ALL_PROXY` set to it and `NO_PROXY` set to the
/// loopback names.
pub open spec fn payload_environment(env: Seq<Seq<char>>, proxy: Option<Seq<char>>) -> Seq<Seq<char>> {
    match proxy {
        None => env,
        Some(p) => env + seq![
            "HTTP_PROXY="@ + p,
            "HTTPS_PROXY="@ + p,
            "ALL_PROXY="@ + p,
            "NO_PROXY=127.0.0.1,localhost"@,
        ],
    }
}

pub open spec fn opt_str(o: Option<String>) -> Option<Seq<char>> {
    match o {
        Some(s) => Some(s@),
        None => None,
    }
}

/// The environment that the payload is executed with.
pub fn effective_environment(config: &SandboxConfig, proxy_enabled: bool) -> (env: Vec<String>)
    ensures
        strings_view(env@) == payload_environment(
            strings_view(config.env@),
            if proxy_enabled { Some(proxy_url()) } else { opt_str(config.proxy) },
        ),
{
    let mut env = copy_strings(&config.env);
    let proxy: Option<String> = if proxy_enabled {
        Some("http://127.0.0.1:18080".to_owned())
    } else {
        match &config.proxy {
            Some(p) => Some(p.clone()),
            None => None,
        }
    };
    if let Some(p) = proxy {
        let ghost base = strings_view(env@);
        env.push(concat("HTTP_PROXY=", p.as_str()));
        env.push(concat("HTTPS_PROXY=", p.as_str()));
        env.push(concat("ALL_PROXY=", p.as_str()));
        env.push("NO_PROXY=127.0.0.1,localhost".to_owned());
        assert(strings_view(env@) =~= base + seq![
            "HTTP_PROXY="@ + p@,
            "HTTPS_PROXY="@ + p@,
            "ALL_PROXY="@ + p@,
            "NO_PROXY=127.0.0.1,localhost"@,
        ]);
    }
    env
}

/// How a waited-for process ended.
#[derive(Clone, Copy, PartialEq, Eq, Structural, Debug)]
pub enum WaitOutcome {
    Exited(i32),
    /// Killed by the signal with this number.
    Signaled(i32),
    /// Stopped, continued or otherwise still present.
    Other,
}

/// The number of a signal that the exit code reports: the common signals
/// map to their Linux numbers, any other to 0.
pub open spec fn reported_signal(signal: i32) -> i32 {
    if (1 <= signal && signal <= 15) || signal == 31 {
        signal
    } else {
        0
    }
}

pub fn signal_to_int(signal: i32) -> (n: i32)
    ensures
        n == reported_signal(signal),
{
    if (1 <= signal && signal <= 15) || signal == 31 {
        signal
    } else {
        0
    }
}

/// The exit code of the sandbox: the payload's code, 128 plus the signal
/// number when it was killed, and 1 otherwise.
pub open spec fn sandbox_exit_code(status: WaitOutcome) -> int {
    match status {
        WaitOutcome::Exited(code) => code as int,
        WaitOutcome::Signaled(signal) => 128 + reported_signal(signal),
        WaitOutcome::Other => 1,
    }
}

pub fn exit_code_from_status(status: WaitOutcome) -> (code: i32)
    ensures
        code == sandbox_exit_code(status),
{
    match status {
        WaitOutcome::Exited(code) => code,
        WaitOutcome::Signaled(signal) => 128 + signal_to_int(signal),
        WaitOutcome::Other => 1,
    }
}

/// The name of the tracking cgroup of a sandbox that was not given one:
/// `tinybox-<pid>`.
pub fn default_cgroup_name(pid: u32) -> (name: String)
    ensures
        name@ == "tinybox-"@ + decimal(pid as nat),
{
    let n = u64_to_string(pid as u64);
    concat("tinybox-", n.as_str())
}


// ---------------------------------------------------------------------------
// Audit of a run

/// An audit event the launcher records on the sandbox's log.
#[derive(Debug)]
pub struct AuditNote {
    pub source: String,
    pub decision: String,
    pub capability: String,
    pub target: String,
    pub rule_id: Option<String>,
    pub reason: String,
}

pub open spec fn note_view(n: AuditNote) -> (Seq<char>, Seq<char>, Seq<char>, Seq<char>, Option<Seq<char>>, Seq<char>) {
    (n.source@, n.decision@, n.capability@, n.target@, opt_str(n.rule_id), n.reason@)
}

pub open spec fn notes_view(v: Seq<AuditNote>) -> Seq<(Seq<char>, Seq<char>, Seq<char>, Seq<char>, Option<Seq<char>>, Seq<char>)> {
    v.map_values(|n: AuditNote| note_view(n))
}

fn note(source: &str, decision: &str, capability: &str, target: String, rule_id: Option<String>, reason: &str) -> (n: AuditNote)
    ensures
        note_view(n) == (source@, decision@, capability@, target@, opt_str(rule_id), reason@),
{
    AuditNote {
        source: source.to_owned(),
        decision: decision.to_owned(),
        capability: capability.to_owned(),
        target,
        rule_id,
        reason: reason.to_owned(),
    }
}

/// The event of a created cgroup.
pub fn cgroup_note(name: &str) -> (n: AuditNote)
    ensures
        note_view(n) == ("cgroup"@, "allow"@, "resources"@, name@, Some("resources:ceiling"@), "cgroup created with requested limits"@),
{
    note("cgroup", "allow", "resources", name.to_owned(), Some("resources:ceiling".to_owned()), "cgroup created with requested limits")
}

/// How a run ended once its payload's status is known: a setup failure
/// reported by the child (any text on the setup pipe) is audited as a
/// denied setup and becomes a [`SetupError`]; otherwise the Landlock
/// ceiling (where the sandbox has filesystem rules) and the completed setup
/// are audited, and the payload's exit code is the result.
pub fn run_outcome(setup_message: &str, filesystem_rules: Option<usize>, status: WaitOutcome) -> (r: (Vec<AuditNote>, Result<i32, SetupError>))
    ensures
        setup_message@.len() > 0 ==> {
            &&& notes_view(r.0@) == seq![("runtime"@, "deny"@, "sandbox.setup"@, "payload"@, None::<Seq<char>>, setup_message@)]
            &&& r.1 matches Err(e) && e.0@ == setup_message@
        },
        setup_message@.len() == 0 ==> {
            &&& notes_view(r.0@) == (match filesystem_rules {
                Some(n) => seq![("landlock"@, "allow"@, "filesystem.ceiling"@, decimal(n as nat) + " rules"@,
                    Some("filesystem:ceiling"@), "Landlock ruleset installed before payload exec"@)],
                None => Seq::empty(),
            }) + seq![("runtime"@, "allow"@, "sandbox.setup"@, "payload"@, None,
                "namespace, filesystem, Landlock, capability and seccomp setup completed"@)]
            &&& r.1 == Ok::<i32, SetupError>(sandbox_exit_code(status) as i32)
        },
{
    let mut notes: Vec<AuditNote> = Vec::new();
    if !setup_message.is_empty() {
        notes.push(note("runtime", "deny", "sandbox.setup", "payload".to_owned(), None, setup_message));
        assert(notes_view(notes@) =~= seq![("runtime"@, "deny"@, "sandbox.setup"@, "payload"@, None::<Seq<char>>, setup_message@)]);
        return (notes, Err(SetupError(setup_message.to_owned())));
    }
    if let Some(n) = filesystem_rules {
        let target = concat(u64_to_string(n as u64).as_str(), " rules");
        notes.push(note("landlock", "allow", "filesystem.ceiling", target, Some("filesystem:ceiling".to_owned()),
            "Landlock ruleset installed before payload exec"));
    }
    let ghost first = notes_view(notes@);
    notes.push(note("runtime", "allow", "sandbox.setup", "payload".to_owned(), None,
        "namespace, filesystem, Landlock, capability and seccomp setup completed"));
    assert(notes_view(notes@) =~= first.push(("runtime"@, "allow"@, "sandbox.setup"@, "payload"@, None,
        "namespace, filesystem, Landlock, capability and seccomp setup completed"@)));
    (notes, Ok(exit_code_from_status(status)))
}

/// The text a [`SandboxError`] is reported with.
pub open spec fn sandbox_error_text(e: SandboxError) -> Seq<char> {
    match e {
        SandboxError::NoCommand => "no command specified"@,
        SandboxError::NulInArgument => "nul byte found in provided data"@,
        SandboxError::VolumesNeedRootfs => "volume mounts require an isolated rootfs"@,
        SandboxError::MountNamespaceRequired => "a private mount namespace is required for sandbox filesystem setup"@,
    }
}

impl SandboxError {
    /// The error text.
    pub fn message(&self) -> (m: String)
        ensures
            m@ == sandbox_error_text(*self),
    {
        match self {
            SandboxError::NoCommand => "no command specified".to_owned(),
            SandboxError::NulInArgument => "nul byte found in provided data".to_owned(),
            SandboxError::VolumesNeedRootfs => "volume mounts require an isolated rootfs".to_owned(),
            SandboxError::MountNamespaceRequired => "a private mount namespace is required for sandbox filesystem setup".to_owned(),
        }
    }
}

} // verus!
