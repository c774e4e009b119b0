//! The `tinybox agent` client: what each subcommand checks and asks of the
//! daemon before and after its requests.
use vstd::prelude::*;
use crate::text::{chars_of, concat, str_eq, decimal, u64_to_string, starts_with};
use crate::policy::{CapabilityDescriptor, FsAccess, FsRule, ResourcePolicy, POLICY_VERSION};

verus! {

/// What `agent run` was asked to do.
#[derive(Debug)]
pub struct RunOptions {
    pub daemon: String,
    pub workspace: String,
    pub profile: Option<String>,
    pub rootfs: Option<String>,
    pub detach: bool,
    pub command: Vec<String>,
}

/// Why an agent subcommand was refused before any request.
#[derive(Clone, Copy, PartialEq, Eq, Structural, Debug)]
pub enum AgentError {
    /// `--profile and --root are mutually exclusive`
    ProfileAndRoot,
    /// `detached task creation does not accept a command; use `agent exec``
    DetachWithCommand,
    /// `foreground agent run requires a command after --`
    MissingRunCommand,
    /// `agent exec requires a command after --`
    MissingExecCommand,
    /// `invalid task id`
    InvalidTaskId,
}

/// The first reason to refuse `agent run`.
pub open spec fn run_fault(o: RunOptions) -> Option<AgentError> {
    if o.profile is Some && o.rootfs is Some {
        Some(AgentError::ProfileAndRoot)
    } else if o.detach && o.command@.len() > 0 {
        Some(AgentError::DetachWithCommand)
    } else if !o.detach && o.command@.len() == 0 {
        Some(AgentError::MissingRunCommand)
    } else {
        None
    }
}

/// Checks the options of `agent run`.
pub fn check_run_options(options: &RunOptions) -> (r: Result<(), AgentError>)
    ensures
        r is Ok <==> run_fault(*options) is None,
        r matches Err(e) ==> run_fault(*options) == Some(e),
{
    if options.profile.is_some() && options.rootfs.is_some() {
        return Err(AgentError::ProfileAndRoot);
    }
    if options.detach && options.command.len() > 0 {
        return Err(AgentError::DetachWithCommand);
    }
    if !options.detach && options.command.len() == 0 {
        return Err(AgentError::MissingRunCommand);
    }
    Ok(())
}

/// Where a task's tools come from.
#[derive(Debug)]
pub enum EnvironmentSource {
    Profile(String),
    Rootfs(String),
    Host,
}

/// The environment a task is created with: a named profile, a rootfs, or
/// the host, in that order of preference.
pub fn environment_of(options: &RunOptions) -> (e: EnvironmentSource)
    ensures
        match e {
            EnvironmentSource::Profile(p) => options.profile matches Some(q) && p@ == q@,
            EnvironmentSource::Rootfs(r) => options.profile is None && (options.rootfs matches Some(q) && r@ == q@),
            EnvironmentSource::Host => options.profile is None && options.rootfs is None,
        },
{
    match &options.profile {
        Some(p) => EnvironmentSource::Profile(p.clone()),
        None => match &options.rootfs {
            Some(r) => EnvironmentSource::Rootfs(r.clone()),
            None => EnvironmentSource::Host,
        },
    }
}

/// The URL of an API path on the daemon: `http://<daemon><path>`.
pub fn url(daemon: &str, path: &str) -> (u: String)
    ensures
        u@ == "http://"@ + daemon@ + path@,
{
    concat(concat("http://", daemon).as_str(), path)
}

pub open spec fn is_ascii_digit(c: char) -> bool {
    '0' <= c && c <= '9'
}

/// A local task id: `task-` followed by ASCII digits and dashes.
pub open spec fn task_id_ok(id: Seq<char>) -> bool {
    starts_with(id, "task-"@) && forall|i: int| 5 <= i < id.len() ==> is_ascii_digit(#[trigger] id[i]) || id[i] == '-'
}

/// Whether a local task id is well formed, before it names a file.
pub fn valid_task_id(id: &str) -> (b: bool)
    ensures
        b == task_id_ok(id@),
{
    let cs = chars_of(id);
    let prefix = chars_of("task-");
    proof {
        reveal_strlit("task-");
    }
    if !crate::text::starts_with_chars(cs.as_slice(), prefix.as_slice()) {
        return false;
    }
    let mut i: usize = 5;
    while i < cs.len()
        invariant
            5 <= i <= cs@.len(),
            cs@ == id@,
            forall|k: int| 5 <= k < i ==> is_ascii_digit(#[trigger] cs@[k]) || cs@[k] == '-',
        decreases cs@.len() - i,
    {
        let c = cs[i];
        if !(('0' <= c && c <= '9') || c == '-') {
            return false;
        }
        i = i + 1;
    }
    true
}

/// The file a local task's session is kept in: `<id>.json`.
pub fn session_file(id: &str) -> (f: String)
    ensures
        f@ == id@ + ".json"@,
{
    concat(id, ".json")
}

/// The API path of a task, with an optional suffix: `/api/tasks/<id><suffix>`.
pub fn task_path(id: &str, suffix: &str) -> (p: String)
    ensures
        p@ == "/api/tasks/"@ + id@ + suffix@,
{
    concat(concat("/api/tasks/", id).as_str(), suffix)
}

/// A tool call that `agent exec` makes, once the session is loaded.
#[derive(Debug)]
pub struct ExecCall {
    pub session_file: String,
    pub command: Vec<String>,
    pub cwd: String,
    pub timeout_ms: u64,
}

/// `agent exec`: refuses an empty command or a malformed id; otherwise
/// names the session to load and the call to make with it
/// (`POST /api/tasks/<session id>/exec`).
pub fn exec(id: &str, command: Vec<String>, cwd: String, timeout_ms: u64) -> (r: Result<ExecCall, AgentError>)
    ensures
        command@.len() == 0 ==> r == Err::<ExecCall, AgentError>(AgentError::MissingExecCommand),
        command@.len() > 0 && !task_id_ok(id@) ==> r == Err::<ExecCall, AgentError>(AgentError::InvalidTaskId),
        r is Ok <==> command@.len() > 0 && task_id_ok(id@),
        r matches Ok(c) ==> c.session_file@ == id@ + ".json"@ && c.command@ == command@ && c.cwd@ == cwd@
            && c.timeout_ms == timeout_ms,
{
    if command.len() == 0 {
        return Err(AgentError::MissingExecCommand);
    }
    if !valid_task_id(id) {
        return Err(AgentError::InvalidTaskId);
    }
    Ok(ExecCall { session_file: session_file(id), command, cwd, timeout_ms })
}

/// A request on a task that `agent stop` or `agent destroy` makes.
#[derive(Debug)]
pub struct TaskCall {
    pub session_file: String,
    pub path: String,
}

/// `agent stop`: names the session to load and the call to make with it
/// (`POST /api/tasks/<id>/stop`).
pub fn stop(id: &str) -> (r: Result<TaskCall, AgentError>)
    ensures
        r is Ok <==> task_id_ok(id@),
        r is Err ==> r == Err::<TaskCall, AgentError>(AgentError::InvalidTaskId),
        r matches Ok(c) ==> c.session_file@ == id@ + ".json"@ && c.path@ == "/api/tasks/"@ + id@ + "/stop"@,
{
    if !valid_task_id(id) {
        return Err(AgentError::InvalidTaskId);
    }
    Ok(TaskCall { session_file: session_file(id), path: task_path(id, "/stop") })
}

/// `agent destroy`: names the session to load and the call to make with
/// it (`DELETE /api/tasks/<id>`); the session file is removed afterwards.
pub fn destroy(id: &str) -> (r: Result<TaskCall, AgentError>)
    ensures
        r is Ok <==> task_id_ok(id@),
        r is Err ==> r == Err::<TaskCall, AgentError>(AgentError::InvalidTaskId),
        r matches Ok(c) ==> c.session_file@ == id@ + ".json"@ && c.path@ == "/api/tasks/"@ + id@,
{
    if !valid_task_id(id) {
        return Err(AgentError::InvalidTaskId);
    }
    let path = task_path(id, "");
    proof {
        reveal_strlit("");
        assert(path@ =~= "/api/tasks/"@ + id@);
    }
    Ok(TaskCall { session_file: session_file(id), path })
}

/// The exit code of a tool call's response: its `exit_code` as an `i32`
/// (wrapping), or 125 where it has none.
pub fn exit_code_of(value: Option<i64>) -> (code: i32)
    ensures
        code == (match value { Some(v) => v as i32, None => 125i32 }),
{
    match value {
        Some(v) => v as i32,
        None => 125,
    }
}

/// What waiting for a new task does after one status poll.
#[derive(Clone, Copy, PartialEq, Eq, Structural, Debug)]
pub enum Startup {
    /// The task runs.
    Running,
    /// The task ended before it ran: `task failed to start`.
    Failed,
    /// `timed out waiting for task startup`
    TimedOut,
    /// Poll again.
    Wait,
}

/// The next step of waiting for a task, from the status it reported and
/// whether the deadline passed.
pub fn startup_step(status: Option<&str>, past_deadline: bool) -> (s: Startup)
    ensures
        s == (match status {
            Some(t) => if t@ == "running"@ {
                Startup::Running
            } else if t@ == "failed"@ || t@ == "setup_failed"@ || t@ == "completed"@ {
                Startup::Failed
            } else if past_deadline {
                Startup::TimedOut
            } else {
                Startup::Wait
            },
            None => if past_deadline { Startup::TimedOut } else { Startup::Wait },
        }),
{
    if let Some(t) = status {
        if str_eq(t, "running") {
            return Startup::Running;
        }
        if str_eq(t, "failed") || str_eq(t, "setup_failed") || str_eq(t, "completed") {
            return Startup::Failed;
        }
    }
    if past_deadline {
        Startup::TimedOut
    } else {
        Startup::Wait
    }
}

/// Where local sessions are kept: `/run/tinybox/agents` for root; else
/// `$XDG_RUNTIME_DIR/tinybox/agents` when that is a directory the user owns
/// (`xdg_owned`, looked up by the caller); else
/// `/run/user/<uid>/tinybox/agents`.
pub fn session_root(uid: u32, xdg_runtime_dir: Option<String>, xdg_owned: bool) -> (p: String)
    ensures
        p@ == (if uid == 0 {
            "/run/tinybox/agents"@
        } else if xdg_runtime_dir is Some && xdg_owned {
            crate::paths::join(xdg_runtime_dir->0@, "tinybox/agents"@)
        } else {
            "/run/user/"@ + decimal(uid as nat) + "/tinybox/agents"@
        }),
{
    if uid == 0 {
        return "/run/tinybox/agents".to_owned();
    }
    if let Some(dir) = xdg_runtime_dir {
        if xdg_owned {
            return crate::paths::join_path(dir.as_str(), "tinybox/agents");
        }
    }
    concat(concat("/run/user/", u64_to_string(uid as u64).as_str()).as_str(), "/tinybox/agents")
}

/// The policy of tasks that `agent run` creates: read-write `/workspace`,
/// no network, 1 GiB of memory, two CPUs, 256 processes, no phases.
pub fn default_policy() -> (d: CapabilityDescriptor)
    ensures
        d@.version == POLICY_VERSION,
        d@.filesystem == seq![crate::policy::FsRuleView { path: "/workspace"@, access: FsAccess::ReadWrite }],
        d@.network.len() == 0,
        d@.resources == (ResourcePolicy { memory_bytes: 1073741824, cpus_bits: 0x4000_0000_0000_0000, pids: 256 }),
        d@.phases.len() == 0,
{
    let mut filesystem: Vec<FsRule> = Vec::new();
    filesystem.push(FsRule { path: "/workspace".to_owned(), access: FsAccess::ReadWrite });
    let d = CapabilityDescriptor {
        version: POLICY_VERSION,
        filesystem,
        network: Vec::new(),
        resources: ResourcePolicy { memory_bytes: 1073741824, cpus_bits: 0x4000_0000_0000_0000, pids: 256 },
        phases: Vec::new(),
    };
    assert(d@.filesystem =~= seq![crate::policy::FsRuleView { path: "/workspace"@, access: FsAccess::ReadWrite }]);
    d
}

/// The text an [`AgentError`] is reported with.
pub open spec fn agent_error_text(e: AgentError) -> Seq<char> {
    match e {
        AgentError::ProfileAndRoot => "--profile and --root are mutually exclusive"@,
        AgentError::DetachWithCommand => "detached task creation does not accept a command; use `agent exec`"@,
        AgentError::MissingRunCommand => "foreground agent run requires a command after --"@,
        AgentError::MissingExecCommand => "agent exec requires a command after --"@,
        AgentError::InvalidTaskId => "invalid task id"@,
    }
}

impl AgentError {
    /// The error text.
    pub fn message(&self) -> (m: String)
        ensures
            m@ == agent_error_text(*self),
    {
        match self {
            AgentError::ProfileAndRoot => "--profile and --root are mutually exclusive".to_owned(),
            AgentError::DetachWithCommand => "detached task creation does not accept a command; use `agent exec`".to_owned(),
            AgentError::MissingRunCommand => "foreground agent run requires a command after --".to_owned(),
            AgentError::MissingExecCommand => "agent exec requires a command after --".to_owned(),
            AgentError::InvalidTaskId => "invalid task id".to_owned(),
        }
    }
}

} // verus!
