//! Installing the tool adapters of supported Agents, and launching an Agent
//! against a tinybox task.
use vstd::prelude::*;
use crate::text::{chars_of, str_eq, starts_with, starts_with_chars};
use crate::paths::{join, join_path};

verus! {

/// What `agent launch` was asked to do.
#[derive(Debug)]
pub struct LaunchOptions {
    pub agent: String,
    pub workspace: String,
    pub profile: Option<String>,
    pub rootfs: Option<String>,
    pub daemon: String,
    pub arguments: Vec<String>,
}

/// The Agents that tinybox has adapters for.
#[derive(Clone, Copy, PartialEq, Eq, Structural, Debug)]
pub enum Agent {
    OpenCode,
    Pi,
}

/// Why an adapter could not be installed or an Agent launched.
#[derive(Debug)]
pub enum IntegrationError {
    /// `unsupported tool adapter <agent>`
    UnsupportedAgent(String),
    /// `HOME is not set; cannot locate the user-level adapter directory`
    NoHome,
    /// `--profile and --root are mutually exclusive`
    ProfileAndRoot,
    /// `refusing to overwrite <path>; rerun with --force after reviewing it`
    WouldOverwrite,
    /// `invalid task id returned by tinybox: <id>`
    InvalidTaskId(String),
}

/// The Agent a name selects: `opencode` or `pi`.
pub open spec fn agent_of(name: Seq<char>) -> Option<Agent> {
    if name == "opencode"@ {
        Some(Agent::OpenCode)
    } else if name == "pi"@ {
        Some(Agent::Pi)
    } else {
        None
    }
}

pub fn parse_agent(name: &str) -> (r: Option<Agent>)
    ensures
        r == agent_of(name@),
{
    if str_eq(name, "opencode") {
        Some(Agent::OpenCode)
    } else if str_eq(name, "pi") {
        Some(Agent::Pi)
    } else {
        None
    }
}

/// The user's configuration directory: `$XDG_CONFIG_HOME`, else
/// `$HOME/.config`.  `HOME` is required either way.
pub fn config_home(xdg_config_home: Option<String>, home: Option<String>) -> (r: Result<String, IntegrationError>)
    ensures
        home is None ==> r is Err,
        home matches Some(h) ==> (r matches Ok(p) && p@ == (match xdg_config_home {
            Some(x) => x@,
            None => join(h@, ".config"@),
        })),
{
    let h = match home {
        Some(h) => h,
        None => {
            return Err(IntegrationError::NoHome);
        },
    };
    match xdg_config_home {
        Some(x) => Ok(x),
        None => Ok(join_path(h.as_str(), ".config")),
    }
}

/// Where an Agent's adapter is installed and the name of its entry file:
/// in a project, `.opencode/tools` (`bash.ts`) or `.pi/extensions/tinybox`
/// (`index.ts`); for the user, `<config>/opencode/tools` or
/// `<home>/.pi/agent/extensions/tinybox`.
pub open spec fn adapter_dir(agent: Agent, project: Option<Seq<char>>, config: Seq<char>, home: Seq<char>) -> (Seq<char>, Seq<char>) {
    match (agent, project) {
        (Agent::OpenCode, Some(root)) => (join(root, ".opencode/tools"@), "bash.ts"@),
        (Agent::OpenCode, None) => (join(config, "opencode/tools"@), "bash.ts"@),
        (Agent::Pi, Some(root)) => (join(root, ".pi/extensions/tinybox"@), "index.ts"@),
        (Agent::Pi, None) => (join(home, ".pi/agent/extensions/tinybox"@), "index.ts"@),
    }
}

/// The install directory and entry file of an adapter.
pub fn install_target(agent: &str, project: Option<&str>, config: &str, home: &str) -> (r: Result<(String, String), IntegrationError>)
    ensures
        r is Err <==> agent_of(agent@) is None,
        r matches Ok(t) ==> (t.0@, t.1@) == adapter_dir(agent_of(agent@)->0, match project { Some(p) => Some(p@), None => None }, config@, home@),
{
    let a = match parse_agent(agent) {
        Some(a) => a,
        None => {
            return Err(IntegrationError::UnsupportedAgent(agent.to_owned()));
        },
    };
    match (a, project) {
        (Agent::OpenCode, Some(root)) => Ok((join_path(root, ".opencode/tools"), "bash.ts".to_owned())),
        (Agent::OpenCode, None) => Ok((join_path(config, "opencode/tools"), "bash.ts".to_owned())),
        (Agent::Pi, Some(root)) => Ok((join_path(root, ".pi/extensions/tinybox"), "index.ts".to_owned())),
        (Agent::Pi, None) => Ok((join_path(home, ".pi/agent/extensions/tinybox"), "index.ts".to_owned())),
    }
}

/// What installing one adapter file does given what is already there.
#[derive(Clone, Copy, PartialEq, Eq, Structural, Debug)]
pub enum InstallAction {
    /// The file already holds the adapter.
    Keep,
    /// Write the adapter.
    Write,
    /// A different file is there and `--force` was not given.
    Refuse,
}

/// The action for an adapter file: absent or forced, write; identical,
/// keep; different, refuse.
pub fn install_action(existing: Option<&str>, content: &str, force: bool) -> (a: InstallAction)
    ensures
        a == (match existing {
            None => InstallAction::Write,
            Some(e) => if e@ == content@ {
                InstallAction::Keep
            } else if force {
                InstallAction::Write
            } else {
                InstallAction::Refuse
            },
        }),
{
    match existing {
        None => InstallAction::Write,
        Some(e) => if str_eq(e, content) {
            InstallAction::Keep
        } else if force {
            InstallAction::Write
        } else {
            InstallAction::Refuse
        },
    }
}

/// Checks the options of `agent launch`.
pub fn check_launch(options: &LaunchOptions) -> (r: Result<Agent, IntegrationError>)
    ensures
        options.profile is Some && options.rootfs is Some ==> r matches Err(IntegrationError::ProfileAndRoot),
        !(options.profile is Some && options.rootfs is Some) ==> (match agent_of(options.agent@) {
            Some(a) => r == Ok::<Agent, IntegrationError>(a),
            None => r matches Err(IntegrationError::UnsupportedAgent(n)) && n@ == options.agent@,
        }),
{
    if options.profile.is_some() && options.rootfs.is_some() {
        return Err(IntegrationError::ProfileAndRoot);
    }
    match parse_agent(options.agent.as_str()) {
        Some(a) => Ok(a),
        None => Err(IntegrationError::UnsupportedAgent(options.agent.clone())),
    }
}

/// The arguments of the `tinybox agent run` that creates the task:
/// the workspace, the daemon, detached, and the environment flag.
pub fn create_task_args(options: &LaunchOptions, workspace: &str) -> (v: Vec<String>)
    ensures
        v@.map_values(|s: String| s@) == seq!["agent"@, "run"@, workspace@, "--daemon"@, options.daemon@, "--detach"@]
            + (match options.profile { Some(p) => seq!["--profile"@, p@], None => Seq::empty() })
            + (match options.rootfs { Some(r) => seq!["--root"@, r@], None => Seq::empty() }),
{
    let mut v: Vec<String> = Vec::new();
    v.push("agent".to_owned());
    v.push("run".to_owned());
    v.push(workspace.to_owned());
    v.push("--daemon".to_owned());
    v.push(options.daemon.clone());
    v.push("--detach".to_owned());
    let ghost base = v@.map_values(|s: String| s@);
    if let Some(p) = &options.profile {
        v.push("--profile".to_owned());
        v.push(p.clone());
    }
    let ghost with_profile = v@.map_values(|s: String| s@);
    assert(with_profile =~= base + (match options.profile { Some(p) => seq!["--profile"@, p@], None => Seq::<Seq<char>>::empty() }));
    if let Some(r) = &options.rootfs {
        v.push("--root".to_owned());
        v.push(r.clone());
    }
    assert(v@.map_values(|s: String| s@) =~= with_profile + (match options.rootfs { Some(r) => seq!["--root"@, r@], None => Seq::<Seq<char>>::empty() }));
    v
}

/// The id the task creation printed, trimmed: it must name a task.
pub fn check_task_id(printed: &str) -> (r: Result<String, IntegrationError>)
    ensures
        r matches Ok(id) ==> id@ == crate::text::trim(printed@) && starts_with(id@, "task-"@),
        r is Err <==> !starts_with(crate::text::trim(printed@), "task-"@),
{
    let cs = chars_of(printed);
    let t = crate::text::trim_chars(cs.as_slice());
    let prefix = chars_of("task-");
    let id = crate::text::string_of(t.as_slice());
    if !starts_with_chars(t.as_slice(), prefix.as_slice()) {
        return Err(IntegrationError::InvalidTaskId(id));
    }
    Ok(id)
}

/// The exit code of the Agent: its own, else 128 plus the signal that
/// ended it (0 where none is known).
pub fn agent_exit_code(code: Option<i32>, signal: Option<i32>) -> (c: i32)
    requires
        code is None ==> (match signal { Some(s) => s <= i32::MAX - 128, None => true }),
    ensures
        c == (match code {
            Some(x) => x as int,
            None => 128 + (match signal { Some(s) => s as int, None => 0 }),
        }),
{
    match code {
        Some(x) => x,
        None => 128 + match signal {
            Some(s) => s,
            None => 0,
        },
    }
}

} // verus!
