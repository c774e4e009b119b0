//! Task environments: where a task's tools come from, which host paths it
//! sees, and where its private state lives.
use vstd::prelude::*;
use crate::text::{chars_of, str_eq, concat, starts_with, starts_with_chars};
use crate::paths::{join, join_path, is_absolute, path_components, PathPart};
use crate::policy::{FsAccess, strings_view, copy_strings};

verus! {

/// Where a task's root filesystem comes from.
#[derive(Debug)]
pub enum EnvironmentRequest {
    Host,
    Rootfs { path: String },
    Profile { name: String },
}

/// A host path made visible inside a task.
#[derive(Debug)]
pub struct EnvironmentVolume {
    pub source: String,
    pub target: String,
    pub read_only: bool,
}

/// The record of a prepared environment.
#[derive(Debug)]
pub struct EnvironmentManifest {
    pub version: u32,
    pub source: String,
    pub base_rootfs: String,
    pub workspace: String,
    pub home: String,
    pub cache: String,
    pub mappings: Vec<Mapping>,
}

/// One host path, where it appears, and how (`direct`, `private_write`,
/// `read_only`).
#[derive(Debug)]
pub struct Mapping {
    pub source: String,
    pub target: String,
    pub mode: String,
}

/// Everything a task is launched with.
#[derive(Debug)]
pub struct PreparedEnvironment {
    pub state_dir: String,
    pub rootfs: String,
    pub rootfs_work_dir: String,
    pub volumes: Vec<String>,
    pub env: Vec<String>,
    pub filesystem_paths: Vec<(String, FsAccess)>,
}

/// Where task state lives.
pub const TASK_STATE_ROOT: &'static str = "/var/lib/tinybox/tasks";

/// Why an environment volume's target was refused.
#[derive(Clone, Copy, PartialEq, Eq, Structural, Debug)]
pub enum TargetError {
    /// `volume target must be a normalized absolute non-root path`
    NotNormalized,
    /// `volume target overlaps a managed environment path`
    Overlap,
}

/// The fault of a volume target, if any: it must be absolute, not the root,
/// free of `.` and `..`, and neither `/workspace` nor under `/home/agent`
/// (as text).
pub open spec fn target_fault(t: Seq<char>) -> Option<TargetError> {
    let c = path_components(t);
    if !is_absolute(t) || c == seq![PathPart::Root] || c.contains(PathPart::Parent) || c.contains(PathPart::Current) {
        Some(TargetError::NotNormalized)
    } else if t == "/workspace"@ || starts_with(t, "/home/agent"@) {
        Some(TargetError::Overlap)
    } else {
        None
    }
}

/// Checks where an environment volume appears inside a task.
pub fn validate_target(target: &str) -> (r: Result<(), TargetError>)
    ensures
        r is Ok <==> target_fault(target@) is None,
        r matches Err(e) ==> target_fault(target@) == Some(e),
{
    let cs = chars_of(target);
    let parts = crate::paths::components(cs.as_slice());
    let ghost c = crate::paths::parts_of(parts@);
    assert(c.len() == parts@.len());
    let absolute = cs.len() > 0 && cs[0] == '/';
    let only_root = parts.len() == 1 && match &parts[0] {
        crate::paths::Component::RootDir => true,
        _ => false,
    };
    proof {
        if parts@.len() == 1 {
            if only_root {
                assert(c =~= seq![PathPart::Root]);
            } else {
                assert(c[0] != PathPart::Root);
            }
        } else {
            assert(c.len() != 1);
        }
    }
    let mut i: usize = 0;
    let mut dots = false;
    while i < parts.len()
        invariant
            c == crate::paths::parts_of(parts@),
            i <= parts@.len(),
            dots == exists|k: int| 0 <= k < i && (c[k] == PathPart::Parent || c[k] == PathPart::Current),
        decreases parts@.len() - i,
    {
        let d = match &parts[i] {
            crate::paths::Component::ParentDir => true,
            crate::paths::Component::CurDir => true,
            _ => false,
        };
        assert(d == (c[i as int] == PathPart::Parent || c[i as int] == PathPart::Current));
        dots = dots || d;
        i = i + 1;
    }
    proof {
        if dots {
            let k = choose|k: int| 0 <= k < parts@.len() && (c[k] == PathPart::Parent || c[k] == PathPart::Current);
            if c[k] == PathPart::Parent {
                assert(c.contains(PathPart::Parent));
            } else {
                assert(c.contains(PathPart::Current));
            }
        }
    }
    if !absolute || only_root || dots {
        return Err(TargetError::NotNormalized);
    }
    let home = chars_of("/home/agent");
    if str_eq(target, "/workspace") || starts_with_chars(cs.as_slice(), home.as_slice()) {
        return Err(TargetError::Overlap);
    }
    Ok(())
}

/// The state directory of a task: `/var/lib/tinybox/tasks/<id>`.
pub fn state_dir(id: &str) -> (p: String)
    ensures
        p@ == join(TASK_STATE_ROOT@, id@),
{
    join_path(TASK_STATE_ROOT, id)
}

/// A path is one of the task state directories (its parent is the state
/// root, by components) and may be removed.
pub open spec fn state_path_ok(p: Seq<char>) -> bool {
    let c = path_components(p);
    &&& c.len() >= 1
    &&& c.last() != PathPart::Root
    &&& c.drop_last() == seq![
        PathPart::Root,
        PathPart::Normal("var"@),
        PathPart::Normal("lib"@),
        PathPart::Normal("tinybox"@),
        PathPart::Normal("tasks"@),
    ]
}

/// Whether a path may be removed as a task state directory.
pub fn check_state_path(path: &str) -> (b: bool)
    ensures
        b == state_path_ok(path@),
{
    let cs = chars_of(path);
    let parts = crate::paths::components(cs.as_slice());
    let ghost c = crate::paths::parts_of(parts@);
    assert(c.len() == parts@.len());
    if parts.len() != 6 {
        proof {
            if c.len() >= 1 {
                assert(c.drop_last().len() == c.len() - 1);
            }
        }
        return false;
    }
    let last_root = match &parts[5] {
        crate::paths::Component::RootDir => true,
        _ => false,
    };
    if last_root {
        return false;
    }
    let names = [chars_of("var"), chars_of("lib"), chars_of("tinybox"), chars_of("tasks")];
    let first_root = match &parts[0] {
        crate::paths::Component::RootDir => true,
        _ => false,
    };
    let ghost expected = seq![
        PathPart::Root,
        PathPart::Normal("var"@),
        PathPart::Normal("lib"@),
        PathPart::Normal("tinybox"@),
        PathPart::Normal("tasks"@),
    ];
    if !first_root {
        assert(c.drop_last()[0] != expected[0]);
        return false;
    }
    let mut k: usize = 1;
    while k < 5
        invariant
            1 <= k <= 5,
            c == crate::paths::parts_of(parts@),
            c == path_components(path@),
            parts@.len() == 6,
            names@.len() == 4,
            forall|j: int| 0 <= j < 4 ==> (#[trigger] names@[j])@ == expected[j + 1]->Normal_0,
            expected == seq![
                PathPart::Root,
                PathPart::Normal("var"@),
                PathPart::Normal("lib"@),
                PathPart::Normal("tinybox"@),
                PathPart::Normal("tasks"@),
            ],
            forall|j: int| 1 <= j < k ==> c[j] == expected[j],
        decreases 5 - k,
    {
        let ok = match &parts[k] {
            crate::paths::Component::Normal(v) => crate::text::chars_eq(v.as_slice(), names[k - 1].as_slice()),
            _ => false,
        };
        if !ok {
            assert(c.drop_last()[k as int] != expected[k as int]);
            return false;
        }
        k = k + 1;
    }
    assert(c.drop_last() =~= expected);
    true
}

/// The cgroup whose absence marks a state directory as orphaned: only
/// task directories (`task-...`) have one, `/sys/fs/cgroup/tinybox-<id>`.
pub fn orphan_marker(id: &str) -> (r: Option<String>)
    ensures
        r is Some <==> starts_with(id@, "task-"@),
        r matches Some(p) ==> p@ == join("/sys/fs/cgroup"@, "tinybox-"@ + id@),
{
    let cs = chars_of(id);
    let prefix = chars_of("task-");
    if !starts_with_chars(cs.as_slice(), prefix.as_slice()) {
        return None;
    }
    let name = concat("tinybox-", id);
    Some(join_path("/sys/fs/cgroup", name.as_str()))
}

/// The bind specification of a mapping: `<source>:<target>`, with `:ro`
/// for a read-only one.
pub fn mount_spec(source: &str, target: &str, read_only: bool) -> (s: String)
    ensures
        s@ == source@ + ":"@ + target@ + (if read_only { ":ro"@ } else { ""@ }),
{
    let a = concat(concat(source, ":").as_str(), target);
    if read_only {
        concat(a.as_str(), ":ro")
    } else {
        proof {
            reveal_strlit("");
        }
        assert(a@ =~= a@ + ""@);
        a
    }
}

/// The environment of a task: home, cache, locale and search path first,
/// then the requested entries, then the profile's (so a profile's tool and
/// cache settings cannot be shadowed).
pub fn base_environment(requested: &Vec<String>, profile_env: &Vec<String>) -> (env: Vec<String>)
    ensures
        strings_view(env@) == seq![
            "HOME=/home/agent"@,
            "XDG_CACHE_HOME=/home/agent/.cache"@,
            "LANG=C.UTF-8"@,
            "PATH=/usr/local/sbin:/usr/local/bin:/usr/sbin:/usr/bin:/sbin:/bin"@,
        ] + strings_view(requested@) + strings_view(profile_env@),
{
    let mut env: Vec<String> = Vec::new();
    env.push("HOME=/home/agent".to_owned());
    env.push("XDG_CACHE_HOME=/home/agent/.cache".to_owned());
    env.push("LANG=C.UTF-8".to_owned());
    env.push("PATH=/usr/local/sbin:/usr/local/bin:/usr/sbin:/usr/bin:/sbin:/bin".to_owned());
    let ghost head = strings_view(env@);
    let mut extra = copy_strings(requested);
    env.append(&mut extra);
    let ghost mid = strings_view(env@);
    assert(mid =~= head + strings_view(requested@));
    let mut more = copy_strings(profile_env);
    env.append(&mut more);
    assert(strings_view(env@) =~= mid + strings_view(profile_env@));
    env
}

/// Why a profile was refused.
#[derive(Debug)]
pub struct UnknownProfile {
    pub name: String,
}

/// The known profiles: `host-basic`, `rust`, `node`, `python`.
pub open spec fn known_profile(name: Seq<char>) -> bool {
    name == "host-basic"@ || name == "rust"@ || name == "node"@ || name == "python"@
}

/// The environment a profile adds, given the `bin` directory of its tool
/// where it has one.
pub open spec fn profile_env(name: Seq<char>, bin: Seq<char>) -> Seq<Seq<char>> {
    if name == "rust"@ {
        seq!["PATH="@ + bin + ":/usr/bin:/bin"@, "CARGO_HOME=/home/agent/.cache/cargo"@]
    } else if name == "node"@ {
        seq!["PATH="@ + bin + ":/usr/bin:/bin"@, "npm_config_cache=/home/agent/.cache/npm"@]
    } else if name == "python"@ {
        seq!["PIP_CACHE_DIR=/home/agent/.cache/pip"@]
    } else {
        Seq::empty()
    }
}

/// The environment a profile adds.
pub fn profile_environment(name: &str, bin: &str) -> (r: Result<Vec<String>, UnknownProfile>)
    ensures
        r is Ok <==> known_profile(name@),
        r matches Ok(v) ==> strings_view(v@) == profile_env(name@, bin@),
        r matches Err(e) ==> e.name@ == name@,
{
    proof {
        reveal_strlit("host-basic");
        reveal_strlit("rust");
        reveal_strlit("node");
        reveal_strlit("python");
    }
    let mut v: Vec<String> = Vec::new();
    if str_eq(name, "host-basic") {
        assert("host-basic"@.len() == 10 && "rust"@.len() == 4 && "node"@.len() == 4 && "python"@.len() == 6);
        assert(strings_view(v@) =~= Seq::<Seq<char>>::empty());
    } else if str_eq(name, "rust") {
        assert("rust"@[0] == 'r' && "node"@[0] == 'n' && "python"@.len() == 6);
        v.push(concat(concat("PATH=", bin).as_str(), ":/usr/bin:/bin"));
        v.push("CARGO_HOME=/home/agent/.cache/cargo".to_owned());
        assert(strings_view(v@) =~= seq!["PATH="@ + bin@ + ":/usr/bin:/bin"@, "CARGO_HOME=/home/agent/.cache/cargo"@]);
    } else if str_eq(name, "node") {
        v.push(concat(concat("PATH=", bin).as_str(), ":/usr/bin:/bin"));
        v.push("npm_config_cache=/home/agent/.cache/npm".to_owned());
        assert(strings_view(v@) =~= seq!["PATH="@ + bin@ + ":/usr/bin:/bin"@, "npm_config_cache=/home/agent/.cache/npm"@]);
    } else if str_eq(name, "python") {
        v.push("PIP_CACHE_DIR=/home/agent/.cache/pip".to_owned());
        assert(strings_view(v@) =~= seq!["PIP_CACHE_DIR=/home/agent/.cache/pip"@]);
    } else {
        return Err(UnknownProfile { name: name.to_owned() });
    }
    assert(strings_view(v@) =~= profile_env(name@, bin@));
    Ok(v)
}

/// The source label of an environment: `host`, `rootfs`, or
/// `profile:<name>`.
pub fn source_label(request: &EnvironmentRequest) -> (s: String)
    ensures
        s@ == (match request {
            EnvironmentRequest::Host => "host"@,
            EnvironmentRequest::Rootfs { .. } => "rootfs"@,
            EnvironmentRequest::Profile { name } => "profile:"@ + name@,
        }),
{
    match request {
        EnvironmentRequest::Host => "host".to_owned(),
        EnvironmentRequest::Rootfs { .. } => "rootfs".to_owned(),
        EnvironmentRequest::Profile { name } => concat("profile:", name.as_str()),
    }
}

// ---------------------------------------------------------------------------
// Assembling a prepared environment

pub open spec fn volume_view(v: EnvironmentVolume) -> (Seq<char>, Seq<char>, bool) {
    (v.source@, v.target@, v.read_only)
}

pub open spec fn volumes_view(vs: Seq<EnvironmentVolume>) -> Seq<(Seq<char>, Seq<char>, bool)> {
    vs.map_values(|v: EnvironmentVolume| volume_view(v))
}

pub open spec fn mapping_view(m: Mapping) -> (Seq<char>, Seq<char>, Seq<char>) {
    (m.source@, m.target@, m.mode@)
}

pub open spec fn mappings_view(ms: Seq<Mapping>) -> Seq<(Seq<char>, Seq<char>, Seq<char>)> {
    ms.map_values(|m: Mapping| mapping_view(m))
}

pub open spec fn fs_paths_view(v: Seq<(String, FsAccess)>) -> Seq<(Seq<char>, FsAccess)> {
    v.map_values(|p: (String, FsAccess)| (p.0@, p.1))
}

/// The fault of the first volume whose target is refused, if any.
pub open spec fn first_target_fault(vs: Seq<(Seq<char>, Seq<char>, bool)>) -> Option<TargetError>
    decreases vs.len(),
{
    if vs.len() == 0 {
        None
    } else {
        match first_target_fault(vs.drop_last()) {
            Some(e) => Some(e),
            None => target_fault(vs.last().1),
        }
    }
}

/// How a volume is mapped: `read_only` or `direct`.
pub open spec fn volume_mode(read_only: bool) -> Seq<char> {
    if read_only { "read_only"@ } else { "direct"@ }
}

/// The mappings of an environment: the workspace, the private home under
/// the state directory, each volume, then each tool path read-only at its
/// own place.
pub open spec fn mappings_of(
    state: Seq<char>,
    workspace: Seq<char>,
    vs: Seq<(Seq<char>, Seq<char>, bool)>,
    tools: Seq<Seq<char>>,
) -> Seq<(Seq<char>, Seq<char>, Seq<char>)> {
    seq![(workspace, "/workspace"@, "direct"@), (join(state, "home"@), "/home/agent"@, "private_write"@)]
        + vs.map_values(|v: (Seq<char>, Seq<char>, bool)| (v.0, v.1, volume_mode(v.2)))
        + tools.map_values(|t: Seq<char>| (t, t, "read_only"@))
}

/// The bind specifications a task is launched with: the workspace, the
/// home, then each volume.
pub open spec fn mount_specs_of(state: Seq<char>, workspace: Seq<char>, vs: Seq<(Seq<char>, Seq<char>, bool)>) -> Seq<Seq<char>> {
    seq![workspace + ":/workspace"@, join(state, "home"@) + ":/home/agent"@]
        + vs.map_values(|v: (Seq<char>, Seq<char>, bool)| v.0 + ":"@ + v.1 + (if v.2 { ":ro"@ } else { ""@ }))
}

/// The task's environment variables (see [`base_environment`]).
pub open spec fn environment_of(requested: Seq<Seq<char>>, profile: Seq<Seq<char>>) -> Seq<Seq<char>> {
    seq![
        "HOME=/home/agent"@,
        "XDG_CACHE_HOME=/home/agent/.cache"@,
        "LANG=C.UTF-8"@,
        "PATH=/usr/local/sbin:/usr/local/bin:/usr/sbin:/usr/bin:/sbin:/bin"@,
    ] + requested + profile
}

/// The paths a task may use: workspace and home fully, tool paths to read
/// and execute.
pub open spec fn fs_paths_of(tools: Seq<Seq<char>>) -> Seq<(Seq<char>, FsAccess)> {
    seq![("/workspace"@, FsAccess::ReadWriteExecute), ("/home/agent"@, FsAccess::ReadWriteExecute)]
        + tools.map_values(|t: Seq<char>| (t, FsAccess::ReadExecute))
}

fn check_volumes(volumes: &Vec<EnvironmentVolume>) -> (r: Result<(), TargetError>)
    ensures
        r is Ok <==> first_target_fault(volumes_view(volumes@)) is None,
        r matches Err(e) ==> first_target_fault(volumes_view(volumes@)) == Some(e),
{
    let ghost vv = volumes_view(volumes@);
    let mut i: usize = 0;
    while i < volumes.len()
        invariant
            vv == volumes_view(volumes@),
            i <= volumes@.len(),
            first_target_fault(vv.subrange(0, i as int)) is None,
        decreases volumes@.len() - i,
    {
        let ghost sub = vv.subrange(0, i + 1);
        assert(sub.drop_last() =~= vv.subrange(0, i as int));
        assert(sub.last() == volume_view(volumes@[i as int]));
        match validate_target(volumes[i].target.as_str()) {
            Err(e) => {
                proof {
                    lemma_target_fault_prefix(vv, i + 1);
                }
                return Err(e);
            },
            Ok(()) => {},
        }
        i = i + 1;
    }
    assert(vv.subrange(0, vv.len() as int) =~= vv);
    Ok(())
}

proof fn lemma_target_fault_prefix(vs: Seq<(Seq<char>, Seq<char>, bool)>, k: int)
    requires
        0 <= k <= vs.len(),
        first_target_fault(vs.subrange(0, k)) is Some,
    ensures
        first_target_fault(vs) == first_target_fault(vs.subrange(0, k)),
    decreases vs.len() - k,
{
    if k < vs.len() {
        let sub = vs.subrange(0, k + 1);
        assert(sub.drop_last() =~= vs.subrange(0, k));
        lemma_target_fault_prefix(vs, k + 1);
    } else {
        assert(vs.subrange(0, k) =~= vs);
    }
}

fn mapping(source: String, target: &str, mode: &str) -> (m: Mapping)
    ensures
        mapping_view(m) == (source@, target@, mode@),
{
    Mapping { source, target: target.to_owned(), mode: mode.to_owned() }
}

/// Everything a task environment is made of, once the host side is known:
/// `source`, `rootfs` and the profile's environment and tool paths as the
/// source resolved to, `workspace` and each volume's source as canonical
/// host paths.  Refuses the first volume whose target is refused.
pub fn assemble(
    id: &str,
    source: String,
    rootfs: String,
    workspace: &str,
    volumes: &Vec<EnvironmentVolume>,
    requested_env: &Vec<String>,
    profile_env: &Vec<String>,
    tool_paths: &Vec<String>,
) -> (r: Result<(EnvironmentManifest, PreparedEnvironment), TargetError>)
    ensures
        r is Err <==> first_target_fault(volumes_view(volumes@)) is Some,
        r matches Err(e) ==> first_target_fault(volumes_view(volumes@)) == Some(e),
        r matches Ok(parts) ==> {
            let (m, p) = parts;
            let state = join(TASK_STATE_ROOT@, id@);
            let vv = volumes_view(volumes@);
            let tools = strings_view(tool_paths@);
            &&& m.version == 1
            &&& m.source@ == source@
            &&& m.base_rootfs@ == rootfs@
            &&& m.workspace@ == "/workspace"@
            &&& m.home@ == "/home/agent"@
            &&& m.cache@ == "/home/agent/.cache"@
            &&& mappings_view(m.mappings@) == mappings_of(state, workspace@, vv, tools)
            &&& p.state_dir@ == state
            &&& p.rootfs@ == rootfs@
            &&& p.rootfs_work_dir@ == join(state, "rootfs"@)
            &&& strings_view(p.volumes@) == mount_specs_of(state, workspace@, vv)
            &&& strings_view(p.env@) == environment_of(strings_view(requested_env@), strings_view(profile_env@))
            &&& fs_paths_view(p.filesystem_paths@) == fs_paths_of(tools)
        },
{
    check_volumes(volumes)?;
    let ghost vv = volumes_view(volumes@);
    let ghost tools = strings_view(tool_paths@);
    let state = state_dir(id);
    let home = join_path(state.as_str(), "home");
    let mut mappings: Vec<Mapping> = Vec::new();
    let mut specs: Vec<String> = Vec::new();
    specs.push(concat(workspace, ":/workspace"));
    specs.push(concat(home.as_str(), ":/home/agent"));
    mappings.push(mapping(workspace.to_owned(), "/workspace", "direct"));
    mappings.push(mapping(home, "/home/agent", "private_write"));
    let ghost head_m = mappings_view(mappings@);
    let ghost head_s = strings_view(specs@);
    assert(head_m =~= seq![(workspace@, "/workspace"@, "direct"@), (join(state@, "home"@), "/home/agent"@, "private_write"@)]);
    assert(head_s =~= seq![workspace@ + ":/workspace"@, join(state@, "home"@) + ":/home/agent"@]);
    let mut i: usize = 0;
    while i < volumes.len()
        invariant
            vv == volumes_view(volumes@),
            i <= volumes@.len(),
            mappings_view(mappings@) == head_m + vv.subrange(0, i as int).map_values(
                |v: (Seq<char>, Seq<char>, bool)| (v.0, v.1, volume_mode(v.2)),
            ),
            strings_view(specs@) == head_s + vv.subrange(0, i as int).map_values(
                |v: (Seq<char>, Seq<char>, bool)| v.0 + ":"@ + v.1 + (if v.2 { ":ro"@ } else { ""@ }),
            ),
        decreases volumes@.len() - i,
    {
        let v = &volumes[i];
        assert(vv[i as int] == volume_view(*v));
        let ghost before_m = mappings_view(mappings@);
        let ghost before_s = strings_view(specs@);
        let mode = if v.read_only { "read_only" } else { "direct" };
        mappings.push(mapping(v.source.clone(), v.target.as_str(), mode));
        specs.push(mount_spec(v.source.as_str(), v.target.as_str(), v.read_only));
        assert(mappings_view(mappings@) =~= before_m.push((v.source@, v.target@, volume_mode(v.read_only))));
        assert(strings_view(specs@) =~= before_s.push(v.source@ + ":"@ + v.target@ + (if v.read_only { ":ro"@ } else { ""@ })));
        assert(vv.subrange(0, i + 1).drop_last() =~= vv.subrange(0, i as int));
        assert(vv.subrange(0, i + 1).map_values(|v: (Seq<char>, Seq<char>, bool)| (v.0, v.1, volume_mode(v.2)))
            =~= vv.subrange(0, i as int).map_values(|v: (Seq<char>, Seq<char>, bool)| (v.0, v.1, volume_mode(v.2))).push(
                (v.source@, v.target@, volume_mode(v.read_only)),
            ));
        assert(vv.subrange(0, i + 1).map_values(
            |v: (Seq<char>, Seq<char>, bool)| v.0 + ":"@ + v.1 + (if v.2 { ":ro"@ } else { ""@ }),
        ) =~= vv.subrange(0, i as int).map_values(
            |v: (Seq<char>, Seq<char>, bool)| v.0 + ":"@ + v.1 + (if v.2 { ":ro"@ } else { ""@ }),
        ).push(v.source@ + ":"@ + v.target@ + (if v.read_only { ":ro"@ } else { ""@ })));
        i = i + 1;
    }
    assert(vv.subrange(0, vv.len() as int) =~= vv);
    let ghost mid_m = mappings_view(mappings@);
    let mut paths: Vec<(String, FsAccess)> = Vec::new();
    paths.push(("/workspace".to_owned(), FsAccess::ReadWriteExecute));
    paths.push(("/home/agent".to_owned(), FsAccess::ReadWriteExecute));
    let ghost head_p = fs_paths_view(paths@);
    assert(head_p =~= seq![("/workspace"@, FsAccess::ReadWriteExecute), ("/home/agent"@, FsAccess::ReadWriteExecute)]);
    let mut k: usize = 0;
    while k < tool_paths.len()
        invariant
            tools == strings_view(tool_paths@),
            k <= tool_paths@.len(),
            mappings_view(mappings@) == mid_m + tools.subrange(0, k as int).map_values(|t: Seq<char>| (t, t, "read_only"@)),
            fs_paths_view(paths@) == head_p + tools.subrange(0, k as int).map_values(|t: Seq<char>| (t, FsAccess::ReadExecute)),
        decreases tool_paths@.len() - k,
    {
        let t = &tool_paths[k];
        assert(tools[k as int] == t@);
        let ghost before_m = mappings_view(mappings@);
        let ghost before_p = fs_paths_view(paths@);
        mappings.push(mapping(t.clone(), t.as_str(), "read_only"));
        paths.push((t.clone(), FsAccess::ReadExecute));
        assert(mappings_view(mappings@) =~= before_m.push((t@, t@, "read_only"@)));
        assert(fs_paths_view(paths@) =~= before_p.push((t@, FsAccess::ReadExecute)));
        assert(tools.subrange(0, k + 1).map_values(|t: Seq<char>| (t, t, "read_only"@))
            =~= tools.subrange(0, k as int).map_values(|t: Seq<char>| (t, t, "read_only"@)).push((t@, t@, "read_only"@)));
        assert(tools.subrange(0, k + 1).map_values(|t: Seq<char>| (t, FsAccess::ReadExecute))
            =~= tools.subrange(0, k as int).map_values(|t: Seq<char>| (t, FsAccess::ReadExecute)).push((t@, FsAccess::ReadExecute)));
        k = k + 1;
    }
    assert(tools.subrange(0, tools.len() as int) =~= tools);
    assert(mappings_view(mappings@) =~= mappings_of(state@, workspace@, vv, tools));
    assert(strings_view(specs@) =~= mount_specs_of(state@, workspace@, vv));
    assert(fs_paths_view(paths@) =~= fs_paths_of(tools));
    let env = base_environment(requested_env, profile_env);
    let work_dir = join_path(state.as_str(), "rootfs");
    let manifest = EnvironmentManifest {
        version: 1,
        source,
        base_rootfs: rootfs.clone(),
        workspace: "/workspace".to_owned(),
        home: "/home/agent".to_owned(),
        cache: "/home/agent/.cache".to_owned(),
        mappings,
    };
    let prepared = PreparedEnvironment {
        state_dir: state,
        rootfs,
        rootfs_work_dir: work_dir,
        volumes: specs,
        env,
        filesystem_paths: paths,
    };
    Ok((manifest, prepared))
}

// ---------------------------------------------------------------------------
// Profile tools

/// The host tool a profile needs: its command name and how many
/// directories above its `bin` directory its installation starts.
pub open spec fn tool_for_profile(name: Seq<char>) -> Option<(Seq<char>, nat)> {
    if name == "rust"@ {
        Some(("rustc"@, 2))
    } else if name == "node"@ {
        Some(("node"@, 1))
    } else {
        None
    }
}

/// The host tool that profile `name` is built on, if any.
pub fn profile_tool(name: &str) -> (r: Option<(String, usize)>)
    ensures
        match r {
            Some(t) => tool_for_profile(name@) == Some((t.0@, t.1 as nat)),
            None => tool_for_profile(name@) is None,
        },
{
    if str_eq(name, "rust") {
        Some(("rustc".to_owned(), 2))
    } else if str_eq(name, "node") {
        Some(("node".to_owned(), 1))
    } else {
        None
    }
}

/// The host paths a profile shows read-only: its tool's `bin` and
/// installation directories, and for `node` the system certificates.
pub open spec fn paths_for_profile(name: Seq<char>, bin: Seq<char>, install: Seq<char>) -> Seq<Seq<char>> {
    if name == "rust"@ {
        seq![bin, install]
    } else if name == "node"@ {
        seq![bin, install, "/etc/ssl"@]
    } else {
        Seq::empty()
    }
}

/// The host paths that profile `name` shows, given where its tool lives.
pub fn profile_paths(name: &str, bin: &str, install: &str) -> (v: Vec<String>)
    ensures
        strings_view(v@) == paths_for_profile(name@, bin@, install@),
{
    let mut v: Vec<String> = Vec::new();
    if str_eq(name, "rust") {
        v.push(bin.to_owned());
        v.push(install.to_owned());
        assert(strings_view(v@) =~= seq![bin@, install@]);
    } else if str_eq(name, "node") {
        v.push(bin.to_owned());
        v.push(install.to_owned());
        v.push("/etc/ssl".to_owned());
        assert(strings_view(v@) =~= seq![bin@, install@, "/etc/ssl"@]);
    } else {
        assert(strings_view(v@) =~= Seq::<Seq<char>>::empty());
    }
    v
}

/// The home directory of `user` on one `/etc/passwd` line: its sixth
/// `:`-separated field, where the line has six fields and names the user.
pub open spec fn passwd_entry_home(line: Seq<char>, user: Seq<char>) -> Option<Seq<char>> {
    let f = crate::paths::split_on(line, ':');
    if f.len() >= 6 && f[0] == user {
        Some(f[5])
    } else {
        None
    }
}

pub open spec fn home_finder(user: Seq<char>) -> spec_fn(Seq<char>, int) -> Option<Seq<char>> {
    |line: Seq<char>, i: int| passwd_entry_home(line, user)
}

/// The home directory of `user` in `/etc/passwd`: that of the first line
/// that names the user.
pub open spec fn passwd_home_of(passwd: Seq<char>, user: Seq<char>) -> Option<Seq<char>> {
    let ls = crate::task::lines(passwd);
    crate::text::first_fault(ls, ls.len() as int, home_finder(user))
}

/// Finds the home directory of `user` in the text of `/etc/passwd`.
pub fn passwd_home(passwd: &str, user: &str) -> (r: Option<String>)
    ensures
        match r {
            Some(h) => passwd_home_of(passwd@, user@) == Some(h@),
            None => passwd_home_of(passwd@, user@) is None,
        },
{
    let ls = crate::task::lines_of(passwd);
    let ghost lv = crate::paths::seqs_of(ls@);
    let uc = chars_of(user);
    let mut i: usize = 0;
    while i < ls.len()
        invariant
            lv == crate::paths::seqs_of(ls@),
            lv == crate::task::lines(passwd@),
            uc@ == user@,
            i <= ls@.len(),
            crate::text::first_fault(lv, i as int, home_finder(user@)) is None,
        decreases ls@.len() - i,
    {
        assert(lv[i as int] == ls@[i as int]@);
        let fields = crate::paths::split_chars(ls[i].as_slice(), ':');
        let ghost fv = crate::paths::seqs_of(fields@);
        assert(fv.len() == fields@.len());
        if fields.len() >= 6 {
            assert(fv[0] == fields@[0]@);
            if crate::text::chars_eq(fields[0].as_slice(), uc.as_slice()) {
                assert(fv[5] == fields@[5]@);
                let h = crate::text::string_of(fields[5].as_slice());
                proof {
                    crate::text::lemma_first_fault_stable(lv, i + 1, lv.len() as int, home_finder(user@));
                }
                return Some(h);
            }
        }
        i = i + 1;
    }
    None
}

/// Whether toolchain entry `a` goes before `b` when a rustup toolchain is
/// picked: one whose path names `stable` first, then by name.
pub open spec fn toolchain_before(a: (bool, Seq<char>), b: (bool, Seq<char>)) -> bool {
    (a.0 && !b.0) || (a.0 == b.0 && crate::task::lex_lt(a.1, b.1))
}

pub open spec fn entry_view(e: (bool, String)) -> (bool, Seq<char>) {
    (e.0, e.1@)
}

/// Picks a rustup toolchain among the existing ones, each given by whether
/// its path holds `stable` and by its directory name: the first entry that
/// no entry goes before, as a stable sort puts first.
pub fn pick_toolchain(entries: &Vec<(bool, String)>) -> (r: Option<usize>)
    ensures
        r is None <==> entries@.len() == 0,
        r matches Some(i) ==> i < entries@.len()
            && (forall|j: int| 0 <= j < entries@.len() ==> !toolchain_before(
                #[trigger] entry_view(entries@[j]), entry_view(entries@[i as int]),
            ))
            && (forall|j: int| 0 <= j < i ==> toolchain_before(
                entry_view(entries@[i as int]), #[trigger] entry_view(entries@[j]),
            )),
{
    if entries.len() == 0 {
        return None;
    }
    let mut best: usize = 0;
    let mut k: usize = 1;
    proof {
        lemma_before_irreflexive(entry_view(entries@[0]));
    }
    while k < entries.len()
        invariant
            1 <= k <= entries@.len(),
            best < k,
            forall|j: int| 0 <= j < k ==> !toolchain_before(#[trigger] entry_view(entries@[j]), entry_view(entries@[best as int])),
            forall|j: int| 0 <= j < best ==> toolchain_before(entry_view(entries@[best as int]), #[trigger] entry_view(entries@[j])),
        decreases entries@.len() - k,
    {
        let a = entries[k].0;
        let b = entries[best].0;
        let earlier = (a && !b) || (a == b && crate::task::lex_less(
            crate::text::chars_of(entries[k].1.as_str()).as_slice(),
            crate::text::chars_of(entries[best].1.as_str()).as_slice(),
        ));
        assert(earlier == toolchain_before(entry_view(entries@[k as int]), entry_view(entries@[best as int])));
        if earlier {
            proof {
                let e = entry_view(entries@[k as int]);
                let old_best = entry_view(entries@[best as int]);
                assert forall|j: int| 0 <= j < k + 1 implies !toolchain_before(#[trigger] entry_view(entries@[j]), e) by {
                    lemma_before_order(entry_view(entries@[j]), old_best, e);
                }
                assert forall|j: int| 0 <= j < k implies toolchain_before(e, #[trigger] entry_view(entries@[j])) by {
                    lemma_before_total(e, old_best, entry_view(entries@[j]));
                }
            }
            best = k;
        }
        k = k + 1;
    }
    Some(best)
}

proof fn lemma_before_irreflexive(a: (bool, Seq<char>))
    ensures
        !toolchain_before(a, a),
{
    crate::task::lemma_lex_irreflexive(a.1);
}

proof fn lemma_before_order(x: (bool, Seq<char>), old_best: (bool, Seq<char>), e: (bool, Seq<char>))
    requires
        !toolchain_before(x, old_best) || x == e,
        toolchain_before(e, old_best),
    ensures
        !toolchain_before(x, e),
{
    lemma_before_irreflexive(e);
    if x != e && toolchain_before(x, e) {
        if x.0 == e.0 && e.0 == old_best.0 {
            crate::task::lemma_lex_transitive(x.1, e.1, old_best.1);
        }
    }
}

proof fn lemma_before_total(e: (bool, Seq<char>), old_best: (bool, Seq<char>), y: (bool, Seq<char>))
    requires
        toolchain_before(e, old_best),
        !toolchain_before(y, old_best),
    ensures
        toolchain_before(e, y),
{
    if e.0 == y.0 && y.0 == old_best.0 {
        if y.1 == old_best.1 {
        } else {
            crate::task::lemma_lex_total(y.1, old_best.1);
            crate::task::lemma_lex_asymmetric(old_best.1, y.1);
            crate::task::lemma_lex_transitive(e.1, old_best.1, y.1);
        }
    }
}

/// Picks the newest Node.js version directory, as sorting them and taking
/// the last does: an entry no other entry sorts after, the last such one.
pub fn pick_latest(names: &Vec<String>) -> (r: Option<usize>)
    ensures
        r is None <==> names@.len() == 0,
        r matches Some(i) ==> i < names@.len()
            && (forall|j: int| 0 <= j < names@.len() ==> !crate::task::lex_lt(names@[i as int]@, #[trigger] names@[j]@))
            && (forall|j: int| i < j < names@.len() ==> crate::task::lex_lt(#[trigger] names@[j]@, names@[i as int]@)),
{
    if names.len() == 0 {
        return None;
    }
    let mut best: usize = 0;
    let mut k: usize = 1;
    proof {
        crate::task::lemma_lex_irreflexive(names@[0]@);
    }
    while k < names.len()
        invariant
            1 <= k <= names@.len(),
            best < k,
            forall|j: int| 0 <= j < k ==> !crate::task::lex_lt(names@[best as int]@, #[trigger] names@[j]@),
            forall|j: int| best < j < k ==> crate::task::lex_lt(#[trigger] names@[j]@, names@[best as int]@),
        decreases names@.len() - k,
    {
        let smaller = crate::task::lex_less(
            crate::text::chars_of(names[k].as_str()).as_slice(),
            crate::text::chars_of(names[best].as_str()).as_slice(),
        );
        if !smaller {
            proof {
                let e = names@[k as int]@;
                let b = names@[best as int]@;
                crate::task::lemma_lex_irreflexive(e);
                assert forall|j: int| 0 <= j < k + 1 implies !crate::task::lex_lt(e, #[trigger] names@[j]@) by {
                    let x = names@[j]@;
                    if j < k && crate::task::lex_lt(e, x) {
                        if e == b {
                        } else {
                            crate::task::lemma_lex_total(e, b);
                            crate::task::lemma_lex_transitive(b, e, x);
                        }
                    }
                }
            }
            best = k;
        } else {
            proof {
                crate::task::lemma_lex_asymmetric(names@[k as int]@, names@[best as int]@);
            }
        }
        k = k + 1;
    }
    Some(best)
}

/// The text a [`TargetError`] is reported with.
pub open spec fn target_error_text(e: TargetError) -> Seq<char> {
    match e {
        TargetError::NotNormalized => "volume target must be a normalized absolute non-root path"@,
        TargetError::Overlap => "volume target overlaps a managed environment path"@,
    }
}

impl TargetError {
    /// The error text.
    pub fn message(&self) -> (m: String)
        ensures
            m@ == target_error_text(*self),
    {
        match self {
            TargetError::NotNormalized => "volume target must be a normalized absolute non-root path".to_owned(),
            TargetError::Overlap => "volume target overlaps a managed environment path".to_owned(),
        }
    }
}

} // verus!
