//! The subset of an OCI runtime bundle that the sandbox honours.
use vstd::prelude::*;
use crate::text::str_eq;
use crate::paths::{join, join_path};
use crate::policy::strings_view;

verus! {

/// A namespace type that an OCI bundle may list.
#[derive(Clone, Copy, PartialEq, Eq, Structural, Debug)]
pub enum NamespaceType {
    Pid,
    Mount,
    Uts,
    Network,
    Ipc,
    Cgroup,
}

/// Why a namespace type was refused.
#[derive(Clone, Copy, PartialEq, Eq, Structural, Debug)]
pub enum NamespaceError {
    /// `user`: refused until uid/gid mappings exist.
    UserUnsupported,
    /// Any name other than the six known types and `user`.
    Unknown,
}

/// The namespace type that an OCI type name denotes.
pub open spec fn namespace_of(name: Seq<char>) -> Result<NamespaceType, NamespaceError> {
    if name == "pid"@ {
        Ok(NamespaceType::Pid)
    } else if name == "mount"@ {
        Ok(NamespaceType::Mount)
    } else if name == "uts"@ {
        Ok(NamespaceType::Uts)
    } else if name == "network"@ {
        Ok(NamespaceType::Network)
    } else if name == "ipc"@ {
        Ok(NamespaceType::Ipc)
    } else if name == "cgroup"@ {
        Ok(NamespaceType::Cgroup)
    } else if name == "user"@ {
        Err(NamespaceError::UserUnsupported)
    } else {
        Err(NamespaceError::Unknown)
    }
}

impl NamespaceType {
    /// Parses an OCI namespace type name; fails closed on anything else.
    pub fn parse(value: &str) -> (r: Result<NamespaceType, NamespaceError>)
        ensures
            r == namespace_of(value@),
    {
        if str_eq(value, "pid") {
            Ok(NamespaceType::Pid)
        } else if str_eq(value, "mount") {
            Ok(NamespaceType::Mount)
        } else if str_eq(value, "uts") {
            Ok(NamespaceType::Uts)
        } else if str_eq(value, "network") {
            Ok(NamespaceType::Network)
        } else if str_eq(value, "ipc") {
            Ok(NamespaceType::Ipc)
        } else if str_eq(value, "cgroup") {
            Ok(NamespaceType::Cgroup)
        } else if str_eq(value, "user") {
            Err(NamespaceError::UserUnsupported)
        } else {
            Err(NamespaceError::Unknown)
        }
    }
}

/// `process.user` of `config.json`.
#[derive(Debug)]
pub struct OciUser {
    pub uid: u32,
    pub gid: u32,
}

/// `process` of `config.json`.
#[derive(Debug)]
pub struct OciProcess {
    pub args: Vec<String>,
    pub env: Vec<String>,
    pub cwd: Option<String>,
    pub user: Option<OciUser>,
}

/// `root` of `config.json`.
#[derive(Debug)]
pub struct OciRoot {
    pub path: String,
    pub readonly: bool,
}

/// `linux` of `config.json`: the listed namespace type names.
#[derive(Debug)]
pub struct OciLinux {
    pub namespaces: Vec<String>,
}

/// The fields of `config.json` that the sandbox reads.
#[derive(Debug)]
pub struct OciConfig {
    pub process: Option<OciProcess>,
    pub root: Option<OciRoot>,
    pub linux: Option<OciLinux>,
}

/// What a bundle asks the sandbox to run.  `namespaces` is `None` when the
/// bundle lists none: then every default namespace is created.
#[derive(Debug)]
pub struct OciBundle {
    pub command: Vec<String>,
    pub rootfs: String,
    pub env: Vec<String>,
    pub root_readonly: bool,
    pub cwd: Option<String>,
    pub uid: u32,
    pub gid: u32,
    pub namespaces: Option<Vec<NamespaceType>>,
}

/// Why a bundle was refused.
#[derive(Clone, Copy, PartialEq, Eq, Structural, Debug)]
pub enum OciError {
    MissingProcess,
    EmptyArgs,
    MissingRoot,
    RootfsNotDirectory,
    /// The namespace at this index of `linux.namespaces` was refused.
    Namespace(usize, NamespaceError),
}

/// The rootfs directory of a bundle: `root.path`, relative to the bundle
/// directory unless absolute.
pub open spec fn bundle_rootfs(bundle: Seq<char>, root_path: Seq<char>) -> Seq<char> {
    join(bundle, root_path)
}

pub fn rootfs_path(bundle: &str, root_path: &str) -> (r: String)
    ensures
        r@ == bundle_rootfs(bundle@, root_path@),
{
    join_path(bundle, root_path)
}

/// The first refused namespace of a list, if any.
pub open spec fn first_bad_namespace(names: Seq<Seq<char>>) -> Option<(int, NamespaceError)> {
    if exists|i: int| 0 <= i < names.len() && namespace_of(names[i]) is Err {
        let i = choose|i: int| 0 <= i < names.len() && namespace_of(names[i]) is Err
            && forall|j: int| 0 <= j < i ==> namespace_of(names[j]) is Ok;
        Some((i, namespace_of(names[i])->Err_0))
    } else {
        None
    }
}

/// Parses every listed namespace, stopping at the first refused one.
pub fn parse_namespaces(names: &Vec<String>) -> (r: Result<Vec<NamespaceType>, (usize, NamespaceError)>)
    ensures
        r matches Ok(v) ==> first_bad_namespace(strings_view(names@)) is None
            && v@.len() == names@.len()
            && forall|i: int| 0 <= i < v@.len() ==> namespace_of(names@[i]@) == Ok::<NamespaceType, NamespaceError>(#[trigger] v@[i]),
        r matches Err((i, e)) ==> first_bad_namespace(strings_view(names@)) == Some((i as int, e)),
{
    let ghost view = strings_view(names@);
    let mut out: Vec<NamespaceType> = Vec::new();
    let mut i: usize = 0;
    while i < names.len()
        invariant
            view == strings_view(names@),
            i <= names@.len(),
            out@.len() == i,
            forall|j: int| 0 <= j < i ==> namespace_of(names@[j]@) == Ok::<NamespaceType, NamespaceError>(#[trigger] out@[j]),
        decreases names@.len() - i,
    {
        assert(view[i as int] == names@[i as int]@);
        match NamespaceType::parse(names[i].as_str()) {
            Ok(t) => {
                out.push(t);
            },
            Err(e) => {
                proof {
                    let w = choose|k: int| 0 <= k < view.len() && namespace_of(view[k]) is Err
                        && forall|j: int| 0 <= j < k ==> namespace_of(view[j]) is Ok;
                    assert(namespace_of(view[i as int]) is Err);
                    assert(forall|j: int| 0 <= j < i ==> namespace_of(#[trigger] view[j]) is Ok) by {
                        assert forall|j: int| 0 <= j < i implies namespace_of(#[trigger] view[j]) is Ok by {
                            assert(view[j] == names@[j]@);
                            assert(namespace_of(names@[j]@) == Ok::<NamespaceType, NamespaceError>(out@[j]));
                        }
                    }
                    if w < i {
                        assert(view[w] == names@[w]@);
                        assert(namespace_of(names@[w]@) == Ok::<NamespaceType, NamespaceError>(out@[w]));
                    }
                    if w > i {
                    }
                }
                return Err((i, e));
            },
        }
        i = i + 1;
    }
    proof {
        if exists|k: int| 0 <= k < view.len() && namespace_of(view[k]) is Err {
            let k = choose|k: int| 0 <= k < view.len() && namespace_of(view[k]) is Err;
            assert(view[k] == names@[k]@);
            assert(namespace_of(names@[k]@) == Ok::<NamespaceType, NamespaceError>(out@[k]));
        }
    }
    Ok(out)
}

/// What `load_bundle` gives for a configuration, given whether the rootfs
/// it names is a directory.
pub open spec fn bundle_fault(config_has_process: bool, args_empty: bool, has_root: bool, rootfs_is_dir: bool) -> Option<OciError> {
    if !config_has_process {
        Some(OciError::MissingProcess)
    } else if args_empty {
        Some(OciError::EmptyArgs)
    } else if !has_root {
        Some(OciError::MissingRoot)
    } else if !rootfs_is_dir {
        Some(OciError::RootfsNotDirectory)
    } else {
        None
    }
}

/// Turns a parsed `config.json` of the bundle at `bundle` into what the
/// sandbox runs.  `rootfs_is_dir` says whether the path
/// `rootfs_path(bundle, root.path)` is a directory.
pub fn load_bundle(bundle: &str, config: OciConfig, rootfs_is_dir: bool) -> (r: Result<OciBundle, OciError>)
    ensures
        ({
            let fault = bundle_fault(
                config.process is Some,
                config.process is Some && config.process->0.args@.len() == 0,
                config.root is Some,
                rootfs_is_dir,
            );
            &&& fault is Some ==> r == Err::<OciBundle, OciError>(fault->0)
            &&& fault is None ==> {
                let process = config.process->0;
                let root = config.root->0;
                let listed = config.linux is Some && config.linux->0.namespaces@.len() > 0;
                &&& listed ==> (match first_bad_namespace(strings_view(config.linux->0.namespaces@)) {
                    Some((i, e)) => r == Err::<OciBundle, OciError>(OciError::Namespace(i as usize, e)),
                    None => r is Ok,
                })
                &&& !listed ==> r is Ok
                &&& r matches Ok(b) ==> {
                    &&& strings_view(b.command@) == strings_view(process.args@)
                    &&& strings_view(b.env@) == strings_view(process.env@)
                    &&& b.rootfs@ == bundle_rootfs(bundle@, root.path@)
                    &&& b.root_readonly == root.readonly
                    &&& b.cwd == process.cwd
                    &&& b.uid == (match process.user { Some(u) => u.uid, None => 0 })
                    &&& b.gid == (match process.user { Some(u) => u.gid, None => 0 })
                    &&& (listed ==> (b.namespaces matches Some(v) && v@.len() == config.linux->0.namespaces@.len()
                        && forall|i: int| 0 <= i < v@.len() ==> namespace_of(config.linux->0.namespaces@[i]@) == Ok::<NamespaceType, NamespaceError>(#[trigger] v@[i])))
                    &&& (!listed ==> b.namespaces is None)
                }
            }
        }),
{
    let process = match config.process {
        Some(p) => p,
        None => return Err(OciError::MissingProcess),
    };
    if process.args.len() == 0 {
        return Err(OciError::EmptyArgs);
    }
    let root = match config.root {
        Some(r) => r,
        None => return Err(OciError::MissingRoot),
    };
    let rootfs = rootfs_path(bundle, root.path.as_str());
    if !rootfs_is_dir {
        return Err(OciError::RootfsNotDirectory);
    }
    let (uid, gid) = match process.user {
        Some(u) => (u.uid, u.gid),
        None => (0u32, 0u32),
    };
    let namespaces = match config.linux {
        Some(linux) => {
            if linux.namespaces.len() > 0 {
                match parse_namespaces(&linux.namespaces) {
                    Ok(v) => Some(v),
                    Err((i, e)) => return Err(OciError::Namespace(i, e)),
                }
            } else {
                None
            }
        },
        None => None,
    };
    Ok(OciBundle {
        command: process.args,
        rootfs,
        env: process.env,
        root_readonly: root.readonly,
        cwd: process.cwd,
        uid,
        gid,
        namespaces,
    })
}

impl NamespaceError {
    /// The error text for the refused namespace type `name`.
    pub fn message(&self, name: &str) -> (m: String)
        ensures
            m@ == (match *self {
                NamespaceError::UserUnsupported => "OCI user namespace is unsupported until uid/gid mappings are implemented"@,
                NamespaceError::Unknown => "unsupported OCI namespace type: "@ + name@,
            }),
    {
        match self {
            NamespaceError::UserUnsupported => "OCI user namespace is unsupported until uid/gid mappings are implemented".to_owned(),
            NamespaceError::Unknown => crate::text::concat("unsupported OCI namespace type: ", name),
        }
    }
}

/// The text a refused bundle is reported with, given its rootfs path and
/// its listed namespace types.
pub open spec fn oci_error_text(e: OciError, rootfs: Seq<char>, names: Seq<Seq<char>>) -> Seq<char> {
    match e {
        OciError::MissingProcess => "OCI config missing process"@,
        OciError::EmptyArgs => "OCI process.args must not be empty"@,
        OciError::MissingRoot => "OCI config missing root"@,
        OciError::RootfsNotDirectory => "OCI rootfs is not a directory: "@ + rootfs,
        OciError::Namespace(i, NamespaceError::UserUnsupported) =>
            "OCI user namespace is unsupported until uid/gid mappings are implemented"@,
        OciError::Namespace(i, NamespaceError::Unknown) => "unsupported OCI namespace type: "@
            + (if i < names.len() { names[i as int] } else { Seq::empty() }),
    }
}

impl OciError {
    /// The error text, given the bundle's rootfs path and its listed
    /// namespace types.
    pub fn message(&self, rootfs: &str, names: &Vec<String>) -> (m: String)
        ensures
            m@ == oci_error_text(*self, rootfs@, strings_view(names@)),
    {
        match self {
            OciError::MissingProcess => "OCI config missing process".to_owned(),
            OciError::EmptyArgs => "OCI process.args must not be empty".to_owned(),
            OciError::MissingRoot => "OCI config missing root".to_owned(),
            OciError::RootfsNotDirectory => crate::text::concat("OCI rootfs is not a directory: ", rootfs),
            OciError::Namespace(i, e) => {
                proof {
                    reveal_strlit("");
                    assert(""@ =~= Seq::<char>::empty());
                }
                let name = if *i < names.len() { names[*i].as_str() } else { "" };
                e.message(name)
            },
        }
    }
}

} // verus!
