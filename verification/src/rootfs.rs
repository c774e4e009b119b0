//! The sandbox's root filesystem: where its overlay lives and how volume
//! specifications are read.
use vstd::prelude::*;
use crate::text::{chars_of, decimal, u64_to_string, concat, string_of};
use crate::paths::{join, join_path, split_on, split_chars, seqs_of, path_components, PathPart};
use crate::image::{path_exists, path_is_dir};

verus! {

/// A sandbox's rootfs and the working directory of its overlay.
#[derive(Debug)]
pub struct RootfsConfig {
    pub rootfs_path: String,
    pub work_dir: String,
    pub readonly: bool,
}

/// Why a rootfs was refused.
#[derive(Debug)]
pub enum RootfsError {
    /// `rootfs path does not exist: <path>`
    NotFound(String),
    /// `rootfs path is not a directory: <path>`
    NotDirectory(String),
}

/// The overlay working directory of the process `pid`:
/// `<temp_dir>/tinybox-<pid>`.
pub open spec fn work_dir_of(temp_dir: Seq<char>, pid: u32) -> Seq<char> {
    join(temp_dir, "tinybox-"@ + decimal(pid as nat))
}

/// The outcome a rootfs check gives for the disk's two answers about the
/// path (whether something is there, whether it is a directory): success
/// exactly for a directory, `NotFound` exactly when nothing is there,
/// `NotDirectory` exactly for something else.
pub open spec fn answers_give(r: Result<RootfsConfig, RootfsError>, exists: bool, is_dir: bool) -> bool {
    &&& (r is Ok <==> exists && is_dir)
    &&& (r matches Err(RootfsError::NotFound(_)) <==> !exists)
    &&& (r matches Err(RootfsError::NotDirectory(_)) <==> exists && !is_dir)
}

/// Decides a rootfs path from the disk's answers: missing gives
/// `NotFound`, present but not a directory gives `NotDirectory`, otherwise
/// the path is taken.
pub fn check_rootfs(rootfs_path: String, exists: bool, is_dir: bool) -> (r: Result<String, RootfsError>)
    ensures
        !exists ==> (r matches Err(RootfsError::NotFound(p)) && p@ == rootfs_path@),
        exists && !is_dir ==> (r matches Err(RootfsError::NotDirectory(p)) && p@ == rootfs_path@),
        exists && is_dir ==> (r matches Ok(p) && p@ == rootfs_path@),
{
    if !exists {
        return Err(RootfsError::NotFound(rootfs_path));
    }
    if !is_dir {
        return Err(RootfsError::NotDirectory(rootfs_path));
    }
    Ok(rootfs_path)
}

impl RootfsConfig {
    /// A rootfs with its overlay under the temporary directory, named after
    /// the process.  The path must be an existing directory when looked at.
    pub fn new(rootfs_path: String, readonly: bool, temp_dir: &str, pid: u32) -> (r: Result<RootfsConfig, RootfsError>)
        ensures
            r matches Ok(c) ==> c.rootfs_path@ == rootfs_path@ && c.readonly == readonly
                && c.work_dir@ == work_dir_of(temp_dir@, pid),
            r matches Err(e) ==> (match e {
                RootfsError::NotFound(p) => p@ == rootfs_path@,
                RootfsError::NotDirectory(p) => p@ == rootfs_path@,
            }),
            exists|e: bool, d: bool| #[trigger] answers_give(r, e, d),
    {
        let name = concat("tinybox-", u64_to_string(pid as u64).as_str());
        let work_dir = join_path(temp_dir, name.as_str());
        Self::with_work_dir(rootfs_path, readonly, work_dir)
    }

    /// A rootfs with the given overlay working directory.  The path must be
    /// an existing directory when looked at.
    pub fn with_work_dir(rootfs_path: String, readonly: bool, work_dir: String) -> (r: Result<RootfsConfig, RootfsError>)
        ensures
            r matches Ok(c) ==> c.rootfs_path@ == rootfs_path@ && c.readonly == readonly && c.work_dir@ == work_dir@,
            r matches Err(e) ==> (match e {
                RootfsError::NotFound(p) => p@ == rootfs_path@,
                RootfsError::NotDirectory(p) => p@ == rootfs_path@,
            }),
            exists|e: bool, d: bool| #[trigger] answers_give(r, e, d),
    {
        let exists = path_exists(rootfs_path.as_str());
        let is_dir = if exists { path_is_dir(rootfs_path.as_str()) } else { false };
        let r = match check_rootfs(rootfs_path, exists, is_dir) {
            Ok(rootfs_path) => Ok(RootfsConfig { rootfs_path, work_dir, readonly }),
            Err(e) => Err(e),
        };
        assert(answers_give(r, exists, is_dir));
        r
    }

    /// Where the overlay is mounted: `<work_dir>/merged`.
    pub fn merged_path(&self) -> (p: String)
        ensures
            p@ == join(self.work_dir@, "merged"@),
    {
        join_path(self.work_dir.as_str(), "merged")
    }

    /// The overlay's mount options: the rootfs as the lower layer, and the
    /// `upper` and `work` directories of the working directory.
    pub fn overlay_options(&self) -> (o: String)
        ensures
            o@ == "lowerdir="@ + self.rootfs_path@ + ",upperdir="@ + join(self.work_dir@, "upper"@)
                + ",workdir="@ + join(self.work_dir@, "work"@),
    {
        let upper = join_path(self.work_dir.as_str(), "upper");
        let work = join_path(self.work_dir.as_str(), "work");
        let a = concat("lowerdir=", self.rootfs_path.as_str());
        let b = concat(a.as_str(), ",upperdir=");
        let c = concat(b.as_str(), upper.as_str());
        let d = concat(c.as_str(), ",workdir=");
        concat(d.as_str(), work.as_str())
    }
}

// ---------------------------------------------------------------------------
// Volumes

/// A volume specification was not `HOST:CONTAINER[:ro]`.
#[derive(Debug)]
pub struct VolumeSpecError {
    pub value: String,
}

/// The parts of a volume specification: host path, sandbox path, and
/// whether it is read-only; `None` where it is not two or three
/// `:`-separated parts with `ro` last.
pub open spec fn volume_spec(value: Seq<char>) -> Option<(Seq<char>, Seq<char>, bool)> {
    let parts = split_on(value, ':');
    if parts.len() == 2 {
        Some((parts[0], parts[1], false))
    } else if parts.len() == 3 && parts[2] == "ro"@ {
        Some((parts[0], parts[1], true))
    } else {
        None
    }
}

/// `host:container`, where neither part holds a `:`, is a read-write
/// volume of exactly those two paths.
pub proof fn law_volume_read_write(host: Seq<char>, container: Seq<char>)
    requires
        forall|i: int| 0 <= i < host.len() ==> host[i] != ':',
        forall|i: int| 0 <= i < container.len() ==> container[i] != ':',
    ensures
        volume_spec(host + seq![':'] + container) == Some((host, container, false)),
{
    crate::paths::lemma_split_at_sep(host, container, ':', Seq::empty());
    crate::paths::lemma_split_no_sep(container, ':', Seq::empty());
    assert(Seq::<char>::empty() + host =~= host);
    assert(Seq::<char>::empty() + container =~= container);
    assert(split_on(host + seq![':'] + container, ':') =~= seq![host, container]);
}

/// `host:container:flag`, where no part holds a `:`, is a read-only volume
/// of those two paths when the flag is `ro`, and refused otherwise.
pub proof fn law_volume_flag(host: Seq<char>, container: Seq<char>, flag: Seq<char>)
    requires
        forall|i: int| 0 <= i < host.len() ==> host[i] != ':',
        forall|i: int| 0 <= i < container.len() ==> container[i] != ':',
        forall|i: int| 0 <= i < flag.len() ==> flag[i] != ':',
    ensures
        flag == seq!['r', 'o'] ==> volume_spec(host + seq![':'] + container + seq![':'] + flag) == Some((host, container, true)),
        flag != seq!['r', 'o'] ==> volume_spec(host + seq![':'] + container + seq![':'] + flag) is None,
{
    reveal_strlit("ro");
    assert("ro"@ =~= seq!['r', 'o']);
    let v = host + seq![':'] + container + seq![':'] + flag;
    assert(v =~= host + seq![':'] + (container + seq![':'] + flag));
    crate::paths::lemma_split_at_sep(host, container + seq![':'] + flag, ':', Seq::empty());
    crate::paths::lemma_split_at_sep(container, flag, ':', Seq::empty());
    crate::paths::lemma_split_no_sep(flag, ':', Seq::empty());
    assert(Seq::<char>::empty() + host =~= host);
    assert(Seq::<char>::empty() + container =~= container);
    assert(Seq::<char>::empty() + flag =~= flag);
    assert(split_on(v, ':') =~= seq![host, container, flag]);
}

/// A specification without any `:` is refused.
pub proof fn law_volume_needs_separator(value: Seq<char>)
    requires
        forall|i: int| 0 <= i < value.len() ==> value[i] != ':',
    ensures
        volume_spec(value) is None,
{
    crate::paths::lemma_split_no_sep(value, ':', Seq::empty());
}

/// Reads a `HOST:CONTAINER[:ro]` volume specification.
pub fn parse_volume(value: &str) -> (r: Result<(String, String, bool), VolumeSpecError>)
    ensures
        r is Ok <==> volume_spec(value@) is Some,
        r matches Ok(v) ==> volume_spec(value@) == Some((v.0@, v.1@, v.2)),
        r matches Err(e) ==> e.value@ == value@,
{
    let cs = chars_of(value);
    let parts = split_chars(cs.as_slice(), ':');
    let ghost ps = seqs_of(parts@);
    assert(ps.len() == parts@.len());
    if parts.len() == 2 {
        assert(ps[0] == parts@[0]@ && ps[1] == parts@[1]@);
        return Ok((string_of(parts[0].as_slice()), string_of(parts[1].as_slice()), false));
    }
    if parts.len() == 3 {
        assert(ps[0] == parts@[0]@ && ps[1] == parts@[1]@ && ps[2] == parts@[2]@);
        let ro = chars_of("ro");
        if crate::text::chars_eq(parts[2].as_slice(), ro.as_slice()) {
            return Ok((string_of(parts[0].as_slice()), string_of(parts[1].as_slice()), true));
        }
    }
    Err(VolumeSpecError { value: value.to_owned() })
}

/// Why a volume's sandbox path was refused.
#[derive(Clone, Copy, PartialEq, Eq, Structural, Debug)]
pub enum VolumeTargetError {
    /// `volume target must be an absolute path`
    NotAbsolute,
    /// `mounting a volume over the sandbox root is forbidden`
    OverRoot,
    /// `volume target must be a normalized absolute path`
    NotNormalized,
}

/// The components of a volume's sandbox path below the root, or why it is
/// refused: it must be absolute, not the root itself, and without `..`.
pub open spec fn volume_target(container: Seq<char>) -> Result<Seq<PathPart>, VolumeTargetError> {
    let c = path_components(container);
    if c.len() == 0 || c[0] != PathPart::Root {
        Err(VolumeTargetError::NotAbsolute)
    } else if c.len() == 1 {
        Err(VolumeTargetError::OverRoot)
    } else if exists|i: int| 1 <= i < c.len() && !(#[trigger] c[i] is Normal) {
        Err(VolumeTargetError::NotNormalized)
    } else {
        Ok(c.drop_first())
    }
}

/// Checks a volume's sandbox path and gives its components below the root.
pub fn check_volume_target(container: &str) -> (r: Result<Vec<crate::paths::Component>, VolumeTargetError>)
    ensures
        r matches Ok(v) ==> volume_target(container@) == Ok::<Seq<PathPart>, VolumeTargetError>(crate::paths::parts_of(v@)),
        r matches Err(e) ==> volume_target(container@) == Err::<Seq<PathPart>, VolumeTargetError>(e),
{
    let cs = chars_of(container);
    let mut parts = crate::paths::components(cs.as_slice());
    let ghost c = crate::paths::parts_of(parts@);
    assert(c.len() == parts@.len());
    if parts.len() == 0 {
        return Err(VolumeTargetError::NotAbsolute);
    }
    let is_root = match &parts[0] {
        crate::paths::Component::RootDir => true,
        _ => false,
    };
    if !is_root {
        return Err(VolumeTargetError::NotAbsolute);
    }
    if parts.len() == 1 {
        return Err(VolumeTargetError::OverRoot);
    }
    let mut i: usize = 1;
    while i < parts.len()
        invariant
            c == crate::paths::parts_of(parts@),
            c == path_components(container@),
            c.len() > 1,
            c[0] == PathPart::Root,
            1 <= i <= parts@.len(),
            forall|k: int| 1 <= k < i ==> (#[trigger] c[k]) is Normal,
        decreases parts@.len() - i,
    {
        let normal = match &parts[i] {
            crate::paths::Component::Normal(_) => true,
            _ => false,
        };
        if !normal {
            assert(!(c[i as int] is Normal));
            return Err(VolumeTargetError::NotNormalized);
        }
        i = i + 1;
    }
    let _root = parts.remove(0);
    assert(crate::paths::parts_of(parts@) =~= c.drop_first());
    Ok(parts)
}

// ---------------------------------------------------------------------------
// Special filesystems

/// `MS_RDONLY`, `MS_NOSUID`, `MS_NODEV`, `MS_NOEXEC` and `MS_BIND` of
/// `mount(2)`.
pub const MS_RDONLY: u64 = 1;
pub const MS_NOSUID: u64 = 2;
pub const MS_NODEV: u64 = 4;
pub const MS_NOEXEC: u64 = 8;
pub const MS_BIND: u64 = 4096;

/// What is made at a path before something is mounted on it.
#[derive(Clone, Copy, PartialEq, Eq, Structural, Debug)]
pub enum MountPoint {
    Directory,
    File,
}

/// One step of setting up a sandbox's special filesystems.
#[derive(Debug)]
pub enum SetupStep {
    /// Make the mount point `target`, then mount `source` there.
    Mount { point: MountPoint, target: String, source: String, fstype: Option<String>, flags: u64, data: Option<String> },
    /// Make a symbolic link at `link` that points to `to`.
    Symlink { to: String, link: String },
}

pub enum StepView {
    Mount { point: MountPoint, target: Seq<char>, source: Seq<char>, fstype: Option<Seq<char>>, flags: u64, data: Option<Seq<char>> },
    Symlink { to: Seq<char>, link: Seq<char> },
}

pub open spec fn str_opt(o: Option<String>) -> Option<Seq<char>> {
    match o {
        Some(s) => Some(s@),
        None => None,
    }
}

pub open spec fn step_view(s: SetupStep) -> StepView {
    match s {
        SetupStep::Mount { point, target, source, fstype, flags, data } =>
            StepView::Mount { point, target: target@, source: source@, fstype: str_opt(fstype), flags, data: str_opt(data) },
        SetupStep::Symlink { to, link } => StepView::Symlink { to: to@, link: link@ },
    }
}

pub open spec fn steps_view(v: Seq<SetupStep>) -> Seq<StepView> {
    v.map_values(|s: SetupStep| step_view(s))
}

pub open spec fn fs_mount(target: Seq<char>, fstype: Seq<char>, flags: u64, data: Option<Seq<char>>) -> StepView {
    StepView::Mount { point: MountPoint::Directory, target, source: fstype, fstype: Some(fstype), flags, data }
}

pub open spec fn device_bind(dev: Seq<char>, node: Seq<char>) -> StepView {
    StepView::Mount { point: MountPoint::File, target: join(dev, node), source: "/dev/"@ + node, fstype: None, flags: MS_BIND, data: None }
}

/// The special filesystems of a sandbox under its merged root: `proc`
/// (no set-uid, no exec), a `tmpfs` `/dev` with the host's `null`, `zero`,
/// `urandom`, `random`, `tty` and `full` bound in, a private `devpts` with
/// `/dev/ptmx` linked to it, a `tmpfs` `/dev/shm`, a 64 MiB `tmpfs` `/tmp`,
/// and an empty read-only `tmpfs` `/sys`.
pub open spec fn special_fs_steps(merged: Seq<char>) -> Seq<StepView> {
    let dev = join(merged, "dev"@);
    seq![
        fs_mount(join(merged, "proc"@), "proc"@, MS_NOSUID | MS_NOEXEC, None),
        fs_mount(dev, "tmpfs"@, MS_NOSUID, Some("mode=755"@)),
        device_bind(dev, "null"@),
        device_bind(dev, "zero"@),
        device_bind(dev, "urandom"@),
        device_bind(dev, "random"@),
        device_bind(dev, "tty"@),
        device_bind(dev, "full"@),
        fs_mount(join(dev, "pts"@), "devpts"@, MS_NOSUID | MS_NOEXEC, Some("newinstance,ptmxmode=0666"@)),
        StepView::Symlink { to: "pts/ptmx"@, link: join(dev, "ptmx"@) },
        fs_mount(join(dev, "shm"@), "tmpfs"@, MS_NOSUID | MS_NODEV, Some("mode=1777"@)),
        fs_mount(join(merged, "tmp"@), "tmpfs"@, MS_NOSUID, Some("size=64m"@)),
        fs_mount(join(merged, "sys"@), "tmpfs"@, MS_NOSUID | MS_NODEV | MS_RDONLY, None),
    ]
}

fn push_step(v: &mut Vec<SetupStep>, s: SetupStep)
    ensures
        steps_view(final(v)@) == steps_view(old(v)@).push(step_view(s)),
{
    let ghost before = steps_view(v@);
    v.push(s);
    assert(steps_view(v@) =~= before.push(step_view(s)));
}

fn mount_fs(target: String, fstype: &str, flags: u64, data: Option<&str>) -> (s: SetupStep)
    ensures
        step_view(s) == fs_mount(target@, fstype@, flags, match data { Some(d) => Some(d@), None => None }),
{
    SetupStep::Mount {
        point: MountPoint::Directory,
        target,
        source: fstype.to_owned(),
        fstype: Some(fstype.to_owned()),
        flags,
        data: match data { Some(d) => Some(d.to_owned()), None => None },
    }
}

fn bind_device(dev: &str, node: &str) -> (s: SetupStep)
    ensures
        step_view(s) == device_bind(dev@, node@),
{
    SetupStep::Mount {
        point: MountPoint::File,
        target: join_path(dev, node),
        source: concat("/dev/", node),
        fstype: None,
        flags: MS_BIND,
        data: None,
    }
}

impl RootfsConfig {
    /// The steps that set up the special filesystems under the merged root.
    pub fn special_fs(&self) -> (v: Vec<SetupStep>)
        ensures
            steps_view(v@) == special_fs_steps(join(self.work_dir@, "merged"@)),
    {
        let merged = self.merged_path();
        let dev = join_path(merged.as_str(), "dev");
        let mut v: Vec<SetupStep> = Vec::new();
        push_step(&mut v, mount_fs(join_path(merged.as_str(), "proc"), "proc", MS_NOSUID | MS_NOEXEC, None));
        push_step(&mut v, mount_fs(join_path(merged.as_str(), "dev"), "tmpfs", MS_NOSUID, Some("mode=755")));
        push_step(&mut v, bind_device(dev.as_str(), "null"));
        push_step(&mut v, bind_device(dev.as_str(), "zero"));
        push_step(&mut v, bind_device(dev.as_str(), "urandom"));
        push_step(&mut v, bind_device(dev.as_str(), "random"));
        push_step(&mut v, bind_device(dev.as_str(), "tty"));
        push_step(&mut v, bind_device(dev.as_str(), "full"));
        push_step(&mut v, mount_fs(join_path(dev.as_str(), "pts"), "devpts", MS_NOSUID | MS_NOEXEC, Some("newinstance,ptmxmode=0666")));
        push_step(&mut v, SetupStep::Symlink { to: "pts/ptmx".to_owned(), link: join_path(dev.as_str(), "ptmx") });
        push_step(&mut v, mount_fs(join_path(dev.as_str(), "shm"), "tmpfs", MS_NOSUID | MS_NODEV, Some("mode=1777")));
        push_step(&mut v, mount_fs(join_path(merged.as_str(), "tmp"), "tmpfs", MS_NOSUID, Some("size=64m")));
        push_step(&mut v, mount_fs(join_path(merged.as_str(), "sys"), "tmpfs", MS_NOSUID | MS_NODEV | MS_RDONLY, None));
        assert(steps_view(v@) =~= special_fs_steps(merged@));
        v
    }
}

} // verus!
