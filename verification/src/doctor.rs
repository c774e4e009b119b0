//! Host readiness checks: kernel version, cgroup v2 controllers,
//! overlayfs, Landlock and privilege.
use vstd::prelude::*;
use crate::text::{chars_of, parse_unsigned, parse_unsigned_chars, concat, str_eq, decimal, u64_to_string};
use crate::paths::{split_on, split_chars, seqs_of};
use crate::task::{words, split_words, lines, lines_of};

verus! {

/// A release string with every `-` read as a `.`.
pub open spec fn dashes_to_dots(s: Seq<char>) -> Seq<char> {
    s.map_values(|c: char| if c == '-' { '.' } else { c })
}

/// The numbers of a kernel release, in order: the pieces between `.` and
/// `-` that parse as `u64`.
pub open spec fn release_numbers(pieces: Seq<Seq<char>>) -> Seq<nat>
    decreases pieces.len(),
{
    if pieces.len() == 0 {
        Seq::empty()
    } else {
        match parse_unsigned(pieces.last(), u64::MAX as nat) {
            Some(n) => release_numbers(pieces.drop_last()).push(n),
            None => release_numbers(pieces.drop_last()),
        }
    }
}

/// The release is at least `major.minor`: its first two numbers compare
/// at least as large, major first.
pub open spec fn release_at_least(release: Seq<char>, major: u64, minor: u64) -> bool {
    let n = release_numbers(split_on(dashes_to_dots(release), '.'));
    n.len() >= 2 && (n[0] > major || (n[0] == major && n[1] >= minor))
}

/// Whether a kernel release such as `5.10.0-generic` is at least
/// `major.minor`.
pub fn kernel_at_least(release: &str, major: u64, minor: u64) -> (b: bool)
    ensures
        b == release_at_least(release@, major, minor),
{
    let cs = chars_of(release);
    let mut dotted: Vec<char> = Vec::new();
    let mut i: usize = 0;
    while i < cs.len()
        invariant
            i <= cs@.len(),
            dotted@ == dashes_to_dots(cs@).subrange(0, i as int),
        decreases cs@.len() - i,
    {
        let c = if cs[i] == '-' { '.' } else { cs[i] };
        dotted.push(c);
        i = i + 1;
    }
    assert(dashes_to_dots(cs@).subrange(0, cs@.len() as int) == dashes_to_dots(cs@));
    let pieces = split_chars(dotted.as_slice(), '.');
    let ghost ps = seqs_of(pieces@);
    let mut numbers: Vec<u64> = Vec::new();
    let mut k: usize = 0;
    while k < pieces.len()
        invariant
            ps == seqs_of(pieces@),
            k <= pieces@.len(),
            numbers@.map_values(|x: u64| x as nat) == release_numbers(ps.subrange(0, k as int)),
        decreases pieces@.len() - k,
    {
        let ghost sub = ps.subrange(0, k + 1);
        assert(sub.drop_last() == ps.subrange(0, k as int));
        assert(sub.last() == pieces@[k as int]@);
        let ghost before = numbers@;
        match parse_unsigned_chars(pieces[k].as_slice(), u64::MAX) {
            Some(n) => {
                numbers.push(n);
                assert(numbers@.map_values(|x: u64| x as nat) =~= before.map_values(|x: u64| x as nat).push(n as nat));
            },
            None => {},
        }
        k = k + 1;
    }
    assert(ps.subrange(0, ps.len() as int) == ps);
    if numbers.len() < 2 {
        return false;
    }
    let found_major = numbers[0];
    let found_minor = numbers[1];
    assert(numbers@.map_values(|x: u64| x as nat)[0] == found_major as nat);
    assert(numbers@.map_values(|x: u64| x as nat)[1] == found_minor as nat);
    found_major > major || (found_major == major && found_minor >= minor)
}

/// One readiness check and its outcome.
#[derive(Debug)]
pub struct Check {
    pub name: String,
    pub status: String,
    pub detail: String,
}

/// A check that passed or failed: status `pass` or `fail`.
pub fn check(name: &str, passed: bool, detail: &str) -> (c: Check)
    ensures
        c.name@ == name@,
        c.status@ == (if passed { "pass"@ } else { "fail"@ }),
        c.detail@ == detail@,
{
    Check {
        name: name.to_owned(),
        status: if passed { "pass".to_owned() } else { "fail".to_owned() },
        detail: detail.to_owned(),
    }
}

/// cgroup v2 offers the `cpu`, `memory` and `pids` controllers.
pub open spec fn controllers_ready(controllers: Seq<char>) -> bool {
    words(controllers).contains("cpu"@) && words(controllers).contains("memory"@) && words(controllers).contains("pids"@)
}

/// `/proc/filesystems` lists overlayfs: a line ends with `overlay`.
pub open spec fn overlay_listed(filesystems: Seq<char>) -> bool {
    exists|i: int| 0 <= i < lines(filesystems).len() && crate::text::ends_with(#[trigger] lines(filesystems)[i], "overlay"@)
}

fn word_listed(ws: &Vec<Vec<char>>, name: &str) -> (b: bool)
    ensures
        b == seqs_of(ws@).contains(name@),
{
    let nc = chars_of(name);
    let ghost sv = seqs_of(ws@);
    let mut i: usize = 0;
    while i < ws.len()
        invariant
            sv == seqs_of(ws@),
            nc@ == name@,
            i <= ws@.len(),
            forall|k: int| 0 <= k < i ==> sv[k] != name@,
        decreases ws@.len() - i,
    {
        assert(sv[i as int] == ws@[i as int]@);
        if crate::text::chars_eq(ws[i].as_slice(), nc.as_slice()) {
            return true;
        }
        i = i + 1;
    }
    false
}

/// Whether the listed controllers include cpu, memory and pids.
pub fn cgroup_v2_ready(controllers: &str) -> (b: bool)
    ensures
        b == controllers_ready(controllers@),
{
    let cs = chars_of(controllers);
    let ws = split_words(cs.as_slice());
    word_listed(&ws, "cpu") && word_listed(&ws, "memory") && word_listed(&ws, "pids")
}

/// Whether `/proc/filesystems` lists overlayfs.
pub fn overlay_available(filesystems: &str) -> (b: bool)
    ensures
        b == overlay_listed(filesystems@),
{
    let ls = lines_of(filesystems);
    let want = chars_of("overlay");
    let ghost lv = seqs_of(ls@);
    let mut i: usize = 0;
    while i < ls.len()
        invariant
            lv == seqs_of(ls@),
            lv == lines(filesystems@),
            want@ == "overlay"@,
            i <= ls@.len(),
            forall|k: int| 0 <= k < i ==> !crate::text::ends_with(#[trigger] lv[k], "overlay"@),
        decreases ls@.len() - i,
    {
        assert(lv[i as int] == ls@[i as int]@);
        if crate::text::ends_with_chars(ls[i].as_slice(), want.as_slice()) {
            return true;
        }
        i = i + 1;
    }
    false
}

/// What the host reported, read by the caller: the OS name, whether it is
/// Linux, the kernel release (trimmed), the cgroup root's controllers,
/// `/proc/filesystems`, the Landlock ABI version if any, and the effective
/// user id.
#[derive(Debug)]
pub struct HostFacts {
    pub os: String,
    pub is_linux: bool,
    pub release: String,
    pub controllers: String,
    pub filesystems: String,
    pub landlock_abi: Option<u32>,
    pub euid: u32,
}

pub open spec fn check_view(c: Check) -> (Seq<char>, Seq<char>, Seq<char>) {
    (c.name@, c.status@, c.detail@)
}

/// The checks of a host, in report order: `linux`, `kernel` (5.10 or
/// later), `cgroup_v2`, `overlayfs`, `landlock`, and `privilege` (a warning,
/// not a failure, when not root).
pub open spec fn host_checks(h: HostFacts) -> Seq<(Seq<char>, Seq<char>, Seq<char>)> {
    let pass_fail = |b: bool| if b { "pass"@ } else { "fail"@ };
    seq![
        ("linux"@, pass_fail(h.is_linux), h.os@),
        ("kernel"@, pass_fail(release_at_least(h.release@, 5, 10)), h.release@),
        ("cgroup_v2"@, pass_fail(controllers_ready(h.controllers@)), crate::text::trim(h.controllers@)),
        ("overlayfs"@, pass_fail(overlay_listed(h.filesystems@)), "overlay filesystem"@),
        ("landlock"@, pass_fail(h.landlock_abi is Some), match h.landlock_abi {
            Some(abi) => "ABI "@ + decimal(abi as nat),
            None => "unavailable"@,
        }),
        ("privilege"@, if h.euid == 0 { "pass"@ } else { "warn"@ }, if h.euid == 0 {
            "running as root"@
        } else {
            "runtime operations require a root daemon"@
        }),
    ]
}

/// Runs the readiness checks on what the host reported.
pub fn host_report(h: &HostFacts) -> (v: Vec<Check>)
    ensures
        v@.map_values(|c: Check| check_view(c)) == host_checks(*h),
{
    let mut v: Vec<Check> = Vec::new();
    v.push(check("linux", h.is_linux, h.os.as_str()));
    v.push(check("kernel", kernel_at_least(h.release.as_str(), 5, 10), h.release.as_str()));
    let cc = chars_of(h.controllers.as_str());
    let trimmed = crate::text::string_of(crate::text::trim_chars(cc.as_slice()).as_slice());
    v.push(check("cgroup_v2", cgroup_v2_ready(h.controllers.as_str()), trimmed.as_str()));
    v.push(check("overlayfs", overlay_available(h.filesystems.as_str()), "overlay filesystem"));
    let landlock_detail = match h.landlock_abi {
        Some(abi) => concat("ABI ", u64_to_string(abi as u64).as_str()),
        None => "unavailable".to_owned(),
    };
    v.push(check("landlock", h.landlock_abi.is_some(), landlock_detail.as_str()));
    let root = h.euid == 0;
    v.push(Check {
        name: "privilege".to_owned(),
        status: if root { "pass".to_owned() } else { "warn".to_owned() },
        detail: if root { "running as root".to_owned() } else { "runtime operations require a root daemon".to_owned() },
    });
    assert(v@.map_values(|c: Check| check_view(c)) =~= host_checks(*h));
    v
}

/// Some check failed (a warning is no failure).
pub fn any_failed(checks: &Vec<Check>) -> (b: bool)
    ensures
        b == exists|i: int| 0 <= i < checks@.len() && #[trigger] checks@[i].status@ == "fail"@,
{
    let mut i: usize = 0;
    while i < checks.len()
        invariant
            i <= checks@.len(),
            forall|k: int| 0 <= k < i ==> #[trigger] checks@[k].status@ != "fail"@,
        decreases checks@.len() - i,
    {
        if str_eq(checks[i].status.as_str(), "fail") {
            return true;
        }
        i = i + 1;
    }
    false
}

} // verus!
