//! `tinybox exec`: which processes a command may be run beside, and the
//! exit code it reports.
use vstd::prelude::*;
use crate::text::chars_of;
use crate::sandbox::WaitOutcome;

verus! {

/// Why `tinybox exec` was refused.
#[derive(Clone, Copy, PartialEq, Eq, Structural, Debug)]
pub enum ExecError {
    /// `no command specified`
    NoCommand,
    /// `pid <pid> is not in a tinybox cgroup; refusing to exec into an
    /// arbitrary host process`
    NotSandboxed,
}

/// The eight characters of `s` from `i`.
pub open spec fn window(s: Seq<char>, i: int) -> Seq<char> {
    s.subrange(i, i + 8)
}

/// The text holds `tinybox-` somewhere.
pub open spec fn names_tinybox(s: Seq<char>) -> bool {
    exists|i: int| 0 <= i && i + 8 <= s.len() && #[trigger] window(s, i) == "tinybox-"@
}

/// Whether a process's cgroup membership marks it as a sandbox's.
pub fn in_tinybox_cgroup(cgroup: &str) -> (b: bool)
    ensures
        b == names_tinybox(cgroup@),
{
    let cs = chars_of(cgroup);
    let pat = chars_of("tinybox-");
    proof {
        reveal_strlit("tinybox-");
    }
    assert(pat@.len() == 8);
    if cs.len() < 8 {
        return false;
    }
    let n = cs.len();
    let mut i: usize = 0;
    while i <= n - 8
        invariant
            n == cs@.len(),
            n >= 8,
            pat@ == "tinybox-"@,
            pat@.len() == 8,
            cs@ == cgroup@,
            forall|k: int| 0 <= k < i ==> #[trigger] window(cs@, k) != "tinybox-"@,
        decreases n - i,
    {
        let w = crate::text::slice_chars(cs.as_slice(), i, i + 8);
        if crate::text::chars_eq(w.as_slice(), pat.as_slice()) {
            assert(window(cs@, i as int) == "tinybox-"@);
            return true;
        }
        i = i + 1;
    }
    proof {
        assert forall|k: int| 0 <= k && k + 8 <= cs@.len() implies #[trigger] window(cs@, k) != "tinybox-"@ by {
            assert(k < i);
        }
    }
    false
}

/// Checks a `tinybox exec` request against the target's cgroup membership
/// (`/proc/<pid>/cgroup`).
pub fn check_exec(command: &Vec<String>, cgroup: &str) -> (r: Result<(), ExecError>)
    ensures
        command@.len() == 0 ==> r == Err::<(), ExecError>(ExecError::NoCommand),
        command@.len() > 0 ==> (r is Ok <==> names_tinybox(cgroup@)),
        command@.len() > 0 && r is Err ==> r == Err::<(), ExecError>(ExecError::NotSandboxed),
{
    if command.len() == 0 {
        return Err(ExecError::NoCommand);
    }
    if !in_tinybox_cgroup(cgroup) {
        return Err(ExecError::NotSandboxed);
    }
    Ok(())
}

/// The exit code `tinybox exec` reports: the command's, 128 plus the
/// signal that killed it, or 1.
pub fn exit_code_from(status: WaitOutcome) -> (code: i32)
    requires
        status matches WaitOutcome::Signaled(s) ==> s <= i32::MAX - 128,
    ensures
        code == (match status {
            WaitOutcome::Exited(c) => c as int,
            WaitOutcome::Signaled(s) => 128 + s,
            WaitOutcome::Other => 1,
        }),
{
    match status {
        WaitOutcome::Exited(c) => c,
        WaitOutcome::Signaled(s) => 128 + s,
        WaitOutcome::Other => 1,
    }
}

impl ExecError {
    /// The error text for a request on process `pid`.
    pub fn message(&self, pid: u32) -> (m: String)
        ensures
            m@ == (match *self {
                ExecError::NoCommand => "no command specified"@,
                ExecError::NotSandboxed => "pid "@ + crate::text::decimal(pid as nat)
                    + " is not in a tinybox cgroup; refusing to exec into an arbitrary host process"@,
            }),
    {
        match self {
            ExecError::NoCommand => "no command specified".to_owned(),
            ExecError::NotSandboxed => crate::text::concat(
                crate::text::concat("pid ", crate::text::u64_to_string(pid as u64).as_str()).as_str(),
                " is not in a tinybox cgroup; refusing to exec into an arbitrary host process",
            ),
        }
    }
}

} // verus!
