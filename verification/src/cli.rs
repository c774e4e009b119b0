//! The decisions of the `tinybox` command line: how a `run` combines its
//! flags with a policy's ceiling, and how pulled images are named.
use vstd::prelude::*;
use crate::text::{chars_of, rfind_char, rfind_char_in, slice_chars, string_of};
use crate::policy::{CapabilityDescriptor, ResourcePolicy};
use crate::daemon::float_exceeds;

verus! {

/// Why `tinybox run` was refused before anything started.
#[derive(Clone, Copy, PartialEq, Eq, Structural, Debug)]
pub enum RunError {
    /// `--dangerous cannot be combined with --policy`
    DangerousWithPolicy,
    /// `phase policies require daemon mode and its control API`
    PhasesNeedDaemon,
    /// `--memory exceeds the policy ceiling`
    MemoryOverCeiling,
    /// `--cpus exceeds the policy ceiling`
    CpusOverCeiling,
    /// `--pids-limit exceeds the policy ceiling`
    PidsOverCeiling,
}

/// A policy file may not be combined with dangerous mode; this is checked
/// before the file is read.
pub fn check_policy_flags(dangerous: bool, has_policy: bool) -> (r: Result<(), RunError>)
    ensures
        r is Err <==> dangerous && has_policy,
        r is Err ==> r == Err::<(), RunError>(RunError::DangerousWithPolicy),
{
    if has_policy && dangerous {
        Err(RunError::DangerousWithPolicy)
    } else {
        Ok(())
    }
}

/// A `run` takes only static policies: a loaded policy with phases is
/// refused.
pub fn check_static_policy(policy: &Option<CapabilityDescriptor>) -> (r: Result<(), RunError>)
    ensures
        r is Err <==> (policy matches Some(d) && d@.phases.len() > 0),
        r is Err ==> r == Err::<(), RunError>(RunError::PhasesNeedDaemon),
{
    match policy {
        Some(d) => if d.phases.len() > 0 {
            Err(RunError::PhasesNeedDaemon)
        } else {
            Ok(())
        },
        None => Ok(()),
    }
}

/// The limits a `run` gets: without a policy, the flags; with one, each
/// flag must stay within the ceiling (memory, then CPUs, then pids) and an
/// absent flag takes the ceiling's value.  CPU counts are `f64` bit
/// patterns.
pub open spec fn run_limits_spec(
    ceiling: Option<ResourcePolicy>,
    memory: Option<u64>,
    cpus: Option<u64>,
    pids: Option<u64>,
) -> Result<(Option<u64>, Option<u64>, Option<u64>), RunError> {
    match ceiling {
        None => Ok((memory, cpus, pids)),
        Some(r) => if memory matches Some(m) && m > r.memory_bytes {
            Err(RunError::MemoryOverCeiling)
        } else if cpus matches Some(c) && float_exceeds(c, r.cpus_bits) {
            Err(RunError::CpusOverCeiling)
        } else if pids matches Some(p) && p > r.pids {
            Err(RunError::PidsOverCeiling)
        } else {
            Ok((
                Some(match memory { Some(m) => m, None => r.memory_bytes }),
                Some(match cpus { Some(c) => c, None => r.cpus_bits }),
                Some(match pids { Some(p) => p, None => r.pids }),
            ))
        },
    }
}

/// Combines the resource flags of a `run` with a policy's ceiling.
pub fn run_limits(ceiling: Option<ResourcePolicy>, memory: Option<u64>, cpus: Option<u64>, pids: Option<u64>) -> (r: Result<(Option<u64>, Option<u64>, Option<u64>), RunError>)
    ensures
        r == run_limits_spec(ceiling, memory, cpus, pids),
{
    match ceiling {
        None => Ok((memory, cpus, pids)),
        Some(r) => {
            if let Some(m) = memory {
                if m > r.memory_bytes {
                    return Err(RunError::MemoryOverCeiling);
                }
            }
            if let Some(c) = cpus {
                if c < 0x8000_0000_0000_0000 && c <= 0x7FF0_0000_0000_0000 && c > r.cpus_bits {
                    return Err(RunError::CpusOverCeiling);
                }
            }
            if let Some(p) = pids {
                if p > r.pids {
                    return Err(RunError::PidsOverCeiling);
                }
            }
            Ok((
                Some(match memory { Some(m) => m, None => r.memory_bytes }),
                Some(match cpus { Some(c) => c, None => r.cpus_bits }),
                Some(match pids { Some(p) => p, None => r.pids }),
            ))
        },
    }
}

/// A run under a policy never gets more than the policy's ceiling.
pub proof fn law_run_within_ceiling(r: ResourcePolicy, memory: Option<u64>, cpus: Option<u64>, pids: Option<u64>)
    requires
        crate::policy::cpus_valid(r.cpus_bits),
        run_limits_spec(Some(r), memory, cpus, pids) is Ok,
    ensures
        ({
            let (m, c, p) = run_limits_spec(Some(r), memory, cpus, pids)->Ok_0;
            &&& m->0 <= r.memory_bytes
            &&& p->0 <= r.pids
            &&& !float_exceeds(c->0, r.cpus_bits)
        }),
{
}

/// The alias of a pulled image: the last `/`-separated part of its
/// repository.
pub open spec fn pulled_alias(repository: Seq<char>) -> Seq<char> {
    match rfind_char(repository, '/') {
        Some(p) => repository.subrange(p + 1, repository.len() as int),
        None => repository,
    }
}

/// The alias a pulled image gets unless one is given.
pub fn default_alias(repository: &str) -> (a: String)
    ensures
        a@ == pulled_alias(repository@),
{
    let cs = chars_of(repository);
    match rfind_char_in(cs.as_slice(), '/') {
        Some(p) => {
            let n = cs.len();
            string_of(slice_chars(cs.as_slice(), p + 1, n).as_slice())
        },
        None => repository.to_owned(),
    }
}

/// The text a [`RunError`] is reported with.
pub open spec fn run_error_text(e: RunError) -> Seq<char> {
    match e {
        RunError::DangerousWithPolicy => "--dangerous cannot be combined with --policy"@,
        RunError::PhasesNeedDaemon => "phase policies require daemon mode and its control API"@,
        RunError::MemoryOverCeiling => "--memory exceeds the policy ceiling"@,
        RunError::CpusOverCeiling => "--cpus exceeds the policy ceiling"@,
        RunError::PidsOverCeiling => "--pids-limit exceeds the policy ceiling"@,
    }
}

impl RunError {
    /// The error text.
    pub fn message(&self) -> (m: String)
        ensures
            m@ == run_error_text(*self),
    {
        match self {
            RunError::DangerousWithPolicy => "--dangerous cannot be combined with --policy".to_owned(),
            RunError::PhasesNeedDaemon => "phase policies require daemon mode and its control API".to_owned(),
            RunError::MemoryOverCeiling => "--memory exceeds the policy ceiling".to_owned(),
            RunError::CpusOverCeiling => "--cpus exceeds the policy ceiling".to_owned(),
            RunError::PidsOverCeiling => "--pids-limit exceeds the policy ceiling".to_owned(),
        }
    }
}

} // verus!
