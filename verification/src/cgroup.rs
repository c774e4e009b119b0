//! cgroup v2 limits: parsing memory sizes, and which files a sandbox's
//! cgroup gets written with which values.
use vstd::prelude::*;
use crate::text::{chars_of, trim, trim_chars, parse_unsigned, parse_unsigned_chars, decimal, signed_decimal, u64_to_string, i64_to_string, concat, slice_chars};

verus! {

/// Why a memory size was refused.
#[derive(Clone, Copy, PartialEq, Eq, Structural, Debug)]
pub enum MemoryError {
    /// `empty memory value`
    Empty,
    /// `invalid memory value: <value>`
    Invalid,
}

/// The number part of a trimmed memory size and the factor of its unit
/// suffix: `g`, `m`, `k` (binary multiples) or `b`, or none.
pub open spec fn memory_parts(t: Seq<char>) -> (Seq<char>, nat) {
    if t.len() > 0 && t.last() == 'g' {
        (t.drop_last(), 1073741824)
    } else if t.len() > 0 && t.last() == 'm' {
        (t.drop_last(), 1048576)
    } else if t.len() > 0 && t.last() == 'k' {
        (t.drop_last(), 1024)
    } else if t.len() > 0 && t.last() == 'b' {
        (t.drop_last(), 1)
    } else {
        (t, 1)
    }
}

/// A memory size in bytes, or why it is not one: surrounding white space
/// is ignored, the number is a `u64`, and the unit multiplies it.
pub open spec fn memory_size(s: Seq<char>) -> Result<nat, MemoryError> {
    let t = trim(s);
    if t.len() == 0 {
        Err(MemoryError::Empty)
    } else {
        match parse_unsigned(memory_parts(t).0, u64::MAX as nat) {
            None => Err(MemoryError::Invalid),
            Some(n) => Ok(n * memory_parts(t).1),
        }
    }
}

/// A size's byte count fits in a `u64` (or the size is refused anyway).
pub open spec fn memory_fits(s: Seq<char>) -> bool {
    memory_size(s) matches Ok(n) ==> n <= u64::MAX
}

fn split_unit(t: &Vec<char>) -> (r: (Vec<char>, u64))
    ensures
        r.0@ == memory_parts(t@).0,
        r.1 as nat == memory_parts(t@).1,
{
    let n = t.len();
    if n > 0 {
        let c = t[n - 1];
        let factor: u64 = if c == 'g' {
            1073741824
        } else if c == 'm' {
            1048576
        } else if c == 'k' {
            1024
        } else if c == 'b' {
            1
        } else {
            0
        };
        if factor > 0 {
            let v = slice_chars(t.as_slice(), 0, n - 1);
            assert(v@ == t@.drop_last());
            return (v, factor);
        }
    }
    let v = slice_chars(t.as_slice(), 0, n);
    assert(v@ == t@);
    (v, 1)
}

/// Whether a memory size's byte count fits in a `u64`, so that
/// [`parse_memory`] can take it.
pub fn memory_value_fits(s: &str) -> (b: bool)
    ensures
        b == memory_fits(s@),
{
    let cs = chars_of(s);
    let t = trim_chars(cs.as_slice());
    if t.len() == 0 {
        return true;
    }
    let (num, factor) = split_unit(&t);
    match parse_unsigned_chars(num.as_slice(), u64::MAX) {
        None => true,
        Some(n) => {
            assert(factor >= 1);
            let ok = n <= u64::MAX / factor;
            assert(ok == (n * factor <= u64::MAX)) by (nonlinear_arith)
                requires
                    factor >= 1,
                    ok == (n <= u64::MAX / factor),
            ;
            ok
        },
    }
}

/// Parses a memory size such as `64m` into bytes.
pub fn parse_memory(s: &str) -> (r: Result<u64, MemoryError>)
    requires
        memory_fits(s@),
    ensures
        r matches Ok(v) ==> memory_size(s@) == Ok::<nat, MemoryError>(v as nat),
        r matches Err(e) ==> memory_size(s@) == Err::<nat, MemoryError>(e),
{
    let cs = chars_of(s);
    let t = trim_chars(cs.as_slice());
    if t.len() == 0 {
        return Err(MemoryError::Empty);
    }
    let (num, factor) = split_unit(&t);
    match parse_unsigned_chars(num.as_slice(), u64::MAX) {
        None => Err(MemoryError::Invalid),
        Some(n) => {
            assert(n * factor <= u64::MAX);
            Ok(n * factor)
        },
    }
}

// ---------------------------------------------------------------------------
// Limits

/// The limits asked of a sandbox's cgroup.  `cpus_bits` is the bit pattern
/// of the CPU count (`f64::to_bits`).
#[derive(Debug)]
pub struct CgroupConfig {
    pub name: String,
    pub memory: Option<u64>,
    pub cpus_bits: Option<u64>,
    pub cpu_quota: Option<i64>,
    pub cpu_period: Option<u64>,
    pub pids_limit: Option<u64>,
}

/// One file of the cgroup and what is written to it.
#[derive(Debug)]
pub struct CgroupWrite {
    pub file: String,
    pub content: String,
}

/// Why a cgroup could not be set up as asked.
#[derive(Clone, Copy, PartialEq, Eq, Structural, Debug)]
pub enum CgroupError {
    /// `required cgroup v2 controller is unavailable: memory`
    NoMemoryController,
    /// `... unavailable: cpu`
    NoCpuController,
    /// `... unavailable: pids`
    NoPidsController,
    /// `--cpu-quota must be positive, got <quota>`
    QuotaNotPositive(i64),
    /// `--cpus must be positive`
    CpusNotPositive,
}

/// The files written and, where the limits were refused part way, why.
#[derive(Debug)]
pub struct CgroupPlan {
    pub writes: Vec<CgroupWrite>,
    pub failure: Option<CgroupError>,
}

/// `x <= 0.0` for an `f64` given by its bit pattern: zero of either sign, or
/// a negative number (NaN compares false).
pub open spec fn float_not_positive(bits: u64) -> bool {
    bits == 0 || (bits >= 0x8000_0000_0000_0000 && bits <= 0xFFF0_0000_0000_0000)
}

/// The controller names listed in `cgroup.controllers`.
pub open spec fn lists_controller(controllers: Seq<char>, name: Seq<char>) -> bool {
    crate::task::words(controllers).contains(name)
}

pub open spec fn write_view(w: CgroupWrite) -> (Seq<char>, Seq<char>) {
    (w.file@, w.content@)
}

pub open spec fn writes_view(v: Seq<CgroupWrite>) -> Seq<(Seq<char>, Seq<char>)> {
    v.map_values(|w: CgroupWrite| write_view(w))
}

/// Which controller a request needs and the cgroup root lacks, checked
/// memory, then cpu, then pids.
pub open spec fn controller_fault(c: CgroupConfig, controllers: Seq<char>) -> Option<CgroupError> {
    if c.memory is Some && !lists_controller(controllers, "memory"@) {
        Some(CgroupError::NoMemoryController)
    } else if (c.cpus_bits is Some || c.cpu_quota is Some) && !lists_controller(controllers, "cpu"@) {
        Some(CgroupError::NoCpuController)
    } else if c.pids_limit is Some && !lists_controller(controllers, "pids"@) {
        Some(CgroupError::NoPidsController)
    } else {
        None
    }
}

/// The writes for the memory limit: the limit, and swap off.
pub open spec fn memory_writes(c: CgroupConfig) -> Seq<(Seq<char>, Seq<char>)> {
    match c.memory {
        Some(m) => seq![("memory.max"@, decimal(m as nat)), ("memory.swap.max"@, "0"@)],
        None => Seq::empty(),
    }
}

/// The CPU write, or why CPUs were refused: an explicit quota wins over a
/// CPU count; `quota` is the quota the CPU count comes to over the period
/// (`(cpus * period) as u64`, taken in floating point by the caller).
pub open spec fn cpu_writes(c: CgroupConfig, quota: u64) -> Result<Seq<(Seq<char>, Seq<char>)>, CgroupError> {
    let period: u64 = match c.cpu_period { Some(p) => p, None => 100000 };
    match c.cpu_quota {
        Some(q) => if q <= 0 {
            Err(CgroupError::QuotaNotPositive(q))
        } else {
            Ok(seq![("cpu.max"@, signed_decimal(q as int) + " "@ + decimal(period as nat))])
        },
        None => match c.cpus_bits {
            Some(b) => if float_not_positive(b) {
                Err(CgroupError::CpusNotPositive)
            } else {
                Ok(seq![("cpu.max"@, decimal(quota as nat) + " "@ + decimal(period as nat))])
            },
            None => Ok(Seq::empty()),
        },
    }
}

pub open spec fn pids_writes(c: CgroupConfig) -> Seq<(Seq<char>, Seq<char>)> {
    match c.pids_limit {
        Some(p) => seq![("pids.max"@, decimal(p as nat))],
        None => Seq::empty(),
    }
}

fn write(file: &str, content: String) -> (w: CgroupWrite)
    ensures
        write_view(w) == (file@, content@),
{
    CgroupWrite { file: file.to_owned(), content }
}

fn controller_listed(words: &Vec<Vec<char>>, name: &str) -> (b: bool)
    ensures
        b == crate::paths::seqs_of(words@).contains(name@),
{
    let nc = chars_of(name);
    let ghost ws = crate::paths::seqs_of(words@);
    let mut i: usize = 0;
    while i < words.len()
        invariant
            ws == crate::paths::seqs_of(words@),
            nc@ == name@,
            i <= words@.len(),
            forall|k: int| 0 <= k < i ==> ws[k] != name@,
        decreases words@.len() - i,
    {
        assert(ws[i as int] == words@[i as int]@);
        if crate::text::chars_eq(words[i].as_slice(), nc.as_slice()) {
            return true;
        }
        i = i + 1;
    }
    false
}

/// What setting up a sandbox's cgroup writes, given the root's
/// `cgroup.controllers`: a missing controller refuses everything before
/// the cgroup is made; a bad CPU request stops after the memory writes.
pub fn cgroup_plan(config: &CgroupConfig, controllers: &str, cpus_quota: u64) -> (r: Result<CgroupPlan, CgroupError>)
    ensures
        r is Err <==> controller_fault(*config, controllers@) is Some,
        r matches Err(e) ==> controller_fault(*config, controllers@) == Some(e),
        r matches Ok(p) ==> match cpu_writes(*config, cpus_quota) {
            Err(e) => writes_view(p.writes@) == memory_writes(*config) && p.failure == Some(e),
            Ok(cpu) => writes_view(p.writes@) == memory_writes(*config) + cpu + pids_writes(*config) && p.failure is None,
        },
{
    let cs = chars_of(controllers);
    let words = crate::task::split_words(cs.as_slice());
    if config.memory.is_some() && !controller_listed(&words, "memory") {
        return Err(CgroupError::NoMemoryController);
    }
    if (config.cpus_bits.is_some() || config.cpu_quota.is_some()) && !controller_listed(&words, "cpu") {
        return Err(CgroupError::NoCpuController);
    }
    if config.pids_limit.is_some() && !controller_listed(&words, "pids") {
        return Err(CgroupError::NoPidsController);
    }
    let mut writes: Vec<CgroupWrite> = Vec::new();
    if let Some(m) = config.memory {
        writes.push(write("memory.max", u64_to_string(m)));
        writes.push(write("memory.swap.max", "0".to_owned()));
    }
    let ghost mem = writes_view(writes@);
    assert(mem =~= memory_writes(*config));
    let period: u64 = match config.cpu_period {
        Some(p) => p,
        None => 100_000,
    };
    if let Some(q) = config.cpu_quota {
        if q <= 0 {
            return Ok(CgroupPlan { writes, failure: Some(CgroupError::QuotaNotPositive(q)) });
        }
        let text = concat(concat(i64_to_string(q).as_str(), " ").as_str(), u64_to_string(period).as_str());
        writes.push(write("cpu.max", text));
    } else if let Some(b) = config.cpus_bits {
        if b == 0 || (b >= 0x8000_0000_0000_0000 && b <= 0xFFF0_0000_0000_0000) {
            return Ok(CgroupPlan { writes, failure: Some(CgroupError::CpusNotPositive) });
        }
        let text = concat(concat(u64_to_string(cpus_quota).as_str(), " ").as_str(), u64_to_string(period).as_str());
        writes.push(write("cpu.max", text));
    }
    let ghost with_cpu = writes_view(writes@);
    assert(with_cpu =~= memory_writes(*config) + cpu_writes(*config, cpus_quota)->Ok_0);
    if let Some(p) = config.pids_limit {
        writes.push(write("pids.max", u64_to_string(p)));
    }
    assert(writes_view(writes@) =~= memory_writes(*config) + cpu_writes(*config, cpus_quota)->Ok_0 + pids_writes(*config));
    Ok(CgroupPlan { writes, failure: None })
}

/// What changing a live cgroup's limits writes: memory, CPU (`quota` is
/// the CPU count times 100000, taken in floating point by the caller) over
/// a period of 100000, and pids.
pub fn resource_writes(memory: u64, cpu_quota: u64, pids: u64) -> (w: Vec<CgroupWrite>)
    ensures
        writes_view(w@) == seq![
            ("memory.max"@, decimal(memory as nat)),
            ("cpu.max"@, decimal(cpu_quota as nat) + " 100000"@),
            ("pids.max"@, decimal(pids as nat)),
        ],
{
    let mut w: Vec<CgroupWrite> = Vec::new();
    w.push(write("memory.max", u64_to_string(memory)));
    w.push(write("cpu.max", concat(u64_to_string(cpu_quota).as_str(), " 100000")));
    w.push(write("pids.max", u64_to_string(pids)));
    assert(writes_view(w@) =~= seq![
        ("memory.max"@, decimal(memory as nat)),
        ("cpu.max"@, decimal(cpu_quota as nat) + " 100000"@),
        ("pids.max"@, decimal(pids as nat)),
    ]);
    w
}


/// Where cgroup v2 is mounted.
pub const CGROUP_ROOT: &'static str = "/sys/fs/cgroup";

/// A sandbox's cgroup, by its directory.
#[derive(Debug)]
pub struct Cgroup {
    pub path: String,
}

impl Cgroup {
    /// The cgroup of this name under the cgroup root.
    pub fn named(name: &str) -> (c: Cgroup)
        ensures
            c.path@ == crate::paths::join(CGROUP_ROOT@, name@),
    {
        Cgroup { path: crate::paths::join_path(CGROUP_ROOT, name) }
    }

    /// One of the cgroup's control files.
    pub fn file(&self, name: &str) -> (p: String)
        ensures
            p@ == crate::paths::join(self.path@, name@),
    {
        crate::paths::join_path(self.path.as_str(), name)
    }
}

impl MemoryError {
    /// The error text for the memory size `value`.
    pub fn message(&self, value: &str) -> (m: String)
        ensures
            m@ == (match *self {
                MemoryError::Empty => "empty memory value"@,
                MemoryError::Invalid => "invalid memory value: "@ + trim(value@),
            }),
    {
        match self {
            MemoryError::Empty => "empty memory value".to_owned(),
            MemoryError::Invalid => {
                let cs = chars_of(value);
                let t = crate::text::string_of(trim_chars(cs.as_slice()).as_slice());
                concat("invalid memory value: ", t.as_str())
            },
        }
    }
}

} // verus!
