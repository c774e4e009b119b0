//! The control plane's registry of sandboxes and Agent tasks: what each
//! request does to it, which requests are refused and why, and the audit
//! events it records along the way.
//!
//! The registry is a plain value; the server holds it under one lock and
//! performs the process and cgroup work that the decisions here call for.
use vstd::prelude::*;
use crate::text::{chars_of, find_char_in, find_char, slice_chars, str_eq, concat, i64_to_string, signed_decimal, first_fault, lemma_first_fault_stable};
use crate::policy::{
    CapabilityDescriptor, DescriptorView, FsRule, FsRuleView, NetworkRule, NetRuleView, PhaseView, ResourcePolicy,
    LoadedPolicy, PolicyError, policy_fault, rules_view, strings_view, fs_rules_view, copy_rules, copy_strings,
    copy_fs_rules, push_hex, hex_lower,
};
use crate::audit::{AuditSink, AuditSnapshot, AuditSummary, SinkView, EventView, after_record, opt_view, copy_opt};
use crate::sandbox::SandboxConfig;
use crate::task::ExecTarget;

verus! {

// ---------------------------------------------------------------------------
// Records

/// The life-cycle state of a sandbox or task.
#[derive(Clone, Copy, PartialEq, Eq, Structural, Debug)]
pub enum Status {
    Starting,
    Running,
    Completed,
    Failed,
    SetupFailed,
    Stopping,
    Stopped,
    CleanupFailed,
}

/// The name a status is reported by.
pub open spec fn status_name(s: Status) -> Seq<char> {
    match s {
        Status::Starting => "starting"@,
        Status::Running => "running"@,
        Status::Completed => "completed"@,
        Status::Failed => "failed"@,
        Status::SetupFailed => "setup_failed"@,
        Status::Stopping => "stopping"@,
        Status::Stopped => "stopped"@,
        Status::CleanupFailed => "cleanup_failed"@,
    }
}

impl Status {
    /// The name the status is reported by.
    pub fn as_str(&self) -> (r: &'static str)
        ensures
            r@ == status_name(*self),
    {
        match self {
            Status::Starting => "starting",
            Status::Running => "running",
            Status::Completed => "completed",
            Status::Failed => "failed",
            Status::SetupFailed => "setup_failed",
            Status::Stopping => "stopping",
            Status::Stopped => "stopped",
            Status::CleanupFailed => "cleanup_failed",
        }
    }
}

/// Whether an entry is a one-shot sandbox or a persistent Agent task.
#[derive(Clone, Copy, PartialEq, Eq, Structural, Debug)]
pub enum Kind {
    Sandbox,
    Task,
}

/// One entry of the registry.
#[derive(Debug)]
pub struct Sandbox {
    pub id: String,
    pub status: Status,
    pub exit_code: Option<i32>,
    pub pid: Option<i32>,
    pub error: Option<String>,
    pub policy_hash: Option<String>,
    pub phase: Option<String>,
    pub generation: u64,
    pub kind: Kind,
    pub audit: AuditSink,
    pub descriptor: Option<CapabilityDescriptor>,
    pub network_policy: Option<Vec<NetworkRule>>,
    pub cgroup_path: String,
    pub keeper_pid: Option<i32>,
    pub keeper_start_time: Option<u64>,
    pub task_token: Option<String>,
    pub task_env: Vec<String>,
}

/// The registry: the entries by id, and the counter that numbers new ones.
#[derive(Debug)]
pub struct AppState {
    sandboxes: Vec<Sandbox>,
    next_id: u64,
}

pub struct StateView {
    pub records: Seq<Sandbox>,
    pub next_id: u64,
}

impl View for AppState {
    type V = StateView;

    closed spec fn view(&self) -> StateView {
        StateView { records: self.sandboxes@, next_id: self.next_id }
    }
}

/// No two entries share an id.
pub open spec fn ids_distinct(recs: Seq<Sandbox>) -> bool {
    forall|i: int, j: int| 0 <= i < j < recs.len() ==> recs[i].id@ != recs[j].id@
}

/// An entry's descriptor, where it has one, passed validation.
pub open spec fn descriptor_ok(r: Sandbox) -> bool {
    r.descriptor matches Some(d) ==> policy_fault(d@) is None
}

pub open spec fn registry_ok(s: StateView) -> bool {
    &&& ids_distinct(s.records)
    &&& forall|i: int| 0 <= i < s.records.len() ==> descriptor_ok(#[trigger] s.records[i])
}

/// Some entry has this id.
pub open spec fn has_id(recs: Seq<Sandbox>, id: Seq<char>) -> bool {
    exists|i: int| 0 <= i < recs.len() && recs[i].id@ == id
}

/// The position of the entry with this id (meaningful where `has_id`).
pub open spec fn index_of(recs: Seq<Sandbox>, id: Seq<char>) -> int {
    choose|i: int| 0 <= i < recs.len() && recs[i].id@ == id
}

/// The entry with this id (meaningful where `has_id`).
pub open spec fn entry(recs: Seq<Sandbox>, id: Seq<char>) -> Sandbox {
    recs[index_of(recs, id)]
}

/// `b` is `a` with, at most, another audit log.
pub open spec fn same_but_audit(a: Sandbox, b: Sandbox) -> bool {
    b == Sandbox { audit: b.audit, ..a }
}

/// The event that a sink stamps with its own identity and phase.
pub open spec fn event_of(
    s: SinkView,
    t: u128,
    source: Seq<char>,
    decision: Seq<char>,
    capability: Seq<char>,
    target: Seq<char>,
    rule_id: Option<Seq<char>>,
    reason: Seq<char>,
) -> EventView {
    EventView {
        timestamp_ms: t,
        sandbox_id: s.sandbox_id,
        policy_hash: s.policy_hash,
        phase: s.phase,
        source,
        decision,
        capability,
        target,
        rule_id,
        reason,
    }
}

/// `after` is `before` with one more event recorded, at some time.
pub open spec fn logged(
    before: SinkView,
    after: SinkView,
    source: Seq<char>,
    decision: Seq<char>,
    capability: Seq<char>,
    target: Seq<char>,
    rule_id: Option<Seq<char>>,
    reason: Seq<char>,
) -> bool {
    exists|t: u128| after == after_record(before, event_of(before, t, source, decision, capability, target, rule_id, reason))
}

/// Records an event on a sink and states it in the registry's terms.
fn log(
    audit: &mut AuditSink,
    source: &str,
    decision: &str,
    capability: &str,
    target: String,
    rule_id: Option<String>,
    reason: String,
)
    ensures
        logged(old(audit)@, final(audit)@, source@, decision@, capability@, target@, opt_view(rule_id), reason@),
{
    let ghost tv = target@;
    let ghost rv = opt_view(rule_id);
    let ghost why = reason@;
    audit.record(source, decision, capability, target, rule_id, reason);
    proof {
        let t = choose|t: u128| audit@ == after_record(
            old(audit)@,
            EventView {
                timestamp_ms: t,
                sandbox_id: old(audit)@.sandbox_id,
                policy_hash: old(audit)@.policy_hash,
                phase: old(audit)@.phase,
                source: source@,
                decision: decision@,
                capability: capability@,
                target: tv,
                rule_id: rv,
                reason: why,
            },
        );
        assert(audit@ == after_record(old(audit)@, event_of(old(audit)@, t, source@, decision@, capability@, tv, rv, why)));
    }
}

// ---------------------------------------------------------------------------
// Tokens and task environments

/// Compares a task token in time that depends only on the length: equal
/// exactly when the two strings are equal.
pub fn constant_time_eq(expected: &str, provided: &str) -> (r: bool)
    ensures
        r == (expected@ == provided@),
{
    let a = expected.as_bytes();
    let b = provided.as_bytes();
    proof {
        vstd::utf8::encode_utf8_decode_utf8(expected@);
        vstd::utf8::encode_utf8_decode_utf8(provided@);
    }
    if a.len() != b.len() {
        return false;
    }
    let mut difference: u8 = 0;
    let mut i: usize = 0;
    while i < a.len()
        invariant
            a@.len() == b@.len(),
            i <= a@.len(),
            difference == 0 <==> forall|k: int| 0 <= k < i ==> a@[k] == b@[k],
        decreases a@.len() - i,
    {
        let x = a[i];
        let y = b[i];
        assert((difference | (x ^ y)) == 0 <==> (difference == 0 && x == y)) by (bit_vector);
        difference = difference | (x ^ y);
        i = i + 1;
    }
    if difference == 0 {
        assert(a@ =~= b@);
        true
    } else {
        false
    }
}

/// The token handed to a task's creator: the random bytes in lowercase
/// hexadecimal.
pub fn token_from_bytes(bytes: &[u8]) -> (t: String)
    ensures
        t@ == hex_lower(bytes@),
{
    let mut t = String::new();
    push_hex(&mut t, bytes);
    t
}

/// Why a task environment was refused.
#[derive(Debug)]
pub enum TaskEnvError {
    /// An entry has no `=`.
    MissingSeparator,
    /// The variable with this name may not be set in a task.
    NotAllowlisted(String),
}

/// A refused task environment, by the name it names.
pub enum EnvFault {
    MissingSeparator,
    NotAllowlisted(Seq<char>),
}

impl View for TaskEnvError {
    type V = EnvFault;

    open spec fn view(&self) -> EnvFault {
        match self {
            TaskEnvError::MissingSeparator => EnvFault::MissingSeparator,
            TaskEnvError::NotAllowlisted(n) => EnvFault::NotAllowlisted(n@),
        }
    }
}

impl TaskEnvError {
    /// The error text.
    pub fn message(&self) -> (m: String)
        ensures
            m@ == (match self@ {
                EnvFault::MissingSeparator => "task env entries must use NAME=VALUE"@,
                EnvFault::NotAllowlisted(n) => "task environment variable is not allowlisted: "@ + n,
            }),
    {
        match self {
            TaskEnvError::MissingSeparator => "task env entries must use NAME=VALUE".to_owned(),
            TaskEnvError::NotAllowlisted(n) => concat("task environment variable is not allowlisted: ", n.as_str()),
        }
    }
}

/// The variables a task may set: `PATH`, `LANG`, `LC_ALL`, `TERM`, `HOME`.
pub open spec fn task_env_allowed(name: Seq<char>) -> bool {
    name == "PATH"@ || name == "LANG"@ || name == "LC_ALL"@ || name == "TERM"@ || name == "HOME"@
}

/// What is wrong with one `NAME=VALUE` entry, if anything.
pub open spec fn env_entry_fault(v: Seq<char>, i: int) -> Option<EnvFault> {
    match find_char(v, '=') {
        None => Some(EnvFault::MissingSeparator),
        Some(k) => if task_env_allowed(v.subrange(0, k)) {
            None
        } else {
            Some(EnvFault::NotAllowlisted(v.subrange(0, k)))
        },
    }
}

pub open spec fn env_checker() -> spec_fn(Seq<char>, int) -> Option<EnvFault> {
    |v: Seq<char>, i: int| env_entry_fault(v, i)
}

/// The first fault among the entries of a task environment.
pub open spec fn task_env_fault(values: Seq<Seq<char>>) -> Option<EnvFault> {
    first_fault(values, values.len() as int, env_checker())
}

fn is_allowed_name(name: &str) -> (b: bool)
    ensures
        b == task_env_allowed(name@),
{
    str_eq(name, "PATH") || str_eq(name, "LANG") || str_eq(name, "LC_ALL") || str_eq(name, "TERM") || str_eq(name, "HOME")
}

/// Checks that every entry is `NAME=VALUE` with an allowlisted name.
pub fn validate_task_env(values: &[String]) -> (r: Result<(), TaskEnvError>)
    ensures
        r is Ok <==> task_env_fault(values@.map_values(|s: String| s@)) is None,
        r matches Err(e) ==> task_env_fault(values@.map_values(|s: String| s@)) == Some(e@),
{
    let ghost vs = values@.map_values(|s: String| s@);
    let mut i: usize = 0;
    while i < values.len()
        invariant
            vs == values@.map_values(|s: String| s@),
            i <= values@.len(),
            first_fault(vs, i as int, env_checker()) is None,
        decreases values@.len() - i,
    {
        let cs = chars_of(values[i].as_str());
        assert(cs@ == vs[i as int]);
        match find_char_in(cs.as_slice(), '=') {
            None => {
                proof {
                    lemma_first_fault_stable(vs, i + 1, vs.len() as int, env_checker());
                }
                return Err(TaskEnvError::MissingSeparator);
            },
            Some(k) => {
                let name_chars = slice_chars(cs.as_slice(), 0, k);
                let name = crate::text::string_of(name_chars.as_slice());
                if !is_allowed_name(name.as_str()) {
                    proof {
                        lemma_first_fault_stable(vs, i + 1, vs.len() as int, env_checker());
                    }
                    return Err(TaskEnvError::NotAllowlisted(name));
                }
            },
        }
        i = i + 1;
    }
    Ok(())
}


// ---------------------------------------------------------------------------
// Registry basics

/// Puts an entry in the registry, replacing the one with the same id.
pub open spec fn insert_record(recs: Seq<Sandbox>, r: Sandbox) -> Seq<Sandbox> {
    if has_id(recs, r.id@) {
        recs.update(index_of(recs, r.id@), r)
    } else {
        recs.push(r)
    }
}

/// The counter after numbering one entry (`fetch_add`, which wraps).
pub open spec fn bumped(n: u64) -> u64 {
    if n == u64::MAX { 0 } else { (n + 1) as u64 }
}

proof fn lemma_index_of(recs: Seq<Sandbox>, i: int)
    requires
        ids_distinct(recs),
        0 <= i < recs.len(),
    ensures
        has_id(recs, recs[i].id@),
        index_of(recs, recs[i].id@) == i,
{
    let id = recs[i].id@;
    assert(has_id(recs, id));
    let c = index_of(recs, id);
    if c < i {
    } else if c > i {
    }
}

impl AppState {
    pub open spec fn wf(&self) -> bool {
        registry_ok(self@)
    }

    /// An empty registry whose first entry gets number 1.
    pub fn new() -> (s: AppState)
        ensures
            s.wf(),
            s@.records.len() == 0,
            s@.next_id == 1,
    {
        AppState { sandboxes: Vec::new(), next_id: 1 }
    }

    /// All entries, in the order they were put in.
    pub fn sandboxes(&self) -> (r: &Vec<Sandbox>)
        ensures
            r@ == self@.records,
    {
        &self.sandboxes
    }

    /// The position of the entry with this id.
    pub fn find(&self, id: &str) -> (r: Option<usize>)
        requires
            self.wf(),
        ensures
            r is Some <==> has_id(self@.records, id@),
            r matches Some(i) ==> i == index_of(self@.records, id@) && i < self@.records.len(),
    {
        let mut i: usize = 0;
        while i < self.sandboxes.len()
            invariant
                ids_distinct(self.sandboxes@),
                i <= self.sandboxes@.len(),
                forall|k: int| 0 <= k < i ==> self.sandboxes@[k].id@ != id@,
            decreases self.sandboxes@.len() - i,
        {
            if str_eq(self.sandboxes[i].id.as_str(), id) {
                proof {
                    lemma_index_of(self.sandboxes@, i as int);
                }
                return Some(i);
            }
            i = i + 1;
        }
        None
    }

    /// The entry with this id.
    pub fn get(&self, id: &str) -> (r: Option<&Sandbox>)
        requires
            self.wf(),
        ensures
            r is Some <==> has_id(self@.records, id@),
            r matches Some(s) ==> *s == entry(self@.records, id@),
    {
        match self.find(id) {
            Some(i) => Some(&self.sandboxes[i]),
            None => None,
        }
    }

    /// The held audit events of the entry with this id.
    pub fn audit_events(&self, id: &str) -> (r: Option<AuditSnapshot>)
        requires
            self.wf(),
        ensures
            r is Some <==> has_id(self@.records, id@),
            r matches Some(s) ==> crate::audit::events_view(s.events@) == entry(self@.records, id@).audit@.events
                && s.dropped_events == entry(self@.records, id@).audit@.dropped_events,
    {
        match self.find(id) {
            Some(i) => Some(self.sandboxes[i].audit.snapshot()),
            None => None,
        }
    }

    /// The audit summary of the entry with this id.
    pub fn audit_summary(&self, id: &str) -> (r: Option<AuditSummary>)
        requires
            self.wf(),
        ensures
            r is Some <==> has_id(self@.records, id@),
            r matches Some(s) ==> {
                let a = entry(self@.records, id@).audit@;
                &&& s.event_count == a.events.len()
                &&& s.dropped_events == a.dropped_events
                &&& crate::audit::tallies(s.decisions@, crate::audit::decisions_of(a.events))
                &&& crate::audit::tallies(s.capabilities@, crate::audit::capabilities_of(a.events))
            },
    {
        match self.find(id) {
            Some(i) => Some(self.sandboxes[i].audit.summary()),
            None => None,
        }
    }

    /// Puts an entry in, replacing the one with the same id.
    fn insert(&mut self, r: Sandbox)
        requires
            old(self).wf(),
            descriptor_ok(r),
        ensures
            final(self).wf(),
            final(self)@.records == insert_record(old(self)@.records, r),
            final(self)@.next_id == old(self)@.next_id,
    {
        let ghost recs = self.sandboxes@;
        match self.find(r.id.as_str()) {
            Some(i) => {
                self.sandboxes.set(i, r);
                proof {
                    assert forall|a: int, b: int| 0 <= a < b < self.sandboxes@.len() implies self.sandboxes@[a].id@ != self.sandboxes@[b].id@ by {
                        if a == i {
                            assert(recs[b].id@ != recs[i as int].id@);
                        } else if b == i {
                            assert(recs[a].id@ != recs[i as int].id@);
                        }
                    }
                }
            },
            None => {
                self.sandboxes.push(r);
                proof {
                    assert forall|a: int, b: int| 0 <= a < b < self.sandboxes@.len() implies self.sandboxes@[a].id@ != self.sandboxes@[b].id@ by {
                        if b == recs.len() {
                            assert(!(0 <= a < recs.len() && recs[a].id@ == r.id@));
                        }
                    }
                    assert forall|k: int| 0 <= k < self.sandboxes@.len() implies descriptor_ok(#[trigger] self.sandboxes@[k]) by {
                        if k < recs.len() {
                            assert(self.sandboxes@[k] == recs[k]);
                        }
                    }
                }
            },
        }
    }

    /// Takes the next number and advances the counter, wrapping as
    /// `fetch_add` does.
    fn take_number(&mut self) -> (n: u64)
        ensures
            n == old(self)@.next_id,
            final(self)@.next_id == bumped(old(self)@.next_id),
            final(self)@.records == old(self)@.records,
    {
        let n = self.next_id;
        self.next_id = self.next_id.wrapping_add(1);
        n
    }
}


// ---------------------------------------------------------------------------
// Creating sandboxes

/// A request to start a sandbox.  `cpus_bits` is the bit pattern of the
/// requested CPU count (`f64::to_bits`).
#[derive(Debug)]
pub struct CreateRequest {
    pub rootfs: String,
    pub command: Vec<String>,
    pub memory_limit_mb: Option<u64>,
    pub cpus_bits: Option<u64>,
    pub pids_limit: Option<u64>,
    pub volumes: Vec<String>,
    pub hostname: Option<String>,
    pub env: Vec<String>,
    pub root_readonly: Option<bool>,
    pub proxy: Option<String>,
    pub dangerous: Option<bool>,
    pub policy: Option<CapabilityDescriptor>,
}

/// Why a request to start a sandbox was refused.
#[derive(Clone, Copy, PartialEq, Eq, Structural, Debug)]
pub enum CreateError {
    /// `command must not be empty`
    EmptyCommand,
    /// `dangerous mode cannot be enabled over the API`
    DangerousRefused,
    /// `invalid policy: ...`
    InvalidPolicy(PolicyError),
    /// `requested resources exceed policy ceiling`
    ExceedsCeiling,
}

/// An accepted sandbox: its id and what the launcher must run.
#[derive(Debug)]
pub struct Launch {
    pub id: String,
    pub policy_hash: Option<String>,
    pub phase: Option<String>,
    pub config: SandboxConfig,
}

/// Mebibytes in bytes.
pub open spec fn mib(m: u64) -> int {
    m * 1048576
}

/// `value > ceiling` for two `f64` given by their bit patterns, where the
/// ceiling is finite and positive: the value is not negative (sign clear),
/// not NaN (at most the pattern of infinity), and orders after the ceiling,
/// as non-negative floats order by their patterns.
pub open spec fn float_exceeds(value: u64, ceiling: u64) -> bool {
    value < 0x8000_0000_0000_0000 && value <= 0x7FF0_0000_0000_0000 && value > ceiling
}

/// A requested limit is larger than the policy's ceiling.
pub open spec fn exceeds_ceiling(req: CreateRequest, r: ResourcePolicy) -> bool {
    ||| (req.memory_limit_mb matches Some(m) && mib(m) > r.memory_bytes)
    ||| (req.cpus_bits matches Some(c) && float_exceeds(c, r.cpus_bits))
    ||| (req.pids_limit matches Some(p) && p > r.pids)
}

/// The first reason to refuse the request: an empty command, dangerous
/// mode, an invalid policy, a request over the policy's ceiling.
pub open spec fn create_fault(req: CreateRequest) -> Option<CreateError> {
    if req.command@.len() == 0 {
        Some(CreateError::EmptyCommand)
    } else if req.dangerous == Some(true) {
        Some(CreateError::DangerousRefused)
    } else {
        match req.policy {
            None => None,
            Some(d) => match policy_fault(d@) {
                Some(e) => Some(CreateError::InvalidPolicy(e)),
                None => if exceeds_ceiling(req, d@.resources) {
                    Some(CreateError::ExceedsCeiling)
                } else {
                    None
                },
            },
        }
    }
}

/// The requested memory is converted to bytes once the request got past
/// its first three checks, so it must fit in a `u64` there.
pub open spec fn memory_converts(req: CreateRequest) -> bool {
    (req.command@.len() > 0 && req.dangerous != Some(true)
        && (req.policy matches Some(d) ==> policy_fault(d@) is None))
        ==> (req.memory_limit_mb matches Some(m) ==> mib(m) <= u64::MAX)
}

/// The network rules a descriptor starts with: its first phase's, or its
/// own where it has no phases.
pub open spec fn initial_network(d: DescriptorView) -> Seq<NetRuleView> {
    if d.phases.len() > 0 { d.phases[0].network } else { d.network }
}

/// The resource limits a descriptor starts with.
pub open spec fn initial_resources(d: DescriptorView) -> ResourcePolicy {
    if d.phases.len() > 0 { d.phases[0].resources } else { d.resources }
}

/// The phase a descriptor starts in, if it has phases.
pub open spec fn initial_phase(d: DescriptorView) -> Option<Seq<char>> {
    if d.phases.len() > 0 { Some(d.phases[0].name) } else { None }
}

pub open spec fn desc_view(o: Option<CapabilityDescriptor>) -> Option<DescriptorView> {
    match o {
        Some(d) => Some(d@),
        None => None,
    }
}

pub open spec fn rules_opt_view(o: Option<Vec<NetworkRule>>) -> Option<Seq<NetRuleView>> {
    match o {
        Some(v) => Some(rules_view(v@)),
        None => None,
    }
}

pub open spec fn fs_opt_view(o: Option<Vec<FsRule>>) -> Option<Seq<FsRuleView>> {
    match o {
        Some(v) => Some(fs_rules_view(v@)),
        None => None,
    }
}

/// The id of the sandbox numbered `n`: `sb-<n>`.
pub open spec fn sandbox_id(n: u64) -> Seq<char> {
    "sb-"@ + crate::text::decimal(n as nat)
}

/// The cgroup of the entry with this id: `/sys/fs/cgroup/tinybox-<id>`.
pub open spec fn cgroup_of(id: Seq<char>) -> Seq<char> {
    "/sys/fs/cgroup/"@ + ("tinybox-"@ + id)
}

/// A fresh sink for `id`: the default capacity, in `phase`, nothing held.
pub open spec fn fresh_sink(id: Seq<char>, hash: Option<Seq<char>>, phase: Seq<char>) -> SinkView {
    SinkView {
        sandbox_id: id,
        policy_hash: hash,
        phase,
        capacity: crate::audit::DEFAULT_CAPACITY as nat,
        events: Seq::empty(),
        dropped_events: 0,
    }
}

pub open spec fn hash_text(h: Option<Seq<char>>) -> Seq<char> {
    match h {
        Some(t) => t,
        None => "none"@,
    }
}

/// The entry that an accepted sandbox request puts in the registry.
pub open spec fn created_entry(r: Sandbox, req: CreateRequest, id: Seq<char>, hash: Option<Seq<char>>) -> bool {
    let d = desc_view(req.policy);
    let phase = match d { Some(dv) => initial_phase(dv), None => None };
    &&& r.id@ == id
    &&& r.status == Status::Running
    &&& r.exit_code is None
    &&& r.pid is None
    &&& r.error is None
    &&& opt_view(r.policy_hash) == hash
    &&& opt_view(r.phase) == phase
    &&& r.generation == 0
    &&& r.kind == Kind::Sandbox
    &&& logged(
        fresh_sink(id, hash, match phase { Some(p) => p, None => "static"@ }),
        r.audit@,
        "runtime"@,
        "allow"@,
        "policy.load"@,
        hash_text(hash),
        None,
        "request accepted by control plane"@,
    )
    &&& desc_view(r.descriptor) == d
    &&& rules_opt_view(r.network_policy) == (match d { Some(dv) => Some(initial_network(dv)), None => None })
    &&& r.cgroup_path@ == cgroup_of(id)
    &&& r.keeper_pid is None
    &&& r.keeper_start_time is None
    &&& r.task_token is None
    &&& r.task_env@.len() == 0
}

/// `after` is `before` with an entry created from `req` put in.
pub open spec fn created_in(before: Seq<Sandbox>, after: Seq<Sandbox>, req: CreateRequest, id: Seq<char>, hash: Option<Seq<char>>) -> bool {
    exists|e: Sandbox| #[trigger] created_entry(e, req, id, hash) && after == insert_record(before, e)
}

/// What the launcher is told to run for an accepted sandbox request.
pub open spec fn sandbox_config(c: SandboxConfig, req: CreateRequest, id: Seq<char>) -> bool {
    let d = desc_view(req.policy);
    &&& opt_view(c.cgroup_name) == Some("tinybox-"@ + id)
    &&& strings_view(c.command@) == strings_view(req.command@)
    &&& opt_view(c.hostname) == opt_view(req.hostname)
    &&& opt_view(c.rootfs) == Some(req.rootfs@)
    &&& c.root_readonly == (req.root_readonly == Some(true))
    &&& strings_view(c.env@) == strings_view(req.env@)
    &&& opt_view(c.proxy) == opt_view(req.proxy)
    &&& strings_view(c.volumes@) == strings_view(req.volumes@)
    &&& c.memory == (match d {
        Some(dv) => Some(initial_resources(dv).memory_bytes),
        None => match req.memory_limit_mb { Some(m) => Some(mib(m) as u64), None => None },
    })
    &&& c.cpus_bits == (match d { Some(dv) => Some(initial_resources(dv).cpus_bits), None => req.cpus_bits })
    &&& c.cpu_quota is None
    &&& c.cpu_period is None
    &&& c.pids_limit == (match d { Some(dv) => Some(initial_resources(dv).pids), None => req.pids_limit })
    &&& !c.dangerous
    &&& fs_opt_view(c.filesystem_policy) == (match d { Some(dv) => Some(dv.filesystem), None => None })
    &&& rules_opt_view(c.network_policy) == (match d { Some(dv) => Some(initial_network(dv)), None => None })
    &&& c.namespaces is None
    &&& c.cwd is None
    &&& c.uid == 0
    &&& c.gid == 0
}

fn opt_string(o: &Option<String>) -> (r: Option<String>)
    ensures
        opt_view(r) == opt_view(*o),
{
    copy_opt(o)
}

/// The network rules, resources and phase a descriptor starts with.
fn initial_state(d: &CapabilityDescriptor) -> (r: (Vec<NetworkRule>, ResourcePolicy, Option<String>))
    ensures
        rules_view(r.0@) == initial_network(d@),
        r.1 == initial_resources(d@),
        opt_view(r.2) == initial_phase(d@),
{
    if d.phases.len() > 0 {
        let p = &d.phases[0];
        assert(d@.phases[0] == p@);
        (copy_rules(&p.network), p.resources, Some(p.name.clone()))
    } else {
        (copy_rules(&d.network), d.resources, None)
    }
}

fn over_ceiling(req: &CreateRequest, r: ResourcePolicy) -> (b: bool)
    requires
        req.memory_limit_mb matches Some(m) ==> mib(m) <= u64::MAX,
    ensures
        b == exceeds_ceiling(*req, r),
{
    let memory = match req.memory_limit_mb {
        Some(m) => m * 1024 * 1024 > r.memory_bytes,
        None => false,
    };
    let cpus = match req.cpus_bits {
        Some(c) => c < 0x8000_0000_0000_0000 && c <= 0x7FF0_0000_0000_0000 && c > r.cpus_bits,
        None => false,
    };
    let pids = match req.pids_limit {
        Some(p) => p > r.pids,
        None => false,
    };
    memory || cpus || pids
}

impl AppState {
    /// Accepts or refuses a request to start a sandbox.  `canonical_policy`
    /// is the canonical JSON of the request's policy, which its hash is
    /// taken of.  An accepted request is numbered, put in the registry as
    /// running with an audit log that records the acceptance, and answered
    /// with what the launcher must run.
    pub fn create(&mut self, req: CreateRequest, canonical_policy: &[u8]) -> (r: Result<Launch, CreateError>)
        requires
            old(self).wf(),
            memory_converts(req),
        ensures
            final(self).wf(),
            r is Ok <==> create_fault(req) is None,
            r matches Err(e) ==> create_fault(req) == Some(e) && final(self)@ == old(self)@,
            r matches Ok(l) ==> {
                let id = sandbox_id(old(self)@.next_id);
                let hash = match req.policy {
                    Some(_) => Some(crate::policy::policy_hash(canonical_policy@)),
                    None => None,
                };
                &&& l.id@ == id
                &&& opt_view(l.policy_hash) == hash
                &&& opt_view(l.phase) == (match desc_view(req.policy) { Some(dv) => initial_phase(dv), None => None })
                &&& sandbox_config(l.config, req, id)
                &&& final(self)@.next_id == bumped(old(self)@.next_id)
                &&& created_in(old(self)@.records, final(self)@.records, req, id, hash)
            },
    {
        if req.command.len() == 0 {
            return Err(CreateError::EmptyCommand);
        }
        if let Some(true) = req.dangerous {
            return Err(CreateError::DangerousRefused);
        }
        let ghost req0 = req;
        let loaded: Option<LoadedPolicy> = match req.policy {
            Some(ref d) => {
                let d2 = d.copy();
                match d2.compile(canonical_policy) {
                    Ok(l) => Some(l),
                    Err(e) => {
                        return Err(CreateError::InvalidPolicy(e));
                    },
                }
            },
            None => None,
        };
        assert(desc_view(req.policy) == match loaded { Some(l) => Some(l.descriptor@), None => None });
        assert(loaded matches Some(l) ==> l.hash@ == crate::policy::policy_hash(canonical_policy@));
        if let Some(ref l) = loaded {
            if over_ceiling(&req, l.descriptor.resources) {
                return Err(CreateError::ExceedsCeiling);
            }
        }
        let n = self.take_number();
        let digits = crate::text::u64_to_string(n);
        let id = concat("sb-", digits.as_str());
        let policy_hash: Option<String> = match loaded {
            Some(ref l) => Some(l.hash.clone()),
            None => None,
        };
        let cgroup_name = concat("tinybox-", id.as_str());
        let cgroup_path = concat("/sys/fs/cgroup/", cgroup_name.as_str());
        let (network, resources, phase): (Option<Vec<NetworkRule>>, Option<ResourcePolicy>, Option<String>) = match loaded {
            Some(ref l) => {
                let (net, res, ph) = initial_state(&l.descriptor);
                (Some(net), Some(res), ph)
            },
            None => (None, None, None),
        };
        let mut audit = AuditSink::new(id.clone(), opt_string(&policy_hash));
        if let Some(ref p) = phase {
            audit.set_phase(p.as_str());
        }
        let ghost sink0 = audit@;
        let target = match policy_hash {
            Some(ref h) => h.clone(),
            None => "none".to_owned(),
        };
        log(&mut audit, "runtime", "allow", "policy.load", target, None, "request accepted by control plane".to_owned());
        let descriptor: Option<CapabilityDescriptor> = match loaded {
            Some(ref l) => Some(l.descriptor.copy()),
            None => None,
        };
        let filesystem: Option<Vec<FsRule>> = match loaded {
            Some(ref l) => Some(copy_fs_rules(&l.descriptor.filesystem)),
            None => None,
        };
        let config_network: Option<Vec<NetworkRule>> = match network {
            Some(ref v) => Some(copy_rules(v)),
            None => None,
        };
        let entry = Sandbox {
            id: id.clone(),
            status: Status::Running,
            exit_code: None,
            pid: None,
            error: None,
            policy_hash: opt_string(&policy_hash),
            phase: opt_string(&phase),
            generation: 0,
            kind: Kind::Sandbox,
            audit,
            descriptor,
            network_policy: network,
            cgroup_path,
            keeper_pid: None,
            keeper_start_time: None,
            task_token: None,
            task_env: Vec::new(),
        };
        proof {
            let d = desc_view(req0.policy);
            let ph = match d { Some(dv) => initial_phase(dv), None => None };
            assert(opt_view(entry.phase) == ph);
            assert(opt_view(entry.policy_hash) == opt_view(policy_hash));
            reveal_strlit("static");
            assert(sink0.events =~= Seq::<EventView>::empty());
            assert(sink0.sandbox_id == id@);
            assert(sink0.policy_hash == opt_view(policy_hash));
            assert(opt_view(phase) == ph);
            assert(sink0.phase == (match ph { Some(p) => p, None => "static"@ }));
            assert(sink0.capacity == crate::audit::DEFAULT_CAPACITY as nat);
            assert(sink0 == fresh_sink(id@, opt_view(policy_hash), match ph { Some(p) => p, None => "static"@ }));
            assert(hash_text(opt_view(policy_hash)) == target@);
            assert(desc_view(entry.descriptor) == d);
            assert(rules_opt_view(entry.network_policy) == (match d { Some(dv) => Some(initial_network(dv)), None => None }));
            assert(entry.cgroup_path@ == cgroup_of(id@));
            assert(entry.task_env@.len() == 0);
        }
        assert(created_entry(entry, req0, id@, opt_view(policy_hash)));
        let ghost e = entry;
        self.insert(entry);
        let memory: Option<u64> = match resources {
            Some(res) => Some(res.memory_bytes),
            None => match req.memory_limit_mb {
                Some(m) => Some(m * 1024 * 1024),
                None => None,
            },
        };
        let cpus_bits: Option<u64> = match resources {
            Some(res) => Some(res.cpus_bits),
            None => req.cpus_bits,
        };
        let pids_limit: Option<u64> = match resources {
            Some(res) => Some(res.pids),
            None => req.pids_limit,
        };
        let config = SandboxConfig {
            cgroup_name: Some(cgroup_name),
            command: req.command,
            hostname: req.hostname,
            rootfs: Some(req.rootfs),
            root_readonly: match req.root_readonly {
                Some(b) => b,
                None => false,
            },
            env: req.env,
            proxy: req.proxy,
            volumes: req.volumes,
            memory,
            cpus_bits,
            cpu_quota: None,
            cpu_period: None,
            pids_limit,
            dangerous: false,
            filesystem_policy: filesystem,
            network_policy: config_network,
            namespaces: None,
            cwd: None,
            uid: 0,
            gid: 0,
        };
        proof {
            assert(id@ == sandbox_id(n));
            assert(opt_view(policy_hash) == match req0.policy {
                Some(_) => Some(crate::policy::policy_hash(canonical_policy@)),
                None => None,
            });
            assert(opt_view(phase) == (match desc_view(req0.policy) { Some(dv) => initial_phase(dv), None => None }));
            assert(self@.next_id == bumped(old(self)@.next_id));
            assert(req0 == req);
            assert(sandbox_config(config, req0, id@));
            let hash = match req.policy {
                Some(_) => Some(crate::policy::policy_hash(canonical_policy@)),
                None => None,
            };
            assert(created_entry(e, req, sandbox_id(old(self)@.next_id), hash) && self@.records == insert_record(old(self)@.records, e));
            assert(created_in(old(self)@.records, self@.records, req, sandbox_id(old(self)@.next_id), hash));
        }
        Ok(Launch { id, policy_hash, phase, config })
    }
}


// ---------------------------------------------------------------------------
// Creating Agent tasks

/// A request to start a persistent Agent task.  `workspace` is the
/// canonical path of the host directory that the task sees as `/workspace`.
#[derive(Debug)]
pub struct TaskCreateRequest {
    pub workspace: String,
    pub policy: CapabilityDescriptor,
    pub env: Vec<String>,
    pub hostname: Option<String>,
}

/// Why a request to start a task was refused.
#[derive(Debug)]
pub enum TaskCreateError {
    /// `invalid policy: ...`
    InvalidPolicy(PolicyError),
    /// `task API accepts static policies only`
    PhasesNotAllowed,
    /// `task filesystem rules must stay under /workspace or /tmp`
    FilesystemOutsideWorkspace,
    /// The environment was refused.
    Env(TaskEnvError),
    /// `failed to create task token: ...`: no random bytes were had.
    TokenUnavailable,
}

/// A refused task request, with the environment fault by its view.
pub enum TaskFault {
    InvalidPolicy(PolicyError),
    PhasesNotAllowed,
    FilesystemOutsideWorkspace,
    Env(EnvFault),
    TokenUnavailable,
}

impl View for TaskCreateError {
    type V = TaskFault;

    open spec fn view(&self) -> TaskFault {
        match self {
            TaskCreateError::InvalidPolicy(e) => TaskFault::InvalidPolicy(*e),
            TaskCreateError::PhasesNotAllowed => TaskFault::PhasesNotAllowed,
            TaskCreateError::FilesystemOutsideWorkspace => TaskFault::FilesystemOutsideWorkspace,
            TaskCreateError::Env(e) => TaskFault::Env(e@),
            TaskCreateError::TokenUnavailable => TaskFault::TokenUnavailable,
        }
    }
}

/// An accepted task: its id, the token that authorizes calls on it, and
/// what the launcher must run.
#[derive(Debug)]
pub struct TaskLaunch {
    pub id: String,
    pub token: String,
    pub policy_hash: String,
    pub config: SandboxConfig,
}

/// A task's filesystem rule stays under `/workspace` or is `/tmp`, by
/// path components.
pub open spec fn task_path_ok(p: Seq<char>) -> bool {
    let c = crate::paths::path_components(p);
    ||| (c.len() >= 2 && c[0] == crate::paths::PathPart::Root && c[1] == crate::paths::PathPart::Normal("workspace"@))
    ||| c == seq![crate::paths::PathPart::Root, crate::paths::PathPart::Normal("tmp"@)]
}

/// The first reason to refuse a task request that needs no randomness.
pub open spec fn task_fault(req: TaskCreateRequest) -> Option<TaskFault> {
    let d = req.policy@;
    if policy_fault(d) is Some {
        Some(TaskFault::InvalidPolicy(policy_fault(d)->0))
    } else if d.phases.len() > 0 {
        Some(TaskFault::PhasesNotAllowed)
    } else if exists|i: int| 0 <= i < d.filesystem.len() && !task_path_ok(#[trigger] d.filesystem[i].path) {
        Some(TaskFault::FilesystemOutsideWorkspace)
    } else if task_env_fault(strings_view(req.env@)) is Some {
        Some(TaskFault::Env(task_env_fault(strings_view(req.env@))->0))
    } else {
        None
    }
}

/// The id of the task numbered `n`: `task-<n>`.
pub open spec fn task_id(n: u64) -> Seq<char> {
    "task-"@ + crate::text::decimal(n as nat)
}

/// The entry that an accepted task request puts in the registry.
pub open spec fn task_entry(r: Sandbox, req: TaskCreateRequest, id: Seq<char>, hash: Seq<char>, token: Seq<char>) -> bool {
    &&& r.id@ == id
    &&& r.status == Status::Starting
    &&& r.exit_code is None
    &&& r.pid is None
    &&& r.error is None
    &&& opt_view(r.policy_hash) == Some(hash)
    &&& r.phase is None
    &&& r.generation == 0
    &&& r.kind == Kind::Task
    &&& logged(
        fresh_sink(id, Some(hash), "static"@),
        r.audit@,
        "runtime"@,
        "allow"@,
        "task.create"@,
        "/workspace"@,
        Some("task:ceiling"@),
        "persistent Agent task accepted"@,
    )
    &&& desc_view(r.descriptor) == Some(req.policy@)
    &&& rules_opt_view(r.network_policy) == Some(req.policy@.network)
    &&& r.cgroup_path@ == cgroup_of(id)
    &&& r.keeper_pid is None
    &&& r.keeper_start_time is None
    &&& opt_view(r.task_token) == Some(token)
    &&& strings_view(r.task_env@) == strings_view(req.env@)
}

pub open spec fn task_created_in(before: Seq<Sandbox>, after: Seq<Sandbox>, req: TaskCreateRequest, id: Seq<char>, hash: Seq<char>, token: Seq<char>) -> bool {
    exists|e: Sandbox| #[trigger] task_entry(e, req, id, hash, token) && after == insert_record(before, e)
}

/// What the launcher is told to run for an accepted task: a keeper that
/// sleeps in the host's root with the workspace mounted at `/workspace`.
pub open spec fn task_config(c: SandboxConfig, req: TaskCreateRequest, id: Seq<char>) -> bool {
    let d = req.policy@;
    &&& opt_view(c.cgroup_name) == Some("tinybox-"@ + id)
    &&& strings_view(c.command@) == seq!["/bin/sleep"@, "2147483647"@]
    &&& opt_view(c.hostname) == opt_view(req.hostname)
    &&& opt_view(c.rootfs) == Some("/"@)
    &&& !c.root_readonly
    &&& strings_view(c.env@) == strings_view(req.env@)
    &&& c.proxy is None
    &&& strings_view(c.volumes@) == seq![req.workspace@ + ":/workspace"@]
    &&& c.memory == Some(d.resources.memory_bytes)
    &&& c.cpus_bits == Some(d.resources.cpus_bits)
    &&& c.cpu_quota is None
    &&& c.cpu_period is None
    &&& c.pids_limit == Some(d.resources.pids)
    &&& !c.dangerous
    &&& fs_opt_view(c.filesystem_policy) == Some(d.filesystem)
    &&& rules_opt_view(c.network_policy) == Some(d.network)
    &&& c.namespaces is None
    &&& opt_view(c.cwd) == Some("/workspace"@)
    &&& c.uid == 0
    &&& c.gid == 0
}

fn path_within_task(p: &str) -> (b: bool)
    ensures
        b == task_path_ok(p@),
{
    let cs = chars_of(p);
    let parts = crate::paths::components(cs.as_slice());
    let ghost c = crate::paths::parts_of(parts@);
    assert(c.len() == parts@.len());
    if parts.len() >= 2 {
        let first_root = match &parts[0] {
            crate::paths::Component::RootDir => true,
            _ => false,
        };
        assert(first_root == (c[0] == crate::paths::PathPart::Root));
        if first_root {
            let second = match &parts[1] {
                crate::paths::Component::Normal(v) => Some(v),
                _ => None,
            };
            if let Some(v) = second {
                assert(c[1] == crate::paths::PathPart::Normal(v@));
                let w = chars_of("workspace");
                if crate::text::chars_eq(v.as_slice(), w.as_slice()) {
                    return true;
                }
                if parts.len() == 2 {
                    let t = chars_of("tmp");
                    let is_tmp = crate::text::chars_eq(v.as_slice(), t.as_slice());
                    if is_tmp {
                        assert(c =~= seq![crate::paths::PathPart::Root, crate::paths::PathPart::Normal("tmp"@)]);
                    } else {
                        assert(c[1] != crate::paths::PathPart::Normal("tmp"@));
                    }
                    return is_tmp;
                }
                assert(c.len() != 2);
                return false;
            } else {
                assert(c[1] !is Normal);
                return false;
            }
        }
        return false;
    }
    assert(c.len() < 2);
    false
}

fn filesystem_within_task(rules: &Vec<FsRule>) -> (b: bool)
    ensures
        b == forall|i: int| 0 <= i < rules@.len() ==> task_path_ok(#[trigger] fs_rules_view(rules@)[i].path),
{
    let mut i: usize = 0;
    while i < rules.len()
        invariant
            i <= rules@.len(),
            forall|k: int| 0 <= k < i ==> task_path_ok(#[trigger] fs_rules_view(rules@)[k].path),
        decreases rules@.len() - i,
    {
        if !path_within_task(rules[i].path.as_str()) {
            assert(!task_path_ok(fs_rules_view(rules@)[i as int].path));
            return false;
        }
        i = i + 1;
    }
    true
}

impl AppState {
    /// Accepts or refuses a request to start a persistent Agent task.
    /// `canonical_policy` is the canonical JSON of the request's policy;
    /// `random` holds the random bytes for the task's token, or nothing
    /// where none could be read.  A task is numbered before its token is
    /// made, so a request refused for want of randomness still uses up a
    /// number.
    pub fn create_task(&mut self, req: TaskCreateRequest, canonical_policy: &[u8], random: Option<Vec<u8>>) -> (r: Result<TaskLaunch, TaskCreateError>)
        requires
            old(self).wf(),
        ensures
            final(self).wf(),
            task_fault(req) is None && random is Some <==> r is Ok,
            task_fault(req) matches Some(e) ==> (r matches Err(f) && f@ == e && final(self)@ == old(self)@),
            (task_fault(req) is None && random is None) ==> (
                r matches Err(TaskCreateError::TokenUnavailable) && final(self)@.records == old(self)@.records
                && final(self)@.next_id == bumped(old(self)@.next_id)),
            r matches Ok(l) ==> {
                let id = task_id(old(self)@.next_id);
                let hash = crate::policy::policy_hash(canonical_policy@);
                &&& l.id@ == id
                &&& l.token@ == hex_lower(random->0@)
                &&& l.policy_hash@ == hash
                &&& task_config(l.config, req, id)
                &&& final(self)@.next_id == bumped(old(self)@.next_id)
                &&& task_created_in(old(self)@.records, final(self)@.records, req, id, hash, l.token@)
            },
    {
        let ghost req0 = req;
        let d2 = req.policy.copy();
        let loaded = match d2.compile(canonical_policy) {
            Ok(l) => l,
            Err(e) => {
                return Err(TaskCreateError::InvalidPolicy(e));
            },
        };
        if loaded.descriptor.phases.len() > 0 {
            return Err(TaskCreateError::PhasesNotAllowed);
        }
        if !filesystem_within_task(&loaded.descriptor.filesystem) {
            return Err(TaskCreateError::FilesystemOutsideWorkspace);
        }
        if let Err(e) = validate_task_env(req.env.as_slice()) {
            assert(req.env@.map_values(|s: String| s@) == strings_view(req.env@));
            return Err(TaskCreateError::Env(e));
        }
        assert(req.env@.map_values(|s: String| s@) == strings_view(req.env@));
        let n = self.take_number();
        let digits = crate::text::u64_to_string(n);
        let id = concat("task-", digits.as_str());
        let token = match random {
            Some(ref bytes) => token_from_bytes(bytes.as_slice()),
            None => {
                return Err(TaskCreateError::TokenUnavailable);
            },
        };
        let cgroup_name = concat("tinybox-", id.as_str());
        let cgroup_path = concat("/sys/fs/cgroup/", cgroup_name.as_str());
        let policy_hash = loaded.hash.clone();
        let mut audit = AuditSink::new(id.clone(), Some(policy_hash.clone()));
        let ghost sink0 = audit@;
        log(
            &mut audit,
            "runtime",
            "allow",
            "task.create",
            "/workspace".to_owned(),
            Some("task:ceiling".to_owned()),
            "persistent Agent task accepted".to_owned(),
        );
        let entry = Sandbox {
            id: id.clone(),
            status: Status::Starting,
            exit_code: None,
            pid: None,
            error: None,
            policy_hash: Some(policy_hash.clone()),
            phase: None,
            generation: 0,
            kind: Kind::Task,
            audit,
            descriptor: Some(loaded.descriptor.copy()),
            network_policy: Some(copy_rules(&loaded.descriptor.network)),
            cgroup_path,
            keeper_pid: None,
            keeper_start_time: None,
            task_token: Some(token.clone()),
            task_env: copy_strings(&req.env),
        };
        proof {
            reveal_strlit("static");
            assert(sink0.events =~= Seq::<EventView>::empty());
            assert(sink0.sandbox_id == id@);
            assert(sink0.policy_hash == Some(policy_hash@));
            assert(sink0.phase == "static"@);
            assert(sink0.capacity == crate::audit::DEFAULT_CAPACITY as nat);
            assert(sink0 == fresh_sink(id@, Some(policy_hash@), "static"@));
            assert(task_entry(entry, req0, id@, policy_hash@, token@));
        }
        let ghost e = entry;
        self.insert(entry);
        let mut command: Vec<String> = Vec::new();
        command.push("/bin/sleep".to_owned());
        command.push("2147483647".to_owned());
        let mut volumes: Vec<String> = Vec::new();
        volumes.push(concat(req.workspace.as_str(), ":/workspace"));
        let resources = loaded.descriptor.resources;
        let config = SandboxConfig {
            cgroup_name: Some(cgroup_name),
            command,
            hostname: req.hostname,
            rootfs: Some("/".to_owned()),
            root_readonly: false,
            env: req.env,
            proxy: None,
            volumes,
            memory: Some(resources.memory_bytes),
            cpus_bits: Some(resources.cpus_bits),
            cpu_quota: None,
            cpu_period: None,
            pids_limit: Some(resources.pids),
            dangerous: false,
            filesystem_policy: Some(copy_fs_rules(&loaded.descriptor.filesystem)),
            network_policy: Some(copy_rules(&loaded.descriptor.network)),
            namespaces: None,
            cwd: Some("/workspace".to_owned()),
            uid: 0,
            gid: 0,
        };
        proof {
            assert(id@ == task_id(n));
            assert(strings_view(config.command@) =~= seq!["/bin/sleep"@, "2147483647"@]);
            assert(strings_view(config.volumes@) =~= seq![req0.workspace@ + ":/workspace"@]);
            assert(task_config(config, req0, id@));
            assert(task_entry(e, req, task_id(old(self)@.next_id), policy_hash@, token@)
                && self@.records == insert_record(old(self)@.records, e));
            assert(task_created_in(old(self)@.records, self@.records, req, task_id(old(self)@.next_id), policy_hash@, token@));
        }
        Ok(TaskLaunch { id, token, policy_hash, config })
    }
}


// ---------------------------------------------------------------------------
// Life cycle of an entry

/// How a launched sandbox or task ended, as the launcher reports it.
#[derive(Debug)]
pub enum RunOutcome {
    /// The payload ran and exited with this code.
    Exited(i32),
    /// The sandbox could not be set up; the error text.
    SetupFailed(String),
    /// The launcher failed otherwise; the error text.
    Failed(String),
}

/// What removing a sandbox came to.
#[derive(Clone, Copy, PartialEq, Eq, Structural, Debug)]
pub enum RemoveOutcome {
    /// No entry has the id.
    NotFound,
    /// The entry is a task, which only the task API removes.
    Forbidden,
    /// The entry was removed; the process to kill, if any.
    Removed(Option<i32>),
}

/// The process that removing a sandbox kills: its supervisor, while the
/// sandbox is running or has failed.
pub open spec fn kill_target(r: Sandbox) -> Option<i32> {
    if r.status == Status::Running || r.status == Status::Failed || r.status == Status::SetupFailed {
        r.pid
    } else {
        None
    }
}

/// The entry after the launcher reported how it ended: completed with the
/// exit code, or failed (in setup or otherwise) with the error text.
pub open spec fn finished(r: Sandbox, outcome: RunOutcome) -> Sandbox {
    match outcome {
        RunOutcome::Exited(code) => Sandbox { status: Status::Completed, exit_code: Some(code), ..r },
        RunOutcome::SetupFailed(e) => Sandbox { status: Status::SetupFailed, error: Some(e), ..r },
        RunOutcome::Failed(e) => Sandbox { status: Status::Failed, error: Some(e), ..r },
    }
}

/// The entry after its keeper process was noted: running once the
/// keeper's start time is known.
pub open spec fn kept(r: Sandbox, pid: i32, start_time: Option<u64>) -> Sandbox {
    Sandbox {
        keeper_pid: Some(pid),
        keeper_start_time: start_time,
        status: if start_time is Some { Status::Running } else { r.status },
        ..r
    }
}

proof fn lemma_update_ok(s: StateView, i: int, r: Sandbox)
    requires
        registry_ok(s),
        0 <= i < s.records.len(),
        r.id@ == s.records[i].id@,
        descriptor_ok(r),
    ensures
        registry_ok(StateView { records: s.records.update(i, r), ..s }),
{
    let t = s.records.update(i, r);
    assert forall|a: int, b: int| 0 <= a < b < t.len() implies t[a].id@ != t[b].id@ by {
        assert(s.records[a].id@ != s.records[b].id@);
    }
    assert forall|k: int| 0 <= k < t.len() implies descriptor_ok(#[trigger] t[k]) by {
        if k != i {
            assert(t[k] == s.records[k]);
        }
    }
}

proof fn lemma_remove_ok(s: StateView, i: int)
    requires
        registry_ok(s),
        0 <= i < s.records.len(),
    ensures
        registry_ok(StateView { records: s.records.remove(i), ..s }),
{
    let t = s.records.remove(i);
    assert forall|a: int, b: int| 0 <= a < b < t.len() implies t[a].id@ != t[b].id@ by {
        let a0 = if a < i { a } else { a + 1 };
        let b0 = if b < i { b } else { b + 1 };
        assert(t[a] == s.records[a0]);
        assert(t[b] == s.records[b0]);
    }
    assert forall|k: int| 0 <= k < t.len() implies descriptor_ok(#[trigger] t[k]) by {
        let k0 = if k < i { k } else { k + 1 };
        assert(t[k] == s.records[k0]);
    }
}

impl AppState {
    /// Notes the supervisor process of an entry.
    pub fn set_pid(&mut self, id: &str, pid: i32)
        requires
            old(self).wf(),
        ensures
            final(self).wf(),
            final(self)@.next_id == old(self)@.next_id,
            has_id(old(self)@.records, id@) ==> final(self)@.records == old(self)@.records.update(
                index_of(old(self)@.records, id@),
                Sandbox { pid: Some(pid), ..entry(old(self)@.records, id@) },
            ),
            !has_id(old(self)@.records, id@) ==> final(self)@ == old(self)@,
    {
        if let Some(i) = self.find(id) {
            let ghost s0 = self@;
            self.sandboxes[i].pid = Some(pid);
            proof {
                lemma_update_ok(s0, i as int, self.sandboxes@[i as int]);
                assert(self@.records =~= s0.records.update(i as int, self.sandboxes@[i as int]));
            }
        }
    }
}


impl AppState {
    /// Notes the keeper process of a task and, once its start time is
    /// known, marks the task running.
    pub fn set_keeper(&mut self, id: &str, pid: i32, start_time: Option<u64>)
        requires
            old(self).wf(),
        ensures
            final(self).wf(),
            final(self)@.next_id == old(self)@.next_id,
            has_id(old(self)@.records, id@) ==> final(self)@.records == old(self)@.records.update(
                index_of(old(self)@.records, id@),
                kept(entry(old(self)@.records, id@), pid, start_time),
            ),
            !has_id(old(self)@.records, id@) ==> final(self)@ == old(self)@,
    {
        if let Some(i) = self.find(id) {
            let ghost s0 = self@;
            self.sandboxes[i].keeper_pid = Some(pid);
            self.sandboxes[i].keeper_start_time = start_time;
            if start_time.is_some() {
                self.sandboxes[i].status = Status::Running;
            }
            proof {
                lemma_update_ok(s0, i as int, self.sandboxes@[i as int]);
                assert(self@.records =~= s0.records.update(i as int, self.sandboxes@[i as int]));
            }
        }
    }

    /// Notes how a launched sandbox or task ended.
    pub fn finish(&mut self, id: &str, outcome: RunOutcome)
        requires
            old(self).wf(),
        ensures
            final(self).wf(),
            final(self)@.next_id == old(self)@.next_id,
            has_id(old(self)@.records, id@) ==> final(self)@.records == old(self)@.records.update(
                index_of(old(self)@.records, id@),
                finished(entry(old(self)@.records, id@), outcome),
            ),
            !has_id(old(self)@.records, id@) ==> final(self)@ == old(self)@,
    {
        if let Some(i) = self.find(id) {
            let ghost s0 = self@;
            match outcome {
                RunOutcome::Exited(code) => {
                    self.sandboxes[i].status = Status::Completed;
                    self.sandboxes[i].exit_code = Some(code);
                },
                RunOutcome::SetupFailed(e) => {
                    self.sandboxes[i].status = Status::SetupFailed;
                    self.sandboxes[i].error = Some(e);
                },
                RunOutcome::Failed(e) => {
                    self.sandboxes[i].status = Status::Failed;
                    self.sandboxes[i].error = Some(e);
                },
            }
            proof {
                lemma_update_ok(s0, i as int, self.sandboxes@[i as int]);
                assert(self@.records =~= s0.records.update(i as int, self.sandboxes@[i as int]));
            }
        }
    }

    /// Removes a sandbox.  Tasks are refused: only the task API removes
    /// them.  The answer names the process to kill, if any.
    pub fn remove(&mut self, id: &str) -> (r: RemoveOutcome)
        requires
            old(self).wf(),
        ensures
            final(self).wf(),
            final(self)@.next_id == old(self)@.next_id,
            !has_id(old(self)@.records, id@) ==> r == RemoveOutcome::NotFound && final(self)@ == old(self)@,
            has_id(old(self)@.records, id@) && entry(old(self)@.records, id@).kind == Kind::Task ==>
                r == RemoveOutcome::Forbidden && final(self)@ == old(self)@,
            has_id(old(self)@.records, id@) && entry(old(self)@.records, id@).kind == Kind::Sandbox ==>
                r == RemoveOutcome::Removed(kill_target(entry(old(self)@.records, id@)))
                && final(self)@.records == old(self)@.records.remove(index_of(old(self)@.records, id@)),
    {
        match self.find(id) {
            None => RemoveOutcome::NotFound,
            Some(i) => {
                if self.sandboxes[i].kind == Kind::Task {
                    return RemoveOutcome::Forbidden;
                }
                let st = self.sandboxes[i].status;
                let kill = if st == Status::Running || st == Status::Failed || st == Status::SetupFailed {
                    self.sandboxes[i].pid
                } else {
                    None
                };
                let ghost s0 = self@;
                let _removed = self.sandboxes.remove(i);
                proof {
                    lemma_remove_ok(s0, i as int);
                }
                RemoveOutcome::Removed(kill)
            },
        }
    }

    /// Records an event on the audit log of an entry, as the sandbox's
    /// runtime and proxy do.
    pub fn record_event(
        &mut self,
        id: &str,
        source: &str,
        decision: &str,
        capability: &str,
        target: String,
        rule_id: Option<String>,
        reason: String,
    )
        requires
            old(self).wf(),
        ensures
            final(self).wf(),
            final(self)@.next_id == old(self)@.next_id,
            has_id(old(self)@.records, id@) ==> {
                let i = index_of(old(self)@.records, id@);
                let before = old(self)@.records[i];
                let after = final(self)@.records[i];
                &&& final(self)@.records == old(self)@.records.update(i, after)
                &&& same_but_audit(before, after)
                &&& logged(before.audit@, after.audit@, source@, decision@, capability@, target@, opt_view(rule_id), reason@)
            },
            !has_id(old(self)@.records, id@) ==> final(self)@ == old(self)@,
    {
        if let Some(i) = self.find(id) {
            let ghost s0 = self@;
            log(&mut self.sandboxes[i].audit, source, decision, capability, target, rule_id, reason);
            proof {
                lemma_update_ok(s0, i as int, self.sandboxes@[i as int]);
                assert(self@.records =~= s0.records.update(i as int, self.sandboxes@[i as int]));
            }
        }
    }
}


// ---------------------------------------------------------------------------
// Calls on tasks

/// Why a call on a task was refused.
#[derive(Clone, Copy, PartialEq, Eq, Structural, Debug)]
pub enum TaskDenial {
    /// No token, a wrong token, or the entry is not a task (401).
    Unauthorized,
    /// No entry has the id (404).
    NotFound,
    /// The task is in this state, not running (409, `task is <state>`).
    NotRunning(Status),
    /// The task's keeper process is not known yet (409).
    NoKeeper,
    /// The task's supervisor process is not known yet (409).
    NoSupervisor,
}

/// The entry is a task and `token` is its token.
pub open spec fn token_matches(r: Sandbox, token: Seq<char>) -> bool {
    &&& r.kind == Kind::Task
    &&& r.task_token matches Some(t) && t@ == token
}

pub open spec fn str_opt(o: Option<&str>) -> Option<Seq<char>> {
    match o {
        Some(s) => Some(s@),
        None => None,
    }
}

/// Whether a tool call on task `id`, with this token, may run.
pub open spec fn exec_decision(recs: Seq<Sandbox>, id: Seq<char>, token: Option<Seq<char>>) -> Result<(), TaskDenial> {
    match token {
        None => Err(TaskDenial::Unauthorized),
        Some(t) => if !has_id(recs, id) {
            Err(TaskDenial::NotFound)
        } else if !token_matches(entry(recs, id), t) {
            Err(TaskDenial::Unauthorized)
        } else if entry(recs, id).status != Status::Running {
            Err(TaskDenial::NotRunning(entry(recs, id).status))
        } else if entry(recs, id).keeper_pid is None || entry(recs, id).keeper_start_time is None {
            Err(TaskDenial::NoKeeper)
        } else {
            Ok(())
        },
    }
}

/// Whether task `id` may be removed with this token.
pub open spec fn removal_decision(recs: Seq<Sandbox>, id: Seq<char>, token: Option<Seq<char>>) -> Result<(), TaskDenial> {
    match token {
        None => Err(TaskDenial::Unauthorized),
        Some(t) => if !has_id(recs, id) {
            Err(TaskDenial::NotFound)
        } else if !token_matches(entry(recs, id), t) {
            Err(TaskDenial::Unauthorized)
        } else if entry(recs, id).pid is None {
            Err(TaskDenial::NoSupervisor)
        } else {
            Ok(())
        },
    }
}

/// The filesystem rules a tool call runs under: the descriptor's, or none.
pub open spec fn exec_filesystem(r: Sandbox) -> Seq<FsRuleView> {
    match r.descriptor {
        Some(d) => d@.filesystem,
        None => Seq::empty(),
    }
}

fn token_ok(r: &Sandbox, token: &str) -> (b: bool)
    ensures
        b == token_matches(*r, token@),
{
    if r.kind != Kind::Task {
        return false;
    }
    match &r.task_token {
        Some(t) => constant_time_eq(t.as_str(), token),
        None => false,
    }
}

impl AppState {
    /// Decides whether a tool call on a task may run and, if so, where.
    pub fn authorize_exec(&self, id: &str, token: Option<&str>) -> (r: Result<ExecTarget, TaskDenial>)
        requires
            self.wf(),
        ensures
            r is Ok <==> exec_decision(self@.records, id@, str_opt(token)) is Ok,
            r matches Err(d) ==> exec_decision(self@.records, id@, str_opt(token)) == Err::<(), TaskDenial>(d),
            r matches Ok(t) ==> {
                let e = entry(self@.records, id@);
                &&& Some(t.keeper_pid) == e.keeper_pid
                &&& Some(t.keeper_start_time) == e.keeper_start_time
                &&& t.cgroup_path@ == e.cgroup_path@
                &&& fs_rules_view(t.filesystem_policy@) == exec_filesystem(e)
                &&& strings_view(t.base_env@) == strings_view(e.task_env@)
            },
    {
        let token = match token {
            None => {
                return Err(TaskDenial::Unauthorized);
            },
            Some(t) => t,
        };
        let i = match self.find(id) {
            None => {
                return Err(TaskDenial::NotFound);
            },
            Some(i) => i,
        };
        let task = &self.sandboxes[i];
        if !token_ok(task, token) {
            return Err(TaskDenial::Unauthorized);
        }
        if task.status != Status::Running {
            return Err(TaskDenial::NotRunning(task.status));
        }
        let keeper_pid = match task.keeper_pid {
            Some(p) => p,
            None => {
                return Err(TaskDenial::NoKeeper);
            },
        };
        let keeper_start_time = match task.keeper_start_time {
            Some(t) => t,
            None => {
                return Err(TaskDenial::NoKeeper);
            },
        };
        let filesystem_policy = match &task.descriptor {
            Some(d) => copy_fs_rules(&d.filesystem),
            None => Vec::new(),
        };
        proof {
            if task.descriptor is None {
                assert(fs_rules_view(filesystem_policy@) =~= Seq::<FsRuleView>::empty());
            }
        }
        Ok(ExecTarget {
            keeper_pid,
            keeper_start_time,
            cgroup_path: task.cgroup_path.clone(),
            filesystem_policy,
            base_env: copy_strings(&task.task_env),
        })
    }

    /// Records on a task's audit log that a tool call ran:
    /// `exit=<code>`, timed out or completed.
    pub fn record_exec_result(&mut self, id: &str, exit_code: i32, timed_out: bool)
        requires
            old(self).wf(),
        ensures
            final(self).wf(),
            final(self)@.next_id == old(self)@.next_id,
            has_id(old(self)@.records, id@) ==> {
                let i = index_of(old(self)@.records, id@);
                let before = old(self)@.records[i];
                let after = final(self)@.records[i];
                &&& final(self)@.records == old(self)@.records.update(i, after)
                &&& same_but_audit(before, after)
                &&& logged(before.audit@, after.audit@, "runtime"@, "allow"@, "task.exec"@,
                    "exit="@ + signed_decimal(exit_code as int), Some("task:exec"@),
                    if timed_out { "tool call timed out"@ } else { "tool call completed"@ })
            },
            !has_id(old(self)@.records, id@) ==> final(self)@ == old(self)@,
    {
        let code = i64_to_string(exit_code as i64);
        let target = concat("exit=", code.as_str());
        let reason = if timed_out { "tool call timed out".to_owned() } else { "tool call completed".to_owned() };
        self.record_event(id, "runtime", "allow", "task.exec", target, Some("task:exec".to_owned()), reason);
    }

    /// Records on a task's audit log that a tool call could not be set up.
    pub fn record_exec_failure(&mut self, id: &str, error: String)
        requires
            old(self).wf(),
        ensures
            final(self).wf(),
            final(self)@.next_id == old(self)@.next_id,
            has_id(old(self)@.records, id@) ==> {
                let i = index_of(old(self)@.records, id@);
                let before = old(self)@.records[i];
                let after = final(self)@.records[i];
                &&& final(self)@.records == old(self)@.records.update(i, after)
                &&& same_but_audit(before, after)
                &&& logged(before.audit@, after.audit@, "runtime"@, "deny"@, "task.exec"@, "setup"@, Some("task:exec"@), error@)
            },
            !has_id(old(self)@.records, id@) ==> final(self)@ == old(self)@,
    {
        self.record_event(id, "runtime", "deny", "task.exec", "setup".to_owned(), Some("task:exec".to_owned()), error);
    }

    /// Starts removing a task: checks the token, marks the task stopping,
    /// and answers with its supervisor process and cgroup for cleanup.
    pub fn begin_remove_task(&mut self, id: &str, token: Option<&str>) -> (r: Result<(i32, String), TaskDenial>)
        requires
            old(self).wf(),
        ensures
            final(self).wf(),
            final(self)@.next_id == old(self)@.next_id,
            r is Ok <==> removal_decision(old(self)@.records, id@, str_opt(token)) is Ok,
            r matches Err(d) ==> removal_decision(old(self)@.records, id@, str_opt(token)) == Err::<(), TaskDenial>(d)
                && final(self)@ == old(self)@,
            r matches Ok(p) ==> {
                let i = index_of(old(self)@.records, id@);
                let e = old(self)@.records[i];
                &&& Some(p.0) == e.pid
                &&& p.1@ == e.cgroup_path@
                &&& final(self)@.records == old(self)@.records.update(i, Sandbox { status: Status::Stopping, ..e })
            },
    {
        let token = match token {
            None => {
                return Err(TaskDenial::Unauthorized);
            },
            Some(t) => t,
        };
        let i = match self.find(id) {
            None => {
                return Err(TaskDenial::NotFound);
            },
            Some(i) => i,
        };
        if !token_ok(&self.sandboxes[i], token) {
            return Err(TaskDenial::Unauthorized);
        }
        let pid = match self.sandboxes[i].pid {
            Some(p) => p,
            None => {
                return Err(TaskDenial::NoSupervisor);
            },
        };
        let cgroup = self.sandboxes[i].cgroup_path.clone();
        let ghost s0 = self@;
        self.sandboxes[i].status = Status::Stopping;
        proof {
            lemma_update_ok(s0, i as int, self.sandboxes@[i as int]);
            assert(self@.records =~= s0.records.update(i as int, self.sandboxes@[i as int]));
        }
        Ok((pid, cgroup))
    }

    /// Finishes removing a task once its processes and cgroup were cleaned
    /// up.  A failed cleanup leaves the task in place, marked
    /// `cleanup_failed` with the error, and answers with that error.
    pub fn finish_remove_task(&mut self, id: &str, cleanup_error: Option<String>) -> (r: Result<(), String>)
        requires
            old(self).wf(),
        ensures
            final(self).wf(),
            final(self)@.next_id == old(self)@.next_id,
            cleanup_error is None ==> r is Ok && (if has_id(old(self)@.records, id@) {
                final(self)@.records == old(self)@.records.remove(index_of(old(self)@.records, id@))
            } else {
                final(self)@ == old(self)@
            }),
            cleanup_error matches Some(e) ==> {
                let text = "task cleanup failed: "@ + e@;
                &&& (r matches Err(m) && m@ == text)
                &&& has_id(old(self)@.records, id@) ==> {
                    let i = index_of(old(self)@.records, id@);
                    let old_e = old(self)@.records[i];
                    exists|msg: String| msg@ == text && final(self)@.records == old(self)@.records.update(
                        i,
                        Sandbox { status: Status::CleanupFailed, error: Some(msg), ..old_e },
                    )
                }
                &&& !has_id(old(self)@.records, id@) ==> final(self)@ == old(self)@
            },
    {
        match cleanup_error {
            Some(e) => {
                let text = concat("task cleanup failed: ", e.as_str());
                if let Some(i) = self.find(id) {
                    let ghost s0 = self@;
                    let msg = text.clone();
                    let ghost m = msg;
                    self.sandboxes[i].status = Status::CleanupFailed;
                    self.sandboxes[i].error = Some(msg);
                    proof {
                        lemma_update_ok(s0, i as int, self.sandboxes@[i as int]);
                        assert(self@.records =~= s0.records.update(i as int, self.sandboxes@[i as int]));
                        let old_e = s0.records[i as int];
                        assert(self@.records == s0.records.update(
                            i as int,
                            Sandbox { status: Status::CleanupFailed, error: Some(m), ..old_e },
                        ));
                        assert(m@ == "task cleanup failed: "@ + e@);
                    }
                }
                Err(text)
            },
            None => {
                if let Some(i) = self.find(id) {
                    let ghost s0 = self@;
                    let _removed = self.sandboxes.remove(i);
                    proof {
                        lemma_remove_ok(s0, i as int);
                    }
                }
                Ok(())
            },
        }
    }

    /// Finishes stopping a task once its processes and cgroup were cleaned
    /// up.  The task stays registered, marked `stopped`, so that its
    /// workspace outlives it and a later removal still finds it; tool calls
    /// on it are refused from then on.  A failed cleanup marks it
    /// `cleanup_failed` with the error, and answers with that error.
    pub fn finish_stop_task(&mut self, id: &str, cleanup_error: Option<String>) -> (r: Result<(), String>)
        requires
            old(self).wf(),
        ensures
            final(self).wf(),
            final(self)@.next_id == old(self)@.next_id,
            !has_id(old(self)@.records, id@) ==> final(self)@ == old(self)@,
            cleanup_error is None ==> r is Ok && (has_id(old(self)@.records, id@) ==> {
                let i = index_of(old(self)@.records, id@);
                let old_e = old(self)@.records[i];
                final(self)@.records == old(self)@.records.update(i, Sandbox { status: Status::Stopped, ..old_e })
            }),
            cleanup_error matches Some(e) ==> {
                let text = "task cleanup failed: "@ + e@;
                &&& (r matches Err(m) && m@ == text)
                &&& has_id(old(self)@.records, id@) ==> {
                    let i = index_of(old(self)@.records, id@);
                    let old_e = old(self)@.records[i];
                    exists|msg: String| msg@ == text && final(self)@.records == old(self)@.records.update(
                        i,
                        Sandbox { status: Status::CleanupFailed, error: Some(msg), ..old_e },
                    )
                }
            },
    {
        match cleanup_error {
            Some(e) => self.finish_remove_task(id, Some(e)),
            None => {
                if let Some(i) = self.find(id) {
                    let ghost s0 = self@;
                    self.sandboxes[i].status = Status::Stopped;
                    proof {
                        lemma_update_ok(s0, i as int, self.sandboxes@[i as int]);
                        assert(self@.records =~= s0.records.update(i as int, self.sandboxes@[i as int]));
                    }
                }
                Ok(())
            },
        }
    }
}

/// Stopping a task keeps it registered under its id, and every later tool
/// call on it is refused, whatever token comes with it.
pub proof fn law_stopped_task_refuses_exec(recs: Seq<Sandbox>, id: Seq<char>, token: Option<Seq<char>>)
    requires
        ids_distinct(recs),
        has_id(recs, id),
    ensures
        ({
            let i = index_of(recs, id);
            let stopped = recs.update(i, Sandbox { status: Status::Stopped, ..recs[i] });
            &&& has_id(stopped, id)
            &&& entry(stopped, id) == Sandbox { status: Status::Stopped, ..recs[i] }
            &&& exec_decision(stopped, id, token) is Err
        }),
{
    let i = index_of(recs, id);
    let stopped = recs.update(i, Sandbox { status: Status::Stopped, ..recs[i] });
    assert(stopped[i].id@ == id);
    let j = index_of(stopped, id);
    if j != i {
        assert(recs[j].id@ == id);
        if j < i {
            assert(recs[j].id@ != recs[i].id@);
        } else {
            assert(recs[i].id@ != recs[j].id@);
        }
    }
}


// ---------------------------------------------------------------------------
// Phase transitions

pub open spec fn name_finder(name: Seq<char>) -> spec_fn(PhaseView, int) -> Option<int> {
    |p: PhaseView, i: int| if p.name == name { Some(i) } else { None }
}

/// The position of the first phase with this name.
pub open spec fn phase_named(phases: Seq<PhaseView>, name: Seq<char>) -> Option<int> {
    first_fault(phases, phases.len() as int, name_finder(name))
}

/// Why a phase transition was refused before any resource was touched.
#[derive(Clone, Copy, PartialEq, Eq, Structural, Debug)]
pub enum PhaseRefusal {
    NotRunning,
    GenerationMismatch,
    NoPhasePolicy,
    NoActivePhase,
    ActivePhaseInvalid,
    TransitionNotAllowed,
}

/// The reason a refusal is reported and audited with.
pub open spec fn refusal_text(r: PhaseRefusal) -> Seq<char> {
    match r {
        PhaseRefusal::NotRunning => "sandbox is not running"@,
        PhaseRefusal::GenerationMismatch => "phase generation mismatch"@,
        PhaseRefusal::NoPhasePolicy => "sandbox has no phase policy"@,
        PhaseRefusal::NoActivePhase => "sandbox has no active phase"@,
        PhaseRefusal::ActivePhaseInvalid => "active phase is invalid"@,
        PhaseRefusal::TransitionNotAllowed => "phase transition is not allowed"@,
    }
}

impl PhaseRefusal {
    pub fn message(&self) -> (m: String)
        ensures
            m@ == refusal_text(*self),
    {
        match self {
            PhaseRefusal::NotRunning => "sandbox is not running".to_owned(),
            PhaseRefusal::GenerationMismatch => "phase generation mismatch".to_owned(),
            PhaseRefusal::NoPhasePolicy => "sandbox has no phase policy".to_owned(),
            PhaseRefusal::NoActivePhase => "sandbox has no active phase".to_owned(),
            PhaseRefusal::ActivePhaseInvalid => "active phase is invalid".to_owned(),
            PhaseRefusal::TransitionNotAllowed => "phase transition is not allowed".to_owned(),
        }
    }
}

/// Whether entry `r` may move to `phase` when the caller expects
/// generation `expected`: the position of the next phase, or why not.
/// The checks come in this order: the entry runs, the generation matches
/// (compare-and-swap), it has phases, it is in one, that phase exists, and
/// that phase lists the requested one as a successor.
pub open spec fn phase_decision(r: Sandbox, phase: Seq<char>, expected: u64) -> Result<int, PhaseRefusal> {
    if r.status != Status::Running {
        Err(PhaseRefusal::NotRunning)
    } else if expected != r.generation {
        Err(PhaseRefusal::GenerationMismatch)
    } else {
        match r.descriptor {
            None => Err(PhaseRefusal::NoPhasePolicy),
            Some(d) => match r.phase {
                None => Err(PhaseRefusal::NoActivePhase),
                Some(cur) => match phase_named(d@.phases, cur@) {
                    None => Err(PhaseRefusal::ActivePhaseInvalid),
                    Some(c) => if !d@.phases[c].next.contains(phase) {
                        Err(PhaseRefusal::TransitionNotAllowed)
                    } else {
                        Ok(phase_named(d@.phases, phase)->0)
                    },
                },
            },
        }
    }
}

/// The answer to a phase transition request.
#[derive(Debug)]
pub enum PhaseOutcome {
    /// No entry has the id (404).
    NotFound,
    /// Refused, with the reason (409).
    Denied(String),
    /// Moved to this phase; the new generation.
    Changed(String, u64),
}

proof fn lemma_phase_named(phases: Seq<PhaseView>, name: Seq<char>, n: int)
    requires
        0 <= n <= phases.len(),
    ensures
        first_fault(phases, n, name_finder(name)) matches Some(k) ==> 0 <= k < n && phases[k].name == name,
        first_fault(phases, n, name_finder(name)) is None ==> forall|k: int| 0 <= k < n ==> phases[k].name != name,
    decreases n,
{
    if n > 0 {
        lemma_phase_named(phases, name, n - 1);
    }
}

/// In a valid descriptor every successor named by a phase is a phase.
proof fn lemma_successor_exists(d: DescriptorView, c: int, name: Seq<char>)
    requires
        policy_fault(d) is None,
        0 <= c < d.phases.len(),
        d.phases[c].next.contains(name),
    ensures
        phase_named(d.phases, name) is Some,
{
    let phases = d.phases;
    assert(first_fault(phases, phases.len() as int, crate::policy::next_checker(d)) is None);
    crate::text::lemma_first_fault_each(phases, phases.len() as int, crate::policy::next_checker(d), c);
    assert(crate::policy::next_fault(d, phases[c], c) is None);
    let n = choose|n: int| 0 <= n < phases[c].next.len() && phases[c].next[n] == name;
    assert(crate::policy::is_phase_name(phases, phases[c].next[n]));
    let k = choose|k: int| 0 <= k < phases.len() && phases[k].name == name;
    lemma_phase_named(phases, name, phases.len() as int);
}

fn find_phase(phases: &Vec<crate::policy::PhasePolicy>, name: &str) -> (r: Option<usize>)
    ensures
        r matches Some(k) ==> phase_named(phases@.map_values(|p: crate::policy::PhasePolicy| p@), name@) == Some(k as int)
            && k < phases@.len(),
        r is None ==> phase_named(phases@.map_values(|p: crate::policy::PhasePolicy| p@), name@) is None,
{
    let ghost ps = phases@.map_values(|p: crate::policy::PhasePolicy| p@);
    let mut i: usize = 0;
    while i < phases.len()
        invariant
            ps == phases@.map_values(|p: crate::policy::PhasePolicy| p@),
            i <= phases@.len(),
            first_fault(ps, i as int, name_finder(name@)) is None,
        decreases phases@.len() - i,
    {
        assert(ps[i as int] == phases@[i as int]@);
        if str_eq(phases[i].name.as_str(), name) {
            proof {
                lemma_first_fault_stable(ps, i + 1, ps.len() as int, name_finder(name@));
            }
            return Some(i);
        }
        i = i + 1;
    }
    None
}

/// Whether a list of strings holds `s`.
pub fn contains_str(v: &Vec<String>, s: &str) -> (b: bool)
    ensures
        b == strings_view(v@).contains(s@),
{
    let ghost sv = strings_view(v@);
    let mut j: usize = 0;
    while j < v.len()
        invariant
            sv == strings_view(v@),
            j <= v@.len(),
            forall|m: int| 0 <= m < j ==> sv[m] != s@,
        decreases v@.len() - j,
    {
        if str_eq(v[j].as_str(), s) {
            assert(sv[j as int] == s@);
            return true;
        }
        j = j + 1;
    }
    false
}

fn decide_phase(r: &Sandbox, phase: &str, expected: u64) -> (d: Result<usize, PhaseRefusal>)
    requires
        descriptor_ok(*r),
    ensures
        d matches Err(x) ==> phase_decision(*r, phase@, expected) == Err::<int, PhaseRefusal>(x),
        d matches Ok(k) ==> phase_decision(*r, phase@, expected) == Ok::<int, PhaseRefusal>(k as int)
            && (r.descriptor matches Some(dd) && k < dd@.phases.len() && dd@.phases[k as int].name == phase@),
{
    if r.status != Status::Running {
        return Err(PhaseRefusal::NotRunning);
    }
    if expected != r.generation {
        return Err(PhaseRefusal::GenerationMismatch);
    }
    let d = match &r.descriptor {
        None => {
            return Err(PhaseRefusal::NoPhasePolicy);
        },
        Some(d) => d,
    };
    let current = match &r.phase {
        None => {
            return Err(PhaseRefusal::NoActivePhase);
        },
        Some(c) => c,
    };
    let c = match find_phase(&d.phases, current.as_str()) {
        None => {
            return Err(PhaseRefusal::ActivePhaseInvalid);
        },
        Some(c) => c,
    };
    let next = &d.phases[c].next;
    let ghost nv = strings_view(next@);
    assert(d@.phases[c as int].next == nv);
    if !contains_str(next, phase) {
        return Err(PhaseRefusal::TransitionNotAllowed);
    }
    proof {
        lemma_successor_exists(d@, c as int, phase@);
    }
    match find_phase(&d.phases, phase) {
        Some(k) => {
            proof {
                lemma_phase_named(d@.phases, phase@, d@.phases.len() as int);
            }
            Ok(k)
        },
        None => {
            proof {
                assert(false);
            }
            Err(PhaseRefusal::TransitionNotAllowed)
        },
    }
}

impl AppState {
    /// The resource limits that a phase transition would apply, where the
    /// transition would be allowed: the server applies them to the cgroup
    /// before it commits the transition.
    pub fn phase_target(&self, id: &str, phase: &str, expected_generation: u64) -> (r: Option<ResourcePolicy>)
        requires
            self.wf(),
        ensures
            r is Some <==> has_id(self@.records, id@)
                && phase_decision(entry(self@.records, id@), phase@, expected_generation) is Ok,
            r matches Some(res) ==> (entry(self@.records, id@).descriptor matches Some(d)
                && res == d@.phases[phase_decision(entry(self@.records, id@), phase@, expected_generation)->Ok_0].resources),
    {
        let i = match self.find(id) {
            None => {
                return None;
            },
            Some(i) => i,
        };
        let r = &self.sandboxes[i];
        match decide_phase(r, phase, expected_generation) {
            Err(_) => None,
            Ok(k) => match &r.descriptor {
                Some(d) => {
                    assert(d@.phases[k as int] == d.phases@[k as int]@);
                    Some(d.phases[k].resources)
                },
                None => None,
            },
        }
    }

    /// Moves an entry to another phase, compare-and-swap on its generation.
    /// `update_error` is the error of applying the next phase's resource
    /// limits, if that failed.  A refusal is audited as a denied
    /// `phase.transition`; a transition sets the phase, replaces the
    /// entry's live network rules with the next phase's, bumps the
    /// generation and is audited as allowed, stamped with the new phase.
    pub fn change_phase(&mut self, id: &str, phase: &str, expected_generation: u64, update_error: Option<String>) -> (r: PhaseOutcome)
        requires
            old(self).wf(),
            has_id(old(self)@.records, id@) && update_error is None
                && phase_decision(entry(old(self)@.records, id@), phase@, expected_generation) is Ok
                ==> entry(old(self)@.records, id@).generation < u64::MAX,
        ensures
            final(self).wf(),
            final(self)@.next_id == old(self)@.next_id,
            !has_id(old(self)@.records, id@) ==> r is NotFound && final(self)@ == old(self)@,
            has_id(old(self)@.records, id@) ==> {
                let i = index_of(old(self)@.records, id@);
                let e = old(self)@.records[i];
                let after = final(self)@.records[i];
                let decision = phase_decision(e, phase@, expected_generation);
                &&& final(self)@.records == old(self)@.records.update(i, after)
                &&& decision matches Err(x) ==> {
                    &&& r matches PhaseOutcome::Denied(m) && m@ == refusal_text(x)
                    &&& same_but_audit(e, after)
                    &&& logged(e.audit@, after.audit@, "control"@, "deny"@, "phase.transition"@, phase@, None, refusal_text(x))
                }
                &&& (decision is Ok && update_error is Some) ==> {
                    let text = "resource update failed: "@ + update_error->0@;
                    &&& r matches PhaseOutcome::Denied(m) && m@ == text
                    &&& same_but_audit(e, after)
                    &&& logged(e.audit@, after.audit@, "control"@, "deny"@, "phase.transition"@, phase@, None, text)
                }
                &&& (decision is Ok && update_error is None) ==> {
                    let next = e.descriptor->0@.phases[decision->Ok_0];
                    &&& r matches PhaseOutcome::Changed(p, g) && p@ == phase@ && g == e.generation + 1
                    &&& next.name == phase@
                    &&& after == Sandbox {
                        phase: after.phase,
                        generation: after.generation,
                        network_policy: after.network_policy,
                        audit: after.audit,
                        ..e
                    }
                    &&& opt_view(after.phase) == Some(phase@)
                    &&& after.generation == e.generation + 1
                    &&& rules_opt_view(after.network_policy) == (if e.network_policy is Some { Some(next.network) } else { None })
                    &&& logged(
                        SinkView { phase: phase@, ..e.audit@ },
                        after.audit@,
                        "control"@,
                        "allow"@,
                        "phase.transition"@,
                        phase@,
                        Some("phase:"@ + phase@),
                        "phase and resource policy updated"@,
                    )
                }
            },
    {
        let i = match self.find(id) {
            None => {
                return PhaseOutcome::NotFound;
            },
            Some(i) => i,
        };
        let ghost s0 = self@;
        let decision = decide_phase(&self.sandboxes[i], phase, expected_generation);
        match decision {
            Err(x) => {
                let reason = x.message();
                log(&mut self.sandboxes[i].audit, "control", "deny", "phase.transition", phase.to_owned(), None, reason.clone());
                proof {
                    lemma_update_ok(s0, i as int, self.sandboxes@[i as int]);
                    assert(self@.records =~= s0.records.update(i as int, self.sandboxes@[i as int]));
                }
                PhaseOutcome::Denied(reason)
            },
            Ok(k) => {
                if let Some(u) = update_error {
                    let reason = concat("resource update failed: ", u.as_str());
                    log(&mut self.sandboxes[i].audit, "control", "deny", "phase.transition", phase.to_owned(), None, reason.clone());
                    proof {
                        lemma_update_ok(s0, i as int, self.sandboxes@[i as int]);
                        assert(self@.records =~= s0.records.update(i as int, self.sandboxes@[i as int]));
                    }
                    return PhaseOutcome::Denied(reason);
                }
                let network = match &self.sandboxes[i].descriptor {
                    Some(d) => {
                        assert(d@.phases[k as int] == d.phases@[k as int]@);
                        copy_rules(&d.phases[k].network)
                    },
                    None => {
                        proof {
                            assert(false);
                        }
                        Vec::new()
                    },
                };
                if self.sandboxes[i].network_policy.is_some() {
                    self.sandboxes[i].network_policy = Some(network);
                }
                let name = phase.to_owned();
                self.sandboxes[i].phase = Some(name.clone());
                let generation = self.sandboxes[i].generation + 1;
                self.sandboxes[i].generation = generation;
                self.sandboxes[i].audit.set_phase(phase);
                log(
                    &mut self.sandboxes[i].audit,
                    "control",
                    "allow",
                    "phase.transition",
                    name.clone(),
                    Some(concat("phase:", phase)),
                    "phase and resource policy updated".to_owned(),
                );
                proof {
                    lemma_update_ok(s0, i as int, self.sandboxes@[i as int]);
                    assert(self@.records =~= s0.records.update(i as int, self.sandboxes@[i as int]));
                }
                PhaseOutcome::Changed(name, generation)
            },
        }
    }
}


// ---------------------------------------------------------------------------
// Metrics

/// How many entries have this status.
pub open spec fn count_status(recs: Seq<Sandbox>, st: Status) -> nat
    decreases recs.len(),
{
    if recs.len() == 0 {
        0
    } else {
        count_status(recs.drop_last(), st) + (if recs.last().status == st { 1nat } else { 0nat })
    }
}

/// The metrics page: entries in total, running, completed, failed at run
/// time, and failed in setup, in the Prometheus text format.
pub open spec fn metrics_text(total: nat, running: nat, completed: nat, failed: nat, setup_failed: nat) -> Seq<char> {
    "# HELP tinybox_sandboxes_total Total sandboxes created\n# TYPE tinybox_sandboxes_total counter\ntinybox_sandboxes_total "@
        + crate::text::decimal(total)
        + "\n# HELP tinybox_sandboxes_running Currently running sandboxes\n# TYPE tinybox_sandboxes_running gauge\ntinybox_sandboxes_running "@
        + crate::text::decimal(running)
        + "\n# HELP tinybox_sandboxes_completed Completed payloads\n# TYPE tinybox_sandboxes_completed gauge\ntinybox_sandboxes_completed "@
        + crate::text::decimal(completed)
        + "\n# HELP tinybox_sandboxes_failed Runtime failures\n# TYPE tinybox_sandboxes_failed gauge\ntinybox_sandboxes_failed "@
        + crate::text::decimal(failed)
        + "\n# HELP tinybox_sandboxes_setup_failed Sandbox setup failures\n# TYPE tinybox_sandboxes_setup_failed gauge\ntinybox_sandboxes_setup_failed "@
        + crate::text::decimal(setup_failed)
        + "\n"@
}

proof fn lemma_count_bound(recs: Seq<Sandbox>, st: Status)
    ensures
        count_status(recs, st) <= recs.len(),
    decreases recs.len(),
{
    if recs.len() > 0 {
        lemma_count_bound(recs.drop_last(), st);
    }
}

impl AppState {
    /// How many entries have this status.
    pub fn count(&self, st: Status) -> (n: usize)
        ensures
            n == count_status(self@.records, st),
    {
        let mut n: usize = 0;
        let mut i: usize = 0;
        while i < self.sandboxes.len()
            invariant
                i <= self.sandboxes@.len(),
                n == count_status(self.sandboxes@.subrange(0, i as int), st),
            decreases self.sandboxes@.len() - i,
        {
            proof {
                let sub = self.sandboxes@.subrange(0, i + 1);
                assert(sub.drop_last() == self.sandboxes@.subrange(0, i as int));
                lemma_count_bound(self.sandboxes@.subrange(0, i as int), st);
            }
            if self.sandboxes[i].status == st {
                n = n + 1;
            }
            i = i + 1;
        }
        assert(self.sandboxes@.subrange(0, self.sandboxes@.len() as int) == self.sandboxes@);
        n
    }

    /// The metrics page.
    pub fn metrics(&self) -> (body: String)
        ensures
            body@ == metrics_text(
                self@.records.len(),
                count_status(self@.records, Status::Running),
                count_status(self@.records, Status::Completed),
                count_status(self@.records, Status::Failed),
                count_status(self@.records, Status::SetupFailed),
            ),
    {
        let total = crate::text::u64_to_string(self.sandboxes.len() as u64);
        let running = crate::text::u64_to_string(self.count(Status::Running) as u64);
        let completed = crate::text::u64_to_string(self.count(Status::Completed) as u64);
        let failed = crate::text::u64_to_string(self.count(Status::Failed) as u64);
        let setup_failed = crate::text::u64_to_string(self.count(Status::SetupFailed) as u64);
        let mut body = "# HELP tinybox_sandboxes_total Total sandboxes created\n# TYPE tinybox_sandboxes_total counter\ntinybox_sandboxes_total ".to_owned();
        body.append(total.as_str());
        body.append("\n# HELP tinybox_sandboxes_running Currently running sandboxes\n# TYPE tinybox_sandboxes_running gauge\ntinybox_sandboxes_running ");
        body.append(running.as_str());
        body.append("\n# HELP tinybox_sandboxes_completed Completed payloads\n# TYPE tinybox_sandboxes_completed gauge\ntinybox_sandboxes_completed ");
        body.append(completed.as_str());
        body.append("\n# HELP tinybox_sandboxes_failed Runtime failures\n# TYPE tinybox_sandboxes_failed gauge\ntinybox_sandboxes_failed ");
        body.append(failed.as_str());
        body.append("\n# HELP tinybox_sandboxes_setup_failed Sandbox setup failures\n# TYPE tinybox_sandboxes_setup_failed gauge\ntinybox_sandboxes_setup_failed ");
        body.append(setup_failed.as_str());
        body.append("\n");
        body
    }
}

// ---------------------------------------------------------------------------
// Laws

proof fn lemma_inserted_found(recs: Seq<Sandbox>, r: Sandbox)
    requires
        ids_distinct(recs),
    ensures
        has_id(insert_record(recs, r), r.id@),
        entry(insert_record(recs, r), r.id@) == r,
        ids_distinct(insert_record(recs, r)),
{
    let after = insert_record(recs, r);
    if has_id(recs, r.id@) {
        let k = index_of(recs, r.id@);
        assert forall|a: int, b: int| 0 <= a < b < after.len() implies after[a].id@ != after[b].id@ by {
            if a == k {
                assert(recs[b].id@ != recs[k].id@);
            } else if b == k {
                assert(recs[a].id@ != recs[k].id@);
            }
        }
        assert(after[k] == r);
        lemma_index_of(after, k);
    } else {
        let k = recs.len() as int;
        assert forall|a: int, b: int| 0 <= a < b < after.len() implies after[a].id@ != after[b].id@ by {
            if b == k {
                assert(!(0 <= a < recs.len() && recs[a].id@ == r.id@));
            } else {
                assert(recs[a].id@ != recs[b].id@);
            }
        }
        assert(after[k] == r);
        lemma_index_of(after, k);
    }
}

/// A sandbox that the registry accepted is found under its id, as the
/// request made it: read right after the write, the registry gives back
/// the entry the request created.
pub proof fn law_created_sandbox_is_found(
    before: Seq<Sandbox>,
    after: Seq<Sandbox>,
    req: CreateRequest,
    id: Seq<char>,
    hash: Option<Seq<char>>,
)
    requires
        ids_distinct(before),
        created_in(before, after, req, id, hash),
    ensures
        has_id(after, id),
        created_entry(entry(after, id), req, id, hash),
{
    let e = choose|e: Sandbox| #[trigger] created_entry(e, req, id, hash) && after == insert_record(before, e);
    lemma_inserted_found(before, e);
}

/// An entry that was removed is gone: no entry has its id any more
/// (removing a sandbox, or a task whose cleanup succeeded).
pub proof fn law_removed_entry_is_gone(recs: Seq<Sandbox>, id: Seq<char>)
    requires
        ids_distinct(recs),
        has_id(recs, id),
    ensures
        !has_id(recs.remove(index_of(recs, id)), id),
{
    let k = index_of(recs, id);
    let after = recs.remove(k);
    assert forall|a: int| 0 <= a < after.len() implies after[a].id@ != id by {
        let a0 = if a < k { a } else { a + 1 };
        assert(after[a] == recs[a0]);
        assert(recs[k].id@ == id);
    }
}

/// A task that the registry accepted is found under its id, as the request
/// made it, with the token it was given.
pub proof fn law_created_task_is_found(
    before: Seq<Sandbox>,
    after: Seq<Sandbox>,
    req: TaskCreateRequest,
    id: Seq<char>,
    hash: Seq<char>,
    token: Seq<char>,
)
    requires
        ids_distinct(before),
        task_created_in(before, after, req, id, hash, token),
    ensures
        has_id(after, id),
        task_entry(entry(after, id), req, id, hash, token),
{
    let e = choose|e: Sandbox| #[trigger] task_entry(e, req, id, hash, token) && after == insert_record(before, e);
    lemma_inserted_found(before, e);
}

/// A phase transition cannot be replayed: once a request was allowed, the
/// same request against the entry it produced (same state, generation one
/// higher) is refused for a generation mismatch.
pub proof fn law_phase_request_not_replayable(e: Sandbox, after: Sandbox, phase: Seq<char>, expected: u64)
    requires
        phase_decision(e, phase, expected) is Ok,
        after.status == e.status,
        after.generation == e.generation + 1,
    ensures
        phase_decision(after, phase, expected) == Err::<int, PhaseRefusal>(PhaseRefusal::GenerationMismatch),
{
}

/// A phase transition follows the policy's phase graph: it is allowed only
/// from a running entry, at the expected generation, along an edge of its
/// current phase, and it lands on the phase of the requested name.
pub proof fn law_phase_transition_follows_graph(e: Sandbox, phase: Seq<char>, expected: u64)
    requires
        descriptor_ok(e),
        phase_decision(e, phase, expected) is Ok,
    ensures
        e.status == Status::Running,
        e.generation == expected,
        e.descriptor matches Some(d) && e.phase matches Some(cur) && ({
            let ps = d@.phases;
            let k = phase_decision(e, phase, expected)->Ok_0;
            &&& phase_named(ps, cur@) matches Some(c) && ps[c].next.contains(phase)
            &&& 0 <= k < ps.len() && ps[k].name == phase
        }),
{
    let d = e.descriptor->0;
    let cur = e.phase->0;
    let ps = d@.phases;
    let c = phase_named(ps, cur@)->0;
    lemma_phase_named(ps, cur@, ps.len() as int);
    lemma_successor_exists(d@, c, phase);
    lemma_phase_named(ps, phase, ps.len() as int);
}

/// A sandbox request with dangerous mode on is never accepted.
pub proof fn law_dangerous_never_accepted(req: CreateRequest)
    requires
        req.dangerous == Some(true),
    ensures
        create_fault(req) is Some,
{
}

/// An accepted sandbox starts within its policy's ceiling: the resource
/// limits it is launched with never exceed those of the policy.
pub proof fn law_launch_within_ceiling(req: CreateRequest)
    requires
        create_fault(req) is None,
        req.policy is Some,
    ensures
        !crate::policy::exceeds(initial_resources(req.policy->0@), req.policy->0@.resources),
{
    let d = req.policy->0@;
    if d.phases.len() > 0 {
        assert(first_fault(d.phases, d.phases.len() as int, crate::policy::phase_checker(d)) is None);
        crate::text::lemma_first_fault_each(d.phases, d.phases.len() as int, crate::policy::phase_checker(d), 0);
        assert(crate::policy::phase_fault(d, d.phases[0], 0) is None);
    }
}

/// A tool call runs only with the exact token of a running task whose
/// keeper is known.
pub proof fn law_exec_needs_exact_token(recs: Seq<Sandbox>, id: Seq<char>, token: Option<Seq<char>>)
    requires
        exec_decision(recs, id, token) is Ok,
    ensures
        has_id(recs, id),
        entry(recs, id).kind == Kind::Task,
        entry(recs, id).task_token matches Some(t) && token == Some(t@),
        entry(recs, id).status == Status::Running,
        entry(recs, id).keeper_pid is Some,
{
}

// ---------------------------------------------------------------------------
// Error texts

impl CreateError {
    /// The error text, given the request's policy.
    pub fn message(&self, policy: &Option<CapabilityDescriptor>) -> (m: String)
        ensures
            m@ == (match *self {
                CreateError::EmptyCommand => "command must not be empty"@,
                CreateError::DangerousRefused => "dangerous mode cannot be enabled over the API"@,
                CreateError::InvalidPolicy(e) => "invalid policy: "@ + match policy {
                    Some(d) => crate::policy::policy_error_text(d@, e),
                    None => Seq::empty(),
                },
                CreateError::ExceedsCeiling => "requested resources exceed policy ceiling"@,
            }),
    {
        match self {
            CreateError::EmptyCommand => "command must not be empty".to_owned(),
            CreateError::DangerousRefused => "dangerous mode cannot be enabled over the API".to_owned(),
            CreateError::InvalidPolicy(e) => match policy {
                Some(d) => concat("invalid policy: ", d.fault_message(*e).as_str()),
                None => {
                    let m = "invalid policy: ".to_owned();
                    assert(m@ =~= "invalid policy: "@ + Seq::<char>::empty());
                    m
                },
            },
            CreateError::ExceedsCeiling => "requested resources exceed policy ceiling".to_owned(),
        }
    }
}

impl TaskCreateError {
    /// The error text, given the request's policy.
    pub fn message(&self, policy: &CapabilityDescriptor) -> (m: String)
        ensures
            m@ == (match self@ {
                TaskFault::InvalidPolicy(e) => "invalid policy: "@ + crate::policy::policy_error_text(policy@, e),
                TaskFault::PhasesNotAllowed => "task API accepts static policies only"@,
                TaskFault::FilesystemOutsideWorkspace => "task filesystem rules must stay under /workspace or /tmp"@,
                TaskFault::Env(EnvFault::MissingSeparator) => "task env entries must use NAME=VALUE"@,
                TaskFault::Env(EnvFault::NotAllowlisted(n)) => "task environment variable is not allowlisted: "@ + n,
                TaskFault::TokenUnavailable => "failed to create task token"@,
            }),
    {
        match self {
            TaskCreateError::InvalidPolicy(e) => concat("invalid policy: ", policy.fault_message(*e).as_str()),
            TaskCreateError::PhasesNotAllowed => "task API accepts static policies only".to_owned(),
            TaskCreateError::FilesystemOutsideWorkspace => "task filesystem rules must stay under /workspace or /tmp".to_owned(),
            TaskCreateError::Env(e) => e.message(),
            TaskCreateError::TokenUnavailable => "failed to create task token".to_owned(),
        }
    }
}

} // verus!
