//! Capability descriptors: the schema, its validation and its hash.
//!
//! A descriptor is the ceiling of what a sandbox may do: filesystem rules,
//! allowed `HOST:PORT` destinations, resource limits, and optional phases
//! that each stay inside that ceiling.
use vstd::prelude::*;
use sha2::Digest;
use crate::text::{digit_char, all_digits, digits_value, is_digit, unsigned_digits, parse_unsigned_chars, chars_of, str_eq, ends_with, ends_with_chars, contains_char, contains_char_in, push_char, concat, u64_to_string, decimal, first_fault, lemma_first_fault_stable};
use crate::paths::{split_on, split_chars, seqs_of, PathPart, Component, path_components, parts_of, components, is_absolute};

verus! {

/// The policy schema version that this library accepts.
pub const POLICY_VERSION: u32 = 1;

/// What a filesystem rule grants below its path.
#[derive(Clone, Copy, PartialEq, Eq, Structural, Debug)]
pub enum FsAccess {
    Read,
    ReadExecute,
    ReadWrite,
    ReadWriteExecute,
}

/// Access granted below an absolute, normalized sandbox path.
#[derive(Debug)]
pub struct FsRule {
    pub path: String,
    pub access: FsAccess,
}

/// One allowed TCP destination.
#[derive(Debug)]
pub struct NetworkRule {
    pub host: String,
    pub port: u16,
}

/// Resource limits.  `cpus_bits` is the IEEE-754 binary64 bit pattern of
/// the CPU count (`f64::to_bits`); for finite positive values the order of
/// the bit patterns is the order of the numbers.
#[derive(Clone, Copy, PartialEq, Eq, Structural, Debug)]
pub struct ResourcePolicy {
    pub memory_bytes: u64,
    pub cpus_bits: u64,
    pub pids: u64,
}

/// A named phase: a subset of the ceiling, and the phases that may follow.
#[derive(Debug)]
pub struct PhasePolicy {
    pub name: String,
    pub network: Vec<NetworkRule>,
    pub resources: ResourcePolicy,
    pub next: Vec<String>,
}

/// A versioned capability descriptor.
#[derive(Debug)]
pub struct CapabilityDescriptor {
    pub version: u32,
    pub filesystem: Vec<FsRule>,
    pub network: Vec<NetworkRule>,
    pub resources: ResourcePolicy,
    pub phases: Vec<PhasePolicy>,
}

/// A validated descriptor with its content hash (`sha256:<hex>`).
#[derive(Debug)]
pub struct LoadedPolicy {
    pub descriptor: CapabilityDescriptor,
    pub hash: String,
}

/// Why a descriptor was refused.  Indices point into the descriptor's
/// lists: filesystem rules, network rules, phases, and a phase's network
/// rules.
#[derive(Clone, Copy, PartialEq, Eq, Structural, Debug)]
pub enum PolicyError {
    UnsupportedVersion,
    MemoryNotPositive,
    CpusNotFinitePositive,
    PidsNotPositive,
    PathNotAbsolute(usize),
    PathNotNormalized(usize),
    PathHasNul(usize),
    InvalidHost(usize),
    ZeroPort(usize),
    PhaseNameInvalid(usize),
    PhaseResourcesInvalid(usize),
    PhaseExceedsResources(usize),
    PhaseInvalidHost(usize, usize),
    PhaseExceedsNetwork(usize),
    UnknownNextPhase(usize),
}

// ---------------------------------------------------------------------------
// Model

pub struct FsRuleView {
    pub path: Seq<char>,
    pub access: FsAccess,
}

pub struct NetRuleView {
    pub host: Seq<char>,
    pub port: u16,
}

pub struct PhaseView {
    pub name: Seq<char>,
    pub network: Seq<NetRuleView>,
    pub resources: ResourcePolicy,
    pub next: Seq<Seq<char>>,
}

pub struct DescriptorView {
    pub version: u32,
    pub filesystem: Seq<FsRuleView>,
    pub network: Seq<NetRuleView>,
    pub resources: ResourcePolicy,
    pub phases: Seq<PhaseView>,
}

impl View for FsRule {
    type V = FsRuleView;

    open spec fn view(&self) -> FsRuleView {
        FsRuleView { path: self.path@, access: self.access }
    }
}

impl View for NetworkRule {
    type V = NetRuleView;

    open spec fn view(&self) -> NetRuleView {
        NetRuleView { host: self.host@, port: self.port }
    }
}

pub open spec fn rules_view(v: Seq<NetworkRule>) -> Seq<NetRuleView> {
    v.map_values(|r: NetworkRule| r@)
}

pub open spec fn strings_view(v: Seq<String>) -> Seq<Seq<char>> {
    v.map_values(|s: String| s@)
}

impl View for PhasePolicy {
    type V = PhaseView;

    open spec fn view(&self) -> PhaseView {
        PhaseView {
            name: self.name@,
            network: rules_view(self.network@),
            resources: self.resources,
            next: strings_view(self.next@),
        }
    }
}

impl View for CapabilityDescriptor {
    type V = DescriptorView;

    open spec fn view(&self) -> DescriptorView {
        DescriptorView {
            version: self.version,
            filesystem: self.filesystem@.map_values(|r: FsRule| r@),
            network: rules_view(self.network@),
            resources: self.resources,
            phases: self.phases@.map_values(|p: PhasePolicy| p@),
        }
    }
}

// ---------------------------------------------------------------------------
// Rules

/// A CPU count is finite and positive: sign clear, exponent not all ones,
/// and not zero.
pub open spec fn cpus_valid(bits: u64) -> bool {
    0 < bits && bits < 0x7FF0_0000_0000_0000
}

pub open spec fn resources_valid(r: ResourcePolicy) -> bool {
    r.memory_bytes > 0 && cpus_valid(r.cpus_bits) && r.pids > 0
}

/// One resource limit of `inner` is larger than that of `outer`.
pub open spec fn exceeds(inner: ResourcePolicy, outer: ResourcePolicy) -> bool {
    inner.memory_bytes > outer.memory_bytes || inner.cpus_bits > outer.cpus_bits || inner.pids
        > outer.pids
}

/// One octet of dot-decimal notation: one to three decimal digits, no
/// leading zero unless the octet is `0`, and a value of at most 255.
pub open spec fn ipv4_octet(s: Seq<char>) -> bool {
    &&& 0 < s.len() <= 3
    &&& all_digits(s)
    &&& (s.len() == 1 || s[0] != '0')
    &&& digits_value(s) <= 255
}

/// Text that `std` parses as an IPv4 address: four octets joined by dots.
/// (Every IPv6 literal holds a `:`, which a host may not hold anyway.)
pub open spec fn ipv4_literal(s: Seq<char>) -> bool {
    let parts = split_on(s, '.');
    parts.len() == 4 && forall|k: int| 0 <= k < 4 ==> ipv4_octet(#[trigger] parts[k])
}

pub open spec fn has_ascii_upper(s: Seq<char>) -> bool {
    exists|i: int| 0 <= i < s.len() && 'A' <= #[trigger] s[i] && s[i] <= 'Z'
}

/// A host is a normalized lowercase DNS name: not empty, no ASCII capital,
/// no trailing dot, none of `/`, `:`, `@`, and not an IP literal.
pub open spec fn host_valid(h: Seq<char>) -> bool {
    &&& h.len() > 0
    &&& !has_ascii_upper(h)
    &&& !ends_with(h, seq!['.'])
    &&& !contains_char(h, '/')
    &&& !contains_char(h, ':')
    &&& !contains_char(h, '@')
    &&& !ipv4_literal(h)
}

/// A filesystem path has no `.` or `..` component.
pub open spec fn path_normalized(p: Seq<char>) -> bool {
    !path_components(p).contains(PathPart::Parent) && !path_components(p).contains(PathPart::Current)
}

pub open spec fn fs_fault(r: FsRuleView, i: int) -> Option<PolicyError> {
    if !is_absolute(r.path) {
        Some(PolicyError::PathNotAbsolute(i as usize))
    } else if !path_normalized(r.path) {
        Some(PolicyError::PathNotNormalized(i as usize))
    } else if contains_char(r.path, '\0') {
        Some(PolicyError::PathHasNul(i as usize))
    } else {
        None
    }
}

pub open spec fn net_fault(r: NetRuleView, i: int) -> Option<PolicyError> {
    if !host_valid(r.host) {
        Some(PolicyError::InvalidHost(i as usize))
    } else if r.port == 0 {
        Some(PolicyError::ZeroPort(i as usize))
    } else {
        None
    }
}

/// The fault of rule `j` of phase `i` against the ceiling's network rules.
pub open spec fn phase_rule_fault(ceiling: Seq<NetRuleView>, i: int, r: NetRuleView, j: int) -> Option<PolicyError> {
    if !host_valid(r.host) {
        Some(PolicyError::PhaseInvalidHost(i as usize, j as usize))
    } else if !ceiling.contains(r) {
        Some(PolicyError::PhaseExceedsNetwork(i as usize))
    } else {
        None
    }
}

/// Phase `i`'s name is empty or repeats an earlier phase's name.
pub open spec fn phase_name_bad(phases: Seq<PhaseView>, i: int) -> bool {
    phases[i].name.len() == 0 || exists|k: int| 0 <= k < i && phases[k].name == phases[i].name
}

pub open spec fn phase_fault(d: DescriptorView, p: PhaseView, i: int) -> Option<PolicyError> {
    if phase_name_bad(d.phases, i) {
        Some(PolicyError::PhaseNameInvalid(i as usize))
    } else if !resources_valid(p.resources) {
        Some(PolicyError::PhaseResourcesInvalid(i as usize))
    } else if exceeds(p.resources, d.resources) {
        Some(PolicyError::PhaseExceedsResources(i as usize))
    } else {
        first_fault(p.network, p.network.len() as int, phase_rule_checker(d.network, i))
    }
}

pub open spec fn fs_checker() -> spec_fn(FsRuleView, int) -> Option<PolicyError> {
    |r: FsRuleView, i: int| fs_fault(r, i)
}

pub open spec fn net_checker() -> spec_fn(NetRuleView, int) -> Option<PolicyError> {
    |r: NetRuleView, i: int| net_fault(r, i)
}

pub open spec fn phase_rule_checker(ceiling: Seq<NetRuleView>, i: int) -> spec_fn(NetRuleView, int) -> Option<PolicyError> {
    |r: NetRuleView, j: int| phase_rule_fault(ceiling, i, r, j)
}

pub open spec fn phase_checker(d: DescriptorView) -> spec_fn(PhaseView, int) -> Option<PolicyError> {
    |p: PhaseView, i: int| phase_fault(d, p, i)
}

pub open spec fn next_checker(d: DescriptorView) -> spec_fn(PhaseView, int) -> Option<PolicyError> {
    |p: PhaseView, i: int| next_fault(d, p, i)
}

/// `name` is the name of some phase.
pub open spec fn is_phase_name(phases: Seq<PhaseView>, name: Seq<char>) -> bool {
    exists|k: int| 0 <= k < phases.len() && phases[k].name == name
}

pub open spec fn next_fault(d: DescriptorView, p: PhaseView, i: int) -> Option<PolicyError> {
    if exists|n: int| 0 <= n < p.next.len() && !is_phase_name(d.phases, #[trigger] p.next[n]) {
        Some(PolicyError::UnknownNextPhase(i as usize))
    } else {
        None
    }
}

/// The first rule that the descriptor breaks, checked in this order: the
/// version, the ceiling's memory, CPUs and pids, each filesystem rule, each
/// network rule, each phase (name, resources, ceiling, network), and last
/// the `next` lists of the phases.
pub open spec fn policy_fault(d: DescriptorView) -> Option<PolicyError> {
    if d.version != POLICY_VERSION {
        Some(PolicyError::UnsupportedVersion)
    } else if d.resources.memory_bytes == 0 {
        Some(PolicyError::MemoryNotPositive)
    } else if !cpus_valid(d.resources.cpus_bits) {
        Some(PolicyError::CpusNotFinitePositive)
    } else if d.resources.pids == 0 {
        Some(PolicyError::PidsNotPositive)
    } else if first_fault(d.filesystem, d.filesystem.len() as int, fs_checker()) is Some {
        first_fault(d.filesystem, d.filesystem.len() as int, fs_checker())
    } else if first_fault(d.network, d.network.len() as int, net_checker()) is Some {
        first_fault(d.network, d.network.len() as int, net_checker())
    } else if first_fault(d.phases, d.phases.len() as int, phase_checker(d)) is Some {
        first_fault(d.phases, d.phases.len() as int, phase_checker(d))
    } else {
        first_fault(d.phases, d.phases.len() as int, next_checker(d))
    }
}


// ---------------------------------------------------------------------------
// Checks

fn is_octet(s: &Vec<char>) -> (b: bool)
    ensures
        b == ipv4_octet(s@),
{
    if s.len() == 0 || s.len() > 3 {
        return false;
    }
    if (s.len() > 1 && s[0] == '0') || s[0] == '+' {
        if s[0] == '+' {
            assert(!is_digit(s@[0]));
        }
        return false;
    }
    match parse_unsigned_chars(s.as_slice(), 255) {
        Some(_) => {
            proof {
                if s@[0] == '+' {
                    assert(s@.len() > 1);
                }
                assert(unsigned_digits(s@) == s@);
            }
            true
        },
        None => {
            proof {
                if s@[0] == '+' {
                    assert(!is_digit(s@[0]));
                } else {
                    assert(unsigned_digits(s@) == s@);
                }
            }
            false
        },
    }
}

/// Whether the text is an IPv4 address in dot-decimal notation.
pub fn is_ipv4_literal(s: &[char]) -> (b: bool)
    ensures
        b == ipv4_literal(s@),
{
    let parts = split_chars(s, '.');
    if parts.len() != 4 {
        return false;
    }
    let mut k: usize = 0;
    while k < 4
        invariant
            parts@.len() == 4,
            seqs_of(parts@) == split_on(s@, '.'),
            k <= 4,
            forall|m: int| 0 <= m < k ==> ipv4_octet(#[trigger] split_on(s@, '.')[m]),
        decreases 4 - k,
    {
        assert(split_on(s@, '.')[k as int] == parts@[k as int]@);
        if !is_octet(&parts[k]) {
            return false;
        }
        k = k + 1;
    }
    true
}

/// Whether a host name is a normalized lowercase DNS name.
pub fn host_is_valid(host: &str) -> (b: bool)
    ensures
        b == host_valid(host@),
{
    let h = chars_of(host);
    if h.len() == 0 {
        return false;
    }
    let mut i: usize = 0;
    while i < h.len()
        invariant
            h@ == host@,
            i <= h@.len(),
            forall|j: int| 0 <= j < i ==> !('A' <= #[trigger] h@[j] && h@[j] <= 'Z'),
        decreases h@.len() - i,
    {
        if 'A' <= h[i] && h[i] <= 'Z' {
            assert('A' <= h@[i as int] && h@[i as int] <= 'Z');
            return false;
        }
        i = i + 1;
    }
    let dot: [char; 1] = ['.'];
    assert(dot@ == seq!['.']);
    if ends_with_chars(h.as_slice(), &dot) {
        return false;
    }
    if contains_char_in(h.as_slice(), '/') || contains_char_in(h.as_slice(), ':')
        || contains_char_in(h.as_slice(), '@') {
        return false;
    }
    !is_ipv4_literal(h.as_slice())
}

fn has_part(v: &Vec<Component>, parent: bool) -> (b: bool)
    ensures
        b == (if parent {
            parts_of(v@).contains(PathPart::Parent)
        } else {
            parts_of(v@).contains(PathPart::Current)
        }),
{
    let mut i: usize = 0;
    while i < v.len()
        invariant
            i <= v@.len(),
            forall|j: int| 0 <= j < i ==> (#[trigger] parts_of(v@)[j]) != (if parent { PathPart::Parent } else { PathPart::Current }),
        decreases v@.len() - i,
    {
        let hit = match &v[i] {
            Component::ParentDir => parent,
            Component::CurDir => !parent,
            _ => false,
        };
        if hit {
            assert(parts_of(v@)[i as int] == (if parent { PathPart::Parent } else { PathPart::Current }));
            return true;
        }
        i = i + 1;
    }
    false
}

/// The fault of filesystem rule `i`, if any.
fn check_fs_rule(rule: &FsRule, i: usize) -> (r: Option<PolicyError>)
    ensures
        r == fs_fault(rule@, i as int),
{
    let p = chars_of(rule.path.as_str());
    if !(p.len() > 0 && p[0] == '/') {
        return Some(PolicyError::PathNotAbsolute(i));
    }
    let parts = components(p.as_slice());
    if has_part(&parts, true) || has_part(&parts, false) {
        return Some(PolicyError::PathNotNormalized(i));
    }
    if contains_char_in(p.as_slice(), '\0') {
        return Some(PolicyError::PathHasNul(i));
    }
    None
}

/// The fault of network rule `i`, if any.
fn check_net_rule(rule: &NetworkRule, i: usize) -> (r: Option<PolicyError>)
    ensures
        r == net_fault(rule@, i as int),
{
    if !host_is_valid(rule.host.as_str()) {
        Some(PolicyError::InvalidHost(i))
    } else if rule.port == 0 {
        Some(PolicyError::ZeroPort(i))
    } else {
        None
    }
}

/// Whether `rules` holds a rule equal to `rule`.
fn rules_contain(rules: &Vec<NetworkRule>, rule: &NetworkRule) -> (b: bool)
    ensures
        b == rules_view(rules@).contains(rule@),
{
    let mut i: usize = 0;
    while i < rules.len()
        invariant
            i <= rules@.len(),
            forall|j: int| 0 <= j < i ==> (#[trigger] rules_view(rules@)[j]) != rule@,
        decreases rules@.len() - i,
    {
        if rules[i].port == rule.port && str_eq(rules[i].host.as_str(), rule.host.as_str()) {
            assert(rules_view(rules@)[i as int] == rule@);
            return true;
        }
        i = i + 1;
    }
    false
}

fn check_phase(d: &CapabilityDescriptor, i: usize) -> (r: Option<PolicyError>)
    requires
        i < d.phases@.len(),
    ensures
        r == phase_fault(d@, d@.phases[i as int], i as int),
{
    let phase = &d.phases[i];
    let ghost dv = d@;
    assert(dv.phases[i as int] == phase@);
    if phase.name.as_str().is_empty() {
        return Some(PolicyError::PhaseNameInvalid(i));
    }
    let mut k: usize = 0;
    while k < i
        invariant
            i < d.phases@.len(),
            dv == d@,
            k <= i,
            forall|m: int| 0 <= m < k ==> dv.phases[m].name != dv.phases[i as int].name,
        decreases i - k,
    {
        if str_eq(d.phases[k].name.as_str(), d.phases[i].name.as_str()) {
            assert(dv.phases[k as int].name == dv.phases[i as int].name);
            return Some(PolicyError::PhaseNameInvalid(i));
        }
        k = k + 1;
    }
    assert(!phase_name_bad(dv.phases, i as int));
    let res = phase.resources;
    if !(res.memory_bytes > 0 && 0 < res.cpus_bits && res.cpus_bits < 0x7FF0_0000_0000_0000 && res.pids > 0) {
        return Some(PolicyError::PhaseResourcesInvalid(i));
    }
    let top = d.resources;
    if res.memory_bytes > top.memory_bytes || res.cpus_bits > top.cpus_bits || res.pids > top.pids {
        return Some(PolicyError::PhaseExceedsResources(i));
    }
    let ghost check = phase_rule_checker(dv.network, i as int);
    let mut j: usize = 0;
    while j < phase.network.len()
        invariant
            dv == d@,
            phase@ == dv.phases[i as int],
            j <= phase.network@.len(),
            check == (phase_rule_checker(dv.network, i as int)),
            i < dv.phases.len(),
            !phase_name_bad(dv.phases, i as int),
            resources_valid(dv.phases[i as int].resources),
            !exceeds(dv.phases[i as int].resources, dv.resources),
            first_fault(phase@.network, j as int, check) is None,
        decreases phase.network@.len() - j,
    {
        let rule = &phase.network[j];
        assert(phase@.network[j as int] == rule@);
        let fault = if !host_is_valid(rule.host.as_str()) {
            Some(PolicyError::PhaseInvalidHost(i, j))
        } else if !rules_contain(&d.network, rule) {
            Some(PolicyError::PhaseExceedsNetwork(i))
        } else {
            None
        };
        assert(fault == check(phase@.network[j as int], j as int));
        if fault.is_some() {
            proof {
                lemma_first_fault_stable(phase@.network, j + 1, phase@.network.len() as int, check);
            }
            return fault;
        }
        j = j + 1;
    }
    None
}

fn check_next(d: &CapabilityDescriptor, i: usize) -> (r: Option<PolicyError>)
    requires
        i < d.phases@.len(),
    ensures
        r == next_fault(d@, d@.phases[i as int], i as int),
{
    let ghost dv = d@;
    let phase = &d.phases[i];
    assert(dv.phases[i as int] == phase@);
    let mut n: usize = 0;
    while n < phase.next.len()
        invariant
            dv == d@,
            phase@ == dv.phases[i as int],
            n <= phase.next@.len(),
            forall|m: int| 0 <= m < n ==> is_phase_name(dv.phases, #[trigger] phase@.next[m]),
        decreases phase.next@.len() - n,
    {
        let wanted = &phase.next[n];
        assert(phase@.next[n as int] == wanted@);
        let mut k: usize = 0;
        let mut found = false;
        while k < d.phases.len()
            invariant
                dv == d@,
                k <= d.phases@.len(),
                found ==> is_phase_name(dv.phases, wanted@),
                !found ==> forall|m: int| 0 <= m < k ==> dv.phases[m].name != wanted@,
            decreases d.phases@.len() - k,
        {
            if !found && str_eq(d.phases[k].name.as_str(), wanted.as_str()) {
                assert(dv.phases[k as int].name == wanted@);
                found = true;
            }
            k = k + 1;
        }
        if !found {
            assert(!is_phase_name(dv.phases, phase@.next[n as int]));
            return Some(PolicyError::UnknownNextPhase(i));
        }
        n = n + 1;
    }
    None
}

impl CapabilityDescriptor {
    /// Checks every rule of the descriptor and reports the first one broken.
    pub fn validate(&self) -> (r: Result<(), PolicyError>)
        ensures
            r is Ok <==> policy_fault(self@) is None,
            r matches Err(e) ==> policy_fault(self@) == Some(e),
    {
        let ghost d = self@;
        if self.version != POLICY_VERSION {
            return Err(PolicyError::UnsupportedVersion);
        }
        if self.resources.memory_bytes == 0 {
            return Err(PolicyError::MemoryNotPositive);
        }
        if !(0 < self.resources.cpus_bits && self.resources.cpus_bits < 0x7FF0_0000_0000_0000) {
            return Err(PolicyError::CpusNotFinitePositive);
        }
        if self.resources.pids == 0 {
            return Err(PolicyError::PidsNotPositive);
        }
        let ghost fs_check = fs_checker();
        let mut i: usize = 0;
        while i < self.filesystem.len()
            invariant
                d == self@,
                i <= self.filesystem@.len(),
                fs_check == (fs_checker()),
                d.version == POLICY_VERSION,
                d.resources.memory_bytes != 0,
                cpus_valid(d.resources.cpus_bits),
                d.resources.pids != 0,
                first_fault(d.filesystem, i as int, fs_check) is None,
            decreases self.filesystem@.len() - i,
        {
            assert(d.filesystem[i as int] == self.filesystem@[i as int]@);
            if let Some(e) = check_fs_rule(&self.filesystem[i], i) {
                proof {
                    lemma_first_fault_stable(d.filesystem, i + 1, d.filesystem.len() as int, fs_check);
                }
                return Err(e);
            }
            i = i + 1;
        }
        let ghost net_check = net_checker();
        let mut i: usize = 0;
        while i < self.network.len()
            invariant
                d == self@,
                i <= self.network@.len(),
                net_check == (net_checker()),
                d.version == POLICY_VERSION,
                d.resources.memory_bytes != 0,
                cpus_valid(d.resources.cpus_bits),
                d.resources.pids != 0,
                first_fault(d.filesystem, d.filesystem.len() as int, fs_checker()) is None,
                first_fault(d.network, i as int, net_check) is None,
            decreases self.network@.len() - i,
        {
            assert(d.network[i as int] == self.network@[i as int]@);
            if let Some(e) = check_net_rule(&self.network[i], i) {
                proof {
                    lemma_first_fault_stable(d.network, i + 1, d.network.len() as int, net_check);
                }
                return Err(e);
            }
            i = i + 1;
        }
        let ghost phase_check = phase_checker(d);
        let mut i: usize = 0;
        while i < self.phases.len()
            invariant
                d == self@,
                i <= self.phases@.len(),
                phase_check == (phase_checker(d)),
                d.version == POLICY_VERSION,
                d.resources.memory_bytes != 0,
                cpus_valid(d.resources.cpus_bits),
                d.resources.pids != 0,
                first_fault(d.filesystem, d.filesystem.len() as int, fs_checker()) is None,
                first_fault(d.network, d.network.len() as int, net_checker()) is None,
                first_fault(d.phases, i as int, phase_check) is None,
            decreases self.phases@.len() - i,
        {
            if let Some(e) = check_phase(self, i) {
                proof {
                    lemma_first_fault_stable(d.phases, i + 1, d.phases.len() as int, phase_check);
                }
                return Err(e);
            }
            i = i + 1;
        }
        let ghost next_check = next_checker(d);
        let mut i: usize = 0;
        while i < self.phases.len()
            invariant
                d == self@,
                i <= self.phases@.len(),
                next_check == (next_checker(d)),
                d.version == POLICY_VERSION,
                d.resources.memory_bytes != 0,
                cpus_valid(d.resources.cpus_bits),
                d.resources.pids != 0,
                first_fault(d.filesystem, d.filesystem.len() as int, fs_checker()) is None,
                first_fault(d.network, d.network.len() as int, net_checker()) is None,
                first_fault(d.phases, d.phases.len() as int, phase_checker(d)) is None,
                first_fault(d.phases, i as int, next_check) is None,
            decreases self.phases@.len() - i,
        {
            if let Some(e) = check_next(self, i) {
                proof {
                    lemma_first_fault_stable(d.phases, i + 1, d.phases.len() as int, next_check);
                }
                return Err(e);
            }
            i = i + 1;
        }
        Ok(())
    }
}


// ---------------------------------------------------------------------------
// Hash

/// The SHA-256 digest of a byte string.
pub uninterp spec fn sha256_digest(data: Seq<u8>) -> Seq<u8>;

/// `sha2::Sha256::digest`: the result is the digest of the bytes (a
/// function of them alone) and is 32 bytes long, as SHA-256 defines.
#[verifier::external_body]
fn sha256(data: &[u8]) -> (out: Vec<u8>)
    ensures
        out@ == sha256_digest(data@),
        out@.len() == 32,
{
    sha2::Sha256::digest(data).to_vec()
}

/// A lowercase hexadecimal digit.
pub open spec fn hex_digit(n: nat) -> char {
    if n < 10 {
        digit_char(n)
    } else {
        (('a' as int) + n - 10) as char
    }
}

/// Lowercase hexadecimal, two digits per byte (`{:x}` on a digest).
pub open spec fn hex_lower(b: Seq<u8>) -> Seq<char>
    decreases b.len(),
{
    if b.len() == 0 {
        Seq::empty()
    } else {
        hex_lower(b.drop_last()) + seq![hex_digit((b.last() / 16) as nat), hex_digit((b.last() % 16) as nat)]
    }
}

/// The hash text of a policy whose canonical JSON is `canonical`.
pub open spec fn policy_hash(canonical: Seq<u8>) -> Seq<char> {
    seq!['s', 'h', 'a', '2', '5', '6', ':'] + hex_lower(sha256_digest(canonical))
}

fn hex_char(n: u8) -> (c: char)
    requires
        n < 16,
    ensures
        c == hex_digit(n as nat),
{
    let table: [char; 16] = ['0', '1', '2', '3', '4', '5', '6', '7', '8', '9', 'a', 'b', 'c', 'd', 'e', 'f'];
    assert(table@ == seq!['0', '1', '2', '3', '4', '5', '6', '7', '8', '9', 'a', 'b', 'c', 'd', 'e', 'f']);
    table[n as usize]
}

/// Appends the lowercase hexadecimal form of `bytes` to `out`.
pub fn push_hex(out: &mut String, bytes: &[u8])
    ensures
        final(out)@ == old(out)@ + hex_lower(bytes@),
{
    let mut i: usize = 0;
    while i < bytes.len()
        invariant
            i <= bytes@.len(),
            out@ == old(out)@ + hex_lower(bytes@.subrange(0, i as int)),
        decreases bytes@.len() - i,
    {
        let b = bytes[i];
        let ghost pre = bytes@.subrange(0, i as int);
        let ghost next = bytes@.subrange(0, i + 1);
        assert(next.drop_last() == pre);
        assert(next.last() == b);
        push_char(out, hex_char(b / 16));
        push_char(out, hex_char(b % 16));
        i = i + 1;
    }
    assert(bytes@.subrange(0, bytes@.len() as int) == bytes@);
}

/// The hash text of a policy from its canonical JSON bytes.
pub fn hash_canonical(canonical: &[u8]) -> (h: String)
    ensures
        h@ == policy_hash(canonical@),
{
    let digest = sha256(canonical);
    let mut h = String::new();
    let prefix: [char; 7] = ['s', 'h', 'a', '2', '5', '6', ':'];
    crate::text::append_chars(&mut h, &prefix);
    push_hex(&mut h, digest.as_slice());
    h
}

impl CapabilityDescriptor {
    /// Validates the descriptor and binds it to the hash of its canonical
    /// JSON serialization (`canonical`, the bytes of this descriptor as the
    /// schema serializes it).
    pub fn compile(self, canonical: &[u8]) -> (r: Result<LoadedPolicy, PolicyError>)
        ensures
            r is Ok <==> policy_fault(self@) is None,
            r matches Err(e) ==> policy_fault(self@) == Some(e),
            r matches Ok(l) ==> l.descriptor@ == self@ && l.hash@ == policy_hash(canonical@),
    {
        match self.validate() {
            Err(e) => Err(e),
            Ok(()) => {
                let hash = hash_canonical(canonical);
                Ok(LoadedPolicy { descriptor: self, hash })
            },
        }
    }
}


// ---------------------------------------------------------------------------
// Copies

/// A copy of a list of strings.
pub fn copy_strings(v: &Vec<String>) -> (r: Vec<String>)
    ensures
        strings_view(r@) == strings_view(v@),
{
    let mut r: Vec<String> = Vec::new();
    let mut i: usize = 0;
    while i < v.len()
        invariant
            i <= v@.len(),
            strings_view(r@) == strings_view(v@).subrange(0, i as int),
        decreases v@.len() - i,
    {
        let ghost pre = strings_view(r@);
        let s = v[i].clone();
        r.push(s);
        assert(strings_view(r@) =~= pre.push(v@[i as int]@));
        i = i + 1;
    }
    assert(strings_view(v@).subrange(0, v@.len() as int) =~= strings_view(v@));
    r
}

impl NetworkRule {
    pub fn copy(&self) -> (r: NetworkRule)
        ensures
            r@ == self@,
    {
        NetworkRule { host: self.host.clone(), port: self.port }
    }
}

impl FsRule {
    pub fn copy(&self) -> (r: FsRule)
        ensures
            r@ == self@,
    {
        FsRule { path: self.path.clone(), access: self.access }
    }
}

/// A copy of a list of network rules.
pub fn copy_rules(v: &Vec<NetworkRule>) -> (r: Vec<NetworkRule>)
    ensures
        rules_view(r@) == rules_view(v@),
{
    let mut r: Vec<NetworkRule> = Vec::new();
    let mut i: usize = 0;
    while i < v.len()
        invariant
            i <= v@.len(),
            rules_view(r@) == rules_view(v@).subrange(0, i as int),
        decreases v@.len() - i,
    {
        let ghost pre = rules_view(r@);
        let x = v[i].copy();
        r.push(x);
        assert(rules_view(r@) =~= pre.push(v@[i as int]@));
        i = i + 1;
    }
    assert(rules_view(v@).subrange(0, v@.len() as int) =~= rules_view(v@));
    r
}

pub open spec fn fs_rules_view(v: Seq<FsRule>) -> Seq<FsRuleView> {
    v.map_values(|r: FsRule| r@)
}

/// A copy of a list of filesystem rules.
pub fn copy_fs_rules(v: &Vec<FsRule>) -> (r: Vec<FsRule>)
    ensures
        fs_rules_view(r@) == fs_rules_view(v@),
{
    let mut r: Vec<FsRule> = Vec::new();
    let mut i: usize = 0;
    while i < v.len()
        invariant
            i <= v@.len(),
            fs_rules_view(r@) == fs_rules_view(v@).subrange(0, i as int),
        decreases v@.len() - i,
    {
        let ghost pre = fs_rules_view(r@);
        let x = v[i].copy();
        r.push(x);
        assert(fs_rules_view(r@) =~= pre.push(v@[i as int]@));
        i = i + 1;
    }
    assert(fs_rules_view(v@).subrange(0, v@.len() as int) =~= fs_rules_view(v@));
    r
}

impl PhasePolicy {
    pub fn copy(&self) -> (r: PhasePolicy)
        ensures
            r@ == self@,
    {
        PhasePolicy {
            name: self.name.clone(),
            network: copy_rules(&self.network),
            resources: self.resources,
            next: copy_strings(&self.next),
        }
    }
}

impl CapabilityDescriptor {
    pub fn copy(&self) -> (r: CapabilityDescriptor)
        ensures
            r@ == self@,
    {
        let mut phases: Vec<PhasePolicy> = Vec::new();
        let mut i: usize = 0;
        while i < self.phases.len()
            invariant
                i <= self.phases@.len(),
                phases@.map_values(|p: PhasePolicy| p@) == self.phases@.map_values(|p: PhasePolicy| p@).subrange(0, i as int),
            decreases self.phases@.len() - i,
        {
            let ghost pre = phases@.map_values(|p: PhasePolicy| p@);
            let x = self.phases[i].copy();
            phases.push(x);
            assert(phases@.map_values(|p: PhasePolicy| p@) =~= pre.push(self.phases@[i as int]@));
            i = i + 1;
        }
        assert(self.phases@.map_values(|p: PhasePolicy| p@).subrange(0, self.phases@.len() as int)
            =~= self.phases@.map_values(|p: PhasePolicy| p@));
        let r = CapabilityDescriptor {
            version: self.version,
            filesystem: copy_fs_rules(&self.filesystem),
            network: copy_rules(&self.network),
            resources: self.resources,
            phases,
        };
        assert(r@.filesystem == fs_rules_view(r.filesystem@));
        r
    }
}


// ---------------------------------------------------------------------------
// Laws

/// Every phase of a valid policy is well formed and stays within the
/// policy's ceiling: its name is not empty and no other phase has it, its
/// resources are positive (finite CPUs) and no limit is above the ceiling's,
/// each of its network rules is one of the ceiling's, and each name in its
/// `next` list names a phase of the policy.
pub proof fn law_phase_within_ceiling(d: DescriptorView, k: int)
    requires
        policy_fault(d) is None,
        0 <= k < d.phases.len(),
    ensures
        d.phases[k].name.len() > 0,
        forall|j: int| 0 <= j < d.phases.len() && j != k ==> #[trigger] d.phases[j].name != d.phases[k].name,
        !exceeds(d.phases[k].resources, d.resources),
        resources_valid(d.phases[k].resources),
        d.phases[k].resources.memory_bytes <= d.resources.memory_bytes,
        d.phases[k].resources.cpus_bits <= d.resources.cpus_bits,
        d.phases[k].resources.pids <= d.resources.pids,
        d.phases[k].resources.memory_bytes > 0,
        0 < d.phases[k].resources.cpus_bits < 0x7FF0_0000_0000_0000,
        d.phases[k].resources.pids > 0,
        forall|j: int| 0 <= j < d.phases[k].network.len() ==> d.network.contains(#[trigger] d.phases[k].network[j]),
        forall|n: int| 0 <= n < d.phases[k].next.len() ==> is_phase_name(d.phases, #[trigger] d.phases[k].next[n]),
{
    assert(first_fault(d.phases, d.phases.len() as int, phase_checker(d)) is None);
    assert(first_fault(d.phases, d.phases.len() as int, next_checker(d)) is None);
    crate::text::lemma_first_fault_each(d.phases, d.phases.len() as int, phase_checker(d), k);
    crate::text::lemma_first_fault_each(d.phases, d.phases.len() as int, next_checker(d), k);
    let p = d.phases[k];
    assert(phase_fault(d, p, k) is None);
    assert(next_fault(d, p, k) is None);
    assert forall|j: int| 0 <= j < p.network.len() implies d.network.contains(#[trigger] p.network[j]) by {
        crate::text::lemma_first_fault_each(p.network, p.network.len() as int, phase_rule_checker(d.network, k), j);
        assert(phase_rule_fault(d.network, k, p.network[j], j) is None);
    }
    assert forall|j: int| 0 <= j < d.phases.len() && j != k implies #[trigger] d.phases[j].name != d.phases[k].name by {
        crate::text::lemma_first_fault_each(d.phases, d.phases.len() as int, phase_checker(d), j);
        assert(phase_fault(d, d.phases[j], j) is None);
        assert(!phase_name_bad(d.phases, j));
        assert(!phase_name_bad(d.phases, k));
    }
}

/// A policy with a phase that asks for more memory, more CPU or more
/// processes than the policy's own limit is refused.
pub proof fn law_phase_over_ceiling_refused(d: DescriptorView, k: int)
    requires
        0 <= k < d.phases.len(),
        d.phases[k].resources.memory_bytes > d.resources.memory_bytes
            || d.phases[k].resources.cpus_bits > d.resources.cpus_bits
            || d.phases[k].resources.pids > d.resources.pids,
    ensures
        policy_fault(d) is Some,
{
    if policy_fault(d) is None {
        law_phase_within_ceiling(d, k);
    }
}

/// A valid policy has version 1 and a positive memory, CPU (finite) and
/// process limit.
pub proof fn law_valid_ceiling(d: DescriptorView)
    requires
        policy_fault(d) is None,
    ensures
        d.version == 1,
        d.resources.memory_bytes > 0,
        0 < d.resources.cpus_bits < 0x7FF0_0000_0000_0000,
        d.resources.pids > 0,
{
}

/// Every filesystem path of a valid policy is absolute, has no `.` or `..`
/// component, and holds no NUL.
pub proof fn law_valid_paths(d: DescriptorView, i: int)
    requires
        policy_fault(d) is None,
        0 <= i < d.filesystem.len(),
    ensures
        is_absolute(d.filesystem[i].path),
        path_normalized(d.filesystem[i].path),
        !contains_char(d.filesystem[i].path, '\0'),
{
    assert(first_fault(d.filesystem, d.filesystem.len() as int, fs_checker()) is None);
    crate::text::lemma_first_fault_each(d.filesystem, d.filesystem.len() as int, fs_checker(), i);
    assert(fs_fault(d.filesystem[i], i) is None);
}

/// The hash of a policy depends on its canonical bytes alone and is tagged
/// with its algorithm: equal bytes give equal hashes, and every hash starts
/// with `sha256:`.
pub proof fn law_hash_deterministic(a: Seq<u8>, b: Seq<u8>)
    requires
        a == b,
    ensures
        policy_hash(a) == policy_hash(b),
        policy_hash(a).subrange(0, 7) == seq!['s', 'h', 'a', '2', '5', '6', ':'],
{
    assert(policy_hash(a).subrange(0, 7) =~= seq!['s', 'h', 'a', '2', '5', '6', ':']);
}

// ---------------------------------------------------------------------------
// Error texts

/// The path of filesystem rule `i`, or nothing where there is none.
pub open spec fn fs_path_at(d: DescriptorView, i: int) -> Seq<char> {
    if 0 <= i < d.filesystem.len() { d.filesystem[i].path } else { Seq::empty() }
}

pub open spec fn host_at(d: DescriptorView, i: int) -> Seq<char> {
    if 0 <= i < d.network.len() { d.network[i].host } else { Seq::empty() }
}

pub open spec fn phase_name_at(d: DescriptorView, k: int) -> Seq<char> {
    if 0 <= k < d.phases.len() { d.phases[k].name } else { Seq::empty() }
}

pub open spec fn phase_host_at(d: DescriptorView, k: int, j: int) -> Seq<char> {
    if 0 <= k < d.phases.len() && 0 <= j < d.phases[k].network.len() { d.phases[k].network[j].host } else { Seq::empty() }
}

/// The text a refused descriptor is reported with, naming the offending
/// path (quoted), host or phase.
pub open spec fn policy_error_text(d: DescriptorView, e: PolicyError) -> Seq<char> {
    match e {
        PolicyError::UnsupportedVersion => "unsupported capability policy version "@ + decimal(d.version as nat)
            + "; expected 1"@,
        PolicyError::MemoryNotPositive => "policy resources.memory_bytes must be positive"@,
        PolicyError::CpusNotFinitePositive => "policy resources.cpus must be finite and positive"@,
        PolicyError::PidsNotPositive => "policy resources.pids must be positive"@,
        PolicyError::PathNotAbsolute(i) => "filesystem capability path must be absolute: "@ + "\""@
            + fs_path_at(d, i as int) + "\""@,
        PolicyError::PathNotNormalized(i) => "filesystem capability path must be normalized: "@ + "\""@
            + fs_path_at(d, i as int) + "\""@,
        PolicyError::PathHasNul(i) => "filesystem capability path must not contain NUL: "@ + "\""@
            + fs_path_at(d, i as int) + "\""@,
        PolicyError::InvalidHost(i) => "network host must be a normalized lowercase DNS name: "@ + host_at(d, i as int),
        PolicyError::ZeroPort(_) => "network port must be positive"@,
        PolicyError::PhaseNameInvalid(_) => "phase names must be non-empty and unique"@,
        PolicyError::PhaseResourcesInvalid(_) => "phase resources must be finite and positive"@,
        PolicyError::PhaseExceedsResources(k) => "phase "@ + phase_name_at(d, k as int) + " exceeds the resource ceiling"@,
        PolicyError::PhaseInvalidHost(k, j) => "network host must be a normalized lowercase DNS name: "@
            + phase_host_at(d, k as int, j as int),
        PolicyError::PhaseExceedsNetwork(k) => "phase "@ + phase_name_at(d, k as int) + " exceeds the network ceiling"@,
        PolicyError::UnknownNextPhase(k) => "phase "@ + phase_name_at(d, k as int) + " references an unknown next phase"@,
    }
}

fn quoted(prefix: &str, value: &str) -> (s: String)
    ensures
        s@ == prefix@ + "\""@ + value@ + "\""@,
{
    concat(concat(concat(prefix, "\"").as_str(), value).as_str(), "\"")
}

impl CapabilityDescriptor {
    /// The text a fault of this descriptor is reported with.
    pub fn fault_message(&self, e: PolicyError) -> (m: String)
        ensures
            m@ == policy_error_text(self@, e),
    {
        match e {
            PolicyError::UnsupportedVersion => {
                let m = concat(
                    concat("unsupported capability policy version ", u64_to_string(self.version as u64).as_str()).as_str(),
                    "; expected 1",
                );
                assert(m@ == policy_error_text(self@, e));
                m
            },
            PolicyError::MemoryNotPositive => "policy resources.memory_bytes must be positive".to_owned(),
            PolicyError::CpusNotFinitePositive => "policy resources.cpus must be finite and positive".to_owned(),
            PolicyError::PidsNotPositive => "policy resources.pids must be positive".to_owned(),
            PolicyError::PathNotAbsolute(i) => {
                let path = if i < self.filesystem.len() { self.filesystem[i].path.as_str() } else { "" };
                proof {
                    reveal_strlit("");
                    assert(""@ =~= Seq::<char>::empty());
                    if i < self.filesystem@.len() {
                        assert(self@.filesystem[i as int] == self.filesystem@[i as int]@);
                    }
                }
                let m = quoted("filesystem capability path must be absolute: ", path);
                assert(m@ == policy_error_text(self@, e));
                m
            },
            PolicyError::PathNotNormalized(i) => {
                let path = if i < self.filesystem.len() { self.filesystem[i].path.as_str() } else { "" };
                proof {
                    reveal_strlit("");
                    assert(""@ =~= Seq::<char>::empty());
                    if i < self.filesystem@.len() {
                        assert(self@.filesystem[i as int] == self.filesystem@[i as int]@);
                    }
                }
                let m = quoted("filesystem capability path must be normalized: ", path);
                assert(m@ == policy_error_text(self@, e));
                m
            },
            PolicyError::PathHasNul(i) => {
                let path = if i < self.filesystem.len() { self.filesystem[i].path.as_str() } else { "" };
                proof {
                    reveal_strlit("");
                    assert(""@ =~= Seq::<char>::empty());
                    if i < self.filesystem@.len() {
                        assert(self@.filesystem[i as int] == self.filesystem@[i as int]@);
                    }
                }
                let m = quoted("filesystem capability path must not contain NUL: ", path);
                assert(m@ == policy_error_text(self@, e));
                m
            },
            PolicyError::InvalidHost(i) => {
                let host = if i < self.network.len() { self.network[i].host.as_str() } else { "" };
                proof {
                    reveal_strlit("");
                    assert(""@ =~= Seq::<char>::empty());
                    if i < self.network@.len() {
                        assert(self@.network[i as int] == self.network@[i as int]@);
                    }
                }
                let m = concat("network host must be a normalized lowercase DNS name: ", host);
                assert(m@ == policy_error_text(self@, e));
                m
            },
            PolicyError::ZeroPort(_) => "network port must be positive".to_owned(),
            PolicyError::PhaseNameInvalid(_) => "phase names must be non-empty and unique".to_owned(),
            PolicyError::PhaseResourcesInvalid(_) => "phase resources must be finite and positive".to_owned(),
            PolicyError::PhaseExceedsResources(k) => {
                let name = self.phase_name(k);
                let m = concat(concat("phase ", name).as_str(), " exceeds the resource ceiling");
                assert(m@ == policy_error_text(self@, e));
                m
            },
            PolicyError::PhaseInvalidHost(k, j) => {
                let host = if k < self.phases.len() && j < self.phases[k].network.len() {
                    self.phases[k].network[j].host.as_str()
                } else {
                    ""
                };
                proof {
                    reveal_strlit("");
                    assert(""@ =~= Seq::<char>::empty());
                    if k < self.phases@.len() {
                        assert(self@.phases[k as int] == self.phases@[k as int]@);
                        if j < self.phases@[k as int].network@.len() {
                            assert(self@.phases[k as int].network[j as int] == self.phases@[k as int].network@[j as int]@);
                        }
                    }
                }
                concat("network host must be a normalized lowercase DNS name: ", host)
            },
            PolicyError::PhaseExceedsNetwork(k) => {
                let name = self.phase_name(k);
                concat(concat("phase ", name).as_str(), " exceeds the network ceiling")
            },
            PolicyError::UnknownNextPhase(k) => {
                let name = self.phase_name(k);
                concat(concat("phase ", name).as_str(), " references an unknown next phase")
            },
        }
    }

    fn phase_name(&self, k: usize) -> (n: &str)
        ensures
            n@ == phase_name_at(self@, k as int),
    {
        proof {
            reveal_strlit("");
            assert(""@ =~= Seq::<char>::empty());
        }
        if k < self.phases.len() {
            assert(self@.phases[k as int] == self.phases@[k as int]@);
            self.phases[k].name.as_str()
        } else {
            ""
        }
    }
}

} // verus!
