//! Bounded per-sandbox audit log: a ring buffer of structured events that
//! counts the events it had to evict.
use vstd::prelude::*;
use crate::text::str_eq;

verus! {

/// The number of events a sink keeps unless told otherwise.
pub const DEFAULT_CAPACITY: usize = 1024;

/// One allow or deny decision, with the identity it was taken under.
#[derive(Debug)]
pub struct AuditEvent {
    pub timestamp_ms: u128,
    pub sandbox_id: String,
    pub policy_hash: Option<String>,
    pub phase: String,
    pub source: String,
    pub decision: String,
    pub capability: String,
    pub target: String,
    pub rule_id: Option<String>,
    pub reason: String,
}

/// The events a sink holds, oldest first, and how many it evicted.
#[derive(Debug)]
pub struct AuditSnapshot {
    pub events: Vec<AuditEvent>,
    pub dropped_events: u64,
}

/// Counts of the held events by decision and by capability.  Each list
/// holds one entry per distinct value, in key order (as a `BTreeMap` would
/// give them).
#[derive(Debug)]
pub struct AuditSummary {
    pub event_count: usize,
    pub dropped_events: u64,
    pub decisions: Vec<(String, u64)>,
    pub capabilities: Vec<(String, u64)>,
}

/// A bounded audit log for one sandbox.
#[derive(Debug)]
pub struct AuditSink {
    sandbox_id: String,
    policy_hash: Option<String>,
    phase: String,
    capacity: usize,
    events: std::collections::VecDeque<AuditEvent>,
    dropped_events: u64,
}

// ---------------------------------------------------------------------------
// Model

pub open spec fn opt_view(o: Option<String>) -> Option<Seq<char>> {
    match o {
        Some(s) => Some(s@),
        None => None,
    }
}

pub struct EventView {
    pub timestamp_ms: u128,
    pub sandbox_id: Seq<char>,
    pub policy_hash: Option<Seq<char>>,
    pub phase: Seq<char>,
    pub source: Seq<char>,
    pub decision: Seq<char>,
    pub capability: Seq<char>,
    pub target: Seq<char>,
    pub rule_id: Option<Seq<char>>,
    pub reason: Seq<char>,
}

impl View for AuditEvent {
    type V = EventView;

    open spec fn view(&self) -> EventView {
        EventView {
            timestamp_ms: self.timestamp_ms,
            sandbox_id: self.sandbox_id@,
            policy_hash: opt_view(self.policy_hash),
            phase: self.phase@,
            source: self.source@,
            decision: self.decision@,
            capability: self.capability@,
            target: self.target@,
            rule_id: opt_view(self.rule_id),
            reason: self.reason@,
        }
    }
}

pub open spec fn events_view(v: Seq<AuditEvent>) -> Seq<EventView> {
    v.map_values(|e: AuditEvent| e@)
}

pub struct SinkView {
    pub sandbox_id: Seq<char>,
    pub policy_hash: Option<Seq<char>>,
    pub phase: Seq<char>,
    pub capacity: nat,
    pub events: Seq<EventView>,
    pub dropped_events: u64,
}

impl View for AuditSink {
    type V = SinkView;

    closed spec fn view(&self) -> SinkView {
        SinkView {
            sandbox_id: self.sandbox_id@,
            policy_hash: opt_view(self.policy_hash),
            phase: self.phase@,
            capacity: self.capacity as nat,
            events: events_view(self.events@),
            dropped_events: self.dropped_events,
        }
    }
}

/// The events left after one eviction from a full buffer.
pub open spec fn evict_one(events: Seq<EventView>) -> Seq<EventView> {
    if events.len() > 0 {
        events.drop_first()
    } else {
        events
    }
}

/// The log after recording `e`: a full buffer first evicts its oldest event
/// and counts the eviction (the count wraps at `u64::MAX`).
pub open spec fn after_record(s: SinkView, e: EventView) -> SinkView {
    if s.events.len() == s.capacity {
        SinkView {
            events: evict_one(s.events).push(e),
            dropped_events: (if s.dropped_events == u64::MAX { 0 } else { s.dropped_events + 1 }) as u64,
            ..s
        }
    } else {
        SinkView { events: s.events.push(e), ..s }
    }
}

/// How many of `keys` equal `k`.
pub open spec fn count_of(keys: Seq<Seq<char>>, k: Seq<char>) -> nat
    decreases keys.len(),
{
    if keys.len() == 0 {
        0
    } else {
        count_of(keys.drop_last(), k) + (if keys.last() == k { 1nat } else { 0nat })
    }
}

/// `entries` counts `keys` exactly: one entry per distinct key, in key
/// order, each with the number of times the key occurs (never zero).
pub open spec fn tallies(entries: Seq<(String, u64)>, keys: Seq<Seq<char>>) -> bool {
    &&& forall|i: int, j: int| 0 <= i < j < entries.len() ==> entries[i].0@ != entries[j].0@
    &&& forall|i: int, j: int| 0 <= i < j < entries.len() ==> crate::task::lex_lt(entries[i].0@, entries[j].0@)
    &&& forall|i: int| 0 <= i < entries.len() ==> entries[i].1 == count_of(keys, #[trigger] entries[i].0@)
        && entries[i].1 > 0
    &&& forall|k: Seq<char>| count_of(keys, k) > 0 ==> exists|i: int| 0 <= i < entries.len() && #[trigger] entries[i].0@ == k
}

pub open spec fn decisions_of(events: Seq<EventView>) -> Seq<Seq<char>> {
    events.map_values(|e: EventView| e.decision)
}

pub open spec fn capabilities_of(events: Seq<EventView>) -> Seq<Seq<char>> {
    events.map_values(|e: EventView| e.capability)
}

// ---------------------------------------------------------------------------
// Implementation

/// The current time in milliseconds since the Unix epoch
/// (`SystemTime::now().duration_since(UNIX_EPOCH)`, zero before the
/// epoch).  Nothing is claimed of the value: it is the clock's.
#[verifier::external_body]
fn now_ms() -> u128 {
    std::time::SystemTime::now().duration_since(std::time::UNIX_EPOCH).unwrap_or_default().as_millis()
}

/// A copy of an optional string.
pub fn copy_opt(o: &Option<String>) -> (r: Option<String>)
    ensures
        opt_view(r) == opt_view(*o),
{
    match o {
        Some(s) => Some(s.clone()),
        None => None,
    }
}

impl AuditEvent {
    /// A field-by-field copy.
    pub fn copy(&self) -> (r: AuditEvent)
        ensures
            r@ == self@,
    {
        AuditEvent {
            timestamp_ms: self.timestamp_ms,
            sandbox_id: self.sandbox_id.clone(),
            policy_hash: copy_opt(&self.policy_hash),
            phase: self.phase.clone(),
            source: self.source.clone(),
            decision: self.decision.clone(),
            capability: self.capability.clone(),
            target: self.target.clone(),
            rule_id: copy_opt(&self.rule_id),
            reason: self.reason.clone(),
        }
    }
}

impl AuditSink {
    /// A sink with the default capacity, in phase `static`.
    pub fn new(sandbox_id: String, policy_hash: Option<String>) -> (s: AuditSink)
        ensures
            s@.sandbox_id == sandbox_id@,
            s@.policy_hash == opt_view(policy_hash),
            s@.phase == seq!['s', 't', 'a', 't', 'i', 'c'],
            s@.capacity == DEFAULT_CAPACITY,
            s@.events.len() == 0,
            s@.dropped_events == 0,
    {
        Self::with_capacity(sandbox_id, policy_hash, DEFAULT_CAPACITY)
    }

    /// A sink that keeps at most `capacity` events, in phase `static`.
    pub fn with_capacity(sandbox_id: String, policy_hash: Option<String>, capacity: usize) -> (s: AuditSink)
        ensures
            s@.sandbox_id == sandbox_id@,
            s@.policy_hash == opt_view(policy_hash),
            s@.phase == seq!['s', 't', 'a', 't', 'i', 'c'],
            s@.capacity == capacity,
            s@.events.len() == 0,
            s@.dropped_events == 0,
    {
        let mut phase = String::new();
        let static_name: [char; 6] = ['s', 't', 'a', 't', 'i', 'c'];
        crate::text::append_chars(&mut phase, &static_name);
        let s = AuditSink {
            sandbox_id,
            policy_hash,
            phase,
            capacity,
            events: std::collections::VecDeque::with_capacity(capacity),
            dropped_events: 0,
        };
        assert(events_view(s.events@) =~= Seq::<EventView>::empty());
        s
    }

    /// The sandbox this sink belongs to.
    pub fn sandbox_id(&self) -> (r: &String)
        ensures
            r@ == self@.sandbox_id,
    {
        &self.sandbox_id
    }

    /// Records an event stamped with the current time and the sink's
    /// sandbox, policy hash and phase.
    pub fn record(
        &mut self,
        source: &str,
        decision: &str,
        capability: &str,
        target: String,
        rule_id: Option<String>,
        reason: String,
    )
        ensures
            exists|t: u128| final(self)@ == after_record(
                old(self)@,
                EventView {
                    timestamp_ms: t,
                    sandbox_id: old(self)@.sandbox_id,
                    policy_hash: old(self)@.policy_hash,
                    phase: old(self)@.phase,
                    source: source@,
                    decision: decision@,
                    capability: capability@,
                    target: target@,
                    rule_id: opt_view(rule_id),
                    reason: reason@,
                },
            ),
    {
        let t = now_ms();
        self.record_at(t, source, decision, capability, target, rule_id, reason);
    }

    /// Records an event stamped with the given time.
    pub fn record_at(
        &mut self,
        timestamp_ms: u128,
        source: &str,
        decision: &str,
        capability: &str,
        target: String,
        rule_id: Option<String>,
        reason: String,
    )
        ensures
            final(self)@ == after_record(
                old(self)@,
                EventView {
                    timestamp_ms,
                    sandbox_id: old(self)@.sandbox_id,
                    policy_hash: old(self)@.policy_hash,
                    phase: old(self)@.phase,
                    source: source@,
                    decision: decision@,
                    capability: capability@,
                    target: target@,
                    rule_id: opt_view(rule_id),
                    reason: reason@,
                },
            ),
    {
        let ghost before = events_view(self.events@);
        if self.events.len() == self.capacity {
            let _oldest = self.events.pop_front();
            assert(events_view(self.events@) =~= evict_one(before));
            self.dropped_events = self.dropped_events.wrapping_add(1);
        }
        let ghost kept = events_view(self.events@);
        let event = AuditEvent {
            timestamp_ms,
            sandbox_id: self.sandbox_id.clone(),
            policy_hash: copy_opt(&self.policy_hash),
            phase: self.phase.clone(),
            source: source.to_owned(),
            decision: decision.to_owned(),
            capability: capability.to_owned(),
            target,
            rule_id,
            reason,
        };
        self.events.push_back(event);
        assert(events_view(self.events@) =~= kept.push(event@));
    }

    /// The held events, oldest first, and the eviction count.
    pub fn snapshot(&self) -> (s: AuditSnapshot)
        ensures
            events_view(s.events@) == self@.events,
            s.dropped_events == self@.dropped_events,
    {
        let mut events: Vec<AuditEvent> = Vec::new();
        let mut i: usize = 0;
        while i < self.events.len()
            invariant
                i <= self.events@.len(),
                events_view(events@) == events_view(self.events@).subrange(0, i as int),
            decreases self.events@.len() - i,
        {
            let e = self.events[i].copy();
            let ghost pre = events_view(events@);
            events.push(e);
            assert(events_view(events@) =~= pre.push(e@));
            i = i + 1;
        }
        assert(events_view(self.events@).subrange(0, self.events@.len() as int) =~= events_view(self.events@));
        AuditSnapshot { events, dropped_events: self.dropped_events }
    }

    /// Counts of the held events by decision and by capability.
    pub fn summary(&self) -> (s: AuditSummary)
        ensures
            s.event_count == self@.events.len(),
            s.dropped_events == self@.dropped_events,
            tallies(s.decisions@, decisions_of(self@.events)),
            tallies(s.capabilities@, capabilities_of(self@.events)),
    {
        let snapshot = self.snapshot();
        let mut decisions: Vec<(String, u64)> = Vec::new();
        let mut capabilities: Vec<(String, u64)> = Vec::new();
        let ghost evs = events_view(snapshot.events@);
        let mut i: usize = 0;
        while i < snapshot.events.len()
            invariant
                evs == events_view(snapshot.events@),
                i <= evs.len(),
                tallies(decisions@, decisions_of(evs.subrange(0, i as int))),
                tallies(capabilities@, capabilities_of(evs.subrange(0, i as int))),
            decreases evs.len() - i,
        {
            let e = &snapshot.events[i];
            assert(evs[i as int] == e@);
            proof {
                assert(decisions_of(evs.subrange(0, i + 1)) =~= decisions_of(evs.subrange(0, i as int)).push(e@.decision));
                assert(capabilities_of(evs.subrange(0, i + 1)) =~= capabilities_of(evs.subrange(0, i as int)).push(e@.capability));
            }
            count_into(&mut decisions, &e.decision, Ghost(decisions_of(evs.subrange(0, i as int))));
            count_into(&mut capabilities, &e.capability, Ghost(capabilities_of(evs.subrange(0, i as int))));
            i = i + 1;
        }
        assert(evs.subrange(0, evs.len() as int) =~= evs);
        AuditSummary {
            event_count: snapshot.events.len(),
            dropped_events: snapshot.dropped_events,
            decisions,
            capabilities,
        }
    }

    /// Sets the phase that later events are stamped with.
    pub fn set_phase(&mut self, phase: &str)
        ensures
            final(self)@ == (SinkView { phase: phase@, ..old(self)@ }),
    {
        self.phase = phase.to_owned();
    }
}

fn find_entry(entries: &Vec<(String, u64)>, key: &String) -> (r: Option<usize>)
    ensures
        r matches Some(j) ==> j < entries@.len() && entries@[j as int].0@ == key@,
        r is None ==> forall|m: int| 0 <= m < entries@.len() ==> entries@[m].0@ != key@,
{
    let mut j: usize = 0;
    while j < entries.len()
        invariant
            j <= entries@.len(),
            forall|m: int| 0 <= m < j ==> entries@[m].0@ != key@,
        decreases entries@.len() - j,
    {
        if str_eq(entries[j].0.as_str(), key.as_str()) {
            return Some(j);
        }
        j = j + 1;
    }
    None
}

/// Adds one occurrence of `key` to a tally of `keys`.
fn count_into(entries: &mut Vec<(String, u64)>, key: &String, Ghost(keys): Ghost<Seq<Seq<char>>>)
    requires
        tallies(old(entries)@, keys),
        keys.len() < usize::MAX,
    ensures
        tallies(final(entries)@, keys.push(key@)),
{
    let ghost next = keys.push(key@);
    assert(next.drop_last() == keys);
    assert(forall|k: Seq<char>| #[trigger] count_of(next, k) == count_of(keys, k) + (if key@ == k { 1nat } else { 0nat }));
    let ghost pre = entries@;
    match find_entry(entries, key) {
        Some(j) => {
            let count = entries[j].1;
            proof {
                lemma_count_bound(keys, key@);
            }
            let name = entries[j].0.clone();
            entries.set(j, (name, count + 1));
            proof {
                assert forall|k: Seq<char>| count_of(next, k) > 0 implies exists|i: int| 0 <= i < entries@.len() && #[trigger] entries@[i].0@ == k by {
                    if k == key@ {
                        assert(entries@[j as int].0@ == k);
                    } else {
                        assert(count_of(next, k) == count_of(keys, k));
                        let i = choose|i: int| 0 <= i < pre.len() && #[trigger] pre[i].0@ == k;
                        assert(entries@[i].0@ == k);
                    }
                }
                assert forall|i: int| 0 <= i < entries@.len() implies entries@[i].1 == count_of(next, #[trigger] entries@[i].0@) by {
                    if i != j {
                        assert(entries@[i] == pre[i]);
                        assert(pre[i].1 == count_of(keys, pre[i].0@));
                    }
                }
            }
        },
        None => {
            proof {
                if count_of(keys, key@) > 0 {
                    let i = choose|i: int| 0 <= i < pre.len() && #[trigger] pre[i].0@ == key@;
                    assert(false);
                }
            }
            let pos = insert_position(entries, key);
            entries.insert(pos, (key.clone(), 1));
            proof {
                let post = entries@;
                assert(post =~= pre.insert(pos as int, (*key, 1u64)));
                assert forall|k: Seq<char>| count_of(next, k) > 0 implies exists|i: int| 0 <= i < post.len() && #[trigger] post[i].0@ == k by {
                    if k == key@ {
                        assert(post[pos as int].0@ == k);
                    } else {
                        assert(count_of(next, k) == count_of(keys, k));
                        let i = choose|i: int| 0 <= i < pre.len() && #[trigger] pre[i].0@ == k;
                        if i < pos {
                            assert(post[i] == pre[i]);
                        } else {
                            assert(post[i + 1] == pre[i]);
                        }
                    }
                }
                assert forall|i: int| 0 <= i < post.len() implies post[i].1 == count_of(next, #[trigger] post[i].0@)
                    && post[i].1 > 0 by {
                    if i < pos {
                        assert(post[i] == pre[i]);
                        assert(pre[i].1 == count_of(keys, pre[i].0@));
                    } else if i > pos {
                        assert(post[i] == pre[i - 1]);
                        assert(pre[i - 1].1 == count_of(keys, pre[i - 1].0@));
                    }
                }
                assert forall|a: int, b: int| 0 <= a < b < post.len() implies crate::task::lex_lt(post[a].0@, post[b].0@) by {
                    let ka = post[a].0@;
                    let kb = post[b].0@;
                    if a < pos && b < pos {
                        assert(post[a] == pre[a] && post[b] == pre[b]);
                    } else if a < pos && b == pos {
                        assert(post[a] == pre[a]);
                    } else if a < pos && b > pos {
                        assert(post[a] == pre[a] && post[b] == pre[b - 1]);
                        if pos < pre.len() {
                            if b - 1 > pos {
                                crate::task::lemma_lex_transitive(key@, pre[pos as int].0@, pre[b - 1].0@);
                            }
                        }
                        crate::task::lemma_lex_transitive(ka, key@, kb);
                    } else if a == pos {
                        assert(post[b] == pre[b - 1]);
                        if b - 1 > pos {
                            crate::task::lemma_lex_transitive(key@, pre[pos as int].0@, pre[b - 1].0@);
                        }
                    } else {
                        assert(post[a] == pre[a - 1] && post[b] == pre[b - 1]);
                    }
                }
                assert forall|a: int, b: int| 0 <= a < b < post.len() implies post[a].0@ != post[b].0@ by {
                    crate::task::lemma_lex_irreflexive(post[a].0@);
                }
            }
        },
    }
}

/// Where a key that is not in the sorted list goes: before the first
/// entry it sorts before, every earlier entry sorting before it.
fn insert_position(entries: &Vec<(String, u64)>, key: &String) -> (pos: usize)
    requires
        forall|i: int, j: int| 0 <= i < j < entries@.len() ==> crate::task::lex_lt(entries@[i].0@, entries@[j].0@),
        forall|m: int| 0 <= m < entries@.len() ==> entries@[m].0@ != key@,
    ensures
        pos <= entries@.len(),
        forall|m: int| 0 <= m < pos ==> crate::task::lex_lt(#[trigger] entries@[m].0@, key@),
        pos < entries@.len() ==> crate::task::lex_lt(key@, entries@[pos as int].0@),
{
    let kc = crate::text::chars_of(key.as_str());
    let mut j: usize = 0;
    while j < entries.len()
        invariant
            j <= entries@.len(),
            kc@ == key@,
            forall|m: int| 0 <= m < entries@.len() ==> entries@[m].0@ != key@,
            forall|m: int| 0 <= m < j ==> crate::task::lex_lt(#[trigger] entries@[m].0@, key@),
        decreases entries@.len() - j,
    {
        let ec = crate::text::chars_of(entries[j].0.as_str());
        if crate::task::lex_less(kc.as_slice(), ec.as_slice()) {
            return j;
        }
        proof {
            crate::task::lemma_lex_total(entries@[j as int].0@, key@);
        }
        j = j + 1;
    }
    j
}

proof fn lemma_count_bound(keys: Seq<Seq<char>>, k: Seq<char>)
    ensures
        count_of(keys, k) <= keys.len(),
    decreases keys.len(),
{
    if keys.len() > 0 {
        lemma_count_bound(keys.drop_last(), k);
    }
}


// ---------------------------------------------------------------------------
// Laws

/// A log with room for at least one event never holds more events than its
/// capacity, however many are recorded.
pub proof fn law_record_bounded(s: SinkView, e: EventView)
    requires
        s.capacity > 0,
        s.events.len() <= s.capacity,
    ensures
        after_record(s, e).events.len() <= s.capacity,
{
}

/// Recording puts the new event last and keeps the held events in order,
/// losing at most the oldest one.
pub proof fn law_record_appends(s: SinkView, e: EventView)
    ensures
        after_record(s, e).events.last() == e,
        after_record(s, e).events.drop_last() == s.events
            || after_record(s, e).events.drop_last() == s.events.drop_first(),
{
    let a = after_record(s, e);
    assert(a.events.drop_last() =~= evict_one(s.events) || a.events.drop_last() =~= s.events);
}

/// Every recorded event is held or counted as dropped: the number held
/// plus the number dropped grows by one with each event (until the count
/// would pass `u64::MAX`).
pub proof fn law_record_accounts(s: SinkView, e: EventView)
    requires
        s.capacity > 0,
        s.events.len() <= s.capacity,
        s.dropped_events < u64::MAX,
    ensures
        after_record(s, e).events.len() + after_record(s, e).dropped_events == s.events.len() + s.dropped_events + 1,
{
}

/// Recording changes nothing but the held events and the drop count: the
/// sink's identity, phase and capacity stay.
pub proof fn law_record_keeps_identity(s: SinkView, e: EventView)
    ensures
        after_record(s, e).sandbox_id == s.sandbox_id,
        after_record(s, e).policy_hash == s.policy_hash,
        after_record(s, e).phase == s.phase,
        after_record(s, e).capacity == s.capacity,
{
}

/// The log after recording each of `es` in turn.
pub open spec fn after_records(s: SinkView, es: Seq<EventView>) -> SinkView
    decreases es.len(),
{
    if es.len() == 0 {
        s
    } else {
        after_record(after_records(s, es.drop_last()), es.last())
    }
}

/// How many of `n` events a log of capacity `c` cannot hold.
pub open spec fn overflow(n: nat, c: nat) -> nat {
    if n > c { (n - c) as nat } else { 0 }
}

/// A new sink (capacity 1024) that records one event more than it holds
/// keeps the last 1024, starting from the second event recorded, and counts
/// one event as dropped.
pub proof fn law_new_sink_drops_the_first_of_1025(s: SinkView, es: Seq<EventView>)
    requires
        s.capacity == DEFAULT_CAPACITY,
        s.events.len() == 0,
        s.dropped_events == 0,
        es.len() == DEFAULT_CAPACITY + 1,
    ensures
        after_records(s, es).events.len() == DEFAULT_CAPACITY,
        after_records(s, es).dropped_events == 1,
        after_records(s, es).events[0] == es[1],
        after_records(s, es).events.last() == es.last(),
{
    law_keeps_newest(s, es);
}

/// An empty log that records more events than it has room for keeps the
/// newest `capacity` of them, oldest first, and counts the others as
/// dropped (as long as that count fits in a `u64`).
pub proof fn law_keeps_newest(s: SinkView, es: Seq<EventView>)
    requires
        s.capacity > 0,
        s.events.len() == 0,
        s.dropped_events == 0,
        es.len() <= u64::MAX,
    ensures
        after_records(s, es).events == es.subrange(overflow(es.len(), s.capacity) as int, es.len() as int),
        after_records(s, es).dropped_events == overflow(es.len(), s.capacity),
        after_records(s, es).capacity == s.capacity,
    decreases es.len(),
{
    if es.len() > 0 {
        let prev = es.drop_last();
        law_keeps_newest(s, prev);
        let p = after_records(s, prev);
        let n = es.len();
        let c = s.capacity;
        assert(p.events == prev.subrange(overflow((n - 1) as nat, c) as int, n - 1));
        if n - 1 >= c {
            assert(p.events.len() == c);
            assert(evict_one(p.events).push(es.last()) =~= es.subrange(overflow(n, c) as int, n as int));
        } else {
            assert(p.events.len() == n - 1);
            assert(p.events.push(es.last()) =~= es.subrange(overflow(n, c) as int, n as int));
        }
    } else {
        assert(es.subrange(0, 0) =~= s.events);
    }
}

} // verus!
