//! Persistent Agent tasks: validation of tool-call requests, the
//! environment they run with, and the rules that tie a task to its cgroup
//! and keeper process.
use vstd::prelude::*;
use crate::policy::{FsRule, strings_view};
use crate::text::{chars_of, find_char, find_char_in, slice_chars, string_of, first_fault, lemma_first_fault_stable};
use crate::paths::{split_on, split_chars, seqs_of};
use crate::sandbox::WaitOutcome;

verus! {

/// The most output a tool call keeps of each stream: 4 MiB.
pub const MAX_OUTPUT_BYTES: usize = 4194304;

/// A tool call to run inside a task.
#[derive(Debug)]
pub struct ExecRequest {
    pub command: Vec<String>,
    pub cwd: Option<String>,
    pub env: Vec<String>,
    pub timeout_ms: u64,
}

/// What a tool call produced.
#[derive(Debug)]
pub struct ExecResponse {
    pub exit_code: i32,
    pub stdout: String,
    pub stderr: String,
    pub timed_out: bool,
    pub output_truncated: bool,
}

/// Everything needed to run a tool call inside a live task.
#[derive(Debug)]
pub struct ExecTarget {
    pub keeper_pid: i32,
    pub keeper_start_time: u64,
    pub cgroup_path: String,
    pub filesystem_policy: Vec<FsRule>,
    pub base_env: Vec<String>,
}

/// The time limit of a tool call that names none: two minutes.
pub fn default_timeout_ms() -> (t: u64)
    ensures
        t == 120000,
{
    120_000
}

// ---------------------------------------------------------------------------
// Environment entries

/// Why an environment entry was refused.
#[derive(Debug)]
pub enum EnvError {
    /// `environment entries must use NAME=VALUE`
    MissingSeparator,
    /// `invalid environment variable name: <name>`
    InvalidName(String),
}

pub enum EnvErrorView {
    MissingSeparator,
    InvalidName(Seq<char>),
}

impl View for EnvError {
    type V = EnvErrorView;

    open spec fn view(&self) -> EnvErrorView {
        match self {
            EnvError::MissingSeparator => EnvErrorView::MissingSeparator,
            EnvError::InvalidName(n) => EnvErrorView::InvalidName(n@),
        }
    }
}

impl EnvError {
    /// The error text.
    pub fn message(&self) -> (m: String)
        ensures
            m@ == (match self@ {
                EnvErrorView::MissingSeparator => "environment entries must use NAME=VALUE"@,
                EnvErrorView::InvalidName(n) => "invalid environment variable name: "@ + n,
            }),
    {
        match self {
            EnvError::MissingSeparator => "environment entries must use NAME=VALUE".to_owned(),
            EnvError::InvalidName(n) => crate::text::concat("invalid environment variable name: ", n.as_str()),
        }
    }
}

pub open spec fn ascii_alpha(c: char) -> bool {
    ('a' <= c && c <= 'z') || ('A' <= c && c <= 'Z')
}

pub open spec fn ascii_digit(c: char) -> bool {
    '0' <= c && c <= '9'
}

/// A variable name: not empty, of ASCII letters, `_` and, after the first
/// character, digits.
pub open spec fn env_name_valid(name: Seq<char>) -> bool {
    name.len() > 0 && forall|i: int| 0 <= i < name.len() ==> {
        let c = #[trigger] name[i];
        c == '_' || ascii_alpha(c) || (i > 0 && ascii_digit(c))
    }
}

/// The name of a `NAME=VALUE` entry: the text before its first `=`.
pub open spec fn env_name(v: Seq<char>) -> Seq<char> {
    v.subrange(0, find_char(v, '=')->0)
}

/// What is wrong with one environment entry, if anything.
pub open spec fn env_fault(v: Seq<char>) -> Option<EnvErrorView> {
    match find_char(v, '=') {
        None => Some(EnvErrorView::MissingSeparator),
        Some(k) => if env_name_valid(v.subrange(0, k)) {
            None
        } else {
            Some(EnvErrorView::InvalidName(v.subrange(0, k)))
        },
    }
}

fn name_valid(name: &Vec<char>) -> (b: bool)
    ensures
        b == env_name_valid(name@),
{
    if name.len() == 0 {
        return false;
    }
    let mut i: usize = 0;
    while i < name.len()
        invariant
            i <= name@.len(),
            forall|k: int| 0 <= k < i ==> {
                let c = #[trigger] name@[k];
                c == '_' || ascii_alpha(c) || (k > 0 && ascii_digit(c))
            },
        decreases name@.len() - i,
    {
        let c = name[i];
        let ok = c == '_' || ('a' <= c && c <= 'z') || ('A' <= c && c <= 'Z') || (i > 0 && '0' <= c && c <= '9');
        if !ok {
            assert(!({
                let c = name@[i as int];
                c == '_' || ascii_alpha(c) || (i > 0 && ascii_digit(c))
            }));
            return false;
        }
        i = i + 1;
    }
    true
}

/// An environment entry is accepted exactly when it holds a `=` and the
/// name before its first `=` is not empty and made of `_`, ASCII letters of
/// either case and, after its first character, ASCII digits.  An entry
/// without `=` is refused as such; any other refused entry is refused for
/// its name, the text before its first `=`.
pub proof fn law_env_entry(v: Seq<char>)
    ensures
        env_fault(v) == Some(EnvErrorView::MissingSeparator) <==> forall|j: int| 0 <= j < v.len() ==> v[j] != '=',
        env_fault(v) matches Some(EnvErrorView::InvalidName(n)) ==> n.len() < v.len() && v[n.len() as int] == '='
            && n == v.subrange(0, n.len() as int) && forall|j: int| 0 <= j < n.len() ==> n[j] != '=',
        env_fault(v) is None <==> exists|k: int| #![trigger v[k]]
            0 < k < v.len() && v[k] == '=' && (forall|j: int| 0 <= j < k ==> v[j] != '=')
            && forall|i: int| 0 <= i < k ==> {
                let c = #[trigger] v[i];
                c == '_' || ('a' <= c && c <= 'z') || ('A' <= c && c <= 'Z') || (i > 0 && '0' <= c && c <= '9')
            },
{
    crate::text::lemma_find_char(v, '=');
    match find_char(v, '=') {
        Some(k) => {
            let name = v.subrange(0, k);
            assert forall|i: int| 0 <= i < k implies name[i] == v[i] by {}
            if env_fault(v) is None {
                assert(v[k] == '=');
                assert forall|i: int| 0 <= i < k implies {
                    let c = #[trigger] v[i];
                    c == '_' || ('a' <= c && c <= 'z') || ('A' <= c && c <= 'Z') || (i > 0 && '0' <= c && c <= '9')
                } by {
                    assert(name[i] == v[i]);
                }
            } else {
                if exists|k2: int| #![trigger v[k2]]
                    0 < k2 < v.len() && v[k2] == '=' && (forall|j: int| 0 <= j < k2 ==> v[j] != '=')
                    && forall|i: int| 0 <= i < k2 ==> {
                        let c = #[trigger] v[i];
                        c == '_' || ('a' <= c && c <= 'z') || ('A' <= c && c <= 'Z') || (i > 0 && '0' <= c && c <= '9')
                    } {
                    let k2 = choose|k2: int| #![trigger v[k2]]
                        0 < k2 < v.len() && v[k2] == '=' && (forall|j: int| 0 <= j < k2 ==> v[j] != '=')
                        && forall|i: int| 0 <= i < k2 ==> {
                            let c = #[trigger] v[i];
                            c == '_' || ('a' <= c && c <= 'z') || ('A' <= c && c <= 'Z') || (i > 0 && '0' <= c && c <= '9')
                        };
                    if k2 < k {
                        assert(v[k2] != '=');
                    } else if k < k2 {
                        assert(v[k] != '=');
                    }
                    assert(k2 == k);
                    assert(env_name_valid(name)) by {
                        assert forall|i: int| 0 <= i < name.len() implies {
                            let c = #[trigger] name[i];
                            c == '_' || ascii_alpha(c) || (i > 0 && ascii_digit(c))
                        } by {
                            assert(name[i] == v[i]);
                        }
                    }
                }
            }
        },
        None => {
            if exists|k2: int| #![trigger v[k2]] 0 < k2 < v.len() && v[k2] == '=' {
                let k2 = choose|k2: int| #![trigger v[k2]] 0 < k2 < v.len() && v[k2] == '=';
                assert(v[k2] != '=');
            }
        },
    }
}

/// Checks one `NAME=VALUE` entry.
pub fn validate_env(value: &str) -> (r: Result<(), EnvError>)
    ensures
        r is Ok <==> env_fault(value@) is None,
        r matches Err(e) ==> env_fault(value@) == Some(e@),
{
    let cs = chars_of(value);
    match find_char_in(cs.as_slice(), '=') {
        None => Err(EnvError::MissingSeparator),
        Some(k) => {
            let name = slice_chars(cs.as_slice(), 0, k);
            if name_valid(&name) {
                Ok(())
            } else {
                Err(EnvError::InvalidName(string_of(name.as_slice())))
            }
        },
    }
}

// ---------------------------------------------------------------------------
// Requests

/// Why a tool-call request was refused.
#[derive(Debug)]
pub enum RequestError {
    /// `command must not be empty`
    EmptyCommand,
    /// `timeout_ms must be between 1 and 3600000`
    BadTimeout,
    /// `cwd must be a normalized absolute sandbox path`
    BadCwd,
    /// An environment entry was refused.
    Env(EnvError),
}

pub enum RequestFault {
    EmptyCommand,
    BadTimeout,
    BadCwd,
    Env(EnvErrorView),
}

impl View for RequestError {
    type V = RequestFault;

    open spec fn view(&self) -> RequestFault {
        match self {
            RequestError::EmptyCommand => RequestFault::EmptyCommand,
            RequestError::BadTimeout => RequestFault::BadTimeout,
            RequestError::BadCwd => RequestFault::BadCwd,
            RequestError::Env(e) => RequestFault::Env(e@),
        }
    }
}

/// A working directory for a tool call: absolute, with no `..` segment.
pub open spec fn cwd_ok(cwd: Seq<char>) -> bool {
    cwd.len() > 0 && cwd[0] == '/' && !split_on(cwd, '/').contains(seq!['.', '.'])
}

pub open spec fn env_entry_checker() -> spec_fn(Seq<char>, int) -> Option<EnvErrorView> {
    |v: Seq<char>, i: int| env_fault(v)
}

/// The first fault among environment entries.
pub open spec fn env_list_fault(values: Seq<Seq<char>>) -> Option<EnvErrorView> {
    first_fault(values, values.len() as int, env_entry_checker())
}

/// The first reason to refuse a tool call: no command, a time limit
/// outside one millisecond to one hour, a bad working directory, a bad
/// environment entry.
pub open spec fn request_fault(r: ExecRequest) -> Option<RequestFault> {
    if r.command@.len() == 0 {
        Some(RequestFault::EmptyCommand)
    } else if r.timeout_ms == 0 || r.timeout_ms > 3_600_000 {
        Some(RequestFault::BadTimeout)
    } else if r.cwd matches Some(c) && !cwd_ok(c@) {
        Some(RequestFault::BadCwd)
    } else {
        match env_list_fault(strings_view(r.env@)) {
            Some(e) => Some(RequestFault::Env(e)),
            None => None,
        }
    }
}

fn cwd_valid(cwd: &str) -> (b: bool)
    ensures
        b == cwd_ok(cwd@),
{
    let cs = chars_of(cwd);
    if cs.len() == 0 || cs[0] != '/' {
        return false;
    }
    let parts = split_chars(cs.as_slice(), '/');
    let ghost ps = seqs_of(parts@);
    let mut i: usize = 0;
    while i < parts.len()
        invariant
            ps == seqs_of(parts@),
            ps == split_on(cwd@, '/'),
            cwd@.len() > 0 && cwd@[0] == '/',
            i <= parts@.len(),
            forall|k: int| 0 <= k < i ==> ps[k] != seq!['.', '.'],
        decreases parts@.len() - i,
    {
        let p = &parts[i];
        assert(ps[i as int] == p@);
        if p.len() == 2 && p[0] == '.' && p[1] == '.' {
            assert(p@ =~= seq!['.', '.']);
            assert(ps[i as int] == seq!['.', '.']);
            assert(ps.contains(seq!['.', '.']));
            return false;
        }
        assert(p@ != seq!['.', '.']);
        i = i + 1;
    }
    true
}

/// Checks every environment entry in order.
pub fn validate_env_list(values: &Vec<String>) -> (r: Result<(), EnvError>)
    ensures
        r is Ok <==> env_list_fault(strings_view(values@)) is None,
        r matches Err(e) ==> env_list_fault(strings_view(values@)) == Some(e@),
{
    let ghost vs = strings_view(values@);
    let mut i: usize = 0;
    while i < values.len()
        invariant
            vs == strings_view(values@),
            i <= values@.len(),
            first_fault(vs, i as int, env_entry_checker()) is None,
        decreases values@.len() - i,
    {
        assert(vs[i as int] == values@[i as int]@);
        match validate_env(values[i].as_str()) {
            Err(e) => {
                proof {
                    lemma_first_fault_stable(vs, i + 1, vs.len() as int, env_entry_checker());
                }
                return Err(e);
            },
            Ok(()) => {},
        }
        i = i + 1;
    }
    Ok(())
}

/// Checks a tool-call request before anything is started for it.
pub fn validate_request(request: &ExecRequest) -> (r: Result<(), RequestError>)
    ensures
        r is Ok <==> request_fault(*request) is None,
        r matches Err(e) ==> request_fault(*request) == Some(e@),
{
    if request.command.len() == 0 {
        return Err(RequestError::EmptyCommand);
    }
    if request.timeout_ms == 0 || request.timeout_ms > 3_600_000 {
        return Err(RequestError::BadTimeout);
    }
    if let Some(cwd) = &request.cwd {
        if !cwd_valid(cwd.as_str()) {
            return Err(RequestError::BadCwd);
        }
    }
    match validate_env_list(&request.env) {
        Err(e) => Err(RequestError::Env(e)),
        Ok(()) => Ok(()),
    }
}

// ---------------------------------------------------------------------------
// Exit codes and output

/// The exit code of a tool call's process: its own, 128 plus the signal
/// that killed it, and 125 otherwise.
pub open spec fn task_exit_code(status: WaitOutcome) -> int {
    match status {
        WaitOutcome::Exited(code) => code as int,
        WaitOutcome::Signaled(signal) => 128 + signal,
        WaitOutcome::Other => 125,
    }
}

pub fn exit_code(status: WaitOutcome) -> (code: i32)
    requires
        status matches WaitOutcome::Signaled(s) ==> s <= i32::MAX - 128,
    ensures
        code == task_exit_code(status),
{
    match status {
        WaitOutcome::Exited(code) => code,
        WaitOutcome::Signaled(signal) => 128 + signal,
        WaitOutcome::Other => 125,
    }
}

/// The exit code reported for a tool call: 124 when it timed out.
pub fn response_exit_code(timed_out: bool, status: WaitOutcome) -> (code: i32)
    requires
        status matches WaitOutcome::Signaled(s) ==> s <= i32::MAX - 128,
    ensures
        code == (if timed_out { 124 } else { task_exit_code(status) }),
{
    if timed_out {
        124
    } else {
        exit_code(status)
    }
}

/// Keeps what fits of a chunk of output under [`MAX_OUTPUT_BYTES`];
/// answers whether any of it was cut.
pub fn append_bounded(output: &mut Vec<u8>, chunk: &[u8]) -> (truncated: bool)
    ensures
        ({
            let room = if old(output)@.len() >= MAX_OUTPUT_BYTES { 0 } else { MAX_OUTPUT_BYTES - old(output)@.len() };
            let kept = if chunk@.len() <= room { chunk@.len() as int } else { room };
            &&& final(output)@ == old(output)@ + chunk@.subrange(0, kept)
            &&& truncated == (chunk@.len() > room)
        }),
{
    let remaining: usize = if output.len() >= MAX_OUTPUT_BYTES { 0 } else { MAX_OUTPUT_BYTES - output.len() };
    let take: usize = if chunk.len() <= remaining { chunk.len() } else { remaining };
    let ghost before = output@;
    let mut i: usize = 0;
    while i < take
        invariant
            take <= chunk@.len(),
            i <= take,
            output@ == before + chunk@.subrange(0, i as int),
        decreases take - i,
    {
        output.push(chunk[i]);
        i = i + 1;
        assert(chunk@.subrange(0, i as int) == chunk@.subrange(0, i - 1).push(chunk@[i - 1]));
    }
    chunk.len() > remaining
}

/// Output kept across chunks never grows past the limit.
pub proof fn law_output_bounded(before: Seq<u8>, chunk: Seq<u8>)
    requires
        before.len() <= MAX_OUTPUT_BYTES,
    ensures
        ({
            let room = MAX_OUTPUT_BYTES - before.len();
            let kept = if chunk.len() <= room { chunk.len() as int } else { room };
            (before + chunk.subrange(0, kept)).len() <= MAX_OUTPUT_BYTES
        }),
{
}


// ---------------------------------------------------------------------------
// Merging environments

/// `a` sorts before `b` in `String` order.  Strings compare by their UTF-8
/// bytes, and UTF-8 keeps the order of code points, so this is the
/// lexicographic order of the characters.
pub open spec fn lex_lt(a: Seq<char>, b: Seq<char>) -> bool
    decreases a.len(),
{
    if a.len() == 0 {
        b.len() > 0
    } else if b.len() == 0 {
        false
    } else if a[0] != b[0] {
        a[0] < b[0]
    } else {
        lex_lt(a.drop_first(), b.drop_first())
    }
}

pub proof fn lemma_lex_irreflexive(a: Seq<char>)
    ensures
        !lex_lt(a, a),
    decreases a.len(),
{
    if a.len() > 0 {
        lemma_lex_irreflexive(a.drop_first());
    }
}

pub proof fn lemma_lex_asymmetric(a: Seq<char>, b: Seq<char>)
    requires
        lex_lt(a, b),
    ensures
        !lex_lt(b, a),
    decreases a.len(),
{
    if a.len() > 0 && b.len() > 0 && a[0] == b[0] {
        lemma_lex_asymmetric(a.drop_first(), b.drop_first());
    }
}

pub proof fn lemma_lex_transitive(a: Seq<char>, b: Seq<char>, c: Seq<char>)
    requires
        lex_lt(a, b),
        lex_lt(b, c),
    ensures
        lex_lt(a, c),
    decreases a.len(),
{
    if a.len() > 0 && b.len() > 0 && c.len() > 0 && a[0] == b[0] && b[0] == c[0] {
        lemma_lex_transitive(a.drop_first(), b.drop_first(), c.drop_first());
    }
}

pub proof fn lemma_lex_total(a: Seq<char>, b: Seq<char>)
    requires
        a != b,
    ensures
        lex_lt(a, b) || lex_lt(b, a),
    decreases a.len(),
{
    if a.len() > 0 && b.len() > 0 && a[0] == b[0] {
        if a.drop_first() == b.drop_first() {
            assert(a =~= seq![a[0]] + a.drop_first());
            assert(b =~= seq![b[0]] + b.drop_first());
        }
        lemma_lex_total(a.drop_first(), b.drop_first());
    } else if a.len() == 0 && b.len() == 0 {
        assert(a =~= b);
    }
}

/// Whether `a` sorts before `b`.
pub fn lex_less(a: &[char], b: &[char]) -> (r: bool)
    ensures
        r == lex_lt(a@, b@),
{
    let mut i: usize = 0;
    assert(a@.skip(0) =~= a@);
    assert(b@.skip(0) =~= b@);
    while i < a.len() && i < b.len()
        invariant
            i <= a@.len(),
            i <= b@.len(),
            lex_lt(a@, b@) == lex_lt(a@.skip(i as int), b@.skip(i as int)),
        decreases a@.len() - i,
    {
        if a[i] != b[i] {
            return a[i] < b[i];
        }
        assert(a@.skip(i as int).drop_first() =~= a@.skip(i + 1));
        assert(b@.skip(i as int).drop_first() =~= b@.skip(i + 1));
        i = i + 1;
    }
    a.len() < b.len()
}

/// The last entry of `entries` that sets the variable `n`.
pub open spec fn last_entry(entries: Seq<Seq<char>>, n: Seq<char>) -> Option<Seq<char>>
    decreases entries.len(),
{
    if entries.len() == 0 {
        None
    } else if env_name(entries.last()) == n {
        Some(entries.last())
    } else {
        last_entry(entries.drop_last(), n)
    }
}

/// `r` is the merged environment of `entries`: one entry per variable, the
/// last one that sets it, ordered by variable name.
pub open spec fn merged(r: Seq<Seq<char>>, entries: Seq<Seq<char>>) -> bool {
    &&& forall|i: int, j: int| 0 <= i < j < r.len() ==> lex_lt(env_name(#[trigger] r[i]), env_name(#[trigger] r[j]))
    &&& forall|i: int| 0 <= i < r.len() ==> last_entry(entries, env_name(#[trigger] r[i])) == Some(r[i])
    &&& forall|k: int| #![trigger entries[k]] 0 <= k < entries.len() ==> exists|i: int| 0 <= i < r.len() && env_name(#[trigger] r[i]) == env_name(entries[k])
}

proof fn lemma_last_entry_push(entries: Seq<Seq<char>>, x: Seq<char>, n: Seq<char>)
    ensures
        last_entry(entries.push(x), n) == (if env_name(x) == n { Some(x) } else { last_entry(entries, n) }),
{
    assert(entries.push(x).drop_last() =~= entries);
}

proof fn lemma_last_entry_has_name(entries: Seq<Seq<char>>, n: Seq<char>)
    ensures
        last_entry(entries, n) matches Some(v) ==> env_name(v) == n,
    decreases entries.len(),
{
    if entries.len() > 0 {
        lemma_last_entry_has_name(entries.drop_last(), n);
    }
}

fn name_of(v: &String) -> (n: Vec<char>)
    requires
        find_char(v@, '=') is Some,
    ensures
        n@ == env_name(v@),
{
    let cs = chars_of(v.as_str());
    match find_char_in(cs.as_slice(), '=') {
        Some(k) => slice_chars(cs.as_slice(), 0, k),
        None => {
            proof {
                assert(false);
            }
            Vec::new()
        },
    }
}

proof fn lemma_merge_replace(before: Seq<Seq<char>>, entries: Seq<Seq<char>>, x: Seq<char>, j: int)
    requires
        merged(before, entries),
        0 <= j < before.len(),
        env_name(before[j]) == env_name(x),
    ensures
        merged(before.update(j, x), entries.push(x)),
{
    let next = entries.push(x);
    let after = before.update(j, x);
    let n = env_name(x);
    assert forall|m: Seq<char>| #[trigger] last_entry(next, m) == (if n == m { Some(x) } else { last_entry(entries, m) }) by {
        lemma_last_entry_push(entries, x, m);
    }
    assert forall|a: int, b: int| 0 <= a < b < after.len() implies lex_lt(env_name(#[trigger] after[a]), env_name(#[trigger] after[b])) by {
        assert(lex_lt(env_name(before[a]), env_name(before[b])));
    }
    assert forall|i: int| 0 <= i < after.len() implies last_entry(next, env_name(#[trigger] after[i])) == Some(after[i]) by {
        if i != j {
            assert(after[i] == before[i]);
            if env_name(before[i]) == n {
                if i < j {
                    assert(lex_lt(env_name(before[i]), env_name(before[j])));
                } else {
                    assert(lex_lt(env_name(before[j]), env_name(before[i])));
                }
                lemma_lex_irreflexive(n);
            }
        }
    }
    assert forall|k: int| #![trigger next[k]] 0 <= k < next.len() implies exists|i: int| 0 <= i < after.len() && env_name(#[trigger] after[i]) == env_name(next[k]) by {
        if k < entries.len() {
            assert(next[k] == entries[k]);
            let i = choose|i: int| 0 <= i < before.len() && env_name(#[trigger] before[i]) == env_name(entries[k]);
            assert(env_name(after[i]) == env_name(before[i]));
        } else {
            assert(env_name(after[j]) == env_name(next[k]));
        }
    }
}

proof fn lemma_merge_insert(before: Seq<Seq<char>>, entries: Seq<Seq<char>>, x: Seq<char>, pos: int)
    requires
        merged(before, entries),
        0 <= pos <= before.len(),
        forall|m: int| 0 <= m < pos ==> lex_lt(env_name(#[trigger] before[m]), env_name(x)),
        pos < before.len() ==> lex_lt(env_name(x), env_name(before[pos])),
    ensures
        merged(before.insert(pos, x), entries.push(x)),
{
    let next = entries.push(x);
    let after = before.insert(pos, x);
    let n = env_name(x);
    assert forall|m: Seq<char>| #[trigger] last_entry(next, m) == (if n == m { Some(x) } else { last_entry(entries, m) }) by {
        lemma_last_entry_push(entries, x, m);
    }
    assert forall|a: int, b: int| 0 <= a < b < after.len() implies lex_lt(env_name(#[trigger] after[a]), env_name(#[trigger] after[b])) by {
        if b < pos {
            assert(lex_lt(env_name(before[a]), env_name(before[b])));
        } else if b == pos {
            assert(lex_lt(env_name(before[a]), n));
        } else if a == pos {
            assert(after[b] == before[b - 1]);
            if b - 1 != pos {
                assert(lex_lt(env_name(before[pos]), env_name(before[b - 1])));
                lemma_lex_transitive(n, env_name(before[pos]), env_name(before[b - 1]));
            }
        } else if a < pos {
            assert(after[b] == before[b - 1]);
            assert(lex_lt(env_name(before[a]), env_name(before[b - 1])));
        } else {
            assert(after[a] == before[a - 1]);
            assert(after[b] == before[b - 1]);
            assert(lex_lt(env_name(before[a - 1]), env_name(before[b - 1])));
        }
    }
    assert forall|i: int| 0 <= i < after.len() implies last_entry(next, env_name(#[trigger] after[i])) == Some(after[i]) by {
        if i != pos {
            let i0 = if i < pos { i } else { i - 1 };
            assert(after[i] == before[i0]);
            if env_name(before[i0]) == n {
                if i0 < pos {
                    assert(lex_lt(env_name(before[i0]), n));
                    lemma_lex_irreflexive(n);
                } else if i0 == pos {
                    lemma_lex_irreflexive(n);
                } else {
                    assert(lex_lt(env_name(before[pos]), env_name(before[i0])));
                    lemma_lex_asymmetric(n, env_name(before[pos]));
                }
            }
        }
    }
    assert forall|k: int| #![trigger next[k]] 0 <= k < next.len() implies exists|i: int| 0 <= i < after.len() && env_name(#[trigger] after[i]) == env_name(next[k]) by {
        if k < entries.len() {
            assert(next[k] == entries[k]);
            let i = choose|i: int| 0 <= i < before.len() && env_name(#[trigger] before[i]) == env_name(entries[k]);
            let i1 = if i < pos { i } else { i + 1 };
            assert(after[i1] == before[i]);
        } else {
            assert(after[pos] == x);
        }
    }
}

/// Where a name belongs in a list of names in strict order: the position of
/// an equal name, or the first position of a larger one.
fn locate(names: &Vec<Vec<char>>, n: &Vec<char>) -> (r: (usize, bool))
    ensures
        r.0 <= names@.len(),
        forall|m: int| 0 <= m < r.0 ==> lex_lt((#[trigger] names@[m])@, n@),
        r.1 == (r.0 < names@.len() && names@[r.0 as int]@ == n@),
        (!r.1 && r.0 < names@.len()) ==> lex_lt(n@, names@[r.0 as int]@),
{
    let mut j: usize = 0;
    while j < names.len()
        invariant
            j <= names@.len(),
            forall|m: int| 0 <= m < j ==> lex_lt((#[trigger] names@[m])@, n@),
        decreases names@.len() - j,
    {
        if crate::text::chars_eq(names[j].as_slice(), n.as_slice()) {
            return (j, true);
        }
        if lex_less(n.as_slice(), names[j].as_slice()) {
            return (j, false);
        }
        proof {
            lemma_lex_total(names@[j as int]@, n@);
        }
        j = j + 1;
    }
    (j, false)
}

/// Puts `x` into a merged environment, replacing the entry of the same
/// variable or inserting it in name order.
fn merge_one(out: &mut Vec<String>, names: &mut Vec<Vec<char>>, x: &String, Ghost(entries): Ghost<Seq<Seq<char>>>)
    requires
        merged(strings_view(old(out)@), entries),
        old(names)@.len() == old(out)@.len(),
        forall|i: int| 0 <= i < old(out)@.len() ==> (#[trigger] old(names)@[i])@ == env_name(old(out)@[i]@),
        find_char(x@, '=') is Some,
    ensures
        merged(strings_view(final(out)@), entries.push(x@)),
        final(names)@.len() == final(out)@.len(),
        forall|i: int| 0 <= i < final(out)@.len() ==> (#[trigger] final(names)@[i])@ == env_name(final(out)@[i]@),
{
    let n = name_of(x);
    let ghost before = strings_view(out@);
    let ghost nv = names@;
    let (j, found) = locate(names, &n);
    proof {
        assert forall|m: int| 0 <= m < j implies lex_lt(env_name(#[trigger] before[m]), env_name(x@)) by {
            assert(nv[m]@ == env_name(before[m]));
        }
    }
    if found {
        out.set(j, x.clone());
        names.set(j, n);
        proof {
            lemma_merge_replace(before, entries, x@, j as int);
            assert(strings_view(out@) =~= before.update(j as int, x@));
            assert forall|i: int| 0 <= i < out@.len() implies (#[trigger] names@[i])@ == env_name(out@[i]@) by {
                if i != j {
                    assert(names@[i] == nv[i]);
                }
            }
        }
    } else {
        out.insert(j, x.clone());
        names.insert(j, n);
        proof {
            lemma_merge_insert(before, entries, x@, j as int);
            assert(strings_view(out@) =~= before.insert(j as int, x@));
            assert forall|i: int| 0 <= i < out@.len() implies (#[trigger] names@[i])@ == env_name(out@[i]@) by {
                if i < j {
                    assert(names@[i] == nv[i]);
                } else if i > j {
                    assert(names@[i] == nv[i - 1]);
                }
            }
        }
    }
}

/// The environment of a tool call: the task's base entries, then the
/// call's own, one entry per variable with the last one winning, ordered by
/// variable name.  Every entry must be valid, base first.
pub fn merge_environment(base: &Vec<String>, delta: &Vec<String>) -> (r: Result<Vec<String>, EnvError>)
    requires
        base@.len() + delta@.len() <= usize::MAX,
    ensures
        r is Ok <==> env_list_fault(strings_view(base@) + strings_view(delta@)) is None,
        r matches Err(e) ==> env_list_fault(strings_view(base@) + strings_view(delta@)) == Some(e@),
        r matches Ok(v) ==> merged(strings_view(v@), strings_view(base@) + strings_view(delta@)),
{
    let ghost all = strings_view(base@) + strings_view(delta@);
    let mut out: Vec<String> = Vec::new();
    let mut names: Vec<Vec<char>> = Vec::new();
    let mut k: usize = 0;
    let total = base.len() + delta.len();
    while k < total
        invariant
            all == strings_view(base@) + strings_view(delta@),
            total == all.len(),
            k <= total,
            first_fault(all, k as int, env_entry_checker()) is None,
            merged(strings_view(out@), all.subrange(0, k as int)),
            names@.len() == out@.len(),
            forall|i: int| 0 <= i < out@.len() ==> (#[trigger] names@[i])@ == env_name(out@[i]@),
        decreases total - k,
    {
        let x: &String = if k < base.len() { &base[k] } else { &delta[k - base.len()] };
        assert(all[k as int] == x@);
        match validate_env(x.as_str()) {
            Err(e) => {
                proof {
                    lemma_first_fault_stable(all, k + 1, all.len() as int, env_entry_checker());
                }
                return Err(e);
            },
            Ok(()) => {},
        }
        assert(all.subrange(0, k + 1) =~= all.subrange(0, k as int).push(x@));
        merge_one(&mut out, &mut names, x, Ghost(all.subrange(0, k as int)));
        k = k + 1;
    }
    assert(all.subrange(0, total as int) =~= all);
    Ok(out)
}

/// The task's environment loses to the call's: a variable that the call
/// sets takes the call's last value for it, whatever the base said.
pub proof fn law_delta_overrides_base(base: Seq<Seq<char>>, delta: Seq<Seq<char>>, n: Seq<char>)
    requires
        last_entry(delta, n) is Some,
    ensures
        last_entry(base + delta, n) == last_entry(delta, n),
    decreases delta.len(),
{
    if delta.len() > 0 {
        assert((base + delta).drop_last() =~= base + delta.drop_last());
        assert((base + delta).last() == delta.last());
        if env_name(delta.last()) != n {
            law_delta_overrides_base(base, delta.drop_last(), n);
        }
    }
}


// ---------------------------------------------------------------------------
// Finding the program of a tool call

/// The search path of an environment: the value of its last `PATH=`
/// entry, or `/usr/bin:/bin`.
pub open spec fn search_path(env: Seq<Seq<char>>) -> Seq<char>
    decreases env.len(),
{
    if env.len() == 0 {
        "/usr/bin:/bin"@
    } else if crate::text::starts_with(env.last(), "PATH="@) {
        env.last().subrange(5, env.last().len() as int)
    } else {
        search_path(env.drop_last())
    }
}

/// The paths tried for `command` in the directories `dirs`, skipping empty
/// directory names.
pub open spec fn candidates_in(dirs: Seq<Seq<char>>, command: Seq<char>) -> Seq<Seq<char>>
    decreases dirs.len(),
{
    if dirs.len() == 0 {
        Seq::empty()
    } else if dirs.last().len() == 0 {
        candidates_in(dirs.drop_last(), command)
    } else {
        candidates_in(dirs.drop_last(), command).push(crate::paths::join(dirs.last(), command))
    }
}

/// The paths tried, in order, for a command without a `/`.
pub open spec fn program_candidates(command: Seq<char>, env: Seq<Seq<char>>) -> Seq<Seq<char>> {
    candidates_in(split_on(search_path(env), ':'), command)
}

/// Why no program was found.
#[derive(Debug)]
pub struct ProgramNotFound {
    pub command: String,
}

impl ProgramNotFound {
    /// `command not found in task PATH: <command>`
    pub fn message(&self) -> (m: String)
        ensures
            m@ == "command not found in task PATH: "@ + self.command@,
    {
        crate::text::concat("command not found in task PATH: ", self.command.as_str())
    }
}

fn find_search_path(env: &Vec<String>) -> (p: String)
    ensures
        p@ == search_path(strings_view(env@)),
{
    let ghost ev = strings_view(env@);
    let prefix = chars_of("PATH=");
    proof {
        reveal_strlit("PATH=");
    }
    let mut i: usize = env.len();
    assert(ev.subrange(0, ev.len() as int) == ev);
    while i > 0
        invariant
            ev == strings_view(env@),
            prefix@ == "PATH="@,
            prefix@.len() == 5,
            i <= env@.len(),
            search_path(ev) == search_path(ev.subrange(0, i as int)),
        decreases i,
    {
        let cs = chars_of(env[i - 1].as_str());
        let ghost sub = ev.subrange(0, i as int);
        assert(sub.last() == cs@);
        assert(sub.drop_last() == ev.subrange(0, i - 1));
        if crate::text::starts_with_chars(cs.as_slice(), prefix.as_slice()) {
            let v = slice_chars(cs.as_slice(), 5, cs.len());
            return string_of(v.as_slice());
        }
        i = i - 1;
    }
    "/usr/bin:/bin".to_owned()
}

/// The paths tried, in order, for a command without a `/`.
pub fn candidates(command: &str, env: &Vec<String>) -> (v: Vec<String>)
    ensures
        strings_view(v@) == program_candidates(command@, strings_view(env@)),
{
    let path = find_search_path(env);
    let pc = chars_of(path.as_str());
    let dirs = split_chars(pc.as_slice(), ':');
    let ghost ds = seqs_of(dirs@);
    let mut out: Vec<String> = Vec::new();
    let mut i: usize = 0;
    while i < dirs.len()
        invariant
            ds == seqs_of(dirs@),
            ds == split_on(search_path(strings_view(env@)), ':'),
            i <= dirs@.len(),
            strings_view(out@) == candidates_in(ds.subrange(0, i as int), command@),
        decreases dirs@.len() - i,
    {
        let ghost sub = ds.subrange(0, i + 1);
        assert(sub.drop_last() == ds.subrange(0, i as int));
        assert(sub.last() == dirs@[i as int]@);
        if dirs[i].len() > 0 {
            let d = string_of(dirs[i].as_slice());
            let c = crate::paths::join_path(d.as_str(), command);
            let ghost before = strings_view(out@);
            out.push(c);
            assert(strings_view(out@) == before.push(c@));
        }
        i = i + 1;
    }
    assert(ds.subrange(0, ds.len() as int) == ds);
    out
}

/// The position of the first `true` answer, if any.
pub open spec fn first_true(found: Seq<bool>) -> Option<int>
    decreases found.len(),
{
    if found.len() == 0 {
        None
    } else {
        match first_true(found.drop_last()) {
            Some(i) => Some(i),
            None => if found.last() { Some(found.len() - 1) } else { None },
        }
    }
}

proof fn lemma_first_true_push(found: Seq<bool>, b: bool)
    requires
        first_true(found) is None,
    ensures
        first_true(found.push(b)) == (if b { Some(found.len() as int) } else { None::<int> }),
{
    assert(found.push(b).drop_last() =~= found);
}

/// Picks the program among the candidates from the answers of whether each
/// is a regular file, in `PATH` order: the first candidate answered `true`.
pub fn pick_program(found: &Vec<bool>) -> (r: Option<usize>)
    ensures
        match r {
            Some(i) => first_true(found@) == Some(i as int),
            None => first_true(found@) is None,
        },
{
    let mut i: usize = 0;
    while i < found.len()
        invariant
            i <= found@.len(),
            first_true(found@.subrange(0, i as int)) is None,
        decreases found@.len() - i,
    {
        proof {
            assert(found@.subrange(0, i + 1) =~= found@.subrange(0, i as int).push(found@[i as int]));
            lemma_first_true_push(found@.subrange(0, i as int), found@[i as int]);
        }
        if found[i] {
            proof {
                lemma_first_true_prefix(found@, i + 1);
            }
            return Some(i);
        }
        i = i + 1;
    }
    assert(found@.subrange(0, found@.len() as int) =~= found@);
    None
}

proof fn lemma_first_true_bound(found: Seq<bool>)
    ensures
        first_true(found) matches Some(i) ==> 0 <= i < found.len(),
    decreases found.len(),
{
    if found.len() > 0 {
        lemma_first_true_bound(found.drop_last());
    }
}

proof fn lemma_first_true_prefix(found: Seq<bool>, k: int)
    requires
        0 <= k <= found.len(),
        first_true(found.subrange(0, k)) is Some,
    ensures
        first_true(found) == first_true(found.subrange(0, k)),
    decreases found.len() - k,
{
    if k < found.len() {
        assert(found.subrange(0, k + 1).drop_last() =~= found.subrange(0, k));
        lemma_first_true_prefix(found, k + 1);
    } else {
        assert(found.subrange(0, k) =~= found);
    }
}

/// The program a tool call runs: a command with a `/` as it is, otherwise
/// the first of its candidates that is a regular file when looked at.
/// Whatever the disk answers, the candidates are asked in order, up to the
/// first that is a file, and the answers decide as [`pick_program`] does.
pub fn resolve_program(command: &str, env: &Vec<String>) -> (r: Result<String, ProgramNotFound>)
    ensures
        crate::text::contains_char(command@, '/') ==> (r matches Ok(p) && p@ == command@),
        r matches Err(e) ==> e.command@ == command@ && !crate::text::contains_char(command@, '/'),
        !crate::text::contains_char(command@, '/') ==> exists|found: Seq<bool>| #![trigger first_true(found)] {
            let cands = program_candidates(command@, strings_view(env@));
            &&& found.len() <= cands.len()
            &&& match r {
                Ok(p) => first_true(found) matches Some(i) && p@ == cands[i],
                Err(_) => found.len() == cands.len() && first_true(found) is None,
            }
        },
{
    let cc = chars_of(command);
    if crate::text::contains_char_in(cc.as_slice(), '/') {
        return Ok(command.to_owned());
    }
    let cands = candidates(command, env);
    let ghost cv = strings_view(cands@);
    let mut found: Vec<bool> = Vec::new();
    let mut i: usize = 0;
    let mut done = false;
    while i < cands.len() && !done
        invariant
            cv == strings_view(cands@),
            cv == program_candidates(command@, strings_view(env@)),
            !crate::text::contains_char(command@, '/'),
            i <= cands@.len(),
            found@.len() == i,
            done ==> first_true(found@) is Some,
            !done ==> first_true(found@) is None,
        decreases cands@.len() - i,
    {
        let answer = crate::image::path_is_file(cands[i].as_str());
        proof {
            lemma_first_true_push(found@, answer);
        }
        found.push(answer);
        done = answer;
        i = i + 1;
    }
    proof {
        lemma_first_true_bound(found@);
    }
    match pick_program(&found) {
        Some(k) => {
            assert(cv[k as int] == cands@[k as int]@);
            Ok(cands[k].clone())
        },
        None => {
            assert(found@.len() == cands@.len());
            Err(ProgramNotFound { command: command.to_owned() })
        },
    }
}

// ---------------------------------------------------------------------------
// Task cgroups and keeper processes

/// Why a cgroup path is not one of a task's.
#[derive(Clone, Copy, PartialEq, Eq, Structural, Debug)]
pub enum CgroupPathError {
    /// `invalid task cgroup path`: the path names no directory.
    Invalid,
    /// `refusing to destroy an unrecognized task cgroup`
    Unrecognized,
}

/// The cgroup name of a task's cgroup path (`Path::file_name`), or why it
/// is not one: the path must be `/sys/fs/cgroup/tinybox-task-...`.
pub open spec fn task_cgroup_name(p: Seq<char>) -> Result<Seq<char>, CgroupPathError> {
    let c = crate::paths::path_components(p);
    if c.len() == 0 || !(c.last() is Normal) {
        Err(CgroupPathError::Invalid)
    } else if c.drop_last() != seq![
        crate::paths::PathPart::Root,
        crate::paths::PathPart::Normal("sys"@),
        crate::paths::PathPart::Normal("fs"@),
        crate::paths::PathPart::Normal("cgroup"@),
    ] || !crate::text::starts_with(c.last()->Normal_0, "tinybox-task-"@) {
        Err(CgroupPathError::Unrecognized)
    } else {
        Ok(c.last()->Normal_0)
    }
}

/// Checks that a path is a task's cgroup and gives its name.
pub fn validate_task_cgroup_path(cgroup_path: &str) -> (r: Result<String, CgroupPathError>)
    ensures
        r is Ok <==> task_cgroup_name(cgroup_path@) is Ok,
        r matches Ok(n) ==> task_cgroup_name(cgroup_path@) == Ok::<Seq<char>, CgroupPathError>(n@),
        r matches Err(e) ==> task_cgroup_name(cgroup_path@) == Err::<Seq<char>, CgroupPathError>(e),
{
    let cs = chars_of(cgroup_path);
    let parts = crate::paths::components(cs.as_slice());
    let ghost c = crate::paths::parts_of(parts@);
    assert(c.len() == parts@.len());
    if parts.len() == 0 {
        return Err(CgroupPathError::Invalid);
    }
    let last = parts.len() - 1;
    let name: Vec<char> = match &parts[last] {
        crate::paths::Component::Normal(v) => {
            assert(c.last() == crate::paths::PathPart::Normal(v@));
            let mut w: Vec<char> = Vec::new();
            let mut k: usize = 0;
            while k < v.len()
                invariant
                    k <= v@.len(),
                    w@ == v@.subrange(0, k as int),
                decreases v@.len() - k,
            {
                w.push(v[k]);
                k = k + 1;
            }
            assert(w@ == v@);
            w
        },
        _ => {
            return Err(CgroupPathError::Invalid);
        },
    };
    let ghost expected = seq![
        crate::paths::PathPart::Root,
        crate::paths::PathPart::Normal("sys"@),
        crate::paths::PathPart::Normal("fs"@),
        crate::paths::PathPart::Normal("cgroup"@),
    ];
    let mut parent_ok = parts.len() == 5;
    if parent_ok {
        let sys = chars_of("sys");
        let fs = chars_of("fs");
        let cg = chars_of("cgroup");
        parent_ok = match (&parts[0], &parts[1], &parts[2], &parts[3]) {
            (
                crate::paths::Component::RootDir,
                crate::paths::Component::Normal(a),
                crate::paths::Component::Normal(b),
                crate::paths::Component::Normal(d),
            ) => crate::text::chars_eq(a.as_slice(), sys.as_slice()) && crate::text::chars_eq(b.as_slice(), fs.as_slice())
                && crate::text::chars_eq(d.as_slice(), cg.as_slice()),
            _ => false,
        };
        proof {
            if parent_ok {
                assert(c.drop_last() =~= expected);
            } else {
                if c.drop_last() == expected {
                    assert(c.drop_last()[0] == c[0]);
                    assert(c.drop_last()[1] == c[1]);
                    assert(c.drop_last()[2] == c[2]);
                    assert(c.drop_last()[3] == c[3]);
                }
            }
        }
    } else {
        assert(c.drop_last().len() != 4);
    }
    let prefix = chars_of("tinybox-task-");
    if !parent_ok || !crate::text::starts_with_chars(name.as_slice(), prefix.as_slice()) {
        return Err(CgroupPathError::Unrecognized);
    }
    Ok(string_of(name.as_slice()))
}

/// Drops the `\r` of a line that ended in `\r\n`.
pub open spec fn strip_cr(p: Seq<char>) -> Seq<char> {
    if p.len() > 0 && p.last() == '\r' { p.drop_last() } else { p }
}

/// `str::lines`: the text split at `\n`, a final line ending ignored, and a
/// `\r` before a `\n` dropped.
pub open spec fn lines(s: Seq<char>) -> Seq<Seq<char>> {
    let parts = split_on(s, '\n');
    let n = if s.len() == 0 || s.last() == '\n' { parts.len() - 1 } else { parts.len() as int };
    Seq::new(n as nat, |i: int| if i < parts.len() - 1 { strip_cr(parts[i]) } else { parts[i] })
}

proof fn lemma_split_len(s: Seq<char>, sep: char, cur: Seq<char>)
    ensures
        crate::paths::split_from(s, sep, cur).len() >= 1,
    decreases s.len(),
{
    if s.len() > 0 {
        lemma_split_len(s.drop_first(), sep, Seq::empty());
        lemma_split_len(s.drop_first(), sep, cur.push(s[0]));
    }
}

/// The lines of a text.
pub fn lines_of(s: &str) -> (v: Vec<Vec<char>>)
    ensures
        seqs_of(v@) == lines(s@),
{
    let cs = chars_of(s);
    let parts = split_chars(cs.as_slice(), '\n');
    let ghost ps = seqs_of(parts@);
    proof {
        lemma_split_len(s@, '\n', Seq::empty());
    }
    let n: usize = if cs.len() == 0 || cs[cs.len() - 1] == '\n' { parts.len() - 1 } else { parts.len() };
    let mut out: Vec<Vec<char>> = Vec::new();
    let mut i: usize = 0;
    while i < n
        invariant
            ps == seqs_of(parts@),
            ps == split_on(s@, '\n'),
            n <= parts@.len(),
            n == (if s@.len() == 0 || s@.last() == '\n' { ps.len() - 1 } else { ps.len() as int }),
            i <= n,
            seqs_of(out@) == lines(s@).subrange(0, i as int),
        decreases n - i,
    {
        let p = &parts[i];
        assert(ps[i as int] == p@);
        let line: Vec<char> = if i + 1 < parts.len() && p.len() > 0 && p[p.len() - 1] == '\r' {
            slice_chars(p.as_slice(), 0, p.len() - 1)
        } else {
            slice_chars(p.as_slice(), 0, p.len())
        };
        assert(line@ == lines(s@)[i as int]);
        let ghost before = seqs_of(out@);
        out.push(line);
        assert(seqs_of(out@) == before.push(line@));
        assert(lines(s@).subrange(0, i + 1) == lines(s@).subrange(0, i as int).push(lines(s@)[i as int]));
        i = i + 1;
    }
    assert(lines(s@).subrange(0, n as int) == lines(s@));
    out
}

/// A process's cgroup membership (`/proc/<pid>/cgroup`) names the cgroup:
/// one of its lines ends with the name.
pub open spec fn in_cgroup(membership: Seq<char>, name: Seq<char>) -> bool {
    exists|i: int| 0 <= i < lines(membership).len() && crate::text::ends_with(#[trigger] lines(membership)[i], name)
}

pub fn member_of_cgroup(membership: &str, name: &str) -> (b: bool)
    ensures
        b == in_cgroup(membership@, name@),
{
    let ls = lines_of(membership);
    let nc = chars_of(name);
    let ghost lv = seqs_of(ls@);
    let mut i: usize = 0;
    while i < ls.len()
        invariant
            lv == seqs_of(ls@),
            lv == lines(membership@),
            nc@ == name@,
            i <= ls@.len(),
            forall|k: int| 0 <= k < i ==> !crate::text::ends_with(#[trigger] lv[k], name@),
        decreases ls@.len() - i,
    {
        assert(lv[i as int] == ls@[i as int]@);
        if crate::text::ends_with_chars(ls[i].as_slice(), nc.as_slice()) {
            return true;
        }
        i = i + 1;
    }
    false
}

/// A cgroup's `cgroup.events` says processes are still in it: one of its
/// lines is `populated 1`.
pub open spec fn populated(events: Seq<char>) -> bool {
    exists|i: int| 0 <= i < lines(events).len() && #[trigger] lines(events)[i] == "populated 1"@
}

pub fn is_populated(events: &str) -> (b: bool)
    ensures
        b == populated(events@),
{
    let ls = lines_of(events);
    let want = chars_of("populated 1");
    let ghost lv = seqs_of(ls@);
    let mut i: usize = 0;
    while i < ls.len()
        invariant
            lv == seqs_of(ls@),
            lv == lines(events@),
            want@ == "populated 1"@,
            i <= ls@.len(),
            forall|k: int| 0 <= k < i ==> #[trigger] lv[k] != "populated 1"@,
        decreases ls@.len() - i,
    {
        assert(lv[i as int] == ls@[i as int]@);
        if crate::text::chars_eq(ls[i].as_slice(), want.as_slice()) {
            return true;
        }
        i = i + 1;
    }
    false
}


// ---------------------------------------------------------------------------
// Process start times

/// `str::split_whitespace` from a partly read word `cur`: the maximal runs
/// of characters that are not white space.
pub open spec fn words_from(s: Seq<char>, cur: Seq<char>) -> Seq<Seq<char>>
    decreases s.len(),
{
    if s.len() == 0 {
        if cur.len() > 0 { seq![cur] } else { Seq::empty() }
    } else if crate::text::is_space(s[0]) {
        (if cur.len() > 0 { seq![cur] } else { Seq::empty() }) + words_from(s.drop_first(), Seq::empty())
    } else {
        words_from(s.drop_first(), cur.push(s[0]))
    }
}

pub open spec fn words(s: Seq<char>) -> Seq<Seq<char>> {
    words_from(s, Seq::empty())
}

/// The words of a character slice.
pub fn split_words(s: &[char]) -> (v: Vec<Vec<char>>)
    ensures
        seqs_of(v@) == words(s@),
{
    let mut out: Vec<Vec<char>> = Vec::new();
    let mut cur: Vec<char> = Vec::new();
    let mut i: usize = 0;
    assert(s@.subrange(0, s@.len() as int) == s@);
    while i < s.len()
        invariant
            i <= s@.len(),
            seqs_of(out@) + words_from(s@.subrange(i as int, s@.len() as int), cur@) == words(s@),
        decreases s@.len() - i,
    {
        let ghost rest = s@.subrange(i as int, s@.len() as int);
        assert(rest.drop_first() == s@.subrange(i + 1, s@.len() as int));
        assert(rest[0] == s@[i as int]);
        let ghost before = seqs_of(out@);
        let ghost c0 = cur@;
        if crate::text::is_space_char(s[i]) {
            assert(words_from(rest, c0) == (if c0.len() > 0 { seq![c0] } else { Seq::<Seq<char>>::empty() })
                + words_from(rest.drop_first(), Seq::empty()));
            if cur.len() > 0 {
                let ghost piece = cur@;
                out.push(cur);
                cur = Vec::new();
                proof {
                    assert(seqs_of(out@) == before.push(piece));
                    assert(before + (seq![piece] + words_from(rest.drop_first(), Seq::empty()))
                        == before.push(piece) + words_from(rest.drop_first(), Seq::empty()));
                    assert(seqs_of(out@) + words_from(rest.drop_first(), cur@) == words(s@));
                }
            } else {
                proof {
                    assert(Seq::<Seq<char>>::empty() + words_from(rest.drop_first(), Seq::empty())
                        == words_from(rest.drop_first(), Seq::empty()));
                    assert(cur@ == Seq::<char>::empty());
                    assert(seqs_of(out@) + words_from(rest.drop_first(), cur@) == words(s@));
                }
            }
        } else {
            assert(words_from(rest, c0) == words_from(rest.drop_first(), c0.push(s@[i as int])));
            cur.push(s[i]);
        }
        i = i + 1;
    }
    assert(s@.subrange(i as int, s@.len() as int) == Seq::<char>::empty());
    if cur.len() > 0 {
        let ghost before = seqs_of(out@);
        let ghost last = cur@;
        out.push(cur);
        assert(seqs_of(out@) == before.push(last));
    } else {
        assert(seqs_of(out@) + Seq::<Seq<char>>::empty() == seqs_of(out@));
    }
    out
}

/// Why a `/proc/<pid>/stat` line gave no start time.
#[derive(Clone, Copy, PartialEq, Eq, Structural, Debug)]
pub enum StatError {
    /// `malformed /proc pid stat: missing comm terminator`
    MissingCommTerminator,
    /// `malformed /proc pid stat: missing starttime`
    MissingStartTime,
    /// `invalid process starttime`
    InvalidStartTime,
}

/// The start time in a `/proc/<pid>/stat` line: the twentieth word after
/// the last `)` (the command name is parenthesized and may hold spaces),
/// parsed as a `u64`.
pub open spec fn stat_start_time(stat: Seq<char>) -> Result<u64, StatError> {
    match crate::text::rfind_char(stat, ')') {
        None => Err(StatError::MissingCommTerminator),
        Some(end) => {
            let fields = words(stat.subrange(end + 1, stat.len() as int));
            if fields.len() < 20 {
                Err(StatError::MissingStartTime)
            } else {
                match crate::text::parse_unsigned(fields[19], u64::MAX as nat) {
                    Some(v) => Ok(v as u64),
                    None => Err(StatError::InvalidStartTime),
                }
            }
        },
    }
}

/// Reads the start time of a process from its `/proc/<pid>/stat` line.
pub fn parse_start_time(stat: &str) -> (r: Result<u64, StatError>)
    ensures
        r == stat_start_time(stat@),
{
    let cs = chars_of(stat);
    let found = crate::text::rfind_char_in(cs.as_slice(), ')');
    let end = match found {
        None => {
            return Err(StatError::MissingCommTerminator);
        },
        Some(e) => e,
    };
    let n = cs.len();
    assert(end < n);
    let rest = slice_chars(cs.as_slice(), end + 1, n);
    let fields = split_words(rest.as_slice());
    assert(seqs_of(fields@).len() == fields@.len());
    if fields.len() < 20 {
        return Err(StatError::MissingStartTime);
    }
    assert(seqs_of(fields@)[19] == fields@[19]@);
    match crate::text::parse_unsigned_chars(fields[19].as_slice(), u64::MAX) {
        Some(v) => Ok(v),
        None => Err(StatError::InvalidStartTime),
    }
}

/// The text a [`CgroupPathError`] is reported with.
pub open spec fn cgroup_path_error_text(e: CgroupPathError) -> Seq<char> {
    match e {
        CgroupPathError::Invalid => "invalid task cgroup path"@,
        CgroupPathError::Unrecognized => "refusing to destroy an unrecognized task cgroup"@,
    }
}

impl CgroupPathError {
    /// The error text.
    pub fn message(&self) -> (m: String)
        ensures
            m@ == cgroup_path_error_text(*self),
    {
        match self {
            CgroupPathError::Invalid => "invalid task cgroup path".to_owned(),
            CgroupPathError::Unrecognized => "refusing to destroy an unrecognized task cgroup".to_owned(),
        }
    }
}

/// The text a [`StatError`] is reported with.
pub open spec fn stat_error_text(e: StatError) -> Seq<char> {
    match e {
        StatError::MissingCommTerminator => "malformed /proc pid stat: missing comm terminator"@,
        StatError::MissingStartTime => "malformed /proc pid stat: missing starttime"@,
        StatError::InvalidStartTime => "invalid process starttime"@,
    }
}

impl StatError {
    /// The error text.
    pub fn message(&self) -> (m: String)
        ensures
            m@ == stat_error_text(*self),
    {
        match self {
            StatError::MissingCommTerminator => "malformed /proc pid stat: missing comm terminator".to_owned(),
            StatError::MissingStartTime => "malformed /proc pid stat: missing starttime".to_owned(),
            StatError::InvalidStartTime => "invalid process starttime".to_owned(),
        }
    }
}

/// The text a refused tool call is reported with.
pub open spec fn request_error_text(e: RequestError) -> Seq<char> {
    match e {
        RequestError::EmptyCommand => "command must not be empty"@,
        RequestError::BadTimeout => "timeout_ms must be between 1 and 3600000"@,
        RequestError::BadCwd => "cwd must be a normalized absolute sandbox path"@,
        RequestError::Env(env) => match env@ {
            EnvErrorView::MissingSeparator => "environment entries must use NAME=VALUE"@,
            EnvErrorView::InvalidName(n) => "invalid environment variable name: "@ + n,
        },
    }
}

impl RequestError {
    /// The error text.
    pub fn message(&self) -> (m: String)
        ensures
            m@ == request_error_text(*self),
    {
        match self {
            RequestError::EmptyCommand => "command must not be empty".to_owned(),
            RequestError::BadTimeout => "timeout_ms must be between 1 and 3600000".to_owned(),
            RequestError::BadCwd => "cwd must be a normalized absolute sandbox path".to_owned(),
            RequestError::Env(env) => env.message(),
        }
    }
}

} // verus!
