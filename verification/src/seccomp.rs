//! The seccomp allow-list of sandboxed processes and the capabilities
//! they lose.
//!
//! Syscall numbers are those of x86-64 Linux, the one target whose C
//! library names every syscall on the list.
use vstd::prelude::*;


verus! {

/// The syscalls a sandboxed process may make unconditionally, in the order
/// they are registered.
pub const ALLOWED_SYSCALLS: [i64; 251] = [
    0, // read
    1, // write
    2, // open
    3, // close
    4, // stat
    5, // fstat
    6, // lstat
    7, // poll
    8, // lseek
    9, // mmap
    10, // mprotect
    11, // munmap
    12, // brk
    13, // rt_sigaction
    14, // rt_sigprocmask
    15, // rt_sigreturn
    16, // ioctl
    17, // pread64
    18, // pwrite64
    19, // readv
    20, // writev
    21, // access
    22, // pipe
    23, // select
    24, // sched_yield
    25, // mremap
    26, // msync
    27, // mincore
    28, // madvise
    32, // dup
    33, // dup2
    35, // nanosleep
    39, // getpid
    41, // socket
    42, // connect
    43, // accept
    44, // sendto
    45, // recvfrom
    46, // sendmsg
    47, // recvmsg
    48, // shutdown
    49, // bind
    50, // listen
    51, // getsockname
    52, // getpeername
    53, // socketpair
    54, // setsockopt
    55, // getsockopt
    57, // fork
    58, // vfork
    59, // execve
    60, // exit
    61, // wait4
    62, // kill
    63, // uname
    72, // fcntl
    73, // flock
    74, // fsync
    75, // fdatasync
    76, // truncate
    77, // ftruncate
    78, // getdents
    79, // getcwd
    80, // chdir
    81, // fchdir
    82, // rename
    83, // mkdir
    84, // rmdir
    85, // creat
    86, // link
    87, // unlink
    88, // symlink
    89, // readlink
    90, // chmod
    91, // fchmod
    92, // chown
    93, // fchown
    94, // lchown
    95, // umask
    96, // gettimeofday
    97, // getrlimit
    98, // getrusage
    99, // sysinfo
    100, // times
    102, // getuid
    104, // getgid
    105, // setuid
    106, // setgid
    107, // geteuid
    108, // getegid
    110, // getppid
    111, // getpgrp
    112, // setsid
    109, // setpgid
    115, // getgroups
    116, // setgroups
    117, // setresuid
    118, // getresuid
    119, // setresgid
    120, // getresgid
    121, // getpgid
    122, // setfsuid
    123, // setfsgid
    124, // getsid
    125, // capget
    126, // capset
    127, // rt_sigpending
    128, // rt_sigtimedwait
    129, // rt_sigqueueinfo
    130, // rt_sigsuspend
    131, // sigaltstack
    135, // personality
    137, // statfs
    138, // fstatfs
    140, // getpriority
    141, // setpriority
    142, // sched_setparam
    143, // sched_getparam
    144, // sched_setscheduler
    145, // sched_getscheduler
    146, // sched_get_priority_max
    147, // sched_get_priority_min
    148, // sched_rr_get_interval
    149, // mlock
    150, // munlock
    151, // mlockall
    152, // munlockall
    157, // prctl
    158, // arch_prctl
    160, // setrlimit
    162, // sync
    186, // gettid
    187, // readahead
    188, // setxattr
    189, // lsetxattr
    190, // fsetxattr
    191, // getxattr
    192, // lgetxattr
    193, // fgetxattr
    194, // listxattr
    195, // llistxattr
    196, // flistxattr
    197, // removexattr
    198, // lremovexattr
    199, // fremovexattr
    200, // tkill
    201, // time
    202, // futex
    203, // sched_setaffinity
    204, // sched_getaffinity
    205, // set_thread_area
    206, // io_setup
    207, // io_destroy
    208, // io_getevents
    209, // io_submit
    210, // io_cancel
    211, // get_thread_area
    213, // epoll_create
    217, // getdents64
    218, // set_tid_address
    219, // restart_syscall
    220, // semtimedop
    221, // fadvise64
    222, // timer_create
    223, // timer_settime
    224, // timer_gettime
    225, // timer_getoverrun
    226, // timer_delete
    227, // clock_settime
    228, // clock_gettime
    229, // clock_getres
    230, // clock_nanosleep
    231, // exit_group
    232, // epoll_wait
    233, // epoll_ctl
    234, // tgkill
    235, // utimes
    239, // get_mempolicy
    240, // mq_open
    241, // mq_unlink
    242, // mq_timedsend
    243, // mq_timedreceive
    244, // mq_notify
    245, // mq_getsetattr
    247, // waitid
    252, // ioprio_get
    253, // inotify_init
    254, // inotify_add_watch
    255, // inotify_rm_watch
    257, // openat
    258, // mkdirat
    259, // mknodat
    260, // fchownat
    261, // futimesat
    262, // newfstatat
    263, // unlinkat
    264, // renameat
    265, // linkat
    266, // symlinkat
    267, // readlinkat
    268, // fchmodat
    269, // faccessat
    270, // pselect6
    271, // ppoll
    273, // set_robust_list
    274, // get_robust_list
    275, // splice
    276, // tee
    277, // sync_file_range
    278, // vmsplice
    280, // utimensat
    281, // epoll_pwait
    282, // signalfd
    283, // timerfd_create
    284, // eventfd
    285, // fallocate
    286, // timerfd_settime
    287, // timerfd_gettime
    288, // accept4
    289, // signalfd4
    290, // eventfd2
    291, // epoll_create1
    292, // dup3
    293, // pipe2
    294, // inotify_init1
    295, // preadv
    296, // pwritev
    297, // rt_tgsigqueueinfo
    299, // recvmmsg
    302, // prlimit64
    303, // name_to_handle_at
    306, // syncfs
    307, // sendmmsg
    309, // getcpu
    314, // sched_setattr
    315, // sched_getattr
    316, // renameat2
    317, // seccomp
    318, // getrandom
    319, // memfd_create
    322, // execveat
    324, // membarrier
    325, // mlock2
    326, // copy_file_range
    327, // preadv2
    328, // pwritev2
    329, // pkey_mprotect
    330, // pkey_alloc
    331, // pkey_free
    332, // statx
    334, // rseq
];

/// `clone`, allowed only without namespace flags.
pub const SYS_CLONE: i64 = 56;

/// A syscall of the unconditional allow-list.
pub open spec fn allowed(n: i64) -> bool {
    ||| n == 0
    ||| n == 1
    ||| n == 2
    ||| n == 3
    ||| n == 4
    ||| n == 5
    ||| n == 6
    ||| n == 7
    ||| n == 8
    ||| n == 9
    ||| n == 10
    ||| n == 11
    ||| n == 12
    ||| n == 13
    ||| n == 14
    ||| n == 15
    ||| n == 16
    ||| n == 17
    ||| n == 18
    ||| n == 19
    ||| n == 20
    ||| n == 21
    ||| n == 22
    ||| n == 23
    ||| n == 24
    ||| n == 25
    ||| n == 26
    ||| n == 27
    ||| n == 28
    ||| n == 32
    ||| n == 33
    ||| n == 35
    ||| n == 39
    ||| n == 41
    ||| n == 42
    ||| n == 43
    ||| n == 44
    ||| n == 45
    ||| n == 46
    ||| n == 47
    ||| n == 48
    ||| n == 49
    ||| n == 50
    ||| n == 51
    ||| n == 52
    ||| n == 53
    ||| n == 54
    ||| n == 55
    ||| n == 57
    ||| n == 58
    ||| n == 59
    ||| n == 60
    ||| n == 61
    ||| n == 62
    ||| n == 63
    ||| n == 72
    ||| n == 73
    ||| n == 74
    ||| n == 75
    ||| n == 76
    ||| n == 77
    ||| n == 78
    ||| n == 79
    ||| n == 80
    ||| n == 81
    ||| n == 82
    ||| n == 83
    ||| n == 84
    ||| n == 85
    ||| n == 86
    ||| n == 87
    ||| n == 88
    ||| n == 89
    ||| n == 90
    ||| n == 91
    ||| n == 92
    ||| n == 93
    ||| n == 94
    ||| n == 95
    ||| n == 96
    ||| n == 97
    ||| n == 98
    ||| n == 99
    ||| n == 100
    ||| n == 102
    ||| n == 104
    ||| n == 105
    ||| n == 106
    ||| n == 107
    ||| n == 108
    ||| n == 110
    ||| n == 111
    ||| n == 112
    ||| n == 109
    ||| n == 115
    ||| n == 116
    ||| n == 117
    ||| n == 118
    ||| n == 119
    ||| n == 120
    ||| n == 121
    ||| n == 122
    ||| n == 123
    ||| n == 124
    ||| n == 125
    ||| n == 126
    ||| n == 127
    ||| n == 128
    ||| n == 129
    ||| n == 130
    ||| n == 131
    ||| n == 135
    ||| n == 137
    ||| n == 138
    ||| n == 140
    ||| n == 141
    ||| n == 142
    ||| n == 143
    ||| n == 144
    ||| n == 145
    ||| n == 146
    ||| n == 147
    ||| n == 148
    ||| n == 149
    ||| n == 150
    ||| n == 151
    ||| n == 152
    ||| n == 157
    ||| n == 158
    ||| n == 160
    ||| n == 162
    ||| n == 186
    ||| n == 187
    ||| n == 188
    ||| n == 189
    ||| n == 190
    ||| n == 191
    ||| n == 192
    ||| n == 193
    ||| n == 194
    ||| n == 195
    ||| n == 196
    ||| n == 197
    ||| n == 198
    ||| n == 199
    ||| n == 200
    ||| n == 201
    ||| n == 202
    ||| n == 203
    ||| n == 204
    ||| n == 205
    ||| n == 206
    ||| n == 207
    ||| n == 208
    ||| n == 209
    ||| n == 210
    ||| n == 211
    ||| n == 213
    ||| n == 217
    ||| n == 218
    ||| n == 219
    ||| n == 220
    ||| n == 221
    ||| n == 222
    ||| n == 223
    ||| n == 224
    ||| n == 225
    ||| n == 226
    ||| n == 227
    ||| n == 228
    ||| n == 229
    ||| n == 230
    ||| n == 231
    ||| n == 232
    ||| n == 233
    ||| n == 234
    ||| n == 235
    ||| n == 239
    ||| n == 240
    ||| n == 241
    ||| n == 242
    ||| n == 243
    ||| n == 244
    ||| n == 245
    ||| n == 247
    ||| n == 252
    ||| n == 253
    ||| n == 254
    ||| n == 255
    ||| n == 257
    ||| n == 258
    ||| n == 259
    ||| n == 260
    ||| n == 261
    ||| n == 262
    ||| n == 263
    ||| n == 264
    ||| n == 265
    ||| n == 266
    ||| n == 267
    ||| n == 268
    ||| n == 269
    ||| n == 270
    ||| n == 271
    ||| n == 273
    ||| n == 274
    ||| n == 275
    ||| n == 276
    ||| n == 277
    ||| n == 278
    ||| n == 280
    ||| n == 281
    ||| n == 282
    ||| n == 283
    ||| n == 284
    ||| n == 285
    ||| n == 286
    ||| n == 287
    ||| n == 288
    ||| n == 289
    ||| n == 290
    ||| n == 291
    ||| n == 292
    ||| n == 293
    ||| n == 294
    ||| n == 295
    ||| n == 296
    ||| n == 297
    ||| n == 299
    ||| n == 302
    ||| n == 303
    ||| n == 306
    ||| n == 307
    ||| n == 309
    ||| n == 314
    ||| n == 315
    ||| n == 316
    ||| n == 317
    ||| n == 318
    ||| n == 319
    ||| n == 322
    ||| n == 324
    ||| n == 325
    ||| n == 326
    ||| n == 327
    ||| n == 328
    ||| n == 329
    ||| n == 330
    ||| n == 331
    ||| n == 332
    ||| n == 334
}

pub proof fn lemma_allowed_listed()
    ensures
        forall|i: int| 0 <= i < 251 ==> allowed(#[trigger] ALLOWED_SYSCALLS@[i]),
{
}

pub proof fn lemma_listed_allowed(n: i64)
    requires
        allowed(n),
    ensures
        exists|i: int| 0 <= i < 251 && #[trigger] ALLOWED_SYSCALLS@[i] == n,
{
}

/// The `CLONE_NEW*` flags (mount, cgroup, UTS, IPC, user, PID, network):
/// `clone` is allowed only when its flags hold none of them.
pub const CLONE_NEWNAMESPACES_MASK: u64 = 0x7E020000;

#[verifier::external_type_specification]
#[verifier::external_body]
pub struct ExSeccompCondition(seccompiler::SeccompCondition);

#[verifier::external_type_specification]
#[verifier::external_body]
pub struct ExSeccompRule(seccompiler::SeccompRule);

#[verifier::external_type_specification]
#[verifier::external_body]
pub struct ExBackendError(seccompiler::BackendError);

/// The condition `SeccompCondition::new(arg_index, len, MaskedEq(mask),
/// value)` builds, where `len` is `Qword` when `qword` holds and `Dword`
/// otherwise: argument `arg_index`, masked with `mask`, equals `value`.
pub uninterp spec fn masked_eq_condition(arg_index: u8, qword: bool, mask: u64, value: u64) -> seccompiler::SeccompCondition;

/// `SeccompCondition::new` with the `MaskedEq(mask)` operator.  The
/// constructor refuses exactly an argument index above 5
/// (`ARG_NUMBER_MAX`); otherwise it returns the condition of its four
/// arguments, which is named, not described.
#[verifier::external_body]
fn masked_eq(arg_index: u8, qword: bool, mask: u64, value: u64) -> (r: Result<seccompiler::SeccompCondition, seccompiler::BackendError>)
    ensures
        arg_index <= 5 ==> r is Ok && r->Ok_0 == masked_eq_condition(arg_index, qword, mask, value),
        arg_index > 5 ==> r is Err,
{
    let len = match qword {
        true => seccompiler::SeccompCmpArgLen::Qword,
        false => seccompiler::SeccompCmpArgLen::Dword,
    };
    seccompiler::SeccompCondition::new(arg_index, len, seccompiler::SeccompCmpOp::MaskedEq(mask), value)
}

/// The rule `SeccompRule::new(conditions)` builds: it matches when all the
/// conditions hold.
pub uninterp spec fn rule_with(conditions: Seq<seccompiler::SeccompCondition>) -> seccompiler::SeccompRule;

/// `SeccompRule::new(conditions)`.  The constructor refuses exactly an
/// empty list; otherwise it returns the rule of the conditions, which is
/// named, not described.
#[verifier::external_body]
fn rule_of(conditions: Vec<seccompiler::SeccompCondition>) -> (r: Result<seccompiler::SeccompRule, seccompiler::BackendError>)
    ensures
        conditions@.len() > 0 ==> r is Ok && r->Ok_0 == rule_with(conditions@),
        conditions@.len() == 0 ==> r is Err,
{
    seccompiler::SeccompRule::new(conditions)
}

/// The one rule `clone` is allowed by: its first argument (the flags, a
/// 64-bit word) masked with [`CLONE_NEWNAMESPACES_MASK`] is zero.
pub open spec fn clone_rule() -> seccompiler::SeccompRule {
    rule_with(seq![masked_eq_condition(0, true, CLONE_NEWNAMESPACES_MASK, 0)])
}

/// Syscall numbers are ordered as `BTreeMap` keys must be.
pub open spec fn keys_ordered() -> bool {
    vstd::laws_cmp::obeys_cmp::<i64>()
}

proof fn lemma_keys_ordered()
    ensures
        keys_ordered(),
{
    broadcast use vstd::laws_cmp::group_laws_cmp;
}

/// The seccomp rules of a sandboxed process, by syscall number: every
/// syscall of the allow-list with no condition, and `clone` with one rule
/// (its flags clear of [`CLONE_NEWNAMESPACES_MASK`]).  Any other syscall is
/// trapped.
pub fn build_rules() -> (r: Result<std::collections::BTreeMap<i64, Vec<seccompiler::SeccompRule>>, seccompiler::BackendError>)
    ensures
        r matches Ok(m) && ({
            &&& forall|n: i64| #[trigger] m@.contains_key(n) <==> (allowed(n) || n == SYS_CLONE)
            &&& forall|n: i64| allowed(n) ==> (#[trigger] m@[n])@.len() == 0
            &&& m@[SYS_CLONE]@ == seq![clone_rule()]
        }),
{
    proof {
        lemma_keys_ordered();
    }
    let mut rules: std::collections::BTreeMap<i64, Vec<seccompiler::SeccompRule>> = std::collections::BTreeMap::new();
    let mut i: usize = 0;
    proof {
        lemma_allowed_listed();
        assert(!allowed(SYS_CLONE));
    }
    while i < 251
        invariant
            i <= 251,
            keys_ordered(),
            forall|i: int| 0 <= i < 251 ==> allowed(#[trigger] ALLOWED_SYSCALLS@[i]),
            forall|n: i64| #[trigger] rules@.contains_key(n) <==> exists|k: int| 0 <= k < i && ALLOWED_SYSCALLS@[k] == n,
            forall|n: i64| rules@.contains_key(n) ==> (#[trigger] rules@[n])@.len() == 0,
        decreases 251 - i,
    {
        let n = ALLOWED_SYSCALLS[i];
        let ghost before = rules@;
        rules.insert(n, Vec::new());
        proof {
            assert forall|m: i64| #[trigger] rules@.contains_key(m) <==> exists|k: int| 0 <= k < i + 1 && ALLOWED_SYSCALLS@[k] == m by {
                if m == n {
                    assert(ALLOWED_SYSCALLS@[i as int] == m);
                } else if rules@.contains_key(m) {
                    assert(before.contains_key(m));
                } else if exists|k: int| 0 <= k < i + 1 && ALLOWED_SYSCALLS@[k] == m {
                    let k = choose|k: int| 0 <= k < i + 1 && ALLOWED_SYSCALLS@[k] == m;
                    assert(k != i);
                    assert(before.contains_key(m));
                }
            }
        }
        i = i + 1;
    }
    proof {
        assert forall|n: i64| #[trigger] rules@.contains_key(n) <==> allowed(n) by {
            if allowed(n) {
                lemma_listed_allowed(n);
            }
        }
    }
    let condition = match masked_eq(0, true, CLONE_NEWNAMESPACES_MASK, 0) {
        Ok(c) => c,
        Err(e) => {
            return Err(e);
        },
    };
    let mut conditions: Vec<seccompiler::SeccompCondition> = Vec::new();
    conditions.push(condition);
    assert(conditions@ =~= seq![masked_eq_condition(0, true, CLONE_NEWNAMESPACES_MASK, 0)]);
    let rule = match rule_of(conditions) {
        Ok(r) => r,
        Err(e) => {
            return Err(e);
        },
    };
    let mut clone_rules: Vec<seccompiler::SeccompRule> = Vec::new();
    clone_rules.push(rule);
    assert(clone_rules@ =~= seq![clone_rule()]);
    rules.insert(SYS_CLONE, clone_rules);
    Ok(rules)
}

/// The syscalls that must never be allowed: `open_by_handle_at` (a
/// classic container escape), `process_vm_readv` and `process_vm_writev`
/// (cross-process memory access), `perf_event_open`, `ioprio_set`, and the
/// NUMA calls `mbind`, `set_mempolicy`, `migrate_pages` and `move_pages`.
pub open spec fn excluded(n: i64) -> bool {
    n == 304 || n == 310 || n == 311 || n == 298 || n == 251 || n == 237 || n == 238 || n == 256 || n == 279
}

/// No escape or interference syscall is on the allow-list, and `clone` is
/// only ever allowed through its flag rule.
pub proof fn law_escape_syscalls_excluded(n: i64)
    requires
        excluded(n),
    ensures
        !allowed(n),
        n != SYS_CLONE,
{
}

// ---------------------------------------------------------------------------
// Capabilities

/// The capabilities a sandboxed process loses: DAC_READ_SEARCH,
/// NET_ADMIN, NET_RAW, SYS_MODULE, SYS_RAWIO, SYS_PTRACE, SYS_ADMIN,
/// SYS_BOOT, SYS_TIME, MKNOD, AUDIT_WRITE, AUDIT_CONTROL, SETFCAP and
/// SYSLOG.
pub const DANGEROUS_CAPS: [u32; 14] = [2, 12, 13, 16, 17, 19, 21, 22, 25, 27, 29, 30, 31, 34];

/// The mask with one bit per dangerous capability.
pub const DANGEROUS_CAP_MASK: u64 = 0x4_EA6B_3004;

/// The mask is the union of the capabilities' bits.
pub proof fn law_cap_mask()
    ensures
        DANGEROUS_CAP_MASK == (1u64 << 2u64) | (1u64 << 12u64) | (1u64 << 13u64) | (1u64 << 16u64) | (1u64 << 17u64)
            | (1u64 << 19u64) | (1u64 << 21u64) | (1u64 << 22u64) | (1u64 << 25u64) | (1u64 << 27u64)
            | (1u64 << 29u64) | (1u64 << 30u64) | (1u64 << 31u64) | (1u64 << 34u64),
{
    assert(0x4_EA6B_3004u64 == (1u64 << 2u64) | (1u64 << 12u64) | (1u64 << 13u64) | (1u64 << 16u64) | (1u64 << 17u64)
        | (1u64 << 19u64) | (1u64 << 21u64) | (1u64 << 22u64) | (1u64 << 25u64) | (1u64 << 27u64)
        | (1u64 << 29u64) | (1u64 << 30u64) | (1u64 << 31u64) | (1u64 << 34u64)) by (bit_vector);
}

/// The two 32-bit halves of the mask that `capget`/`capset` take: the low
/// word (capabilities 0 to 31) and the high word.
pub fn cap_mask_words() -> (w: (u32, u32))
    ensures
        w.0 as u64 == DANGEROUS_CAP_MASK & 0xFFFF_FFFF,
        w.1 as u64 == DANGEROUS_CAP_MASK >> 32u64,
{
    let low = (DANGEROUS_CAP_MASK & 0xFFFF_FFFF) as u32;
    let high = (DANGEROUS_CAP_MASK >> 32) as u32;
    assert((0x4_EA6B_3004u64 & 0xFFFF_FFFFu64) == 0xEA6B_3004u64) by (bit_vector);
    assert((0x4_EA6B_3004u64 >> 32u64) == 4u64) by (bit_vector);
    (low, high)
}

/// A capability set with the dangerous capabilities of one word removed.
pub fn without(set: u32, word_mask: u32) -> (r: u32)
    ensures
        r == set & !word_mask,
{
    set & !word_mask
}

} // verus!
