//! Landlock filesystem rules: the access rights each rule grants and the
//! baseline every policy-mode sandbox gets.
use vstd::prelude::*;
use crate::policy::{FsAccess, FsRule};

verus! {

pub const ACCESS_EXECUTE: u64 = 0x1;
pub const ACCESS_WRITE_FILE: u64 = 0x2;
pub const ACCESS_READ_FILE: u64 = 0x4;
pub const ACCESS_READ_DIR: u64 = 0x8;
pub const ACCESS_REMOVE_DIR: u64 = 0x10;
pub const ACCESS_REMOVE_FILE: u64 = 0x20;
pub const ACCESS_MAKE_CHAR: u64 = 0x40;
pub const ACCESS_MAKE_DIR: u64 = 0x80;
pub const ACCESS_MAKE_REG: u64 = 0x100;
pub const ACCESS_MAKE_SOCK: u64 = 0x200;
pub const ACCESS_MAKE_FIFO: u64 = 0x400;
pub const ACCESS_MAKE_BLOCK: u64 = 0x800;
pub const ACCESS_MAKE_SYM: u64 = 0x1000;

/// Reading files and listing directories.
pub const READ_ACCESS: u64 = 0xC;

/// Writing, removing and making files of every kind.
pub const WRITE_ACCESS: u64 = 0x1FF2;

/// Every right the ruleset handles: all others are denied.
pub const HANDLED_ACCESS: u64 = 0x1FFF;

/// The rights a rule grants.
pub open spec fn access_mask(a: FsAccess) -> u64 {
    match a {
        FsAccess::Read => READ_ACCESS,
        FsAccess::ReadExecute => READ_ACCESS | ACCESS_EXECUTE,
        FsAccess::ReadWrite => READ_ACCESS | WRITE_ACCESS,
        FsAccess::ReadWriteExecute => READ_ACCESS | WRITE_ACCESS | ACCESS_EXECUTE,
    }
}

/// The rights a rule grants.
pub fn access_of(a: FsAccess) -> (m: u64)
    ensures
        m == access_mask(a),
{
    match a {
        FsAccess::Read => READ_ACCESS,
        FsAccess::ReadExecute => READ_ACCESS | ACCESS_EXECUTE,
        FsAccess::ReadWrite => READ_ACCESS | WRITE_ACCESS,
        FsAccess::ReadWriteExecute => READ_ACCESS | WRITE_ACCESS | ACCESS_EXECUTE,
    }
}

/// The masks are what their names say: the read and write sets are the
/// unions of their rights, and the handled set is execute, read and write
/// together.
pub proof fn law_masks_compose()
    ensures
        READ_ACCESS == (ACCESS_READ_FILE | ACCESS_READ_DIR),
        WRITE_ACCESS == (ACCESS_WRITE_FILE | ACCESS_REMOVE_DIR | ACCESS_REMOVE_FILE | ACCESS_MAKE_CHAR | ACCESS_MAKE_DIR
            | ACCESS_MAKE_REG | ACCESS_MAKE_SOCK | ACCESS_MAKE_FIFO | ACCESS_MAKE_BLOCK | ACCESS_MAKE_SYM),
        HANDLED_ACCESS == (ACCESS_EXECUTE | READ_ACCESS | WRITE_ACCESS),
        READ_ACCESS & WRITE_ACCESS == 0,
        READ_ACCESS & ACCESS_EXECUTE == 0,
        WRITE_ACCESS & ACCESS_EXECUTE == 0,
{
    assert(0xCu64 == (0x4u64 | 0x8u64)) by (bit_vector);
    assert(0x1FF2u64 == (0x2u64 | 0x10u64 | 0x20u64 | 0x40u64 | 0x80u64 | 0x100u64 | 0x200u64 | 0x400u64 | 0x800u64 | 0x1000u64)) by (bit_vector);
    assert(0x1FFFu64 == (0x1u64 | 0xCu64 | 0x1FF2u64)) by (bit_vector);
    assert(0xCu64 & 0x1FF2u64 == 0) by (bit_vector);
    assert(0xCu64 & 0x1u64 == 0) by (bit_vector);
    assert(0x1FF2u64 & 0x1u64 == 0) by (bit_vector);
}

/// No rule grants a right the ruleset does not handle.
pub proof fn law_rules_within_handled(a: FsAccess)
    ensures
        access_mask(a) & HANDLED_ACCESS == access_mask(a),
        access_mask(a) & READ_ACCESS == READ_ACCESS,
{
    assert((0xCu64 & 0x1FFFu64) == 0xCu64) by (bit_vector);
    assert(((0xCu64 | 0x1u64) & 0x1FFFu64) == (0xCu64 | 0x1u64)) by (bit_vector);
    assert(((0xCu64 | 0x1FF2u64) & 0x1FFFu64) == (0xCu64 | 0x1FF2u64)) by (bit_vector);
    assert(((0xCu64 | 0x1FF2u64 | 0x1u64) & 0x1FFFu64) == (0xCu64 | 0x1FF2u64 | 0x1u64)) by (bit_vector);
    assert((0xCu64 & 0xCu64) == 0xCu64) by (bit_vector);
    assert(((0xCu64 | 0x1u64) & 0xCu64) == 0xCu64) by (bit_vector);
    assert(((0xCu64 | 0x1FF2u64) & 0xCu64) == 0xCu64) by (bit_vector);
    assert(((0xCu64 | 0x1FF2u64 | 0x1u64) & 0xCu64) == 0xCu64) by (bit_vector);
}

/// One path rule to add to the ruleset: the path, the rights below it,
/// and whether a missing path is an error (else it is skipped).
#[derive(Debug)]
pub struct PathRule {
    pub path: String,
    pub access: u64,
    pub required: bool,
}

pub open spec fn rule_view(r: PathRule) -> (Seq<char>, u64, bool) {
    (r.path@, r.access, r.required)
}

/// The baseline of every policy-mode sandbox: system binaries and
/// libraries readable and executable, `/dev` and `/tmp` readable and
/// writable, `/proc` and `/sys` readable; each skipped where absent.
pub open spec fn baseline() -> Seq<(Seq<char>, u64, bool)> {
    let rx = READ_ACCESS | ACCESS_EXECUTE;
    let rw = READ_ACCESS | WRITE_ACCESS;
    seq![
        ("/bin"@, rx, false),
        ("/sbin"@, rx, false),
        ("/usr"@, rx, false),
        ("/lib"@, rx, false),
        ("/lib64"@, rx, false),
        ("/dev"@, rw, false),
        ("/tmp"@, rw, false),
        ("/proc"@, READ_ACCESS, false),
        ("/sys"@, READ_ACCESS, false),
    ]
}

fn rule(path: &str, access: u64, required: bool) -> (r: PathRule)
    ensures
        rule_view(r) == (path@, access, required),
{
    PathRule { path: path.to_owned(), access, required }
}

/// The baseline rules, in the order they are added.
pub fn add_baseline_rules() -> (v: Vec<PathRule>)
    ensures
        v@.map_values(|r: PathRule| rule_view(r)) == baseline(),
{
    let rx = READ_ACCESS | ACCESS_EXECUTE;
    let rw = READ_ACCESS | WRITE_ACCESS;
    let mut v: Vec<PathRule> = Vec::new();
    v.push(rule("/bin", rx, false));
    v.push(rule("/sbin", rx, false));
    v.push(rule("/usr", rx, false));
    v.push(rule("/lib", rx, false));
    v.push(rule("/lib64", rx, false));
    v.push(rule("/dev", rw, false));
    v.push(rule("/tmp", rw, false));
    v.push(rule("/proc", READ_ACCESS, false));
    v.push(rule("/sys", READ_ACCESS, false));
    assert(v@.map_values(|r: PathRule| rule_view(r)) =~= baseline());
    v
}

/// Every rule a sandbox's ruleset gets: the baseline, then one required
/// rule per policy rule with the rights of its access.
pub fn ruleset(rules: &Vec<FsRule>) -> (v: Vec<PathRule>)
    ensures
        v@.map_values(|r: PathRule| rule_view(r)) == baseline() + rules@.map_values(
            |f: FsRule| (f.path@, access_mask(f.access), true),
        ),
{
    let mut v = add_baseline_rules();
    let ghost base = v@.map_values(|r: PathRule| rule_view(r));
    let mut i: usize = 0;
    while i < rules.len()
        invariant
            base == baseline(),
            i <= rules@.len(),
            v@.map_values(|r: PathRule| rule_view(r)) == base + rules@.subrange(0, i as int).map_values(
                |f: FsRule| (f.path@, access_mask(f.access), true),
            ),
        decreases rules@.len() - i,
    {
        let ghost pre = v@.map_values(|r: PathRule| rule_view(r));
        let r = rule(rules[i].path.as_str(), access_of(rules[i].access), true);
        v.push(r);
        assert(rules@.subrange(0, i + 1).map_values(|f: FsRule| (f.path@, access_mask(f.access), true))
            =~= rules@.subrange(0, i as int).map_values(|f: FsRule| (f.path@, access_mask(f.access), true))
                .push((rules@[i as int].path@, access_mask(rules@[i as int].access), true)));
        assert(v@.map_values(|r: PathRule| rule_view(r)) =~= pre.push(rule_view(r)));
        i = i + 1;
    }
    assert(rules@.subrange(0, rules@.len() as int) =~= rules@);
    v
}

} // verus!
