//! Rules, access directions and decisions.
use crate::path::FilePath;
use crate::text::opt_text;
use vstd::prelude::*;

verus! {

/// Persistent rule action.
#[derive(Debug, Clone, Copy, PartialEq, Eq, Structural)]
pub enum Action {
    Allow,
    Deny,
}

/// Direction of a credential access. Concrete requests are always `Read` or
/// `Write`; `Any` only ever appears on a stored rule, meaning it covers both.
#[derive(Debug, Clone, Copy, PartialEq, Eq, Hash, Structural)]
pub enum Access {
    Read,
    Write,
    Any,
}

/// The bits of `open(2)` flags that decide what an open may do.
struct OpenFlagBits {
    accmode: i32,
    wronly: i32,
    rdwr: i32,
    trunc: i32,
    append: i32,
}

/// The constants `O_ACCMODE`, `O_WRONLY`, `O_RDWR`, `O_TRUNC` and `O_APPEND` of
/// libc, with the values that they have on GNU/Linux for x86-64 and arm64. On
/// other systems (musl, macOS and the BSDs) and on some other processors (MIPS,
/// SPARC) libc gives some of them other values, and this does not hold there.
#[verifier::external_body]
fn open_flag_bits() -> (b: OpenFlagBits)
    ensures
        b.accmode == 0x3,
        b.wronly == 0x1,
        b.rdwr == 0x2,
        b.trunc == 0x200,
        b.append == 0x400,
{
    OpenFlagBits {
        accmode: libc::O_ACCMODE,
        wronly: libc::O_WRONLY,
        rdwr: libc::O_RDWR,
        trunc: libc::O_TRUNC,
        append: libc::O_APPEND,
    }
}

/// Whether an open with these flags empties the file.
pub open spec fn flags_truncate(flags: i32) -> bool {
    flags & 0x200i32 != 0
}

/// Whether an open with these flags may write: it is write-only, read-write,
/// truncating or appending.
pub open spec fn flags_write(flags: i32) -> bool {
    ||| flags & 0x3i32 == 0x1
    ||| flags & 0x3i32 == 0x2
    ||| flags_truncate(flags)
    ||| flags & 0x400i32 != 0
}

/// The direction that `open(2)` flags ask for.
pub open spec fn flags_access(flags: i32) -> Access {
    if flags_write(flags) {
        Access::Write
    } else {
        Access::Read
    }
}

/// Whether an open with these flags empties the file.
pub fn truncates(flags: i32) -> (r: bool)
    ensures
        r == flags_truncate(flags),
{
    flags & open_flag_bits().trunc != 0
}

impl Default for Access {
    fn default() -> (r: Access)
        ensures
            r == Access::Read,
    {
        Access::Read
    }
}

impl Access {
    /// A scope covers a direction if it is `Any` or that direction.
    pub open spec fn spec_covers(self, req: Access) -> bool {
        self == Access::Any || self == req
    }

    /// Does a rule scoped to `self` authorize a concrete `req`?
    pub fn covers(self, req: Access) -> (r: bool)
        ensures
            r == self.spec_covers(req),
    {
        self == Access::Any || self == req
    }

    /// Derive the requested direction from `open(2)` flags. A handle counts as
    /// a write if it is writable, truncating, or appending; everything else
    /// (including `O_RDONLY | O_CREAT` on an existing mountpoint) is a read.
    pub fn from_open_flags(flags: i32) -> (r: Access)
        ensures
            r == flags_access(flags),
    {
        let bits = open_flag_bits();
        let accmode: i32 = flags & bits.accmode;
        let is_write = accmode == bits.wronly || accmode == bits.rdwr || (flags & bits.trunc) != 0
            || (flags & bits.append) != 0;
        if is_write {
            Access::Write
        } else {
            Access::Read
        }
    }

    pub open spec fn spec_verb(self) -> Seq<char> {
        match self {
            Access::Read => "read"@,
            Access::Write => "write"@,
            Access::Any => "access"@,
        }
    }

    /// The verb for prompts and listings.
    pub fn verb(self) -> (r: &'static str)
        ensures
            r@ == self.spec_verb(),
    {
        match self {
            Access::Read => "read",
            Access::Write => "write",
            Access::Any => "access",
        }
    }
}

/// A persistent rule: binary X accessing file Y -> allow/deny, scoped to a
/// direction and (optionally) pinned to the binary's content hash / signature.
#[derive(Debug)]
pub struct Rule {
    pub file: FilePath,
    pub binary: FilePath,
    pub action: Action,
    pub access: Access,
    /// sha256 hex of the binary at the time the rule was captured. When set, a
    /// caller whose hash differs does **not** match (it re-prompts) rather than
    /// being denied - so a legitimate rebuild re-authorizes instead of breaking.
    pub sha256: Option<String>,
    /// macOS code-signing identity captured with the rule (unused on Linux).
    pub signature: Option<String>,
    /// For interpreter rules, the pinned script path. When set, a caller running
    /// the same interpreter but a *different* script does not match (re-prompts),
    /// narrowing "any python" to "this program".
    pub script: Option<String>,
    /// sha256 of the pinned script's contents. When set, a caller whose script
    /// hashes differently does not match (re-prompts) - catches in-place edits
    /// where the script path stays the same.
    pub script_sha256: Option<String>,
}

/// The contents of a [`Rule`].
pub ghost struct RuleView {
    pub file: Seq<u8>,
    pub binary: Seq<u8>,
    pub action: Action,
    pub access: Access,
    pub sha256: Option<Seq<char>>,
    pub signature: Option<Seq<char>>,
    pub script: Option<Seq<char>>,
    pub script_sha256: Option<Seq<char>>,
}

impl View for Rule {
    type V = RuleView;

    open spec fn view(&self) -> RuleView {
        RuleView {
            file: self.file@,
            binary: self.binary@,
            action: self.action,
            access: self.access,
            sha256: opt_text(self.sha256),
            signature: opt_text(self.signature),
            script: opt_text(self.script),
            script_sha256: opt_text(self.script_sha256),
        }
    }
}

/// The contents of a list of rules.
pub open spec fn rule_views(rules: Seq<Rule>) -> Seq<RuleView> {
    rules.map_values(|r: Rule| r@)
}

/// Outcome of a policy evaluation.
#[derive(Debug, Clone, Copy, PartialEq, Eq, Structural)]
pub enum Decision {
    /// Allowed by a persistent rule.
    AllowAlways,
    /// Denied by a persistent rule.
    DenyAlways,
    /// Allowed for this session only.
    AllowSession,
    /// Allowed for this single open() only.
    AllowOnce,
    /// Denied for this single open() only.
    DenyOnce,
}

impl Decision {
    pub open spec fn allows(self) -> bool {
        self == Decision::AllowAlways || self == Decision::AllowSession || self
            == Decision::AllowOnce
    }

    /// Whether the access may go ahead.
    pub fn is_allowed(&self) -> (r: bool)
        ensures
            r == self.allows(),
    {
        matches!(self, Decision::AllowAlways | Decision::AllowSession | Decision::AllowOnce)
    }
}

/// A rule for `Any` authorizes every direction, and a rule for one direction
/// authorizes that direction and not the other.
pub proof fn law_scopes_cover_their_direction(scope: Access, req: Access)
    ensures
        Access::Any.spec_covers(req),
        req.spec_covers(req),
        scope != Access::Any && scope != req ==> !scope.spec_covers(req),
{
}

/// Every open that can change the file counts as a write, and asking to create
/// the file does not by itself.
pub proof fn law_truncating_opens_are_writes(flags: i32)
    ensures
        flags_truncate(flags) ==> flags_access(flags) == Access::Write,
        flags_access(flags) == flags_access(flags | 0x40i32),
{
    assert((flags | 0x40i32) & 0x3i32 == flags & 0x3i32) by (bit_vector);
    assert((flags | 0x40i32) & 0x200i32 == flags & 0x200i32) by (bit_vector);
    assert((flags | 0x40i32) & 0x400i32 == flags & 0x400i32) by (bit_vector);
}

/// An open whose access mode is write-only or read-write is a write whatever
/// else it asks for, and so is one that truncates or appends; every other open
/// is a read.
pub proof fn law_the_access_mode_decides_the_direction(flags: i32)
    ensures
        flags & 0x3i32 == 0x1 || flags & 0x3i32 == 0x2 ==> flags_access(flags) == Access::Write,
        flags & 0x600i32 != 0 ==> flags_access(flags) == Access::Write,
        (flags & 0x3i32 == 0 || flags & 0x3i32 == 0x3) && flags & 0x600i32 == 0 ==> flags_access(
            flags,
        ) == Access::Read,
{
    assert(flags & 0x600i32 == 0 <==> flags & 0x200i32 == 0 && flags & 0x400i32 == 0)
        by (bit_vector);
}

/// Nothing but the access mode, `O_TRUNC` and `O_APPEND` has a say in the
/// direction: opens that agree in them ask for the same.
pub proof fn law_other_flags_do_not_change_the_direction(flags: i32, others: i32)
    requires
        others & 0x603i32 == 0,
    ensures
        flags_access(flags | others) == flags_access(flags),
        flags_truncate(flags | others) == flags_truncate(flags),
{
    assert((flags | others) & 0x3i32 == flags & 0x3i32) by (bit_vector)
        requires
            others & 0x603i32 == 0,
    ;
    assert((flags | others) & 0x200i32 == flags & 0x200i32) by (bit_vector)
        requires
            others & 0x603i32 == 0,
    ;
    assert((flags | others) & 0x400i32 == flags & 0x400i32) by (bit_vector)
        requires
            others & 0x603i32 == 0,
    ;
}

/// An open empties the file if and only if it asks for `O_TRUNC`.
pub proof fn law_only_truncating_opens_truncate(flags: i32)
    ensures
        flags_truncate(flags | 0x200i32),
        !flags_truncate(flags & !0x200i32),
        flags_truncate(flags) == (flags | 0x200i32 == flags),
{
    assert((flags | 0x200i32) & 0x200i32 != 0) by (bit_vector);
    assert((flags & !0x200i32) & 0x200i32 == 0) by (bit_vector);
    assert(flags & 0x200i32 != 0 <==> flags | 0x200i32 == flags) by (bit_vector);
}

/// An access goes ahead under every decision but the two denials.
pub proof fn law_only_denials_stop_an_access(decision: Decision)
    ensures
        decision.allows() == (decision != Decision::DenyAlways && decision != Decision::DenyOnce),
{
}

/// A list of rules has each rule at its place, with every field.
pub proof fn law_rules_show_every_field(rules: Seq<Rule>, i: int)
    requires
        0 <= i < rules.len(),
    ensures
        rule_views(rules).len() == rules.len(),
        ({
            let r = rules[i];
            let v = rule_views(rules)[i];
            &&& v.file == r.file@
            &&& v.binary == r.binary@
            &&& v.action == r.action
            &&& v.access == r.access
            &&& v.sha256 == opt_text(r.sha256)
            &&& v.signature == opt_text(r.signature)
            &&& v.script == opt_text(r.script)
            &&& v.script_sha256 == opt_text(r.script_sha256)
        }),
{
}

/// The verb of a direction is that direction's own.
pub proof fn law_verbs_tell_directions_apart(access: Access)
    ensures
        access == Access::Read ==> access.spec_verb() == "read"@,
        access == Access::Write ==> access.spec_verb() == "write"@,
        access == Access::Any ==> access.spec_verb() == "access"@,
{
}

} // verus!
