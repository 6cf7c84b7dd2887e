//! Grants that last as long as one process instance.
use crate::path::{components, FilePath};
use crate::policy::rule::Access;
use crate::process::identify::{Caller, ProcessInfo};
use vstd::prelude::*;

verus! {

/// One process instance: a pid is recycled, a pid with a start time is not.
#[derive(Debug, Clone, Copy, PartialEq, Eq, Structural)]
pub struct ProcessId {
    pub pid: u32,
    pub start_time: u64,
}

/// The instance that a caller is.
pub open spec fn instance(caller: Caller) -> ProcessId {
    ProcessId { pid: caller.pid, start_time: caller.start_time }
}

impl ProcessId {
    /// The instance that `process` is.
    pub fn of(process: &ProcessInfo) -> (r: ProcessId)
        ensures
            r == instance(process@),
    {
        ProcessId { pid: process.pid, start_time: process.start_time }
    }
}

/// A file opened to one process instance.
#[derive(Debug)]
struct Grant {
    process: ProcessId,
    file: FilePath,
    access: Access,
}

/// The contents of a grant.
pub ghost struct GrantView {
    pub process: ProcessId,
    pub file: Seq<u8>,
    pub access: Access,
}

/// The grants of this session.
#[derive(Debug)]
pub struct SessionState {
    grants: Vec<Grant>,
}

impl View for SessionState {
    type V = Seq<GrantView>;

    closed spec fn view(&self) -> Seq<GrantView> {
        self.grants@.map_values(
            |g: Grant| GrantView { process: g.process, file: g.file@, access: g.access },
        )
    }
}

/// Whether a grant lets `process` access `file` in the direction `access`.
pub open spec fn permits(
    grant: GrantView,
    process: ProcessId,
    file: Seq<u8>,
    access: Access,
) -> bool {
    &&& grant.process == process
    &&& components(grant.file) == components(file)
    &&& grant.access.spec_covers(access)
}

/// Whether some grant lets `process` access `file` in the direction `access`.
pub open spec fn session_allows(
    grants: Seq<GrantView>,
    process: ProcessId,
    file: Seq<u8>,
    access: Access,
) -> bool {
    exists|i: int| 0 <= i < grants.len() && #[trigger] permits(grants[i], process, file, access)
}

impl SessionState {
    /// A session without grants.
    pub fn new() -> (r: SessionState)
        ensures
            r@ == Seq::<GrantView>::empty(),
    {
        let r = SessionState { grants: Vec::new() };
        assert(r@ =~= Seq::<GrantView>::empty());
        r
    }

    /// Whether `process` was granted this access.
    pub fn is_session_allowed(&self, process: &ProcessId, file: &FilePath, access: Access) -> (r:
        bool)
        ensures
            r == session_allows(self@, *process, file@, access),
    {
        let mut i: usize = 0;
        while i < self.grants.len()
            invariant
                i <= self.grants@.len(),
                self@.len() == self.grants@.len(),
                forall|j: int|
                    0 <= j < i ==> !#[trigger] permits(self@[j], *process, file@, access),
            decreases self.grants@.len() - i,
        {
            let g = &self.grants[i];
            if g.process == *process && g.file.same_as(file) && g.access.covers(access) {
                assert(permits(self@[i as int], *process, file@, access));
                return true;
            }
            i = i + 1;
        }
        false
    }

    /// Grants `process` access to `file`.
    pub fn grant_session(&mut self, process: ProcessId, file: FilePath, access: Access)
        ensures
            final(self)@ == old(self)@.push(GrantView { process, file: file@, access }),
    {
        let ghost before = self@;
        let ghost g = GrantView { process, file: file@, access };
        self.grants.push(Grant { process, file, access });
        assert(self@ =~= before.push(g));
    }
}

/// A grant reaches exactly the process instance, file and direction it was made
/// for: it opens that file to that instance, and changes nothing for any other
/// instance, a recycled pid included, or for any other file.
pub proof fn law_grants_are_bound_to_the_instance(
    grants: Seq<GrantView>,
    grant: GrantView,
    process: ProcessId,
    file: Seq<u8>,
    access: Access,
)
    ensures
        session_allows(grants.push(grant), process, file, access) == (session_allows(
            grants,
            process,
            file,
            access,
        ) || permits(grant, process, file, access)),
        process != grant.process || components(file) != components(grant.file) ==> session_allows(
            grants.push(grant),
            process,
            file,
            access,
        ) == session_allows(grants, process, file, access),
{
    let after = grants.push(grant);
    if session_allows(after, process, file, access) {
        let i = choose|i: int|
            0 <= i < after.len() && #[trigger] permits(after[i], process, file, access);
        if i < grants.len() {
            assert(permits(grants[i], process, file, access));
        }
    }
    if session_allows(grants, process, file, access) {
        let i = choose|i: int|
            0 <= i < grants.len() && #[trigger] permits(grants[i], process, file, access);
        assert(permits(after[i], process, file, access));
    }
    if permits(grant, process, file, access) {
        assert(permits(after[grants.len() as int], process, file, access));
    }
}

/// Without grants nothing is allowed, and each grant adds exactly the accesses of
/// its own process instance to its own file, in its own direction or, for `Any`,
/// in every direction.
pub proof fn law_each_grant_adds_its_own_access(
    grants: Seq<GrantView>,
    grant: GrantView,
    process: ProcessId,
    file: Seq<u8>,
    access: Access,
)
    ensures
        !session_allows(Seq::empty(), process, file, access),
        session_allows(grants.push(grant), process, file, access) == (session_allows(
            grants,
            process,
            file,
            access,
        ) || (grant.process.pid == process.pid && grant.process.start_time == process.start_time
            && components(grant.file) == components(file) && (grant.access == Access::Any
            || grant.access == access))),
{
    law_grants_are_bound_to_the_instance(grants, grant, process, file, access);
}

/// Two callers are the same instance only if both the pid and the start time
/// agree.
pub proof fn law_instances_differ_by_pid_or_start(a: Caller, b: Caller)
    ensures
        instance(a) == instance(b) <==> a.pid == b.pid && a.start_time == b.start_time,
        instance(a).pid == a.pid,
        instance(a).start_time == a.start_time,
{
}

} // verus!
