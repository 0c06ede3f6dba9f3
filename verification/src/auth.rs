use crate::error::{failure, APIError, ErrorKind};
use crate::memory::MemoryStore;
use crate::messages::{ACCESS_DENIED, ROLE_MISSING, SCOPE_MISSING};
use crate::models::TeamAssignment;
use crate::role::Role;
use crate::table::{lookup, Lookup};
use vstd::prelude::*;

verus! {

/// What a caller wants to do with a team.
#[derive(Clone, Copy, Debug, PartialEq, Eq, Structural)]
pub enum Operation {
    /// See the team, its reports or one's own assignment.
    Read,
    /// Add or remove a report.
    WriteReport,
    /// Give or take away another principal's role, or see the roles.
    ManageMembership,
    /// Rename or delete the team.
    ManageTeam,
}

/// Does a role allow an operation? `Invalid` allows none.
pub open spec fn permits(role: Role, operation: Operation) -> bool {
    match operation {
        Operation::Read => role == Role::Manager || role == Role::Member || role == Role::Viewer,
        Operation::WriteReport => role == Role::Manager || role == Role::Member,
        Operation::ManageMembership => role == Role::Manager,
        Operation::ManageTeam => role == Role::Manager,
    }
}

/// The decision on a caller whose assignment was looked up with the result
/// `assignment`: the assignment itself where its role allows the operation; the
/// failure `denied` where it does not; the plain refusal where no assignment was
/// found, so that the caller does not learn whether the team exists; and any
/// other failure of the look-up as it is.
pub open spec fn decision(
    result: Result<TeamAssignment, APIError>,
    assignment: Result<TeamAssignment, APIError>,
    operation: Operation,
    denied: Seq<char>,
) -> bool {
    match assignment {
        Ok(held) => if permits(held.role, operation) {
            result == Ok::<TeamAssignment, APIError>(held)
        } else {
            result is Err && failure(result->Err_0, ErrorKind::Forbidden, denied)
        },
        Err(error) => if error.spec_is_not_found() {
            result is Err && failure(result->Err_0, ErrorKind::Forbidden, ACCESS_DENIED@)
        } else {
            result == Err::<TeamAssignment, APIError>(error)
        },
    }
}

/// The decision on a caller, read from what a store holds: the caller's assignment
/// where there is one and its role allows the operation, else a refusal.
pub open spec fn verdict(
    result: Result<TeamAssignment, APIError>,
    held: Lookup<TeamAssignment>,
    operation: Operation,
    denied: Seq<char>,
) -> bool {
    match held {
        Lookup::Found(assignment) => if permits(assignment.role, operation) {
            result == Ok::<TeamAssignment, APIError>(assignment)
        } else {
            result is Err && failure(result->Err_0, ErrorKind::Forbidden, denied)
        },
        _ => result is Err && failure(result->Err_0, ErrorKind::Forbidden, ACCESS_DENIED@),
    }
}

/// Whether an operation on a team is granted by what the store holds for the caller.
pub open spec fn granted(held: Lookup<TeamAssignment>, operation: Operation) -> bool {
    held matches Lookup::Found(assignment) && permits(assignment.role, operation)
}

impl Role {
    /// Does this role allow the operation?
    pub fn allows(self, operation: Operation) -> (allowed: bool)
        ensures
            allowed == permits(self, operation),
    {
        match operation {
            Operation::Read => match self {
                Role::Manager | Role::Member | Role::Viewer => true,
                Role::Invalid => false,
            },
            Operation::WriteReport => match self {
                Role::Manager | Role::Member => true,
                Role::Viewer | Role::Invalid => false,
            },
            Operation::ManageMembership | Operation::ManageTeam => match self {
                Role::Manager => true,
                Role::Member | Role::Viewer | Role::Invalid => false,
            },
        }
    }
}

/// Decides on a caller from the result of looking up the caller's assignment.
pub fn evaluate(
    assignment: Result<TeamAssignment, APIError>,
    operation: Operation,
    denied: &str,
) -> (result: Result<TeamAssignment, APIError>)
    ensures
        decision(result, assignment, operation, denied@),
{
    match assignment {
        Ok(held) => if held.role.allows(operation) {
            Ok(held)
        } else {
            Err(APIError::forbidden(denied))
        },
        Err(error) => if error.is_not_found() {
            Err(APIError::forbidden(ACCESS_DENIED))
        } else {
            Err(error)
        },
    }
}

/// Whether a caller is granted an operation, from the result of looking up the
/// caller's assignment: as the role found allows; not where no assignment was
/// found; and any other failure of the look-up as it is.
pub fn is_granted(assignment: Result<TeamAssignment, APIError>, operation: Operation) -> (answer:
    Result<bool, APIError>)
    ensures
        match assignment {
            Ok(held) => answer == Ok::<bool, APIError>(permits(held.role, operation)),
            Err(error) => if error.spec_is_not_found() {
                answer == Ok::<bool, APIError>(false)
            } else {
                answer == Err::<bool, APIError>(error)
            },
        },
{
    match assignment {
        Ok(held) => Ok(held.role.allows(operation)),
        Err(error) => if error.is_not_found() {
            Ok(false)
        } else {
            Err(error)
        },
    }
}

/// Whether the store grants `principal` the `operation` on `team`.
pub fn may(store: &MemoryStore, principal: u128, team: u128, operation: Operation) -> (allowed: bool)
    ensures
        allowed == granted(lookup(store@.team_assignments, team, principal), operation),
{
    match is_granted(store.get_team_assignment(team, principal), operation) {
        Ok(allowed) => allowed,
        Err(_) => false,
    }
}

/// Decides whether `principal` may do `operation` on `team`, by the assignment
/// that the store holds.
pub fn authorize(
    store: &MemoryStore,
    principal: u128,
    team: u128,
    operation: Operation,
    denied: &str,
) -> (result: Result<TeamAssignment, APIError>)
    ensures
        verdict(result, lookup(store@.team_assignments, team, principal), operation, denied@),
        result is Ok <==> granted(lookup(store@.team_assignments, team, principal), operation),
{
    evaluate(store.get_team_assignment(team, principal), operation, denied)
}

/// Refuses a change that a principal would make to its own assignment.
pub fn guard_not_self(caller: u128, target: u128, message: &str) -> (result: Result<(), APIError>)
    ensures
        caller != target ==> result is Ok,
        caller == target ==> result is Err && failure(
            result->Err_0,
            ErrorKind::BadRequest,
            message@,
        ),
{
    if caller == target {
        Err(APIError::bad_request(message))
    } else {
        Ok(())
    }
}

/// A viewer may read and nothing more; a member may also write reports; a manager
/// may do everything; and a role that is not recognised may do nothing.
pub proof fn lemma_role_gating(operation: Operation)
    ensures
        permits(Role::Viewer, operation) <==> operation == Operation::Read,
        permits(Role::Member, operation) <==> (operation == Operation::Read || operation
            == Operation::WriteReport),
        permits(Role::Manager, operation),
        !permits(Role::Invalid, operation),
{
}

/// Whoever may manage may write reports, and whoever may write reports may read:
/// the roles are ordered Manager, Member, Viewer by what they allow.
pub proof fn lemma_permissions_nest(role: Role)
    ensures
        permits(role, Operation::ManageTeam) == permits(role, Operation::ManageMembership),
        permits(role, Operation::ManageMembership) ==> permits(role, Operation::WriteReport),
        permits(role, Operation::WriteReport) ==> permits(role, Operation::Read),
{
}

/// Is `name` one of `names`?
pub open spec fn names_hold(names: Seq<String>, name: Seq<char>) -> bool {
    exists|i: int| 0 <= i < names.len() && (#[trigger] names[i])@ == name
}

/// Is one of `wanted` among `held`?
pub open spec fn holds_any(held: Seq<String>, wanted: Seq<String>) -> bool {
    exists|j: int| 0 <= j < wanted.len() && names_hold(held, (#[trigger] wanted[j])@)
}

/// Is `name` one of `names`? Names are compared letter for letter.
pub fn holds(names: &Vec<String>, name: &str) -> (found: bool)
    ensures
        found == names_hold(names@, name@),
{
    let wanted = name.to_owned();
    let mut n: usize = 0;
    while n < names.len()
        invariant
            n <= names@.len(),
            wanted@ == name@,
            forall|i: int| 0 <= i < n ==> (#[trigger] names@[i])@ != name@,
        decreases names@.len() - n,
    {
        if names[n] == wanted {
            return true;
        }
        n += 1;
    }
    false
}

/// Admits a token that claims one of the roles `allowed`, and refuses any other as
/// forbidden.
pub fn require_role(claimed: &Vec<String>, allowed: &Vec<String>) -> (result: Result<(), APIError>)
    ensures
        holds_any(claimed@, allowed@) ==> result is Ok,
        !holds_any(claimed@, allowed@) ==> result is Err && failure(
            result->Err_0,
            ErrorKind::Forbidden,
            ROLE_MISSING@,
        ),
{
    let mut n: usize = 0;
    while n < allowed.len()
        invariant
            n <= allowed@.len(),
            forall|j: int| 0 <= j < n ==> !names_hold(claimed@, (#[trigger] allowed@[j])@),
        decreases allowed@.len() - n,
    {
        if holds(claimed, allowed[n].as_str()) {
            return Ok(());
        }
        n += 1;
    }
    Err(APIError::forbidden(ROLE_MISSING))
}

/// Admits a token that was issued for the scope `needed`, and refuses any other as
/// forbidden.
pub fn require_scope(issued: &Vec<String>, needed: &str) -> (result: Result<(), APIError>)
    ensures
        names_hold(issued@, needed@) ==> result is Ok,
        !names_hold(issued@, needed@) ==> result is Err && failure(
            result->Err_0,
            ErrorKind::Forbidden,
            SCOPE_MISSING@,
        ),
{
    if holds(issued, needed) {
        Ok(())
    } else {
        Err(APIError::forbidden(SCOPE_MISSING))
    }
}

} // verus!
