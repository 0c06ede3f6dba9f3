use crate::auth::{authorize, granted, guard_not_self, may, verdict, Operation};
use crate::error::{failure, APIError, ErrorKind};
use crate::ids::{is_random_id, new_id, parse_uuid, uuid_number};
use crate::memory::{acknowledges, answers, lists, reports_wanted, MemoryStore, StoreState};
use crate::messages::{
    ACCESS_DENIED, CANNOT_MODIFY_SELF, CANNOT_REMOVE_SELF, DEFAULT_TEAM_NAME, MAY_NOT_ADD_REPORT,
    MAY_NOT_MANAGE_MEMBERS, MAY_NOT_MANAGE_TEAM, MAY_NOT_MANAGE_USERS, MAY_NOT_REMOVE_REPORT,
    OID_UNREADABLE, PRINCIPAL_HAS_NO_TEAMS, PRINCIPAL_NOT_FOUND, REPORT_ID_NOT_FOUND,
    REPORT_ID_UNREADABLE, TEAM_ID_NOT_FOUND, TEAM_ID_UNREADABLE, USER_ID_UNREADABLE,
    USER_NOT_FOUND,
};
use crate::models::{
    instant_of, text_of, HealthV1, QueryFilter, Report, ReportV1, Team, TeamAssignment,
    TeamAssignmentV1, TeamV1, User,
};
use crate::profile::{email_hash, email_hash_of};
use crate::role::{role_named, Role};
use crate::table::{
    all_rows, is_selection, lookup, removed, rows_of, stored, Keyed, Lookup, Rows,
};
use crate::text::{first_word, first_word_of};
use crate::time::Timestamp;
use vstd::prelude::*;

verus! {

/// What is known of a caller: the claims of a token that was checked elsewhere.
#[derive(Debug, PartialEq, Eq)]
pub struct AuthToken {
    /// The caller's principal identifier, in hexadecimal, with or without hyphens.
    pub oid: String,
    /// The caller's e-mail address.
    pub unique_name: String,
    /// The caller's full name.
    pub name: String,
}

/// Is `result` the failure of `kind` with `message`?
pub open spec fn refused<T>(
    result: Result<T, APIError>,
    kind: ErrorKind,
    message: Seq<char>,
) -> bool {
    result is Err && failure(result->Err_0, kind, message)
}

/// Was a profile for `principal`, with the first name `first`, written under
/// `hash`, and nothing else changed?
pub open spec fn user_written(
    before: Map<u128, User>,
    after: Map<u128, User>,
    hash: u128,
    principal: u128,
    first: Seq<char>,
) -> bool {
    &&& after.contains_key(hash)
    &&& after[hash].principal_id == principal
    &&& after[hash].email_hash == hash
    &&& after[hash].first_name@ == first
    &&& after == before.insert(hash, after[hash])
}

/// Was the team `team`, under the name `name`, written for `owner`, and nothing
/// else changed?
pub open spec fn team_written(
    before: Rows<Team>,
    after: Rows<Team>,
    owner: u128,
    team: u128,
    name: Seq<char>,
) -> bool {
    &&& lookup(after, owner, team) matches Lookup::Found(row) && row.team_id == team && row.user_id
        == owner && row.name@ == name
    &&& after == stored(before, owner, team, after[owner][team])
}

/// The state after a caller was given what every caller has: a profile, a team of
/// their own under their own identifier (kept as it is where they have one), and
/// the manager's role in it.
pub open spec fn user_team_ensured(
    before: StoreState,
    after: StoreState,
    principal: u128,
    hash: u128,
    first: Seq<char>,
) -> bool {
    &&& after.started_at == before.started_at
    &&& after.reports == before.reports
    &&& user_written(before.users, after.users, hash, principal, first)
    &&& if lookup(before.teams, principal, principal) is Found {
        after.teams == before.teams
    } else {
        team_written(before.teams, after.teams, principal, principal, DEFAULT_TEAM_NAME@)
    }
    &&& after.team_assignments == stored(
        before.team_assignments,
        principal,
        principal,
        TeamAssignment { user_id: principal, team_id: principal, role: Role::Manager },
    )
}

/// The state after the caller behind `token`, whose identifier is `principal`, was
/// given what every caller has.
pub open spec fn ensured(
    before: StoreState,
    after: StoreState,
    token: AuthToken,
    principal: u128,
) -> bool {
    user_team_ensured(
        before,
        after,
        principal,
        email_hash_of(token.unique_name@) as u128,
        first_word(token.name@),
    )
}

/// Reads an identifier, or fails with `unreadable` as a bad request.
pub fn parse_identifier(text: &str, unreadable: &str) -> (result: Result<u128, APIError>)
    ensures
        match uuid_number(text@) {
            Some(id) => result == Ok::<u128, APIError>(id),
            None => refused(result, ErrorKind::BadRequest, unreadable@),
        },
{
    match parse_uuid(text) {
        Some(id) => Ok(id),
        None => Err(APIError::bad_request(unreadable)),
    }
}

/// Is a team of their own still to be made for a caller, given what looking for
/// it came to? It is whenever the look-up did not find it.
pub fn lacks_own_team(found: &Result<Team, APIError>) -> (lacking: bool)
    ensures
        lacking == (*found is Err),
{
    match found {
        Ok(_) => false,
        Err(_) => true,
    }
}

/// Does a principal not see a team yet, given what looking for the principal's
/// row of the team came to? So it is where the row was not found, and is not
/// where it was; any other failure of the look-up ends the request.
pub fn lacks_team_row(seen: Result<Team, APIError>) -> (lacking: Result<bool, APIError>)
    ensures
        match seen {
            Ok(_) => lacking == Ok::<bool, APIError>(false),
            Err(error) => if error.spec_is_not_found() {
                lacking == Ok::<bool, APIError>(true)
            } else {
                lacking == Err::<bool, APIError>(error)
            },
        },
{
    match seen {
        Ok(_) => Ok(false),
        Err(error) => if error.is_not_found() {
            Ok(true)
        } else {
            Err(error)
        },
    }
}

/// Gives the principal what every caller has: a profile under `hash`, a team of
/// their own and the manager's role in it.
pub fn ensure_user_team_for(
    store: &mut MemoryStore,
    principal: u128,
    hash: u128,
    first_name: String,
) -> (result: Result<(), APIError>)
    ensures
        result is Ok,
        user_team_ensured(old(store)@, final(store)@, principal, hash, first_name@),
{
    // A profile that cannot be written is no reason to fail: it is kept for
    // convenience only.
    match store.store_user(principal, hash, first_name) {
        Ok(_) => {},
        Err(_) => {},
    }
    if lacks_own_team(&store.get_team(principal, principal)) {
        store.store_team(principal, principal, DEFAULT_TEAM_NAME.to_owned())?;
    }
    store.store_team_assignment(principal, principal, Role::Manager)?;
    Ok(())
}

/// Gives the caller what every caller has: a profile under the hash of their
/// e-mail address, a team of their own and the manager's role in it. Fails, and
/// changes nothing, where the caller's identifier cannot be read.
pub fn ensure_user_team(
    store: &mut MemoryStore,
    token: &AuthToken,
) -> (result: Result<(), APIError>)
    ensures
        match uuid_number(token.oid@) {
            Some(principal) => {
                &&& result is Ok
                &&& ensured(old(store)@, final(store)@, *token, principal)
            },
            None => {
                &&& refused(result, ErrorKind::BadRequest, OID_UNREADABLE@)
                &&& final(store)@ == old(store)@
            },
        },
{
    let principal = parse_identifier(token.oid.as_str(), OID_UNREADABLE)?;
    let hash = email_hash(token.unique_name.as_str());
    let first_name = first_word_of(token.name.as_str());
    ensure_user_team_for(store, principal, hash, first_name)
}

/// The liveness probe.
pub fn get_health_v1(store: &MemoryStore) -> (result: Result<HealthV1, APIError>)
    ensures
        result == Ok::<HealthV1, APIError>(
            HealthV1 { ok: true, started_at: store@.started_at },
        ),
{
    match store.health() {
        Ok(health) => Ok(HealthV1::from_health(health)),
        Err(error) => Err(error),
    }
}

/// The team `team` as the caller sees it.
pub fn get_team_v1(
    store: &MemoryStore,
    token: &AuthToken,
    team: &str,
) -> (result: Result<Team, APIError>)
    ensures
        match (uuid_number(team@), uuid_number(token.oid@)) {
            (None, _) => refused(result, ErrorKind::BadRequest, TEAM_ID_UNREADABLE@),
            (Some(_), None) => refused(result, ErrorKind::BadRequest, OID_UNREADABLE@),
            (Some(cid), Some(uid)) => answers(
                result,
                lookup(store@.teams, uid, cid),
                PRINCIPAL_NOT_FOUND@,
                TEAM_ID_NOT_FOUND@,
            ),
        },
{
    let cid = parse_identifier(team, TEAM_ID_UNREADABLE)?;
    let uid = parse_identifier(token.oid.as_str(), OID_UNREADABLE)?;
    store.get_team(cid, uid)
}

/// The teams that the caller sees, in ascending order of their identifiers.
pub fn get_teams_v1(store: &MemoryStore, token: &AuthToken) -> (result: Result<Vec<Team>, APIError>)
    ensures
        match uuid_number(token.oid@) {
            None => refused(result, ErrorKind::BadRequest, OID_UNREADABLE@),
            Some(uid) => lists(
                result,
                store@.teams,
                uid,
                all_rows::<Team>(),
                PRINCIPAL_HAS_NO_TEAMS@,
            ),
        },
{
    let uid = parse_identifier(token.oid.as_str(), OID_UNREADABLE)?;
    store.get_teams(uid)
}

/// Makes a team named as `team` is, under the identifier `fresh`, with the caller
/// as its owner and manager.
pub fn new_team_v1_as(
    store: &mut MemoryStore,
    token: &AuthToken,
    team: TeamV1,
    fresh: u128,
) -> (result: Result<Team, APIError>)
    ensures
        match uuid_number(token.oid@) {
            None => {
                &&& refused(result, ErrorKind::BadRequest, OID_UNREADABLE@)
                &&& final(store)@ == old(store)@
            },
            Some(uid) => {
                &&& result == Ok::<Team, APIError>(
                    Team { team_id: fresh, user_id: uid, name: team.name },
                )
                &&& final(store)@ == (StoreState {
                    teams: stored(old(store)@.teams, uid, fresh, result->Ok_0),
                    team_assignments: stored(
                        old(store)@.team_assignments,
                        fresh,
                        uid,
                        TeamAssignment { team_id: fresh, user_id: uid, role: Role::Manager },
                    ),
                    ..old(store)@
                })
            },
        },
{
    let uid = parse_identifier(token.oid.as_str(), OID_UNREADABLE)?;
    let made = store.store_team(fresh, uid, team.name)?;
    store.store_team_assignment(made.team_id, uid, Role::Manager)?;
    Ok(made)
}

/// Makes a team named as `team` is, under a new random identifier, with the caller
/// as its owner and manager.
pub fn new_team_v1(
    store: &mut MemoryStore,
    token: &AuthToken,
    team: TeamV1,
) -> (result: Result<Team, APIError>)
    ensures
        match uuid_number(token.oid@) {
            None => {
                &&& refused(result, ErrorKind::BadRequest, OID_UNREADABLE@)
                &&& final(store)@ == old(store)@
            },
            Some(uid) => {
                &&& result matches Ok(made) && made.user_id == uid && made.name == team.name
                    && is_random_id(made.team_id)
                &&& final(store)@ == (StoreState {
                    teams: stored(old(store)@.teams, uid, result->Ok_0.team_id, result->Ok_0),
                    team_assignments: stored(
                        old(store)@.team_assignments,
                        result->Ok_0.team_id,
                        uid,
                        TeamAssignment {
                            team_id: result->Ok_0.team_id,
                            user_id: uid,
                            role: Role::Manager,
                        },
                    ),
                    ..old(store)@
                })
            },
        },
{
    new_team_v1_as(store, token, team, new_id())
}

/// Writes the team `team`, named as `body` is, as the caller sees it. A team that
/// the caller sees already is renamed by this, and only a manager of the team
/// renames it; a team that the caller does not see yet is made.
pub fn store_team_v1(
    store: &mut MemoryStore,
    token: &AuthToken,
    team: &str,
    body: TeamV1,
) -> (result: Result<Team, APIError>)
    ensures
        match (uuid_number(team@), uuid_number(token.oid@)) {
            (None, _) => {
                &&& refused(result, ErrorKind::BadRequest, TEAM_ID_UNREADABLE@)
                &&& final(store)@ == old(store)@
            },
            (Some(_), None) => {
                &&& refused(result, ErrorKind::BadRequest, OID_UNREADABLE@)
                &&& final(store)@ == old(store)@
            },
            (Some(cid), Some(uid)) => {
                let held = lookup(old(store)@.team_assignments, cid, uid);
                if lookup(old(store)@.teams, uid, cid) is Found && !granted(
                    held,
                    Operation::ManageTeam,
                ) {
                    &&& denied_as(result, held, MAY_NOT_MANAGE_TEAM@)
                    &&& final(store)@ == old(store)@
                } else {
                    &&& result == Ok::<Team, APIError>(
                        Team { team_id: cid, user_id: uid, name: body.name },
                    )
                    &&& final(store)@ == (StoreState {
                        teams: stored(old(store)@.teams, uid, cid, result->Ok_0),
                        ..old(store)@
                    })
                }
            },
        },
{
    let cid = parse_identifier(team, TEAM_ID_UNREADABLE)?;
    let uid = parse_identifier(token.oid.as_str(), OID_UNREADABLE)?;
    if !lacks_team_row(store.get_team(cid, uid))? {
        authorize(store, uid, cid, Operation::ManageTeam, MAY_NOT_MANAGE_TEAM)?;
    }
    store.store_team(cid, uid, body.name)
}

/// The state after the caller `uid` gave up the team `cid`: the team is gone from
/// what the caller sees and, where it was there, so is the caller's role in it.
pub open spec fn team_removed(before: StoreState, uid: u128, cid: u128) -> StoreState {
    if lookup(before.teams, uid, cid) is Found {
        StoreState {
            teams: removed(before.teams, uid, cid),
            team_assignments: removed(before.team_assignments, cid, uid),
            ..before
        }
    } else {
        before
    }
}

/// Takes the team `team` out of what the caller sees, and with it the caller's
/// role in the team. Only a manager of the team does this. Where the manager does
/// not see the team nothing is changed.
pub fn remove_team_v1(
    store: &mut MemoryStore,
    token: &AuthToken,
    team: &str,
) -> (result: Result<(), APIError>)
    ensures
        match (uuid_number(team@), uuid_number(token.oid@)) {
            (None, _) => {
                &&& refused(result, ErrorKind::BadRequest, TEAM_ID_UNREADABLE@)
                &&& final(store)@ == old(store)@
            },
            (Some(_), None) => {
                &&& refused(result, ErrorKind::BadRequest, OID_UNREADABLE@)
                &&& final(store)@ == old(store)@
            },
            (Some(cid), Some(uid)) => {
                let held = lookup(old(store)@.team_assignments, cid, uid);
                if granted(held, Operation::ManageTeam) {
                    &&& final(store)@ == team_removed(old(store)@, uid, cid)
                    &&& acknowledges(
                        result,
                        lookup(old(store)@.teams, uid, cid),
                        PRINCIPAL_NOT_FOUND@,
                        TEAM_ID_NOT_FOUND@,
                    )
                } else {
                    &&& denied_as(result, held, MAY_NOT_MANAGE_TEAM@)
                    &&& final(store)@ == old(store)@
                }
            },
        },
{
    let cid = parse_identifier(team, TEAM_ID_UNREADABLE)?;
    let uid = parse_identifier(token.oid.as_str(), OID_UNREADABLE)?;
    authorize(store, uid, cid, Operation::ManageTeam, MAY_NOT_MANAGE_TEAM)?;
    store.remove_team(cid, uid)?;
    store.remove_team_assignment(cid, uid)
}

/// The profile kept under the e-mail hash `user`.
pub fn get_user_v1(
    store: &MemoryStore,
    token: &AuthToken,
    user: &str,
) -> (result: Result<User, APIError>)
    ensures
        match uuid_number(user@) {
            None => refused(result, ErrorKind::BadRequest, USER_ID_UNREADABLE@),
            Some(hash) => if store@.users.contains_key(hash) {
                result == Ok::<User, APIError>(store@.users[hash])
            } else {
                refused(result, ErrorKind::NotFound, USER_NOT_FOUND@)
            },
        },
{
    let hash = parse_identifier(user, USER_ID_UNREADABLE)?;
    store.get_user(hash)
}

/// Is `result` the refusal owed to a caller who holds `held` and is not granted
/// what was asked: `denied` for a role that does not reach, and the plain refusal
/// for a caller without an assignment?
pub open spec fn denied_as<T>(
    result: Result<T, APIError>,
    held: Lookup<TeamAssignment>,
    denied: Seq<char>,
) -> bool {
    match held {
        Lookup::Found(_) => refused(result, ErrorKind::Forbidden, denied),
        _ => refused(result, ErrorKind::Forbidden, ACCESS_DENIED@),
    }
}

/// The role of `user` in team `team`. Callers see their own role; only a manager
/// of the team sees another's.
pub fn get_team_assignment_v1(
    store: &MemoryStore,
    token: &AuthToken,
    team: &str,
    user: &str,
) -> (result: Result<TeamAssignment, APIError>)
    ensures
        match (uuid_number(team@), uuid_number(token.oid@), uuid_number(user@)) {
            (None, _, _) => refused(result, ErrorKind::BadRequest, TEAM_ID_UNREADABLE@),
            (Some(_), None, _) => refused(result, ErrorKind::BadRequest, OID_UNREADABLE@),
            (Some(_), Some(_), None) => refused(result, ErrorKind::BadRequest, USER_ID_UNREADABLE@),
            (Some(tid), Some(uid), Some(tuid)) => {
                let held = lookup(store@.team_assignments, tid, uid);
                if uid == tuid {
                    verdict(result, held, Operation::Read, ACCESS_DENIED@)
                } else if granted(held, Operation::ManageMembership) {
                    answers(
                        result,
                        lookup(store@.team_assignments, tid, tuid),
                        TEAM_ID_NOT_FOUND@,
                        PRINCIPAL_NOT_FOUND@,
                    )
                } else {
                    denied_as(result, held, MAY_NOT_MANAGE_MEMBERS@)
                }
            },
        },
{
    let tid = parse_identifier(team, TEAM_ID_UNREADABLE)?;
    let uid = parse_identifier(token.oid.as_str(), OID_UNREADABLE)?;
    let tuid = parse_identifier(user, USER_ID_UNREADABLE)?;
    if uid != tuid {
        authorize(store, uid, tid, Operation::ManageMembership, MAY_NOT_MANAGE_MEMBERS)?;
        store.get_team_assignment(tid, tuid)
    } else {
        authorize(store, uid, tid, Operation::Read, ACCESS_DENIED)
    }
}

/// The roles in team `team`, in ascending order of the principals, for a manager
/// of the team.
pub fn get_team_assignments_v1(
    store: &MemoryStore,
    token: &AuthToken,
    team: &str,
) -> (result: Result<Vec<TeamAssignment>, APIError>)
    ensures
        match (uuid_number(team@), uuid_number(token.oid@)) {
            (None, _) => refused(result, ErrorKind::BadRequest, TEAM_ID_UNREADABLE@),
            (Some(_), None) => refused(result, ErrorKind::BadRequest, OID_UNREADABLE@),
            (Some(cid), Some(uid)) => {
                let held = lookup(store@.team_assignments, cid, uid);
                if granted(held, Operation::ManageMembership) {
                    lists(
                        result,
                        store@.team_assignments,
                        cid,
                        all_rows::<TeamAssignment>(),
                        TEAM_ID_NOT_FOUND@,
                    )
                } else {
                    denied_as(result, held, MAY_NOT_MANAGE_USERS@)
                }
            },
        },
{
    let cid = parse_identifier(team, TEAM_ID_UNREADABLE)?;
    let uid = parse_identifier(token.oid.as_str(), OID_UNREADABLE)?;
    authorize(store, uid, cid, Operation::ManageMembership, MAY_NOT_MANAGE_USERS)?;
    store.get_team_assignments(cid)
}

/// Takes the role of `user` in team `team` away. Nobody does this to their own
/// role, whatever it is; only a manager of the team does it to another's.
pub fn remove_team_assignment_v1(
    store: &mut MemoryStore,
    token: &AuthToken,
    team: &str,
    user: &str,
) -> (result: Result<(), APIError>)
    ensures
        match (uuid_number(team@), uuid_number(token.oid@), uuid_number(user@)) {
            (None, _, _) => {
                &&& refused(result, ErrorKind::BadRequest, TEAM_ID_UNREADABLE@)
                &&& final(store)@ == old(store)@
            },
            (Some(_), None, _) => {
                &&& refused(result, ErrorKind::BadRequest, OID_UNREADABLE@)
                &&& final(store)@ == old(store)@
            },
            (Some(_), Some(_), None) => {
                &&& refused(result, ErrorKind::BadRequest, USER_ID_UNREADABLE@)
                &&& final(store)@ == old(store)@
            },
            (Some(cid), Some(uid), Some(tuid)) => {
                let held = lookup(old(store)@.team_assignments, cid, uid);
                if tuid == uid {
                    refused(result, ErrorKind::BadRequest, CANNOT_REMOVE_SELF@) && final(store)@
                        == old(store)@
                } else if granted(held, Operation::ManageMembership) {
                    &&& acknowledges(
                        result,
                        lookup(old(store)@.team_assignments, cid, tuid),
                        TEAM_ID_NOT_FOUND@,
                        PRINCIPAL_NOT_FOUND@,
                    )
                    &&& final(store)@ == (StoreState {
                        team_assignments: removed(old(store)@.team_assignments, cid, tuid),
                        ..old(store)@
                    })
                } else {
                    denied_as(result, held, MAY_NOT_MANAGE_USERS@) && final(store)@ == old(store)@
                }
            },
        },
{
    let cid = parse_identifier(team, TEAM_ID_UNREADABLE)?;
    let uid = parse_identifier(token.oid.as_str(), OID_UNREADABLE)?;
    let tuid = parse_identifier(user, USER_ID_UNREADABLE)?;
    guard_not_self(uid, tuid, CANNOT_REMOVE_SELF)?;
    authorize(store, uid, cid, Operation::ManageMembership, MAY_NOT_MANAGE_USERS)?;
    store.remove_team_assignment(cid, tuid)
}

/// The teams after `target` was made to see the team `cid`, which the manager sees as `known`: as
/// before where `target` sees it already, else with a row of the same name.
pub open spec fn team_shared(
    teams: Rows<Team>,
    known: Team,
    target: u128,
    cid: u128,
) -> Rows<Team> {
    if lookup(teams, target, cid) is Found {
        teams
    } else {
        stored(teams, target, cid, Team { team_id: cid, user_id: target, name: known.name })
    }
}

/// Gives `user` the role that `body` names in team `team`. Nobody does this to
/// their own role, whatever it is; only a manager of the team does it to
/// another's. Whoever is given a role also sees the team from then on, under the
/// name that the manager sees.
pub fn store_team_assignment_v1(
    store: &mut MemoryStore,
    token: &AuthToken,
    team: &str,
    user: &str,
    body: TeamAssignmentV1,
) -> (result: Result<TeamAssignment, APIError>)
    ensures
        match (uuid_number(team@), uuid_number(token.oid@), uuid_number(user@)) {
            (None, _, _) => {
                &&& refused(result, ErrorKind::BadRequest, TEAM_ID_UNREADABLE@)
                &&& final(store)@ == old(store)@
            },
            (Some(_), None, _) => {
                &&& refused(result, ErrorKind::BadRequest, OID_UNREADABLE@)
                &&& final(store)@ == old(store)@
            },
            (Some(_), Some(_), None) => {
                &&& refused(result, ErrorKind::BadRequest, USER_ID_UNREADABLE@)
                &&& final(store)@ == old(store)@
            },
            (Some(cid), Some(uid), Some(tuid)) => {
                let held = lookup(old(store)@.team_assignments, cid, uid);
                if tuid == uid {
                    refused(result, ErrorKind::BadRequest, CANNOT_MODIFY_SELF@) && final(store)@
                        == old(store)@
                } else if granted(held, Operation::ManageMembership) {
                    match lookup(old(store)@.teams, uid, cid) {
                        Lookup::Found(known) => {
                            &&& result == Ok::<TeamAssignment, APIError>(
                                TeamAssignment {
                                    team_id: cid,
                                    user_id: tuid,
                                    role: role_named(body.role@),
                                },
                            )
                            &&& final(store)@ == (StoreState {
                                teams: team_shared(old(store)@.teams, known, tuid, cid),
                                team_assignments: stored(
                                    old(store)@.team_assignments,
                                    cid,
                                    tuid,
                                    result->Ok_0,
                                ),
                                ..old(store)@
                            })
                        },
                        Lookup::NoPartition => {
                            &&& refused(result, ErrorKind::NotFound, PRINCIPAL_NOT_FOUND@)
                            &&& final(store)@ == old(store)@
                        },
                        Lookup::NoRow => {
                            &&& refused(result, ErrorKind::NotFound, TEAM_ID_NOT_FOUND@)
                            &&& final(store)@ == old(store)@
                        },
                    }
                } else {
                    denied_as(result, held, MAY_NOT_MANAGE_USERS@) && final(store)@ == old(store)@
                }
            },
        },
{
    let cid = parse_identifier(team, TEAM_ID_UNREADABLE)?;
    let uid = parse_identifier(token.oid.as_str(), OID_UNREADABLE)?;
    let tuid = parse_identifier(user, USER_ID_UNREADABLE)?;
    guard_not_self(uid, tuid, CANNOT_MODIFY_SELF)?;
    authorize(store, uid, cid, Operation::ManageMembership, MAY_NOT_MANAGE_USERS)?;
    let known = store.get_team(cid, uid)?;
    if lacks_team_row(store.get_team(cid, tuid))? {
        store.store_team(cid, tuid, known.name)?;
    }
    store.store_team_assignment(cid, tuid, Role::from_name(body.role.as_str()))
}

/// `state` with `reports` in place of its own reports.
pub open spec fn with_reports(state: StoreState, reports: Rows<Report>) -> StoreState {
    StoreState { reports, ..state }
}

fn copy_text(field: &Option<String>) -> (copy: Option<String>)
    ensures
        copy == *field,
{
    match field {
        Some(text) => Some(text.clone()),
        None => None,
    }
}

/// The caller's own report `id`. The caller is first given what every caller has,
/// and with it a role in the team of their own, which is the team that is read.
pub fn get_report_v1(
    store: &mut MemoryStore,
    token: &AuthToken,
    id: &str,
) -> (result: Result<Report, APIError>)
    ensures
        match (uuid_number(id@), uuid_number(token.oid@)) {
            (None, _) => {
                &&& refused(result, ErrorKind::BadRequest, REPORT_ID_UNREADABLE@)
                &&& final(store)@ == old(store)@
            },
            (Some(_), None) => {
                &&& refused(result, ErrorKind::BadRequest, OID_UNREADABLE@)
                &&& final(store)@ == old(store)@
            },
            (Some(rid), Some(uid)) => {
                &&& ensured(old(store)@, final(store)@, *token, uid)
                &&& granted(lookup(final(store)@.team_assignments, uid, uid), Operation::Read)
                &&& answers(
                    result,
                    lookup(old(store)@.reports, uid, rid),
                    TEAM_ID_NOT_FOUND@,
                    REPORT_ID_NOT_FOUND@,
                )
            },
        },
{
    let rid = parse_identifier(id, REPORT_ID_UNREADABLE)?;
    let uid = parse_identifier(token.oid.as_str(), OID_UNREADABLE)?;
    ensure_user_team(store, token)?;
    authorize(store, uid, uid, Operation::Read, ACCESS_DENIED)?;
    store.get_report(rid, uid)
}

/// The report `id` of team `team`, for a caller who may read the team. The caller
/// is first given what every caller has.
pub fn get_team_report_v1(
    store: &mut MemoryStore,
    token: &AuthToken,
    team: &str,
    id: &str,
) -> (result: Result<Report, APIError>)
    ensures
        match (uuid_number(id@), uuid_number(team@), uuid_number(token.oid@)) {
            (None, _, _) => {
                &&& refused(result, ErrorKind::BadRequest, REPORT_ID_UNREADABLE@)
                &&& final(store)@ == old(store)@
            },
            (Some(_), None, _) => {
                &&& refused(result, ErrorKind::BadRequest, TEAM_ID_UNREADABLE@)
                &&& final(store)@ == old(store)@
            },
            (Some(_), Some(_), None) => {
                &&& refused(result, ErrorKind::BadRequest, OID_UNREADABLE@)
                &&& final(store)@ == old(store)@
            },
            (Some(rid), Some(cid), Some(uid)) => {
                let held = lookup(final(store)@.team_assignments, cid, uid);
                &&& ensured(old(store)@, final(store)@, *token, uid)
                &&& if granted(held, Operation::Read) {
                    answers(
                        result,
                        lookup(old(store)@.reports, cid, rid),
                        TEAM_ID_NOT_FOUND@,
                        REPORT_ID_NOT_FOUND@,
                    )
                } else {
                    denied_as(result, held, ACCESS_DENIED@)
                }
            },
        },
{
    let rid = parse_identifier(id, REPORT_ID_UNREADABLE)?;
    let cid = parse_identifier(team, TEAM_ID_UNREADABLE)?;
    let uid = parse_identifier(token.oid.as_str(), OID_UNREADABLE)?;
    ensure_user_team(store, token)?;
    authorize(store, uid, cid, Operation::Read, ACCESS_DENIED)?;
    store.get_report(rid, cid)
}

/// The caller's own reports that pass `query`, in ascending order of their
/// identifiers. The caller is first given what every caller has.
pub fn get_reports_v1(
    store: &mut MemoryStore,
    token: &AuthToken,
    query: &QueryFilter,
) -> (result: Result<Vec<Report>, APIError>)
    ensures
        match uuid_number(token.oid@) {
            None => {
                &&& refused(result, ErrorKind::BadRequest, OID_UNREADABLE@)
                &&& final(store)@ == old(store)@
            },
            Some(uid) => {
                &&& ensured(old(store)@, final(store)@, *token, uid)
                &&& granted(lookup(final(store)@.team_assignments, uid, uid), Operation::Read)
                &&& lists(
                    result,
                    old(store)@.reports,
                    uid,
                    reports_wanted(text_of(query.metric), instant_of(query.after)),
                    TEAM_ID_NOT_FOUND@,
                )
            },
        },
{
    let uid = parse_identifier(token.oid.as_str(), OID_UNREADABLE)?;
    ensure_user_team(store, token)?;
    authorize(store, uid, uid, Operation::Read, ACCESS_DENIED)?;
    store.get_reports(uid, copy_text(&query.metric), query.after_instant())
}

/// The reports of team `team` that pass `query`, in ascending order of their
/// identifiers, for a caller who may read the team. The caller is first given what
/// every caller has.
pub fn get_team_reports_v1(
    store: &mut MemoryStore,
    token: &AuthToken,
    team: &str,
    query: &QueryFilter,
) -> (result: Result<Vec<Report>, APIError>)
    ensures
        match (uuid_number(team@), uuid_number(token.oid@)) {
            (None, _) => {
                &&& refused(result, ErrorKind::BadRequest, TEAM_ID_UNREADABLE@)
                &&& final(store)@ == old(store)@
            },
            (Some(_), None) => {
                &&& refused(result, ErrorKind::BadRequest, OID_UNREADABLE@)
                &&& final(store)@ == old(store)@
            },
            (Some(cid), Some(uid)) => {
                let held = lookup(final(store)@.team_assignments, cid, uid);
                &&& ensured(old(store)@, final(store)@, *token, uid)
                &&& if granted(held, Operation::Read) {
                    lists(
                        result,
                        old(store)@.reports,
                        cid,
                        reports_wanted(text_of(query.metric), instant_of(query.after)),
                        TEAM_ID_NOT_FOUND@,
                    )
                } else {
                    denied_as(result, held, ACCESS_DENIED@)
                }
            },
        },
{
    let cid = parse_identifier(team, TEAM_ID_UNREADABLE)?;
    let uid = parse_identifier(token.oid.as_str(), OID_UNREADABLE)?;
    ensure_user_team(store, token)?;
    authorize(store, uid, cid, Operation::Read, ACCESS_DENIED)?;
    store.get_reports(cid, copy_text(&query.metric), query.after_instant())
}

/// Takes out the caller's own report `id`. The caller is first given what every
/// caller has, and with it the manager's role in the team of their own, which is
/// the team whose report is taken out.
pub fn remove_report_v1(
    store: &mut MemoryStore,
    token: &AuthToken,
    id: &str,
) -> (result: Result<(), APIError>)
    ensures
        match (uuid_number(id@), uuid_number(token.oid@)) {
            (None, _) => {
                &&& refused(result, ErrorKind::BadRequest, REPORT_ID_UNREADABLE@)
                &&& final(store)@ == old(store)@
            },
            (Some(_), None) => {
                &&& refused(result, ErrorKind::BadRequest, OID_UNREADABLE@)
                &&& final(store)@ == old(store)@
            },
            (Some(rid), Some(uid)) => {
                &&& ensured(
                    old(store)@,
                    with_reports(final(store)@, old(store)@.reports),
                    *token,
                    uid,
                )
                &&& writable(final(store)@.team_assignments, uid, uid)
                &&& acknowledges(
                    result,
                    lookup(old(store)@.reports, uid, rid),
                    TEAM_ID_NOT_FOUND@,
                    REPORT_ID_NOT_FOUND@,
                )
                &&& final(store)@.reports == removed(old(store)@.reports, uid, rid)
            },
        },
{
    let rid = parse_identifier(id, REPORT_ID_UNREADABLE)?;
    let uid = parse_identifier(token.oid.as_str(), OID_UNREADABLE)?;
    ensure_user_team(store, token)?;
    let ghost mid = store@;
    authorize(store, uid, uid, Operation::WriteReport, MAY_NOT_REMOVE_REPORT)?;
    let result = store.remove_report(rid, uid);
    assert(with_reports(store@, old(store)@.reports) =~= mid);
    result
}

/// Takes out the report `id` of team `team`, for a caller who may write the
/// team's reports. The caller is first given what every caller has.
pub fn remove_team_report_v1(
    store: &mut MemoryStore,
    token: &AuthToken,
    team: &str,
    id: &str,
) -> (result: Result<(), APIError>)
    ensures
        match (uuid_number(id@), uuid_number(team@), uuid_number(token.oid@)) {
            (None, _, _) => {
                &&& refused(result, ErrorKind::BadRequest, REPORT_ID_UNREADABLE@)
                &&& final(store)@ == old(store)@
            },
            (Some(_), None, _) => {
                &&& refused(result, ErrorKind::BadRequest, TEAM_ID_UNREADABLE@)
                &&& final(store)@ == old(store)@
            },
            (Some(_), Some(_), None) => {
                &&& refused(result, ErrorKind::BadRequest, OID_UNREADABLE@)
                &&& final(store)@ == old(store)@
            },
            (Some(rid), Some(cid), Some(uid)) => {
                let held = lookup(final(store)@.team_assignments, cid, uid);
                &&& ensured(
                    old(store)@,
                    with_reports(final(store)@, old(store)@.reports),
                    *token,
                    uid,
                )
                &&& if granted(held, Operation::WriteReport) {
                    &&& acknowledges(
                        result,
                        lookup(old(store)@.reports, cid, rid),
                        TEAM_ID_NOT_FOUND@,
                        REPORT_ID_NOT_FOUND@,
                    )
                    &&& final(store)@.reports == removed(old(store)@.reports, cid, rid)
                } else {
                    denied_as(result, held, MAY_NOT_REMOVE_REPORT@) && final(store)@.reports == old(
                        store)@.reports
                }
            },
        },
{
    let rid = parse_identifier(id, REPORT_ID_UNREADABLE)?;
    let cid = parse_identifier(team, TEAM_ID_UNREADABLE)?;
    let uid = parse_identifier(token.oid.as_str(), OID_UNREADABLE)?;
    ensure_user_team(store, token)?;
    let ghost mid = store@;
    authorize(store, uid, cid, Operation::WriteReport, MAY_NOT_REMOVE_REPORT)?;
    let result = store.remove_report(rid, cid);
    assert(with_reports(store@, old(store)@.reports) =~= mid);
    result
}

/// What is done before a report is added to team `cid` by the caller `uid`: the
/// caller is given what every caller has where the team is the caller's own, and
/// nothing where it is another.
pub open spec fn prepared(
    before: StoreState,
    after: StoreState,
    token: AuthToken,
    uid: u128,
    cid: u128,
) -> bool {
    if cid == uid {
        ensured(before, after, token, uid)
    } else {
        after == before
    }
}

/// Adds a report with the metric and value of `new_report` to team `team`, under
/// the identifier `fresh` and taken at `now`, for a caller who may write the
/// team's reports.
pub fn new_team_report_v1_as(
    store: &mut MemoryStore,
    token: &AuthToken,
    team: &str,
    new_report: ReportV1,
    fresh: u128,
    now: Timestamp,
) -> (result: Result<Report, APIError>)
    ensures
        match (uuid_number(team@), uuid_number(token.oid@)) {
            (None, _) => {
                &&& refused(result, ErrorKind::BadRequest, TEAM_ID_UNREADABLE@)
                &&& final(store)@ == old(store)@
            },
            (Some(_), None) => {
                &&& refused(result, ErrorKind::BadRequest, OID_UNREADABLE@)
                &&& final(store)@ == old(store)@
            },
            (Some(cid), Some(uid)) => {
                let held = lookup(final(store)@.team_assignments, cid, uid);
                &&& prepared(
                    old(store)@,
                    with_reports(final(store)@, old(store)@.reports),
                    *token,
                    uid,
                    cid,
                )
                &&& if granted(held, Operation::WriteReport) {
                    &&& result == Ok::<Report, APIError>(
                        Report {
                            id: fresh,
                            team_id: cid,
                            timestamp: now,
                            metric: new_report.metric,
                            value_bits: new_report.value_bits,
                        },
                    )
                    &&& final(store)@.reports == stored(
                        old(store)@.reports,
                        cid,
                        fresh,
                        result->Ok_0,
                    )
                } else {
                    denied_as(result, held, MAY_NOT_ADD_REPORT@) && final(store)@.reports == old(
                        store)@.reports
                }
            },
        },
{
    let cid = parse_identifier(team, TEAM_ID_UNREADABLE)?;
    let uid = parse_identifier(token.oid.as_str(), OID_UNREADABLE)?;
    if cid == uid {
        ensure_user_team(store, token)?;
    }
    let ghost mid = store@;
    authorize(store, uid, cid, Operation::WriteReport, MAY_NOT_ADD_REPORT)?;
    let result = store.store_report_at(fresh, cid, new_report.metric, now, new_report.value_bits);
    assert(with_reports(store@, old(store)@.reports) =~= mid);
    result
}

/// Adds a report with the metric and value of `new_report` to team `team`, under
/// a new random identifier and taken now, for a caller who may write the team's
/// reports.
pub fn new_team_report_v1(
    store: &mut MemoryStore,
    token: &AuthToken,
    team: &str,
    new_report: ReportV1,
) -> (result: Result<Report, APIError>)
    ensures
        match (uuid_number(team@), uuid_number(token.oid@)) {
            (None, _) => {
                &&& refused(result, ErrorKind::BadRequest, TEAM_ID_UNREADABLE@)
                &&& final(store)@ == old(store)@
            },
            (Some(_), None) => {
                &&& refused(result, ErrorKind::BadRequest, OID_UNREADABLE@)
                &&& final(store)@ == old(store)@
            },
            (Some(cid), Some(uid)) => {
                let held = lookup(final(store)@.team_assignments, cid, uid);
                &&& prepared(
                    old(store)@,
                    with_reports(final(store)@, old(store)@.reports),
                    *token,
                    uid,
                    cid,
                )
                &&& if granted(held, Operation::WriteReport) {
                    &&& result matches Ok(report) && report.team_id == cid && report.metric
                        == new_report.metric && report.value_bits == new_report.value_bits
                        && is_random_id(report.id) && report.timestamp.text() is Some
                    &&& final(store)@.reports == stored(
                        old(store)@.reports,
                        cid,
                        result->Ok_0.id,
                        result->Ok_0,
                    )
                } else {
                    denied_as(result, held, MAY_NOT_ADD_REPORT@) && final(store)@.reports == old(
                        store)@.reports
                }
            },
        },
{
    new_team_report_v1_as(store, token, team, new_report, new_id(), Timestamp::now())
}

/// The reports after each report of `added` was written under its own keys, in
/// the order of `added`.
pub open spec fn all_stored(reports: Rows<Report>, added: Seq<Report>) -> Rows<Report>
    decreases added.len(),
{
    if added.len() == 0 {
        reports
    } else {
        stored(
            all_stored(reports, added.drop_last()),
            added.last().team_id,
            added.last().id,
            added.last(),
        )
    }
}

/// May the caller `uid` write reports of `team`, by the assignments held?
pub open spec fn writable(assignments: Rows<TeamAssignment>, team: u128, uid: u128) -> bool {
    granted(lookup(assignments, team, uid), Operation::WriteReport)
}

/// Is `added` one report for each team of `teams` whose reports the caller `uid`
/// may write, and for no other team, in ascending order of the teams, each with the
/// identifier `fresh`, the time `now` and the metric and value of `new_report`?
pub open spec fn one_for_each_team(
    added: Seq<Report>,
    teams: Map<u128, Team>,
    assignments: Rows<TeamAssignment>,
    uid: u128,
    new_report: ReportV1,
    fresh: u128,
    now: Timestamp,
) -> bool {
    &&& forall|i: int, j: int| 0 <= i < j < added.len() ==> added[i].team_id < added[j].team_id
    &&& forall|i: int|
        0 <= i < added.len() ==> {
            &&& teams.contains_key((#[trigger] added[i]).team_id)
            &&& writable(assignments, added[i].team_id, uid)
            &&& added[i] == (Report {
                id: fresh,
                team_id: added[i].team_id,
                timestamp: now,
                metric: new_report.metric,
                value_bits: new_report.value_bits,
            })
        }
    &&& forall|team: u128| #[trigger]
        teams.contains_key(team) && writable(assignments, team, uid) ==> exists|i: int|
            0 <= i < added.len() && (#[trigger] added[i]).team_id == team
}

/// Reports that are written change the partitions of their own teams only: a team
/// that none of them names has the reports it had, or none as before.
pub proof fn lemma_all_stored_elsewhere(reports: Rows<Report>, added: Seq<Report>, team: u128)
    requires
        forall|i: int| 0 <= i < added.len() ==> (#[trigger] added[i]).team_id != team,
    ensures
        all_stored(reports, added).contains_key(team) == reports.contains_key(team),
        rows_of(all_stored(reports, added), team) == rows_of(reports, team),
    decreases added.len(),
{
    if added.len() > 0 {
        let before = added.drop_last();
        assert forall|i: int| 0 <= i < before.len() implies (#[trigger] before[i]).team_id
            != team by {
            assert(before[i] == added[i]);
        }
        lemma_all_stored_elsewhere(reports, before, team);
        assert(added.last() == added[added.len() - 1]);
    }
}

/// Adds a report with the metric and value of `new_report` to every team that the
/// caller sees and may write reports of, each under the identifier `fresh` and
/// taken at `now`. A team in which the caller is a viewer, or holds no role, gets
/// no report. The caller is first given what every caller has.
pub fn new_report_v1_as(
    store: &mut MemoryStore,
    token: &AuthToken,
    new_report: ReportV1,
    fresh: u128,
    now: Timestamp,
) -> (result: Result<Vec<Report>, APIError>)
    ensures
        match uuid_number(token.oid@) {
            None => {
                &&& refused(result, ErrorKind::BadRequest, OID_UNREADABLE@)
                &&& final(store)@ == old(store)@
            },
            Some(uid) => {
                &&& ensured(
                    old(store)@,
                    with_reports(final(store)@, old(store)@.reports),
                    *token,
                    uid,
                )
                &&& result matches Ok(added) && one_for_each_team(
                    added@,
                    final(store)@.teams[uid],
                    final(store)@.team_assignments,
                    uid,
                    new_report,
                    fresh,
                    now,
                )
                &&& final(store)@.reports == all_stored(old(store)@.reports, result->Ok_0@)
                &&& forall|team: u128|
                    !writable(final(store)@.team_assignments, team, uid) ==> {
                        &&& #[trigger] rows_of(final(store)@.reports, team) == rows_of(
                            old(store)@.reports,
                            team,
                        )
                        &&& final(store)@.reports.contains_key(team) == old(
                            store)@.reports.contains_key(team)
                    }
            },
        },
{
    let uid = parse_identifier(token.oid.as_str(), OID_UNREADABLE)?;
    ensure_user_team(store, token)?;
    let ghost mid = store@;
    let teams = store.get_teams(uid)?;
    let mut added: Vec<Report> = Vec::new();
    let ghost mut places: Seq<int> = Seq::empty();
    let mut n: usize = 0;
    while n < teams.len()
        invariant
            n <= teams@.len(),
            uuid_number(token.oid@) == Some(uid),
            ensured(old(store)@, mid, *token, uid),
            is_selection(teams@, mid.teams[uid], all_rows::<Team>()),
            with_reports(store@, mid.reports) == mid,
            store@.reports == all_stored(mid.reports, added@),
            added@.len() == places.len(),
            forall|i: int|
                0 <= i < places.len() ==> {
                    &&& 0 <= #[trigger] places[i] < n
                    &&& writable(mid.team_assignments, teams@[places[i]].team_id, uid)
                    &&& added@[i] == (Report {
                        id: fresh,
                        team_id: teams@[places[i]].team_id,
                        timestamp: now,
                        metric: new_report.metric,
                        value_bits: new_report.value_bits,
                    })
                },
            forall|i: int, j: int| 0 <= i < j < places.len() ==> places[i] < places[j],
            forall|k: int|
                0 <= k < n && writable(mid.team_assignments, (#[trigger] teams@[k]).team_id, uid)
                    ==> exists|i: int| 0 <= i < places.len() && #[trigger] places[i] == k,
        decreases teams@.len() - n,
    {
        if may(store, uid, teams[n].team_id, Operation::WriteReport) {
            let ghost before = added@;
            let ghost placed = places;
            let report = store.store_report_at(
                fresh,
                teams[n].team_id,
                new_report.metric.clone(),
                now,
                new_report.value_bits,
            )?;
            added.push(report);
            proof {
                places = places.push(n as int);
                assert(added@.drop_last() =~= before);
                assert(with_reports(store@, mid.reports) =~= mid);
                assert forall|i: int| 0 <= i < places.len() implies {
                    &&& 0 <= #[trigger] places[i] < n + 1
                    &&& writable(mid.team_assignments, teams@[places[i]].team_id, uid)
                    &&& added@[i] == (Report {
                        id: fresh,
                        team_id: teams@[places[i]].team_id,
                        timestamp: now,
                        metric: new_report.metric,
                        value_bits: new_report.value_bits,
                    })
                } by {
                    if i < placed.len() {
                        assert(places[i] == placed[i]);
                        assert(added@[i] == before[i]);
                    }
                }
                assert forall|k: int|
                    0 <= k < n + 1 && writable(
                        mid.team_assignments,
                        (#[trigger] teams@[k]).team_id,
                        uid,
                    ) implies exists|i: int| 0 <= i < places.len() && #[trigger] places[i] == k by {
                    if k < n {
                        let i = choose|i: int| 0 <= i < placed.len() && #[trigger] placed[i] == k;
                        assert(places[i] == k);
                    } else {
                        assert(places[places.len() - 1] == k);
                    }
                }
            }
        }
        n += 1;
    }
    proof {
        assert(with_reports(store@, old(store)@.reports) == mid);
        assert forall|i: int| 0 <= i < added@.len() implies (#[trigger] added@[i]).team_id
            == teams@[places[i]].row_key() by {}
        assert forall|i: int, j: int| 0 <= i < j < added@.len() implies added@[i].team_id
            < added@[j].team_id by {
            assert(places[i] < places[j]);
        }
        assert forall|team: u128| #[trigger]
            mid.teams[uid].contains_key(team) && writable(
                mid.team_assignments,
                team,
                uid,
            ) implies exists|i: int|
            0 <= i < added@.len() && (#[trigger] added@[i]).team_id == team by {
            assert(all_rows::<Team>()(mid.teams[uid][team]));
            let k = choose|k: int| 0 <= k < teams@.len() && (#[trigger] teams@[k]).row_key() == team;
            let i = choose|i: int| 0 <= i < places.len() && #[trigger] places[i] == k;
            assert(added@[i].team_id == team);
        }
        assert forall|i: int| 0 <= i < added@.len() implies mid.teams[uid].contains_key(
            (#[trigger] added@[i]).team_id,
        ) by {
            assert(mid.teams[uid].contains_key(teams@[places[i]].row_key()));
        }
        assert forall|team: u128| !writable(store@.team_assignments, team, uid) implies {
            &&& #[trigger] rows_of(store@.reports, team) == rows_of(old(store)@.reports, team)
            &&& store@.reports.contains_key(team) == old(store)@.reports.contains_key(team)
        } by {
            lemma_all_stored_elsewhere(mid.reports, added@, team);
        }
    }
    Ok(added)
}

/// Adds a report with the metric and value of `new_report` to every team that the
/// caller sees and may write reports of, under one new random identifier and taken
/// now. The caller is first given what every caller has.
pub fn new_report_v1(
    store: &mut MemoryStore,
    token: &AuthToken,
    new_report: ReportV1,
) -> (result: Result<Vec<Report>, APIError>)
    ensures
        match uuid_number(token.oid@) {
            None => {
                &&& refused(result, ErrorKind::BadRequest, OID_UNREADABLE@)
                &&& final(store)@ == old(store)@
            },
            Some(uid) => {
                &&& ensured(
                    old(store)@,
                    with_reports(final(store)@, old(store)@.reports),
                    *token,
                    uid,
                )
                &&& result is Ok
                &&& exists|fresh: u128, now: Timestamp|
                    is_random_id(fresh) && now.text() is Some && one_for_each_team(
                        result->Ok_0@,
                        final(store)@.teams[uid],
                        final(store)@.team_assignments,
                        uid,
                        new_report,
                        fresh,
                        now,
                    )
                &&& final(store)@.reports == all_stored(old(store)@.reports, result->Ok_0@)
                &&& forall|team: u128|
                    !writable(final(store)@.team_assignments, team, uid) ==> {
                        &&& #[trigger] rows_of(final(store)@.reports, team) == rows_of(
                            old(store)@.reports,
                            team,
                        )
                        &&& final(store)@.reports.contains_key(team) == old(
                            store)@.reports.contains_key(team)
                    }
            },
        },
{
    new_report_v1_as(store, token, new_report, new_id(), Timestamp::now())
}

} // verus!
