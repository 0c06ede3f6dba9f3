use crate::api::{
    all_stored, lemma_all_stored_elsewhere, one_for_each_team, refused, team_shared,
    user_team_ensured, writable,
};
use crate::auth::{granted, verdict, Operation};
use crate::error::{APIError, ErrorKind};
use crate::ids::{id_text, lemma_id_round_trip};
use crate::memory::{acknowledges, answers, lists, StoreState};
use crate::messages::ACCESS_DENIED;
use crate::models::{Report, ReportV1, Team, TeamAssignment, User};
use crate::remote::key_value;
use crate::role::Role;
use crate::time::Timestamp;
use crate::table::{
    keyed, lemma_removed_is_missing, lemma_stored_twice, lookup, removed, rows_of, stored, Keyed,
    Lookup, Rows,
};
use vstd::prelude::*;

verus! {

/// Round trip. A look-up that follows a write to the same key answers with the
/// value that was written.
pub proof fn law_round_trip<V>(
    rows: Rows<V>,
    partition: u128,
    row: u128,
    value: V,
    result: Result<V, APIError>,
    no_partition: Seq<char>,
    no_row: Seq<char>,
)
    requires
        answers(result, lookup(stored(rows, partition, row, value), partition, row), no_partition, no_row),
    ensures
        result == Ok::<V, APIError>(value),
{
}

/// Round trip of a profile. A profile that was written under a hash is the one
/// that is kept under that hash.
pub proof fn law_user_round_trip(users: Map<u128, User>, user: User)
    ensures
        users.insert(user.email_hash, user).contains_key(user.email_hash),
        users.insert(user.email_hash, user)[user.email_hash] == user,
{
}

/// Round trip of a key. A key that is written for the remote table and read back
/// is the same key.
pub proof fn law_key_round_trip(id: u128)
    ensures
        key_value(id_text(id)) == id,
{
    lemma_id_round_trip(id);
}

/// Upsert. After two writes to one key a look-up answers with the second value,
/// and the table is what it would be had only the second write been made: the
/// key has one row.
pub proof fn law_upsert<V>(
    rows: Rows<V>,
    partition: u128,
    row: u128,
    first: V,
    second: V,
    result: Result<V, APIError>,
    no_partition: Seq<char>,
    no_row: Seq<char>,
)
    requires
        answers(
            result,
            lookup(
                stored(stored(rows, partition, row, first), partition, row, second),
                partition,
                row,
            ),
            no_partition,
            no_row,
        ),
    ensures
        result == Ok::<V, APIError>(second),
        stored(stored(rows, partition, row, first), partition, row, second) == stored(
            rows,
            partition,
            row,
            second,
        ),
{
    lemma_stored_twice(rows, partition, row, first, second);
}

/// Partition isolation, of look-ups. In a table whose rows stand under their own
/// keys, what is found in a partition belongs to that partition.
pub proof fn law_lookup_stays_in_partition<V: Keyed>(
    rows: Rows<V>,
    partition: u128,
    row: u128,
    result: Result<V, APIError>,
    no_partition: Seq<char>,
    no_row: Seq<char>,
)
    requires
        keyed(rows),
        answers(result, lookup(rows, partition, row), no_partition, no_row),
        result is Ok,
    ensures
        result->Ok_0.partition_key() == partition,
        result->Ok_0.row_key() == row,
{
}

/// Partition isolation, of listings. In a table whose rows stand under their own
/// keys, every row that a listing of a partition holds belongs to that partition.
pub proof fn law_listing_stays_in_partition<V: Keyed>(
    rows: Rows<V>,
    partition: u128,
    wanted: spec_fn(V) -> bool, result: Result<Vec<V>,
    APIError>, no_partition: Seq<char>, i: int,
)
    requires
        keyed(rows),
        lists(result, rows, partition, wanted, no_partition),
        result is Ok,
        0 <= i < result->Ok_0@.len(),
    ensures
        result->Ok_0@[i].partition_key() == partition,
{
    let item = result->Ok_0@[i];
    assert(rows[partition].contains_key(item.row_key()));
}

/// Partition isolation, of writes. A write to one partition changes what no
/// look-up in another partition finds, and what no listing of another partition
/// holds.
pub proof fn law_write_stays_in_partition<V>(
    rows: Rows<V>,
    partition: u128,
    row: u128,
    value: V,
    other: u128,
    key: u128,
)
    requires
        other != partition,
    ensures
        lookup(stored(rows, partition, row, value), other, key) == lookup(rows, other, key),
        stored(rows, partition, row, value).contains_key(other) == rows.contains_key(other),
        rows_of(stored(rows, partition, row, value), other) == rows_of(rows, other),
{
}

/// Delete. After a row was taken out, a look-up of its key fails as not found,
/// and so does taking it out once more.
pub proof fn law_delete<V>(
    rows: Rows<V>,
    partition: u128,
    row: u128,
    found: Result<V, APIError>,
    again: Result<(), APIError>,
    no_partition: Seq<char>,
    no_row: Seq<char>,
)
    requires
        answers(found, lookup(removed(rows, partition, row), partition, row), no_partition, no_row),
        acknowledges(
            again,
            lookup(removed(rows, partition, row), partition, row),
            no_partition,
            no_row,
        ),
    ensures
        found is Err && found->Err_0.code == 404,
        again is Err && again->Err_0.code == 404,
        removed(removed(rows, partition, row), partition, row) == removed(rows, partition, row),
{
    lemma_removed_is_missing(rows, partition, row);
}

/// Filter. A listing holds a row of the partition exactly if the row is wanted,
/// and holds its rows in ascending order of their keys.
pub proof fn law_listing_is_exact<V: Keyed>(
    rows: Rows<V>,
    partition: u128,
    wanted: spec_fn(V) -> bool, result: Result<Vec<V>,
    APIError>, no_partition: Seq<char>, value: V,
)
    requires
        keyed(rows),
        rows.contains_key(partition),
        lists(result, rows, partition, wanted, no_partition),
    ensures
        result is Ok,
        result->Ok_0@.contains(value) <==> (rows[partition].contains_key(value.row_key())
            && rows[partition][value.row_key()] == value && wanted(value)),
        forall|i: int, j: int|
            0 <= i < j < result->Ok_0@.len() ==> result->Ok_0@[i].row_key() < result->Ok_0@[j].row_key(),
{
    let items = result->Ok_0@;
    if rows[partition].contains_key(value.row_key()) && rows[partition][value.row_key()] == value
        && wanted(value) {
        let i = choose|i: int| 0 <= i < items.len() && (#[trigger] items[i]).row_key() == value.row_key();
        assert(items[i] == value);
    }
    if items.contains(value) {
        let i = choose|i: int| 0 <= i < items.len() && items[i] == value;
        assert(rows[partition].contains_key(items[i].row_key()));
    }
}

/// Role gating. Of the holders of an assignment, a viewer is refused a report
/// write, as forbidden; a member and a manager are granted it.
pub proof fn law_role_gating(
    assignment: TeamAssignment,
    result: Result<TeamAssignment, APIError>,
    denied: Seq<char>,
)
    requires
        verdict(result, Lookup::Found(assignment), Operation::WriteReport, denied),
    ensures
        assignment.role == Role::Viewer ==> refused(result, ErrorKind::Forbidden, denied),
        assignment.role == Role::Invalid ==> refused(result, ErrorKind::Forbidden, denied),
        assignment.role == Role::Member ==> result == Ok::<TeamAssignment, APIError>(assignment),
        assignment.role == Role::Manager ==> result == Ok::<TeamAssignment, APIError>(assignment),
{
}

/// Existence privacy. A caller without an assignment in a team is refused as
/// forbidden, in the same words whether the team has assignments of others or
/// none at all: the refusal does not tell whether the team exists.
pub proof fn law_existence_privacy(
    assignments: Rows<TeamAssignment>,
    team: u128,
    caller: u128,
    operation: Operation,
    result: Result<TeamAssignment, APIError>,
    denied: Seq<char>,
)
    requires
        !(lookup(assignments, team, caller) is Found),
        verdict(result, lookup(assignments, team, caller), operation, denied),
    ensures
        refused(result, ErrorKind::Forbidden, ACCESS_DENIED@),
        verdict(result, Lookup::NoRow, operation, denied),
        verdict(result, Lookup::NoPartition, operation, denied),
{
}

/// Visibility. After a manager gave a principal a role in a team, that principal
/// finds the team under its identifier: under the name it had for the principal
/// before, or, where the principal did not see it, under the manager's name for it.
pub proof fn law_assignee_sees_team(teams: Rows<Team>, known: Team, target: u128, team: u128)
    ensures
        lookup(team_shared(teams, known, target, team), target, team) is Found,
        !(lookup(teams, target, team) is Found) ==> lookup(
            team_shared(teams, known, target, team),
            target,
            team,
        )->Found_0.name == known.name,
        lookup(teams, target, team) is Found ==> team_shared(
            teams,
            known,
            target,
            team,
        ) == teams,
{
}

/// Repair. Giving a caller what every caller has, once more, changes no team, no
/// assignment and no report, and adds no profile: the second time only writes the
/// profile again.
pub proof fn law_ensuring_again_repairs(
    first: StoreState,
    second: StoreState,
    third: StoreState,
    principal: u128,
    hash: u128,
    name: Seq<char>,
)
    requires
        user_team_ensured(first, second, principal, hash, name),
        user_team_ensured(second, third, principal, hash, name),
    ensures
        third.teams == second.teams,
        third.team_assignments == second.team_assignments,
        third.reports == second.reports,
        third.started_at == second.started_at,
        third.users.dom() == second.users.dom(),
        third.users[hash].principal_id == second.users[hash].principal_id,
        third.users[hash].first_name@ == second.users[hash].first_name@,
{
    let role = TeamAssignment { user_id: principal, team_id: principal, role: Role::Manager };
    lemma_stored_twice(first.team_assignments, principal, principal, role, role);
    assert(third.users.dom() =~= second.users.dom());
}

/// Ownership. Whoever made a team holds the manager's role in it and is granted
/// every operation on it.
pub proof fn law_maker_manages(
    assignments: Rows<TeamAssignment>,
    team: u128,
    maker: u128,
    operation: Operation,
)
    ensures
        granted(
            lookup(
                stored(
                    assignments,
                    team,
                    maker,
                    TeamAssignment { team_id: team, user_id: maker, role: Role::Manager },
                ),
                team,
                maker,
            ),
            operation,
        ),
{
}

/// Role gating, of the report that goes to every team. A team in which the caller
/// is a viewer, holds a role that is not known, or holds no role at all, has after
/// the call the reports that it had before, whether or not the caller sees it.
pub proof fn law_reports_go_to_writable_teams(
    reports: Rows<Report>,
    added: Seq<Report>,
    teams: Map<u128, Team>,
    assignments: Rows<TeamAssignment>,
    uid: u128,
    new_report: ReportV1,
    fresh: u128,
    now: Timestamp,
    team: u128,
)
    requires
        one_for_each_team(added, teams, assignments, uid, new_report, fresh, now),
        match lookup(assignments, team, uid) {
            Lookup::Found(held) => held.role == Role::Viewer || held.role == Role::Invalid,
            _ => true,
        },
    ensures
        rows_of(all_stored(reports, added), team) == rows_of(reports, team),
        all_stored(reports, added).contains_key(team) == reports.contains_key(team),
        forall|key: u128|
            lookup(all_stored(reports, added), team, key) == lookup(reports, team, key),
{
    assert(!writable(assignments, team, uid));
    lemma_all_stored_elsewhere(reports, added, team);
}

} // verus!
