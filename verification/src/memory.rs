use crate::error::{failure, APIError, ErrorKind};
use crate::messages::{
    PRINCIPAL_HAS_NO_TEAMS, PRINCIPAL_NOT_FOUND, REPORT_ID_NOT_FOUND, TEAM_ID_NOT_FOUND,
    UNAVAILABLE, USER_NOT_FOUND,
};
use crate::models::{text_of, Health, Report, Team, TeamAssignment, User};
use crate::role::Role;
use crate::table::{
    all_rows, is_listing, is_selection, keyed, keyed_rows, lemma_removed_keyed,
    lemma_removed_missing, lemma_stored_keyed,
    lookup, ordered_pairs, removed, stored, Keyed, Lookup, Rows, Table,
};
use crate::time::Timestamp;
use std::collections::BTreeMap;
use vstd::laws_cmp::group_laws_cmp;
use vstd::prelude::*;

verus! {

/// Everything an in-memory store holds.
pub struct StoreState {
    pub started_at: Timestamp,
    /// Reports by team, then by report.
    pub reports: Rows<Report>,
    /// Teams by owner, then by team.
    pub teams: Rows<Team>,
    /// Role assignments by team, then by principal.
    pub team_assignments: Rows<TeamAssignment>,
    /// Profiles by e-mail hash.
    pub users: Map<u128, User>,
}

impl StoreState {
    /// Does every entity stand under the keys that it names itself?
    pub open spec fn consistent(self) -> bool {
        &&& keyed(self.reports)
        &&& keyed(self.teams)
        &&& keyed(self.team_assignments)
        &&& forall|hash: u128| #[trigger]
            self.users.contains_key(hash) ==> self.users[hash].email_hash == hash
    }
}

/// Does `report` pass the narrowing: the named metric, if one is named, and a time
/// after the bound, if one is set? A report taken exactly at the bound does not
/// pass.
pub open spec fn report_wanted(
    report: Report,
    metric: Option<Seq<char>>,
    after: Option<Timestamp>,
) -> bool {
    &&& after matches Some(bound) ==> report.timestamp.spec_after(bound)
    &&& metric matches Some(name) ==> report.metric@ == name
}

/// The narrowing, as a test on reports.
pub open spec fn reports_wanted(
    metric: Option<Seq<char>>,
    after: Option<Timestamp>,
) -> spec_fn(Report) -> bool {
    |report: Report| report_wanted(report, metric, after)
}

/// Does `result` answer a look-up: the row that was found, or the failure for the
/// level that is missing?
pub open spec fn answers<V>(
    result: Result<V, APIError>,
    found: Lookup<V>,
    no_partition: Seq<char>,
    no_row: Seq<char>,
) -> bool {
    match found {
        Lookup::Found(value) => result == Ok::<V, APIError>(value),
        Lookup::NoPartition => result is Err && failure(
            result->Err_0,
            ErrorKind::NotFound,
            no_partition,
        ),
        Lookup::NoRow => result is Err && failure(result->Err_0, ErrorKind::NotFound, no_row),
    }
}

/// Does `result` answer a removal: success where the row was there, or the failure
/// for the level that was missing?
pub open spec fn acknowledges<V>(
    result: Result<(), APIError>,
    found: Lookup<V>,
    no_partition: Seq<char>,
    no_row: Seq<char>,
) -> bool {
    match found {
        Lookup::Found(_) => result is Ok,
        Lookup::NoPartition => result is Err && failure(
            result->Err_0,
            ErrorKind::NotFound,
            no_partition,
        ),
        Lookup::NoRow => result is Err && failure(result->Err_0, ErrorKind::NotFound, no_row),
    }
}

/// Does `result` answer a listing: the wanted rows of the partition in ascending
/// order of their keys, or the failure for a partition that is not there?
pub open spec fn lists<V: Keyed>(
    result: Result<Vec<V>, APIError>,
    rows: Rows<V>,
    partition: u128,
    wanted: spec_fn(V) -> bool, no_partition: Seq<char>,
) -> bool {
    if rows.contains_key(partition) {
        result is Ok && is_selection(result->Ok_0@, rows[partition], wanted)
    } else {
        result is Err && failure(result->Err_0, ErrorKind::NotFound, no_partition)
    }
}

/// The store that keeps everything in ordered maps in memory.
pub struct MemoryStore {
    started_at: Timestamp,
    reports: Table<Report>,
    teams: Table<Team>,
    team_assignments: Table<TeamAssignment>,
    users: BTreeMap<u128, User>,
}

impl View for MemoryStore {
    type V = StoreState;

    closed spec fn view(&self) -> StoreState {
        StoreState {
            started_at: self.started_at,
            reports: self.reports@,
            teams: self.teams@,
            team_assignments: self.team_assignments@,
            users: self.users@,
        }
    }
}

fn answer<V: Keyed>(
    found: Lookup<&V>,
    no_partition: &str,
    no_row: &str,
) -> (result: Result<V, APIError>)
    ensures
        match found {
            Lookup::Found(value) => result == Ok::<V, APIError>(*value),
            Lookup::NoPartition => result is Err && failure(
                result->Err_0,
                ErrorKind::NotFound,
                no_partition@,
            ),
            Lookup::NoRow => result is Err && failure(
                result->Err_0,
                ErrorKind::NotFound,
                no_row@,
            ),
        },
{
    match found {
        Lookup::Found(value) => Ok(value.duplicate()),
        Lookup::NoPartition => Err(APIError::not_found(no_partition)),
        Lookup::NoRow => Err(APIError::not_found(no_row)),
    }
}

fn acknowledge<V>(
    found: Lookup<V>,
    no_partition: &str,
    no_row: &str,
) -> (result: Result<(), APIError>)
    ensures
        acknowledges(result, found, no_partition@, no_row@),
{
    match found {
        Lookup::Found(_) => Ok(()),
        Lookup::NoPartition => Err(APIError::not_found(no_partition)),
        Lookup::NoRow => Err(APIError::not_found(no_row)),
    }
}

fn wanted(report: &Report, metric: &Option<String>, after: Option<Timestamp>) -> (keep: bool)
    ensures
        keep == report_wanted(*report, text_of(*metric), after),
{
    let late_enough = match after {
        Some(bound) => report.timestamp.after(bound),
        None => true,
    };
    let named = match metric {
        Some(name) => report.metric == *name,
        None => true,
    };
    late_enough && named
}

fn select_reports(
    pairs: &Vec<(u128, &Report)>,
    metric: &Option<String>,
    after: Option<Timestamp>,
    Ghost(rows): Ghost<Map<u128, Report>>,
) -> (items: Vec<Report>)
    requires
        is_listing(pairs@, rows),
        keyed_rows(rows),
    ensures
        is_selection(items@, rows, reports_wanted(text_of(*metric), after)),
{
    let ghost test = reports_wanted(text_of(*metric), after);
    let mut items: Vec<Report> = Vec::new();
    let ghost mut places: Seq<int> = Seq::empty();
    let mut n: usize = 0;
    while n < pairs.len()
        invariant
            n <= pairs@.len(),
            is_listing(pairs@, rows),
            keyed_rows(rows),
            test == reports_wanted(text_of(*metric), after),
            items@.len() == places.len(),
            forall|i: int|
                0 <= i < places.len() ==> 0 <= #[trigger] places[i] < n && items@[i]
                    == *pairs@[places[i]].1 && test(items@[i]),
            forall|i: int, j: int| 0 <= i < j < places.len() ==> places[i] < places[j],
            forall|k: int|
                0 <= k < n && test(*(#[trigger] pairs@[k]).1) ==> exists|i: int|
                    0 <= i < places.len() && #[trigger] places[i] == k,
        decreases pairs@.len() - n,
    {
        let report = pairs[n].1;
        if wanted(report, metric, after) {
            let ghost kept = items@;
            items.push(report.clone());
            proof {
                let ghost before = places;
                places = places.push(n as int);
                assert(test(*report));
                assert forall|i: int| 0 <= i < places.len() implies 0 <= #[trigger] places[i] < n
                    + 1 && items@[i] == *pairs@[places[i]].1 && test(items@[i]) by {
                    if i < before.len() {
                        assert(places[i] == before[i]);
                        assert(items@[i] == kept[i]);
                    }
                }
                assert forall|k: int|
                    0 <= k < n + 1 && test(*(#[trigger] pairs@[k]).1) implies exists|i: int|
                    0 <= i < places.len() && #[trigger] places[i] == k by {
                    if k < n {
                        let i = choose|i: int| 0 <= i < before.len() && #[trigger] before[i] == k;
                        assert(places[i] == k);
                    } else {
                        assert(places[places.len() - 1] == k);
                    }
                }
            }
        }
        n += 1;
    }
    proof {
        assert forall|i: int| 0 <= i < items@.len() implies (#[trigger] items@[i]).row_key()
            == pairs@[places[i]].0 by {
            assert(rows.contains_key(pairs@[places[i]].0));
        }
        assert forall|key: u128| #[trigger] rows.contains_key(key) && test(rows[key]) implies exists|
            i: int,
        |
            0 <= i < items@.len() && (#[trigger] items@[i]).row_key() == key by {
            let k = choose|k: int| 0 <= k < pairs@.len() && #[trigger] pairs@[k].0 == key;
            assert(test(*pairs@[k].1));
            let i = choose|i: int| 0 <= i < places.len() && #[trigger] places[i] == k;
            assert(items@[i].row_key() == key);
        }
    }
    items
}

impl MemoryStore {
    /// Every entity in a store stands under the keys that it names itself.
    #[verifier::type_invariant]
    pub open spec fn wf(&self) -> bool {
        self@.consistent()
    }

    /// An empty store that was started at `started_at`.
    pub fn started(started_at: Timestamp) -> (store: Self)
        ensures
            store@.started_at == started_at,
            store@.reports == Map::<u128, Map<u128, Report>>::empty(),
            store@.teams == Map::<u128, Map<u128, Team>>::empty(),
            store@.team_assignments == Map::<u128, Map<u128, TeamAssignment>>::empty(),
            store@.users == Map::<u128, User>::empty(),
    {
        MemoryStore {
            started_at,
            reports: Table::new(),
            teams: Table::new(),
            team_assignments: Table::new(),
            users: BTreeMap::new(),
        }
    }

    /// An empty store that is started now: at an instant of the calendar, which
    /// the liveness probe can write.
    pub fn new() -> (store: Self)
        ensures
            store@.started_at.text() is Some,
            store@.reports == Map::<u128, Map<u128, Report>>::empty(),
            store@.teams == Map::<u128, Map<u128, Team>>::empty(),
            store@.team_assignments == Map::<u128, Map<u128, TeamAssignment>>::empty(),
            store@.users == Map::<u128, User>::empty(),
    {
        MemoryStore::started(Timestamp::now())
    }

    /// The failure to report when the store cannot be reached at all, as when the
    /// lock that guards it cannot be taken.
    pub fn unavailable() -> (error: APIError)
        ensures
            failure(error, ErrorKind::Internal, UNAVAILABLE@),
    {
        APIError::internal(UNAVAILABLE)
    }

    /// The liveness probe: the store is up, and says since when.
    pub fn health(&self) -> (result: Result<Health, APIError>)
        ensures
            result == Ok::<Health, APIError>(Health { ok: true, started_at: self@.started_at }),
    {
        Ok(Health::since(self.started_at))
    }

    /// The report `id` of team `team`.
    pub fn get_report(&self, id: u128, team: u128) -> (result: Result<Report, APIError>)
        ensures
            answers(
                result,
                lookup(self@.reports, team, id),
                TEAM_ID_NOT_FOUND@,
                REPORT_ID_NOT_FOUND@,
            ),
    {
        answer(self.reports.get(team, id), TEAM_ID_NOT_FOUND, REPORT_ID_NOT_FOUND)
    }

    /// The reports of team `team` that name `metric`, if one is given, and were
    /// taken after `after`, if one is given, in ascending order of their identifiers.
    /// A team that never had a report is not found.
    pub fn get_reports(
        &self,
        team: u128,
        metric: Option<String>,
        after: Option<Timestamp>,
    ) -> (result: Result<Vec<Report>, APIError>)
        ensures
            lists(
                result,
                self@.reports,
                team,
                reports_wanted(text_of(metric), after),
                TEAM_ID_NOT_FOUND@,
            ),
    {
        proof {
            use_type_invariant(self);
        }
        match self.reports.partition(team) {
            None => Err(APIError::not_found(TEAM_ID_NOT_FOUND)),
            Some(rows) => {
                let pairs = ordered_pairs(rows);
                Ok(select_reports(&pairs, &metric, after, Ghost(rows@)))
            },
        }
    }

    /// Writes a report, taken at `timestamp`, in place of any report with its key.
    pub fn store_report_at(
        &mut self,
        id: u128,
        team: u128,
        metric: String,
        timestamp: Timestamp,
        value_bits: u32,
    ) -> (result: Result<Report, APIError>)
        ensures
            result == Ok::<Report, APIError>(
                Report { id, team_id: team, timestamp, metric, value_bits },
            ),
            final(self)@ == (StoreState {
                reports: stored(old(self)@.reports, team, id, result->Ok_0),
                ..old(self)@
            }),
    {
        let report = Report { id, team_id: team, timestamp, metric, value_bits };
        proof {
            use_type_invariant(&*self);
            lemma_stored_keyed(self@.reports, report);
        }
        // The rows leave the store while they change and come back changed: the
        // store itself is at no time without its invariant.
        let mut rows = Table::new();
        std::mem::swap(&mut self.reports, &mut rows);
        rows.put(team, id, report.clone());
        std::mem::swap(&mut self.reports, &mut rows);
        Ok(report)
    }

    /// Writes a report, in place of any report with its key. A report without a
    /// time is taken to be of now, which is a time that can be written.
    pub fn store_report(
        &mut self,
        id: u128,
        team: u128,
        metric: String,
        timestamp: Option<Timestamp>,
        value_bits: u32,
    ) -> (result: Result<Report, APIError>)
        ensures
            result matches Ok(report) && report.id == id && report.team_id == team && report.metric
                == metric && report.value_bits == value_bits && (timestamp matches Some(given)
                ==> report.timestamp == given),
            timestamp is None ==> result->Ok_0.timestamp.text() is Some,
            final(self)@ == (StoreState {
                reports: stored(old(self)@.reports, team, id, result->Ok_0),
                ..old(self)@
            }),
    {
        let taken = match timestamp {
            Some(given) => given,
            None => Timestamp::now(),
        };
        self.store_report_at(id, team, metric, taken, value_bits)
    }

    /// Takes out the report `id` of team `team`.
    pub fn remove_report(&mut self, id: u128, team: u128) -> (result: Result<(), APIError>)
        ensures
            acknowledges(
                result,
                lookup(old(self)@.reports, team, id),
                TEAM_ID_NOT_FOUND@,
                REPORT_ID_NOT_FOUND@,
            ),
            final(self)@ == (StoreState {
                reports: removed(old(self)@.reports, team, id),
                ..old(self)@
            }),
            result is Err ==> final(self)@ == old(self)@,
    {
        proof {
            use_type_invariant(&*self);
            lemma_removed_keyed(self@.reports, team, id);
            if !(lookup(self@.reports, team, id) is Found) {
                lemma_removed_missing(self@.reports, team, id);
            }
        }
        let mut rows = Table::new();
        std::mem::swap(&mut self.reports, &mut rows);
        let gone = rows.delete(team, id);
        std::mem::swap(&mut self.reports, &mut rows);
        acknowledge(gone, TEAM_ID_NOT_FOUND, REPORT_ID_NOT_FOUND)
    }

    /// The team `id` as `principal_id` sees it.
    pub fn get_team(&self, id: u128, principal_id: u128) -> (result: Result<Team, APIError>)
        ensures
            answers(
                result,
                lookup(self@.teams, principal_id, id),
                PRINCIPAL_NOT_FOUND@,
                TEAM_ID_NOT_FOUND@,
            ),
    {
        answer(self.teams.get(principal_id, id), PRINCIPAL_NOT_FOUND, TEAM_ID_NOT_FOUND)
    }

    /// The teams that `principal_id` sees, in ascending order of their identifiers.
    /// A principal that never had a team is not found.
    pub fn get_teams(&self, principal_id: u128) -> (result: Result<Vec<Team>, APIError>)
        ensures
            lists(result, self@.teams, principal_id, all_rows::<Team>(), PRINCIPAL_HAS_NO_TEAMS@),
    {
        proof {
            use_type_invariant(self);
        }
        match self.teams.list(principal_id) {
            Some(teams) => Ok(teams),
            None => Err(APIError::not_found(PRINCIPAL_HAS_NO_TEAMS)),
        }
    }

    /// Writes team `team_id` as `principal_id` sees it, in place of any such row.
    pub fn store_team(
        &mut self,
        team_id: u128,
        principal_id: u128,
        name: String,
    ) -> (result: Result<Team, APIError>)
        ensures
            result == Ok::<Team, APIError>(Team { team_id, user_id: principal_id, name }),
            final(self)@ == (StoreState {
                teams: stored(old(self)@.teams, principal_id, team_id, result->Ok_0),
                ..old(self)@
            }),
    {
        let team = Team { team_id, user_id: principal_id, name };
        proof {
            use_type_invariant(&*self);
            lemma_stored_keyed(self@.teams, team);
        }
        let mut rows = Table::new();
        std::mem::swap(&mut self.teams, &mut rows);
        rows.put(principal_id, team_id, team.clone());
        std::mem::swap(&mut self.teams, &mut rows);
        Ok(team)
    }

    /// Takes team `id` out of what `principal_id` sees.
    pub fn remove_team(&mut self, id: u128, principal_id: u128) -> (result: Result<(), APIError>)
        ensures
            acknowledges(
                result,
                lookup(old(self)@.teams, principal_id, id),
                PRINCIPAL_NOT_FOUND@,
                TEAM_ID_NOT_FOUND@,
            ),
            final(self)@ == (StoreState {
                teams: removed(old(self)@.teams, principal_id, id),
                ..old(self)@
            }),
            result is Err ==> final(self)@ == old(self)@,
    {
        proof {
            use_type_invariant(&*self);
            lemma_removed_keyed(self@.teams, principal_id, id);
            if !(lookup(self@.teams, principal_id, id) is Found) {
                lemma_removed_missing(self@.teams, principal_id, id);
            }
        }
        let mut rows = Table::new();
        std::mem::swap(&mut self.teams, &mut rows);
        let gone = rows.delete(principal_id, id);
        std::mem::swap(&mut self.teams, &mut rows);
        acknowledge(gone, PRINCIPAL_NOT_FOUND, TEAM_ID_NOT_FOUND)
    }

    /// The role of `principal_id` in team `team_id`.
    pub fn get_team_assignment(
        &self,
        team_id: u128,
        principal_id: u128,
    ) -> (result: Result<TeamAssignment, APIError>)
        ensures
            answers(
                result,
                lookup(self@.team_assignments, team_id, principal_id),
                TEAM_ID_NOT_FOUND@,
                PRINCIPAL_NOT_FOUND@,
            ),
    {
        answer(
            self.team_assignments.get(team_id, principal_id),
            TEAM_ID_NOT_FOUND,
            PRINCIPAL_NOT_FOUND,
        )
    }

    /// The roles in team `team_id`, in ascending order of the principals. A team
    /// that never had an assignment is not found.
    pub fn get_team_assignments(
        &self,
        team_id: u128,
    ) -> (result: Result<Vec<TeamAssignment>, APIError>)
        ensures
            lists(
                result,
                self@.team_assignments,
                team_id,
                all_rows::<TeamAssignment>(),
                TEAM_ID_NOT_FOUND@,
            ),
    {
        proof {
            use_type_invariant(self);
        }
        match self.team_assignments.list(team_id) {
            Some(assignments) => Ok(assignments),
            None => Err(APIError::not_found(TEAM_ID_NOT_FOUND)),
        }
    }

    /// Gives `principal_id` the role `role` in team `team_id`, in place of any role
    /// held there before.
    pub fn store_team_assignment(
        &mut self,
        team_id: u128,
        principal_id: u128,
        role: Role,
    ) -> (result: Result<TeamAssignment, APIError>)
        ensures
            result == Ok::<TeamAssignment, APIError>(
                TeamAssignment { team_id, user_id: principal_id, role },
            ),
            final(self)@ == (StoreState {
                team_assignments: stored(
                    old(self)@.team_assignments,
                    team_id,
                    principal_id,
                    result->Ok_0,
                ),
                ..old(self)@
            }),
    {
        let assignment = TeamAssignment { team_id, user_id: principal_id, role };
        proof {
            use_type_invariant(&*self);
            lemma_stored_keyed(self@.team_assignments, assignment);
        }
        let mut rows = Table::new();
        std::mem::swap(&mut self.team_assignments, &mut rows);
        rows.put(team_id, principal_id, assignment);
        std::mem::swap(&mut self.team_assignments, &mut rows);
        Ok(assignment)
    }

    /// Takes the role of `principal_id` in team `team_id` away.
    pub fn remove_team_assignment(
        &mut self,
        team_id: u128,
        principal_id: u128,
    ) -> (result: Result<(), APIError>)
        ensures
            acknowledges(
                result,
                lookup(old(self)@.team_assignments, team_id, principal_id),
                TEAM_ID_NOT_FOUND@,
                PRINCIPAL_NOT_FOUND@,
            ),
            final(self)@ == (StoreState {
                team_assignments: removed(old(self)@.team_assignments, team_id, principal_id),
                ..old(self)@
            }),
            result is Err ==> final(self)@ == old(self)@,
    {
        proof {
            use_type_invariant(&*self);
            lemma_removed_keyed(self@.team_assignments, team_id, principal_id);
            if !(lookup(self@.team_assignments, team_id, principal_id) is Found) {
                lemma_removed_missing(self@.team_assignments, team_id, principal_id);
            }
        }
        let mut rows = Table::new();
        std::mem::swap(&mut self.team_assignments, &mut rows);
        let gone = rows.delete(team_id, principal_id);
        std::mem::swap(&mut self.team_assignments, &mut rows);
        acknowledge(gone, TEAM_ID_NOT_FOUND, PRINCIPAL_NOT_FOUND)
    }

    /// The profile kept under `email_hash`.
    pub fn get_user(&self, email_hash: u128) -> (result: Result<User, APIError>)
        ensures
            if self@.users.contains_key(email_hash) {
                result == Ok::<User, APIError>(self@.users[email_hash])
            } else {
                result is Err && failure(result->Err_0, ErrorKind::NotFound, USER_NOT_FOUND@)
            },
    {
        broadcast use group_laws_cmp;

        match self.users.get(&email_hash) {
            Some(user) => Ok(user.clone()),
            None => Err(APIError::not_found(USER_NOT_FOUND)),
        }
    }

    /// Writes a profile under `email_hash`, in place of any profile kept there.
    pub fn store_user(
        &mut self,
        principal_id: u128,
        email_hash: u128,
        first_name: String,
    ) -> (result: Result<User, APIError>)
        ensures
            result == Ok::<User, APIError>(User { principal_id, email_hash, first_name }),
            final(self)@ == (StoreState {
                users: old(self)@.users.insert(email_hash, result->Ok_0),
                ..old(self)@
            }),
    {
        broadcast use group_laws_cmp;

        let user = User { principal_id, email_hash, first_name };
        proof {
            use_type_invariant(&*self);
        }
        let mut users = BTreeMap::new();
        std::mem::swap(&mut self.users, &mut users);
        users.insert(email_hash, user.clone());
        std::mem::swap(&mut self.users, &mut users);
        Ok(user)
    }
}

} // verus!
