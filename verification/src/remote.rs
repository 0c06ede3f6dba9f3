use crate::error::{failure, APIError, ErrorKind};
use crate::ids::{format_id, hex_number, id_text, parse_hex};
use crate::messages::{
    REMOTE_FAILURE, REMOTE_REPORT_NOT_FOUND, REMOTE_ROW_NOT_FOUND, REMOTE_TEAM_NOT_FOUND,
    REMOTE_USER_NOT_FOUND, TIME_UNWRITABLE,
};
use crate::models::{or_else, Report, Team, TeamAssignment, User};
use crate::role::{role_name, role_named, Role};
use crate::time::{parsed_instant, Timestamp};
use vstd::prelude::*;

verus! {

/// A report as a row of the remote table: both keys as 32 hexadecimal digits, the
/// time as RFC 3339 text.
#[derive(Debug, PartialEq, Eq)]
pub struct ReportRow {
    pub partition_key: String,
    pub row_key: String,
    pub metric: String,
    pub timestamp: String,
    pub value_bits: u32,
}

/// A team as a row of the remote table.
#[derive(Debug, PartialEq, Eq)]
pub struct TeamRow {
    pub partition_key: String,
    pub row_key: String,
    pub name: String,
}

/// A role assignment as a row of the remote table.
#[derive(Debug, PartialEq, Eq)]
pub struct TeamAssignmentRow {
    pub partition_key: String,
    pub row_key: String,
    pub role: String,
}

/// A profile as a row of the remote table; the e-mail hash is both of its keys.
#[derive(Debug, PartialEq, Eq)]
pub struct UserRow {
    pub partition_key: String,
    pub row_key: String,
    pub principal_id: String,
    pub first_name: String,
}

/// The identifier that a key writes, or zero where it writes none.
pub open spec fn key_value(key: Seq<char>) -> u128 {
    or_else(hex_number(key), 0)
}

fn read_key(key: &str) -> (id: u128)
    ensures
        id == key_value(key@),
{
    match parse_hex(key) {
        Some(id) => id,
        None => 0,
    }
}

impl ReportRow {
    /// The row that keeps a report taken at `timestamp`. A time that lies outside
    /// the calendar cannot be written and is a bad request.
    pub fn new(
        id: u128,
        team: u128,
        metric: String,
        timestamp: Timestamp,
        value_bits: u32,
    ) -> (row: Result<Self, APIError>)
        ensures
            match timestamp.text() {
                Some(written) => row matches Ok(made) && made.partition_key@ == id_text(team)
                    && made.row_key@ == id_text(id) && made.metric == metric && made.timestamp@
                    == written && made.value_bits == value_bits,
                None => row is Err && failure(row->Err_0, ErrorKind::BadRequest, TIME_UNWRITABLE@),
            },
    {
        match timestamp.to_rfc3339() {
            Some(written) => Ok(
                ReportRow {
                    partition_key: format_id(team),
                    row_key: format_id(id),
                    metric,
                    timestamp: written,
                    value_bits,
                },
            ),
            None => Err(APIError::bad_request(TIME_UNWRITABLE)),
        }
    }

    /// The report that the row keeps. A key that cannot be read counts as zero, a
    /// time that cannot be read as `now`.
    pub fn report_at(&self, now: Timestamp) -> (report: Report)
        ensures
            report_kept(report, *self, now),
    {
        let id = read_key(self.row_key.as_str());
        let team_id = read_key(self.partition_key.as_str());
        let timestamp = Timestamp::or_at(Timestamp::parse_rfc3339(self.timestamp.as_str()), now);
        Report { id, team_id, metric: self.metric.clone(), timestamp, value_bits: self.value_bits }
    }

    /// The report that the row keeps. A key that cannot be read counts as zero, a
    /// time that cannot be read as the current time.
    pub fn report(&self) -> (report: Report)
        ensures
            report.id == key_value(self.row_key@),
            report.team_id == key_value(self.partition_key@),
            report.metric == self.metric,
            parsed_instant(self.timestamp@) matches Some(taken) ==> report.timestamp == taken,
            parsed_instant(self.timestamp@) is None ==> report.timestamp.text() is Some,
            report.value_bits == self.value_bits,
    {
        let now = match Timestamp::parse_rfc3339(self.timestamp.as_str()) {
            Some(taken) => taken,
            None => Timestamp::now(),
        };
        self.report_at(now)
    }
}

impl TeamRow {
    /// The row that keeps a team as `principal_id` sees it.
    pub fn new(team_id: u128, principal_id: u128, name: String) -> (row: Self)
        ensures
            row.partition_key@ == id_text(principal_id),
            row.row_key@ == id_text(team_id),
            row.name == name,
    {
        TeamRow { partition_key: format_id(principal_id), row_key: format_id(team_id), name }
    }

    /// The team that the row keeps. A key that cannot be read counts as zero.
    pub fn team(&self) -> (team: Team)
        ensures
            team_kept(team, *self),
    {
        Team {
            team_id: read_key(self.row_key.as_str()),
            user_id: read_key(self.partition_key.as_str()),
            name: self.name.clone(),
        }
    }
}

impl TeamAssignmentRow {
    /// The row that keeps the role of `principal_id` in team `team_id`.
    pub fn new(team_id: u128, principal_id: u128, role: Role) -> (row: Self)
        ensures
            row.partition_key@ == id_text(team_id),
            row.row_key@ == id_text(principal_id),
            row.role@ == role_name(role),
    {
        TeamAssignmentRow {
            partition_key: format_id(team_id),
            row_key: format_id(principal_id),
            role: role.name(),
        }
    }

    /// The assignment that the row keeps. A key that cannot be read counts as
    /// zero, a role name that is not known as `Invalid`.
    pub fn assignment(&self) -> (assignment: TeamAssignment)
        ensures
            assignment_kept(assignment, *self),
    {
        TeamAssignment {
            team_id: read_key(self.partition_key.as_str()),
            user_id: read_key(self.row_key.as_str()),
            role: Role::from_name(self.role.as_str()),
        }
    }
}

impl UserRow {
    /// The row that keeps a profile under its e-mail hash.
    pub fn new(principal_id: u128, email_hash: u128, first_name: String) -> (row: Self)
        ensures
            row.partition_key@ == id_text(email_hash),
            row.row_key@ == id_text(email_hash),
            row.principal_id@ == id_text(principal_id),
            row.first_name == first_name,
    {
        UserRow {
            partition_key: format_id(email_hash),
            row_key: format_id(email_hash),
            principal_id: format_id(principal_id),
            first_name,
        }
    }

    /// The profile that the row keeps. A key or an identifier that cannot be read
    /// counts as zero.
    pub fn user(&self) -> (user: User)
        ensures
            user_kept(user, *self),
    {
        User {
            email_hash: read_key(self.partition_key.as_str()),
            principal_id: read_key(self.principal_id.as_str()),
            first_name: self.first_name.clone(),
        }
    }
}

/// The answer to a look-up of one report: the report that the row keeps, with `now`
/// for a time that cannot be read, or the failure where the table has no such row.
pub fn found_report(found: Option<ReportRow>, now: Timestamp) -> (result: Result<Report, APIError>)
    ensures
        match found {
            Some(row) => result is Ok && report_kept(result->Ok_0, row, now),
            None => result is Err && failure(
                result->Err_0,
                ErrorKind::NotFound,
                REMOTE_REPORT_NOT_FOUND@,
            ),
        },
{
    match found {
        Some(row) => Ok(row.report_at(now)),
        None => Err(APIError::not_found(REMOTE_REPORT_NOT_FOUND)),
    }
}

/// The answer to a look-up of one team.
pub fn found_team(found: Option<TeamRow>) -> (result: Result<Team, APIError>)
    ensures
        match found {
            Some(row) => result is Ok && team_kept(result->Ok_0, row),
            None => result is Err && failure(
                result->Err_0,
                ErrorKind::NotFound,
                REMOTE_TEAM_NOT_FOUND@,
            ),
        },
{
    match found {
        Some(row) => Ok(row.team()),
        None => Err(APIError::not_found(REMOTE_TEAM_NOT_FOUND)),
    }
}

/// The answer to a look-up of one role assignment.
pub fn found_assignment(
    found: Option<TeamAssignmentRow>,
) -> (result: Result<TeamAssignment, APIError>)
    ensures
        match found {
            Some(row) => result is Ok && assignment_kept(result->Ok_0, row),
            None => result is Err && failure(
                result->Err_0,
                ErrorKind::NotFound,
                REMOTE_TEAM_NOT_FOUND@,
            ),
        },
{
    match found {
        Some(row) => Ok(row.assignment()),
        None => Err(APIError::not_found(REMOTE_TEAM_NOT_FOUND)),
    }
}

/// The answer to a look-up of one profile.
pub fn found_user(found: Option<UserRow>) -> (result: Result<User, APIError>)
    ensures
        match found {
            Some(row) => result is Ok && user_kept(result->Ok_0, row),
            None => result is Err && failure(
                result->Err_0,
                ErrorKind::NotFound,
                REMOTE_USER_NOT_FOUND@,
            ),
        },
{
    match found {
        Some(row) => Ok(row.user()),
        None => Err(APIError::not_found(REMOTE_USER_NOT_FOUND)),
    }
}

/// The failure to report when a look-up, a listing or a write did not come
/// through: a fault of the service, whatever it answered, which is handed on at
/// once and not tried again.
pub fn remote_fault() -> (error: APIError)
    ensures
        failure(error, ErrorKind::Internal, REMOTE_FAILURE@),
{
    APIError::internal(REMOTE_FAILURE)
}

/// The failure to report when a removal did not come through, by the status that
/// the service answered with, if it answered. A row that was to be removed and is
/// not there is not found, like any other missing row; everything else is a fault.
pub fn removal_failure(status: Option<u16>) -> (error: APIError)
    ensures
        status == Some(404u16) ==> failure(error, ErrorKind::NotFound, REMOTE_ROW_NOT_FOUND@),
        status != Some(404u16) ==> failure(error, ErrorKind::Internal, REMOTE_FAILURE@),
{
    match status {
        Some(404) => APIError::not_found(REMOTE_ROW_NOT_FOUND),
        _ => remote_fault(),
    }
}

/// What to do once a page of a listing has arrived.
#[derive(Clone, Copy, Debug, PartialEq, Eq, Structural)]
pub enum NextPage {
    /// Ask for the page that follows.
    Fetch,
    /// The listing is complete.
    Done,
}

/// The rows of a listing that arrives page by page. The rows are handed out only
/// once the last page has arrived, and never after a page failed to arrive.
pub struct PageCollector<R> {
    rows: Vec<R>,
    complete: bool,
    failed: bool,
}

impl<R> PageCollector<R> {
    /// The rows that have arrived, in the order of their arrival.
    pub closed spec fn collected(&self) -> Seq<R> {
        self.rows@
    }

    /// Has the remote table said that no page follows?
    pub closed spec fn is_complete(&self) -> bool {
        self.complete
    }

    /// Has a page failed to arrive?
    pub closed spec fn is_failed(&self) -> bool {
        self.failed
    }

    /// A listing of which no page has arrived yet.
    pub fn start() -> (collector: Self)
        ensures
            collector.collected() == Seq::<R>::empty(),
            !collector.is_complete(),
            !collector.is_failed(),
    {
        PageCollector { rows: Vec::new(), complete: false, failed: false }
    }

    /// Takes what came of asking the remote table for the next page.
    ///
    /// A page is added behind the rows that arrived before, and the next is to be
    /// fetched; the notice that no page follows completes the listing. A fetch that
    /// failed, whatever the service answered, fails the listing for good with a
    /// fault of the service: what arrived before is not handed out, and nothing is
    /// taken after. Pages that arrive after the listing is complete are not taken.
    pub fn absorb(&mut self, fetched: Result<Option<Vec<R>>, Option<u16>>) -> (next: Result<
        NextPage,
        APIError,
    >)
        ensures
            old(self).is_failed() ==> *final(self) == *old(self) && next is Err && failure(
                next->Err_0,
                ErrorKind::Internal,
                REMOTE_FAILURE@,
            ),
            !old(self).is_failed() ==> match fetched {
                Err(_) => {
                    &&& next is Err && failure(next->Err_0, ErrorKind::Internal, REMOTE_FAILURE@)
                    &&& final(self).is_failed()
                },
                Ok(page) => {
                    &&& !final(self).is_failed()
                    &&& if old(self).is_complete() {
                        *final(self) == *old(self) && next == Ok::<NextPage, APIError>(
                            NextPage::Done,
                        )
                    } else {
                        match page {
                            Some(rows) => {
                                &&& final(self).collected() == old(self).collected() + rows@
                                &&& !final(self).is_complete()
                                &&& next == Ok::<NextPage, APIError>(NextPage::Fetch)
                            },
                            None => {
                                &&& final(self).collected() == old(self).collected()
                                &&& final(self).is_complete()
                                &&& next == Ok::<NextPage, APIError>(NextPage::Done)
                            },
                        }
                    }
                },
            },
    {
        if self.failed {
            return Err(remote_fault());
        }
        match fetched {
            Err(_) => {
                self.failed = true;
                Err(remote_fault())
            },
            Ok(page) => {
                if self.complete {
                    return Ok(NextPage::Done);
                }
                match page {
                    Some(mut rows) => {
                        self.rows.append(&mut rows);
                        Ok(NextPage::Fetch)
                    },
                    None => {
                        self.complete = true;
                        Ok(NextPage::Done)
                    },
                }
            },
        }
    }

    /// All rows of the listing, once it is complete. A listing of which pages are
    /// still to come, or of which a page failed to arrive, hands out no rows: it is
    /// a fault of the service.
    pub fn finish(self) -> (rows: Result<Vec<R>, APIError>)
        ensures
            self.is_complete() && !self.is_failed() ==> (rows matches Ok(all) && all@
                == self.collected()),
            !self.is_complete() || self.is_failed() ==> rows is Err && failure(
                rows->Err_0,
                ErrorKind::Internal,
                REMOTE_FAILURE@,
            ),
    {
        if self.complete && !self.failed {
            Ok(self.rows)
        } else {
            Err(remote_fault())
        }
    }
}

/// Does `report` hold what `row` keeps, with `now` for a time that cannot be read?
pub open spec fn report_kept(report: Report, row: ReportRow, now: Timestamp) -> bool {
    &&& report.id == key_value(row.row_key@)
    &&& report.team_id == key_value(row.partition_key@)
    &&& report.metric == row.metric
    &&& report.timestamp == or_else(parsed_instant(row.timestamp@), now)
    &&& report.value_bits == row.value_bits
}

/// Does `team` hold what `row` keeps?
pub open spec fn team_kept(team: Team, row: TeamRow) -> bool {
    &&& team.team_id == key_value(row.row_key@)
    &&& team.user_id == key_value(row.partition_key@)
    &&& team.name == row.name
}

/// Does `user` hold what `row` keeps?
pub open spec fn user_kept(user: User, row: UserRow) -> bool {
    &&& user.email_hash == key_value(row.partition_key@)
    &&& user.principal_id == key_value(row.principal_id@)
    &&& user.first_name == row.first_name
}

/// Does `assignment` hold what `row` keeps?
pub open spec fn assignment_kept(assignment: TeamAssignment, row: TeamAssignmentRow) -> bool {
    &&& assignment.team_id == key_value(row.partition_key@)
    &&& assignment.user_id == key_value(row.row_key@)
    &&& assignment.role == role_named(row.role@)
}

/// The reports that rows keep, in the order of the rows, with `now` for every
/// time that cannot be read.
pub fn reports_of(rows: &Vec<ReportRow>, now: Timestamp) -> (reports: Vec<Report>)
    ensures
        reports@.len() == rows@.len(),
        forall|i: int| 0 <= i < rows@.len() ==> report_kept(#[trigger] reports@[i], rows@[i], now),
{
    let mut reports: Vec<Report> = Vec::new();
    let mut n: usize = 0;
    while n < rows.len()
        invariant
            n <= rows@.len(),
            reports@.len() == n,
            forall|i: int| 0 <= i < n ==> report_kept(#[trigger] reports@[i], rows@[i], now),
        decreases rows@.len() - n,
    {
        reports.push(rows[n].report_at(now));
        n += 1;
    }
    reports
}

/// The teams that rows keep, in the order of the rows.
pub fn teams_of(rows: &Vec<TeamRow>) -> (teams: Vec<Team>)
    ensures
        teams@.len() == rows@.len(),
        forall|i: int| 0 <= i < rows@.len() ==> team_kept(#[trigger] teams@[i], rows@[i]),
{
    let mut teams: Vec<Team> = Vec::new();
    let mut n: usize = 0;
    while n < rows.len()
        invariant
            n <= rows@.len(),
            teams@.len() == n,
            forall|i: int| 0 <= i < n ==> team_kept(#[trigger] teams@[i], rows@[i]),
        decreases rows@.len() - n,
    {
        teams.push(rows[n].team());
        n += 1;
    }
    teams
}

/// The assignments that rows keep, in the order of the rows.
pub fn assignments_of(rows: &Vec<TeamAssignmentRow>) -> (assignments: Vec<TeamAssignment>)
    ensures
        assignments@.len() == rows@.len(),
        forall|i: int|
            0 <= i < rows@.len() ==> assignment_kept(#[trigger] assignments@[i], rows@[i]),
{
    let mut assignments: Vec<TeamAssignment> = Vec::new();
    let mut n: usize = 0;
    while n < rows.len()
        invariant
            n <= rows@.len(),
            assignments@.len() == n,
            forall|i: int| 0 <= i < n ==> assignment_kept(#[trigger] assignments@[i], rows@[i]),
        decreases rows@.len() - n,
    {
        assignments.push(rows[n].assignment());
        n += 1;
    }
    assignments
}

} // verus!
