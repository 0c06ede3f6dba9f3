use crate::ids::{format_id, hex_number, id_text, is_random_id, new_id, parse_hex};
use crate::role::{role_name, role_named, Role};
use crate::table::Keyed;
use crate::time::{parsed_instant, Timestamp};
use vstd::prelude::*;

verus! {

/// A team as one principal sees it: the row of `team_id` in the partition of `user_id`.
#[derive(Debug, PartialEq, Eq)]
pub struct Team {
    pub team_id: u128,
    pub user_id: u128,
    pub name: String,
}

/// The role of one principal in one team: the row of `user_id` in the partition of
/// `team_id`.
#[derive(Clone, Copy, Debug, PartialEq, Eq, Structural)]
pub struct TeamAssignment {
    pub user_id: u128,
    pub team_id: u128,
    pub role: Role,
}

/// One measurement of a team: the row of `id` in the partition of `team_id`. The
/// measured value is kept as the bit pattern of a 32-bit IEEE 754 number.
#[derive(Debug, PartialEq, Eq)]
pub struct Report {
    pub id: u128,
    pub team_id: u128,
    pub timestamp: Timestamp,
    pub metric: String,
    pub value_bits: u32,
}

/// A profile, kept under the hash of the e-mail address.
#[derive(Debug, PartialEq, Eq)]
pub struct User {
    pub principal_id: u128,
    pub email_hash: u128,
    pub first_name: String,
}

/// What the liveness probe reports.
#[derive(Clone, Copy, Debug, PartialEq, Eq, Structural)]
pub struct Health {
    pub ok: bool,
    pub started_at: Timestamp,
}

impl Health {
    /// The report of a store that is up, and has been since `started_at`.
    pub fn since(started_at: Timestamp) -> (health: Self)
        ensures
            health == (Health { ok: true, started_at }),
    {
        Health { ok: true, started_at }
    }
}

impl Clone for Team {
    fn clone(&self) -> (copy: Self)
        ensures
            copy == *self,
    {
        Team { team_id: self.team_id, user_id: self.user_id, name: self.name.clone() }
    }
}

impl Clone for Report {
    fn clone(&self) -> (copy: Self)
        ensures
            copy == *self,
    {
        Report {
            id: self.id,
            team_id: self.team_id,
            timestamp: self.timestamp,
            metric: self.metric.clone(),
            value_bits: self.value_bits,
        }
    }
}

impl Clone for User {
    fn clone(&self) -> (copy: Self)
        ensures
            copy == *self,
    {
        User {
            principal_id: self.principal_id,
            email_hash: self.email_hash,
            first_name: self.first_name.clone(),
        }
    }
}

impl Keyed for Team {
    open spec fn partition_key(&self) -> u128 {
        self.user_id
    }

    open spec fn row_key(&self) -> u128 {
        self.team_id
    }

    fn duplicate(&self) -> (copy: Self) {
        self.clone()
    }
}

impl Keyed for TeamAssignment {
    open spec fn partition_key(&self) -> u128 {
        self.team_id
    }

    open spec fn row_key(&self) -> u128 {
        self.user_id
    }

    fn duplicate(&self) -> (copy: Self) {
        *self
    }
}

impl Keyed for Report {
    open spec fn partition_key(&self) -> u128 {
        self.team_id
    }

    open spec fn row_key(&self) -> u128 {
        self.id
    }

    fn duplicate(&self) -> (copy: Self) {
        self.clone()
    }
}

/// A team as it is written at the boundary.
#[derive(Debug, PartialEq, Eq)]
pub struct TeamV1 {
    pub id: Option<String>,
    pub user_id: Option<String>,
    pub name: String,
}

/// A role assignment as it is written at the boundary.
#[derive(Debug, PartialEq, Eq)]
pub struct TeamAssignmentV1 {
    pub team_id: Option<String>,
    pub user_id: Option<String>,
    pub role: String,
}

/// A report as it is written at the boundary.
#[derive(Debug, PartialEq, Eq)]
pub struct ReportV1 {
    pub team: Option<String>,
    pub id: Option<String>,
    pub timestamp: Option<String>,
    pub metric: String,
    pub value_bits: u32,
}

/// A profile as it is written at the boundary.
#[derive(Debug, PartialEq, Eq)]
pub struct UserV3 {
    pub id: String,
    pub email_hash: String,
    pub first_name: String,
}

/// The probe's report as it is written at the boundary.
#[derive(Clone, Copy, Debug, PartialEq, Eq, Structural)]
pub struct HealthV1 {
    pub ok: bool,
    pub started_at: Timestamp,
}

/// The narrowing that a listing of reports may ask for, as it arrives.
#[derive(Debug, PartialEq, Eq)]
pub struct QueryFilter {
    pub metric: Option<String>,
    pub after: Option<String>,
}

/// What an optional text holds.
pub open spec fn text_of(field: Option<String>) -> Option<Seq<char>> {
    match field {
        Some(text) => Some(text@),
        None => None,
    }
}

/// The identifier that an optional text writes, where there is a text and it
/// writes one.
pub open spec fn id_of(field: Option<String>) -> Option<u128> {
    match field {
        Some(text) => hex_number(text@),
        None => None,
    }
}

/// The instant that an optional text writes, where there is a text and it writes
/// one.
pub open spec fn instant_of(field: Option<String>) -> Option<Timestamp> {
    match field {
        Some(text) => parsed_instant(text@),
        None => None,
    }
}

/// `chosen`, or `fallback` where nothing was chosen.
pub open spec fn or_else<T>(chosen: Option<T>, fallback: T) -> T {
    match chosen {
        Some(value) => value,
        None => fallback,
    }
}

fn read_id(field: &Option<String>) -> (id: Option<u128>)
    ensures
        id == id_of(*field),
{
    match field {
        Some(text) => parse_hex(text.as_str()),
        None => None,
    }
}

fn read_instant(field: &Option<String>) -> (instant: Option<Timestamp>)
    ensures
        instant == instant_of(*field),
{
    match field {
        Some(text) => Timestamp::parse_rfc3339(text.as_str()),
        None => None,
    }
}

impl QueryFilter {
    /// The time after which reports are wanted, where one was given and can be
    /// read. A bound that cannot be read is no bound.
    pub fn after_instant(&self) -> (bound: Option<Timestamp>)
        ensures
            bound == instant_of(self.after),
    {
        read_instant(&self.after)
    }
}

impl TeamV1 {
    /// Writes a team for the boundary: both identifiers as 32 hexadecimal digits.
    pub fn from_team(record: Team) -> (shape: Self)
        ensures
            text_of(shape.id) == Some(id_text(record.team_id)),
            text_of(shape.user_id) == Some(id_text(record.user_id)),
            shape.name == record.name,
    {
        TeamV1 {
            id: Some(format_id(record.team_id)),
            user_id: Some(format_id(record.user_id)),
            name: record.name,
        }
    }

    /// Reads a team from the boundary. An owner that is missing or cannot be read
    /// is principal zero; a team identifier that is missing or cannot be read is
    /// `fresh`.
    pub fn into_team_with(self, fresh: u128) -> (record: Team)
        ensures
            record.team_id == or_else(id_of(self.id), fresh),
            record.user_id == or_else(id_of(self.user_id), 0),
            record.name == self.name,
    {
        let team_id = match read_id(&self.id) {
            Some(id) => id,
            None => fresh,
        };
        let user_id = match read_id(&self.user_id) {
            Some(id) => id,
            None => 0,
        };
        Team { team_id, user_id, name: self.name }
    }

    /// Reads a team from the boundary, with a new random identifier where the
    /// team's own is missing or cannot be read.
    pub fn into_team(self) -> (record: Team)
        ensures
            id_of(self.id) is Some ==> record.team_id == id_of(self.id)->0,
            id_of(self.id) is None ==> is_random_id(record.team_id),
            record.user_id == or_else(id_of(self.user_id), 0),
            record.name == self.name,
    {
        let fresh = match read_id(&self.id) {
            Some(id) => id,
            None => new_id(),
        };
        self.into_team_with(fresh)
    }
}

impl TeamAssignmentV1 {
    /// Writes an assignment for the boundary.
    pub fn from_assignment(record: TeamAssignment) -> (shape: Self)
        ensures
            text_of(shape.team_id) == Some(id_text(record.team_id)),
            text_of(shape.user_id) == Some(id_text(record.user_id)),
            shape.role@ == role_name(record.role),
    {
        TeamAssignmentV1 {
            user_id: Some(format_id(record.user_id)),
            team_id: Some(format_id(record.team_id)),
            role: record.role.name(),
        }
    }

    /// Reads an assignment from the boundary. An identifier that is missing or
    /// cannot be read is zero; a role name that is not known is `Invalid`.
    pub fn into_assignment(self) -> (record: TeamAssignment)
        ensures
            record.team_id == or_else(id_of(self.team_id), 0),
            record.user_id == or_else(id_of(self.user_id), 0),
            record.role == role_named(self.role@),
    {
        let user_id = match read_id(&self.user_id) {
            Some(id) => id,
            None => 0,
        };
        let team_id = match read_id(&self.team_id) {
            Some(id) => id,
            None => 0,
        };
        TeamAssignment { user_id, team_id, role: Role::from_name(self.role.as_str()) }
    }
}

impl ReportV1 {
    /// Writes a report for the boundary. The time is left out where the calendar
    /// has no such instant.
    pub fn from_report(report: Report) -> (shape: Self)
        ensures
            text_of(shape.id) == Some(id_text(report.id)),
            text_of(shape.team) == Some(id_text(report.team_id)),
            text_of(shape.timestamp) == report.timestamp.text(),
            shape.metric == report.metric,
            shape.value_bits == report.value_bits,
    {
        ReportV1 {
            id: Some(format_id(report.id)),
            team: Some(format_id(report.team_id)),
            timestamp: report.timestamp.to_rfc3339(),
            metric: report.metric,
            value_bits: report.value_bits,
        }
    }

    /// Reads a report from the boundary. A report identifier that is missing or
    /// cannot be read is `fresh`, such a team is team zero, and such a time is
    /// `now`.
    pub fn into_report_with(self, fresh: u128, now: Timestamp) -> (report: Report)
        ensures
            report.id == or_else(id_of(self.id), fresh),
            report.team_id == or_else(id_of(self.team), 0),
            report.timestamp == or_else(instant_of(self.timestamp), now),
            report.metric == self.metric,
            report.value_bits == self.value_bits,
    {
        let id = match read_id(&self.id) {
            Some(id) => id,
            None => fresh,
        };
        let team_id = match read_id(&self.team) {
            Some(id) => id,
            None => 0,
        };
        let timestamp = Timestamp::or_at(read_instant(&self.timestamp), now);
        Report { id, team_id, timestamp, metric: self.metric, value_bits: self.value_bits }
    }

    /// Reads a report from the boundary, with a new random identifier and the
    /// current time where its own are missing or cannot be read.
    pub fn into_report(self) -> (report: Report)
        ensures
            id_of(self.id) is Some ==> report.id == id_of(self.id)->0,
            id_of(self.id) is None ==> is_random_id(report.id),
            report.team_id == or_else(id_of(self.team), 0),
            instant_of(self.timestamp) is Some ==> report.timestamp == instant_of(self.timestamp)->0,
            instant_of(self.timestamp) is None ==> report.timestamp.text() is Some,
            report.metric == self.metric,
            report.value_bits == self.value_bits,
    {
        let fresh = match read_id(&self.id) {
            Some(id) => id,
            None => new_id(),
        };
        let now = match read_instant(&self.timestamp) {
            Some(instant) => instant,
            None => Timestamp::now(),
        };
        self.into_report_with(fresh, now)
    }
}

impl UserV3 {
    /// Writes a profile for the boundary.
    pub fn from_user(user: User) -> (shape: Self)
        ensures
            shape.id@ == id_text(user.principal_id),
            shape.email_hash@ == id_text(user.email_hash),
            shape.first_name == user.first_name,
    {
        UserV3 {
            id: format_id(user.principal_id),
            email_hash: format_id(user.email_hash),
            first_name: user.first_name,
        }
    }
}

impl HealthV1 {
    /// Writes the probe's report for the boundary.
    pub fn from_health(health: Health) -> (shape: Self)
        ensures
            shape.ok == health.ok,
            shape.started_at == health.started_at,
    {
        HealthV1 { ok: health.ok, started_at: health.started_at }
    }
}

} // verus!
