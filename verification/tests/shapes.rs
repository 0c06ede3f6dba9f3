use rex::models::{
    Health, HealthV1, QueryFilter, Report, ReportV1, Team, TeamAssignment, TeamAssignmentV1, TeamV1,
    User, UserV3,
};
use rex::role::Role;
use rex::time::Timestamp;

fn some(text: &str) -> Option<String> {
    Some(text.to_string())
}

#[test]
fn role_names_are_case_sensitive() {
    assert_eq!(Role::from_name("Manager"), Role::Manager);
    assert_eq!(Role::from_name("Member"), Role::Member);
    assert_eq!(Role::from_name("Viewer"), Role::Viewer);
    assert_eq!(Role::from_name("manager"), Role::Invalid);
    assert_eq!(Role::from_name("INVALID"), Role::Invalid);
    assert_eq!(Role::from_name(""), Role::Invalid);
    assert_eq!(Role::from_name("Manager "), Role::Invalid);
    assert_eq!(Role::from_name("Owner"), Role::Invalid);
}

#[test]
fn role_names_are_written_and_read_back() {
    assert_eq!(Role::Manager.name(), "Manager");
    assert_eq!(Role::Member.name(), "Member");
    assert_eq!(Role::Viewer.name(), "Viewer");
    assert_eq!(Role::Invalid.name(), "INVALID");
    for role in [Role::Manager, Role::Member, Role::Viewer, Role::Invalid] {
        assert_eq!(Role::from_name(role.name().as_str()), role);
    }
}

#[test]
fn the_default_role_is_viewer() {
    assert_eq!(Role::default(), Role::Viewer);
}

#[test]
fn a_team_is_written_with_both_identifiers() {
    let shape = TeamV1::from_team(Team { team_id: 7, user_id: 255, name: "Test Team".to_string() });
    assert_eq!(
        shape,
        TeamV1 {
            id: some("00000000000000000000000000000007"),
            user_id: some("000000000000000000000000000000ff"),
            name: "Test Team".to_string(),
        }
    );
}

#[test]
fn a_team_is_read_with_fallbacks() {
    let whole = TeamV1 { id: some("7"), user_id: some("ff"), name: "A".to_string() };
    assert_eq!(whole.into_team_with(99), Team { team_id: 7, user_id: 255, name: "A".to_string() });

    let bare = TeamV1 { id: None, user_id: None, name: "B".to_string() };
    assert_eq!(bare.into_team_with(99), Team { team_id: 99, user_id: 0, name: "B".to_string() });

    let broken = TeamV1 { id: some("seven"), user_id: some("-1"), name: "C".to_string() };
    assert_eq!(broken.into_team_with(99), Team { team_id: 99, user_id: 0, name: "C".to_string() });
}

#[test]
fn a_team_without_identifier_gets_a_random_one() {
    let first = TeamV1 { id: None, user_id: some("1"), name: "A".to_string() }.into_team();
    let second = TeamV1 { id: None, user_id: some("1"), name: "A".to_string() }.into_team();
    assert_ne!(first.team_id, second.team_id);
    assert_eq!((first.team_id >> 76) & 0xf, 4);
    assert_eq!(first.user_id, 1);

    let kept = TeamV1 { id: some("2a"), user_id: None, name: "A".to_string() }.into_team();
    assert_eq!(kept, Team { team_id: 42, user_id: 0, name: "A".to_string() });
}

#[test]
fn an_assignment_is_written_and_read() {
    let record = TeamAssignment { team_id: 1, user_id: 2, role: Role::Member };
    let shape = TeamAssignmentV1::from_assignment(record);
    assert_eq!(
        shape,
        TeamAssignmentV1 {
            team_id: some("00000000000000000000000000000001"),
            user_id: some("00000000000000000000000000000002"),
            role: "Member".to_string(),
        }
    );
    assert_eq!(shape.into_assignment(), record);

    let bare = TeamAssignmentV1 { team_id: None, user_id: some("x"), role: "Boss".to_string() };
    assert_eq!(
        bare.into_assignment(),
        TeamAssignment { team_id: 0, user_id: 0, role: Role::Invalid }
    );
}

#[test]
fn a_report_is_written_with_its_time() {
    let report = Report {
        id: 1,
        team_id: 7,
        timestamp: Timestamp { secs: 0, nanos: 0 },
        metric: "test".to_string(),
        value_bits: 2.5f32.to_bits(),
    };
    assert_eq!(
        ReportV1::from_report(report),
        ReportV1 {
            id: some("00000000000000000000000000000001"),
            team: some("00000000000000000000000000000007"),
            timestamp: some("1970-01-01T00:00:00+00:00"),
            metric: "test".to_string(),
            value_bits: 0x40200000,
        }
    );
}

#[test]
fn a_report_outside_the_calendar_is_written_without_time() {
    let report = Report {
        id: 1,
        team_id: 7,
        timestamp: Timestamp { secs: i64::MAX, nanos: 0 },
        metric: "test".to_string(),
        value_bits: 0,
    };
    assert_eq!(ReportV1::from_report(report).timestamp, None);
}

#[test]
fn a_report_is_read_with_fallbacks() {
    let now = Timestamp { secs: 1000, nanos: 1 };
    let whole = ReportV1 {
        id: some("1"),
        team: some("7"),
        timestamp: some("1970-01-01T00:00:10Z"),
        metric: "test".to_string(),
        value_bits: 5,
    };
    assert_eq!(
        whole.into_report_with(99, now),
        Report {
            id: 1,
            team_id: 7,
            timestamp: Timestamp { secs: 10, nanos: 0 },
            metric: "test".to_string(),
            value_bits: 5,
        }
    );
    let bare = ReportV1 {
        id: None,
        team: None,
        timestamp: some("soon"),
        metric: "m".to_string(),
        value_bits: 6,
    };
    assert_eq!(
        bare.into_report_with(99, now),
        Report { id: 99, team_id: 0, timestamp: now, metric: "m".to_string(), value_bits: 6 }
    );
}

#[test]
fn a_report_without_identifier_and_time_gets_new_ones() {
    let before = Timestamp::now();
    let made = ReportV1 {
        id: None,
        team: some("7"),
        timestamp: None,
        metric: "m".to_string(),
        value_bits: 6,
    }
    .into_report();
    assert_eq!((made.id >> 76) & 0xf, 4);
    assert_eq!(made.team_id, 7);
    assert!(made.timestamp.at_or_after(before));

    let kept = ReportV1 {
        id: some("3"),
        team: None,
        timestamp: some("1970-01-01T00:00:10Z"),
        metric: "m".to_string(),
        value_bits: 6,
    }
    .into_report();
    assert_eq!((kept.id, kept.team_id, kept.timestamp.secs), (3, 0, 10));
}

#[test]
fn a_profile_and_a_health_report_are_written() {
    let user = User { principal_id: 0, email_hash: 1, first_name: "Test".to_string() };
    assert_eq!(
        UserV3::from_user(user),
        UserV3 {
            id: "00000000000000000000000000000000".to_string(),
            email_hash: "00000000000000000000000000000001".to_string(),
            first_name: "Test".to_string(),
        }
    );
    let health = Health::since(Timestamp { secs: 5, nanos: 6 });
    assert_eq!(health, Health { ok: true, started_at: Timestamp { secs: 5, nanos: 6 } });
    assert_eq!(
        HealthV1::from_health(health),
        HealthV1 { ok: true, started_at: Timestamp { secs: 5, nanos: 6 } }
    );
}

#[test]
fn a_bound_that_cannot_be_read_is_no_bound() {
    let plain = QueryFilter { metric: None, after: None };
    assert_eq!(plain.after_instant(), None);
    let set = QueryFilter { metric: None, after: some("1970-01-01T00:01:00+00:00") };
    assert_eq!(set.after_instant(), Some(Timestamp { secs: 60, nanos: 0 }));
    let broken = QueryFilter { metric: some("m"), after: some("last week") };
    assert_eq!(broken.after_instant(), None);
}

#[test]
fn copies_are_equal_to_what_was_copied() {
    let team = Team { team_id: 7, user_id: 3, name: "Team".to_string() };
    assert_eq!(team.clone(), team);
    let user = User { principal_id: 7, email_hash: 3, first_name: "U".to_string() };
    assert_eq!(user.clone(), user);
    let report = Report {
        id: 1,
        team_id: 2,
        timestamp: Timestamp { secs: 3, nanos: 4 },
        metric: "m".to_string(),
        value_bits: 5,
    };
    assert_eq!(report.clone(), report);
}
