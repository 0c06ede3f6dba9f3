use rex::api::{
    get_health_v1, get_report_v1 as report_of_caller, get_reports_v1 as reports_of_caller,
    get_team_assignment_v1 as assignment_in_team, get_team_assignments_v1 as assignments_in_team,
    get_team_report_v1 as report_of_team, get_team_reports_v1 as reports_of_team,
    get_team_v1 as team_of_caller, get_teams_v1 as teams_of_caller, get_user_v1 as profile_of,
    new_report_v1 as add_report, new_team_report_v1 as add_team_report, new_team_v1 as add_team,
    remove_report_v1 as drop_report, remove_team_assignment_v1 as drop_assignment,
    remove_team_report_v1 as drop_team_report, remove_team_v1 as drop_team,
    store_team_assignment_v1 as put_assignment, store_team_v1 as put_team, AuthToken,
};
use rex::ids::parse_hex;
use rex::memory::MemoryStore;
use rex::models::{QueryFilter, ReportV1, TeamAssignmentV1, TeamV1, UserV3};
use rex::role::Role;

const ZERO: &str = "00000000000000000000000000000000";
const ONE: &str = "00000000000000000000000000000001";
const TWO: &str = "00000000000000000000000000000002";
const SEVEN: &str = "00000000000000000000000000000007";

fn token() -> AuthToken {
    AuthToken {
        oid: "00000000-0000-0000-0000-000000000000".to_string(),
        unique_name: "testy@example.com".to_string(),
        name: "Testy McTesterson".to_string(),
    }
}

fn some(text: &str) -> Option<String> {
    Some(text.to_string())
}

fn no_filter() -> QueryFilter {
    QueryFilter { metric: None, after: None }
}

fn test_report() -> ReportV1 {
    ReportV1 {
        id: None,
        team: None,
        timestamp: None,
        metric: "test".to_string(),
        value_bits: 2.5f32.to_bits(),
    }
}

fn team_seven() -> MemoryStore {
    let mut state = MemoryStore::new();
    state.store_team(7, 0, "Test Team".to_string()).unwrap();
    state.store_team_assignment(7, 0, Role::Manager).unwrap();
    state
}

fn team_one_with_viewer() -> MemoryStore {
    let mut state = MemoryStore::new();
    state.store_team_assignment(1, 0, Role::Manager).unwrap();
    state.store_team_assignment(1, 2, Role::Viewer).unwrap();
    state
}

#[test]
fn health_v1() {
    let state = MemoryStore::new();
    let content = get_health_v1(&state).unwrap();
    assert_eq!(content.ok, true);
    assert_eq!(
        content.started_at,
        state.health().expect("we should get the health").started_at
    );
}

#[test]
fn get_report_v1() {
    let mut state = MemoryStore::new();
    state.store_report(1, 0, "test".to_string(), None, 2.5f32.to_bits()).unwrap();

    let content = ReportV1::from_report(report_of_caller(&mut state, &token(), ONE).unwrap());
    assert_eq!(content.id, some(ONE));
    assert_eq!(content.team, some(ZERO));
    assert_eq!(content.metric, "test".to_string());
    assert_eq!(f32::from_bits(content.value_bits), 2.5);
}

#[test]
fn get_team_report_v1() {
    let mut state = team_seven();
    state.store_report(1, 7, "test".to_string(), None, 2.5f32.to_bits()).unwrap();

    let content = ReportV1::from_report(report_of_team(&mut state, &token(), SEVEN, ONE).unwrap());
    assert_eq!(content.id, some(ONE));
    assert_eq!(content.team, some(SEVEN));
    assert_eq!(content.metric, "test".to_string());
    assert_eq!(f32::from_bits(content.value_bits), 2.5);

    let user = state
        .get_user(parse_hex("05c1de2f5c5e7933bee97a499e818c5e").expect("a valid hash"))
        .expect("the user should exist");
    assert_eq!(user.first_name, "Testy");
    assert_eq!(user.principal_id, 0);
}

#[test]
fn get_reports_v1() {
    let mut state = MemoryStore::new();
    state.store_report(1, 0, "test".to_string(), None, 2.5f32.to_bits()).unwrap();

    let found = reports_of_caller(&mut state, &token(), &no_filter()).unwrap();
    let content: Vec<ReportV1> = found.into_iter().map(ReportV1::from_report).collect();
    assert!(content.len() >= 1);
    assert_ne!(content[0].id, None);
    assert_eq!(content[0].team, some(ZERO));
    assert_eq!(content[0].metric, "test".to_string());
    assert_eq!(f32::from_bits(content[0].value_bits), 2.5);
}

#[test]
fn get_team_reports_v1() {
    let mut state = team_seven();
    state.store_report(1, 7, "test".to_string(), None, 2.5f32.to_bits()).unwrap();

    let found = reports_of_team(&mut state, &token(), SEVEN, &no_filter()).unwrap();
    let content: Vec<ReportV1> = found.into_iter().map(ReportV1::from_report).collect();
    assert_eq!(content.len(), 1);
    assert_eq!(content[0].id, some(ONE));
    assert_eq!(content[0].team, some(SEVEN));
    assert_eq!(content[0].metric, "test".to_string());
    assert_eq!(f32::from_bits(content[0].value_bits), 2.5);
}

#[test]
fn new_report_v1() {
    let mut state = team_seven();

    let added = add_report(&mut state, &token(), test_report()).unwrap();
    let content: Vec<ReportV1> = added.into_iter().map(ReportV1::from_report).collect();
    assert_eq!(content.len(), 2);

    for report in content {
        assert_ne!(report.id, None);
        assert_ne!(report.team, None);
        assert_eq!(report.metric, "test".to_string());
        assert_eq!(f32::from_bits(report.value_bits), 2.5);

        state
            .get_report(parse_hex(report.id.clone().unwrap().as_str()).unwrap(), 0)
            .expect("The report should exist in the store");
    }
}

#[test]
fn new_team_report_v1() {
    let mut state = team_seven();

    let content =
        ReportV1::from_report(add_team_report(&mut state, &token(), SEVEN, test_report()).unwrap());
    assert_ne!(content.id, None);
    assert_eq!(content.team, some(SEVEN));
    assert_eq!(content.metric, "test".to_string());
    assert_eq!(f32::from_bits(content.value_bits), 2.5);

    state
        .get_report(parse_hex(content.id.unwrap().as_str()).unwrap(), 7)
        .expect("The report should exist in the store");
}

#[test]
fn remove_report_v1() {
    let mut state = MemoryStore::new();
    state.store_report(1, 0, String::new(), None, 0).unwrap();

    drop_report(&mut state, &token(), ONE).unwrap();

    state.get_report(1, 0).expect_err("The report should not exist anymore");
}

#[test]
fn remove_team_report_v1() {
    let mut state = team_seven();
    state.store_report(1, 7, String::new(), None, 0).unwrap();

    drop_team_report(&mut state, &token(), SEVEN, ONE).unwrap();

    state.get_report(1, 0).expect_err("The report should not exist anymore");
}

#[test]
fn get_team_assignment_v1() {
    let state = team_one_with_viewer();

    let content =
        TeamAssignmentV1::from_assignment(assignment_in_team(&state, &token(), ONE, TWO).unwrap());
    assert_eq!(content.team_id, some(ONE));
    assert_eq!(content.user_id, some(TWO));
    assert_eq!(content.role, "Viewer".to_string());
}

#[test]
fn get_team_assignment_v1_self() {
    let state = team_one_with_viewer();

    let content =
        TeamAssignmentV1::from_assignment(assignment_in_team(&state, &token(), ONE, ZERO).unwrap());
    assert_eq!(content.team_id, some(ONE));
    assert_eq!(content.user_id, some(ZERO));
    assert_eq!(content.role, "Manager".to_string());
}

#[test]
fn get_team_assignments_v1() {
    let state = team_one_with_viewer();

    let found = assignments_in_team(&state, &token(), ONE).unwrap();
    let content: Vec<TeamAssignmentV1> =
        found.into_iter().map(TeamAssignmentV1::from_assignment).collect();
    assert_eq!(content.len(), 2);

    for role in content {
        assert_eq!(role.team_id, some(ONE));
        match role.user_id.unwrap().as_str() {
            ZERO => {
                assert_eq!(role.role, "Manager".to_string());
            }
            TWO => {
                assert_eq!(role.role, "Viewer".to_string());
            }
            _ => assert!(false),
        }
    }
}

#[test]
fn remove_team_assignment_v1() {
    let mut state = team_one_with_viewer();

    drop_assignment(&mut state, &token(), ONE, TWO).unwrap();

    state
        .get_team_assignment(1, 2)
        .expect_err("The role assignment should not exist anymore");
}

#[test]
fn remove_team_assignment_v1_self() {
    let mut state = MemoryStore::new();
    state.store_team_assignment(1, 0, Role::Manager).unwrap();

    let refusal = drop_assignment(&mut state, &token(), ONE, ZERO).unwrap_err();
    assert_eq!(refusal.code, 400);

    state.get_team_assignment(1, 0).expect("The role assignment should still exist");
}

#[test]
fn store_team_assignment_v1() {
    let mut state = MemoryStore::new();
    state.store_team(1, 0, "Test Team".to_string()).unwrap();
    state.store_team_assignment(1, 0, Role::Manager).unwrap();

    let body = TeamAssignmentV1 { team_id: None, user_id: None, role: "Manager".to_string() };
    let content = TeamAssignmentV1::from_assignment(
        put_assignment(&mut state, &token(), ONE, TWO, body).unwrap(),
    );

    assert_eq!(content.team_id, some(ONE));
    assert_eq!(content.user_id, some(TWO));
    assert_eq!(content.role, "Manager".to_string());

    let team = state.get_team(1, 2).expect("the user should have the new team");
    assert_eq!(team.name, "Test Team");
}

#[test]
fn store_team_assignment_v3_self() {
    let mut state = MemoryStore::new();
    state.store_team(1, 0, "Test Team".to_string()).unwrap();
    state.store_team_assignment(1, 0, Role::Manager).unwrap();

    let body = TeamAssignmentV1 { team_id: None, user_id: None, role: "Viewer".to_string() };
    let refusal = put_assignment(&mut state, &token(), ONE, ZERO, body).unwrap_err();
    assert_eq!(refusal.code, 400);
}

#[test]
fn get_team_v1() {
    let mut state = MemoryStore::new();
    state.store_team(1, 0, "Test Team".to_string()).unwrap();

    let content = TeamV1::from_team(team_of_caller(&state, &token(), ONE).unwrap());

    assert_eq!(content.id, some(ONE));
    assert_eq!(content.user_id, some(ZERO));
    assert_eq!(content.name, "Test Team".to_string());
}

#[test]
fn get_teams_v1() {
    let mut state = MemoryStore::new();
    state.store_team(1, 0, "Test Team".to_string()).unwrap();

    let found = teams_of_caller(&state, &token()).unwrap();
    let content: Vec<TeamV1> = found.into_iter().map(TeamV1::from_team).collect();
    assert!(content.len() >= 1);
    assert_eq!(content[0].id, some(ONE));
    assert_eq!(content[0].user_id, some(ZERO));
    assert_eq!(content[0].name, "Test Team".to_string());
}

#[test]
fn new_team_v1() {
    let mut state = MemoryStore::new();

    let body = TeamV1 { id: None, user_id: None, name: "Test Team".to_string() };
    let content = TeamV1::from_team(add_team(&mut state, &token(), body).unwrap());

    assert_ne!(content.id, None);
    assert_eq!(content.user_id, some(ZERO));
    assert_eq!(content.name, "Test Team".to_string());
}

#[test]
fn remove_team_v1() {
    let mut state = MemoryStore::new();
    state.store_team(1, 0, "Test Team".to_string()).unwrap();
    state.store_team_assignment(1, 0, Role::Manager).unwrap();

    drop_team(&mut state, &token(), ONE).unwrap();

    state.get_team(1, 1).expect_err("The team should not exist anymore");

    state
        .get_team_assignment(1, 1)
        .expect_err("The role assignment should not exist anymore");
}

#[test]
fn store_team_v1() {
    let mut state = MemoryStore::new();

    let body = TeamV1 { id: None, user_id: None, name: "Test Team".to_string() };
    let content = TeamV1::from_team(put_team(&mut state, &token(), ONE, body).unwrap());

    assert_eq!(content.id, some(ONE));
    assert_eq!(content.user_id, some(ZERO));
    assert_eq!(content.name, "Test Team".to_string());
}

#[test]
fn get_user_v1() {
    let mut state = MemoryStore::new();
    state.store_user(0, 1, "Test".to_string()).unwrap();

    let content = UserV3::from_user(profile_of(&state, &token(), ONE).unwrap());
    assert_eq!(content.email_hash, ONE.to_string());
    assert_eq!(content.id, ZERO.to_string());
    assert_eq!(content.first_name, "Test".to_string());
}
