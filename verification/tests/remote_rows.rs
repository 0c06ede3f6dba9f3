use rex::error::APIError;
use rex::models::{Report, Team, TeamAssignment, User};
use rex::remote::{
    assignments_of, found_assignment, found_report, found_team, found_user, remote_fault,
    removal_failure, reports_of, teams_of, NextPage, PageCollector, ReportRow, TeamAssignmentRow, TeamRow, UserRow,
};
use rex::role::Role;
use rex::time::Timestamp;

const SEVEN: &str = "00000000000000000000000000000007";
const ONE: &str = "00000000000000000000000000000001";

fn now() -> Timestamp {
    Timestamp { secs: 1000, nanos: 0 }
}

fn report_row(row_key: &str, timestamp: &str) -> ReportRow {
    ReportRow {
        partition_key: SEVEN.to_string(),
        row_key: row_key.to_string(),
        metric: "test".to_string(),
        timestamp: timestamp.to_string(),
        value_bits: 9,
    }
}

#[test]
fn a_report_row_keeps_keys_and_time_as_text() {
    let row = ReportRow::new(1, 7, "test".to_string(), Timestamp { secs: 0, nanos: 0 }, 9).unwrap();
    assert_eq!(row, report_row(ONE, "1970-01-01T00:00:00+00:00"));
    let refusal =
        ReportRow::new(1, 7, "test".to_string(), Timestamp { secs: i64::MAX, nanos: 0 }, 9);
    assert_eq!(refusal.unwrap_err().code, 400);
}

#[test]
fn a_report_row_is_read_back_as_written() {
    let taken = Timestamp { secs: 1591012800, nanos: 250_000_000 };
    let row = ReportRow::new(1, 7, "test".to_string(), taken, 9).unwrap();
    let expected =
        Report { id: 1, team_id: 7, timestamp: taken, metric: "test".to_string(), value_bits: 9 };
    assert_eq!(row.report_at(now()), expected);
    assert_eq!(row.report(), expected);
}

#[test]
fn a_report_row_that_cannot_be_read_falls_back() {
    let row = ReportRow {
        partition_key: "team".to_string(),
        row_key: "".to_string(),
        metric: "m".to_string(),
        timestamp: "never".to_string(),
        value_bits: 1,
    };
    assert_eq!(
        row.report_at(now()),
        Report { id: 0, team_id: 0, timestamp: now(), metric: "m".to_string(), value_bits: 1 }
    );
    let before = Timestamp::now();
    assert!(row.report().timestamp.at_or_after(before));
}

#[test]
fn team_rows_are_keyed_by_owner_then_team() {
    let row = TeamRow::new(1, 7, "Team".to_string());
    assert_eq!(
        row,
        TeamRow { partition_key: SEVEN.to_string(), row_key: ONE.to_string(), name: "Team".to_string() }
    );
    assert_eq!(row.team(), Team { team_id: 1, user_id: 7, name: "Team".to_string() });
}

#[test]
fn assignment_rows_are_keyed_by_team_then_principal() {
    let row = TeamAssignmentRow::new(7, 1, Role::Member);
    assert_eq!(
        row,
        TeamAssignmentRow {
            partition_key: SEVEN.to_string(),
            row_key: ONE.to_string(),
            role: "Member".to_string(),
        }
    );
    assert_eq!(row.assignment(), TeamAssignment { team_id: 7, user_id: 1, role: Role::Member });
    let odd = TeamAssignmentRow {
        partition_key: SEVEN.to_string(),
        row_key: ONE.to_string(),
        role: "Owner".to_string(),
    };
    assert_eq!(odd.assignment().role, Role::Invalid);
}

#[test]
fn user_rows_are_keyed_by_hash_twice() {
    let row = UserRow::new(1, 7, "Testy".to_string());
    assert_eq!(
        row,
        UserRow {
            partition_key: SEVEN.to_string(),
            row_key: SEVEN.to_string(),
            principal_id: ONE.to_string(),
            first_name: "Testy".to_string(),
        }
    );
    assert_eq!(row.user(), User { principal_id: 1, email_hash: 7, first_name: "Testy".to_string() });
}

#[test]
fn a_missing_row_is_not_found_in_the_words_of_its_kind() {
    let report = found_report(None, now()).unwrap_err();
    assert_eq!(report.code, 404);
    assert_eq!(
        report.message,
        "The combination of team and record ID you provided could not be found. Please check them and try again."
    );
    let team = found_team(None).unwrap_err();
    assert_eq!(
        team,
        APIError::not_found(
            "The team ID you provided could not be found. Please check them and try again."
        )
    );
    assert_eq!(found_assignment(None).unwrap_err(), team);
    assert_eq!(
        found_user(None).unwrap_err().message,
        "The user you are looking for could not be found. Please check that you have entered their email address correctly and try again."
    );
}

#[test]
fn a_row_that_is_found_is_converted() {
    assert_eq!(
        found_report(Some(report_row(ONE, "1970-01-01T00:00:05Z")), now()).unwrap().timestamp,
        Timestamp { secs: 5, nanos: 0 }
    );
    assert_eq!(found_team(Some(TeamRow::new(1, 7, "T".to_string()))).unwrap().team_id, 1);
    assert_eq!(
        found_assignment(Some(TeamAssignmentRow::new(7, 1, Role::Viewer))).unwrap().role,
        Role::Viewer
    );
    assert_eq!(found_user(Some(UserRow::new(1, 7, "U".to_string()))).unwrap().email_hash, 7);
}

#[test]
fn a_failed_look_up_listing_or_write_is_a_fault_of_the_service() {
    let fault = remote_fault();
    assert_eq!((fault.code, fault.title.as_str()), (500, "Internal Server Error"));
    assert_eq!(
        fault.message,
        "The storage service could not complete the request. Please try again later."
    );
}

#[test]
fn a_failed_removal_of_a_missing_row_is_not_found() {
    assert_eq!(removal_failure(Some(404)).code, 404);
    assert_eq!(removal_failure(Some(404)).title, "Not Found");
    for status in [None, Some(400), Some(403), Some(409), Some(500), Some(503)] {
        assert_eq!(removal_failure(status), remote_fault());
    }
}

#[test]
fn pages_are_collected_in_order_until_none_follows() {
    let mut collector: PageCollector<u32> = PageCollector::start();
    assert_eq!(collector.absorb(Ok(Some(vec![1, 2]))), Ok(NextPage::Fetch));
    assert_eq!(collector.absorb(Ok(Some(vec![]))), Ok(NextPage::Fetch));
    assert_eq!(collector.absorb(Ok(Some(vec![3]))), Ok(NextPage::Fetch));
    assert_eq!(collector.absorb(Ok(None)), Ok(NextPage::Done));
    assert_eq!(collector.finish(), Ok(vec![1, 2, 3]));
}

#[test]
fn an_unfinished_listing_hands_out_nothing() {
    let mut collector: PageCollector<u32> = PageCollector::start();
    assert_eq!(collector.absorb(Ok(Some(vec![1, 2]))), Ok(NextPage::Fetch));
    assert_eq!(collector.finish(), Err(remote_fault()));
    assert_eq!(PageCollector::<u32>::start().finish(), Err(remote_fault()));
}

#[test]
fn pages_after_the_last_are_not_taken() {
    let mut collector: PageCollector<u32> = PageCollector::start();
    assert_eq!(collector.absorb(Ok(Some(vec![1]))), Ok(NextPage::Fetch));
    assert_eq!(collector.absorb(Ok(None)), Ok(NextPage::Done));
    assert_eq!(collector.absorb(Ok(Some(vec![2]))), Ok(NextPage::Done));
    assert_eq!(collector.absorb(Ok(None)), Ok(NextPage::Done));
    assert_eq!(collector.finish(), Ok(vec![1]));
}

#[test]
fn a_page_that_fails_to_arrive_fails_the_listing_for_good() {
    for status in [None, Some(404), Some(500), Some(503)] {
        let mut collector: PageCollector<u32> = PageCollector::start();
        assert_eq!(collector.absorb(Ok(Some(vec![1, 2]))), Ok(NextPage::Fetch));
        assert_eq!(collector.absorb(Ok(Some(vec![3]))), Ok(NextPage::Fetch));
        let failed = collector.absorb(Err(status)).unwrap_err();
        assert_eq!(failed.code, 500);
        assert_eq!(failed, remote_fault());
        // nothing is taken after, and what arrived before is not handed out
        assert_eq!(collector.absorb(Ok(Some(vec![4]))), Err(remote_fault()));
        assert_eq!(collector.absorb(Ok(None)), Err(remote_fault()));
        assert_eq!(collector.finish(), Err(remote_fault()));
    }
}

#[test]
fn a_first_page_that_fails_to_arrive_fails_the_listing() {
    let mut collector: PageCollector<u32> = PageCollector::start();
    assert_eq!(collector.absorb(Err(Some(404))).unwrap_err().code, 500);
    assert_eq!(collector.finish().unwrap_err().code, 500);
}

#[test]
fn listings_are_converted_row_by_row() {
    let rows = vec![report_row(ONE, "1970-01-01T00:00:05Z"), report_row("2", "?")];
    let reports = reports_of(&rows, now());
    assert_eq!(reports.len(), 2);
    assert_eq!((reports[0].id, reports[0].timestamp.secs), (1, 5));
    assert_eq!((reports[1].id, reports[1].timestamp), (2, now()));

    let teams = teams_of(&vec![TeamRow::new(3, 7, "a".to_string()), TeamRow::new(2, 7, "b".to_string())]);
    assert_eq!(teams.iter().map(|t| t.team_id).collect::<Vec<u128>>(), vec![3, 2]);

    let roles = assignments_of(&vec![
        TeamAssignmentRow::new(7, 1, Role::Manager),
        TeamAssignmentRow::new(7, 2, Role::Viewer),
    ]);
    assert_eq!(roles.iter().map(|a| a.role).collect::<Vec<Role>>(), vec![Role::Manager, Role::Viewer]);
    assert!(reports_of(&vec![], now()).is_empty());
}
