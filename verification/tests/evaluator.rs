use rex::auth::{
    authorize, evaluate, guard_not_self, holds, is_granted, may, require_role, require_scope,
    Operation,
};
use rex::error::{APIError, ErrorKind};
use rex::memory::MemoryStore;
use rex::models::TeamAssignment;
use rex::role::Role;

const ACCESS_DENIED: &str = "You do not have permission to access this resource.";

const OPERATIONS: [Operation; 4] = [
    Operation::Read,
    Operation::WriteReport,
    Operation::ManageMembership,
    Operation::ManageTeam,
];

fn held(role: Role) -> TeamAssignment {
    TeamAssignment { team_id: 7, user_id: 1, role }
}

#[test]
fn each_role_allows_what_it_should() {
    let table = [
        (Role::Manager, [true, true, true, true]),
        (Role::Member, [true, true, false, false]),
        (Role::Viewer, [true, false, false, false]),
        (Role::Invalid, [false, false, false, false]),
    ];
    for (role, allowed) in table {
        for (operation, expected) in OPERATIONS.iter().zip(allowed) {
            assert_eq!(role.allows(*operation), expected, "{:?} {:?}", role, operation);
        }
    }
}

#[test]
fn a_viewer_may_not_write_a_report_but_member_and_manager_may() {
    let refusal = evaluate(Ok(held(Role::Viewer)), Operation::WriteReport, "no writing").unwrap_err();
    assert_eq!(refusal, APIError::forbidden("no writing"));
    assert_eq!((refusal.code, refusal.title.as_str()), (403, "Forbidden"));
    assert_eq!(
        evaluate(Ok(held(Role::Member)), Operation::WriteReport, "no writing"),
        Ok(held(Role::Member))
    );
    assert_eq!(
        evaluate(Ok(held(Role::Manager)), Operation::WriteReport, "no writing"),
        Ok(held(Role::Manager))
    );
}

#[test]
fn an_unknown_role_is_granted_nothing() {
    for operation in OPERATIONS {
        assert_eq!(
            evaluate(Ok(held(Role::Invalid)), operation, "denied"),
            Err(APIError::forbidden("denied"))
        );
    }
}

#[test]
fn a_missing_assignment_is_forbidden_not_missing() {
    for operation in OPERATIONS {
        let refusal = evaluate(Err(APIError::not_found("no such team")), operation, "denied");
        assert_eq!(refusal, Err(APIError::forbidden(ACCESS_DENIED)));
    }
}

#[test]
fn other_failures_of_the_look_up_pass_through() {
    let fault = APIError::internal("the table is down");
    assert_eq!(evaluate(Err(fault.clone()), Operation::Read, "denied"), Err(fault));
    let odd = APIError::new(418, "Teapot", "short and stout");
    assert_eq!(evaluate(Err(odd.clone()), Operation::ManageTeam, "denied"), Err(odd));
}

#[test]
fn authorize_goes_by_what_the_store_holds() {
    let mut store = MemoryStore::new();
    store.store_team_assignment(7, 1, Role::Member).unwrap();
    store.store_team_assignment(7, 2, Role::Viewer).unwrap();

    assert_eq!(authorize(&store, 1, 7, Operation::WriteReport, "denied"), Ok(held(Role::Member)));
    assert_eq!(
        authorize(&store, 1, 7, Operation::ManageMembership, "denied"),
        Err(APIError::forbidden("denied"))
    );
    assert_eq!(
        authorize(&store, 2, 7, Operation::WriteReport, "denied"),
        Err(APIError::forbidden("denied"))
    );
    assert!(authorize(&store, 2, 7, Operation::Read, "denied").is_ok());
}

#[test]
fn the_refusal_does_not_tell_whether_the_team_exists() {
    let mut store = MemoryStore::new();
    store.store_team_assignment(7, 1, Role::Manager).unwrap();

    let in_known_team = authorize(&store, 9, 7, Operation::Read, "denied").unwrap_err();
    let in_unknown_team = authorize(&store, 9, 8, Operation::Read, "denied").unwrap_err();
    assert_eq!(in_known_team, in_unknown_team);
    assert_eq!(in_known_team, APIError::forbidden(ACCESS_DENIED));
    assert_eq!(in_known_team.code, 403);
}

#[test]
fn nobody_changes_their_own_assignment() {
    assert_eq!(guard_not_self(1, 2, "not yourself"), Ok(()));
    assert_eq!(guard_not_self(1, 1, "not yourself"), Err(APIError::bad_request("not yourself")));
    assert_eq!(guard_not_self(0, 0, "x").unwrap_err().code, 400);
}

#[test]
fn each_kind_of_failure_has_its_code_and_title() {
    let kinds = [
        (ErrorKind::BadRequest, 400, "Bad Request"),
        (ErrorKind::Forbidden, 403, "Forbidden"),
        (ErrorKind::NotFound, 404, "Not Found"),
        (ErrorKind::Internal, 500, "Internal Server Error"),
    ];
    for (kind, code, title) in kinds {
        let error = APIError::of_kind(kind, "why");
        assert_eq!(kind.code(), code);
        assert_eq!(error, APIError::new(code, title, "why"));
        assert_eq!(error.is_not_found(), code == 404);
    }
    assert_eq!(APIError::bad_request("a").code, 400);
    assert_eq!(APIError::forbidden("a").code, 403);
    assert_eq!(APIError::not_found("a").code, 404);
    assert_eq!(APIError::internal("a").code, 500);
}

#[test]
fn whether_an_operation_is_granted_follows_the_look_up() {
    assert_eq!(is_granted(Ok(held(Role::Member)), Operation::WriteReport), Ok(true));
    assert_eq!(is_granted(Ok(held(Role::Viewer)), Operation::WriteReport), Ok(false));
    assert_eq!(is_granted(Ok(held(Role::Viewer)), Operation::Read), Ok(true));
    assert_eq!(is_granted(Ok(held(Role::Invalid)), Operation::Read), Ok(false));
    assert_eq!(is_granted(Err(APIError::not_found("gone")), Operation::Read), Ok(false));
    let fault = APIError::internal("down");
    assert_eq!(is_granted(Err(fault.clone()), Operation::Read), Err(fault));

    let mut store = MemoryStore::new();
    store.store_team_assignment(7, 1, Role::Member).unwrap();
    assert!(may(&store, 1, 7, Operation::WriteReport));
    assert!(!may(&store, 1, 7, Operation::ManageTeam));
    assert!(!may(&store, 2, 7, Operation::Read));
    assert!(!may(&store, 1, 8, Operation::Read));
}

fn names(all: &[&str]) -> Vec<String> {
    all.iter().map(|name| name.to_string()).collect()
}

#[test]
fn a_token_needs_one_of_the_roles() {
    let allowed = names(&["Administrator", "User"]);
    assert_eq!(require_role(&names(&["User"]), &allowed), Ok(()));
    assert_eq!(require_role(&names(&["Guest", "Administrator"]), &allowed), Ok(()));
    let refusal = require_role(&names(&["Guest"]), &allowed).unwrap_err();
    assert_eq!(refusal.code, 403);
    assert_eq!(refusal.message, "Your account does not hold a role that may use this service.");
    assert_eq!(require_role(&names(&[]), &allowed).unwrap_err().code, 403);
    assert_eq!(require_role(&names(&["user"]), &allowed).unwrap_err().code, 403);
    assert_eq!(require_role(&names(&["User"]), &names(&[])).unwrap_err().code, 403);
}

#[test]
fn a_token_needs_the_scope_of_the_request() {
    let issued = names(&["Reports.Read", "Teams.Read"]);
    assert_eq!(require_scope(&issued, "Reports.Read"), Ok(()));
    assert_eq!(require_scope(&issued, "Teams.Read"), Ok(()));
    let refusal = require_scope(&issued, "Reports.Write").unwrap_err();
    assert_eq!(refusal.code, 403);
    assert_eq!(refusal.message, "Your token was not issued for this kind of request.");
    assert_eq!(require_scope(&names(&[]), "Reports.Read").unwrap_err().code, 403);
    assert_eq!(require_scope(&issued, "reports.read").unwrap_err().code, 403);
    assert!(holds(&issued, "Teams.Read"));
    assert!(!holds(&issued, "Teams"));
}
