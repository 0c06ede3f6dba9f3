//! The words in which the service speaks to its callers.

use vstd::prelude::*;

verus! {

pub const UNAVAILABLE: &'static str =
    "The service is currently unavailable, please try again later.";

pub const TEAM_ID_NOT_FOUND: &'static str =
    "The team ID you provided could not be found. Please check it and try again.";

pub const REPORT_ID_NOT_FOUND: &'static str =
    "The report ID you provided could not be found. Please check it and try again.";

pub const PRINCIPAL_NOT_FOUND: &'static str =
    "The principal ID you provided could not be found. This likely means that you do not yet have any teams.";

pub const PRINCIPAL_HAS_NO_TEAMS: &'static str =
    "The principal ID you provided could not be found. This probably means that you do not yet have any teams.";

pub const USER_NOT_FOUND: &'static str =
    "No user could be found with the email hash you provided. Please check it and try again.";

pub const ACCESS_DENIED: &'static str = "You do not have permission to access this resource.";

pub const ROLE_MISSING: &'static str =
    "Your account does not hold a role that may use this service.";

pub const SCOPE_MISSING: &'static str =
    "Your token was not issued for this kind of request.";

pub const MAY_NOT_ADD_REPORT: &'static str =
    "You do not have permission to add an report to this team.";

pub const MAY_NOT_REMOVE_REPORT: &'static str =
    "You do not have permission to remove an report from this team.";

pub const MAY_NOT_MANAGE_MEMBERS: &'static str =
    "You do not have permission to view or manage the list of members for this team.";

pub const MAY_NOT_MANAGE_USERS: &'static str =
    "You do not have permission to view or manage the list of users for this team.";

pub const MAY_NOT_MANAGE_TEAM: &'static str =
    "You do not have permission to rename or remove this team.";

pub const CANNOT_REMOVE_SELF: &'static str =
    "You cannot remove yourself from a team. Please request that another team owner performs this for you.";

pub const CANNOT_MODIFY_SELF: &'static str =
    "You cannot modify your own role assignment. Please request that another team owner performs this change for you.";

pub const OID_UNREADABLE: &'static str =
    "The auth token OID you provided could not be parsed. Please check it and try again.";

pub const REPORT_ID_UNREADABLE: &'static str =
    "The report ID you provided could not be parsed. Please check it and try again.";

pub const TEAM_ID_UNREADABLE: &'static str =
    "The team ID you provided could not be parsed. Please check it and try again.";

pub const USER_ID_UNREADABLE: &'static str =
    "The user ID you provided could not be parsed. Please check it and try again.";

pub const REMOTE_REPORT_NOT_FOUND: &'static str =
    "The combination of team and record ID you provided could not be found. Please check them and try again.";

pub const REMOTE_TEAM_NOT_FOUND: &'static str =
    "The team ID you provided could not be found. Please check them and try again.";

pub const REMOTE_USER_NOT_FOUND: &'static str =
    "The user you are looking for could not be found. Please check that you have entered their email address correctly and try again.";

pub const REMOTE_ROW_NOT_FOUND: &'static str =
    "The entry you asked to remove could not be found. Please check its ID and try again.";

pub const REMOTE_FAILURE: &'static str =
    "The storage service could not complete the request. Please try again later.";

pub const TIME_UNWRITABLE: &'static str =
    "The time you provided lies outside the calendar. Please check it and try again.";

pub const DEFAULT_TEAM_NAME: &'static str = "My Team";

} // verus!
