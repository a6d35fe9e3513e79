use backend::error::{DatabaseError, QueryFailure, QueryFailureKind, Source};
use backend::id::Uid;
use backend::model::application::{check_in_outcome, AccessibilityNeeds, AttendanceChange, Status};
use backend::model::team::{
    has_room, join_check, join_outcome, leave_outcome, rename_outcome, JoinRefusal, TeamSummary,
    TEAM_CAPACITY,
};
use backend::id::parse_id;
use deadpool_diesel::InteractError;

#[test]
fn attendance_changes() {
    assert_eq!(AttendanceChange::Accept.sources(), vec![Status::Applied]);
    assert_eq!(AttendanceChange::Accept.target(), Status::Accepted);
    assert_eq!(AttendanceChange::Confirm.sources(), vec![Status::Accepted]);
    assert_eq!(AttendanceChange::Confirm.target(), Status::Confirmed);
    assert_eq!(AttendanceChange::Cancel.sources(), vec![Status::Confirmed, Status::Accepted]);
    assert_eq!(AttendanceChange::Cancel.target(), Status::Cancelled);
}

#[test]
fn status_rules() {
    assert!(Status::Applied.is_editable());
    assert!(!Status::Accepted.is_editable());
    assert!(Status::Confirmed.allows_check_in());
    assert!(Status::Accepted.allows_check_in());
    assert!(!Status::Applied.allows_check_in());
    assert!(!Status::Cancelled.allows_check_in());
    assert!(Status::Applied.allows_joining_team());
    assert!(Status::Confirmed.allows_joining_team());
    assert!(!Status::Participating.allows_joining_team());
    assert!(!Status::Cancelled.allows_joining_team());
}

#[test]
fn accessibility_flags_are_stored_as_two_bytes() {
    let needs = AccessibilityNeeds::mobility().union(&AccessibilityNeeds::quiet());
    assert_eq!(needs.bits(), 0b0101);
    assert!(needs.contains(&AccessibilityNeeds::quiet()));
    assert!(!needs.contains(&AccessibilityNeeds::captioning()));
    let stored = needs.to_sql_bytes();
    assert_eq!(stored, 5i16.to_le_bytes());
    let read = AccessibilityNeeds::from_sql_bytes(&stored).unwrap();
    assert_eq!(read.bits(), 0b0101);
}

#[test]
fn unknown_flags_are_dropped() {
    assert_eq!(AccessibilityNeeds::from_bits_truncate(0x7ff3).bits(), 0b0011);
    assert_eq!(AccessibilityNeeds::from_bits_truncate(-1).bits(), 0b1111);
    let read = AccessibilityNeeds::from_sql_bytes(&(-2i16).to_le_bytes()).unwrap();
    assert_eq!(read.bits(), 0b1110);
    assert_eq!(AccessibilityNeeds::other().bits(), 8);
}

#[test]
fn stored_flags_must_be_two_bytes() {
    assert_eq!(AccessibilityNeeds::from_sql_bytes(&[1, 2, 3]).err().unwrap(), "Expected 2 bytes, found 3");
    assert_eq!(AccessibilityNeeds::from_sql_bytes(&[]).err().unwrap(), "Expected 2 bytes, found 0");
}

fn not_found() -> QueryFailure {
    QueryFailure {
        kind: QueryFailureKind::NotFound,
        rendered: "NotFound".to_string(),
        detail: String::new(),
    }
}

#[test]
fn checking_in_changes_one_application() {
    let user = Uid { bytes: *uuid::Uuid::parse_str("550e8400-e29b-41d4-a716-446655440000").unwrap().as_bytes() };
    assert!(check_in_outcome(Ok(Ok(1)), &user, "now").is_ok());
    let r = check_in_outcome(Ok(Ok(0)), &user, "now").err().unwrap();
    assert_eq!(r.status(), 412);
    assert_eq!(r.root_cause().message, "The user doesn't exist or it has already been checked in");
    let r = check_in_outcome(Ok(Ok(2)), &user, "2024-01-01").err().unwrap();
    assert_eq!(r.root_cause().error_type, Source::Database(DatabaseError::Unknown));
    assert_eq!(
        r.root_cause().message,
        "Something went horribly wrong when trying to check_in user 550e8400-e29b-41d4-a716-446655440000 at 2024-01-01. Please contact an administrator as soon as possible"
    );
    let r = check_in_outcome(Ok(Err(not_found())), &user, "now").err().unwrap();
    assert_eq!(r.status(), 404);
}

#[test]
fn teams_have_room_for_four() {
    assert_eq!(TEAM_CAPACITY, 4);
    assert!(has_room(3));
    assert!(!has_room(4));
    assert_eq!(join_check(4, Status::Applied), Err(JoinRefusal::TeamFull));
    assert_eq!(join_check(2, Status::Winner), Err(JoinRefusal::NotEligible));
    assert_eq!(join_check(0, Status::Accepted), Ok(()));
}

#[test]
fn joining_outcomes() {
    assert!(join_outcome(Ok(Ok(Ok(1)))).is_ok());
    let r = join_outcome(Ok(Ok(Ok(0)))).err().unwrap();
    assert_eq!(r.root_cause().message, "The user is already in a team");
    assert_eq!(r.status(), 412);
    let r = join_outcome(Ok(Ok(Ok(2)))).err().unwrap();
    assert_eq!(r.root_cause().error_type, Source::Database(DatabaseError::Unknown));
    let r = join_outcome(Ok(Ok(Err(JoinRefusal::TeamFull)))).err().unwrap();
    assert_eq!(r.status(), 404);
    let r = join_outcome(Ok(Ok(Err(JoinRefusal::NotEligible)))).err().unwrap();
    assert_eq!(r.root_cause().message, "The user can no longer join a team");
    let r = join_outcome(Err(InteractError::Aborted)).err().unwrap();
    assert_eq!(r.status(), 500);
}

#[test]
fn leaving_and_renaming_outcomes() {
    assert!(leave_outcome(Ok(Ok(1))).is_ok());
    let r = leave_outcome(Ok(Ok(0))).err().unwrap();
    assert_eq!(r.status(), 404);
    assert_eq!(r.root_cause().message, "The user is not in a team");
    assert!(rename_outcome(Ok(Ok(1))).is_ok());
    let r = rename_outcome(Ok(Ok(0))).err().unwrap();
    assert_eq!(r.root_cause().message, "The team's name could not be updated");
    let r = leave_outcome(Ok(Err(not_found()))).err().unwrap();
    assert_eq!(r.status(), 404);
    assert_eq!(r.root_cause().message, "What was requested wasn't found on the database");
    let r = rename_outcome(Ok(Ok(5))).err().unwrap();
    assert_eq!(r.root_cause().message, "Something unexpected happened when trying to update the team name");
}

#[test]
fn a_summary_names_the_team_by_its_code() {
    let team = Uid { bytes: [42; 16] };
    let summary = TeamSummary::new("crew".to_string(), &team, vec!["ana".to_string()]);
    assert_eq!(summary.id.len(), 22);
    assert_eq!(parse_id(&summary.id).unwrap().bytes, [42; 16]);
    assert_eq!(summary.members, vec!["ana".to_string()]);
}
