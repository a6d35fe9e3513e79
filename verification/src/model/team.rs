use vstd::prelude::*;

use deadpool_diesel::InteractError;

use crate::error::{
    interaction_failed, single_error, single_row_outcome, statement_failed, wrapped_error,
    DatabaseError, Error, ErrorResponse, QueryFailure, Source,
};
use crate::id::{base64_encoded, id_code, id_of_text, Uid};
use crate::model::application::{may_join_team, Status};

verus! {

/// The most members a team can have.
pub const TEAM_CAPACITY: i64 = 4;

/// A team.
pub struct Team {
    pub id: Uid,
    pub name: String,
    pub score: i32,
}

/// What a member is told about their team: its name, the code under which
/// others join it, and the names of its members.
pub struct TeamSummary {
    pub name: String,
    pub id: String,
    pub members: Vec<String>,
}

impl TeamSummary {
    /// The summary of a team, named by its code.
    pub fn new(name: String, team: &Uid, members: Vec<String>) -> (res: TeamSummary)
        ensures
            res.name == name,
            res.members == members,
            res.id@ == base64_encoded(team.bytes@),
            id_of_text(res.id@) == Some(team.bytes@),
    {
        TeamSummary { name, id: id_code(team), members }
    }
}

/// Why a user may not join a team.
#[derive(Clone, Copy, Debug, PartialEq, Eq, Structural)]
pub enum JoinRefusal {
    /// The team already has as many members as it can have.
    TeamFull,
    /// The user's application no longer allows joining a team.
    NotEligible,
}

/// Whether a team with `member_count` members can take one more.
pub fn has_room(member_count: i64) -> (res: bool)
    ensures
        res == (member_count < TEAM_CAPACITY),
{
    member_count < TEAM_CAPACITY
}

/// Whether a user whose application is in `status` may join a team that
/// has `member_count` members: the team must have room for one more, and
/// the application must still allow joining.
pub open spec fn join_permitted(member_count: int, status: Status) -> bool {
    member_count < TEAM_CAPACITY && may_join_team(status)
}

/// Whether a user may join a team: it must have room for them, and their
/// application must still allow it.
pub fn join_check(member_count: i64, status: Status) -> (res: Result<(), JoinRefusal>)
    ensures
        res is Ok <==> join_permitted(member_count as int, status),
        member_count >= TEAM_CAPACITY ==> res == Err::<(), JoinRefusal>(JoinRefusal::TeamFull),
        member_count < TEAM_CAPACITY && !may_join_team(status) ==> res == Err::<(), JoinRefusal>(
            JoinRefusal::NotEligible,
        ),
{
    if !has_room(member_count) {
        Err(JoinRefusal::TeamFull)
    } else if !status.allows_joining_team() {
        Err(JoinRefusal::NotEligible)
    } else {
        Ok(())
    }
}

/// A team never grows past its capacity: starting from any number of
/// members within it, every join the check permits leaves the team within
/// it, and a full team takes no one, whatever their application.
pub proof fn teams_stay_within_capacity(member_count: int, status: Status)
    requires
        0 <= member_count <= TEAM_CAPACITY,
    ensures
        join_permitted(member_count, status) ==> member_count + 1 <= TEAM_CAPACITY,
        member_count == TEAM_CAPACITY ==> !join_permitted(member_count, status),
{
}

/// The outcome of joining a team, given what the interaction returned:
/// a refusal, or the number of memberships inserted.
pub fn join_outcome(
    outcome: Result<Result<Result<usize, JoinRefusal>, QueryFailure>, InteractError>,
) -> (res: Result<(), ErrorResponse>)
    ensures
        match outcome {
            Ok(Ok(Ok(rows))) => if rows == 0 {
                res matches Err(r) && single_error(
                    r,
                    Source::Database(DatabaseError::ConstraintViolation),
                    "The user is already in a team"@,
                )
            } else if rows == 1 {
                res is Ok
            } else {
                res matches Err(r) && single_error(
                    r,
                    Source::Database(DatabaseError::Unknown),
                    "Something unexpected happened when trying to join the team"@,
                )
            },
            Ok(Ok(Err(JoinRefusal::TeamFull))) => res matches Err(r) && wrapped_error(
                r,
                "Failed to join the team"@,
                |s: Source| s is Database,
            ) && r.root().error_type == Source::Database(DatabaseError::NotFound)
                && r.root().message@ == "What was requested wasn't found on the database"@,
            Ok(Ok(Err(JoinRefusal::NotEligible))) => res matches Err(r) && wrapped_error(
                r,
                "Failed to join the team"@,
                |s: Source| s is Database,
            ) && r.root().error_type == Source::Database(DatabaseError::ConstraintViolation)
                && r.root().message@ == "The user can no longer join a team"@,
            Ok(Err(failure)) => res matches Err(r) && statement_failed(r, "Failed to join the team"@, failure),
            Err(_) => res matches Err(r) && interaction_failed(r),
        },
{
    let context = String::from_str("Failed to join the team");
    match outcome {
        Ok(Ok(Err(JoinRefusal::TeamFull))) => Err(ErrorResponse::new(Error::database(
            DatabaseError::NotFound,
            String::from_str("What was requested wasn't found on the database"),
        )).raise(Error::upstream(context))),
        Ok(Ok(Err(JoinRefusal::NotEligible))) => Err(ErrorResponse::new(Error::database(
            DatabaseError::ConstraintViolation,
            String::from_str("The user can no longer join a team"),
        )).raise(Error::upstream(context))),
        Ok(Ok(Ok(rows))) => single_row_outcome(
            Ok(Ok(rows)),
            context,
            Error::database(
                DatabaseError::ConstraintViolation,
                String::from_str("The user is already in a team"),
            ),
            Error::database(
                DatabaseError::Unknown,
                String::from_str("Something unexpected happened when trying to join the team"),
            ),
        ),
        Ok(Err(e)) => single_row_outcome(
            Ok(Err(e)),
            context,
            Error::upstream(String::new()),
            Error::upstream(String::new()),
        ),
        Err(e) => single_row_outcome(
            Err(e),
            context,
            Error::upstream(String::new()),
            Error::upstream(String::new()),
        ),
    }
}

/// The outcome of leaving one's team, given the number of memberships the
/// deletion removed.
pub fn leave_outcome(outcome: Result<Result<usize, QueryFailure>, InteractError>) -> (res: Result<
    (),
    ErrorResponse,
>)
    ensures
        match outcome {
            Ok(Ok(rows)) => if rows == 0 {
                res matches Err(r) && single_error(
                    r,
                    Source::Database(DatabaseError::NotFound),
                    "The user is not in a team"@,
                )
            } else if rows == 1 {
                res is Ok
            } else {
                res matches Err(r) && single_error(
                    r,
                    Source::Database(DatabaseError::Unknown),
                    "Something unexpected happened while trying to leave"@,
                )
            },
            Ok(Err(failure)) => res matches Err(r) && statement_failed(r, "Failed to leave the team"@, failure),
            Err(_) => res matches Err(r) && interaction_failed(r),
        },
{
    single_row_outcome(
        outcome,
        String::from_str("Failed to leave the team"),
        Error::database(DatabaseError::NotFound, String::from_str("The user is not in a team")),
        Error::database(
            DatabaseError::Unknown,
            String::from_str("Something unexpected happened while trying to leave"),
        ),
    )
}

/// The outcome of renaming one's team, given the number of teams the
/// update changed.
pub fn rename_outcome(outcome: Result<Result<usize, QueryFailure>, InteractError>) -> (res: Result<
    (),
    ErrorResponse,
>)
    ensures
        match outcome {
            Ok(Ok(rows)) => if rows == 0 {
                res matches Err(r) && single_error(
                    r,
                    Source::Database(DatabaseError::Unknown),
                    "The team's name could not be updated"@,
                )
            } else if rows == 1 {
                res is Ok
            } else {
                res matches Err(r) && single_error(
                    r,
                    Source::Database(DatabaseError::Unknown),
                    "Something unexpected happened when trying to update the team name"@,
                )
            },
            Ok(Err(failure)) => res matches Err(r) && statement_failed(r, "Failed to update the team"@, failure),
            Err(_) => res matches Err(r) && interaction_failed(r),
        },
{
    single_row_outcome(
        outcome,
        String::from_str("Failed to update the team"),
        Error::database(
            DatabaseError::Unknown,
            String::from_str("The team's name could not be updated"),
        ),
        Error::database(
            DatabaseError::Unknown,
            String::from_str("Something unexpected happened when trying to update the team name"),
        ),
    )
}

} // verus!
