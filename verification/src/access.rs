use vstd::prelude::*;

use crate::error::{single_error, AuthenticationError, ErrorResponse, Source};
use crate::id::Uid;

verus! {

/// Whether a caller of the given role is an organizer.
pub fn is_admin(role: &String, admin_role: &String) -> (res: bool)
    ensures
        res == (role@ == admin_role@),
{
    *role == *admin_role
}

/// Lets only organizers through.
pub fn require_admin(role: &String, admin_role: &String) -> (res: Result<(), ErrorResponse>)
    ensures
        role@ == admin_role@ ==> res is Ok,
        role@ != admin_role@ ==> (res matches Err(r) && single_error(
            r,
            Source::Authentication(AuthenticationError::InsufficientPermissions),
            "This user is not authorized to do this operation"@,
        )),
{
    if is_admin(role, admin_role) {
        Ok(())
    } else {
        Err(ErrorResponse::insufficient_permissions())
    }
}

/// Whose application a caller reads: an organizer may name anyone; every
/// other caller, and an organizer who names no one, reads their own.
pub open spec fn subject_of(
    role: Seq<char>,
    admin_role: Seq<char>,
    caller: Uid,
    requested: Option<Uid>,
) -> Uid {
    if role == admin_role && requested is Some {
        requested.unwrap()
    } else {
        caller
    }
}

/// Whose application a caller reads: an organizer may name anyone; every
/// other caller, and an organizer who names no one, reads their own.
pub fn application_subject(
    role: &String,
    admin_role: &String,
    caller: Uid,
    requested: Option<Uid>,
) -> (res: Uid)
    ensures
        res == subject_of(role@, admin_role@, caller, requested),
{
    match requested {
        Some(id) => if is_admin(role, admin_role) {
            id
        } else {
            caller
        },
        None => caller,
    }
}

/// A caller who is not an organizer reads no application but their own.
pub proof fn applications_stay_private(
    role: Seq<char>,
    admin_role: Seq<char>,
    caller: Uid,
    requested: Option<Uid>,
)
    requires
        role != admin_role,
    ensures
        subject_of(role, admin_role, caller, requested) == caller,
{
}

/// Whether the clues a caller's team has not used are hidden from them:
/// they are, from everyone but organizers.
pub fn hides_unused_clues(role: &String, admin_role: &String) -> (res: bool)
    ensures
        res == (role@ != admin_role@),
{
    !is_admin(role, admin_role)
}

/// Whether the scoreboard a caller sees is narrowed to their own team: it
/// is once the scoreboard has been hidden, for everyone but organizers.
pub fn scoreboard_narrowed(hidden: bool, role: &String, admin_role: &String) -> (res: bool)
    ensures
        res == (hidden && role@ != admin_role@),
{
    hidden && !is_admin(role, admin_role)
}

} // verus!
