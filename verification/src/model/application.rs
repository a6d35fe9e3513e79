use vstd::prelude::*;

use deadpool_diesel::InteractError;

use crate::error::{
    interaction_failed, single_error, single_row_outcome, statement_failed, DatabaseError, Error,
    ErrorResponse, QueryFailure, Source,
};
use crate::id::{hyphenated, Uid};
use crate::text::{decimal, write_decimal};

verus! {

/// How experienced an applicant is.
#[derive(Clone, Copy, Debug, PartialEq, Eq, Structural)]
pub enum Experience {
    Expert,
    Experienced,
    Inexperienced,
    Aware,
    Newbie,
}

/// The T-shirt size an applicant wears.
#[derive(Clone, Copy, Debug, PartialEq, Eq, Structural)]
pub enum TshirSize {
    XS,
    S,
    M,
    L,
    XL,
    XXL,
}

/// The gender an applicant declares.
#[derive(Clone, Copy, Debug, PartialEq, Eq, Structural)]
pub enum Gender {
    Man,
    Woman,
    Nonbinary,
    Agender,
    Other,
    Unspecified,
}

/// How an applicant heard of the event.
#[derive(Clone, Copy, Debug, PartialEq, Eq, Structural)]
pub enum Discovery {
    SocialMedia,
    Website,
    Acquaintances,
    Posters,
    Other,
}

/// Where an application stands.
#[derive(Clone, Copy, Debug, PartialEq, Eq, Structural)]
pub enum Status {
    Applied,
    Accepted,
    Confirmed,
    Participating,
    Disqualified,
    Finisher,
    Winner,
    Cancelled,
}

/// A change of attendance that an application goes through.
#[derive(Clone, Copy, Debug, PartialEq, Eq, Structural)]
pub enum AttendanceChange {
    /// An organizer accepts an applicant.
    Accept,
    /// An accepted applicant commits to attend.
    Confirm,
    /// An applicant withdraws.
    Cancel,
}

/// The statuses from which a change may be made.
pub open spec fn change_sources(change: AttendanceChange) -> Seq<Status> {
    match change {
        AttendanceChange::Accept => seq![Status::Applied],
        AttendanceChange::Confirm => seq![Status::Accepted],
        AttendanceChange::Cancel => seq![Status::Confirmed, Status::Accepted],
    }
}

/// The status a change leads to.
pub open spec fn change_target(change: AttendanceChange) -> Status {
    match change {
        AttendanceChange::Accept => Status::Accepted,
        AttendanceChange::Confirm => Status::Confirmed,
        AttendanceChange::Cancel => Status::Cancelled,
    }
}

/// The status an application in status `current` reaches by a change, or
/// `None` where the change does not apply to it.
pub open spec fn after_change(current: Status, change: AttendanceChange) -> Option<Status> {
    if change_sources(change).contains(current) {
        Some(change_target(change))
    } else {
        None
    }
}

impl AttendanceChange {
    /// The statuses from which the change may be made.
    pub fn sources(&self) -> (res: Vec<Status>)
        ensures
            res@ == change_sources(*self),
    {
        match self {
            AttendanceChange::Accept => vec![Status::Applied],
            AttendanceChange::Confirm => vec![Status::Accepted],
            AttendanceChange::Cancel => vec![Status::Confirmed, Status::Accepted],
        }
    }

    /// The status the change leads to.
    pub fn target(&self) -> (res: Status)
        ensures
            res == change_target(*self),
    {
        match self {
            AttendanceChange::Accept => Status::Accepted,
            AttendanceChange::Confirm => Status::Confirmed,
            AttendanceChange::Cancel => Status::Cancelled,
        }
    }
}

/// Attendance only moves forward: acceptance needs an application,
/// confirmation needs acceptance, nothing leads back to `Applied`, a
/// cancelled application stays cancelled, and the statuses given at the
/// event are out of reach of these changes.
pub proof fn attendance_laws(current: Status, change: AttendanceChange)
    ensures
        after_change(current, change) != Some(Status::Applied),
        after_change(current, change) == Some(Status::Accepted) ==> current == Status::Applied,
        after_change(current, change) == Some(Status::Confirmed) ==> current == Status::Accepted,
        current == Status::Cancelled ==> after_change(current, change) is None,
        (current == Status::Participating || current == Status::Disqualified || current
            == Status::Finisher || current == Status::Winner) ==> after_change(current, change) is None,
{
}

/// Whether an application may still be edited by its applicant.
pub open spec fn editable(status: Status) -> bool {
    status == Status::Applied
}

/// Whether an application in this status is checked in at the venue,
/// provided it has not been yet: an accepted applicant is, whether they
/// confirmed or not.
pub open spec fn can_check_in(status: Status) -> bool {
    status == Status::Accepted || status == Status::Confirmed
}

/// Whether an applicant in this status may join a team.
pub open spec fn may_join_team(status: Status) -> bool {
    status == Status::Applied || status == Status::Accepted || status == Status::Confirmed
}

impl Status {
    /// Whether the application may still be edited by its applicant.
    pub fn is_editable(&self) -> (res: bool)
        ensures
            res == editable(*self),
    {
        match self {
            Status::Applied => true,
            _ => false,
        }
    }

    /// Whether the applicant may be checked in (if not already).
    pub fn allows_check_in(&self) -> (res: bool)
        ensures
            res == can_check_in(*self),
    {
        match self {
            Status::Accepted | Status::Confirmed => true,
            _ => false,
        }
    }

    /// Whether the applicant may join a team.
    pub fn allows_joining_team(&self) -> (res: bool)
        ensures
            res == may_join_team(*self),
    {
        match self {
            Status::Applied | Status::Accepted | Status::Confirmed => true,
            _ => false,
        }
    }
}

/// The accessibility needs an applicant declares, as a set of flags:
/// mobility (bit 0), captioning (bit 1), quiet (bit 2) and other (bit 3).
#[derive(Clone, Copy, Debug)]
pub struct AccessibilityNeeds {
    bits: i16,
}

impl AccessibilityNeeds {
    /// Only the four known flags are ever set.
    #[verifier::type_invariant]
    spec fn known_flags_only(self) -> bool {
        0 <= self.bits < 16
    }

    /// The flags, as the number their bits spell.
    pub closed spec fn value(self) -> i16 {
        self.bits
    }

    /// Only the four known flags are ever set.
    pub open spec fn wf(self) -> bool {
        0 <= self.value() < 16
    }

    /// The set of flags that keeps the known flags among `bits` and drops
    /// the unknown ones.
    pub fn from_bits_truncate(bits: i16) -> (res: Self)
        ensures
            res.wf(),
            res.value() == bits & 0b1111,
    {
        let kept: i16 = bits & 0b1111;
        assert(0 <= bits & 0b1111 < 16) by (bit_vector);
        AccessibilityNeeds { bits: kept }
    }

    /// The number the flags spell.
    pub fn bits(&self) -> (res: i16)
        ensures
            res == self.value(),
            0 <= res < 16,
    {
        proof {
            use_type_invariant(self);
        }
        self.bits
    }

    /// The flag of mobility needs.
    pub fn mobility() -> (res: Self)
        ensures
            res.wf(),
            res.value() == 1,
    {
        AccessibilityNeeds { bits: 0b0001 }
    }

    /// The flag of captioning needs.
    pub fn captioning() -> (res: Self)
        ensures
            res.wf(),
            res.value() == 2,
    {
        AccessibilityNeeds { bits: 0b0010 }
    }

    /// The flag of a quiet place.
    pub fn quiet() -> (res: Self)
        ensures
            res.wf(),
            res.value() == 4,
    {
        AccessibilityNeeds { bits: 0b0100 }
    }

    /// The flag of other needs.
    pub fn other() -> (res: Self)
        ensures
            res.wf(),
            res.value() == 8,
    {
        AccessibilityNeeds { bits: 0b1000 }
    }

    /// The flags of both sets.
    pub fn union(&self, other: &Self) -> (res: Self)
        ensures
            res.wf(),
            res.value() == self.value() | other.value(),
    {
        proof {
            use_type_invariant(self);
            use_type_invariant(other);
        }
        let a = self.bits;
        let b = other.bits;
        assert(0 <= a < 16 && 0 <= b < 16 ==> 0 <= a | b < 16) by (bit_vector);
        AccessibilityNeeds { bits: a | b }
    }

    /// Whether every flag of `other` is set.
    pub fn contains(&self, other: &Self) -> (res: bool)
        ensures
            res == (self.value() & other.value() == other.value()),
    {
        self.bits & other.bits == other.bits
    }

    /// The two bytes the database stores: the number the flags spell, in
    /// little-endian order.
    pub fn to_sql_bytes(&self) -> (res: [u8; 2])
        ensures
            res@ == stored_bytes(self.value()),
    {
        proof {
            use_type_invariant(self);
        }
        let bits = self.bits;
        let value: u16 = bits as u16;
        let low: u8 = (value & 0xff) as u8;
        let high: u8 = (value >> 8) as u8;
        assert(0 <= bits < 16 ==> ((bits as u16) & 0xff) as u8 == bits as u8 && ((bits as u16)
            >> 8) as u8 == 0) by (bit_vector);
        let res = [low, high];
        assert(res@ =~= seq![bits as u8, 0u8]);
        res
    }

    /// Reads the flags the database stores: exactly two bytes, a
    /// little-endian number of which only the known flags are kept.
    pub fn from_sql_bytes(bytes: &[u8]) -> (res: Result<Self, String>)
        ensures
            bytes@.len() == 2 ==> (res matches Ok(a) && a.wf() && Some(a.value()) == read_flags(bytes@)),
            bytes@.len() != 2 ==> (res matches Err(message) && message@ == "Expected 2 bytes, found "@
                + decimal(bytes@.len())),
    {
        if bytes.len() != 2 {
            let mut message = String::from_str("Expected 2 bytes, found ");
            write_decimal(bytes.len() as u128, &mut message);
            return Err(message);
        }
        let low = bytes[0];
        let high = bytes[1];
        let value: i16 = ((low as u16) | ((high as u16) << 8)) as i16;
        let res = Self::from_bits_truncate(value);
        assert((((low as u16) | ((high as u16) << 8)) as i16) & 0b1111 == (low % 16) as i16)
            by (bit_vector);
        Ok(res)
    }
}

/// The two bytes stored for flags that spell `value` (between 0 and 15):
/// the little-endian bytes of the number.
pub open spec fn stored_bytes(value: i16) -> Seq<u8> {
    seq![value as u8, 0u8]
}

/// The flags read from stored bytes: two bytes, little-endian, of which
/// only the four known flags are kept; `None` for any other length.
pub open spec fn read_flags(bytes: Seq<u8>) -> Option<i16> {
    if bytes.len() == 2 {
        Some((bytes[0] % 16) as i16)
    } else {
        None
    }
}

/// What the database stores for a set of flags reads back as that set.
pub proof fn accessibility_round_trip(needs: AccessibilityNeeds)
    requires
        needs.wf(),
    ensures
        read_flags(stored_bytes(needs.value())) == Some(needs.value()),
{
}

/// The message reported when checking in changed more than one
/// application.
pub open spec fn check_in_overflow_message(user: Uid, now: Seq<char>) -> Seq<char> {
    "Something went horribly wrong when trying to check_in user "@ + hyphenated(user.bytes@)
        + " at "@ + now + ". Please contact an administrator as soon as possible"@
}

/// The outcome of checking in an applicant, given what the update of the
/// applications returned; `now` is the instant of the check-in as text.
pub fn check_in_outcome(
    outcome: Result<Result<usize, QueryFailure>, InteractError>,
    user: &Uid,
    now: &str,
) -> (res: Result<(), ErrorResponse>)
    ensures
        match outcome {
            Ok(Ok(rows)) => if rows == 0 {
                res matches Err(r) && single_error(
                    r,
                    Source::Database(DatabaseError::ConstraintViolation),
                    "The user doesn't exist or it has already been checked in"@,
                )
            } else if rows == 1 {
                res is Ok
            } else {
                res matches Err(r) && single_error(
                    r,
                    Source::Database(DatabaseError::Unknown),
                    check_in_overflow_message(*user, now@),
                )
            },
            Ok(Err(failure)) => res matches Err(r) && statement_failed(r, "Failed to check in the user"@, failure),
            Err(_) => res matches Err(r) && interaction_failed(r),
        },
{
    let mut message = String::from_str("Something went horribly wrong when trying to check_in user ");
    let id = user.hyphenated_text();
    message.append(id.as_str());
    message.append(" at ");
    message.append(now);
    message.append(". Please contact an administrator as soon as possible");
    single_row_outcome(
        outcome,
        String::from_str("Failed to check in the user"),
        Error::database(
            DatabaseError::ConstraintViolation,
            String::from_str("The user doesn't exist or it has already been checked in"),
        ),
        Error::database(DatabaseError::Unknown, message),
    )
}

} // verus!
