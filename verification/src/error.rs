use vstd::prelude::*;

use deadpool_diesel::InteractError;
use jsonwebtoken::errors::{Error as JwtError, ErrorKind as JwtKind};

verus! {

/// Why an authentication step failed.
#[derive(Clone, Copy, Debug, PartialEq, Eq, Structural)]
pub enum AuthenticationError {
    InvalidFormat,
    InvalidIssuer,
    InvalidAlgorythm,
    InvalidSignature,
    InvalidKey,
    InvalidClaim,
    Missing,
    NoMatchingKey,
    InvalidTimeRange,
    InsufficientPermissions,
    NotInNetwork,
    Unknown,
}

/// Why a database interaction failed.
#[derive(Clone, Copy, Debug, PartialEq, Eq, Structural)]
pub enum DatabaseError {
    Timeout,
    Connection,
    Pool,
    NotFound,
    Transaction,
    Serialization,
    Query,
    ConstraintViolation,
    Unknown,
}

/// Why a puzzle operation failed.
#[derive(Clone, Copy, Debug, PartialEq, Eq, Structural)]
pub enum PuzzleError {
    Io,
    FilesMissing,
    Generator,
    IncorrectFlag,
}

/// Where an error comes from.
#[derive(Clone, Copy, Debug, PartialEq, Eq, Structural)]
pub enum Source {
    Authentication(AuthenticationError),
    Database(DatabaseError),
    Puzzle(PuzzleError),
    Internal,
}

/// An error as it is reported to the caller: its source and a message.
#[derive(Clone, Debug)]
pub struct Error {
    pub error_type: Source,
    pub message: String,
}


#[verifier::external_type_specification]
#[verifier::external_body]
pub struct ExJwtError(JwtError);

#[verifier::external_type_specification]
#[verifier::external_body]
pub struct ExInteractError(InteractError);


/// The failure that a `jsonwebtoken` error reports: its kind
/// (`Error::kind`), variant for variant, a kind's claim name kept; kinds
/// without a variant of their own are `Other`.
pub uninterp spec fn jwt_failure_of(e: JwtError) -> JwtFailure;

/// Whether a failure is among the kinds that `jwt_failure_second` tells
/// apart (or is `Other`).
pub open spec fn late_failure(f: JwtFailure) -> bool {
    match f {
        JwtFailure::ExpiredSignature | JwtFailure::InvalidIssuer | JwtFailure::InvalidAudience
        | JwtFailure::InvalidSubject | JwtFailure::ImmatureSignature
        | JwtFailure::InvalidAlgorithm | JwtFailure::MissingAlgorithm | JwtFailure::Base64
        | JwtFailure::Json | JwtFailure::Utf8 | JwtFailure::Provider | JwtFailure::Other => true,
        _ => false,
    }
}

/// Reads the kind of a `jsonwebtoken` error (`Error::kind`) among the first
/// half of the kinds: `Some` of the failure it reports, `None` for every
/// other kind.
#[verifier::external_body]
fn jwt_failure_first(e: &JwtError) -> (res: Option<JwtFailure>)
    ensures
        match res {
            Some(f) => f == jwt_failure_of(*e) && !late_failure(f),
            None => late_failure(jwt_failure_of(*e)),
        },
{
    match e.kind() {
        JwtKind::InvalidToken => Some(JwtFailure::InvalidToken),
        JwtKind::InvalidSignature => Some(JwtFailure::InvalidSignature),
        JwtKind::InvalidEcdsaKey => Some(JwtFailure::InvalidEcdsaKey),
        JwtKind::InvalidEddsaKey => Some(JwtFailure::InvalidEddsaKey),
        JwtKind::InvalidRsaKey(_) => Some(JwtFailure::InvalidRsaKey),
        JwtKind::RsaFailedSigning => Some(JwtFailure::RsaFailedSigning),
        JwtKind::Signing(_) => Some(JwtFailure::Signing),
        JwtKind::InvalidAlgorithmName => Some(JwtFailure::InvalidAlgorithmName),
        JwtKind::InvalidKeyFormat => Some(JwtFailure::InvalidKeyFormat),
        JwtKind::MissingRequiredClaim(c) => Some(JwtFailure::MissingRequiredClaim(c.clone())),
        JwtKind::InvalidClaimFormat(c) => Some(JwtFailure::InvalidClaimFormat(c.clone())),
        _ => None,
    }
}

/// Reads the kind of a `jsonwebtoken` error (`Error::kind`) among the second
/// half of the kinds, the others becoming `Other`: for an error of such a
/// kind, the failure it reports.
#[verifier::external_body]
fn jwt_failure_second(e: &JwtError) -> (res: JwtFailure)
    ensures
        late_failure(jwt_failure_of(*e)) ==> res == jwt_failure_of(*e),
{
    match e.kind() {
        JwtKind::ExpiredSignature => JwtFailure::ExpiredSignature,
        JwtKind::InvalidIssuer => JwtFailure::InvalidIssuer,
        JwtKind::InvalidAudience => JwtFailure::InvalidAudience,
        JwtKind::InvalidSubject => JwtFailure::InvalidSubject,
        JwtKind::ImmatureSignature => JwtFailure::ImmatureSignature,
        JwtKind::InvalidAlgorithm => JwtFailure::InvalidAlgorithm,
        JwtKind::MissingAlgorithm => JwtFailure::MissingAlgorithm,
        JwtKind::Base64(_) => JwtFailure::Base64,
        JwtKind::Json(_) => JwtFailure::Json,
        JwtKind::Utf8(_) => JwtFailure::Utf8,
        JwtKind::Provider(_) => JwtFailure::Provider,
        _ => JwtFailure::Other,
    }
}

impl JwtFailure {
    /// The failure an error of the token library reports.
    pub(crate) fn from_jwt_error(e: &JwtError) -> (res: JwtFailure)
        ensures
            res == jwt_failure_of(*e),
    {
        match jwt_failure_first(e) {
            Some(failure) => failure,
            None => jwt_failure_second(e),
        }
    }
}

impl Error {
    /// An authentication error with the given reason.
    pub fn authentication(reason: AuthenticationError, message: String) -> (res: Self)
        ensures
            res.error_type == Source::Authentication(reason),
            res.message == message,
    {
        Self { error_type: Source::Authentication(reason), message }
    }

    /// A database error with the given reason.
    pub fn database(reason: DatabaseError, message: String) -> (res: Self)
        ensures
            res.error_type == Source::Database(reason),
            res.message == message,
    {
        Self { error_type: Source::Database(reason), message }
    }

    /// A puzzle error with the given reason.
    pub fn puzzle(reason: PuzzleError, message: String) -> (res: Self)
        ensures
            res.error_type == Source::Puzzle(reason),
            res.message == message,
    {
        Self { error_type: Source::Puzzle(reason), message }
    }

    /// An internal error, raised by a layer above the one that failed.
    pub fn upstream(message: String) -> (res: Self)
        ensures
            res.error_type == Source::Internal,
            res.message == message,
    {
        Self { error_type: Source::Internal, message }
    }
}


/// What went wrong in the token library, one variant per kind of failure
/// it reports.
#[derive(Clone, Debug)]
pub enum JwtFailure {
    InvalidToken,
    InvalidSignature,
    InvalidEcdsaKey,
    InvalidEddsaKey,
    InvalidRsaKey,
    RsaFailedSigning,
    Signing,
    InvalidAlgorithmName,
    InvalidKeyFormat,
    MissingRequiredClaim(String),
    InvalidClaimFormat(String),
    ExpiredSignature,
    InvalidIssuer,
    InvalidAudience,
    InvalidSubject,
    ImmatureSignature,
    InvalidAlgorithm,
    MissingAlgorithm,
    Base64,
    Json,
    Utf8,
    Provider,
    Other,
}

/// The source and message of the error that a token failure becomes.
pub open spec fn jwt_error_spec(failure: JwtFailure) -> (Source, Seq<char>) {
    match failure {
        JwtFailure::InvalidToken | JwtFailure::InvalidKeyFormat | JwtFailure::Base64
        | JwtFailure::Json | JwtFailure::Utf8 => (
            Source::Authentication(AuthenticationError::InvalidFormat),
            "JWT could not be decoded or deserialized"@,
        ),
        JwtFailure::InvalidSignature => (
            Source::Authentication(AuthenticationError::InvalidSignature),
            "JWT signature does not match"@,
        ),
        JwtFailure::InvalidEcdsaKey | JwtFailure::InvalidEddsaKey | JwtFailure::InvalidRsaKey => (
            Source::Authentication(AuthenticationError::InvalidSignature),
            "Cryptographic key is not correctly formatted"@,
        ),
        JwtFailure::InvalidAlgorithmName | JwtFailure::InvalidAlgorithm
        | JwtFailure::MissingAlgorithm => (
            Source::Authentication(AuthenticationError::InvalidAlgorythm),
            "Algorythm does not match key id"@,
        ),
        JwtFailure::MissingRequiredClaim(claim) | JwtFailure::InvalidClaimFormat(claim) => (
            Source::Authentication(AuthenticationError::InvalidClaim),
            "Missing or invalid claim(s): "@ + claim@,
        ),
        JwtFailure::ExpiredSignature | JwtFailure::ImmatureSignature => (
            Source::Authentication(AuthenticationError::InvalidTimeRange),
            "JWT is expired or immature. Re-authentication is required"@,
        ),
        JwtFailure::InvalidIssuer => (
            Source::Authentication(AuthenticationError::InvalidIssuer),
            "JWT is not issued by a trusted source"@,
        ),
        JwtFailure::InvalidAudience => (
            Source::Authentication(AuthenticationError::InsufficientPermissions),
            "This JWT does not grant permissions for this operation"@,
        ),
        _ => (
            Source::Authentication(AuthenticationError::Unknown),
            "Something unexpected happened during authentication"@,
        ),
    }
}

/// The kind of failure a database reports for a statement.
#[derive(Clone, Copy, Debug, PartialEq, Eq, Structural)]
pub enum DbErrorKind {
    UniqueViolation,
    ForeignKeyViolation,
    UnableToSendCommand,
    SerializationFailure,
    ReadOnlyTransaction,
    RestrictViolation,
    NotNullViolation,
    CheckViolation,
    ExclusionViolation,
    ClosedConnection,
    Unknown,
}

/// The kind of failure the query layer reports.
#[derive(Clone, Copy, Debug, PartialEq, Eq, Structural)]
pub enum QueryFailureKind {
    InvalidCString,
    Database(DbErrorKind),
    NotFound,
    QueryBuilder,
    Deserialization,
    Serialization,
    RollbackErrorOnCommit,
    RollbackTransaction,
    AlreadyInTransaction,
    NotInTransaction,
    BrokenTransactionManager,
    IntegerConversion,
    Other,
}

/// A failure of the query layer: its kind, the rendering of the whole
/// failure, and a detail whose meaning depends on the kind (the rendering
/// of the inner cause of a (de)serialization failure, the database's
/// message for a constraint violation, the rendering of the database's
/// report for a closed connection).
#[derive(Clone, Debug)]
pub struct QueryFailure {
    pub kind: QueryFailureKind,
    pub rendered: String,
    pub detail: String,
}

/// The source and message of the error that a query failure becomes.
pub open spec fn query_error_spec(failure: QueryFailure) -> (Source, Seq<char>) {
    match failure.kind {
        QueryFailureKind::NotFound => (
            Source::Database(DatabaseError::NotFound),
            "What was requested wasn't found on the database"@,
        ),
        QueryFailureKind::RollbackErrorOnCommit | QueryFailureKind::RollbackTransaction
        | QueryFailureKind::AlreadyInTransaction | QueryFailureKind::NotInTransaction
        | QueryFailureKind::BrokenTransactionManager
        | QueryFailureKind::Database(DbErrorKind::UnableToSendCommand)
        | QueryFailureKind::Database(DbErrorKind::ReadOnlyTransaction) => (
            Source::Database(DatabaseError::Transaction),
            "Something went wrong while dealing with a transaction: "@ + failure.rendered@,
        ),
        QueryFailureKind::InvalidCString
        | QueryFailureKind::Database(DbErrorKind::SerializationFailure) => (
            Source::Database(DatabaseError::Serialization),
            "Something went wrong trying to convert to or from a format the database can understand: "@
                + failure.rendered@,
        ),
        QueryFailureKind::Serialization | QueryFailureKind::Deserialization => (
            Source::Database(DatabaseError::Serialization),
            "Something went wrong trying to convert to or from a format the database can understand: "@
                + failure.detail@,
        ),
        QueryFailureKind::QueryBuilder => (
            Source::Database(DatabaseError::Query),
            "A query was submitted that's not possible to execute: "@ + failure.rendered@,
        ),
        QueryFailureKind::Database(DbErrorKind::UniqueViolation)
        | QueryFailureKind::Database(DbErrorKind::ForeignKeyViolation)
        | QueryFailureKind::Database(DbErrorKind::RestrictViolation)
        | QueryFailureKind::Database(DbErrorKind::NotNullViolation)
        | QueryFailureKind::Database(DbErrorKind::CheckViolation)
        | QueryFailureKind::Database(DbErrorKind::ExclusionViolation) => (
            Source::Database(DatabaseError::ConstraintViolation),
            failure.detail@,
        ),
        QueryFailureKind::Database(DbErrorKind::ClosedConnection) => (
            Source::Database(DatabaseError::Connection),
            "Database closed the connection: "@ + failure.detail@,
        ),
        _ => (
            Source::Database(DatabaseError::Unknown),
            "Something unexpected happened while attempting to communicate with the database: "@
                + failure.rendered@,
        ),
    }
}

/// What went wrong when asking the connection pool for a connection.
#[derive(Clone, Copy, Debug, PartialEq, Eq, Structural)]
pub enum PoolFailure {
    Timeout,
    Backend,
    Closed,
    NoRuntimeSpecified,
    PostCreateHook,
}

/// The source and message of the error that a pool failure becomes.
pub open spec fn pool_error_spec(failure: PoolFailure) -> (Source, Seq<char>) {
    match failure {
        PoolFailure::Timeout => (
            Source::Database(DatabaseError::Timeout),
            "Timed out while trying to communicate to database"@,
        ),
        PoolFailure::Backend => (
            Source::Database(DatabaseError::Connection),
            "Connection to the database failed"@,
        ),
        _ => (Source::Database(DatabaseError::Pool), "Database pool closed or falied to open"@),
    }
}

/// Appends a borrowed string to a message.
fn joined(prefix: &str, rest: &String) -> (res: String)
    ensures
        res@ == prefix@ + rest@,
{
    let mut out = String::from_str(prefix);
    out.append(rest.as_str());
    out
}

impl Error {
    /// The error a token failure becomes.
    pub fn from_jwt(failure: &JwtFailure) -> (res: Self)
        ensures
            (res.error_type, res.message@) == jwt_error_spec(*failure),
    {
        match failure {
            JwtFailure::InvalidToken | JwtFailure::InvalidKeyFormat | JwtFailure::Base64
            | JwtFailure::Json | JwtFailure::Utf8 => Self::authentication(
                AuthenticationError::InvalidFormat,
                String::from_str("JWT could not be decoded or deserialized"),
            ),
            JwtFailure::InvalidSignature => Self::authentication(
                AuthenticationError::InvalidSignature,
                String::from_str("JWT signature does not match"),
            ),
            JwtFailure::InvalidEcdsaKey | JwtFailure::InvalidEddsaKey
            | JwtFailure::InvalidRsaKey => Self::authentication(
                AuthenticationError::InvalidSignature,
                String::from_str("Cryptographic key is not correctly formatted"),
            ),
            JwtFailure::InvalidAlgorithmName | JwtFailure::InvalidAlgorithm
            | JwtFailure::MissingAlgorithm => Self::authentication(
                AuthenticationError::InvalidAlgorythm,
                String::from_str("Algorythm does not match key id"),
            ),
            JwtFailure::MissingRequiredClaim(claim) | JwtFailure::InvalidClaimFormat(claim) => {
                Self::authentication(
                    AuthenticationError::InvalidClaim,
                    joined("Missing or invalid claim(s): ", claim),
                )
            },
            JwtFailure::ExpiredSignature | JwtFailure::ImmatureSignature => Self::authentication(
                AuthenticationError::InvalidTimeRange,
                String::from_str("JWT is expired or immature. Re-authentication is required"),
            ),
            JwtFailure::InvalidIssuer => Self::authentication(
                AuthenticationError::InvalidIssuer,
                String::from_str("JWT is not issued by a trusted source"),
            ),
            JwtFailure::InvalidAudience => Self::authentication(
                AuthenticationError::InsufficientPermissions,
                String::from_str("This JWT does not grant permissions for this operation"),
            ),
            _ => Self::authentication(
                AuthenticationError::Unknown,
                String::from_str("Something unexpected happened during authentication"),
            ),
        }
    }

    /// The error a query failure becomes.
    pub fn from_query(failure: &QueryFailure) -> (res: Self)
        ensures
            (res.error_type, res.message@) == query_error_spec(*failure),
    {
        match failure.kind {
            QueryFailureKind::NotFound => Self::database(
                DatabaseError::NotFound,
                String::from_str("What was requested wasn't found on the database"),
            ),
            QueryFailureKind::RollbackErrorOnCommit | QueryFailureKind::RollbackTransaction
            | QueryFailureKind::AlreadyInTransaction | QueryFailureKind::NotInTransaction
            | QueryFailureKind::BrokenTransactionManager
            | QueryFailureKind::Database(DbErrorKind::UnableToSendCommand)
            | QueryFailureKind::Database(DbErrorKind::ReadOnlyTransaction) => Self::database(
                DatabaseError::Transaction,
                joined(
                    "Something went wrong while dealing with a transaction: ",
                    &failure.rendered,
                ),
            ),
            QueryFailureKind::InvalidCString
            | QueryFailureKind::Database(DbErrorKind::SerializationFailure) => Self::database(
                DatabaseError::Serialization,
                joined(
                    "Something went wrong trying to convert to or from a format the database can understand: ",
                    &failure.rendered,
                ),
            ),
            QueryFailureKind::Serialization | QueryFailureKind::Deserialization => Self::database(
                DatabaseError::Serialization,
                joined(
                    "Something went wrong trying to convert to or from a format the database can understand: ",
                    &failure.detail,
                ),
            ),
            QueryFailureKind::QueryBuilder => Self::database(
                DatabaseError::Query,
                joined(
                    "A query was submitted that's not possible to execute: ",
                    &failure.rendered,
                ),
            ),
            QueryFailureKind::Database(DbErrorKind::UniqueViolation)
            | QueryFailureKind::Database(DbErrorKind::ForeignKeyViolation)
            | QueryFailureKind::Database(DbErrorKind::RestrictViolation)
            | QueryFailureKind::Database(DbErrorKind::NotNullViolation)
            | QueryFailureKind::Database(DbErrorKind::CheckViolation)
            | QueryFailureKind::Database(DbErrorKind::ExclusionViolation) => Self::database(
                DatabaseError::ConstraintViolation,
                failure.detail.clone(),
            ),
            QueryFailureKind::Database(DbErrorKind::ClosedConnection) => Self::database(
                DatabaseError::Connection,
                joined("Database closed the connection: ", &failure.detail),
            ),
            _ => Self::database(
                DatabaseError::Unknown,
                joined(
                    "Something unexpected happened while attempting to communicate with the database: ",
                    &failure.rendered,
                ),
            ),
        }
    }

    /// The error an error of the token library becomes: the error of the
    /// failure it reports.
    pub fn from_jwt_error(e: &JwtError) -> (res: Self)
        ensures
            res.error_type is Authentication,
            (res.error_type, res.message@) == jwt_error_spec(jwt_failure_of(*e)),
    {
        Self::from_jwt(&JwtFailure::from_jwt_error(e))
    }

    /// The error a pool failure becomes.
    pub fn from_pool(failure: PoolFailure) -> (res: Self)
        ensures
            (res.error_type, res.message@) == pool_error_spec(failure),
    {
        match failure {
            PoolFailure::Timeout => Self::database(
                DatabaseError::Timeout,
                String::from_str("Timed out while trying to communicate to database"),
            ),
            PoolFailure::Backend => Self::database(
                DatabaseError::Connection,
                String::from_str("Connection to the database failed"),
            ),
            _ => Self::database(
                DatabaseError::Pool,
                String::from_str("Database pool closed or falied to open"),
            ),
        }
    }

    /// The error a failed interaction with a pooled connection becomes.
    pub fn from_interaction() -> (res: Self)
        ensures
            res.error_type == Source::Database(DatabaseError::Pool),
            res.message@ == "Interaction with database pool failed"@,
    {
        Self::database(DatabaseError::Pool, String::from_str("Interaction with database pool failed"))
    }
}

/// The HTTP status code with which an error of the given source is answered.
pub open spec fn status_of(source: Source) -> u16 {
    match source {
        Source::Authentication(AuthenticationError::Unknown) => 500,
        Source::Authentication(_) => 401,
        Source::Database(DatabaseError::Timeout) => 504,
        Source::Database(DatabaseError::Connection) => 504,
        Source::Database(DatabaseError::NotFound) => 404,
        Source::Database(DatabaseError::ConstraintViolation) => 412,
        _ => 500,
    }
}

/// The HTTP status code with which an error of the given source is answered.
pub fn http_status(source: Source) -> (code: u16)
    ensures
        code == status_of(source),
{
    match source {
        Source::Authentication(AuthenticationError::Unknown) => 500,
        Source::Authentication(_) => 401,
        Source::Database(DatabaseError::Timeout) => 504,
        Source::Database(DatabaseError::Connection) => 504,
        Source::Database(DatabaseError::NotFound) => 404,
        Source::Database(DatabaseError::ConstraintViolation) => 412,
        _ => 500,
    }
}

/// A failed request: the chain of errors raised while handling it, from
/// the outermost layer down to the root cause.
#[derive(Debug)]
pub struct ErrorResponse {
    frames: Vec<Error>,
}

impl ErrorResponse {
    /// A response always holds its root cause.
    #[verifier::type_invariant]
    spec fn holds_root(self) -> bool {
        self.frames@.len() > 0
    }

    /// The chain of errors, outermost first; the last one is the root cause.
    pub closed spec fn chain(&self) -> Seq<Error> {
        self.frames@
    }

    /// Every response holds at least its root cause.
    pub open spec fn wf(&self) -> bool {
        self.chain().len() > 0
    }

    /// The root cause of a response: the error that is reported.
    pub open spec fn root(&self) -> Error {
        self.chain().last()
    }

    /// A response whose only error is `error`.
    pub fn new(error: Error) -> (res: Self)
        ensures
            res.wf(),
            res.chain() == seq![error],
    {
        let mut frames = Vec::new();
        frames.push(error);
        Self { frames }
    }

    /// Wraps the response in an outer layer that adds `outer` as context.
    pub fn raise(self, outer: Error) -> (res: Self)
        ensures
            res.wf(),
            res.chain() == seq![outer] + self.chain(),
    {
        proof {
            use_type_invariant(&self);
        }
        let mut frames = Vec::new();
        frames.push(outer);
        let mut rest = self.frames;
        frames.append(&mut rest);
        Self { frames }
    }

    /// The root cause: the innermost error of the chain.
    pub fn root_cause(&self) -> (res: &Error)
        ensures
            *res == self.root(),
    {
        proof {
            use_type_invariant(self);
        }
        let last = self.frames.len() - 1;
        &self.frames[last]
    }

    /// The HTTP status code of the response, given by its root cause.
    pub fn status(&self) -> (code: u16)
        ensures
            code == status_of(self.root().error_type),
    {
        http_status(self.root_cause().error_type)
    }

    /// The reply to the caller: the status code and the root cause.
    pub fn into_response(self) -> (res: (u16, Error))
        ensures
            res.0 == status_of(self.root().error_type),
            res.1 == self.root(),
    {
        proof {
            use_type_invariant(&self);
        }
        let code = self.status();
        let mut frames = self.frames;
        let root = frames.pop().unwrap();
        (code, root)
    }

    /// A response whose only error is an internal one with the given message.
    pub fn internal(message: String) -> (res: Self)
        ensures
            res.wf(),
            res.chain().len() == 1,
            res.root().error_type == Source::Internal,
            res.root().message == message,
    {
        Self::new(Error::upstream(message))
    }

    /// The response given while the files a request needs are still being
    /// made.
    pub fn busy() -> (res: Self)
        ensures
            res.wf(),
            res.chain().len() == 1,
            res.root().error_type == Source::Internal,
            res.root().message@ == "The files are still being generated. Try again later"@,
    {
        Self::internal(String::from_str("The files are still being generated. Try again later"))
    }

    /// The response given to a caller that lacks the rights for an operation.
    pub fn insufficient_permissions() -> (res: Self)
        ensures
            res.wf(),
            res.chain().len() == 1,
            res.root().error_type == Source::Authentication(AuthenticationError::InsufficientPermissions),
            res.root().message@ == "This user is not authorized to do this operation"@,
    {
        Self::new(Error::authentication(
            AuthenticationError::InsufficientPermissions,
            String::from_str("This user is not authorized to do this operation"),
        ))
    }
}

/// A response made of one error, of the given source and message.
pub open spec fn single_error(r: ErrorResponse, source: Source, message: Seq<char>) -> bool {
    &&& r.wf()
    &&& r.chain().len() == 1
    &&& r.root().error_type == source
    &&& r.root().message@ == message
}

/// A response whose root cause, of a source accepted by `cause`, is wrapped
/// in one internal layer with the given message.
pub open spec fn wrapped_error(
    r: ErrorResponse,
    context: Seq<char>,
    cause: spec_fn(Source) -> bool,
) -> bool {
    &&& r.wf()
    &&& r.chain().len() == 2
    &&& r.chain()[0].error_type == Source::Internal
    &&& r.chain()[0].message@ == context
    &&& cause(r.chain()[1].error_type)
}

/// How a failed interaction with a pooled connection is reported.
pub open spec fn interaction_failed(r: ErrorResponse) -> bool {
    &&& wrapped_error(
        r,
        "Failed to interact with connection pool"@,
        |s: Source| s == Source::Database(DatabaseError::Pool),
    )
    &&& r.root().message@ == "Interaction with database pool failed"@
}

/// How a failed statement is reported: the error the query failure
/// becomes, wrapped in a layer with the given context.
pub open spec fn statement_failed(r: ErrorResponse, context: Seq<char>, failure: QueryFailure) -> bool {
    &&& wrapped_error(r, context, |s: Source| s is Database)
    &&& (r.root().error_type, r.root().message@) == query_error_spec(failure)
}

/// The outcome of a statement run on a pooled connection, with the failures
/// of the interaction and of the statement each wrapped in a layer that
/// names what was being done.
pub fn interaction_outcome<T>(
    outcome: Result<Result<T, QueryFailure>, InteractError>,
    context: String,
) -> (res: Result<T, ErrorResponse>)
    ensures
        match outcome {
            Ok(Ok(value)) => res == Ok::<T, ErrorResponse>(value),
            Ok(Err(failure)) => res matches Err(r) && statement_failed(r, context@, failure),
            Err(_) => res matches Err(r) && interaction_failed(r),
        },
{
    match outcome {
        Ok(Ok(value)) => Ok(value),
        Ok(Err(failure)) => Err(ErrorResponse::new(Error::from_query(&failure)).raise(
            Error::upstream(context),
        )),
        Err(_) => Err(ErrorResponse::new(Error::from_interaction()).raise(
            Error::upstream(String::from_str("Failed to interact with connection pool")),
        )),
    }
}

/// The outcome of a statement that must change exactly one row: no row
/// changed is reported by `none`, more than one by `many`.
pub fn single_row_outcome(
    outcome: Result<Result<usize, QueryFailure>, InteractError>,
    context: String,
    none: Error,
    many: Error,
) -> (res: Result<(), ErrorResponse>)
    ensures
        match outcome {
            Ok(Ok(rows)) => if rows == 0 {
                res matches Err(r) && single_error(r, none.error_type, none.message@)
            } else if rows == 1 {
                res is Ok
            } else {
                res matches Err(r) && single_error(r, many.error_type, many.message@)
            },
            Ok(Err(failure)) => res matches Err(r) && statement_failed(r, context@, failure),
            Err(_) => res matches Err(r) && interaction_failed(r),
        },
{
    match interaction_outcome(outcome, context) {
        Ok(rows) => if rows == 0 {
            Err(ErrorResponse::new(none))
        } else if rows == 1 {
            Ok(())
        } else {
            Err(ErrorResponse::new(many))
        },
        Err(r) => Err(r),
    }
}

/// The response given when no connection could be taken from the pool.
pub fn connection_failure(failure: PoolFailure) -> (res: ErrorResponse)
    ensures
        res.wf(),
        res.chain().len() == 2,
        res.chain()[0].error_type == Source::Internal,
        res.chain()[0].message@ == "Failed to get a connection from the pool"@,
        (res.chain()[1].error_type, res.chain()[1].message@) == pool_error_spec(failure),
{
    ErrorResponse::new(Error::from_pool(failure)).raise(
        Error::upstream(String::from_str("Failed to get a connection from the pool")),
    )
}

/// Wrapping a response in further layers never changes its root cause, so
/// the caller is always told about the error that started the failure.
pub proof fn raise_keeps_root_cause(chain: Seq<Error>, outer: Error)
    requires
        chain.len() > 0,
    ensures
        (seq![outer] + chain).last() == chain.last(),
        status_of((seq![outer] + chain).last().error_type) == status_of(chain.last().error_type),
{
}

} // verus!
