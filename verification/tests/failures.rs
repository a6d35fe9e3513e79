use backend::error::{
    connection_failure, interaction_outcome, single_row_outcome, AuthenticationError,
    DatabaseError, DbErrorKind, Error, JwtFailure, PoolFailure, QueryFailure, QueryFailureKind,
    Source,
};
use deadpool_diesel::InteractError;

fn failure(kind: QueryFailureKind) -> QueryFailure {
    QueryFailure { kind, rendered: "R".to_string(), detail: "D".to_string() }
}

#[test]
fn token_failures_become_authentication_errors() {
    let e = Error::from_jwt(&JwtFailure::InvalidToken);
    assert_eq!(e.error_type, Source::Authentication(AuthenticationError::InvalidFormat));
    assert_eq!(e.message, "JWT could not be decoded or deserialized");
    let e = Error::from_jwt(&JwtFailure::Json);
    assert_eq!(e.error_type, Source::Authentication(AuthenticationError::InvalidFormat));
    let e = Error::from_jwt(&JwtFailure::InvalidSignature);
    assert_eq!(e.message, "JWT signature does not match");
    let e = Error::from_jwt(&JwtFailure::InvalidRsaKey);
    assert_eq!(e.error_type, Source::Authentication(AuthenticationError::InvalidSignature));
    assert_eq!(e.message, "Cryptographic key is not correctly formatted");
    let e = Error::from_jwt(&JwtFailure::MissingAlgorithm);
    assert_eq!(e.error_type, Source::Authentication(AuthenticationError::InvalidAlgorythm));
    let e = Error::from_jwt(&JwtFailure::MissingRequiredClaim("exp".to_string()));
    assert_eq!(e.error_type, Source::Authentication(AuthenticationError::InvalidClaim));
    assert_eq!(e.message, "Missing or invalid claim(s): exp");
    let e = Error::from_jwt(&JwtFailure::InvalidClaimFormat("aud".to_string()));
    assert_eq!(e.message, "Missing or invalid claim(s): aud");
    let e = Error::from_jwt(&JwtFailure::ExpiredSignature);
    assert_eq!(e.error_type, Source::Authentication(AuthenticationError::InvalidTimeRange));
    let e = Error::from_jwt(&JwtFailure::InvalidIssuer);
    assert_eq!(e.error_type, Source::Authentication(AuthenticationError::InvalidIssuer));
    let e = Error::from_jwt(&JwtFailure::InvalidAudience);
    assert_eq!(e.error_type, Source::Authentication(AuthenticationError::InsufficientPermissions));
    let e = Error::from_jwt(&JwtFailure::InvalidSubject);
    assert_eq!(e.error_type, Source::Authentication(AuthenticationError::Unknown));
    assert_eq!(e.message, "Something unexpected happened during authentication");
}

#[test]
fn real_token_errors_are_classified() {
    let kind = jsonwebtoken::errors::ErrorKind::ExpiredSignature;
    let e = Error::from_jwt_error(&jsonwebtoken::errors::Error::from(kind));
    assert_eq!(e.error_type, Source::Authentication(AuthenticationError::InvalidTimeRange));
    let kind = jsonwebtoken::errors::ErrorKind::MissingRequiredClaim("sub".to_string());
    let e = Error::from_jwt_error(&jsonwebtoken::errors::Error::from(kind));
    assert_eq!(e.message, "Missing or invalid claim(s): sub");
    let kind = jsonwebtoken::errors::ErrorKind::InvalidAudience;
    let e = Error::from_jwt_error(&jsonwebtoken::errors::Error::from(kind));
    assert_eq!(e.error_type, Source::Authentication(AuthenticationError::InsufficientPermissions));
}

#[test]
fn query_failures_become_database_errors() {
    let e = Error::from_query(&failure(QueryFailureKind::NotFound));
    assert_eq!(e.error_type, Source::Database(DatabaseError::NotFound));
    assert_eq!(e.message, "What was requested wasn't found on the database");
    let e = Error::from_query(&failure(QueryFailureKind::RollbackTransaction));
    assert_eq!(e.error_type, Source::Database(DatabaseError::Transaction));
    assert_eq!(e.message, "Something went wrong while dealing with a transaction: R");
    let e = Error::from_query(&failure(QueryFailureKind::Database(DbErrorKind::ReadOnlyTransaction)));
    assert_eq!(e.error_type, Source::Database(DatabaseError::Transaction));
    let e = Error::from_query(&failure(QueryFailureKind::InvalidCString));
    assert_eq!(e.error_type, Source::Database(DatabaseError::Serialization));
    assert!(e.message.ends_with(": R"));
    let e = Error::from_query(&failure(QueryFailureKind::Deserialization));
    assert_eq!(e.error_type, Source::Database(DatabaseError::Serialization));
    assert!(e.message.ends_with(": D"));
    let e = Error::from_query(&failure(QueryFailureKind::QueryBuilder));
    assert_eq!(e.error_type, Source::Database(DatabaseError::Query));
    assert_eq!(e.message, "A query was submitted that's not possible to execute: R");
    let e = Error::from_query(&failure(QueryFailureKind::Database(DbErrorKind::CheckViolation)));
    assert_eq!(e.error_type, Source::Database(DatabaseError::ConstraintViolation));
    assert_eq!(e.message, "D");
    let e = Error::from_query(&failure(QueryFailureKind::Database(DbErrorKind::ClosedConnection)));
    assert_eq!(e.error_type, Source::Database(DatabaseError::Connection));
    assert_eq!(e.message, "Database closed the connection: D");
    let e = Error::from_query(&failure(QueryFailureKind::Other));
    assert_eq!(e.error_type, Source::Database(DatabaseError::Unknown));
}

#[test]
fn pool_failures_become_database_errors() {
    let e = Error::from_pool(PoolFailure::Timeout);
    assert_eq!(e.error_type, Source::Database(DatabaseError::Timeout));
    assert_eq!(e.message, "Timed out while trying to communicate to database");
    let e = Error::from_pool(PoolFailure::Backend);
    assert_eq!(e.error_type, Source::Database(DatabaseError::Connection));
    let e = Error::from_pool(PoolFailure::Closed);
    assert_eq!(e.error_type, Source::Database(DatabaseError::Pool));
    assert_eq!(e.message, "Database pool closed or falied to open");
    let e = Error::from_interaction();
    assert_eq!(e.error_type, Source::Database(DatabaseError::Pool));
    let r = connection_failure(PoolFailure::Timeout);
    assert_eq!(r.status(), 504);
}

#[test]
fn interactions_are_flattened() {
    let ok: Result<Result<u32, QueryFailure>, InteractError> = Ok(Ok(7));
    assert_eq!(interaction_outcome(ok, "ctx".to_string()).ok(), Some(7));
    let failed: Result<Result<u32, QueryFailure>, InteractError> = Ok(Err(failure(QueryFailureKind::NotFound)));
    let r = interaction_outcome(failed, "Failed to fetch".to_string()).err().unwrap();
    assert_eq!(r.status(), 404);
    let (_, root) = r.into_response();
    assert_eq!(root.error_type, Source::Database(DatabaseError::NotFound));
    assert_eq!(root.message, "What was requested wasn't found on the database");
    let duplicate: Result<Result<u32, QueryFailure>, InteractError> =
        Ok(Err(failure(QueryFailureKind::Database(DbErrorKind::UniqueViolation))));
    let r = interaction_outcome(duplicate, "Failed to insert".to_string()).err().unwrap();
    assert_eq!(r.status(), 412);
    assert_eq!(r.root_cause().message, "D");
    let aborted: Result<Result<u32, QueryFailure>, InteractError> = Err(InteractError::Aborted);
    let r = interaction_outcome(aborted, "ctx".to_string()).err().unwrap();
    assert_eq!(r.status(), 500);
    assert_eq!(r.root_cause().message, "Interaction with database pool failed");
}

#[test]
fn single_row_statements() {
    let none = || Error::database(DatabaseError::NotFound, "none".to_string());
    let many = || Error::database(DatabaseError::Unknown, "many".to_string());
    assert!(single_row_outcome(Ok(Ok(1)), "c".to_string(), none(), many()).is_ok());
    let r = single_row_outcome(Ok(Ok(0)), "c".to_string(), none(), many()).err().unwrap();
    assert_eq!(r.root_cause().message, "none");
    let r = single_row_outcome(Ok(Ok(3)), "c".to_string(), none(), many()).err().unwrap();
    assert_eq!(r.root_cause().message, "many");
}
