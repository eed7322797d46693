//! The connection plan computed at setup: the storage location parsed into
//! the driver's connection options (with file creation switched on) plus the
//! resolved pool configuration. Parsing is the one piece done by the SQLite
//! driver itself; it stands behind trusted declarations.

use vstd::prelude::*;

use crate::config::PoolConfig;
use crate::errors::{translate, Operation, StoreError};

verus! {

#[verifier::external_type_specification]
#[verifier::external_body]
pub struct ExSqliteConnectOptions(sqlx::sqlite::SqliteConnectOptions);

#[verifier::external_type_specification]
#[verifier::external_body]
pub struct ExSqlxError(sqlx::Error);

/// Whether the SQLite driver accepts this text as a connection URL: the
/// outcome depends on the characters alone.
pub uninterp spec fn location_parses(url: Seq<char>) -> bool;

/// Relies on `<SqliteConnectOptions as FromStr>::from_str`: whether it
/// returns `Ok` is decided by the URL text alone (the options value itself
/// may differ between calls for in-memory databases, so nothing is claimed
/// of it).
#[verifier::external_body]
fn parse_location(url: &str) -> (r: Result<sqlx::sqlite::SqliteConnectOptions, sqlx::Error>)
    ensures
        r is Ok <==> location_parses(url@),
{
    <sqlx::sqlite::SqliteConnectOptions as core::str::FromStr>::from_str(url)
}

/// Relies on `SqliteConnectOptions::create_if_missing`: it only sets the
/// flag that lets setup create the storage file when absent.
#[verifier::external_body]
fn with_create_if_missing(options: sqlx::sqlite::SqliteConnectOptions) -> (r:
    sqlx::sqlite::SqliteConnectOptions)
{
    options.create_if_missing(true)
}

/// Relies on the driver error's `Display` rendering for the cause text kept
/// in a domain error.
#[verifier::external_body]
fn describe_driver_error(e: &sqlx::Error) -> (r: String) {
    e.to_string()
}

/// Everything setup decides before it touches storage: the parsed location
/// and the pool's policies.
pub struct ConnectPlan {
    pub options: sqlx::sqlite::SqliteConnectOptions,
    pub config: PoolConfig,
}

/// Parse the storage location and resolve the pool configuration. Succeeds
/// exactly when the driver accepts the location text; any rejection is a
/// setup failure carrying the driver's cause.
pub fn prepare(url: &str, timeout_var: Option<String>, max_connections_var: Option<String>) -> (r:
    Result<ConnectPlan, StoreError>)
    ensures
        r is Ok <==> location_parses(url@),
        r matches Ok(p) ==> p.config == PoolConfig::from_env_spec(
            timeout_var,
            max_connections_var,
        ),
        r matches Err(e) ==> e.kind() == Operation::Setup,
{
    match parse_location(url) {
        Result::Ok(options) => {
            let options = with_create_if_missing(options);
            let config = PoolConfig::from_env_values(timeout_var, max_connections_var);
            Result::Ok(ConnectPlan { options, config })
        },
        Result::Err(e) => {
            let cause = describe_driver_error(&e);
            Result::Err(translate(Operation::Setup, cause))
        },
    }
}

} // verus!
