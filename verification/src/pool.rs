//! Configuration of the connection pool: the settings it is built from, and the
//! sqlx builder that carries them.

use vstd::prelude::*;
use crate::operation::Operation;

verus! {

/// Largest number of live connections the pool may hold.
pub const MAX_CONNECTIONS: u32 = 5;

/// Why a pool could not be set up.
#[derive(Clone, Copy, Debug, PartialEq, Eq, Structural)]
pub enum PoolError {
    /// The connection string is not configured.
    MissingUrl,
    /// The backing store did not accept a connection.
    Unreachable,
}

impl PoolError {
    /// The operation that failed: looking the connection string up, or connecting.
    pub open spec fn failed_operation(self) -> Operation {
        match self {
            PoolError::MissingUrl => Operation::Configure,
            PoolError::Unreachable => Operation::Connect,
        }
    }

    /// The operation whose failure this error reports.
    pub fn operation(&self) -> (out: Operation)
        ensures
            out == self.failed_operation(),
    {
        match self {
            PoolError::MissingUrl => Operation::Configure,
            PoolError::Unreachable => Operation::Connect,
        }
    }
}

/// What a pool is built from.
#[derive(Clone, Debug)]
pub struct PoolSettings {
    pub url: String,
    pub max_connections: u32,
}

/// A pool builder of sqlx for a Postgres store. Its contents are sqlx's own:
/// contracts speak of it through `connection_limit` alone.
#[verifier::external_body]
pub struct PoolBuilder {
    pub options: sqlx::postgres::PgPoolOptions,
}

/// The connection limit that `PoolOptions::get_max_connections` reports for `builder`.
pub uninterp spec fn connection_limit(builder: PoolBuilder) -> u32;

/// `PoolOptions::new`: a builder with sqlx's defaults. Nothing is claimed of it.
#[verifier::external_body]
fn default_builder() -> (out: PoolBuilder) {
    PoolBuilder { options: sqlx::postgres::PgPoolOptions::new() }
}

/// `PoolOptions::max_connections`: the builder it returns reports `max` as its
/// connection limit.
#[verifier::external_body]
fn with_limit(builder: PoolBuilder, max: u32) -> (out: PoolBuilder)
    ensures
        connection_limit(out) == max,
{
    PoolBuilder { options: builder.options.max_connections(max) }
}

/// `PoolOptions::get_max_connections`: the connection limit the builder carries.
#[verifier::external_body]
fn limit_of(builder: &PoolBuilder) -> (out: u32)
    ensures
        out == connection_limit(*builder),
{
    builder.options.get_max_connections()
}

/// The settings for a pool on the store at `db_url`, if a connection string is configured.
pub fn pool_settings(db_url: Option<String>) -> (out: Result<PoolSettings, PoolError>)
    ensures
        match db_url {
            Some(url) => out == Ok::<PoolSettings, PoolError>(
                (PoolSettings { url, max_connections: MAX_CONNECTIONS }),
            ),
            None => out == Err::<PoolSettings, PoolError>(PoolError::MissingUrl),
        },
{
    match db_url {
        Some(url) => Ok(PoolSettings { url, max_connections: MAX_CONNECTIONS }),
        None => Err(PoolError::MissingUrl),
    }
}

/// The pool builder for `settings`: its connection limit is the one the settings name.
pub fn pool_builder(settings: &PoolSettings) -> (out: PoolBuilder)
    ensures
        connection_limit(out) == settings.max_connections,
{
    with_limit(default_builder(), settings.max_connections)
}

impl PoolBuilder {
    /// The largest number of connections a pool made from this builder will hold.
    pub fn max_connections(&self) -> (out: u32)
        ensures
            out == connection_limit(*self),
    {
        limit_of(self)
    }
}

} // verus!
