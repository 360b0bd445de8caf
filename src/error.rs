//! The errors of the service and how the status endpoint reports them.
use vstd::prelude::*;

verus! {

/// The failures that end a task run or a status query. Each carries the
/// message of the failure that caused it.
#[derive(Clone, Debug)]
pub enum Error {
    /// No database connection could be had from the pool.
    DatabaseConnectionError(String),
    /// The database rejected a query.
    QueryError(String),
    /// A request to the directory failed.
    SerenityError(String),
    /// A response could not be encoded.
    SerialisationError(String),
}

/// The HTTP status of an internal server error.
pub const INTERNAL_SERVER_ERROR: u16 = 500;

impl Error {
    /// The structured code of each kind of failure.
    pub open spec fn code(&self) -> u32 {
        match self {
            Error::DatabaseConnectionError(_) => 500_001,
            Error::QueryError(_) => 500_002,
            Error::SerenityError(_) => 500_003,
            Error::SerialisationError(_) => 500_004,
        }
    }

    /// The HTTP status that reports the error: every failure is an internal
    /// server error.
    pub fn status_code(&self) -> (r: u16)
        ensures
            r == INTERNAL_SERVER_ERROR,
    {
        match self {
            Error::DatabaseConnectionError(_)
            | Error::QueryError(_)
            | Error::SerenityError(_)
            | Error::SerialisationError(_) => INTERNAL_SERVER_ERROR,
        }
    }

    /// The structured code of the error, one per kind.
    pub fn error_code(&self) -> (r: u32)
        ensures
            r == self.code(),
    {
        match self {
            Error::DatabaseConnectionError(_) => 500_001,
            Error::QueryError(_) => 500_002,
            Error::SerenityError(_) => 500_003,
            Error::SerialisationError(_) => 500_004,
        }
    }

    /// Whether the error is logged as an internal server error when it is
    /// reported.
    pub fn is_internal_server_error(&self) -> (r: bool)
        ensures
            r,
    {
        self.status_code() == INTERNAL_SERVER_ERROR
    }
}

} // verus!
