use vstd::prelude::*;

verus! {

/// The closed error taxonomy surfaced at the service boundary.
///
/// `NotFound` signals that a required row is absent, `Internal` carries the
/// original store fault text verbatim, and `InvalidArgument` is reserved for
/// future input-constraint violations: no current operation produces it.
#[derive(Debug)]
pub enum RepoError {
    NotFound,
    InvalidArgument,
    Internal(String),
}

impl RepoError {
    pub fn is_not_found(&self) -> (b: bool)
        ensures
            b == (self is NotFound),
    {
        match self {
            RepoError::NotFound => true,
            _ => false,
        }
    }

    pub fn is_invalid_argument(&self) -> (b: bool)
        ensures
            b == (self is InvalidArgument),
    {
        match self {
            RepoError::InvalidArgument => true,
            _ => false,
        }
    }

    pub fn is_internal(&self) -> (b: bool)
        ensures
            b == (self is Internal),
    {
        match self {
            RepoError::Internal(_) => true,
            _ => false,
        }
    }
}

/// Failure categories reported by the backing relational store, carrying the
/// store's own message text where one exists.
#[derive(Debug)]
pub enum StoreFault {
    RowNotFound,
    Database(String),
    Io(String),
    Other(String),
}

/// Translates a store fault into the service-facing taxonomy.
///
/// The mapping is total: a missing row becomes `NotFound`, and every other
/// fault category lands in `Internal` with its message preserved verbatim.
/// No fault maps to `InvalidArgument`.
pub fn fault_to_error(fault: StoreFault) -> (err: RepoError)
    ensures
        err is NotFound <==> fault is RowNotFound,
        err is Internal <==> !(fault is RowNotFound),
        !(err is InvalidArgument),
        fault matches StoreFault::Database(m) ==> err matches RepoError::Internal(t) && t@ == m@,
        fault matches StoreFault::Io(m) ==> err matches RepoError::Internal(t) && t@ == m@,
        fault matches StoreFault::Other(m) ==> err matches RepoError::Internal(t) && t@ == m@,
{
    match fault {
        StoreFault::RowNotFound => RepoError::NotFound,
        StoreFault::Database(message) => RepoError::Internal(message),
        StoreFault::Io(message) => RepoError::Internal(message),
        StoreFault::Other(message) => RepoError::Internal(message),
    }
}

} // verus!
