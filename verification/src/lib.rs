pub mod handlers;
pub mod joins;
pub mod laws;
pub mod models;
pub mod relations;
pub mod repo;
pub mod pool;
pub mod seq_facts;
pub mod store;
pub mod txn;

use vstd::prelude::*;

verus! {

/// Classification of everything that can go wrong in the resource layer.
#[derive(Clone, Copy, PartialEq, Eq, Structural, Debug)]
pub enum RepoError {
    PoolExhausted,
    BackendUnavailable,
    NotFound,
    ConstraintViolation,
    MalformedInput,
    BackendError,
}

/// HTTP status code that a handler reports for each error class.
pub fn http_status(e: RepoError) -> (s: u16)
    ensures
        s == (match e {
            RepoError::PoolExhausted => 500u16,
            RepoError::BackendUnavailable => 500u16,
            RepoError::NotFound => 404u16,
            RepoError::ConstraintViolation => 400u16,
            RepoError::MalformedInput => 400u16,
            RepoError::BackendError => 500u16,
        }),
{
    match e {
        RepoError::PoolExhausted => 500,
        RepoError::BackendUnavailable => 500,
        RepoError::NotFound => 404,
        RepoError::ConstraintViolation => 400,
        RepoError::MalformedInput => 400,
        RepoError::BackendError => 500,
    }
}

} // verus!
