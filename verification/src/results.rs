//! Result history queries: the cursor pagination over fetched result rows
//! and the classification of result-posting failures.  The rows themselves
//! (timings, accuracies) live with the persistence collaborator; this module
//! works on the row ids that drive the cursor.

use vstd::prelude::*;
use vstd::string::StringSliceAdditionalSpecFns;

use crate::auth::sign_up::{ends_with, has_prefix, has_suffix, starts_with};

verus! {

/// A result-history query: where to continue and how many rows to return.
#[derive(Debug, Clone, Copy, PartialEq, Eq, Structural)]
pub struct GetResultsParams {
    pub cursor: Option<u32>,
    pub limit: u32,
}

/// Why a result-history query was rejected.
#[derive(Debug, Clone, Copy, PartialEq, Eq, Structural)]
pub enum GetResultsError {
    NonPositiveLimit,
    Other,
}

/// Why posting a result was rejected.
#[derive(Debug, Clone, Copy, PartialEq, Eq, Structural)]
pub enum PostResultError {
    DuplicateResult,
    Other,
}

/// Computes the page from the ids of the fetched rows.  The store is asked
/// for one row more than the page size; a short fetch means the history is
/// exhausted and the cursor resets to zero, while a full fetch keeps exactly
/// the page size and continues from the last kept id.  A zero limit is
/// rejected.
pub fn results_page(ids: &Vec<u32>, limit: u32) -> (r: Result<(u32, usize), GetResultsError>)
    ensures
        limit == 0 ==> r == Err::<(u32, usize), GetResultsError>(GetResultsError::NonPositiveLimit),
        limit > 0 ==> (r matches Ok((cursor, keep)) && (if ids@.len() <= limit {
            keep == ids@.len() && cursor == 0
        } else {
            keep == limit && cursor == ids@[limit - 1]
        })),
{
    if limit == 0 {
        return Err(GetResultsError::NonPositiveLimit);
    }
    let exhausted = ids.len() <= limit as usize;
    if exhausted {
        Ok((0, ids.len()))
    } else {
        let keep = limit as usize;
        Ok((ids[keep - 1], keep))
    }
}

/// Classifies the message of a database error raised while inserting a
/// result: a duplicate-key violation on the uniqueness constraint means the
/// same result was posted twice, anything else is internal.
pub fn classify_post_result_db_error(message: &str) -> (r: PostResultError)
    ensures
        r == ({
            let m = message.spec_bytes();
            if has_prefix(m, "Duplicate entry".spec_bytes()) && has_suffix(
                m,
                "for key 'unique_result'".spec_bytes(),
            ) {
                PostResultError::DuplicateResult
            } else {
                PostResultError::Other
            }
        }),
{
    let m = message.as_bytes();
    if starts_with(m, "Duplicate entry".as_bytes()) && ends_with(
        m,
        "for key 'unique_result'".as_bytes(),
    ) {
        PostResultError::DuplicateResult
    } else {
        PostResultError::Other
    }
}

impl GetResultsError {
    /// The HTTP status code reported for this rejection.
    pub fn status_code(&self) -> (c: u16)
        ensures
            c == match self {
                GetResultsError::NonPositiveLimit => 422u16,
                GetResultsError::Other => 500u16,
            },
    {
        match self {
            GetResultsError::NonPositiveLimit => 422,
            GetResultsError::Other => 500,
        }
    }

    /// The response body reported for this rejection.
    pub fn message(&self) -> (m: &'static str)
        ensures
            m@ == match self {
                GetResultsError::NonPositiveLimit => "Limit should be a strictly positive integer"@,
                GetResultsError::Other => "Internal server error"@,
            },
    {
        match self {
            GetResultsError::NonPositiveLimit => "Limit should be a strictly positive integer",
            GetResultsError::Other => "Internal server error",
        }
    }
}

impl PostResultError {
    /// The HTTP status code reported for this rejection.
    pub fn status_code(&self) -> (c: u16)
        ensures
            c == match self {
                PostResultError::DuplicateResult => 422u16,
                PostResultError::Other => 500u16,
            },
    {
        match self {
            PostResultError::DuplicateResult => 422,
            PostResultError::Other => 500,
        }
    }

    /// The response body reported for this rejection.
    pub fn message(&self) -> (m: &'static str)
        ensures
            m@ == match self {
                PostResultError::DuplicateResult => "Duplicate result"@,
                PostResultError::Other => "Internal server error"@,
            },
    {
        match self {
            PostResultError::DuplicateResult => "Duplicate result",
            PostResultError::Other => "Internal server error",
        }
    }
}

} // verus!
