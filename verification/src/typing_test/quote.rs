//! Quote selection for quote-mode tests.  The quote list itself is loaded by
//! the application; this module decides which ids are valid and when a freshly
//! drawn id may be served.

use vstd::prelude::*;

verus! {

/// Query parameters of a random-quote request.
#[derive(Debug)]
pub struct GetRandomQuoteRequest {
    pub old_quote_id: Option<usize>,
}

/// A random quote together with the id under which it can be fetched again.
#[derive(Debug)]
pub struct GetRandomQuoteResponse {
    pub quote_id: usize,
    pub quote: String,
}

/// Failure of a random-quote request.
#[derive(Debug, Clone, Copy, PartialEq, Eq, Structural)]
pub enum GetRandomQuoteError {
    Other,
}

/// A quote fetched by id.
#[derive(Debug)]
pub struct GetQuoteResponse {
    pub quote: String,
}

/// Failure of a quote lookup: the id names no quote.
#[derive(Debug, Clone, Copy, PartialEq, Eq, Structural)]
pub enum GetQuoteError {
    InvalidQuoteId(usize),
}

/// Whether a freshly drawn quote id may be served: it must differ from the
/// quote the client just typed, if the client named one.  The caller draws
/// again as long as this rejects the candidate.
pub fn fresh_quote_ok(candidate: usize, old_quote_id: &Option<usize>) -> (ok: bool)
    ensures
        ok <==> match *old_quote_id {
            Some(old_id) => candidate != old_id,
            None => true,
        },
{
    match old_quote_id {
        Some(old_id) => candidate != *old_id,
        None => true,
    }
}

/// Looks a quote up by id, rejecting ids beyond the list.
pub fn get_quote_by_id(quotes: &Vec<String>, id: usize) -> (r: Result<
    GetQuoteResponse,
    GetQuoteError,
>)
    ensures
        match r {
            Ok(resp) => id < quotes@.len() && resp.quote@ == quotes@[id as int]@,
            Err(e) => id >= quotes@.len() && e == GetQuoteError::InvalidQuoteId(id),
        },
{
    match quotes.get(id) {
        Some(quote) => Ok(GetQuoteResponse { quote: quote.clone() }),
        None => Err(GetQuoteError::InvalidQuoteId(id)),
    }
}

/// Builds the random-quote response for an accepted candidate id.
pub fn random_quote_response(quotes: &Vec<String>, quote_id: usize) -> (r: Result<
    GetRandomQuoteResponse,
    GetRandomQuoteError,
>)
    ensures
        match r {
            Ok(resp) => quote_id < quotes@.len() && resp.quote_id == quote_id && resp.quote@
                == quotes@[quote_id as int]@,
            Err(e) => quote_id >= quotes@.len() && e == GetRandomQuoteError::Other,
        },
{
    match quotes.get(quote_id) {
        Some(quote) => Ok(GetRandomQuoteResponse { quote_id, quote: quote.clone() }),
        None => Err(GetRandomQuoteError::Other),
    }
}

} // verus!
