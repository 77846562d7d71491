//! Trusted draws from the process-wide random number generator.  Race seeds,
//! room ids and host picks come from here; nothing is assumed about a drawn
//! value beyond the range a draw was asked for.

use vstd::prelude::*;

use rand::Rng;

verus! {

/// Relies on `rand::random`: a fresh draw of any type the generator can
/// produce.  Nothing is assumed about the drawn value.
pub assume_specification<T>[ rand::random::<T> ]() -> (r: T)
    where
        rand::distributions::Standard: rand::distributions::Distribution<T>,
;

/// Relies on `rand::random`: 32 independently drawn salt bytes.  Only the
/// length is assumed of the result.
#[verifier::external_body]
pub(crate) fn random_salt() -> (r: Vec<u8>)
    ensures
        r@.len() == 32,
{
    (0..32).map(|_| rand::random()).collect()
}

/// Relies on `rand::Rng::gen_range` on the thread-local generator: the drawn
/// index lies in `0..n`; the empty range, on which the call would panic, is
/// ruled out.  Which index comes back is not assumed.
#[verifier::external_body]
pub(crate) fn random_index(n: usize) -> (r: usize)
    requires
        n > 0,
    ensures
        r < n,
{
    rand::thread_rng().gen_range(0..n)
}

} // verus!
