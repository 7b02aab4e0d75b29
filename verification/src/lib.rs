//! A client core for a remote quantum-random-number service: resolving and
//! validating request parameters, building the request URL, classifying the
//! service's reply, and deriving a lottery-style draw from fetched bytes.
//! The HTTP call itself, the prompts and the printing live outside this
//! library; everything here is verified.

use vstd::prelude::*;

pub mod numerals;
pub mod params;
pub mod parse;
pub mod response;
pub mod lotto;
pub mod text;
pub mod url;

verus! {

/// The inclusive lower bound on a requested array length or block size.
pub const MIN_BOUND: u16 = 1;

/// The inclusive upper bound on a requested array length or block size.
pub const MAX_BOUND: u16 = 1024;

/// True when `v` may serve as a requested length or block size.
pub open spec fn in_bounds(v: u16) -> bool {
    MIN_BOUND <= v <= MAX_BOUND
}

/// Decide whether a supplied length or block size is acceptable.
pub fn check_bounds(v: u16) -> (r: bool)
    ensures
        r == in_bounds(v),
{
    MIN_BOUND <= v && v <= MAX_BOUND
}

} // verus!
