//! The status of an answer over HTTP.

use vstd::prelude::*;

verus! {

/// A status of success.
pub open spec fn is_success(status: u16) -> bool {
    200 <= status <= 299
}

/// Whether a status is one of success.
pub fn is_success_status(status: u16) -> (r: bool)
    ensures
        r == is_success(status),
{
    200 <= status && status <= 299
}

/// A status is one of success where it is in its two hundreds.
pub proof fn law_success_is_in_the_two_hundreds(status: u16)
    ensures
        is_success(status) <==> status as int / 100 == 2,
{
}

} // verus!
