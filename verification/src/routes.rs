//! The handlers' verified half: what each route answers. Wiring them to an
//! HTTP server belongs to the surrounding program.

use vstd::prelude::*;

verus! {

/// The liveness probe's answer.
pub fn ping() -> (r: &'static str)
    ensures
        r@ == "pong"@,
{
    "pong"
}

} // verus!
