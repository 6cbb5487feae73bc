use vstd::prelude::*;

pub mod info_hash;
pub mod pipeline;
pub mod reply;
pub mod resolver;
pub mod single_flight;

verus! {

/// Text returned by the placeholder used by the integration test suite.
pub fn run_app_for_integration_tests() -> (r: String)
    ensures
        r@ == "No integration tests yet :-("@,
{
    String::from_str("No integration tests yet :-(")
}

} // verus!
