//! How the registry is asked for a crate.

use vstd::prelude::*;
use vstd::string::*;
use crate::model::{CrateInfo, CrateView};

verus! {

/// The address at which the registry describes the crate `name`.
pub open spec fn lookup_address(name: Seq<char>) -> Seq<char> {
    "https://crates.io/api/v1/crates/"@ + name
}

/// The address at which the registry describes the crate `name`.
pub fn lookup_url(name: &str) -> (r: String)
    ensures
        r@ == lookup_address(name@),
{
    String::from_str("https://crates.io/api/v1/crates/").concat(name)
}

/// The name by which this tool makes itself known to the registry.
pub fn client_identifier() -> (r: &'static str)
    ensures
        r@ == "cargo-cite"@,
{
    "cargo-cite"
}

/// What a lookup gives: the registry's answer where the request was
/// answered with success and the answer could be read, and nothing for any
/// other outcome.
pub open spec fn lookup_outcome(success: bool, answer: Option<CrateView>) -> Option<CrateView> {
    if success {
        answer
    } else {
        None
    }
}

/// What a lookup gives, from whether the registry answered with success and
/// from what could be read out of its answer.
pub fn accept_answer(success: bool, answer: Option<CrateInfo>) -> (r: Option<CrateInfo>)
    ensures
        match lookup_outcome(
            success,
            match answer {
                Some(a) => Some(a@),
                None => None,
            },
        ) {
            Some(v) => r is Some && r->Some_0@ == v,
            None => r is None,
        },
{
    if success {
        answer
    } else {
        None
    }
}

} // verus!
