//! An in-memory simulation of crabs living on a beach, grouped into named
//! clans, with queries over their speeds and a breeding operation.

pub mod beach;
pub mod clans;
pub mod crab;

pub use beach::Beach;
pub use clans::Clan;
pub use clans::ClanSystem;
pub use crab::Color;
pub use crab::Crab;
pub use crab::Diet;

use vstd::prelude::*;

verus! {

/// Relies on `str`'s `PartialEq`: two string slices compare equal exactly
/// when they consist of the same characters in the same order.
#[verifier::external_body]
pub(crate) fn str_eq(a: &str, b: &str) -> (r: bool)
    ensures
        r == (a@ == b@),
{
    a == b
}

} // verus!
