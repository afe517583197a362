//! Keys under which the engine files its records.

use vstd::prelude::*;

verus! {

/// Key of a subscription (one watched anchor with its program).
#[derive(Clone, Copy, Debug, PartialEq, Eq, Structural)]
pub struct SubId(pub u64);

/// Key of a profile (the state the engine keeps for one anchor and identity).
#[derive(Clone, Copy, Debug, PartialEq, Eq, Structural)]
pub struct ProfileId(pub u64);

/// Key of a promoter (a dynamic watch that mints subscriptions).
#[derive(Clone, Copy, Debug, PartialEq, Eq, Structural)]
pub struct PromoterId(pub u64);

/// Key of a watched resource (a node of the engine's file tree).
#[derive(Clone, Copy, Debug, PartialEq, Eq, Structural)]
pub struct ResourceId(pub u64);

} // verus!
