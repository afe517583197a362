//! What the driver hands to the engine, and how it goes on afterwards.

use vstd::prelude::*;
use crate::ids::{ProfileId, ResourceId, SubId};
use crate::model::diagnostic::SensorFailure;

verus! {

/// Whether the driver goes on.
#[derive(Clone, Copy, Debug, PartialEq, Eq, Structural)]
pub enum Flow {
    Continue,
    Break,
}

/// One input of the engine, as far as the driver is its author. Watches are
/// named by their place in the configuration.
#[derive(Debug)]
pub enum Input {
    /// Attach the static watch at this place.
    AttachSub { watch: usize },
    /// Attach the dynamic watch at this place.
    AttachPromoter { promoter: usize },
    /// Detach a subscription.
    DetachSub(SubId),
    /// Absorb the next change of a profile, for a number of milliseconds or
    /// until it comes.
    ArmAbsorb { profile: ProfileId, duration_ms: Option<u64> },
    /// The sensor refused to watch a resource.
    WatchOpRejected { resource: ResourceId, failure: SensorFailure },
}

} // verus!
