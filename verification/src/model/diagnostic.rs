//! What the engine reports about itself.

use vstd::prelude::*;
use crate::ids::{ProfileId, PromoterId, ResourceId, SubId};

verus! {

/// Who asked for a probe.
#[derive(Clone, Copy, Debug, PartialEq, Eq, Structural)]
pub enum ProbeOwner {
    Profile(ProfileId),
    Promoter(PromoterId),
}

/// A failure of the file system or the sensor, in words and by the system's
/// number where there is one.
#[derive(Debug)]
pub struct SensorFailure {
    pub text: String,
    pub errno: Option<i32>,
}

/// One report. What the driver only passes on to a reader is text.
#[derive(Debug)]
pub enum Diagnostic {
    /// A probe answered that nobody waits for any more.
    StaleProbeResponse { owner: ProbeOwner, correlation: u64 },
    /// A timer ran out that nobody waits for any more.
    StaleTimer { id: u64 },
    /// A program ended while its profile waited for none.
    EffectCompleteOutsideAwaiting { sub: SubId, profile: ProfileId },
    /// A program ended whose subscription is gone.
    EffectCompleteForUnknownSub { sub: SubId },
    /// A subscription to detach is not there.
    DetachUnknownSub { sub: SubId },
    /// A reload drops a watch that was never attached.
    ConfigDiffUnknownSub { name: String },
    /// A reload drops a dynamic watch that was never attached.
    ConfigDiffUnknownPromoter { name: String },
    /// A reload rebinds a watch that is not attached.
    ConfigDiffRebindFallbackAttach { name: String },
    /// A probe found its target gone.
    ProbeVanished { profile: ProfileId, intent: String },
    /// A probe failed.
    ProbeFailed { profile: ProfileId, intent: String, failure: SensorFailure },
    /// An event is of a class its profile does not watch.
    EventClassDropped { resource: ResourceId, event: String, profile: ProfileId },
    /// An event came from a resource nobody watches.
    EventOnUnwatchedResource { resource: ResourceId },
    /// An event concerns nobody.
    EventNoConsumer { resource: ResourceId },
    /// The sensor refused to watch a resource.
    WatchOpRejected { resource: ResourceId, failure: SensorFailure },
    /// The probe of a path that is not there yet found its start gone.
    PendingPathProbeVanished { profile: ProfileId, prefix: String },
    /// The probe of a path that is not there yet failed.
    PendingPathProbeFailed { profile: ProfileId, prefix: String, failure: SensorFailure },
    /// A profile about to be dropped is wanted again.
    ReapPendingCancelled { profile: ProfileId },
    /// A profile is dropped.
    ProfileReaped { profile: ProfileId, via: String },
    /// A profile lost a watch the sensor refused.
    ProfileClaimPurged { profile: ProfileId, claim: String, resource: ResourceId, failure: SensorFailure },
    /// A promoter lost a watch the sensor refused.
    PromoterClaimPurged { promoter: PromoterId, claim: String, resource: ResourceId, failure: SensorFailure },
    /// A watch names a path that cannot be watched.
    AttachPathInvalid { path: String, hint: String },
    /// A watch names a resource that is gone.
    AttachResourceStale { resource: ResourceId },
    /// An answer reaches into a part of the tree it does not cover.
    SpliceCrossedUncovered { profile: ProfileId, target: String, cause: String },
    /// A probe found an anchor of another kind than before.
    AnchorKindMismatch { profile: ProfileId, prior_kind: String, response_kind: String },
    /// An event falls to the tail of a run.
    EventAbsorbedByFireTail { profile: ProfileId, resource: ResourceId, event: String },
    /// A program took too long; the profile goes on without it.
    AwaitGateDeadlineForceRebasing { profile: ProfileId, outstanding: u64 },
    /// A program took too long and its profile is not wanted any more.
    AwaitGateDeadlineReap { profile: ProfileId, outstanding: u64 },
    /// A tree could not be read when its time to settle ran out.
    QuiescenceCeilingUnreadable { profile: ProfileId, first_unread: String, intent: String },
    /// A tree still moved when its time to settle ran out.
    QuiescenceCeilingForcedDespiteChange { profile: ProfileId, intent: String },
    /// A tree was not seen to rest after a run when the time for it ran out.
    RebaseCeilingForced { profile: ProfileId, intent: String, observed_change: bool },
    /// A tree could not be read after a run when the time for it ran out.
    RebaseCeilingUnreadable { profile: ProfileId, first_unread: String, intent: String },
    /// The sensor lost events.
    SensorOverflow { scope: String },
    /// A promoter starts over because the sensor lost events.
    PromoterReseededForOverflow { promoter: PromoterId },
    /// Changes of single files were lost over a recovery.
    PerFileDriftDroppedOnRecovery { profile: ProfileId },
    /// The first run of a per-file watch has nothing to compare with.
    PerFileFireSkippedOnFreshSeed { profile: ProfileId },
    /// A subscription is attached.
    SubAttached { sub: SubId, name: String, source_promoter: Option<PromoterId> },
    /// A subscription fired.
    SubFired { sub: SubId, profile: ProfileId, count: u64 },
    /// A change was absorbed instead of firing.
    QuiescenceAbsorbed { profile: ProfileId },
    /// The next change will be absorbed.
    AbsorbArmed { profile: ProfileId, mode: String },
    /// A subscription is detached.
    SubDetached { sub: SubId, profile: ProfileId, reason: String },
    /// A subscription was changed in place.
    SubRebound { sub: SubId },
    /// A subscription to change is not there.
    RebindUnknownSub { sub: SubId },
    /// A promoter is attached.
    PromoterAttached { promoter: PromoterId, name: String },
    /// A promoter is dropped.
    PromoterReaped { promoter: PromoterId },
    /// A promoter's probe found its start gone.
    PromoterDescentVanished { promoter: PromoterId, prefix: String },
    /// A promoter's probe failed.
    PromoterDescentFailed { promoter: PromoterId, prefix: String, failure: SensorFailure },
    /// A promoter found something to watch.
    PromotionKindObserved { promoter: PromoterId, path: String, kind: String },
    /// A promoter found very much to watch.
    PromoterFanoutThreshold { promoter: PromoterId, count: u64 },
    /// An event concerns a place a promoter gave up.
    PromoterProxyStaleEvent { promoter: PromoterId, resource: ResourceId },
    /// A place a promoter looked at is gone.
    PromoterEnumerationVanished { promoter: PromoterId, proxy: String },
    /// A place a promoter looked at could not be read.
    PromoterEnumerationFailed { promoter: PromoterId, proxy: String, failure: SensorFailure },
    /// A subscription that discovery minted is dropped.
    DynamicSubReaped { promoter: PromoterId, sub: SubId, path: String },
    /// The engine was asked for a step its state does not allow.
    InvalidBurstTransition { profile: ProfileId, helper: String, observed: String },
    /// A probe answered another question than was asked.
    WalkerContractViolated { owner: ProbeOwner },
}

} // verus!
