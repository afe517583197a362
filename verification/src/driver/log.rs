//! The log line of every diagnostic: its level, its words and its fields.

use vstd::prelude::*;
use crate::ids::{ProfileId, PromoterId, ResourceId, SubId};
use crate::model::diagnostic::{Diagnostic, ProbeOwner};

verus! {

/// How loud a log line is.
#[derive(Clone, Copy, Debug, PartialEq, Eq, Structural)]
pub enum Level {
    Trace,
    Debug,
    Info,
    Warn,
    Error,
}

/// The value of a field.
#[derive(Debug)]
pub enum FieldValue {
    Sub(SubId),
    Profile(ProfileId),
    Promoter(PromoterId),
    Resource(ResourceId),
    Owner(ProbeOwner),
    Number(u64),
    Errno(Option<i32>),
    Text(String),
}

/// What a [`FieldValue`] says.
pub enum FieldView {
    Sub(SubId),
    Profile(ProfileId),
    Promoter(PromoterId),
    Resource(ResourceId),
    Owner(ProbeOwner),
    Number(u64),
    Errno(Option<i32>),
    Text(Seq<char>),
}

impl View for FieldValue {
    type V = FieldView;

    open spec fn view(&self) -> FieldView {
        match *self {
            FieldValue::Sub(id) => FieldView::Sub(id),
            FieldValue::Profile(id) => FieldView::Profile(id),
            FieldValue::Promoter(id) => FieldView::Promoter(id),
            FieldValue::Resource(id) => FieldView::Resource(id),
            FieldValue::Owner(owner) => FieldView::Owner(owner),
            FieldValue::Number(n) => FieldView::Number(n),
            FieldValue::Errno(errno) => FieldView::Errno(errno),
            FieldValue::Text(s) => FieldView::Text(s@),
        }
    }
}

/// A named value.
#[derive(Debug)]
pub struct LogField {
    pub name: &'static str,
    pub value: FieldValue,
}

/// A log line.
#[derive(Debug)]
pub struct LogRecord {
    pub level: Level,
    pub message: &'static str,
    pub fields: Vec<LogField>,
}

/// What the fields say, in order.
pub open spec fn said(fields: Seq<LogField>) -> Seq<(Seq<char>, FieldView)> {
    fields.map_values(|f: LogField| (f.name@, f.value@))
}

/// How loud a diagnostic is. What an operator must act on is an error, a drop
/// or a race a warning, the life of a watch is told, the rest is for tracing.
pub open spec fn level_of(d: Diagnostic) -> Level {
    match d {
        Diagnostic::AttachPathInvalid { .. }
        | Diagnostic::AnchorKindMismatch { .. }
        | Diagnostic::WalkerContractViolated { .. } => Level::Error,
        Diagnostic::EventClassDropped { .. }
        | Diagnostic::EventNoConsumer { .. }
        | Diagnostic::EventAbsorbedByFireTail { .. } => Level::Trace,
        Diagnostic::PromoterReseededForOverflow { .. }
        | Diagnostic::PromoterDescentVanished { .. }
        | Diagnostic::PromotionKindObserved { .. }
        | Diagnostic::PromoterProxyStaleEvent { .. }
        | Diagnostic::PromoterEnumerationVanished { .. }
        | Diagnostic::DynamicSubReaped { .. } => Level::Debug,
        Diagnostic::ConfigDiffUnknownSub { .. }
        | Diagnostic::ConfigDiffUnknownPromoter { .. }
        | Diagnostic::ConfigDiffRebindFallbackAttach { .. }
        | Diagnostic::ReapPendingCancelled { .. }
        | Diagnostic::ProfileReaped { .. }
        | Diagnostic::PerFileFireSkippedOnFreshSeed { .. }
        | Diagnostic::SubFired { .. }
        | Diagnostic::QuiescenceAbsorbed { .. }
        | Diagnostic::AbsorbArmed { .. }
        | Diagnostic::SubDetached { .. }
        | Diagnostic::SubRebound { .. }
        | Diagnostic::PromoterAttached { .. }
        | Diagnostic::PromoterReaped { .. } => Level::Info,
        Diagnostic::SubAttached { source_promoter, .. } => if source_promoter is Some {
            Level::Debug
        } else {
            Level::Info
        },
        Diagnostic::StaleProbeResponse { .. }
        | Diagnostic::StaleTimer { .. }
        | Diagnostic::EffectCompleteOutsideAwaiting { .. }
        | Diagnostic::EffectCompleteForUnknownSub { .. }
        | Diagnostic::DetachUnknownSub { .. }
        | Diagnostic::ProbeVanished { .. }
        | Diagnostic::ProbeFailed { .. }
        | Diagnostic::EventOnUnwatchedResource { .. }
        | Diagnostic::WatchOpRejected { .. }
        | Diagnostic::PendingPathProbeVanished { .. }
        | Diagnostic::PendingPathProbeFailed { .. }
        | Diagnostic::ProfileClaimPurged { .. }
        | Diagnostic::PromoterClaimPurged { .. }
        | Diagnostic::AttachResourceStale { .. }
        | Diagnostic::SpliceCrossedUncovered { .. }
        | Diagnostic::AwaitGateDeadlineForceRebasing { .. }
        | Diagnostic::AwaitGateDeadlineReap { .. }
        | Diagnostic::QuiescenceCeilingUnreadable { .. }
        | Diagnostic::QuiescenceCeilingForcedDespiteChange { .. }
        | Diagnostic::RebaseCeilingForced { .. }
        | Diagnostic::RebaseCeilingUnreadable { .. }
        | Diagnostic::SensorOverflow { .. }
        | Diagnostic::PerFileDriftDroppedOnRecovery { .. }
        | Diagnostic::RebindUnknownSub { .. }
        | Diagnostic::PromoterDescentFailed { .. }
        | Diagnostic::PromoterFanoutThreshold { .. }
        | Diagnostic::PromoterEnumerationFailed { .. }
        | Diagnostic::InvalidBurstTransition { .. } => Level::Warn,
    }
}

/// The words for a diagnostic.
pub open spec fn message_of(d: Diagnostic) -> Seq<char> {
    match d {
        Diagnostic::StaleProbeResponse { .. } => "stale probe response (state mismatch)"@,
        Diagnostic::StaleTimer { .. } => "stale timer expiration"@,
        Diagnostic::EffectCompleteOutsideAwaiting { .. } => "effect_complete arrived outside Awaiting (gate-deadline force-transition or anchor-loss); dropped"@,
        Diagnostic::EffectCompleteForUnknownSub { .. } => "effect_complete for unknown Sub (hot-reload race or engine bug; dropped)"@,
        Diagnostic::DetachUnknownSub { .. } => "detach for unknown Sub (hot-reload race or stale id; dropped)"@,
        Diagnostic::ConfigDiffUnknownSub { .. } => "config reload removed a watch the engine never attached (likely a prior path error); nothing to detach"@,
        Diagnostic::ConfigDiffUnknownPromoter { .. } => "config reload removed a dynamic watch the engine never attached (likely a prior path error); nothing to reap"@,
        Diagnostic::ConfigDiffRebindFallbackAttach { .. } => "config reload rebind found no live Sub (prior attach likely failed); degrading to fresh attach"@,
        Diagnostic::ProbeVanished { .. } => "probe returned Vanished"@,
        Diagnostic::ProbeFailed { .. } => "probe failed"@,
        Diagnostic::EventClassDropped { .. } => "fs event dropped (class not in profile.events)"@,
        Diagnostic::EventOnUnwatchedResource { .. } => "FsEvent on unwatched resource (race; dropped)"@,
        Diagnostic::EventNoConsumer { .. } => "FsEvent had no consumer (watched, but no covering Profile / descent / recovery)"@,
        Diagnostic::WatchOpRejected { .. } => "watch op rejected by sensor"@,
        Diagnostic::PendingPathProbeVanished { .. } => "pending-path descent probe Vanished"@,
        Diagnostic::PendingPathProbeFailed { .. } => "pending-path descent probe Failed"@,
        Diagnostic::ReapPendingCancelled { .. } => "reap-pending Profile revived (fresh attach pre-empted deferred reap)"@,
        Diagnostic::ProfileReaped { .. } => "Profile reaped"@,
        Diagnostic::ProfileClaimPurged { .. } => "profile claim purged (WatchOpRejected at claimed resource)"@,
        Diagnostic::PromoterClaimPurged { .. } => "promoter claim purged (WatchOpRejected at claimed resource)"@,
        Diagnostic::AttachPathInvalid { .. } => "attach path invalid; request dropped"@,
        Diagnostic::AttachResourceStale { .. } => "attach resource stale (no live Tree slot); request dropped"@,
        Diagnostic::SpliceCrossedUncovered { .. } => "splice crossed uncovered subtree (graft contract violation; prior view kept, response dropped)"@,
        Diagnostic::AnchorKindMismatch { .. } => "probe response shape disagrees with cached Profile.kind (walker contract violation; routing through anchor-loss recovery)"@,
        Diagnostic::EventAbsorbedByFireTail { .. } => "fs event absorbed by fire-tail (Awaiting/Rebasing); folded into post-fire rebase"@,
        Diagnostic::AwaitGateDeadlineForceRebasing { .. } => "await-gate deadline elapsed; force-transitioning to Rebasing (actuator likely hung)"@,
        Diagnostic::AwaitGateDeadlineReap { .. } => "await-gate deadline elapsed on zombie burst; skipping rebase and reaping profile (actuator likely hung, sole sub detached)"@,
        Diagnostic::QuiescenceCeilingUnreadable { .. } => "quiescence ceiling unreadable (obligation chain frame mtime-skipped/degraded); refused to fire/pin, burst finished to Idle (self-recovers if transient)"@,
        Diagnostic::QuiescenceCeilingForcedDespiteChange { .. } => "pre-fire burst deadline ceiling reached AND the hash channel observed concrete change (prior ≠ response) at the last sample; fired against the freshest observation anyway (tree visibly moving when the deadline expired)"@,
        Diagnostic::RebaseCeilingForced { observed_change, .. } => if observed_change {
            "post-fire rebase ceiling reached AND the hash channel observed concrete change (prior ≠ response) at the last sample; pinned the freshest observation as baseline anyway (post-command tree visibly moving when the ceiling expired)"@
        } else {
            "post-fire rebase ceiling reached without the hash channel confirming quiescence (samples agreed at the last read, the ceiling forced the first sample, or the channel was inactive); pinned the freshest observation as baseline and finished the burst"@
        },
        Diagnostic::RebaseCeilingUnreadable { .. } => "post-fire rebase ceiling reached on an unreadable response (obligation chain frame mtime-skipped/degraded); refused to rebase blind, prior baseline kept, burst finished to Idle (self-recovers if transient)"@,
        Diagnostic::SensorOverflow { .. } => "sensor reported overflow (kernel queue dropped events); reseeding in-scope Profiles"@,
        Diagnostic::PromoterReseededForOverflow { .. } => "promoter reseeded after sensor overflow (descent re-probed or proxies re-enumerated)"@,
        Diagnostic::PerFileDriftDroppedOnRecovery { .. } => "per-file Sub's loss-window reactions dropped on recovery (no per-leaf survival witness)"@,
        Diagnostic::PerFileFireSkippedOnFreshSeed { .. } => "per-file Sub skipped on first-ever fire (fresh Profile has no baseline diff); per-file reactions begin from the post-command baseline"@,
        Diagnostic::SubAttached { source_promoter, .. } => if source_promoter is Some {
            "dynamic sub attached (promoter-spawned)"@
        } else {
            "sub attached"@
        },
        Diagnostic::SubFired { .. } => "sub fired (aggregated per emit_effects pass; SubtreeRoot count=1, PerStableFile count=per-leaf matches)"@,
        Diagnostic::QuiescenceAbsorbed { .. } => "burst folded by an armed absorb window — baseline advanced, no fire (expected replication absorbed)"@,
        Diagnostic::AbsorbArmed { .. } => "absorb window armed (next fireable burst folds instead of firing)"@,
        Diagnostic::SubDetached { .. } => "sub detached"@,
        Diagnostic::SubRebound { .. } => "sub rebound (per-Sub fields updated in place; baseline preserved)"@,
        Diagnostic::RebindUnknownSub { .. } => "rebind targeted an unknown Sub (dispatcher routing breach)"@,
        Diagnostic::PromoterAttached { .. } => "promoter attached"@,
        Diagnostic::PromoterReaped { .. } => "promoter reaped"@,
        Diagnostic::PromoterDescentVanished { .. } => "promoter descent / enumeration probe Vanished"@,
        Diagnostic::PromoterDescentFailed { .. } => "promoter descent / enumeration probe Failed"@,
        Diagnostic::PromotionKindObserved { .. } => "promoter promotion observed (dynamic Sub minted)"@,
        Diagnostic::PromoterFanoutThreshold { .. } => "promoter fanout exceeded warning threshold (consider tightening pattern)"@,
        Diagnostic::PromoterProxyStaleEvent { .. } => "fs event for promoter proxy that was unregistered earlier in step (stale; dropped)"@,
        Diagnostic::PromoterEnumerationVanished { .. } => "promoter enumeration probe Vanished (proxy gone; subtree unwound)"@,
        Diagnostic::PromoterEnumerationFailed { .. } => "promoter enumeration probe Failed (retaining proxy state)"@,
        Diagnostic::DynamicSubReaped { .. } => "dynamic Sub reaped (anchor terminal — Profile all-dynamic teardown)"@,
        Diagnostic::InvalidBurstTransition { .. } => "burst lifecycle helper precondition failed (state-machine routing breach)"@,
        Diagnostic::WalkerContractViolated { .. } => "probe response payload shape contradicts the requested route (walker contract violation; recovered route-appropriately)"@,
    }
}

/// The fields of a diagnostic's log line, in order.
pub open spec fn fields_of(d: Diagnostic) -> Seq<(Seq<char>, FieldView)> {
    match d {
        Diagnostic::StaleProbeResponse { owner, correlation } => seq![
            ("owner"@, FieldView::Owner(owner)),
            ("correlation"@, FieldView::Number(correlation)),
        ],
        Diagnostic::StaleTimer { id } => seq![
            ("id"@, FieldView::Number(id)),
        ],
        Diagnostic::EffectCompleteOutsideAwaiting { sub, profile } => seq![
            ("sub"@, FieldView::Sub(sub)),
            ("profile"@, FieldView::Profile(profile)),
        ],
        Diagnostic::EffectCompleteForUnknownSub { sub } => seq![
            ("sub"@, FieldView::Sub(sub)),
        ],
        Diagnostic::DetachUnknownSub { sub } => seq![
            ("sub"@, FieldView::Sub(sub)),
        ],
        Diagnostic::ConfigDiffUnknownSub { name } => seq![
            ("name"@, FieldView::Text(name@)),
        ],
        Diagnostic::ConfigDiffUnknownPromoter { name } => seq![
            ("name"@, FieldView::Text(name@)),
        ],
        Diagnostic::ConfigDiffRebindFallbackAttach { name } => seq![
            ("name"@, FieldView::Text(name@)),
        ],
        Diagnostic::ProbeVanished { profile, intent } => seq![
            ("profile"@, FieldView::Profile(profile)),
            ("intent"@, FieldView::Text(intent@)),
        ],
        Diagnostic::ProbeFailed { profile, intent, failure } => seq![
            ("profile"@, FieldView::Profile(profile)),
            ("intent"@, FieldView::Text(intent@)),
            ("failure"@, FieldView::Text(failure.text@)),
            ("errno"@, FieldView::Errno(failure.errno)),
        ],
        Diagnostic::EventClassDropped { resource, event, profile } => seq![
            ("resource"@, FieldView::Resource(resource)),
            ("event"@, FieldView::Text(event@)),
            ("profile"@, FieldView::Profile(profile)),
        ],
        Diagnostic::EventOnUnwatchedResource { resource } => seq![
            ("resource"@, FieldView::Resource(resource)),
        ],
        Diagnostic::EventNoConsumer { resource } => seq![
            ("resource"@, FieldView::Resource(resource)),
        ],
        Diagnostic::WatchOpRejected { resource, failure } => seq![
            ("resource"@, FieldView::Resource(resource)),
            ("failure"@, FieldView::Text(failure.text@)),
            ("errno"@, FieldView::Errno(failure.errno)),
        ],
        Diagnostic::PendingPathProbeVanished { profile, prefix } => seq![
            ("profile"@, FieldView::Profile(profile)),
            ("prefix"@, FieldView::Text(prefix@)),
        ],
        Diagnostic::PendingPathProbeFailed { profile, prefix, failure } => seq![
            ("profile"@, FieldView::Profile(profile)),
            ("prefix"@, FieldView::Text(prefix@)),
            ("failure"@, FieldView::Text(failure.text@)),
            ("errno"@, FieldView::Errno(failure.errno)),
        ],
        Diagnostic::ReapPendingCancelled { profile } => seq![
            ("profile"@, FieldView::Profile(profile)),
        ],
        Diagnostic::ProfileReaped { profile, via } => seq![
            ("profile"@, FieldView::Profile(profile)),
            ("via"@, FieldView::Text(via@)),
        ],
        Diagnostic::ProfileClaimPurged { profile, claim, resource, failure } => seq![
            ("profile"@, FieldView::Profile(profile)),
            ("claim"@, FieldView::Text(claim@)),
            ("resource"@, FieldView::Resource(resource)),
            ("failure"@, FieldView::Text(failure.text@)),
            ("errno"@, FieldView::Errno(failure.errno)),
        ],
        Diagnostic::PromoterClaimPurged { promoter, claim, resource, failure } => seq![
            ("promoter"@, FieldView::Promoter(promoter)),
            ("claim"@, FieldView::Text(claim@)),
            ("resource"@, FieldView::Resource(resource)),
            ("failure"@, FieldView::Text(failure.text@)),
            ("errno"@, FieldView::Errno(failure.errno)),
        ],
        Diagnostic::AttachPathInvalid { path, hint } => seq![
            ("path"@, FieldView::Text(path@)),
            ("hint"@, FieldView::Text(hint@)),
        ],
        Diagnostic::AttachResourceStale { resource } => seq![
            ("resource"@, FieldView::Resource(resource)),
        ],
        Diagnostic::SpliceCrossedUncovered { profile, target, cause } => seq![
            ("profile"@, FieldView::Profile(profile)),
            ("target"@, FieldView::Text(target@)),
            ("cause"@, FieldView::Text(cause@)),
        ],
        Diagnostic::AnchorKindMismatch { profile, prior_kind, response_kind } => seq![
            ("profile"@, FieldView::Profile(profile)),
            ("prior_kind"@, FieldView::Text(prior_kind@)),
            ("response_kind"@, FieldView::Text(response_kind@)),
        ],
        Diagnostic::EventAbsorbedByFireTail { profile, resource, event } => seq![
            ("profile"@, FieldView::Profile(profile)),
            ("resource"@, FieldView::Resource(resource)),
            ("event"@, FieldView::Text(event@)),
        ],
        Diagnostic::AwaitGateDeadlineForceRebasing { profile, outstanding } => seq![
            ("profile"@, FieldView::Profile(profile)),
            ("outstanding"@, FieldView::Number(outstanding)),
        ],
        Diagnostic::AwaitGateDeadlineReap { profile, outstanding } => seq![
            ("profile"@, FieldView::Profile(profile)),
            ("outstanding"@, FieldView::Number(outstanding)),
        ],
        Diagnostic::QuiescenceCeilingUnreadable { profile, first_unread, intent } => seq![
            ("profile"@, FieldView::Profile(profile)),
            ("intent"@, FieldView::Text(intent@)),
            ("first_unread"@, FieldView::Text(first_unread@)),
        ],
        Diagnostic::QuiescenceCeilingForcedDespiteChange { profile, intent } => seq![
            ("profile"@, FieldView::Profile(profile)),
            ("intent"@, FieldView::Text(intent@)),
        ],
        Diagnostic::RebaseCeilingForced { profile, intent, .. } => seq![
            ("profile"@, FieldView::Profile(profile)),
            ("intent"@, FieldView::Text(intent@)),
        ],
        Diagnostic::RebaseCeilingUnreadable { profile, first_unread, intent } => seq![
            ("profile"@, FieldView::Profile(profile)),
            ("intent"@, FieldView::Text(intent@)),
            ("first_unread"@, FieldView::Text(first_unread@)),
        ],
        Diagnostic::SensorOverflow { scope } => seq![
            ("scope"@, FieldView::Text(scope@)),
        ],
        Diagnostic::PromoterReseededForOverflow { promoter } => seq![
            ("promoter"@, FieldView::Promoter(promoter)),
        ],
        Diagnostic::PerFileDriftDroppedOnRecovery { profile } => seq![
            ("profile"@, FieldView::Profile(profile)),
        ],
        Diagnostic::PerFileFireSkippedOnFreshSeed { profile } => seq![
            ("profile"@, FieldView::Profile(profile)),
        ],
        Diagnostic::SubAttached { sub, name, source_promoter } => match source_promoter {
            None => seq![("sub"@, FieldView::Sub(sub)), ("name"@, FieldView::Text(name@))],
            Some(promoter) => seq![
                ("sub"@, FieldView::Sub(sub)),
                ("name"@, FieldView::Text(name@)),
                ("promoter"@, FieldView::Promoter(promoter)),
            ],
        },
        Diagnostic::SubFired { sub, profile, count } => seq![
            ("sub"@, FieldView::Sub(sub)),
            ("profile"@, FieldView::Profile(profile)),
            ("count"@, FieldView::Number(count)),
        ],
        Diagnostic::QuiescenceAbsorbed { profile } => seq![
            ("profile"@, FieldView::Profile(profile)),
        ],
        Diagnostic::AbsorbArmed { profile, mode } => seq![
            ("profile"@, FieldView::Profile(profile)),
            ("mode"@, FieldView::Text(mode@)),
        ],
        Diagnostic::SubDetached { sub, profile, reason } => seq![
            ("sub"@, FieldView::Sub(sub)),
            ("profile"@, FieldView::Profile(profile)),
            ("reason"@, FieldView::Text(reason@)),
        ],
        Diagnostic::SubRebound { sub } => seq![
            ("sub"@, FieldView::Sub(sub)),
        ],
        Diagnostic::RebindUnknownSub { sub } => seq![
            ("sub"@, FieldView::Sub(sub)),
        ],
        Diagnostic::PromoterAttached { promoter, name } => seq![
            ("promoter"@, FieldView::Promoter(promoter)),
            ("name"@, FieldView::Text(name@)),
        ],
        Diagnostic::PromoterReaped { promoter } => seq![
            ("promoter"@, FieldView::Promoter(promoter)),
        ],
        Diagnostic::PromoterDescentVanished { promoter, prefix } => seq![
            ("promoter"@, FieldView::Promoter(promoter)),
            ("prefix"@, FieldView::Text(prefix@)),
        ],
        Diagnostic::PromoterDescentFailed { promoter, prefix, failure } => seq![
            ("promoter"@, FieldView::Promoter(promoter)),
            ("prefix"@, FieldView::Text(prefix@)),
            ("failure"@, FieldView::Text(failure.text@)),
            ("errno"@, FieldView::Errno(failure.errno)),
        ],
        Diagnostic::PromotionKindObserved { promoter, path, kind } => seq![
            ("promoter"@, FieldView::Promoter(promoter)),
            ("path"@, FieldView::Text(path@)),
            ("kind"@, FieldView::Text(kind@)),
        ],
        Diagnostic::PromoterFanoutThreshold { promoter, count } => seq![
            ("promoter"@, FieldView::Promoter(promoter)),
            ("count"@, FieldView::Number(count)),
        ],
        Diagnostic::PromoterProxyStaleEvent { promoter, resource } => seq![
            ("promoter"@, FieldView::Promoter(promoter)),
            ("resource"@, FieldView::Resource(resource)),
        ],
        Diagnostic::PromoterEnumerationVanished { promoter, proxy } => seq![
            ("promoter"@, FieldView::Promoter(promoter)),
            ("proxy"@, FieldView::Text(proxy@)),
        ],
        Diagnostic::PromoterEnumerationFailed { promoter, proxy, failure } => seq![
            ("promoter"@, FieldView::Promoter(promoter)),
            ("proxy"@, FieldView::Text(proxy@)),
            ("failure"@, FieldView::Text(failure.text@)),
            ("errno"@, FieldView::Errno(failure.errno)),
        ],
        Diagnostic::DynamicSubReaped { promoter, sub, path } => seq![
            ("promoter"@, FieldView::Promoter(promoter)),
            ("sub"@, FieldView::Sub(sub)),
            ("path"@, FieldView::Text(path@)),
        ],
        Diagnostic::InvalidBurstTransition { profile, helper, observed } => seq![
            ("profile"@, FieldView::Profile(profile)),
            ("helper"@, FieldView::Text(helper@)),
            ("observed"@, FieldView::Text(observed@)),
        ],
        Diagnostic::WalkerContractViolated { owner } => seq![
            ("owner"@, FieldView::Owner(owner)),
        ],
    }
}

/// What an operator must act on is an error; what is lost, late or refused is a
/// warning; what the engine does of its own is for tracing or debugging, and
/// the life of a declared watch is told.
pub proof fn law_levels_go_by_what_happened(d: Diagnostic)
    ensures
        level_of(d) is Error <==> d is AttachPathInvalid || d is AnchorKindMismatch
            || d is WalkerContractViolated,
        level_of(d) is Trace <==> d is EventClassDropped || d is EventNoConsumer
            || d is EventAbsorbedByFireTail,
        level_of(d) is Debug <==> d is PromoterReseededForOverflow || d is PromoterDescentVanished
            || d is PromotionKindObserved || d is PromoterProxyStaleEvent
            || d is PromoterEnumerationVanished || d is DynamicSubReaped || (
        d matches Diagnostic::SubAttached { source_promoter, .. } && source_promoter is Some),
        level_of(d) is Info <==> d is ConfigDiffUnknownSub || d is ConfigDiffUnknownPromoter
            || d is ConfigDiffRebindFallbackAttach || d is ReapPendingCancelled || d is ProfileReaped
            || d is PerFileFireSkippedOnFreshSeed || d is SubFired || d is QuiescenceAbsorbed
            || d is AbsorbArmed || d is SubDetached || d is SubRebound || d is PromoterAttached
            || d is PromoterReaped || (d matches Diagnostic::SubAttached { source_promoter, .. }
            && source_promoter is None),
{
}

/// Where the words go by what a diagnostic holds, they tell it: whether a tree
/// was seen to move, and whether discovery minted a subscription.
pub proof fn law_words_tell_what_happened(d: Diagnostic)
    ensures
        d matches Diagnostic::RebaseCeilingForced { observed_change, .. } ==> {
            &&& "post-fire rebase ceiling reached AND the hash channel observed"@.is_prefix_of(
                message_of(d),
            ) <==> observed_change
            &&& "post-fire rebase ceiling reached without the hash channel"@.is_prefix_of(
                message_of(d),
            ) <==> !observed_change
        },
        d matches Diagnostic::SubAttached { source_promoter, .. } ==> {
            &&& "dynamic sub attached"@.is_prefix_of(message_of(d)) <==> source_promoter is Some
            &&& "sub attached"@.is_prefix_of(message_of(d)) <==> source_promoter is None
        },
{
    reveal_strlit("post-fire rebase ceiling reached AND the hash channel observed");
    reveal_strlit("post-fire rebase ceiling reached without the hash channel");
    reveal_strlit("dynamic sub attached");
    reveal_strlit("sub attached");
    reveal_strlit("dynamic sub attached (promoter-spawned)");
    reveal_strlit(
        "post-fire rebase ceiling reached AND the hash channel observed concrete change (prior ≠ response) at the last sample; pinned the freshest observation as baseline anyway (post-command tree visibly moving when the ceiling expired)",
    );
    reveal_strlit(
        "post-fire rebase ceiling reached without the hash channel confirming quiescence (samples agreed at the last read, the ceiling forced the first sample, or the channel was inactive); pinned the freshest observation as baseline and finished the burst",
    );
    let moved = "post-fire rebase ceiling reached AND the hash channel observed"@;
    let rested = "post-fire rebase ceiling reached without the hash channel"@;
    let minted = "dynamic sub attached"@;
    let declared = "sub attached"@;
    let words = message_of(d);
    match d {
        Diagnostic::RebaseCeilingForced { observed_change, .. } => {
            if observed_change {
                assert(moved =~= words.subrange(0, moved.len() as int));
                assert(rested[33] != words.subrange(0, rested.len() as int)[33]);
            } else {
                assert(rested =~= words.subrange(0, rested.len() as int));
                assert(moved[33] != words.subrange(0, moved.len() as int)[33]);
            }
        },
        Diagnostic::SubAttached { source_promoter, .. } => {
            if source_promoter is Some {
                assert(minted =~= words.subrange(0, minted.len() as int));
                assert(declared[0] != words.subrange(0, declared.len() as int)[0]);
            } else {
                assert(declared =~= words.subrange(0, declared.len() as int));
            }
        },
        _ => {},
    }
}

/// Whether the log line of a diagnostic tells this value under this name.
pub open spec fn tells(d: Diagnostic, name: Seq<char>, value: FieldView) -> bool {
    exists|i: int| 0 <= i < fields_of(d).len() && #[trigger] fields_of(d)[i] == (name, value)
}

/// Whatever a diagnostic holds, its log line tells, each under its own name,
/// and nothing else. A failure is told in words and by its number. Whether a
/// tree was seen to move is told by the words of the line alone.
#[verifier::rlimit(60)]
#[verifier::spinoff_prover]
pub proof fn law_every_fact_is_told(d: Diagnostic)
    ensures
        d matches Diagnostic::StaleProbeResponse { owner, correlation } ==> {
            &&& fields_of(d).len() == 2
            &&& tells(d, "owner"@, FieldView::Owner(owner))
            &&& tells(d, "correlation"@, FieldView::Number(correlation))
        },
        d matches Diagnostic::StaleTimer { id } ==> {
            &&& fields_of(d).len() == 1
            &&& tells(d, "id"@, FieldView::Number(id))
        },
        d matches Diagnostic::EffectCompleteOutsideAwaiting { sub, profile } ==> {
            &&& fields_of(d).len() == 2
            &&& tells(d, "sub"@, FieldView::Sub(sub))
            &&& tells(d, "profile"@, FieldView::Profile(profile))
        },
        d matches Diagnostic::EffectCompleteForUnknownSub { sub } ==> {
            &&& fields_of(d).len() == 1
            &&& tells(d, "sub"@, FieldView::Sub(sub))
        },
        d matches Diagnostic::DetachUnknownSub { sub } ==> {
            &&& fields_of(d).len() == 1
            &&& tells(d, "sub"@, FieldView::Sub(sub))
        },
        d matches Diagnostic::ConfigDiffUnknownSub { name } ==> {
            &&& fields_of(d).len() == 1
            &&& tells(d, "name"@, FieldView::Text(name@))
        },
        d matches Diagnostic::ConfigDiffUnknownPromoter { name } ==> {
            &&& fields_of(d).len() == 1
            &&& tells(d, "name"@, FieldView::Text(name@))
        },
        d matches Diagnostic::ConfigDiffRebindFallbackAttach { name } ==> {
            &&& fields_of(d).len() == 1
            &&& tells(d, "name"@, FieldView::Text(name@))
        },
        d matches Diagnostic::ProbeVanished { profile, intent } ==> {
            &&& fields_of(d).len() == 2
            &&& tells(d, "profile"@, FieldView::Profile(profile))
            &&& tells(d, "intent"@, FieldView::Text(intent@))
        },
        d matches Diagnostic::ProbeFailed { profile, intent, failure } ==> {
            &&& fields_of(d).len() == 4
            &&& tells(d, "profile"@, FieldView::Profile(profile))
            &&& tells(d, "intent"@, FieldView::Text(intent@))
            &&& tells(d, "failure"@, FieldView::Text(failure.text@))
            &&& tells(d, "errno"@, FieldView::Errno(failure.errno))
        },
        d matches Diagnostic::EventClassDropped { resource, event, profile } ==> {
            &&& fields_of(d).len() == 3
            &&& tells(d, "resource"@, FieldView::Resource(resource))
            &&& tells(d, "event"@, FieldView::Text(event@))
            &&& tells(d, "profile"@, FieldView::Profile(profile))
        },
        d matches Diagnostic::EventOnUnwatchedResource { resource } ==> {
            &&& fields_of(d).len() == 1
            &&& tells(d, "resource"@, FieldView::Resource(resource))
        },
        d matches Diagnostic::EventNoConsumer { resource } ==> {
            &&& fields_of(d).len() == 1
            &&& tells(d, "resource"@, FieldView::Resource(resource))
        },
        d matches Diagnostic::WatchOpRejected { resource, failure } ==> {
            &&& fields_of(d).len() == 3
            &&& tells(d, "resource"@, FieldView::Resource(resource))
            &&& tells(d, "failure"@, FieldView::Text(failure.text@))
            &&& tells(d, "errno"@, FieldView::Errno(failure.errno))
        },
        d matches Diagnostic::PendingPathProbeVanished { profile, prefix } ==> {
            &&& fields_of(d).len() == 2
            &&& tells(d, "profile"@, FieldView::Profile(profile))
            &&& tells(d, "prefix"@, FieldView::Text(prefix@))
        },
        d matches Diagnostic::PendingPathProbeFailed { profile, prefix, failure } ==> {
            &&& fields_of(d).len() == 4
            &&& tells(d, "profile"@, FieldView::Profile(profile))
            &&& tells(d, "prefix"@, FieldView::Text(prefix@))
            &&& tells(d, "failure"@, FieldView::Text(failure.text@))
            &&& tells(d, "errno"@, FieldView::Errno(failure.errno))
        },
        d matches Diagnostic::ReapPendingCancelled { profile } ==> {
            &&& fields_of(d).len() == 1
            &&& tells(d, "profile"@, FieldView::Profile(profile))
        },
        d matches Diagnostic::ProfileReaped { profile, via } ==> {
            &&& fields_of(d).len() == 2
            &&& tells(d, "profile"@, FieldView::Profile(profile))
            &&& tells(d, "via"@, FieldView::Text(via@))
        },
        d matches Diagnostic::ProfileClaimPurged { profile, claim, resource, failure } ==> {
            &&& fields_of(d).len() == 5
            &&& tells(d, "profile"@, FieldView::Profile(profile))
            &&& tells(d, "claim"@, FieldView::Text(claim@))
            &&& tells(d, "resource"@, FieldView::Resource(resource))
            &&& tells(d, "failure"@, FieldView::Text(failure.text@))
            &&& tells(d, "errno"@, FieldView::Errno(failure.errno))
        },
        d matches Diagnostic::PromoterClaimPurged { promoter, claim, resource, failure } ==> {
            &&& fields_of(d).len() == 5
            &&& tells(d, "promoter"@, FieldView::Promoter(promoter))
            &&& tells(d, "claim"@, FieldView::Text(claim@))
            &&& tells(d, "resource"@, FieldView::Resource(resource))
            &&& tells(d, "failure"@, FieldView::Text(failure.text@))
            &&& tells(d, "errno"@, FieldView::Errno(failure.errno))
        },
        d matches Diagnostic::AttachPathInvalid { path, hint } ==> {
            &&& fields_of(d).len() == 2
            &&& tells(d, "path"@, FieldView::Text(path@))
            &&& tells(d, "hint"@, FieldView::Text(hint@))
        },
        d matches Diagnostic::AttachResourceStale { resource } ==> {
            &&& fields_of(d).len() == 1
            &&& tells(d, "resource"@, FieldView::Resource(resource))
        },
        d matches Diagnostic::SpliceCrossedUncovered { profile, target, cause } ==> {
            &&& fields_of(d).len() == 3
            &&& tells(d, "profile"@, FieldView::Profile(profile))
            &&& tells(d, "target"@, FieldView::Text(target@))
            &&& tells(d, "cause"@, FieldView::Text(cause@))
        },
        d matches Diagnostic::AnchorKindMismatch { profile, prior_kind, response_kind } ==> {
            &&& fields_of(d).len() == 3
            &&& tells(d, "profile"@, FieldView::Profile(profile))
            &&& tells(d, "prior_kind"@, FieldView::Text(prior_kind@))
            &&& tells(d, "response_kind"@, FieldView::Text(response_kind@))
        },
        d matches Diagnostic::EventAbsorbedByFireTail { profile, resource, event } ==> {
            &&& fields_of(d).len() == 3
            &&& tells(d, "profile"@, FieldView::Profile(profile))
            &&& tells(d, "resource"@, FieldView::Resource(resource))
            &&& tells(d, "event"@, FieldView::Text(event@))
        },
        d matches Diagnostic::AwaitGateDeadlineForceRebasing { profile, outstanding } ==> {
            &&& fields_of(d).len() == 2
            &&& tells(d, "profile"@, FieldView::Profile(profile))
            &&& tells(d, "outstanding"@, FieldView::Number(outstanding))
        },
        d matches Diagnostic::AwaitGateDeadlineReap { profile, outstanding } ==> {
            &&& fields_of(d).len() == 2
            &&& tells(d, "profile"@, FieldView::Profile(profile))
            &&& tells(d, "outstanding"@, FieldView::Number(outstanding))
        },
        d matches Diagnostic::QuiescenceCeilingUnreadable { profile, first_unread, intent } ==> {
            &&& fields_of(d).len() == 3
            &&& tells(d, "profile"@, FieldView::Profile(profile))
            &&& tells(d, "first_unread"@, FieldView::Text(first_unread@))
            &&& tells(d, "intent"@, FieldView::Text(intent@))
        },
        d matches Diagnostic::QuiescenceCeilingForcedDespiteChange { profile, intent } ==> {
            &&& fields_of(d).len() == 2
            &&& tells(d, "profile"@, FieldView::Profile(profile))
            &&& tells(d, "intent"@, FieldView::Text(intent@))
        },
        d matches Diagnostic::RebaseCeilingForced { profile, intent, .. } ==> {
            &&& fields_of(d).len() == 2
            &&& tells(d, "profile"@, FieldView::Profile(profile))
            &&& tells(d, "intent"@, FieldView::Text(intent@))
        },
        d matches Diagnostic::RebaseCeilingUnreadable { profile, first_unread, intent } ==> {
            &&& fields_of(d).len() == 3
            &&& tells(d, "profile"@, FieldView::Profile(profile))
            &&& tells(d, "first_unread"@, FieldView::Text(first_unread@))
            &&& tells(d, "intent"@, FieldView::Text(intent@))
        },
        d matches Diagnostic::SensorOverflow { scope } ==> {
            &&& fields_of(d).len() == 1
            &&& tells(d, "scope"@, FieldView::Text(scope@))
        },
        d matches Diagnostic::PromoterReseededForOverflow { promoter } ==> {
            &&& fields_of(d).len() == 1
            &&& tells(d, "promoter"@, FieldView::Promoter(promoter))
        },
        d matches Diagnostic::PerFileDriftDroppedOnRecovery { profile } ==> {
            &&& fields_of(d).len() == 1
            &&& tells(d, "profile"@, FieldView::Profile(profile))
        },
        d matches Diagnostic::PerFileFireSkippedOnFreshSeed { profile } ==> {
            &&& fields_of(d).len() == 1
            &&& tells(d, "profile"@, FieldView::Profile(profile))
        },
        d matches Diagnostic::SubAttached { sub, name, source_promoter } ==> {
            &&& fields_of(d).len() == if source_promoter is Some {
                3nat
            } else {
                2
            }
            &&& tells(d, "sub"@, FieldView::Sub(sub))
            &&& tells(d, "name"@, FieldView::Text(name@))
            &&& source_promoter matches Some(promoter) ==> tells(
                d,
                "promoter"@,
                FieldView::Promoter(promoter),
            )
        },
        d matches Diagnostic::SubFired { sub, profile, count } ==> {
            &&& fields_of(d).len() == 3
            &&& tells(d, "sub"@, FieldView::Sub(sub))
            &&& tells(d, "profile"@, FieldView::Profile(profile))
            &&& tells(d, "count"@, FieldView::Number(count))
        },
        d matches Diagnostic::QuiescenceAbsorbed { profile } ==> {
            &&& fields_of(d).len() == 1
            &&& tells(d, "profile"@, FieldView::Profile(profile))
        },
        d matches Diagnostic::AbsorbArmed { profile, mode } ==> {
            &&& fields_of(d).len() == 2
            &&& tells(d, "profile"@, FieldView::Profile(profile))
            &&& tells(d, "mode"@, FieldView::Text(mode@))
        },
        d matches Diagnostic::SubDetached { sub, profile, reason } ==> {
            &&& fields_of(d).len() == 3
            &&& tells(d, "sub"@, FieldView::Sub(sub))
            &&& tells(d, "profile"@, FieldView::Profile(profile))
            &&& tells(d, "reason"@, FieldView::Text(reason@))
        },
        d matches Diagnostic::SubRebound { sub } ==> {
            &&& fields_of(d).len() == 1
            &&& tells(d, "sub"@, FieldView::Sub(sub))
        },
        d matches Diagnostic::RebindUnknownSub { sub } ==> {
            &&& fields_of(d).len() == 1
            &&& tells(d, "sub"@, FieldView::Sub(sub))
        },
        d matches Diagnostic::PromoterAttached { promoter, name } ==> {
            &&& fields_of(d).len() == 2
            &&& tells(d, "promoter"@, FieldView::Promoter(promoter))
            &&& tells(d, "name"@, FieldView::Text(name@))
        },
        d matches Diagnostic::PromoterReaped { promoter } ==> {
            &&& fields_of(d).len() == 1
            &&& tells(d, "promoter"@, FieldView::Promoter(promoter))
        },
        d matches Diagnostic::PromoterDescentVanished { promoter, prefix } ==> {
            &&& fields_of(d).len() == 2
            &&& tells(d, "promoter"@, FieldView::Promoter(promoter))
            &&& tells(d, "prefix"@, FieldView::Text(prefix@))
        },
        d matches Diagnostic::PromoterDescentFailed { promoter, prefix, failure } ==> {
            &&& fields_of(d).len() == 4
            &&& tells(d, "promoter"@, FieldView::Promoter(promoter))
            &&& tells(d, "prefix"@, FieldView::Text(prefix@))
            &&& tells(d, "failure"@, FieldView::Text(failure.text@))
            &&& tells(d, "errno"@, FieldView::Errno(failure.errno))
        },
        d matches Diagnostic::PromotionKindObserved { promoter, path, kind } ==> {
            &&& fields_of(d).len() == 3
            &&& tells(d, "promoter"@, FieldView::Promoter(promoter))
            &&& tells(d, "path"@, FieldView::Text(path@))
            &&& tells(d, "kind"@, FieldView::Text(kind@))
        },
        d matches Diagnostic::PromoterFanoutThreshold { promoter, count } ==> {
            &&& fields_of(d).len() == 2
            &&& tells(d, "promoter"@, FieldView::Promoter(promoter))
            &&& tells(d, "count"@, FieldView::Number(count))
        },
        d matches Diagnostic::PromoterProxyStaleEvent { promoter, resource } ==> {
            &&& fields_of(d).len() == 2
            &&& tells(d, "promoter"@, FieldView::Promoter(promoter))
            &&& tells(d, "resource"@, FieldView::Resource(resource))
        },
        d matches Diagnostic::PromoterEnumerationVanished { promoter, proxy } ==> {
            &&& fields_of(d).len() == 2
            &&& tells(d, "promoter"@, FieldView::Promoter(promoter))
            &&& tells(d, "proxy"@, FieldView::Text(proxy@))
        },
        d matches Diagnostic::PromoterEnumerationFailed { promoter, proxy, failure } ==> {
            &&& fields_of(d).len() == 4
            &&& tells(d, "promoter"@, FieldView::Promoter(promoter))
            &&& tells(d, "proxy"@, FieldView::Text(proxy@))
            &&& tells(d, "failure"@, FieldView::Text(failure.text@))
            &&& tells(d, "errno"@, FieldView::Errno(failure.errno))
        },
        d matches Diagnostic::DynamicSubReaped { promoter, sub, path } ==> {
            &&& fields_of(d).len() == 3
            &&& tells(d, "promoter"@, FieldView::Promoter(promoter))
            &&& tells(d, "sub"@, FieldView::Sub(sub))
            &&& tells(d, "path"@, FieldView::Text(path@))
        },
        d matches Diagnostic::InvalidBurstTransition { profile, helper, observed } ==> {
            &&& fields_of(d).len() == 3
            &&& tells(d, "profile"@, FieldView::Profile(profile))
            &&& tells(d, "helper"@, FieldView::Text(helper@))
            &&& tells(d, "observed"@, FieldView::Text(observed@))
        },
        d matches Diagnostic::WalkerContractViolated { owner } ==> {
            &&& fields_of(d).len() == 1
            &&& tells(d, "owner"@, FieldView::Owner(owner))
        },
{
    let fields = fields_of(d);
    if fields.len() > 0 {
        assert(fields_of(d)[0] == fields[0]);
    }
    if fields.len() > 1 {
        assert(fields_of(d)[1] == fields[1]);
    }
    if fields.len() > 2 {
        assert(fields_of(d)[2] == fields[2]);
    }
    if fields.len() > 3 {
        assert(fields_of(d)[3] == fields[3]);
    }
    if fields.len() > 4 {
        assert(fields_of(d)[4] == fields[4]);
    }
}

/// A named value.
fn field(name: &'static str, value: FieldValue) -> (f: LogField)
    ensures
        f.name@ == name@,
        f.value@ == value@,
{
    LogField { name, value }
}

/// A log line.
fn line(level: Level, message: &'static str, fields: Vec<LogField>) -> (record: LogRecord)
    ensures
        record.level == level,
        record.message@ == message@,
        record.fields == fields,
{
    LogRecord { level, message, fields }
}

/// Turns a diagnostic into its log line.
#[verifier::rlimit(60)]
#[verifier::spinoff_prover]
pub fn log_diagnostic(d: &Diagnostic) -> (record: LogRecord)
    ensures
        record.level == level_of(*d),
        record.message@ == message_of(*d),
        said(record.fields@) == fields_of(*d),
{
    let record: LogRecord = match d {
        Diagnostic::StaleProbeResponse { owner, correlation } => line(
            Level::Warn,
            "stale probe response (state mismatch)",
            vec![
                field("owner", FieldValue::Owner(*owner)),
                field("correlation", FieldValue::Number(*correlation)),
            ],
        ),
        Diagnostic::StaleTimer { id } => line(
            Level::Warn,
            "stale timer expiration",
            vec![
                field("id", FieldValue::Number(*id)),
            ],
        ),
        Diagnostic::EffectCompleteOutsideAwaiting { sub, profile } => line(
            Level::Warn,
            "effect_complete arrived outside Awaiting (gate-deadline force-transition or anchor-loss); dropped",
            vec![
                field("sub", FieldValue::Sub(*sub)),
                field("profile", FieldValue::Profile(*profile)),
            ],
        ),
        Diagnostic::EffectCompleteForUnknownSub { sub } => line(
            Level::Warn,
            "effect_complete for unknown Sub (hot-reload race or engine bug; dropped)",
            vec![
                field("sub", FieldValue::Sub(*sub)),
            ],
        ),
        Diagnostic::DetachUnknownSub { sub } => line(
            Level::Warn,
            "detach for unknown Sub (hot-reload race or stale id; dropped)",
            vec![
                field("sub", FieldValue::Sub(*sub)),
            ],
        ),
        Diagnostic::ConfigDiffUnknownSub { name } => line(
            Level::Info,
            "config reload removed a watch the engine never attached (likely a prior path error); nothing to detach",
            vec![
                field("name", FieldValue::Text(name.clone())),
            ],
        ),
        Diagnostic::ConfigDiffUnknownPromoter { name } => line(
            Level::Info,
            "config reload removed a dynamic watch the engine never attached (likely a prior path error); nothing to reap",
            vec![
                field("name", FieldValue::Text(name.clone())),
            ],
        ),
        Diagnostic::ConfigDiffRebindFallbackAttach { name } => line(
            Level::Info,
            "config reload rebind found no live Sub (prior attach likely failed); degrading to fresh attach",
            vec![
                field("name", FieldValue::Text(name.clone())),
            ],
        ),
        Diagnostic::ProbeVanished { profile, intent } => line(
            Level::Warn,
            "probe returned Vanished",
            vec![
                field("profile", FieldValue::Profile(*profile)),
                field("intent", FieldValue::Text(intent.clone())),
            ],
        ),
        Diagnostic::ProbeFailed { profile, intent, failure } => line(
            Level::Warn,
            "probe failed",
            vec![
                field("profile", FieldValue::Profile(*profile)),
                field("intent", FieldValue::Text(intent.clone())),
                field("failure", FieldValue::Text(failure.text.clone())),
                field("errno", FieldValue::Errno(failure.errno)),
            ],
        ),
        Diagnostic::EventClassDropped { resource, event, profile } => line(
            Level::Trace,
            "fs event dropped (class not in profile.events)",
            vec![
                field("resource", FieldValue::Resource(*resource)),
                field("event", FieldValue::Text(event.clone())),
                field("profile", FieldValue::Profile(*profile)),
            ],
        ),
        Diagnostic::EventOnUnwatchedResource { resource } => line(
            Level::Warn,
            "FsEvent on unwatched resource (race; dropped)",
            vec![
                field("resource", FieldValue::Resource(*resource)),
            ],
        ),
        Diagnostic::EventNoConsumer { resource } => line(
            Level::Trace,
            "FsEvent had no consumer (watched, but no covering Profile / descent / recovery)",
            vec![
                field("resource", FieldValue::Resource(*resource)),
            ],
        ),
        Diagnostic::WatchOpRejected { resource, failure } => line(
            Level::Warn,
            "watch op rejected by sensor",
            vec![
                field("resource", FieldValue::Resource(*resource)),
                field("failure", FieldValue::Text(failure.text.clone())),
                field("errno", FieldValue::Errno(failure.errno)),
            ],
        ),
        Diagnostic::PendingPathProbeVanished { profile, prefix } => line(
            Level::Warn,
            "pending-path descent probe Vanished",
            vec![
                field("profile", FieldValue::Profile(*profile)),
                field("prefix", FieldValue::Text(prefix.clone())),
            ],
        ),
        Diagnostic::PendingPathProbeFailed { profile, prefix, failure } => line(
            Level::Warn,
            "pending-path descent probe Failed",
            vec![
                field("profile", FieldValue::Profile(*profile)),
                field("prefix", FieldValue::Text(prefix.clone())),
                field("failure", FieldValue::Text(failure.text.clone())),
                field("errno", FieldValue::Errno(failure.errno)),
            ],
        ),
        Diagnostic::ReapPendingCancelled { profile } => line(
            Level::Info,
            "reap-pending Profile revived (fresh attach pre-empted deferred reap)",
            vec![
                field("profile", FieldValue::Profile(*profile)),
            ],
        ),
        Diagnostic::ProfileReaped { profile, via } => line(
            Level::Info,
            "Profile reaped",
            vec![
                field("profile", FieldValue::Profile(*profile)),
                field("via", FieldValue::Text(via.clone())),
            ],
        ),
        Diagnostic::ProfileClaimPurged { profile, claim, resource, failure } => line(
            Level::Warn,
            "profile claim purged (WatchOpRejected at claimed resource)",
            vec![
                field("profile", FieldValue::Profile(*profile)),
                field("claim", FieldValue::Text(claim.clone())),
                field("resource", FieldValue::Resource(*resource)),
                field("failure", FieldValue::Text(failure.text.clone())),
                field("errno", FieldValue::Errno(failure.errno)),
            ],
        ),
        Diagnostic::PromoterClaimPurged { promoter, claim, resource, failure } => line(
            Level::Warn,
            "promoter claim purged (WatchOpRejected at claimed resource)",
            vec![
                field("promoter", FieldValue::Promoter(*promoter)),
                field("claim", FieldValue::Text(claim.clone())),
                field("resource", FieldValue::Resource(*resource)),
                field("failure", FieldValue::Text(failure.text.clone())),
                field("errno", FieldValue::Errno(failure.errno)),
            ],
        ),
        Diagnostic::AttachPathInvalid { path, hint } => line(
            Level::Error,
            "attach path invalid; request dropped",
            vec![
                field("path", FieldValue::Text(path.clone())),
                field("hint", FieldValue::Text(hint.clone())),
            ],
        ),
        Diagnostic::AttachResourceStale { resource } => line(
            Level::Warn,
            "attach resource stale (no live Tree slot); request dropped",
            vec![
                field("resource", FieldValue::Resource(*resource)),
            ],
        ),
        Diagnostic::SpliceCrossedUncovered { profile, target, cause } => line(
            Level::Warn,
            "splice crossed uncovered subtree (graft contract violation; prior view kept, response dropped)",
            vec![
                field("profile", FieldValue::Profile(*profile)),
                field("target", FieldValue::Text(target.clone())),
                field("cause", FieldValue::Text(cause.clone())),
            ],
        ),
        Diagnostic::AnchorKindMismatch { profile, prior_kind, response_kind } => line(
            Level::Error,
            "probe response shape disagrees with cached Profile.kind (walker contract violation; routing through anchor-loss recovery)",
            vec![
                field("profile", FieldValue::Profile(*profile)),
                field("prior_kind", FieldValue::Text(prior_kind.clone())),
                field("response_kind", FieldValue::Text(response_kind.clone())),
            ],
        ),
        Diagnostic::EventAbsorbedByFireTail { profile, resource, event } => line(
            Level::Trace,
            "fs event absorbed by fire-tail (Awaiting/Rebasing); folded into post-fire rebase",
            vec![
                field("profile", FieldValue::Profile(*profile)),
                field("resource", FieldValue::Resource(*resource)),
                field("event", FieldValue::Text(event.clone())),
            ],
        ),
        Diagnostic::AwaitGateDeadlineForceRebasing { profile, outstanding } => line(
            Level::Warn,
            "await-gate deadline elapsed; force-transitioning to Rebasing (actuator likely hung)",
            vec![
                field("profile", FieldValue::Profile(*profile)),
                field("outstanding", FieldValue::Number(*outstanding)),
            ],
        ),
        Diagnostic::AwaitGateDeadlineReap { profile, outstanding } => line(
            Level::Warn,
            "await-gate deadline elapsed on zombie burst; skipping rebase and reaping profile (actuator likely hung, sole sub detached)",
            vec![
                field("profile", FieldValue::Profile(*profile)),
                field("outstanding", FieldValue::Number(*outstanding)),
            ],
        ),
        Diagnostic::QuiescenceCeilingUnreadable { profile, first_unread, intent } => line(
            Level::Warn,
            "quiescence ceiling unreadable (obligation chain frame mtime-skipped/degraded); refused to fire/pin, burst finished to Idle (self-recovers if transient)",
            vec![
                field("profile", FieldValue::Profile(*profile)),
                field("intent", FieldValue::Text(intent.clone())),
                field("first_unread", FieldValue::Text(first_unread.clone())),
            ],
        ),
        Diagnostic::QuiescenceCeilingForcedDespiteChange { profile, intent } => line(
            Level::Warn,
            "pre-fire burst deadline ceiling reached AND the hash channel observed concrete change (prior ≠ response) at the last sample; fired against the freshest observation anyway (tree visibly moving when the deadline expired)",
            vec![
                field("profile", FieldValue::Profile(*profile)),
                field("intent", FieldValue::Text(intent.clone())),
            ],
        ),
        Diagnostic::RebaseCeilingForced { profile, intent, observed_change } => line(
            Level::Warn,
            if *observed_change {
                "post-fire rebase ceiling reached AND the hash channel observed concrete change (prior ≠ response) at the last sample; pinned the freshest observation as baseline anyway (post-command tree visibly moving when the ceiling expired)"
            } else {
                "post-fire rebase ceiling reached without the hash channel confirming quiescence (samples agreed at the last read, the ceiling forced the first sample, or the channel was inactive); pinned the freshest observation as baseline and finished the burst"
            },
            vec![
                field("profile", FieldValue::Profile(*profile)),
                field("intent", FieldValue::Text(intent.clone())),
            ],
        ),
        Diagnostic::RebaseCeilingUnreadable { profile, first_unread, intent } => line(
            Level::Warn,
            "post-fire rebase ceiling reached on an unreadable response (obligation chain frame mtime-skipped/degraded); refused to rebase blind, prior baseline kept, burst finished to Idle (self-recovers if transient)",
            vec![
                field("profile", FieldValue::Profile(*profile)),
                field("intent", FieldValue::Text(intent.clone())),
                field("first_unread", FieldValue::Text(first_unread.clone())),
            ],
        ),
        Diagnostic::SensorOverflow { scope } => line(
            Level::Warn,
            "sensor reported overflow (kernel queue dropped events); reseeding in-scope Profiles",
            vec![
                field("scope", FieldValue::Text(scope.clone())),
            ],
        ),
        Diagnostic::PromoterReseededForOverflow { promoter } => line(
            Level::Debug,
            "promoter reseeded after sensor overflow (descent re-probed or proxies re-enumerated)",
            vec![
                field("promoter", FieldValue::Promoter(*promoter)),
            ],
        ),
        Diagnostic::PerFileDriftDroppedOnRecovery { profile } => line(
            Level::Warn,
            "per-file Sub's loss-window reactions dropped on recovery (no per-leaf survival witness)",
            vec![
                field("profile", FieldValue::Profile(*profile)),
            ],
        ),
        Diagnostic::PerFileFireSkippedOnFreshSeed { profile } => line(
            Level::Info,
            "per-file Sub skipped on first-ever fire (fresh Profile has no baseline diff); per-file reactions begin from the post-command baseline",
            vec![
                field("profile", FieldValue::Profile(*profile)),
            ],
        ),
        Diagnostic::SubAttached { sub, name, source_promoter } => match source_promoter {
            None => line(
                Level::Info,
                "sub attached",
                vec![
                    field("sub", FieldValue::Sub(*sub)),
                    field("name", FieldValue::Text(name.clone())),
                ],
            ),
            Some(promoter) => line(
                Level::Debug,
                "dynamic sub attached (promoter-spawned)",
                vec![
                    field("sub", FieldValue::Sub(*sub)),
                    field("name", FieldValue::Text(name.clone())),
                    field("promoter", FieldValue::Promoter(*promoter)),
                ],
            ),
        },
        Diagnostic::SubFired { sub, profile, count } => line(
            Level::Info,
            "sub fired (aggregated per emit_effects pass; SubtreeRoot count=1, PerStableFile count=per-leaf matches)",
            vec![
                field("sub", FieldValue::Sub(*sub)),
                field("profile", FieldValue::Profile(*profile)),
                field("count", FieldValue::Number(*count)),
            ],
        ),
        Diagnostic::QuiescenceAbsorbed { profile } => line(
            Level::Info,
            "burst folded by an armed absorb window — baseline advanced, no fire (expected replication absorbed)",
            vec![
                field("profile", FieldValue::Profile(*profile)),
            ],
        ),
        Diagnostic::AbsorbArmed { profile, mode } => line(
            Level::Info,
            "absorb window armed (next fireable burst folds instead of firing)",
            vec![
                field("profile", FieldValue::Profile(*profile)),
                field("mode", FieldValue::Text(mode.clone())),
            ],
        ),
        Diagnostic::SubDetached { sub, profile, reason } => line(
            Level::Info,
            "sub detached",
            vec![
                field("sub", FieldValue::Sub(*sub)),
                field("profile", FieldValue::Profile(*profile)),
                field("reason", FieldValue::Text(reason.clone())),
            ],
        ),
        Diagnostic::SubRebound { sub } => line(
            Level::Info,
            "sub rebound (per-Sub fields updated in place; baseline preserved)",
            vec![
                field("sub", FieldValue::Sub(*sub)),
            ],
        ),
        Diagnostic::RebindUnknownSub { sub } => line(
            Level::Warn,
            "rebind targeted an unknown Sub (dispatcher routing breach)",
            vec![
                field("sub", FieldValue::Sub(*sub)),
            ],
        ),
        Diagnostic::PromoterAttached { promoter, name } => line(
            Level::Info,
            "promoter attached",
            vec![
                field("promoter", FieldValue::Promoter(*promoter)),
                field("name", FieldValue::Text(name.clone())),
            ],
        ),
        Diagnostic::PromoterReaped { promoter } => line(
            Level::Info,
            "promoter reaped",
            vec![
                field("promoter", FieldValue::Promoter(*promoter)),
            ],
        ),
        Diagnostic::PromoterDescentVanished { promoter, prefix } => line(
            Level::Debug,
            "promoter descent / enumeration probe Vanished",
            vec![
                field("promoter", FieldValue::Promoter(*promoter)),
                field("prefix", FieldValue::Text(prefix.clone())),
            ],
        ),
        Diagnostic::PromoterDescentFailed { promoter, prefix, failure } => line(
            Level::Warn,
            "promoter descent / enumeration probe Failed",
            vec![
                field("promoter", FieldValue::Promoter(*promoter)),
                field("prefix", FieldValue::Text(prefix.clone())),
                field("failure", FieldValue::Text(failure.text.clone())),
                field("errno", FieldValue::Errno(failure.errno)),
            ],
        ),
        Diagnostic::PromotionKindObserved { promoter, path, kind } => line(
            Level::Debug,
            "promoter promotion observed (dynamic Sub minted)",
            vec![
                field("promoter", FieldValue::Promoter(*promoter)),
                field("path", FieldValue::Text(path.clone())),
                field("kind", FieldValue::Text(kind.clone())),
            ],
        ),
        Diagnostic::PromoterFanoutThreshold { promoter, count } => line(
            Level::Warn,
            "promoter fanout exceeded warning threshold (consider tightening pattern)",
            vec![
                field("promoter", FieldValue::Promoter(*promoter)),
                field("count", FieldValue::Number(*count)),
            ],
        ),
        Diagnostic::PromoterProxyStaleEvent { promoter, resource } => line(
            Level::Debug,
            "fs event for promoter proxy that was unregistered earlier in step (stale; dropped)",
            vec![
                field("promoter", FieldValue::Promoter(*promoter)),
                field("resource", FieldValue::Resource(*resource)),
            ],
        ),
        Diagnostic::PromoterEnumerationVanished { promoter, proxy } => line(
            Level::Debug,
            "promoter enumeration probe Vanished (proxy gone; subtree unwound)",
            vec![
                field("promoter", FieldValue::Promoter(*promoter)),
                field("proxy", FieldValue::Text(proxy.clone())),
            ],
        ),
        Diagnostic::PromoterEnumerationFailed { promoter, proxy, failure } => line(
            Level::Warn,
            "promoter enumeration probe Failed (retaining proxy state)",
            vec![
                field("promoter", FieldValue::Promoter(*promoter)),
                field("proxy", FieldValue::Text(proxy.clone())),
                field("failure", FieldValue::Text(failure.text.clone())),
                field("errno", FieldValue::Errno(failure.errno)),
            ],
        ),
        Diagnostic::DynamicSubReaped { promoter, sub, path } => line(
            Level::Debug,
            "dynamic Sub reaped (anchor terminal — Profile all-dynamic teardown)",
            vec![
                field("promoter", FieldValue::Promoter(*promoter)),
                field("sub", FieldValue::Sub(*sub)),
                field("path", FieldValue::Text(path.clone())),
            ],
        ),
        Diagnostic::InvalidBurstTransition { profile, helper, observed } => line(
            Level::Warn,
            "burst lifecycle helper precondition failed (state-machine routing breach)",
            vec![
                field("profile", FieldValue::Profile(*profile)),
                field("helper", FieldValue::Text(helper.clone())),
                field("observed", FieldValue::Text(observed.clone())),
            ],
        ),
        Diagnostic::WalkerContractViolated { owner } => line(
            Level::Error,
            "probe response payload shape contradicts the requested route (walker contract violation; recovered route-appropriately)",
            vec![
                field("owner", FieldValue::Owner(*owner)),
            ],
        ),
    };
    assert(said(record.fields@) =~= fields_of(*d));
    record
}

} // verus!
