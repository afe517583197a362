//! The operator protocol: the verbs a client may send and the answers it gets.

use vstd::prelude::*;
use crate::ids::{ProfileId, PromoterId, SubId};
use crate::model::engine::{EffectScope, MintSource, ReactionKind};
use crate::text;
use crate::time::WallTime;

verus! {

/// The machine-readable class of a refused request.
#[derive(Clone, Copy, Debug, PartialEq, Eq, Structural)]
pub enum WireErrorCode {
    /// The daemon serves as many connections as it allows.
    Busy,
    /// The request line is not a request.
    Malformed,
    /// The daemon is winding down and takes no more changes.
    ShuttingDown,
    /// No watch carries the name.
    UnknownSub,
    /// The connection already streams diagnostics.
    AlreadySubscribed,
    /// The subscription was minted by discovery and cannot carry the override.
    DynamicSubNoOp,
    /// The runtime override is not in the state the verb asks to leave.
    NotDisabled,
    /// The override is gone, but the configuration keeps the watch off.
    TomlDisabled,
    /// The answer does not fit the connection's queue.
    ResponseTooBig,
}

impl WireErrorCode {
    /// The token that stands for the class on the wire.
    pub open spec fn spec_token(self) -> Seq<char> {
        match self {
            WireErrorCode::Busy => "busy"@,
            WireErrorCode::Malformed => "malformed"@,
            WireErrorCode::ShuttingDown => "shutting_down"@,
            WireErrorCode::UnknownSub => "unknown_sub"@,
            WireErrorCode::AlreadySubscribed => "already_subscribed"@,
            WireErrorCode::DynamicSubNoOp => "dynamic_sub_no_op"@,
            WireErrorCode::NotDisabled => "not_disabled"@,
            WireErrorCode::TomlDisabled => "toml_disabled"@,
            WireErrorCode::ResponseTooBig => "response_too_big"@,
        }
    }

    /// The wire token of the class.
    pub fn token(self) -> (token: &'static str)
        ensures
            token@ == self.spec_token(),
    {
        match self {
            WireErrorCode::Busy => "busy",
            WireErrorCode::Malformed => "malformed",
            WireErrorCode::ShuttingDown => "shutting_down",
            WireErrorCode::UnknownSub => "unknown_sub",
            WireErrorCode::AlreadySubscribed => "already_subscribed",
            WireErrorCode::DynamicSubNoOp => "dynamic_sub_no_op",
            WireErrorCode::NotDisabled => "not_disabled",
            WireErrorCode::TomlDisabled => "toml_disabled",
            WireErrorCode::ResponseTooBig => "response_too_big",
        }
    }
}

/// What drove a reload, as the wire names it.
#[derive(Clone, Copy, Debug, PartialEq, Eq, Structural)]
pub enum WireReloadTrigger {
    Sighup,
    Auto,
    Ipc,
    Startup,
}

/// The most recent reload, as the wire carries it.
#[derive(Clone, Copy, Debug, PartialEq, Eq, Structural)]
pub struct WireLastReload {
    pub at: WallTime,
    pub via: WireReloadTrigger,
}

/// Why a watch is not attached.
#[derive(Clone, Copy, Debug, PartialEq, Eq, Structural)]
pub enum DisabledSource {
    /// An operator switched it off.
    Runtime,
    /// The configuration switches it off.
    Toml,
}

/// One line of the `list` answer. What the engine knows is missing for a
/// watch that is not attached.
#[derive(Debug)]
pub struct ListRow {
    pub name: String,
    pub state: Option<String>,
    pub anchor: Option<String>,
    pub last_fired_at: Option<WallTime>,
    pub fire_count: Option<u64>,
    pub dedup_suppressed_count: Option<u64>,
    pub settle_ms: Option<u64>,
    pub reaction: Option<ReactionKind>,
    pub disabled: Option<DisabledSource>,
    pub sub: Option<SubId>,
    pub profile: Option<ProfileId>,
    pub minted_by: Option<MintSource>,
}

/// What a [`ListRow`] says.
pub struct ListRowView {
    pub name: Seq<char>,
    pub state: Option<Seq<char>>,
    pub anchor: Option<Seq<char>>,
    pub last_fired_at: Option<WallTime>,
    pub fire_count: Option<u64>,
    pub dedup_suppressed_count: Option<u64>,
    pub settle_ms: Option<u64>,
    pub reaction: Option<ReactionKind>,
    pub disabled: Option<DisabledSource>,
    pub sub: Option<SubId>,
    pub profile: Option<ProfileId>,
    pub minted_by: Option<MintSource>,
}

impl View for ListRow {
    type V = ListRowView;

    open spec fn view(&self) -> ListRowView {
        ListRowView {
            name: self.name@,
            state: text::opt(self.state),
            anchor: text::opt(self.anchor),
            last_fired_at: self.last_fired_at,
            fire_count: self.fire_count,
            dedup_suppressed_count: self.dedup_suppressed_count,
            settle_ms: self.settle_ms,
            reaction: self.reaction,
            disabled: self.disabled,
            sub: self.sub,
            profile: self.profile,
            minted_by: self.minted_by,
        }
    }
}

/// The `list` answer.
#[derive(Debug)]
pub struct ListResponse {
    pub rows: Vec<ListRow>,
}

/// Everything `show` tells of an attached watch.
#[derive(Debug)]
pub struct SubDetails {
    pub name: String,
    pub sub: SubId,
    pub profile: ProfileId,
    pub state: String,
    pub anchor: Option<String>,
    pub last_fired_at: Option<WallTime>,
    pub fire_count: u64,
    pub dedup_suppressed_count: u64,
    pub settle_ms: u64,
    pub source_promoter: Option<PromoterId>,
    pub scope: EffectScope,
    pub program: Vec<String>,
}

/// The `show` answer.
#[derive(Debug)]
pub enum ShowResponse {
    Active(SubDetails),
    Disabled { name: String, source: DisabledSource },
    Unknown { name: String },
}

/// The `status` answer.
#[derive(Debug)]
pub struct StatusResponse {
    pub uptime_secs: u64,
    pub start_wall: WallTime,
    pub reload_count: u64,
    pub last_reload: Option<WireLastReload>,
    pub sub_total: usize,
    pub sub_disabled_toml: usize,
    pub sub_disabled_runtime: usize,
    pub profile_active: usize,
    pub promoter_active: usize,
    pub config_path: String,
    pub socket_path: String,
}

/// A verb with its arguments.
#[derive(Debug)]
pub enum WireRequest {
    /// The daemon at a glance.
    Status,
    /// Every watch.
    List,
    /// One watch.
    Show { name: String },
    /// A stream of diagnostics, of one watch or of all.
    Subscribe { name: Option<String> },
    /// A reload of the configuration.
    Reload,
    /// A watch switched off until it is switched on again.
    Disable { name: String },
    /// A watch switched on again.
    Enable { name: String },
    /// The next change of a watch absorbed instead of acted on.
    Absorb { name: String, duration_ms: Option<u64> },
}

/// The key of a request under which its verb stands.
pub open spec fn verb_key() -> Seq<char> {
    "op"@
}

impl WireRequest {
    /// Whether a request of this verb may hold `key`: its verb stands under one
    /// key, each of its arguments under another, and there is nothing else.
    pub open spec fn spec_knows_key(self, key: Seq<char>) -> bool {
        key == verb_key() || match self {
            WireRequest::Status | WireRequest::List | WireRequest::Reload => false,
            WireRequest::Show { .. }
            | WireRequest::Subscribe { .. }
            | WireRequest::Disable { .. }
            | WireRequest::Enable { .. } => key == "name"@,
            WireRequest::Absorb { .. } => key == "name"@ || key == "duration_ms"@,
        }
    }

    /// Whether a request of this verb may hold `key`.
    pub fn knows_key(&self, key: &str) -> (yes: bool)
        ensures
            yes == self.spec_knows_key(key@),
    {
        text::same(key, "op") || match self {
            WireRequest::Status | WireRequest::List | WireRequest::Reload => false,
            WireRequest::Show { .. }
            | WireRequest::Subscribe { .. }
            | WireRequest::Disable { .. }
            | WireRequest::Enable { .. } => text::same(key, "name"),
            WireRequest::Absorb { .. } => text::same(key, "name") || text::same(
                key,
                "duration_ms",
            ),
        }
    }

    /// Whether the verb changes what the daemon does.
    pub open spec fn spec_is_mutating(self) -> bool {
        self is Reload || self is Disable || self is Enable || self is Absorb
    }

    /// Whether the verb changes what the daemon does.
    pub fn is_mutating(&self) -> (yes: bool)
        ensures
            yes == self.spec_is_mutating(),
    {
        match self {
            WireRequest::Reload
            | WireRequest::Disable { .. }
            | WireRequest::Enable { .. }
            | WireRequest::Absorb { .. } => true,
            _ => false,
        }
    }
}

/// A verb changes what the daemon does unless all it does is to ask for an
/// answer or a stream.
pub proof fn law_asking_changes_nothing(request: WireRequest)
    ensures
        request.spec_is_mutating() <==> !(request is Status || request is List || request is Show
            || request is Subscribe),
{
}

/// The verb stands in every request; a name exactly in those about one watch,
/// and a time exactly in the one to absorb; nothing else in any.
pub proof fn law_a_request_holds_its_arguments(request: WireRequest, key: Seq<char>)
    ensures
        request.spec_knows_key("op"@),
        request.spec_knows_key("name"@) <==> !(request is Status || request is List
            || request is Reload),
        request.spec_knows_key("duration_ms"@) <==> request is Absorb,
        request.spec_knows_key(key) ==> key == "op"@ || key == "name"@ || key == "duration_ms"@,
{
    reveal_strlit("op");
    reveal_strlit("name");
    reveal_strlit("duration_ms");
    assert("op"@.len() != "name"@.len());
    assert("op"@.len() != "duration_ms"@.len());
    assert("name"@.len() != "duration_ms"@.len());
}

/// A client can tell the classes of refusals apart.
pub proof fn law_classes_are_told_apart(a: WireErrorCode, b: WireErrorCode)
    ensures
        a.spec_token() == b.spec_token() ==> a == b,
{
    reveal_strlit("busy");
    reveal_strlit("malformed");
    reveal_strlit("shutting_down");
    reveal_strlit("unknown_sub");
    reveal_strlit("already_subscribed");
    reveal_strlit("dynamic_sub_no_op");
    reveal_strlit("not_disabled");
    reveal_strlit("toml_disabled");
    reveal_strlit("response_too_big");
    assert("shutting_down"@[0] != "toml_disabled"@[0]);
    assert(a.spec_token().len() == b.spec_token().len() || a.spec_token() != b.spec_token());
}

/// An answer.
#[derive(Debug)]
pub enum ResponsePayload {
    /// All is well.
    Done,
    /// The request is refused.
    Refusal { code: WireErrorCode, error: String },
    /// The stream starts.
    SubscribeAck { sub: Option<SubId> },
    Status(StatusResponse),
    List(ListResponse),
    Show(ShowResponse),
}

/// Whether two accounts of a watch say the same.
pub open spec fn same_details(a: SubDetails, b: SubDetails) -> bool {
    &&& a.name@ == b.name@
    &&& a.sub == b.sub
    &&& a.profile == b.profile
    &&& a.state@ == b.state@
    &&& text::opt(a.anchor) == text::opt(b.anchor)
    &&& a.last_fired_at == b.last_fired_at
    &&& a.fire_count == b.fire_count
    &&& a.dedup_suppressed_count == b.dedup_suppressed_count
    &&& a.settle_ms == b.settle_ms
    &&& a.source_promoter == b.source_promoter
    &&& a.scope == b.scope
    &&& a.program@.len() == b.program@.len()
    &&& forall|i: int|
        0 <= i < a.program@.len() ==> (#[trigger] a.program@[i])@ == b.program@[i]@
}

/// Whether two `status` answers say the same.
pub open spec fn same_status(a: StatusResponse, b: StatusResponse) -> bool {
    &&& a.uptime_secs == b.uptime_secs
    &&& a.start_wall == b.start_wall
    &&& a.reload_count == b.reload_count
    &&& a.last_reload == b.last_reload
    &&& a.sub_total == b.sub_total
    &&& a.sub_disabled_toml == b.sub_disabled_toml
    &&& a.sub_disabled_runtime == b.sub_disabled_runtime
    &&& a.profile_active == b.profile_active
    &&& a.promoter_active == b.promoter_active
    &&& a.config_path@ == b.config_path@
    &&& a.socket_path@ == b.socket_path@
}

/// Whether two `list` answers say the same, row by row.
pub open spec fn same_list(a: ListResponse, b: ListResponse) -> bool {
    &&& a.rows@.len() == b.rows@.len()
    &&& forall|i: int| 0 <= i < a.rows@.len() ==> (#[trigger] a.rows@[i])@ == b.rows@[i]@
}

/// Whether two `show` answers say the same.
pub open spec fn same_show(a: ShowResponse, b: ShowResponse) -> bool {
    match (a, b) {
        (ShowResponse::Active(x), ShowResponse::Active(y)) => same_details(x, y),
        (
            ShowResponse::Disabled { name: x, source: p },
            ShowResponse::Disabled { name: y, source: q },
        ) => x@ == y@ && p == q,
        (ShowResponse::Unknown { name: x }, ShowResponse::Unknown { name: y }) => x@ == y@,
        _ => false,
    }
}

/// Whether two answers say the same.
pub open spec fn same_answer(a: ResponsePayload, b: ResponsePayload) -> bool {
    match (a, b) {
        (ResponsePayload::Done, ResponsePayload::Done) => true,
        (
            ResponsePayload::Refusal { code: c, error: x },
            ResponsePayload::Refusal { code: d, error: y },
        ) => c == d && x@ == y@,
        (ResponsePayload::SubscribeAck { sub: x }, ResponsePayload::SubscribeAck { sub: y }) => x
            == y,
        (ResponsePayload::Status(x), ResponsePayload::Status(y)) => same_status(x, y),
        (ResponsePayload::List(x), ResponsePayload::List(y)) => same_list(x, y),
        (ResponsePayload::Show(x), ResponsePayload::Show(y)) => same_show(x, y),
        _ => false,
    }
}

} // verus!
