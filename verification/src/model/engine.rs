//! The engine's registries as the driver reads them.

use vstd::prelude::*;
use crate::ids::{ProfileId, PromoterId, SubId};
use crate::model::program::ActionProgram;
use crate::text;
use crate::time::MonoTime;

verus! {

/// What minted a subscription that no operator declared.
#[derive(Clone, Copy, Debug, PartialEq, Eq, Structural)]
pub enum MintSource {
    /// A discovery template.
    Template(SubId),
    /// A promoter.
    Promoter(PromoterId),
}

/// What a subscription does when it fires.
#[derive(Clone, Copy, Debug, PartialEq, Eq, Structural)]
pub enum ReactionKind {
    /// Runs its program.
    Spawn,
    /// Mints further subscriptions.
    Mint,
}

/// What one run of a program covers.
#[derive(Clone, Copy, Debug, PartialEq, Eq, Structural)]
pub enum EffectScope {
    /// The whole tree below the anchor.
    SubtreeRoot,
    /// One file that came to rest.
    PerStableFile,
}

/// What a subscription did so far.
#[derive(Clone, Copy, Debug, PartialEq, Eq, Structural)]
pub struct FireHistory {
    pub last_fired_at: Option<MonoTime>,
    pub fire_count: u64,
    pub dedup_suppressed_count: u64,
}

/// A subscription.
#[derive(Debug)]
pub struct SubRecord {
    pub id: SubId,
    pub name: String,
    pub profile: ProfileId,
    pub settle_ms: u64,
    pub reaction: ReactionKind,
    /// `None` for a subscription that never fires.
    pub history: Option<FireHistory>,
    pub minted_by: Option<MintSource>,
    pub scope: EffectScope,
    pub program: ActionProgram,
}

/// A profile: its state, and the path of its anchor where that is known.
#[derive(Debug)]
pub struct ProfileRecord {
    pub id: ProfileId,
    pub state: String,
    pub anchor: Option<String>,
}

/// The registries, subscriptions in the order they are walked.
#[derive(Debug)]
pub struct EngineView {
    pub subs: Vec<SubRecord>,
    pub profiles: Vec<ProfileRecord>,
    /// Profiles that are not idle.
    pub profile_active: usize,
    /// Promoters.
    pub promoter_active: usize,
}

impl SubRecord {
    /// Whether discovery minted the subscription.
    pub open spec fn spec_is_dynamic(self) -> bool {
        self.minted_by is Some
    }

    /// Whether discovery minted the subscription.
    pub fn is_dynamic(&self) -> (yes: bool)
        ensures
            yes == self.spec_is_dynamic(),
    {
        self.minted_by.is_some()
    }
}

/// The subscription of that name: the one registered last.
pub open spec fn named(subs: Seq<SubRecord>, name: Seq<char>) -> Option<SubRecord>
    decreases subs.len(),
{
    if subs.len() == 0 {
        None
    } else if subs.last().name@ == name {
        Some(subs.last())
    } else {
        named(subs.drop_last(), name)
    }
}

/// The profile of that key.
pub open spec fn keyed(profiles: Seq<ProfileRecord>, id: ProfileId) -> Option<ProfileRecord>
    decreases profiles.len(),
{
    if profiles.len() == 0 {
        None
    } else if profiles.last().id == id {
        Some(profiles.last())
    } else {
        keyed(profiles.drop_last(), id)
    }
}

/// A name is found exactly where some subscription carries it.
pub proof fn lemma_named_iff_present(subs: Seq<SubRecord>, name: Seq<char>)
    ensures
        named(subs, name) is Some <==> exists|i: int|
            0 <= i < subs.len() && (#[trigger] subs[i]).name@ == name,
        named(subs, name) matches Some(sub) ==> sub.name@ == name && subs.contains(sub),
    decreases subs.len(),
{
    if subs.len() > 0 {
        let front = subs.drop_last();
        lemma_named_iff_present(front, name);
        if subs.last().name@ == name {
            assert(subs[subs.len() - 1].name@ == name);
        } else {
            if named(front, name) is Some {
                let i = choose|i: int| 0 <= i < front.len() && (#[trigger] front[i]).name@ == name;
                assert(subs[i].name@ == name);
                let sub = named(front, name)->0;
                let j = choose|j: int| 0 <= j < front.len() && front[j] == sub;
                assert(subs[j] == sub);
            }
            if exists|i: int| 0 <= i < subs.len() && (#[trigger] subs[i]).name@ == name {
                let i = choose|i: int| 0 <= i < subs.len() && (#[trigger] subs[i]).name@ == name;
                assert(front[i].name@ == name);
            }
        }
    }
}

/// Of several subscriptions of one name, the one registered last is found: the
/// next one of that name takes its place, one of another name does not.
pub proof fn law_the_last_of_a_name_is_found(
    subs: Seq<SubRecord>,
    more: SubRecord,
    name: Seq<char>,
)
    ensures
        more.name@ == name ==> named(subs.push(more), name) == Some(more),
        more.name@ != name ==> named(subs.push(more), name) == named(subs, name),
        named(subs, name) matches Some(sub) ==> exists|i: int|
            {
                &&& 0 <= i < subs.len()
                &&& (#[trigger] subs[i]) == sub
                &&& sub.name@ == name
                &&& forall|j: int| i < j < subs.len() ==> (#[trigger] subs[j]).name@ != name
            },
        named(subs, name) is None ==> forall|j: int|
            0 <= j < subs.len() ==> (#[trigger] subs[j]).name@ != name,
    decreases subs.len(),
{
    assert(subs.push(more).drop_last() =~= subs);
    if subs.len() > 0 {
        let front = subs.drop_last();
        law_the_last_of_a_name_is_found(front, more, name);
        if subs.last().name@ == name {
            assert(subs[subs.len() - 1] == subs.last());
        } else if let Some(sub) = named(front, name) {
            let i = choose|i: int|
                {
                    &&& 0 <= i < front.len()
                    &&& (#[trigger] front[i]) == sub
                    &&& sub.name@ == name
                    &&& forall|j: int| i < j < front.len() ==> (#[trigger] front[j]).name@ != name
                };
            assert(subs[i] == sub);
            assert forall|j: int| i < j < subs.len() implies (#[trigger] subs[j]).name@ != name by {
                if j < front.len() {
                    assert(front[j].name@ != name);
                }
            }
        } else {
            assert forall|j: int| 0 <= j < subs.len() implies (#[trigger] subs[j]).name@ != name by {
                if j < front.len() {
                    assert(front[j].name@ != name);
                }
            }
        }
    }
}

/// The one that stands last of its name is the one that is found.
pub proof fn lemma_last_is_named(subs: Seq<SubRecord>, i: int, name: Seq<char>)
    requires
        0 <= i < subs.len(),
        subs[i].name@ == name,
        forall|j: int| i < j < subs.len() ==> (#[trigger] subs[j]).name@ != name,
    ensures
        named(subs, name) == Some(subs[i]),
    decreases subs.len(),
{
    if i < subs.len() - 1 {
        let front = subs.drop_last();
        assert(subs[subs.len() - 1].name@ != name);
        assert forall|j: int| i < j < front.len() implies (#[trigger] front[j]).name@ != name by {
            assert(subs[j].name@ != name);
        }
        lemma_last_is_named(front, i, name);
    }
}

/// A profile is found by its own key, and wherever there is one of that key.
pub proof fn law_a_profile_is_found_by_its_key(
    profiles: Seq<ProfileRecord>,
    more: ProfileRecord,
    id: ProfileId,
)
    ensures
        more.id == id ==> keyed(profiles.push(more), id) == Some(more),
        more.id != id ==> keyed(profiles.push(more), id) == keyed(profiles, id),
        keyed(profiles, id) matches Some(p) ==> p.id == id && profiles.contains(p),
        keyed(profiles, id) is None ==> forall|j: int|
            0 <= j < profiles.len() ==> (#[trigger] profiles[j]).id != id,
    decreases profiles.len(),
{
    assert(profiles.push(more).drop_last() =~= profiles);
    if profiles.len() > 0 {
        let front = profiles.drop_last();
        law_a_profile_is_found_by_its_key(front, more, id);
        if profiles.last().id == id {
            assert(profiles[profiles.len() - 1] == profiles.last());
        } else if let Some(p) = keyed(front, id) {
            let i = choose|i: int| 0 <= i < front.len() && front[i] == p;
            assert(profiles[i] == p);
        } else {
            assert forall|j: int| 0 <= j < profiles.len() implies (#[trigger] profiles[j]).id
                != id by {
                if j < front.len() {
                    assert(front[j].id != id);
                }
            }
        }
    }
}

impl EngineView {
    /// The subscription of that name.
    pub fn find_by_name(&self, name: &str) -> (sub: Option<&SubRecord>)
        ensures
            match sub {
                Some(s) => named(self.subs@, name@) == Some(*s),
                None => named(self.subs@, name@) is None,
            },
    {
        let mut i: usize = self.subs.len();
        assert(self.subs@.take(i as int) =~= self.subs@);
        while i > 0
            invariant
                i <= self.subs@.len(),
                named(self.subs@, name@) == named(self.subs@.take(i as int), name@),
            decreases i,
        {
            assert(self.subs@.take(i as int).drop_last() =~= self.subs@.take(i - 1));
            i = i - 1;
            if text::same(self.subs[i].name.as_str(), name) {
                return Some(&self.subs[i]);
            }
        }
        None
    }

    /// The profile of that key.
    pub fn profile(&self, id: ProfileId) -> (profile: Option<&ProfileRecord>)
        ensures
            match profile {
                Some(p) => keyed(self.profiles@, id) == Some(*p),
                None => keyed(self.profiles@, id) is None,
            },
    {
        let mut i: usize = self.profiles.len();
        assert(self.profiles@.take(i as int) =~= self.profiles@);
        while i > 0
            invariant
                i <= self.profiles@.len(),
                keyed(self.profiles@, id) == keyed(self.profiles@.take(i as int), id),
            decreases i,
        {
            assert(self.profiles@.take(i as int).drop_last() =~= self.profiles@.take(i - 1));
            i = i - 1;
            if self.profiles[i].id == id {
                return Some(&self.profiles[i]);
            }
        }
        None
    }
}

} // verus!
