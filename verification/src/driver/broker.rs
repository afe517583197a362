//! Diagnostics to listeners on threads of their own, each behind a channel.
//!
//! A listener that does not keep up loses diagnostics; it is told how many
//! before it gets the next one.

use std::sync::Arc;
use vstd::prelude::*;
use crate::channels::{Port, Verdict};
use crate::driver::forward;
use crate::ids::SubId;
use crate::model::diagnostic::Diagnostic;
use crate::time::WallTime;

verus! {

/// What a listener gets.
#[derive(Debug)]
pub enum BrokerEvent {
    /// A diagnostic.
    Diag { diag: Arc<Diagnostic>, at: WallTime },
    /// The number of diagnostics lost before this point.
    Missed { count: u32, at: WallTime },
}

/// What follows the report of lost diagnostics.
#[derive(Clone, Copy, Debug, PartialEq, Eq, Structural)]
pub enum MarkerStep {
    /// The diagnostic itself.
    Proceed,
    /// Nothing: the listener is still behind.
    Keep,
    /// The listener is gone.
    Drop,
}

/// A listener.
pub struct Subscriber {
    pub tx: Port<BrokerEvent>,
    /// Diagnostics lost since the last report of losses.
    pub missed: u32,
    /// The one subscription listened to, or all of them.
    pub filter_sub: Option<SubId>,
}

/// One more loss.
pub open spec fn one_more(missed: u32) -> u32 {
    if missed < u32::MAX {
        (missed + 1) as u32
    } else {
        u32::MAX
    }
}

/// The diagnostics among the events that got through.
pub open spec fn delivered(log: Seq<(BrokerEvent, Verdict)>) -> nat
    decreases log.len(),
{
    if log.len() == 0 {
        0
    } else {
        delivered(log.drop_last()) + if log.last().0 is Diag && log.last().1 == Verdict::Sent {
            1nat
        } else {
            0nat
        }
    }
}

/// The losses that the reports which got through tell of.
pub open spec fn told(log: Seq<(BrokerEvent, Verdict)>) -> nat
    decreases log.len(),
{
    if log.len() == 0 {
        0
    } else {
        told(log.drop_last()) + match log.last() {
            (BrokerEvent::Missed { count, .. }, Verdict::Sent) => count as nat,
            _ => 0nat,
        }
    }
}

impl Subscriber {
    /// Whether a diagnostic about `diag_sub` is for this listener.
    pub open spec fn spec_wants(self, diag_sub: Option<SubId>) -> bool {
        self.filter_sub is None || self.filter_sub == diag_sub
    }

    /// Whether a diagnostic about `diag_sub` is for this listener.
    pub fn wants(&self, diag_sub: Option<SubId>) -> (yes: bool)
        ensures
            yes == self.spec_wants(diag_sub),
    {
        match self.filter_sub {
            None => true,
            Some(want) => match diag_sub {
                None => false,
                Some(sub) => sub == want,
            },
        }
    }

    /// Takes note of how the report of losses ended. One that does not get
    /// through costs the diagnostic behind it as well.
    pub fn after_marker(&mut self, verdict: Verdict) -> (step: MarkerStep)
        ensures
            final(self).tx == old(self).tx,
            final(self).filter_sub == old(self).filter_sub,
            step == (match verdict {
                Verdict::Sent => MarkerStep::Proceed,
                Verdict::Full => MarkerStep::Keep,
                Verdict::Disconnected => MarkerStep::Drop,
            }),
            final(self).missed == (match verdict {
                Verdict::Sent => 0,
                Verdict::Full => one_more(old(self).missed),
                Verdict::Disconnected => old(self).missed,
            }),
    {
        match verdict {
            Verdict::Sent => {
                self.missed = 0;
                MarkerStep::Proceed
            },
            Verdict::Full => {
                self.missed = self.missed.saturating_add(1);
                MarkerStep::Keep
            },
            Verdict::Disconnected => MarkerStep::Drop,
        }
    }

    /// Takes note of how the diagnostic ended; tells whether the listener
    /// stays.
    pub fn after_diag(&mut self, verdict: Verdict) -> (keep: bool)
        ensures
            final(self).tx == old(self).tx,
            final(self).filter_sub == old(self).filter_sub,
            keep == (verdict != Verdict::Disconnected),
            final(self).missed == (if verdict == Verdict::Full {
                one_more(old(self).missed)
            } else {
                old(self).missed
            }),
    {
        match verdict {
            Verdict::Sent => true,
            Verdict::Full => {
                self.missed = self.missed.saturating_add(1);
                true
            },
            Verdict::Disconnected => false,
        }
    }

    /// The report of losses that is due before the next diagnostic.
    pub open spec fn spec_marker(self, at: WallTime) -> Option<BrokerEvent> {
        if self.missed > 0 {
            Some(BrokerEvent::Missed { count: self.missed, at })
        } else {
            None
        }
    }

    /// The report of losses that is due before the next diagnostic.
    pub fn marker(&self, at: WallTime) -> (event: Option<BrokerEvent>)
        ensures
            event == self.spec_marker(at),
    {
        if self.missed > 0 {
            Some(BrokerEvent::Missed { count: self.missed, at })
        } else {
            None
        }
    }

    /// Whether `next` is what one diagnostic leaves of this listener, which
    /// stays as `keep` says. One that is not for it does nothing. Else the
    /// report of losses is offered first, where one is due, and the diagnostic
    /// only behind a report that got through; nothing else is offered. What
    /// finds no room counts as lost, and the listener goes where nobody
    /// receives.
    pub open spec fn stepped(
        self,
        diag: Arc<Diagnostic>,
        diag_sub: Option<SubId>,
        at: WallTime,
        keep: bool,
        next: Subscriber,
    ) -> bool {
        let before = self.tx.log();
        let after = next.tx.log();
        let n = before.len() as int;
        let event = BrokerEvent::Diag { diag, at };
        &&& next.tx.tx() == self.tx.tx()
        &&& next.filter_sub == self.filter_sub
        &&& if !self.spec_wants(diag_sub) {
            keep && next == self
        } else {
            match self.spec_marker(at) {
                None => {
                    let verdict = after[n].1;
                    &&& after == before.push((event, verdict))
                    &&& keep == (verdict != Verdict::Disconnected)
                    &&& next.missed == (if verdict == Verdict::Full {
                        1int
                    } else {
                        0
                    })
                },
                Some(report) => {
                    let first = after[n].1;
                    let second = after[n + 1].1;
                    if first == Verdict::Sent {
                        &&& after == before.push((report, first)).push((event, second))
                        &&& keep == (second != Verdict::Disconnected)
                        &&& next.missed == (if second == Verdict::Full {
                            1int
                        } else {
                            0
                        })
                    } else {
                        &&& after == before.push((report, first))
                        &&& keep == (first != Verdict::Disconnected)
                        &&& next.missed == (if first == Verdict::Full {
                            one_more(self.missed)
                        } else {
                            self.missed
                        })
                    }
                },
            }
        }
    }

    /// Offers one diagnostic to the listener, behind the report of what it
    /// lost; tells whether the listener stays.
    pub fn step(&mut self, diag: &Arc<Diagnostic>, diag_sub: Option<SubId>, at: WallTime) -> (keep:
        bool)
        ensures
            old(self).stepped(*diag, diag_sub, at, keep, *final(self)),
    {
        if !self.wants(diag_sub) {
            return true;
        }
        if let Some(event) = self.marker(at) {
            let verdict: Verdict = self.tx.offer(event);
            match self.after_marker(verdict) {
                MarkerStep::Proceed => {},
                MarkerStep::Keep => {
                    return true;
                },
                MarkerStep::Drop => {
                    return false;
                },
            }
        }
        let verdict: Verdict = self.tx.offer(BrokerEvent::Diag { diag: diag.clone(), at });
        self.after_diag(verdict)
    }
}

/// A listener is offered a diagnostic exactly where it listens to everything or
/// to the subscription that the diagnostic names, and then that very one, with
/// its moment; it goes exactly where an offer finds nobody there.
pub proof fn law_a_listener_is_offered_its_own(
    before: Subscriber,
    diag: Arc<Diagnostic>,
    diag_sub: Option<SubId>,
    at: WallTime,
    keep: bool,
    after: Subscriber,
)
    requires
        before.stepped(diag, diag_sub, at, keep, after),
    ensures
        ({
            let wanted = before.filter_sub is None || (diag_sub is Some && before.filter_sub
                == diag_sub);
            let n = before.tx.log().len();
            let log = after.tx.log();
            &&& !wanted ==> log == before.tx.log() && keep && after.missed == before.missed
            &&& wanted ==> log.len() > n
            &&& before.tx.log().is_prefix_of(log)
            &&& wanted && before.missed == 0 ==> log.len() == n + 1 && log[n as int].0 == (
            BrokerEvent::Diag { diag, at })
            &&& wanted && before.missed > 0 ==> log[n as int].0 == (BrokerEvent::Missed {
                count: before.missed,
                at,
            }) && (log[n as int].1 == Verdict::Sent <==> log.len() == n + 2) && log.len() <= n + 2
            &&& log.len() == n + 2 ==> log[n as int + 1].0 == (BrokerEvent::Diag { diag, at })
            &&& wanted ==> (keep <==> log.last().1 != Verdict::Disconnected)
        }),
        after.filter_sub == before.filter_sub,
        after.tx.tx() == before.tx.tx(),
{
    let n = before.tx.log().len() as int;
    assert(before.tx.log() =~= after.tx.log().subrange(0, n));
}

/// One diagnostic as a listener meets it: itself, the subscription it names
/// and the moment.
pub type Offer = (Arc<Diagnostic>, Option<SubId>, WallTime);

/// Whether `states` are those of one listener while the `offers` come one
/// after the other, and it stays through all of them.
pub open spec fn followed(states: Seq<Subscriber>, offers: Seq<Offer>) -> bool {
    &&& states.len() == offers.len() + 1
    &&& forall|i: int|
        #![trigger offers[i]]
        0 <= i < offers.len() ==> states[i].stepped(
            offers[i].0,
            offers[i].1,
            offers[i].2,
            true,
            states[i + 1],
        )
}

/// How many of the offers are for the listener.
pub open spec fn wanted(sub: Subscriber, offers: Seq<Offer>) -> nat
    decreases offers.len(),
{
    if offers.len() == 0 {
        0
    } else {
        wanted(sub, offers.drop_last()) + if sub.spec_wants(offers.last().1) {
            1nat
        } else {
            0nat
        }
    }
}

/// One diagnostic for a listener that stays adds one to what it got, was told
/// of and is owed, taken together; any other adds nothing.
pub proof fn law_losses_are_counted(
    before: Subscriber,
    diag: Arc<Diagnostic>,
    diag_sub: Option<SubId>,
    at: WallTime,
    after: Subscriber,
)
    requires
        before.stepped(diag, diag_sub, at, true, after),
        before.missed < u32::MAX,
    ensures
        delivered(after.tx.log()) + told(after.tx.log()) + after.missed == delivered(
            before.tx.log(),
        ) + told(before.tx.log()) + before.missed + (if before.spec_wants(diag_sub) {
            1int
        } else {
            0
        }),
{
    let log = before.tx.log();
    let grown = after.tx.log();
    let n = log.len() as int;
    if before.spec_wants(diag_sub) {
        if before.missed > 0 && grown[n].1 == Verdict::Sent {
            let told_first = log.push(grown[n]);
            assert(grown.drop_last() =~= told_first);
            assert(told_first.drop_last() =~= log);
            assert(delivered(told_first) == delivered(log));
            assert(told(told_first) == told(log) + before.missed);
        } else {
            assert(grown.drop_last() =~= log);
        }
    }
}

/// No loss goes uncounted: through any number of diagnostics, those for a
/// listener are as many as it got, was told of and is still owed, as long as
/// its count has room.
pub proof fn law_every_diagnostic_is_accounted_for(states: Seq<Subscriber>, offers: Seq<Offer>)
    requires
        followed(states, offers),
        states[0].missed == 0,
        states[0].tx.log().len() == 0,
        forall|i: int| 0 <= i < states.len() ==> (#[trigger] states[i]).missed < u32::MAX,
    ensures
        wanted(states[0], offers) == delivered(states.last().tx.log()) + told(
            states.last().tx.log(),
        ) + states.last().missed,
        states.last().filter_sub == states[0].filter_sub,
    decreases offers.len(),
{
    if offers.len() > 0 {
        let shorter = states.drop_last();
        let fewer = offers.drop_last();
        let k = fewer.len() as int;
        assert forall|i: int| #![trigger fewer[i]] 0 <= i < fewer.len() implies shorter[i].stepped(
            fewer[i].0,
            fewer[i].1,
            fewer[i].2,
            true,
            shorter[i + 1],
        ) by {
            assert(offers[i] == fewer[i]);
            assert(shorter[i] == states[i]);
            assert(shorter[i + 1] == states[i + 1]);
        }
        assert forall|i: int| 0 <= i < shorter.len() implies (#[trigger] shorter[i]).missed
            < u32::MAX by {
            assert(shorter[i] == states[i]);
        }
        law_every_diagnostic_is_accounted_for(shorter, fewer);
        assert(shorter.last() == states[k]);
        assert(offers[k] == offers.last());
        law_losses_are_counted(states[k], offers[k].0, offers[k].1, offers[k].2, states[k + 1]);
    }
}

/// A listener that is behind is told of its losses, and of all of them, before
/// it is offered another diagnostic: in the account of what it was offered,
/// the report that got through stands right before the diagnostic.
pub proof fn law_losses_are_told_first(
    before: Subscriber,
    diag: Arc<Diagnostic>,
    diag_sub: Option<SubId>,
    at: WallTime,
    keep: bool,
    after: Subscriber,
    k: int,
)
    requires
        before.stepped(diag, diag_sub, at, keep, after),
        before.missed > 0,
        before.tx.log().len() <= k < after.tx.log().len(),
        after.tx.log()[k].0 is Diag,
    ensures
        k == before.tx.log().len() + 1,
        after.tx.log()[k - 1] == (
            BrokerEvent::Missed { count: before.missed, at },
            Verdict::Sent,
        ),
{
}

/// All listeners, in the order they came.
pub struct Broker {
    pub subs: Vec<Subscriber>,
}

/// The listeners that stay, in their order.
pub open spec fn staying(all: Seq<Subscriber>, keeps: Seq<bool>) -> Seq<Subscriber>
    decreases keeps.len(),
{
    if keeps.len() == 0 {
        Seq::empty()
    } else {
        let before = staying(all, keeps.drop_last());
        if keeps.last() {
            before.push(all[keeps.len() - 1])
        } else {
            before
        }
    }
}

/// Whether `after` are those of `before` who stay through one diagnostic, in
/// their order, each as it leaves them.
pub open spec fn fanned_out(
    before: Seq<Subscriber>,
    diag: Arc<Diagnostic>,
    at: WallTime,
    after: Seq<Subscriber>,
) -> bool {
    exists|all: Seq<Subscriber>, keeps: Seq<bool>|
        #[trigger] each_stepped(before, diag, at, keeps, all) && after == staying(all, keeps)
}

/// Whether `all` is what one diagnostic leaves of each of `before`, and
/// `keeps` tells who stays.
pub open spec fn each_stepped(
    before: Seq<Subscriber>,
    diag: Arc<Diagnostic>,
    at: WallTime,
    keeps: Seq<bool>,
    all: Seq<Subscriber>,
) -> bool {
    &&& keeps.len() == before.len()
    &&& all.len() == before.len()
    &&& forall|k: int|
        0 <= k < before.len() ==> (#[trigger] before[k]).stepped(
            diag,
            forward::subject(*diag),
            at,
            keeps[k],
            all[k],
        )
}

/// Every listener is offered the diagnostic, by its own subscription, and only
/// those that are gone are let go: all others stay, in their order.
pub proof fn law_only_those_who_are_gone_are_let_go(
    before: Seq<Subscriber>,
    diag: Arc<Diagnostic>,
    at: WallTime,
    after: Seq<Subscriber>,
)
    requires
        fanned_out(before, diag, at, after),
    ensures
        exists|all: Seq<Subscriber>, keeps: Seq<bool>|
            #![trigger each_stepped(before, diag, at, keeps, all)]
            {
                &&& all.len() == before.len() == keeps.len()
                &&& forall|k: int|
                    0 <= k < before.len() ==> (#[trigger] before[k]).stepped(
                        diag,
                        forward::subject(*diag),
                        at,
                        keeps[k],
                        all[k],
                    )
                &&& after.len() == keeps.filter(|keep: bool| keep).len()
                &&& (forall|k: int| 0 <= k < keeps.len() ==> #[trigger] keeps[k]) ==> after == all
                &&& forall|k: int|
                    0 <= k < keeps.len() && #[trigger] keeps[k] ==> #[trigger] after.contains(
                        all[k],
                    )
            },
{
    let (all, keeps) = choose|all: Seq<Subscriber>, keeps: Seq<bool>|
        #[trigger] each_stepped(before, diag, at, keeps, all) && after == staying(all, keeps);
    lemma_staying(all, keeps);
    assert(after.len() == keeps.filter(|keep: bool| keep).len());
    if forall|k: int| 0 <= k < keeps.len() ==> #[trigger] keeps[k] {
        assert(all.take(keeps.len() as int) =~= all);
    }
}

/// Who stays.
proof fn lemma_staying(all: Seq<Subscriber>, keeps: Seq<bool>)
    requires
        keeps.len() <= all.len(),
    ensures
        staying(all, keeps).len() == keeps.filter(|keep: bool| keep).len(),
        (forall|k: int| 0 <= k < keeps.len() ==> #[trigger] keeps[k]) ==> staying(all, keeps)
            == all.take(keeps.len() as int),
        forall|k: int|
            0 <= k < keeps.len() && #[trigger] keeps[k] ==> staying(all, keeps).contains(all[k]),
    decreases keeps.len(),
{
    reveal(Seq::filter);
    if keeps.len() > 0 {
        let front = keeps.drop_last();
        let last = keeps.len() - 1;
        lemma_staying(all, front);
        let before = staying(all, front);
        if forall|k: int| 0 <= k < keeps.len() ==> #[trigger] keeps[k] {
            assert forall|k: int| 0 <= k < front.len() implies #[trigger] front[k] by {
                assert(keeps[k]);
            }
            assert(keeps[last]);
            assert(all.take(keeps.len() as int) =~= all.take(last).push(all[last]));
        }
        assert forall|k: int| 0 <= k < keeps.len() && #[trigger] keeps[k] implies staying(
            all,
            keeps,
        ).contains(all[k]) by {
            if k < last {
                assert(front[k]);
                let p = choose|p: int| 0 <= p < before.len() && before[p] == all[k];
                assert(staying(all, keeps)[p] == all[k]);
            } else {
                assert(staying(all, keeps)[before.len() as int] == all[k]);
            }
        }
    } else {
        assert(all.take(0) =~= Seq::empty());
    }
}

/// What stays of a longer list of listeners does not depend on its tail.
proof fn lemma_staying_ignores_the_tail(all: Seq<Subscriber>, more: Subscriber, keeps: Seq<bool>)
    requires
        keeps.len() <= all.len(),
    ensures
        staying(all.push(more), keeps) == staying(all, keeps),
    decreases keeps.len(),
{
    if keeps.len() > 0 {
        lemma_staying_ignores_the_tail(all, more, keeps.drop_last());
    }
}

/// Whether `after` is `before` with a listener behind it.
pub open spec fn taken_on(
    before: Seq<Subscriber>,
    tx: crossbeam::channel::Sender<BrokerEvent>,
    filter_sub: Option<SubId>,
    after: Seq<Subscriber>,
) -> bool {
    let sub = after.last();
    &&& after.len() == before.len() + 1
    &&& after.drop_last() == before
    &&& sub.tx.tx() == tx
    &&& sub.tx.log().len() == 0
    &&& sub.missed == 0
    &&& sub.filter_sub == filter_sub
}

/// A new listener stands behind the others, who stay as they are; it has missed
/// nothing, and the first diagnostic it is offered is one that it asked for.
pub proof fn law_a_new_listener_starts_afresh(
    before: Seq<Subscriber>,
    tx: crossbeam::channel::Sender<BrokerEvent>,
    filter_sub: Option<SubId>,
    after: Seq<Subscriber>,
    diag: Arc<Diagnostic>,
    diag_sub: Option<SubId>,
    at: WallTime,
    keep: bool,
    next: Subscriber,
)
    requires
        taken_on(before, tx, filter_sub, after),
        after.last().stepped(diag, diag_sub, at, keep, next),
    ensures
        after.len() == before.len() + 1,
        forall|i: int| 0 <= i < before.len() ==> after[i] == #[trigger] before[i],
        filter_sub is None || (diag_sub is Some && filter_sub == diag_sub) ==> next.tx.log().len()
            == 1 && next.tx.log()[0].0 == (BrokerEvent::Diag { diag, at }),
        !(filter_sub is None || (diag_sub is Some && filter_sub == diag_sub)) ==> next.tx.log().len()
            == 0,
        next.tx.tx() == tx,
{
    assert forall|i: int| 0 <= i < before.len() implies after[i] == #[trigger] before[i] by {
        assert(after.drop_last()[i] == after[i]);
    }
    law_a_listener_is_offered_its_own(after.last(), diag, diag_sub, at, keep, next);
}

impl Broker {
    /// No listeners.
    pub fn new() -> (broker: Broker)
        ensures
            broker.subs@ == Seq::<Subscriber>::empty(),
    {
        Broker { subs: Vec::new() }
    }

    /// Takes on a listener.
    pub fn add_subscriber(
        &mut self,
        tx: crossbeam::channel::Sender<BrokerEvent>,
        filter_sub: Option<SubId>,
    )
        ensures
            taken_on(old(self).subs@, tx, filter_sub, final(self).subs@),
    {
        self.subs.push(Subscriber { tx: Port::new(tx), missed: 0, filter_sub });
        assert(self.subs@.drop_last() =~= old(self).subs@);
    }

    /// Offers one diagnostic to every listener, in the order they came, and
    /// lets go of those who are gone.
    pub fn dispatch(&mut self, diag: &Arc<Diagnostic>, at: WallTime)
        ensures
            fanned_out(old(self).subs@, *diag, at, final(self).subs@),
    {
        let diag_sub: Option<SubId> = forward::diag_sub_id(&**diag);
        let ghost before = self.subs@;
        let ghost mut all: Seq<Subscriber> = Seq::empty();
        let ghost mut keeps: Seq<bool> = Seq::empty();
        let mut i: usize = 0;
        assert(self.subs@.take(0) =~= Seq::empty());
        while i < self.subs.len()
            invariant
                diag_sub == forward::subject(**diag),
                all.len() == keeps.len() <= before.len(),
                i <= self.subs@.len(),
                self.subs@.take(i as int) == staying(all, keeps),
                self.subs@.skip(i as int) == before.skip(keeps.len() as int),
                forall|k: int|
                    0 <= k < keeps.len() ==> (#[trigger] before[k]).stepped(
                        *diag,
                        diag_sub,
                        at,
                        keeps[k],
                        all[k],
                    ),
            decreases self.subs@.len() - i,
        {
            let ghost now = self.subs@;
            let ghost k = keeps.len() as int;
            let ghost done = keeps;
            assert(now.skip(i as int)[0] == now[i as int]);
            assert(now.skip(i as int).len() == before.skip(k).len());
            assert(before.skip(k)[0] == before[k]);
            let keep: bool = self.subs[i].step(diag, diag_sub, at);
            proof {
                lemma_staying_ignores_the_tail(all, self.subs@[i as int], done);
                all = all.push(self.subs@[i as int]);
                keeps = keeps.push(keep);
                assert(keeps.drop_last() =~= done);
                assert(before.skip(k).skip(1) =~= before.skip(k + 1));
                assert(now.skip(i as int).skip(1) =~= now.skip(i + 1));
            }
            if keep {
                i = i + 1;
                assert(self.subs@.take(i as int) =~= now.take(i - 1).push(all[k]));
                assert(self.subs@.skip(i as int) =~= now.skip(i as int));
            } else {
                let _ = self.subs.remove(i);
                assert(self.subs@.take(i as int) =~= now.take(i as int));
                assert(self.subs@.skip(i as int) =~= now.skip(i + 1));
            }
        }
        proof {
            assert(self.subs@.take(i as int) =~= self.subs@);
            assert(before.skip(keeps.len() as int).len() == 0);
            assert(each_stepped(before, *diag, at, keeps, all));
        }
    }

    /// The number of listeners.
    pub fn len(&self) -> (count: usize)
        ensures
            count == self.subs@.len(),
    {
        self.subs.len()
    }
}

impl Default for Broker {
    fn default() -> (broker: Self)
        ensures
            broker.subs@ == Seq::<Subscriber>::empty(),
    {
        Broker::new()
    }
}

} // verus!
