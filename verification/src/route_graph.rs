//! Logical subscriptions and their transport realization.
//!
//! Explicit receiver intent survives while no publication is attached. A current
//! publication realizes as absent, then pending, then committed. A failed setup,
//! a router rejection and a replacement of the receiver return it to absent.
//! Reservation numbers reject a completion that arrives after the source was
//! detached or replaced.
//!
//! Relays between workers are shared by subscriptions with the same source and
//! target worker; the relay table of a graph holds exactly the shares that the
//! realizations of its subscriptions carry.

use vstd::prelude::*;

use crate::ids::{
    same, ConnectionId, MediaWorkerId, PublishedSourceId, RoutedConsumerId, TransportMediaId,
    UserId, UserIdentity,
};
use crate::key_index::{
    filed_under, ids_of, in_order, lemma_in_order, lists, KeyIndex,
};
use crate::ord_map::{increasing, lemma_increasing_distinct, OrdMap};
use crate::order::OrdKey;
use crate::relay::{
    owns, relayed_to, with_owner, with_owner_effects, without_owner, without_owner_effects,
    Relays, RelayTable, RouteRelay,
};
use crate::source_model::{
    ConsumerSourceSelection, Moment, PolicyPauseReason, SourceSelector, SourceSubscriptionIntent,
};
use crate::transport::{
    ConsumerActivity, RelayIdentity, RelayRouteActivity, RelayRouteKey, SubscriptionIdentity,
    SubscriptionKey, TransportConsumerRoute, TransportRelayRouteEffect, TransportSessionKey,
    TransportSourceKey,
};

verus! {

/// A better encoding that a receiver is about to be given.
///
/// Eligibility has to last until the deadline for this exact target.
#[derive(Debug, Clone, Copy, PartialEq, Eq)]
pub struct PendingUpgrade {
    pub selector: SourceSelector,
    pub deadline: Moment,
}

/// A consumer route that transport declared and the router accepted.
#[derive(Debug)]
pub struct CommittedConsumerRoute {
    pub route: TransportConsumerRoute,
    pub mid: String,
    pub routed: RoutedConsumerId,
    pub relay: Option<RouteRelay>,
    pub pending_upgrade: Option<PendingUpgrade>,
}

/// How far an attached publication got towards its receiver.
#[derive(Debug)]
pub enum ConsumerRealization {
    Absent,
    Pending(u64, Option<RouteRelay>),
    Committed(CommittedConsumerRoute),
}

/// The publication attached to a subscription.
#[derive(Debug)]
pub struct CurrentPublication {
    pub source_id: PublishedSourceId,
    pub selection: ConsumerSourceSelection,
    pub realization: ConsumerRealization,
}

/// What a receiver asked of a stream, and the publication it currently has.
#[derive(Debug)]
pub struct Subscription {
    pub intent: SourceSubscriptionIntent,
    pub current: Option<CurrentPublication>,
}

/// A claim on a pending realization.
#[derive(Debug)]
pub struct ConsumerRouteReservation {
    pub(crate) key: SubscriptionKey,
    pub(crate) source_id: PublishedSourceId,
    pub(crate) declared_activity: ConsumerActivity,
    pub(crate) id: u64,
}

impl ConsumerRouteReservation {
    pub closed spec fn key_id(&self) -> SubscriptionIdentity {
        self.key.id()
    }

    pub closed spec fn source(&self) -> PublishedSourceId {
        self.source_id
    }

    pub closed spec fn activity(&self) -> ConsumerActivity {
        self.declared_activity
    }

    pub closed spec fn number(&self) -> u64 {
        self.id
    }

    pub fn declared_activity(&self) -> (r: ConsumerActivity)
        ensures
            r == self.activity(),
    {
        self.declared_activity
    }
}

/// Transport routes, router consumers and relay work of removed realizations.
#[derive(Debug)]
pub struct RemovedRoutes {
    pub routes: Vec<TransportConsumerRoute>,
    pub consumers: Vec<RoutedConsumerId>,
    pub relays: Vec<TransportRelayRouteEffect>,
}

impl RemovedRoutes {
    pub fn new() -> (r: Self)
        ensures
            r.routes@ == Seq::<TransportConsumerRoute>::empty(),
            r.consumers@ == Seq::<RoutedConsumerId>::empty(),
            r.relays@ == Seq::<TransportRelayRouteEffect>::empty(),
    {
        RemovedRoutes { routes: Vec::new(), consumers: Vec::new(), relays: Vec::new() }
    }

    pub fn extend(&mut self, other: Self)
        ensures
            final(self).routes@ == old(self).routes@ + other.routes@,
            final(self).consumers@ == old(self).consumers@ + other.consumers@,
            final(self).relays@ == old(self).relays@ + other.relays@,
    {
        let mut other = other;
        self.routes.append(&mut other.routes);
        self.consumers.append(&mut other.consumers);
        self.relays.append(&mut other.relays);
    }
}

impl ConsumerRealization {
    /// The relay share that the realization carries.
    pub open spec fn share(self) -> Option<RouteRelay> {
        match self {
            ConsumerRealization::Absent => None,
            ConsumerRealization::Pending(_, relay) => relay,
            ConsumerRealization::Committed(committed) => committed.relay,
        }
    }

    /// The reservation that the realization waits for.
    pub open spec fn awaited(self) -> Option<u64> {
        match self {
            ConsumerRealization::Pending(id, _) => Some(id),
            _ => None,
        }
    }

    pub open spec fn without_upgrade(self) -> Self {
        match self {
            ConsumerRealization::Committed(committed) => ConsumerRealization::Committed(
                CommittedConsumerRoute { pending_upgrade: None, ..committed },
            ),
            other => other,
        }
    }

    /// The same realization with its relay share at another activity.
    pub open spec fn retuned(self, activity: RelayRouteActivity) -> Self {
        match self {
            ConsumerRealization::Absent => self,
            ConsumerRealization::Pending(id, relay) => ConsumerRealization::Pending(
                id,
                share_at_activity(relay, activity),
            ),
            ConsumerRealization::Committed(committed) => ConsumerRealization::Committed(
                CommittedConsumerRoute {
                    relay: share_at_activity(committed.relay, activity),
                    ..committed
                },
            ),
        }
    }

    /// Sets the activity of the relay share and returns a share that changed.
    fn set_relay_activity(&mut self, activity: RelayRouteActivity) -> (r: Option<RouteRelay>)
        ensures
            *final(self) == old(self).retuned(activity),
            match old(self).share() {
                Some(relay) => if relay.activity == activity {
                    r is None
                } else {
                    r == Some(RouteRelay { activity, ..relay })
                },
                None => r is None,
            },
    {
        match self {
            ConsumerRealization::Absent => None,
            ConsumerRealization::Pending(_, relay) => retune(relay, activity),
            ConsumerRealization::Committed(committed) => retune(&mut committed.relay, activity),
        }
    }
}

pub open spec fn share_at_activity(
    relay: Option<RouteRelay>,
    activity: RelayRouteActivity,
) -> Option<RouteRelay> {
    match relay {
        Some(relay) => Some(RouteRelay { activity, ..relay }),
        None => None,
    }
}

fn retune(relay: &mut Option<RouteRelay>, activity: RelayRouteActivity) -> (r: Option<RouteRelay>)
    ensures
        *final(relay) == share_at_activity(*old(relay), activity),
        match *old(relay) {
            Some(relay) => if relay.activity == activity {
                r is None
            } else {
                r == Some(RouteRelay { activity, ..relay })
            },
            None => r is None,
        },
{
    match relay {
        None => None,
        Some(share) => {
            if share.activity == activity {
                None
            } else {
                share.activity = activity;
                Some(share.clone())
            }
        },
    }
}

impl CurrentPublication {
    /// Receiver intent applied; a paused route has no upgrade to wait for.
    pub open spec fn activated(self, active: bool) -> Self {
        CurrentPublication {
            selection: self.selection.with_active(active),
            realization: if active {
                self.realization
            } else {
                self.realization.without_upgrade()
            },
            ..self
        }
    }

    pub open spec fn upgrade_cleared(self) -> Self {
        CurrentPublication { realization: self.realization.without_upgrade(), ..self }
    }

    fn set_active(&mut self, active: bool)
        ensures
            *final(self) == old(self).activated(active),
    {
        self.selection.set_active(active);
        if !active {
            self.clear_upgrade();
        }
    }

    fn clear_upgrade(&mut self)
        ensures
            *final(self) == old(self).upgrade_cleared(),
    {
        match &mut self.realization {
            ConsumerRealization::Committed(committed) => {
                committed.pending_upgrade = None;
            },
            _ => {},
        }
    }

    pub fn is_pending(&self) -> (r: bool)
        ensures
            r == (self.realization is Pending),
    {
        matches!(self.realization, ConsumerRealization::Pending(..))
    }

    pub fn committed(&self) -> (r: Option<&CommittedConsumerRoute>)
        ensures
            match self.realization {
                ConsumerRealization::Committed(committed) => r == Some(&committed),
                _ => r is None,
            },
    {
        match &self.realization {
            ConsumerRealization::Committed(committed) => Some(committed),
            _ => None,
        }
    }
}

impl Subscription {
    /// A record that says nothing.
    pub open spec fn blank() -> Self {
        Subscription { intent: SourceSubscriptionIntent::nothing(), current: None }
    }

    pub open spec fn share(self) -> Option<RouteRelay> {
        match self.current {
            Some(current) => current.realization.share(),
            None => None,
        }
    }

    pub open spec fn awaited(self) -> Option<u64> {
        match self.current {
            Some(current) => current.realization.awaited(),
            None => None,
        }
    }

    /// A setup is under way or a route is committed.
    pub open spec fn realizing(self) -> bool {
        self.current matches Some(current) && !(current.realization is Absent)
    }

    pub open spec fn routed(self) -> bool {
        self.current matches Some(current) && current.realization is Committed
    }

    fn new() -> (r: Self)
        ensures
            r == Self::blank(),
    {
        Subscription { intent: SourceSubscriptionIntent::default(), current: None }
    }
}

/// Subscriptions by identity.
pub type Subscriptions = Map<SubscriptionIdentity, Subscription>;

/// A route graph as mathematics.
#[verifier::ext_equal]
pub struct Graph {
    pub subscriptions: Subscriptions,
    pub relays: Relays,
    /// The last reservation number given out.
    pub reservations: u64,
}

/// The record of a subscription, blank where there is none.
pub open spec fn record(subs: Subscriptions, k: SubscriptionIdentity) -> Subscription {
    if subs.contains_key(k) {
        subs[k]
    } else {
        Subscription::blank()
    }
}

/// The publication attached to a subscription.
pub open spec fn attachment(subs: Subscriptions, k: SubscriptionIdentity) -> Option<
    CurrentPublication,
> {
    record(subs, k).current
}

/// Whether this publication is attached.
pub open spec fn attached_to(
    subs: Subscriptions,
    k: SubscriptionIdentity,
    source: PublishedSourceId,
) -> bool {
    attachment(subs, k) matches Some(current) && current.source_id == source
}

/// Subscriptions with this publication.
pub open spec fn attached_keys(subs: Subscriptions, source: PublishedSourceId) -> Set<
    SubscriptionIdentity,
> {
    Set::new(|k: SubscriptionIdentity| attached_to(subs, k, source))
}

/// Subscriptions of this receiver.
pub open spec fn receiver_keys(subs: Subscriptions, receiver: UserIdentity) -> Set<
    SubscriptionIdentity,
> {
    Set::new(|k: SubscriptionIdentity| subs.contains_key(k) && k.receiver == receiver)
}

/// The relay table holds exactly the shares of the realizations.
pub open spec fn shares_agree(subs: Subscriptions, relays: Relays) -> bool {
    &&& forall|k: SubscriptionIdentity, r: RelayIdentity| #[trigger]
        owns(relays, k, r) <==> (record(subs, k).share() matches Some(share) && share.route.id()
            == r)
    &&& forall|k: SubscriptionIdentity, r: RelayIdentity| #[trigger]
        owns(relays, k, r) ==> relays[r][k] == record(subs, k).share()->0.activity
    &&& forall|r: RelayIdentity| #[trigger]
        relays.contains_key(r) ==> exists|k: SubscriptionIdentity| owns(relays, k, r)
}

/// Every awaited reservation was given out, to one subscription.
pub open spec fn reservations_agree(subs: Subscriptions, reservations: u64) -> bool {
    &&& forall|k: SubscriptionIdentity|
        (#[trigger] record(subs, k)).awaited() matches Some(id) ==> id <= reservations
    &&& forall|k: SubscriptionIdentity, l: SubscriptionIdentity|
        (#[trigger] record(subs, k)).awaited() is Some && record(subs, k).awaited() == (
        #[trigger] record(subs, l)).awaited() ==> k == l
}

impl Graph {
    pub open spec fn consistent(self) -> bool {
        &&& shares_agree(self.subscriptions, self.relays)
        &&& reservations_agree(self.subscriptions, self.reservations)
    }

    /// No reservation that was given out and is no longer awaited comes back.
    pub open spec fn revives_nothing_of(self, earlier: Graph) -> bool {
        &&& earlier.reservations <= self.reservations
        &&& forall|k: SubscriptionIdentity, id: u64|
            #![trigger awaits(self.subscriptions, k, id)]
            awaits(self.subscriptions, k, id) && id <= earlier.reservations ==> awaits(
                earlier.subscriptions,
                k,
                id,
            )
    }
}

/// Whether a subscription waits for this reservation.
pub open spec fn awaits(subs: Subscriptions, k: SubscriptionIdentity, id: u64) -> bool {
    record(subs, k).awaited() == Some(id)
}

/// The relays once the share of one subscription went from `from` to `to`.
pub open spec fn move_share(
    relays: Relays,
    k: SubscriptionIdentity,
    from: Option<RouteRelay>,
    to: Option<RouteRelay>,
) -> Relays {
    let kept = match (from, to) {
        (Some(from), Some(to)) => if from.route.id() == to.route.id() {
            relays
        } else {
            without_owner(relays, k, from.route.id())
        },
        (Some(from), None) => without_owner(relays, k, from.route.id()),
        (None, _) => relays,
    };
    match to {
        Some(to) => with_owner(kept, k, to),
        None => kept,
    }
}

/// Releasing a share keeps the agreement of all other shares.
proof fn lemma_release(
    relays: Relays,
    k: SubscriptionIdentity,
    r: RelayIdentity,
)
    requires
        forall|q: RelayIdentity| #[trigger]
            relays.contains_key(q) ==> exists|l: SubscriptionIdentity| owns(relays, l, q),
    ensures
        ({
            let after = without_owner(relays, k, r);
            &&& forall|l: SubscriptionIdentity, q: RelayIdentity| #[trigger]
                owns(after, l, q) <==> owns(relays, l, q) && !(l == k && q == r)
            &&& forall|l: SubscriptionIdentity, q: RelayIdentity| #[trigger]
                owns(after, l, q) ==> after[q][l] == relays[q][l]
            &&& forall|q: RelayIdentity| #[trigger]
                after.contains_key(q) ==> exists|l: SubscriptionIdentity| owns(after, l, q)
        }),
{
    let after = without_owner(relays, k, r);
    if owns(relays, k, r) {
        let rest = relays[r].remove(k);
        if rest == Map::<SubscriptionIdentity, RelayRouteActivity>::empty() {
            assert forall|l: SubscriptionIdentity| #[trigger]
                relays[r].contains_key(l) implies l == k by {
                if l != k {
                    assert(rest.contains_key(l));
                }
            }
        } else {
            assert(exists|l: SubscriptionIdentity| rest.contains_key(l)) by {
                if forall|l: SubscriptionIdentity| !rest.contains_key(l) {
                    assert(rest =~= Map::<SubscriptionIdentity, RelayRouteActivity>::empty());
                }
            }
            let l = choose|l: SubscriptionIdentity| rest.contains_key(l);
            assert(owns(after, l, r));
        }
        assert forall|q: RelayIdentity| #[trigger] after.contains_key(q) implies exists|
            l: SubscriptionIdentity,
        | owns(after, l, q) by {
            if q != r {
                let l = choose|l: SubscriptionIdentity| owns(relays, l, q);
                assert(owns(after, l, q));
            }
        }
    }
}

/// Moving one share keeps the agreement.
proof fn lemma_move_share(
    subs: Subscriptions,
    relays: Relays,
    k: SubscriptionIdentity,
    changed: Subscriptions,
)
    requires
        shares_agree(subs, relays),
        forall|l: SubscriptionIdentity|
            l != k ==> (#[trigger] record(changed, l)).share() == record(subs, l).share(),
    ensures
        shares_agree(
            changed,
            move_share(relays, k, record(subs, k).share(), record(changed, k).share()),
        ),
{
    let from = record(subs, k).share();
    let to = record(changed, k).share();
    let after = move_share(relays, k, from, to);
    match (from, to) {
        (Some(from), Some(to)) => {
            if from.route.id() != to.route.id() {
                lemma_release(relays, k, from.route.id());
            }
            let kept = if from.route.id() == to.route.id() {
                relays
            } else {
                without_owner(relays, k, from.route.id())
            };
            lemma_add(kept, k, to);
        },
        (Some(from), None) => {
            lemma_release(relays, k, from.route.id());
        },
        (None, Some(to)) => {
            lemma_add(relays, k, to);
        },
        (None, None) => {},
    }
    assert forall|l: SubscriptionIdentity, r: RelayIdentity| #[trigger]
        owns(after, l, r) <==> (record(changed, l).share() matches Some(share) && share.route.id()
            == r) by {
        if l != k {
            assert(record(changed, l).share() == record(subs, l).share());
            assert(owns(relays, l, r) <==> owns(after, l, r));
        } else {
            assert(owns(relays, k, r) <==> (from matches Some(share) && share.route.id() == r));
        }
    }
    assert forall|l: SubscriptionIdentity, r: RelayIdentity| #[trigger]
        owns(after, l, r) implies after[r][l] == record(changed, l).share()->0.activity by {
        if l != k {
            assert(record(changed, l).share() == record(subs, l).share());
            assert(owns(relays, l, r));
        }
    }
}

proof fn lemma_add(relays: Relays, k: SubscriptionIdentity, to: RouteRelay)
    requires
        forall|q: RelayIdentity| #[trigger]
            relays.contains_key(q) ==> exists|l: SubscriptionIdentity| owns(relays, l, q),
    ensures
        ({
            let after = with_owner(relays, k, to);
            &&& forall|l: SubscriptionIdentity, q: RelayIdentity| #[trigger]
                owns(after, l, q) <==> owns(relays, l, q) || (l == k && q == to.route.id())
            &&& forall|l: SubscriptionIdentity, q: RelayIdentity| #[trigger]
                owns(after, l, q) ==> after[q][l] == if l == k && q == to.route.id() {
                    to.activity
                } else {
                    relays[q][l]
                }
            &&& forall|q: RelayIdentity| #[trigger]
                after.contains_key(q) ==> exists|l: SubscriptionIdentity| owns(after, l, q)
        }),
{
    let after = with_owner(relays, k, to);
    assert forall|q: RelayIdentity| #[trigger] after.contains_key(q) implies exists|
        l: SubscriptionIdentity,
    | owns(after, l, q) by {
        if q == to.route.id() {
            assert(owns(after, k, q));
        } else {
            let l = choose|l: SubscriptionIdentity| owns(relays, l, q);
            assert(owns(after, l, q));
        }
    }
}

/// A share that does not move leaves the relays alone.
proof fn lemma_unmoved(subs: Subscriptions, relays: Relays, k: SubscriptionIdentity)
    requires
        shares_agree(subs, relays),
    ensures
        move_share(relays, k, record(subs, k).share(), record(subs, k).share()) == relays,
{
    if let Some(share) = record(subs, k).share() {
        let id = share.route.id();
        assert(owns(relays, k, id));
        assert(relays[id].insert(k, share.activity) =~= relays[id]);
        assert(with_owner(relays, k, share) =~= relays);
    }
}

/// Replacing one record keeps a graph consistent when the relays follow its share
/// and a reservation it waits for is its own or a fresh one.
proof fn lemma_replace(g: Graph, k: SubscriptionIdentity, changed: Graph)
    requires
        g.consistent(),
        forall|l: SubscriptionIdentity|
            l != k ==> #[trigger] record(changed.subscriptions, l) == record(g.subscriptions, l),
        changed.relays == move_share(
            g.relays,
            k,
            record(g.subscriptions, k).share(),
            record(changed.subscriptions, k).share(),
        ) || (changed.relays == g.relays && record(g.subscriptions, k).share() == record(
            changed.subscriptions,
            k,
        ).share()),
        g.reservations <= changed.reservations,
        match record(changed.subscriptions, k).awaited() {
            Some(id) => record(g.subscriptions, k).awaited() == Some(id) || (g.reservations < id
                <= changed.reservations),
            None => true,
        },
    ensures
        changed.consistent(),
        changed.revives_nothing_of(g),
{
    lemma_unmoved(g.subscriptions, g.relays, k);
    lemma_move_share(g.subscriptions, g.relays, k, changed.subscriptions);
    assert forall|a: SubscriptionIdentity, b: SubscriptionIdentity|
        (#[trigger] record(changed.subscriptions, a)).awaited() is Some && record(
            changed.subscriptions,
            a,
        ).awaited() == (#[trigger] record(changed.subscriptions, b)).awaited() implies a == b by {
        assert(record(g.subscriptions, a).awaited() is Some ==> record(
            g.subscriptions,
            a,
        ).awaited()->0 <= g.reservations);
        assert(record(g.subscriptions, b).awaited() is Some ==> record(
            g.subscriptions,
            b,
        ).awaited()->0 <= g.reservations);
    }
    assert forall|a: SubscriptionIdentity|
        (#[trigger] record(changed.subscriptions, a)).awaited() is Some implies record(
            changed.subscriptions,
            a,
        ).awaited()->0 <= changed.reservations by {
        assert(record(g.subscriptions, a).awaited() is Some ==> record(
            g.subscriptions,
            a,
        ).awaited()->0 <= g.reservations);
    }
}

/// Subscriptions and the receivers they belong to.
pub open spec fn receiver_pairs(subs: Subscriptions) -> Set<(UserIdentity, SubscriptionIdentity)> {
    Set::new(
        |pair: (UserIdentity, SubscriptionIdentity)|
            subs.contains_key(pair.1) && pair.1.receiver == pair.0,
    )
}

/// Subscriptions and the publications attached to them.
pub open spec fn source_pairs(subs: Subscriptions) -> Set<(u64, SubscriptionIdentity)> {
    Set::new(
        |pair: (u64, SubscriptionIdentity)|
            attached_to(subs, pair.1, PublishedSourceId(pair.0)),
    )
}

/// Subscriptions of a room, by receiver and by publication, and their relays.
pub struct RouteGraph {
    entries: OrdMap<SubscriptionKey, Subscription>,
    by_receiver: KeyIndex<UserId>,
    by_source: KeyIndex<PublishedSourceId>,
    relays: RelayTable,
    next_reservation: u64,
}

impl RouteGraph {
    pub closed spec fn view(&self) -> Graph {
        Graph {
            subscriptions: self.entries@,
            relays: self.relays@,
            reservations: self.next_reservation,
        }
    }

    /// The indexes follow the records, and the graph is consistent.
    pub closed spec fn wf(&self) -> bool {
        &&& self.indexed()
        &&& self@.consistent()
    }

    spec fn indexed(&self) -> bool {
        &&& self.entries.wf()
        &&& self.by_receiver.wf()
        &&& self.by_source.wf()
        &&& self.relays.wf()
        &&& self.by_receiver@ == receiver_pairs(self.entries@)
        &&& self.by_source@ == source_pairs(self.entries@)
    }

    /// A well-formed graph is consistent and finite.
    pub proof fn lemma_consistent(&self)
        requires
            self.wf(),
        ensures
            self@.consistent(),
            self@.subscriptions.dom().finite(),
    {
        self.entries.lemma_contents();
    }

    pub fn new() -> (r: Self)
        ensures
            r.wf(),
            r@ == (Graph {
                subscriptions: Map::empty(),
                relays: Map::empty(),
                reservations: 0,
            }),
    {
        let r = RouteGraph {
            entries: OrdMap::new(),
            by_receiver: KeyIndex::new(),
            by_source: KeyIndex::new(),
            relays: RelayTable::new(),
            next_reservation: 0,
        };
        proof {
            assert(r.by_receiver@ =~= receiver_pairs(r.entries@));
            assert(r.by_source@ =~= source_pairs(r.entries@));
        }
        r
    }

    /// Makes sure that a record exists.
    fn ensure_record(&mut self, key: &SubscriptionKey)
        requires
            old(self).wf(),
        ensures
            final(self).wf(),
            final(self)@.relays == old(self)@.relays,
            final(self)@.reservations == old(self)@.reservations,
            final(self)@.subscriptions == old(self)@.subscriptions.insert(
                key.id(),
                record(old(self)@.subscriptions, key.id()),
            ),
            final(self).by_source == old(self).by_source,
            final(self).relays == old(self).relays,
            final(self)@.revives_nothing_of(old(self)@),
    {
        if self.entries.contains_key(key) {
            proof {
                assert(self@.subscriptions =~= old(self)@.subscriptions.insert(
                    key.id(),
                    record(old(self)@.subscriptions, key.id()),
                ));
            }
        } else {
            self.by_receiver.insert(&key.receiver, key);
            self.entries.insert(key.clone(), Subscription::new());
            proof {
                let g = old(self)@;
                assert(self.by_receiver@ =~= receiver_pairs(self.entries@));
                assert(self.by_source@ =~= source_pairs(self.entries@));
                lemma_replace(g, key.id(), self@);
            }
        }
    }

    /// The last reservation number given out.
    pub fn reservation_count(&self) -> (r: u64)
        ensures
            r == self@.reservations,
    {
        self.next_reservation
    }

    /// Merges sparse intent into a subscription and applies it to an attached
    /// publication. An empty update leaves the graph alone.
    pub fn merge_intent(&mut self, key: &SubscriptionKey, update: SourceSubscriptionIntent)
        requires
            old(self).wf(),
        ensures
            final(self).wf(),
            final(self)@.revives_nothing_of(old(self)@),
            final(self)@ == (Graph {
                subscriptions: intent_merged(old(self)@.subscriptions, key.id(), update),
                ..old(self)@
            }),
    {
        if update.is_empty() {
            return;
        }
        self.ensure_record(key);
        match self.entries.get_mut(key) {
            Some(entry) => {
                entry.intent.merge(update);
                match update.active {
                    Some(active) => {
                        match &mut entry.current {
                            Some(current) => {
                                current.set_active(active);
                            },
                            None => {},
                        }
                    },
                    None => {},
                }
            },
            None => {},
        }
        proof {
            let g = old(self)@;
            assert(self@.subscriptions =~= intent_merged(g.subscriptions, key.id(), update));
            assert(self.by_receiver@ =~= receiver_pairs(self.entries@));
            assert(self.by_source@ =~= source_pairs(self.entries@));
            lemma_replace(g, key.id(), self@);
        }
    }

    /// Merged receiver intent; nothing for a subscription without a record.
    pub fn intent(&self, key: &SubscriptionKey) -> (r: SourceSubscriptionIntent)
        requires
            self.wf(),
        ensures
            r == record(self@.subscriptions, key.id()).intent,
    {
        match self.entries.get(key) {
            Some(entry) => entry.intent,
            None => SourceSubscriptionIntent::default(),
        }
    }

    /// Attaches a publication to a subscription that has none. Returns whether the
    /// publication is attached and waits for a setup.
    pub fn attach_for_setup(&mut self, key: &SubscriptionKey, source_id: PublishedSourceId) -> (r:
        bool)
        requires
            old(self).wf(),
        ensures
            final(self).wf(),
            final(self)@.revives_nothing_of(old(self)@),
            r == attaches(old(self)@.subscriptions, key.id(), source_id),
            final(self)@ == (Graph {
                subscriptions: after_attach(old(self)@.subscriptions, key.id(), source_id),
                ..old(self)@
            }),
    {
        self.ensure_record(key);
        let ghost g = old(self)@;
        let ghost mid = self@;
        match self.entries.get_mut(key) {
            None => false,
            Some(entry) => {
                match &entry.current {
                    Some(current) => {
                        let waits = current.source_id == source_id && matches!(
                            current.realization,
                            ConsumerRealization::Absent
                        );
                        proof {
                            assert(self@.subscriptions =~= mid.subscriptions);
                        }
                        waits
                    },
                    None => {
                        entry.current = Some(
                            CurrentPublication {
                                source_id,
                                selection: ConsumerSourceSelection::open(
                                    entry.intent.active_or_default(),
                                ),
                                realization: ConsumerRealization::Absent,
                            },
                        );
                        self.by_source.insert(&source_id, key);
                        proof {
                            assert(self@.subscriptions =~= after_attach(
                                g.subscriptions,
                                key.id(),
                                source_id,
                            ));
                            assert(self.by_receiver@ =~= receiver_pairs(self.entries@));
                            assert(self.by_source@ =~= source_pairs(self.entries@));
                            lemma_replace(g, key.id(), self@);
                        }
                        true
                    },
                }
            },
        }
    }

    /// Applies receiver intent, and a policy pause where one is given, to the
    /// attached publication. Returns the relay work, or nothing where another
    /// publication is attached or the route belongs to another connection.
    pub fn set_activity(
        &mut self,
        key: &SubscriptionKey,
        source_id: PublishedSourceId,
        connection_id: ConnectionId,
        active: bool,
        policy_pause_reason: Option<PolicyPauseReason>,
    ) -> (r: Option<Vec<TransportRelayRouteEffect>>)
        requires
            old(self).wf(),
        ensures
            final(self).wf(),
            final(self)@.revives_nothing_of(old(self)@),
            match r {
                None => final(self)@ == old(self)@ && !activity_applies(
                    old(self)@.subscriptions,
                    key.id(),
                    source_id,
                    connection_id,
                ),
                Some(effects) => activity_applies(
                    old(self)@.subscriptions,
                    key.id(),
                    source_id,
                    connection_id,
                ) && final(self)@ == after_activity(
                    old(self)@,
                    key.id(),
                    active,
                    policy_pause_reason,
                ) && effects@ == activity_effects(old(self)@, key.id(), active),
            },
    {
        let ghost g = old(self)@;
        let applies = match self.entries.get(key) {
            None => false,
            Some(entry) => match &entry.current {
                None => false,
                Some(current) => current.source_id == source_id && match &current.realization {
                    ConsumerRealization::Committed(committed) => committed.route.consumer_session.connection
                        == connection_id,
                    _ => true,
                },
            },
        };
        if !applies {
            return None;
        }
        let changed = match self.entries.get_mut(key) {
            None => None,
            Some(entry) => match &mut entry.current {
                None => None,
                Some(current) => {
                    current.set_active(active);
                    if let Some(reason) = policy_pause_reason {
                        current.selection.set_policy_pause_reason(Some(reason));
                    }
                    current.realization.set_relay_activity(RelayRouteActivity::from_active(active))
                },
            },
        };
        let effects = match &changed {
            None => Vec::new(),
            Some(relay) => {
                proof {
                    let share = record(g.subscriptions, key.id()).share()->0;
                    assert(owns(g.relays, key.id(), share.route.id()));
                }
                self.relays.set_owner(key, relay)
            },
        };
        proof {
            assert(self@.subscriptions =~= after_activity(
                g,
                key.id(),
                active,
                policy_pause_reason,
            ).subscriptions);
            assert(self.by_receiver@ =~= receiver_pairs(self.entries@));
            assert(self.by_source@ =~= source_pairs(self.entries@));
            lemma_replace(g, key.id(), self@);
        }
        Some(effects)
    }

    /// Reserves the setup of an attached publication that waits for one.
    pub fn reserve_consumer_setup(
        &mut self,
        key: &SubscriptionKey,
        source_id: PublishedSourceId,
        selection: ConsumerSourceSelection,
    ) -> (r: Option<ConsumerRouteReservation>)
        requires
            old(self).wf(),
            old(self)@.reservations < u64::MAX,
        ensures
            final(self).wf(),
            final(self)@.revives_nothing_of(old(self)@),
            match r {
                None => final(self)@ == old(self)@ && !waits_for_setup(
                    old(self)@.subscriptions,
                    key.id(),
                    source_id,
                ),
                Some(reservation) => {
                    &&& waits_for_setup(old(self)@.subscriptions, key.id(), source_id)
                    &&& final(self)@ == after_reserve(old(self)@, key.id(), selection)
                    &&& reservation.key_id() == key.id()
                    &&& reservation.source() == source_id
                    &&& reservation.number() == old(self)@.reservations + 1
                    &&& reservation.activity() == ConsumerActivity::of(selection.delivers())
                },
            },
    {
        let ghost g = old(self)@;
        let waits = match self.entries.get(key) {
            None => false,
            Some(entry) => match &entry.current {
                None => false,
                Some(current) => current.source_id == source_id && matches!(
                    current.realization,
                    ConsumerRealization::Absent
                ),
            },
        };
        if !waits {
            return None;
        }
        self.next_reservation = self.next_reservation + 1;
        let id: u64 = self.next_reservation;
        match self.entries.get_mut(key) {
            None => {},
            Some(entry) => match &mut entry.current {
                None => {},
                Some(current) => {
                    current.selection = selection;
                    current.realization = ConsumerRealization::Pending(id, None);
                },
            },
        }
        proof {
            assert(self@.subscriptions =~= after_reserve(g, key.id(), selection).subscriptions);
            assert(self.by_receiver@ =~= receiver_pairs(self.entries@));
            assert(self.by_source@ =~= source_pairs(self.entries@));
            lemma_replace(g, key.id(), self@);
        }
        Some(
            ConsumerRouteReservation {
                key: key.clone(),
                source_id,
                declared_activity: ConsumerActivity::from_active(selection.delivery_active()),
                id,
            },
        )
    }

    /// Whether a reservation is still awaited by its subscription.
    fn is_live(&self, reservation: &ConsumerRouteReservation) -> (r: bool)
        requires
            self.wf(),
        ensures
            r == live(self@.subscriptions, *reservation),
    {
        match self.entries.get(&reservation.key) {
            None => false,
            Some(entry) => match &entry.current {
                None => false,
                Some(current) => current.source_id == reservation.source_id
                    && match &current.realization {
                    ConsumerRealization::Pending(id, _) => *id == reservation.id,
                    _ => false,
                },
            },
        }
    }

    /// Puts a realization in the place of the one a subscription has.
    fn swap_realization(&mut self, key: &SubscriptionKey, realization: ConsumerRealization) -> (r:
        ConsumerRealization)
        requires
            old(self).indexed(),
            attachment(old(self)@.subscriptions, key.id()) is Some,
        ensures
            final(self).indexed(),
            r == attachment(old(self)@.subscriptions, key.id())->0.realization,
            final(self).relays == old(self).relays,
            final(self)@.relays == old(self)@.relays,
            final(self)@.reservations == old(self)@.reservations,
            final(self)@.subscriptions == with_realization(
                old(self)@.subscriptions,
                key.id(),
                realization,
            ),
    {
        let mut taken = realization;
        match self.entries.get_mut(key) {
            None => {},
            Some(entry) => match &mut entry.current {
                None => {},
                Some(current) => {
                    core::mem::swap(&mut current.realization, &mut taken);
                },
            },
        }
        proof {
            assert(self@.subscriptions =~= with_realization(
                old(self)@.subscriptions,
                key.id(),
                realization,
            ));
            assert(self.by_receiver@ =~= receiver_pairs(self.entries@));
            assert(self.by_source@ =~= source_pairs(self.entries@));
        }
        taken
    }

    /// Returns a pending realization to absent, consuming its reservation. A
    /// reservation that is no longer awaited changes nothing.
    pub fn release_consumer_setup(&mut self, reservation: ConsumerRouteReservation) -> (r: Vec<
        TransportRelayRouteEffect,
    >)
        requires
            old(self).wf(),
        ensures
            final(self).wf(),
            final(self)@.revives_nothing_of(old(self)@),
            live(old(self)@.subscriptions, reservation) ==> final(self)@ == after_release(
                old(self)@,
                reservation.key_id(),
            ) && r@ == release_effects(old(self)@, reservation.key_id()),
            !live(old(self)@.subscriptions, reservation) ==> final(self)@ == old(self)@ && r@
                == Seq::<TransportRelayRouteEffect>::empty(),
    {
        if !self.is_live(&reservation) {
            return Vec::new();
        }
        self.drop_realization(&reservation.key)
    }

    /// Returns a realization to absent and gives up its relay share.
    fn drop_realization(&mut self, key: &SubscriptionKey) -> (r: Vec<TransportRelayRouteEffect>)
        requires
            old(self).wf(),
            attachment(old(self)@.subscriptions, key.id()) is Some,
        ensures
            final(self).wf(),
            final(self)@.revives_nothing_of(old(self)@),
            final(self)@ == after_release(old(self)@, key.id()),
            r@ == release_effects(old(self)@, key.id()),
    {
        let ghost g = old(self)@;
        let relay = match self.swap_realization(key, ConsumerRealization::Absent) {
            ConsumerRealization::Absent => None,
            ConsumerRealization::Pending(_, relay) => relay,
            ConsumerRealization::Committed(committed) => committed.relay,
        };
        let effects = match &relay {
            None => Vec::new(),
            Some(relay) => self.relays.release_owner(key, &relay.route),
        };
        proof {
            lemma_replace(g, key.id(), self@);
        }
        effects
    }

    /// Commits a reserved route once the router accepts it.
    ///
    /// The reservation is consumed whatever the router answers, and the router is
    /// not asked about a reservation that is no longer awaited.
    pub fn commit<F: FnOnce() -> Option<RoutedConsumerId>>(
        &mut self,
        reservation: ConsumerRouteReservation,
        route: TransportConsumerRoute,
        mid: String,
        selection: ConsumerSourceSelection,
        accept: F,
    ) -> (r: Result<(), Vec<TransportRelayRouteEffect>>)
        requires
            old(self).wf(),
            accept.requires(()),
        ensures
            final(self).wf(),
            final(self)@.revives_nothing_of(old(self)@),
            !live(old(self)@.subscriptions, reservation) ==> final(self)@ == old(self)@ && (
            r matches Err(effects) && effects@ == Seq::<TransportRelayRouteEffect>::empty()),
            live(old(self)@.subscriptions, reservation) ==> exists|
                answer: Option<RoutedConsumerId>,
            |
                #![trigger accept.ensures((), answer)]
                accept.ensures((), answer) && match answer {
                    Some(routed) => r is Ok && final(self)@ == after_commit(
                        old(self)@,
                        reservation.key_id(),
                        route,
                        mid,
                        selection,
                        routed,
                    ),
                    None => final(self)@ == after_release(old(self)@, reservation.key_id()) && (
                    r matches Err(effects) && effects@ == release_effects(
                        old(self)@,
                        reservation.key_id(),
                    )),
                },
    {
        let ghost g = old(self)@;
        if !self.is_live(&reservation) {
            return Err(Vec::new());
        }
        let key = reservation.key;
        match accept() {
            None => Err(self.drop_realization(&key)),
            Some(routed) => {
                let relay = match self.swap_realization(&key, ConsumerRealization::Absent) {
                    ConsumerRealization::Pending(_, relay) => relay,
                    _ => None,
                };
                let committed = CommittedConsumerRoute {
                    route,
                    mid,
                    routed,
                    relay,
                    pending_upgrade: None,
                };
                match self.entries.get_mut(&key) {
                    None => {},
                    Some(entry) => match &mut entry.current {
                        None => {},
                        Some(current) => {
                            current.selection = selection;
                            current.realization = ConsumerRealization::Committed(committed);
                        },
                    },
                }
                proof {
                    assert(self@.subscriptions =~= after_commit(
                        g,
                        key.id(),
                        route,
                        mid,
                        selection,
                        routed,
                    ).subscriptions);
                    assert(self.by_receiver@ =~= receiver_pairs(self.entries@));
                    assert(self.by_source@ =~= source_pairs(self.entries@));
                    lemma_replace(g, key.id(), self@);
                }
                Ok(())
            },
        }
    }

    /// Changes the selection of an exact committed route. Returns whether the
    /// route is the one committed for this publication.
    pub fn update_selection<F: FnOnce(ConsumerSourceSelection) -> ConsumerSourceSelection>(
        &mut self,
        key: &SubscriptionKey,
        source_id: PublishedSourceId,
        route: &TransportConsumerRoute,
        update: F,
    ) -> (r: bool)
        requires
            old(self).wf(),
            forall|selection: ConsumerSourceSelection| update.requires((selection,)),
        ensures
            final(self).wf(),
            final(self)@.revives_nothing_of(old(self)@),
            r == routes(old(self)@.subscriptions, key.id(), source_id, *route),
            !r ==> final(self)@ == old(self)@,
            r ==> exists|selection: ConsumerSourceSelection|
                #![trigger update.ensures(
                    (attachment(old(self)@.subscriptions, key.id())->0.selection,),
                    selection,
                )]
                update.ensures(
                    (attachment(old(self)@.subscriptions, key.id())->0.selection,),
                    selection,
                ) && final(self)@ == after_selection(old(self)@, key.id(), selection),
    {
        let ghost g = old(self)@;
        if !self.is_routed(key, source_id, route) {
            return false;
        }
        match self.entries.get_mut(key) {
            None => false,
            Some(entry) => match &mut entry.current {
                None => false,
                Some(current) => {
                    current.selection = update(current.selection);
                    if !current.selection.active() {
                        current.clear_upgrade();
                    }
                    let ghost selection = current.selection;
                    proof {
                        assert(self@.subscriptions =~= after_selection(
                            g,
                            key.id(),
                            selection,
                        ).subscriptions);
                        assert(self.by_receiver@ =~= receiver_pairs(self.entries@));
                        assert(self.by_source@ =~= source_pairs(self.entries@));
                        lemma_replace(g, key.id(), self@);
                    }
                    true
                },
            },
        }
    }

    fn is_routed(
        &self,
        key: &SubscriptionKey,
        source_id: PublishedSourceId,
        route: &TransportConsumerRoute,
    ) -> (r: bool)
        requires
            self.wf(),
        ensures
            r == routes(self@.subscriptions, key.id(), source_id, *route),
    {
        match self.entries.get(key) {
            None => false,
            Some(entry) => match &entry.current {
                None => false,
                Some(current) => current.source_id == source_id && match &current.realization {
                    ConsumerRealization::Committed(committed) => committed.route.same_route(route),
                    _ => false,
                },
            },
        }
    }

    /// Sets the upgrade an exact committed route waits for, while its receiver
    /// wants it. Returns whether it was set.
    pub fn update_upgrade(
        &mut self,
        key: &SubscriptionKey,
        source_id: PublishedSourceId,
        route: &TransportConsumerRoute,
        pending_upgrade: Option<PendingUpgrade>,
    ) -> (r: bool)
        requires
            old(self).wf(),
        ensures
            final(self).wf(),
            final(self)@.revives_nothing_of(old(self)@),
            r == (routes(old(self)@.subscriptions, key.id(), source_id, *route) && attachment(
                old(self)@.subscriptions,
                key.id(),
            )->0.selection.active),
            !r ==> final(self)@ == old(self)@,
            r ==> final(self)@ == after_upgrade(old(self)@, key.id(), pending_upgrade),
    {
        let ghost g = old(self)@;
        if !self.is_routed(key, source_id, route) {
            return false;
        }
        match self.entries.get_mut(key) {
            None => false,
            Some(entry) => match &mut entry.current {
                None => false,
                Some(current) => {
                    if !current.selection.active() {
                        proof {
                            assert(self@.subscriptions =~= g.subscriptions);
                        }
                        return false;
                    }
                    match &mut current.realization {
                        ConsumerRealization::Committed(committed) => {
                            committed.pending_upgrade = pending_upgrade;
                        },
                        _ => {},
                    }
                    proof {
                        assert(self@.subscriptions =~= after_upgrade(
                            g,
                            key.id(),
                            pending_upgrade,
                        ).subscriptions);
                        assert(self.by_receiver@ =~= receiver_pairs(self.entries@));
                        assert(self.by_source@ =~= source_pairs(self.entries@));
                        lemma_replace(g, key.id(), self@);
                    }
                    true
                },
            },
        }
    }

    /// Selection of the subscription while this publication is attached.
    pub fn selection(&self, key: &SubscriptionKey, source_id: PublishedSourceId) -> (r: Option<
        ConsumerSourceSelection,
    >)
        requires
            self.wf(),
        ensures
            r == if attached_to(self@.subscriptions, key.id(), source_id) {
                Some(attachment(self@.subscriptions, key.id())->0.selection)
            } else {
                None
            },
    {
        match self.entries.get(key) {
            None => None,
            Some(entry) => match &entry.current {
                Some(current) => if current.source_id == source_id {
                    Some(current.selection)
                } else {
                    None
                },
                None => None,
            },
        }
    }

    /// The publication attached to a subscription.
    pub fn current(&self, key: &SubscriptionKey) -> (r: Option<&CurrentPublication>)
        requires
            self.wf(),
        ensures
            match r {
                Some(current) => attachment(self@.subscriptions, key.id()) == Some(*current),
                None => attachment(self@.subscriptions, key.id()) is None,
            },
    {
        match self.entries.get(key) {
            None => None,
            Some(entry) => match &entry.current {
                Some(current) => Some(current),
                None => None,
            },
        }
    }

    /// Subscriptions of a receiver, in order.
    pub fn receiver_subscriptions(&self, receiver: &UserId) -> (r: Vec<SubscriptionKey>)
        requires
            self.wf(),
        ensures
            lists(ids_of(r@), receiver_keys(self@.subscriptions, receiver.id())),
    {
        let r = self.by_receiver.members(receiver);
        proof {
            assert(filed_under(self.by_receiver@, receiver.id()) =~= receiver_keys(
                self@.subscriptions,
                receiver.id(),
            ));
        }
        r
    }

    /// Subscriptions to which a publication is attached, in order.
    pub fn source_subscriptions(&self, source_id: PublishedSourceId) -> (r: Vec<SubscriptionKey>)
        requires
            self.wf(),
        ensures
            lists(ids_of(r@), attached_keys(self@.subscriptions, source_id)),
    {
        let r = self.by_source.members(&source_id);
        proof {
            assert(filed_under(self.by_source@, source_id.id()) =~= attached_keys(
                self@.subscriptions,
                source_id,
            ));
        }
        r
    }

    /// All subscriptions, in order.
    pub fn subscriptions(&self) -> (r: Vec<SubscriptionKey>)
        requires
            self.wf(),
        ensures
            lists(ids_of(r@), self@.subscriptions.dom()),
    {
        let r = self.entries.to_keys();
        proof {
            self.entries.lemma_contents();
            assert(ids_of(r@) =~= self.entries.ids());
        }
        r
    }

    /// Number of records.
    pub fn record_count(&self) -> (r: usize)
        requires
            self.wf(),
        ensures
            r == in_order(self@.subscriptions.dom()).len(),
    {
        proof {
            self.entries.lemma_contents();
            lemma_in_order(self.entries.ids(), self@.subscriptions.dom());
        }
        self.entries.len()
    }

    /// Number of subscriptions with a setup under way or a committed route.
    pub fn subscription_count(&self) -> (r: usize)
        requires
            self.wf(),
        ensures
            r == in_order(realizing_keys(self@.subscriptions)).len(),
    {
        self.count_where(true)
    }

    /// Number of subscriptions with a committed route.
    pub fn count(&self) -> (r: usize)
        requires
            self.wf(),
        ensures
            r == in_order(routed_keys(self@.subscriptions)).len(),
    {
        self.count_where(false)
    }

    fn count_where(&self, with_pending: bool) -> (r: usize)
        requires
            self.wf(),
        ensures
            r == in_order(
                if with_pending {
                    realizing_keys(self@.subscriptions)
                } else {
                    routed_keys(self@.subscriptions)
                },
            ).len(),
    {
        let ghost members = if with_pending {
            realizing_keys(self@.subscriptions)
        } else {
            routed_keys(self@.subscriptions)
        };
        let ghost ids = self.entries.ids();
        let ghost mut picked = Seq::<SubscriptionIdentity>::empty();
        let mut total: usize = 0;
        let mut i: usize = 0;
        let count: usize = self.entries.len();
        proof {
            self.entries.lemma_contents();
        }
        while i < count
            invariant
                self.wf(),
                ids == self.entries.ids(),
                increasing::<SubscriptionKey>(ids),
                count == ids.len(),
                i <= count,
                members == if with_pending {
                    realizing_keys(self@.subscriptions)
                } else {
                    routed_keys(self@.subscriptions)
                },
                total == picked.len(),
                total <= i,
                picks(picked, ids, i as int, members),
            decreases count - i,
        {
            let entry = self.entries.value(i);
            let counts = match &entry.current {
                None => false,
                Some(current) => match &current.realization {
                    ConsumerRealization::Absent => false,
                    ConsumerRealization::Pending(..) => with_pending,
                    ConsumerRealization::Committed(_) => true,
                },
            };
            proof {
                lemma_pick(picked, ids, i as int, members);
                if counts {
                    picked = picked.push(ids[i as int]);
                }
            }
            if counts {
                total = total + 1;
            }
            i = i + 1;
        }
        proof {
            self.entries.lemma_contents();
            assert forall|k: SubscriptionIdentity| #[trigger] picked.contains(k)
                <==> members.contains(k) by {
                if members.contains(k) {
                    assert(self@.subscriptions.contains_key(k));
                    assert(ids.contains(k));
                    assert(ids[ids.index_of(k)] == k);
                }
            }
            lemma_in_order(picked, members);
        }
        total
    }

    /// Ends the wait of every route of a publication for a better encoding.
    pub fn clear_source_upgrades(&mut self, source_id: PublishedSourceId)
        requires
            old(self).wf(),
        ensures
            final(self).wf(),
            final(self)@.revives_nothing_of(old(self)@),
            final(self)@ == (Graph {
                subscriptions: upgrades_cleared(
                    old(self)@.subscriptions,
                    attached_keys(old(self)@.subscriptions, source_id),
                ),
                ..old(self)@
            }),
    {
        let keys = self.source_subscriptions(source_id);
        let ghost g = old(self)@;
        let ghost ids = ids_of(keys@);
        let mut i: usize = 0;
        proof {
            assert(self@.subscriptions =~= upgrades_cleared(
                g.subscriptions,
                ids.take(0).to_set(),
            ));
        }
        while i < keys.len()
            invariant
                i <= keys@.len(),
                ids == ids_of(keys@),
                lists(ids, attached_keys(g.subscriptions, source_id)),
                self.wf(),
                self@.revives_nothing_of(g),
                self@ == (Graph {
                    subscriptions: upgrades_cleared(g.subscriptions, ids.take(i as int).to_set()),
                    ..g
                }),
            decreases keys@.len() - i,
        {
            let ghost before = *self;
            let key = &keys[i];
            proof {
                lemma_take(ids, i as int);
                assert(ids.contains(ids[i as int]));
            }
            match self.entries.get_mut(key) {
                None => {},
                Some(entry) => match &mut entry.current {
                    None => {},
                    Some(current) => {
                        current.clear_upgrade();
                    },
                },
            }
            proof {
                assert(self@.subscriptions =~= upgrades_cleared(
                    g.subscriptions,
                    ids.take(i + 1).to_set(),
                ));
                assert(self.by_receiver@ =~= receiver_pairs(self.entries@));
                assert(self.by_source@ =~= source_pairs(self.entries@));
                lemma_replace(before@, key.id(), self@);
            }
            i = i + 1;
        }
        proof {
            assert(ids.take(ids.len() as int) =~= ids);
            assert(ids.to_set() =~= attached_keys(g.subscriptions, source_id));
        }
    }

    /// Returns a realization to absent and collects what it held.
    fn collect_realization(&mut self, key: &SubscriptionKey, removed: &mut RemovedRoutes)
        requires
            old(self).wf(),
            attachment(old(self)@.subscriptions, key.id()) is Some,
        ensures
            final(self).wf(),
            final(self)@.revives_nothing_of(old(self)@),
            final(self)@ == after_release(old(self)@, key.id()),
            final(removed).routes@ == old(removed).routes@ + route_of(
                record(old(self)@.subscriptions, key.id()),
            ),
            final(removed).consumers@ == old(removed).consumers@ + consumer_of(
                record(old(self)@.subscriptions, key.id()),
            ),
            final(removed).relays@ == old(removed).relays@ + release_effects(
                old(self)@,
                key.id(),
            ),
    {
        let ghost g = old(self)@;
        let relay = match self.swap_realization(key, ConsumerRealization::Absent) {
            ConsumerRealization::Absent => None,
            ConsumerRealization::Pending(_, relay) => relay,
            ConsumerRealization::Committed(committed) => {
                removed.routes.push(committed.route);
                removed.consumers.push(committed.routed);
                committed.relay
            },
        };
        proof {
            assert(removed.routes@ =~= old(removed).routes@ + route_of(
                record(g.subscriptions, key.id()),
            ));
            assert(removed.consumers@ =~= old(removed).consumers@ + consumer_of(
                record(g.subscriptions, key.id()),
            ));
        }
        match &relay {
            None => {},
            Some(relay) => {
                let mut effects = self.relays.release_owner(key, &relay.route);
                removed.relays.append(&mut effects);
            },
        }
        proof {
            assert(removed.relays@ =~= old(removed).relays@ + release_effects(g, key.id()));
            lemma_replace(g, key.id(), self@);
        }
    }

    /// Detaches a publication whose realization is absent, and forgets the record
    /// where `forget` says so.
    fn detach(&mut self, key: &SubscriptionKey, forget: bool)
        requires
            old(self).wf(),
            old(self)@.subscriptions.contains_key(key.id()),
            attachment(old(self)@.subscriptions, key.id()) matches Some(current) ==> current.realization is Absent,
        ensures
            final(self).wf(),
            final(self)@.revives_nothing_of(old(self)@),
            final(self)@ == (Graph {
                subscriptions: if forget {
                    old(self)@.subscriptions.remove(key.id())
                } else {
                    old(self)@.subscriptions.insert(
                        key.id(),
                        Subscription {
                            intent: old(self)@.subscriptions[key.id()].intent,
                            current: None,
                        },
                    )
                },
                ..old(self)@
            }),
    {
        let ghost g = old(self)@;
        let source = match self.entries.get_mut(key) {
            None => None,
            Some(entry) => match entry.current.take() {
                None => None,
                Some(current) => Some(current.source_id),
            },
        };
        match source {
            None => {},
            Some(source) => {
                self.by_source.remove(&source, key);
            },
        }
        proof {
            assert(self.by_receiver@ =~= receiver_pairs(self.entries@));
            assert(self.by_source@ =~= source_pairs(self.entries@));
        }
        if forget {
            let _ = self.entries.remove(key);
            self.by_receiver.remove(&key.receiver, key);
            proof {
                assert(self@.subscriptions =~= g.subscriptions.remove(key.id()));
                assert(self.by_receiver@ =~= receiver_pairs(self.entries@));
                assert(self.by_source@ =~= source_pairs(self.entries@));
            }
        }
        proof {
            lemma_replace(g, key.id(), self@);
        }
    }

    /// Detaches a publication from all its subscriptions. A record without intent
    /// is forgotten.
    pub fn detach_source(&mut self, source_id: PublishedSourceId) -> (r: RemovedRoutes)
        requires
            old(self).wf(),
        ensures
            final(self).wf(),
            final(self)@.revives_nothing_of(old(self)@),
            final(self)@ == ({
                let keys = attached_keys(old(self)@.subscriptions, source_id);
                Graph {
                    subscriptions: detached(old(self)@.subscriptions, keys),
                    relays: relays_without(old(self)@, in_order(keys)),
                    ..old(self)@
                }
            }),
            r.removes(
                old(self)@,
                in_order(attached_keys(old(self)@.subscriptions, source_id)),
            ),
    {
        let ghost g = old(self)@;
        let keys = self.source_subscriptions(source_id);
        let ghost ids = ids_of(keys@);
        let mut removed = RemovedRoutes::new();
        let mut i: usize = 0;
        proof {
            lemma_in_order(ids, attached_keys(g.subscriptions, source_id));
            assert(ids.take(0) =~= Seq::<SubscriptionIdentity>::empty());
            assert(self@.subscriptions =~= detached(g.subscriptions, ids.take(0).to_set()));
        }
        while i < keys.len()
            invariant
                i <= keys@.len(),
                ids == ids_of(keys@),
                lists(ids, attached_keys(g.subscriptions, source_id)),
                self.wf(),
                self@.revives_nothing_of(g),
                self@ == (Graph {
                    subscriptions: detached(g.subscriptions, ids.take(i as int).to_set()),
                    relays: relays_without(g, ids.take(i as int)),
                    ..g
                }),
                removed.removes(g, ids.take(i as int)),
            decreases keys@.len() - i,
        {
            let ghost start = self@;
            let key = &keys[i];
            let ghost k = key.id();
            proof {
                lemma_take(ids, i as int);
                lemma_not_yet(ids, i as int);
                assert(ids.contains(ids[i as int]));
                assert(record(start.subscriptions, k) == record(g.subscriptions, k));
            }
            self.collect_realization(key, &mut removed);
            let ghost mid = self@;
            let forget = match self.entries.get(key) {
                None => false,
                Some(entry) => entry.intent.is_empty(),
            };
            self.detach(key, forget);
            proof {
                assert(self@.subscriptions =~= detached(
                    g.subscriptions,
                    ids.take(i + 1).to_set(),
                ));
                lemma_removes_more(g, start, ids.take(i as int), k, removed);
                assert(self@.revives_nothing_of(mid));
                assert(mid.revives_nothing_of(start));
            }
            i = i + 1;
        }
        proof {
            assert(ids.take(ids.len() as int) =~= ids);
            assert(ids.to_set() =~= attached_keys(g.subscriptions, source_id));
        }
        removed
    }

    /// Forgets every subscription of a receiver, its intent with it.
    pub fn remove_receiver(&mut self, receiver: &UserId) -> (r: RemovedRoutes)
        requires
            old(self).wf(),
        ensures
            final(self).wf(),
            final(self)@.revives_nothing_of(old(self)@),
            final(self)@ == ({
                let keys = receiver_keys(old(self)@.subscriptions, receiver.id());
                Graph {
                    subscriptions: forgotten(old(self)@.subscriptions, keys),
                    relays: relays_without(old(self)@, in_order(keys)),
                    ..old(self)@
                }
            }),
            r.removes(
                old(self)@,
                in_order(receiver_keys(old(self)@.subscriptions, receiver.id())),
            ),
    {
        let ghost g = old(self)@;
        let keys = self.receiver_subscriptions(receiver);
        let ghost ids = ids_of(keys@);
        let mut removed = RemovedRoutes::new();
        let mut i: usize = 0;
        proof {
            lemma_in_order(ids, receiver_keys(g.subscriptions, receiver.id()));
            assert(ids.take(0) =~= Seq::<SubscriptionIdentity>::empty());
            assert(self@.subscriptions =~= forgotten(g.subscriptions, ids.take(0).to_set()));
        }
        while i < keys.len()
            invariant
                i <= keys@.len(),
                ids == ids_of(keys@),
                lists(ids, receiver_keys(g.subscriptions, receiver.id())),
                self.wf(),
                self@.revives_nothing_of(g),
                self@ == (Graph {
                    subscriptions: forgotten(g.subscriptions, ids.take(i as int).to_set()),
                    relays: relays_without(g, ids.take(i as int)),
                    ..g
                }),
                removed.removes(g, ids.take(i as int)),
            decreases keys@.len() - i,
        {
            let ghost start = self@;
            let key = &keys[i];
            let ghost k = key.id();
            proof {
                lemma_take(ids, i as int);
                lemma_not_yet(ids, i as int);
                assert(ids.contains(ids[i as int]));
                assert(record(start.subscriptions, k) == record(g.subscriptions, k));
            }
            let attached = self.current(key).is_some();
            let ghost before = removed;
            if attached {
                self.collect_realization(key, &mut removed);
            } else {
                proof {
                    assert(removed.routes@ =~= before.routes@ + route_of(
                        record(start.subscriptions, k),
                    ));
                    assert(removed.consumers@ =~= before.consumers@ + consumer_of(
                        record(start.subscriptions, k),
                    ));
                    assert(removed.relays@ =~= before.relays@ + release_effects(start, k));
                }
            }
            let ghost mid = self@;
            self.detach(key, true);
            proof {
                assert(self@.subscriptions =~= forgotten(
                    g.subscriptions,
                    ids.take(i + 1).to_set(),
                ));
                lemma_removes_more(g, start, ids.take(i as int), k, removed);
                assert(self@.revives_nothing_of(mid));
                assert(mid.revives_nothing_of(start));
            }
            i = i + 1;
        }
        proof {
            assert(ids.take(ids.len() as int) =~= ids);
            assert(ids.to_set() =~= receiver_keys(g.subscriptions, receiver.id()));
        }
        removed
    }

    /// Returns every subscription of a replaced receiver to its intent: nothing is
    /// set up, and the publications stay attached.
    pub fn reset_receiver_for_replacement(&mut self, receiver: &UserId) -> (r: Vec<
        TransportRelayRouteEffect,
    >)
        requires
            old(self).wf(),
        ensures
            final(self).wf(),
            final(self)@.revives_nothing_of(old(self)@),
            final(self)@ == ({
                let keys = receiver_keys(old(self)@.subscriptions, receiver.id());
                Graph {
                    subscriptions: reset(old(self)@.subscriptions, keys),
                    relays: relays_without(old(self)@, in_order(keys)),
                    ..old(self)@
                }
            }),
            r@ == released_shares(
                old(self)@,
                in_order(receiver_keys(old(self)@.subscriptions, receiver.id())),
            ),
    {
        let ghost g = old(self)@;
        let keys = self.receiver_subscriptions(receiver);
        let ghost ids = ids_of(keys@);
        let mut relays: Vec<TransportRelayRouteEffect> = Vec::new();
        let mut i: usize = 0;
        proof {
            lemma_in_order(ids, receiver_keys(g.subscriptions, receiver.id()));
            assert(ids.take(0) =~= Seq::<SubscriptionIdentity>::empty());
            assert(self@.subscriptions =~= reset(g.subscriptions, ids.take(0).to_set()));
        }
        while i < keys.len()
            invariant
                i <= keys@.len(),
                ids == ids_of(keys@),
                lists(ids, receiver_keys(g.subscriptions, receiver.id())),
                self.wf(),
                self@.revives_nothing_of(g),
                self@ == (Graph {
                    subscriptions: reset(g.subscriptions, ids.take(i as int).to_set()),
                    relays: relays_without(g, ids.take(i as int)),
                    ..g
                }),
                relays@ == released_shares(g, ids.take(i as int)),
            decreases keys@.len() - i,
        {
            let ghost start = self@;
            let key = &keys[i];
            let ghost k = key.id();
            proof {
                lemma_take(ids, i as int);
                lemma_not_yet(ids, i as int);
                assert(ids.contains(ids[i as int]));
                assert(record(start.subscriptions, k) == record(g.subscriptions, k));
            }
            let attached = self.current(key).is_some();
            if attached {
                let mut effects = self.drop_realization(key);
                relays.append(&mut effects);
                let ghost mid = self@;
                match self.entries.get_mut(key) {
                    None => {},
                    Some(entry) => match &mut entry.current {
                        None => {},
                        Some(current) => {
                            current.selection = ConsumerSourceSelection::open(
                                entry.intent.active_or_default(),
                            );
                        },
                    },
                }
                proof {
                    assert(self.by_receiver@ =~= receiver_pairs(self.entries@));
                    assert(self.by_source@ =~= source_pairs(self.entries@));
                    lemma_replace(mid, k, self@);
                    assert(self@.revives_nothing_of(mid));
                    assert(mid.revives_nothing_of(start));
                }
            } else {
                proof {
                    assert(relays@ =~= relays@ + release_effects(start, k));
                }
            }
            proof {
                assert(self@.subscriptions =~= reset(g.subscriptions, ids.take(i + 1).to_set()));
                lemma_releases_more(g, start, ids.take(i as int), k);
            }
            i = i + 1;
        }
        proof {
            assert(ids.take(ids.len() as int) =~= ids);
            assert(ids.to_set() =~= receiver_keys(g.subscriptions, receiver.id()));
        }
        relays
    }

    /// Committed routes of a session whose media the client declined, in order.
    fn declined_subscriptions(
        &self,
        session: &TransportSessionKey,
        declined: &Vec<TransportMediaId>,
    ) -> (r: Vec<SubscriptionKey>)
        requires
            self.wf(),
        ensures
            lists(ids_of(r@), declined_keys(self@.subscriptions, *session, declined@)),
    {
        let keys = self.receiver_subscriptions(&session.user);
        let ghost ids = ids_of(keys@);
        let ghost members = declined_keys(self@.subscriptions, *session, declined@);
        let mut r: Vec<SubscriptionKey> = Vec::new();
        let mut i: usize = 0;
        proof {
            assert(ids_of(r@) =~= Seq::<SubscriptionIdentity>::empty());
        }
        while i < keys.len()
            invariant
                self.wf(),
                i <= keys@.len(),
                ids == ids_of(keys@),
                lists(ids, receiver_keys(self@.subscriptions, session.user.id())),
                members == declined_keys(self@.subscriptions, *session, declined@),
                picks(ids_of(r@), ids, i as int, members),
            decreases keys@.len() - i,
        {
            let key = &keys[i];
            let declines = match self.current(key) {
                None => false,
                Some(current) => match &current.realization {
                    ConsumerRealization::Committed(committed) => same(
                        &committed.route.consumer_session,
                        session,
                    ) && contains_media(declined, committed.route.consumer_media),
                    _ => false,
                },
            };
            proof {
                lemma_pick(ids_of(r@), ids, i as int, members);
                assert(ids.contains(ids[i as int]));
                assert(declines <==> members.contains(ids[i as int]));
            }
            if declines {
                let ghost before = r@;
                r.push(key.clone());
                proof {
                    assert(ids_of(r@) =~= ids_of(before).push(ids[i as int]));
                }
            }
            i = i + 1;
        }
        proof {
            assert forall|k: SubscriptionIdentity| #[trigger] ids_of(r@).contains(k)
                <==> members.contains(k) by {
                if members.contains(k) {
                    assert(self@.subscriptions.contains_key(k));
                    assert(ids.contains(k));
                    assert(ids[ids.index_of(k)] == k);
                }
            }
        }
        r
    }

    /// Returns the committed routes that a client declined to absent.
    pub fn detach_declined_consumers(
        &mut self,
        session: &TransportSessionKey,
        declined: &Vec<TransportMediaId>,
    ) -> (r: RemovedRoutes)
        requires
            old(self).wf(),
        ensures
            final(self).wf(),
            final(self)@.revives_nothing_of(old(self)@),
            final(self)@ == ({
                let keys = declined_keys(old(self)@.subscriptions, *session, declined@);
                Graph {
                    subscriptions: unrealized(old(self)@.subscriptions, keys),
                    relays: relays_without(old(self)@, in_order(keys)),
                    ..old(self)@
                }
            }),
            r.removes(
                old(self)@,
                in_order(declined_keys(old(self)@.subscriptions, *session, declined@)),
            ),
    {
        let ghost g = old(self)@;
        let ghost members = declined_keys(g.subscriptions, *session, declined@);
        let keys = self.declined_subscriptions(session, declined);
        let ghost ids = ids_of(keys@);
        let mut removed = RemovedRoutes::new();
        let mut i: usize = 0;
        proof {
            lemma_in_order(ids, members);
            assert(ids.take(0) =~= Seq::<SubscriptionIdentity>::empty());
            assert(self@.subscriptions =~= unrealized(g.subscriptions, ids.take(0).to_set()));
        }
        while i < keys.len()
            invariant
                i <= keys@.len(),
                ids == ids_of(keys@),
                lists(ids, members),
                members == declined_keys(g.subscriptions, *session, declined@),
                self.wf(),
                self@.revives_nothing_of(g),
                self@ == (Graph {
                    subscriptions: unrealized(g.subscriptions, ids.take(i as int).to_set()),
                    relays: relays_without(g, ids.take(i as int)),
                    ..g
                }),
                removed.removes(g, ids.take(i as int)),
            decreases keys@.len() - i,
        {
            let ghost start = self@;
            let key = &keys[i];
            let ghost k = key.id();
            proof {
                lemma_take(ids, i as int);
                lemma_not_yet(ids, i as int);
                assert(ids.contains(ids[i as int]));
                assert(record(start.subscriptions, k) == record(g.subscriptions, k));
            }
            self.collect_realization(key, &mut removed);
            proof {
                assert(self@.subscriptions =~= unrealized(
                    g.subscriptions,
                    ids.take(i + 1).to_set(),
                ));
                lemma_removes_more(g, start, ids.take(i as int), k, removed);
                assert(self@.revives_nothing_of(start));
            }
            i = i + 1;
        }
        proof {
            assert(ids.take(ids.len() as int) =~= ids);
            assert(ids.to_set() =~= members);
        }
        removed
    }

    /// Claims a share in the relay of `source` to `target_worker` for a live
    /// reservation, giving up the share it had before.
    pub fn reserve_relay(
        &mut self,
        reservation: &ConsumerRouteReservation,
        source: &TransportSourceKey,
        target_worker: MediaWorkerId,
        active: bool,
    ) -> (r: Vec<TransportRelayRouteEffect>)
        requires
            old(self).wf(),
        ensures
            final(self).wf(),
            final(self)@.revives_nothing_of(old(self)@),
            !live(old(self)@.subscriptions, *reservation) ==> final(self)@ == old(self)@ && r@
                == Seq::<TransportRelayRouteEffect>::empty(),
            live(old(self)@.subscriptions, *reservation) ==> final(self)@ == after_relay(
                old(self)@,
                *reservation,
                relay_share(*source, target_worker, active),
            ) && r@ == relay_reservation_effects(
                old(self)@,
                reservation.key_id(),
                relay_share(*source, target_worker, active),
            ),
    {
        let ghost g = old(self)@;
        if !self.is_live(reservation) {
            return Vec::new();
        }
        let next = RouteRelay {
            route: RelayRouteKey { source: source.clone(), target_worker },
            activity: RelayRouteActivity::from_active(active),
        };
        let key = &reservation.key;
        let ghost k = key.id();
        let previous = match self.swap_realization(
            key,
            ConsumerRealization::Pending(reservation.id, Some(next.clone())),
        ) {
            ConsumerRealization::Pending(_, relay) => relay,
            _ => None,
        };
        let effects = match &previous {
            None => self.relays.add_owner(key, &next),
            Some(previous) => {
                proof {
                    assert(owns(g.relays, k, previous.route.id()));
                }
                if previous.same_share(&next) {
                    proof {
                        let id = next.route.id();
                        assert(g.relays[id].insert(k, next.activity) =~= g.relays[id]);
                        assert(with_owner(g.relays, k, next) =~= g.relays);
                    }
                    Vec::new()
                } else if same(&previous.route, &next.route) {
                    self.relays.set_owner(key, &next)
                } else {
                    let mut effects = self.relays.release_owner(key, &previous.route);
                    let mut more = self.relays.add_owner(key, &next);
                    effects.append(&mut more);
                    effects
                }
            },
        };
        proof {
            assert(self@.subscriptions =~= after_relay(g, *reservation, next).subscriptions);
            lemma_replace(g, k, self@);
        }
        effects
    }

    /// Workers to which a source is relayed, pending or committed.
    pub fn source_activity_target_workers(&self, source: &TransportSourceKey) -> (r: Vec<
        MediaWorkerId,
    >)
        requires
            self.wf(),
        ensures
            relayed_to(self@.relays, source.id(), r@),
    {
        self.relays.target_workers(source)
    }
}

fn contains_media(media: &Vec<TransportMediaId>, wanted: TransportMediaId) -> (r: bool)
    ensures
        r == media@.contains(wanted),
{
    let mut i: usize = 0;
    while i < media.len()
        invariant
            i <= media@.len(),
            forall|j: int| 0 <= j < i ==> media@[j] != wanted,
        decreases media@.len() - i,
    {
        if media[i] == wanted {
            return true;
        }
        i = i + 1;
    }
    false
}

impl RemovedRoutes {
    /// What the realizations of these subscriptions held, in their order.
    pub open spec fn removes(&self, g: Graph, keys: Seq<SubscriptionIdentity>) -> bool {
        &&& self.routes@ == routes_of(g.subscriptions, keys)
        &&& self.consumers@ == consumers_of(g.subscriptions, keys)
        &&& self.relays@ == released_shares(g, keys)
    }
}

/// Subscriptions with a setup under way or a committed route.
pub open spec fn realizing_keys(subs: Subscriptions) -> Set<SubscriptionIdentity> {
    Set::new(|k: SubscriptionIdentity| record(subs, k).realizing())
}

/// Subscriptions with a committed route.
pub open spec fn routed_keys(subs: Subscriptions) -> Set<SubscriptionIdentity> {
    Set::new(|k: SubscriptionIdentity| record(subs, k).routed())
}

/// Subscriptions of a session whose committed medium is among `declined`.
pub open spec fn declined_keys(
    subs: Subscriptions,
    session: TransportSessionKey,
    declined: Seq<TransportMediaId>,
) -> Set<SubscriptionIdentity> {
    Set::new(
        |k: SubscriptionIdentity|
            k.receiver == session.user.id() && record(subs, k).routed() && {
                let route = committed_route(record(subs, k)).route;
                route.consumer_session.id() == session.id() && declined.contains(
                    route.consumer_media,
                )
            },
    )
}

pub open spec fn committed_route(s: Subscription) -> CommittedConsumerRoute {
    s.current->0.realization->Committed_0
}

/// The transport route that a record holds.
pub open spec fn route_of(s: Subscription) -> Seq<TransportConsumerRoute> {
    if s.routed() {
        seq![committed_route(s).route]
    } else {
        seq![]
    }
}

/// The router consumer that a record holds.
pub open spec fn consumer_of(s: Subscription) -> Seq<RoutedConsumerId> {
    if s.routed() {
        seq![committed_route(s).routed]
    } else {
        seq![]
    }
}

pub open spec fn routes_of(subs: Subscriptions, keys: Seq<SubscriptionIdentity>) -> Seq<
    TransportConsumerRoute,
>
    decreases keys.len(),
{
    if keys.len() == 0 {
        seq![]
    } else {
        routes_of(subs, keys.drop_last()) + route_of(record(subs, keys.last()))
    }
}

pub open spec fn consumers_of(subs: Subscriptions, keys: Seq<SubscriptionIdentity>) -> Seq<
    RoutedConsumerId,
>
    decreases keys.len(),
{
    if keys.len() == 0 {
        seq![]
    } else {
        consumers_of(subs, keys.drop_last()) + consumer_of(record(subs, keys.last()))
    }
}

/// The relays once these subscriptions, one after the other, gave up their shares.
pub open spec fn relays_without(g: Graph, keys: Seq<SubscriptionIdentity>) -> Relays
    decreases keys.len(),
{
    if keys.len() == 0 {
        g.relays
    } else {
        let before = relays_without(g, keys.drop_last());
        match record(g.subscriptions, keys.last()).share() {
            Some(share) => without_owner(before, keys.last(), share.route.id()),
            None => before,
        }
    }
}

/// The relay work of giving up these shares.
pub open spec fn released_shares(g: Graph, keys: Seq<SubscriptionIdentity>) -> Seq<
    TransportRelayRouteEffect,
>
    decreases keys.len(),
{
    if keys.len() == 0 {
        seq![]
    } else {
        released_shares(g, keys.drop_last()) + match record(g.subscriptions, keys.last()).share() {
            Some(share) => without_owner_effects(
                relays_without(g, keys.drop_last()),
                keys.last(),
                share.route,
            ),
            None => seq![],
        }
    }
}

/// Records after a publication left these subscriptions: intent stays, and a
/// record without intent goes.
pub open spec fn detached(subs: Subscriptions, keys: Set<SubscriptionIdentity>) -> Subscriptions {
    Map::new(
        |k: SubscriptionIdentity|
            subs.contains_key(k) && !(keys.contains(k) && subs[k].intent
                == SourceSubscriptionIntent::nothing()),
        |k: SubscriptionIdentity|
            if keys.contains(k) {
                Subscription { intent: subs[k].intent, current: None }
            } else {
                subs[k]
            },
    )
}

/// Records without these subscriptions.
pub open spec fn forgotten(subs: Subscriptions, keys: Set<SubscriptionIdentity>) -> Subscriptions {
    Map::new(
        |k: SubscriptionIdentity| subs.contains_key(k) && !keys.contains(k),
        |k: SubscriptionIdentity| subs[k],
    )
}

/// Records after their receiver was replaced: attached publications are back to
/// the receiver's intent.
pub open spec fn reset(subs: Subscriptions, keys: Set<SubscriptionIdentity>) -> Subscriptions {
    Map::new(
        |k: SubscriptionIdentity| subs.contains_key(k),
        |k: SubscriptionIdentity|
            if keys.contains(k) && subs[k].current is Some {
                Subscription {
                    intent: subs[k].intent,
                    current: Some(
                        CurrentPublication {
                            source_id: subs[k].current->0.source_id,
                            selection: ConsumerSourceSelection::opened(subs[k].intent.wants()),
                            realization: ConsumerRealization::Absent,
                        },
                    ),
                }
            } else {
                subs[k]
            },
    )
}

/// Records once the realizations of these subscriptions are absent.
pub open spec fn unrealized(subs: Subscriptions, keys: Set<SubscriptionIdentity>) -> Subscriptions {
    Map::new(
        |k: SubscriptionIdentity| subs.contains_key(k),
        |k: SubscriptionIdentity|
            if keys.contains(k) {
                Subscription {
                    intent: subs[k].intent,
                    current: Some(
                        CurrentPublication {
                            realization: ConsumerRealization::Absent,
                            ..subs[k].current->0
                        },
                    ),
                }
            } else {
                subs[k]
            },
    )
}

/// Records once these subscriptions wait for no upgrade.
pub open spec fn upgrades_cleared(subs: Subscriptions, keys: Set<SubscriptionIdentity>) -> Subscriptions {
    Map::new(
        |k: SubscriptionIdentity| subs.contains_key(k),
        |k: SubscriptionIdentity|
            if keys.contains(k) {
                Subscription {
                    intent: subs[k].intent,
                    current: Some(subs[k].current->0.upgrade_cleared()),
                }
            } else {
                subs[k]
            },
    )
}

pub open spec fn relay_share(
    source: TransportSourceKey,
    target_worker: MediaWorkerId,
    active: bool,
) -> RouteRelay {
    RouteRelay {
        route: RelayRouteKey { source, target_worker },
        activity: RelayRouteActivity::of(active),
    }
}

/// The graph once a live reservation holds this share.
pub open spec fn after_relay(
    g: Graph,
    reservation: ConsumerRouteReservation,
    share: RouteRelay,
) -> Graph {
    let k = reservation.key_id();
    Graph {
        subscriptions: with_realization(
            g.subscriptions,
            k,
            ConsumerRealization::Pending(reservation.number(), Some(share)),
        ),
        relays: move_share(g.relays, k, record(g.subscriptions, k).share(), Some(share)),
        ..g
    }
}

pub open spec fn relay_reservation_effects(
    g: Graph,
    k: SubscriptionIdentity,
    share: RouteRelay,
) -> Seq<TransportRelayRouteEffect> {
    match record(g.subscriptions, k).share() {
        None => with_owner_effects(g.relays, k, share),
        Some(previous) => if previous.route.id() != share.route.id() {
            without_owner_effects(g.relays, k, previous.route) + with_owner_effects(
                without_owner(g.relays, k, previous.route.id()),
                k,
                share,
            )
        } else if previous.activity == share.activity {
            seq![]
        } else {
            with_owner_effects(g.relays, k, share)
        },
    }
}

/// `picked` lists the members among the first `n` identities.
pub open spec fn picks(
    picked: Seq<SubscriptionIdentity>,
    ids: Seq<SubscriptionIdentity>,
    n: int,
    members: Set<SubscriptionIdentity>,
) -> bool {
    &&& increasing::<SubscriptionKey>(picked)
    &&& forall|k: SubscriptionIdentity| #[trigger]
        picked.contains(k) ==> members.contains(k) && exists|j: int|
            0 <= j < n && #[trigger] ids[j] == k
    &&& forall|j: int|
        0 <= j < n && members.contains(#[trigger] ids[j]) ==> picked.contains(ids[j])
}

/// One identity more in front of the cut.
pub proof fn lemma_pick(
    picked: Seq<SubscriptionIdentity>,
    ids: Seq<SubscriptionIdentity>,
    n: int,
    members: Set<SubscriptionIdentity>,
)
    requires
        increasing::<SubscriptionKey>(ids),
        0 <= n < ids.len(),
        picks(picked, ids, n, members),
    ensures
        members.contains(ids[n]) ==> picks(picked.push(ids[n]), ids, n + 1, members),
        !members.contains(ids[n]) ==> picks(picked, ids, n + 1, members),
{
    if members.contains(ids[n]) {
        let more = picked.push(ids[n]);
        assert forall|a: int, b: int| 0 <= a < b < more.len() implies SubscriptionKey::before(
            more[a],
            more[b],
        ) by {
            if b == picked.len() {
                assert(picked.contains(picked[a]));
                let j = choose|j: int| 0 <= j < n && #[trigger] ids[j] == picked[a];
                assert(SubscriptionKey::before(ids[j], ids[n]));
            }
        }
        assert forall|k: SubscriptionIdentity| #[trigger]
            more.contains(k) implies members.contains(k) && exists|j: int|
            0 <= j < n + 1 && #[trigger] ids[j] == k by {
            let a = more.index_of(k);
            if a < picked.len() {
                assert(picked[a] == k);
                assert(picked.contains(k));
            } else {
                assert(ids[n] == k);
            }
        }
        assert forall|j: int| 0 <= j < n + 1 && members.contains(#[trigger] ids[j]) implies more.contains(
            ids[j],
        ) by {
            if j < n {
                let a = picked.index_of(ids[j]);
                assert(more[a] == ids[j]);
            } else {
                assert(more[picked.len() as int] == ids[j]);
            }
        }
    } else {
        assert forall|k: SubscriptionIdentity| #[trigger] picked.contains(k) implies exists|j: int|
            0 <= j < n + 1 && #[trigger] ids[j] == k by {
            let j = choose|j: int| 0 <= j < n && #[trigger] ids[j] == k;
            assert(ids[j] == k);
        }
    }
}

/// One more identity in front of the cut.
proof fn lemma_take(ids: Seq<SubscriptionIdentity>, i: int)
    requires
        0 <= i < ids.len(),
    ensures
        ids.take(i + 1) == ids.take(i).push(ids[i]),
        ids.take(i + 1).drop_last() == ids.take(i),
        ids.take(i + 1).last() == ids[i],
        forall|k: SubscriptionIdentity| #[trigger]
            ids.take(i + 1).to_set().contains(k) <==> ids.take(i).to_set().contains(k) || k
                == ids[i],
{
    let more = ids.take(i + 1);
    let some = ids.take(i);
    assert(more =~= some.push(ids[i]));
    assert(more.drop_last() =~= some);
    assert forall|k: SubscriptionIdentity| #[trigger]
        more.to_set().contains(k) <==> some.to_set().contains(k) || k == ids[i] by {
        if more.contains(k) {
            let j = more.index_of(k);
            if j < i {
                assert(some[j] == k);
            }
        }
        if some.contains(k) {
            let j = some.index_of(k);
            assert(more[j] == k);
        }
        if k == ids[i] {
            assert(more[i] == k);
        }
    }
}

/// An identity of an increasing listing does not occur before its place.
proof fn lemma_not_yet(ids: Seq<SubscriptionIdentity>, i: int)
    requires
        increasing::<SubscriptionKey>(ids),
        0 <= i < ids.len(),
    ensures
        !ids.take(i).to_set().contains(ids[i]),
{
    if ids.take(i).contains(ids[i]) {
        let j = ids.take(i).index_of(ids[i]);
        lemma_increasing_distinct::<SubscriptionKey>(ids, i, j);
    }
}

/// Releasing the share of one more subscription.
proof fn lemma_releases_more(
    g: Graph,
    now: Graph,
    keys: Seq<SubscriptionIdentity>,
    k: SubscriptionIdentity,
)
    requires
        now.relays == relays_without(g, keys),
        record(now.subscriptions, k) == record(g.subscriptions, k),
    ensures
        after_release(now, k).relays == relays_without(g, keys.push(k)),
        released_shares(g, keys.push(k)) == released_shares(g, keys) + release_effects(now, k),
{
    assert(keys.push(k).drop_last() =~= keys);
}

proof fn lemma_removes_more(
    g: Graph,
    now: Graph,
    keys: Seq<SubscriptionIdentity>,
    k: SubscriptionIdentity,
    removed: RemovedRoutes,
)
    requires
        now.relays == relays_without(g, keys),
        record(now.subscriptions, k) == record(g.subscriptions, k),
        removed.routes@ == routes_of(g.subscriptions, keys) + route_of(
            record(now.subscriptions, k),
        ),
        removed.consumers@ == consumers_of(g.subscriptions, keys) + consumer_of(
            record(now.subscriptions, k),
        ),
        removed.relays@ == released_shares(g, keys) + release_effects(now, k),
    ensures
        removed.removes(g, keys.push(k)),
        after_release(now, k).relays == relays_without(g, keys.push(k)),
{
    assert(keys.push(k).drop_last() =~= keys);
}

/// Whether the publication is attached, or can be, and waits for a setup.
pub open spec fn attaches(
    subs: Subscriptions,
    k: SubscriptionIdentity,
    source: PublishedSourceId,
) -> bool {
    attachment(subs, k) is None || waits_for_setup(subs, k, source)
}

/// This publication is attached and nothing was set up for it yet.
pub open spec fn waits_for_setup(
    subs: Subscriptions,
    k: SubscriptionIdentity,
    source: PublishedSourceId,
) -> bool {
    attached_to(subs, k, source) && attachment(subs, k)->0.realization is Absent
}

pub open spec fn after_attach(
    subs: Subscriptions,
    k: SubscriptionIdentity,
    source: PublishedSourceId,
) -> Subscriptions {
    let known = record(subs, k);
    subs.insert(
        k,
        Subscription {
            intent: known.intent,
            current: match known.current {
                Some(current) => Some(current),
                None => Some(
                    CurrentPublication {
                        source_id: source,
                        selection: ConsumerSourceSelection::opened(known.intent.wants()),
                        realization: ConsumerRealization::Absent,
                    },
                ),
            },
        },
    )
}

/// The records with the publication of one subscription replaced.
pub open spec fn with_current(
    subs: Subscriptions,
    k: SubscriptionIdentity,
    current: CurrentPublication,
) -> Subscriptions {
    subs.insert(k, Subscription { intent: record(subs, k).intent, current: Some(current) })
}

pub open spec fn with_realization(
    subs: Subscriptions,
    k: SubscriptionIdentity,
    realization: ConsumerRealization,
) -> Subscriptions {
    with_current(subs, k, CurrentPublication { realization, ..attachment(subs, k)->0 })
}

/// The publication is attached and a committed route is of this connection.
pub open spec fn activity_applies(
    subs: Subscriptions,
    k: SubscriptionIdentity,
    source: PublishedSourceId,
    connection: ConnectionId,
) -> bool {
    attached_to(subs, k, source) && match attachment(subs, k)->0.realization {
        ConsumerRealization::Committed(committed) => committed.route.consumer_session.connection
            == connection,
        _ => true,
    }
}

pub open spec fn current_with_activity(
    current: CurrentPublication,
    active: bool,
    reason: Option<PolicyPauseReason>,
) -> CurrentPublication {
    let activated = current.activated(active);
    CurrentPublication {
        selection: match reason {
            Some(reason) => activated.selection.with_pause(reason),
            None => activated.selection,
        },
        realization: activated.realization.retuned(RelayRouteActivity::of(active)),
        ..activated
    }
}

/// The relay share of a subscription, where its activity is not the wanted one.
pub open spec fn share_to_change(
    subs: Subscriptions,
    k: SubscriptionIdentity,
    active: bool,
) -> Option<RouteRelay> {
    match record(subs, k).share() {
        Some(share) => if share.activity == RelayRouteActivity::of(active) {
            None
        } else {
            Some(RouteRelay { activity: RelayRouteActivity::of(active), ..share })
        },
        None => None,
    }
}

pub open spec fn after_activity(
    g: Graph,
    k: SubscriptionIdentity,
    active: bool,
    reason: Option<PolicyPauseReason>,
) -> Graph {
    Graph {
        subscriptions: with_current(
            g.subscriptions,
            k,
            current_with_activity(attachment(g.subscriptions, k)->0, active, reason),
        ),
        relays: match share_to_change(g.subscriptions, k, active) {
            Some(share) => with_owner(g.relays, k, share),
            None => g.relays,
        },
        ..g
    }
}

pub open spec fn activity_effects(g: Graph, k: SubscriptionIdentity, active: bool) -> Seq<
    TransportRelayRouteEffect,
> {
    match share_to_change(g.subscriptions, k, active) {
        Some(share) => with_owner_effects(g.relays, k, share),
        None => seq![],
    }
}

pub open spec fn after_reserve(
    g: Graph,
    k: SubscriptionIdentity,
    selection: ConsumerSourceSelection,
) -> Graph {
    let id = (g.reservations + 1) as u64;
    Graph {
        subscriptions: with_current(
            g.subscriptions,
            k,
            CurrentPublication {
                source_id: attachment(g.subscriptions, k)->0.source_id,
                selection,
                realization: ConsumerRealization::Pending(id, None),
            },
        ),
        reservations: id,
        ..g
    }
}

/// The reservation is still awaited for the publication it was made for.
pub open spec fn live(subs: Subscriptions, reservation: ConsumerRouteReservation) -> bool {
    attached_to(subs, reservation.key_id(), reservation.source()) && awaits(
        subs,
        reservation.key_id(),
        reservation.number(),
    )
}

/// The graph once the realization of a subscription is absent again.
pub open spec fn after_release(g: Graph, k: SubscriptionIdentity) -> Graph {
    Graph {
        subscriptions: with_realization(g.subscriptions, k, ConsumerRealization::Absent),
        relays: match record(g.subscriptions, k).share() {
            Some(share) => without_owner(g.relays, k, share.route.id()),
            None => g.relays,
        },
        ..g
    }
}

pub open spec fn release_effects(g: Graph, k: SubscriptionIdentity) -> Seq<
    TransportRelayRouteEffect,
> {
    match record(g.subscriptions, k).share() {
        Some(share) => without_owner_effects(g.relays, k, share.route),
        None => seq![],
    }
}

/// The graph once a pending realization is committed.
pub open spec fn after_commit(
    g: Graph,
    k: SubscriptionIdentity,
    route: TransportConsumerRoute,
    mid: String,
    selection: ConsumerSourceSelection,
    routed: RoutedConsumerId,
) -> Graph {
    let committed = CommittedConsumerRoute {
        route,
        mid,
        routed,
        relay: record(g.subscriptions, k).share(),
        pending_upgrade: None,
    };
    Graph {
        subscriptions: with_current(
            g.subscriptions,
            k,
            CurrentPublication {
                source_id: attachment(g.subscriptions, k)->0.source_id,
                selection,
                realization: ConsumerRealization::Committed(committed),
            },
        ),
        ..g
    }
}

/// This exact route is committed for this publication.
pub open spec fn routes(
    subs: Subscriptions,
    k: SubscriptionIdentity,
    source: PublishedSourceId,
    route: TransportConsumerRoute,
) -> bool {
    attached_to(subs, k, source) && match attachment(subs, k)->0.realization {
        ConsumerRealization::Committed(committed) => committed.route.id() == route.id(),
        _ => false,
    }
}

pub open spec fn after_selection(
    g: Graph,
    k: SubscriptionIdentity,
    selection: ConsumerSourceSelection,
) -> Graph {
    let current = attachment(g.subscriptions, k)->0;
    Graph {
        subscriptions: with_current(
            g.subscriptions,
            k,
            CurrentPublication {
                selection,
                realization: if selection.active {
                    current.realization
                } else {
                    current.realization.without_upgrade()
                },
                ..current
            },
        ),
        ..g
    }
}

pub open spec fn after_upgrade(
    g: Graph,
    k: SubscriptionIdentity,
    pending_upgrade: Option<PendingUpgrade>,
) -> Graph {
    let current = attachment(g.subscriptions, k)->0;
    let committed = current.realization->Committed_0;
    Graph {
        subscriptions: with_realization(
            g.subscriptions,
            k,
            ConsumerRealization::Committed(CommittedConsumerRoute { pending_upgrade, ..committed }),
        ),
        ..g
    }
}

/// Records after a non-empty intent update.
pub open spec fn intent_merged(
    subs: Subscriptions,
    k: SubscriptionIdentity,
    update: SourceSubscriptionIntent,
) -> Subscriptions {
    if update == SourceSubscriptionIntent::nothing() {
        subs
    } else {
        let known = record(subs, k);
        subs.insert(
            k,
            Subscription {
                intent: known.intent.merged(update),
                current: match (update.active, known.current) {
                    (Some(active), Some(current)) => Some(current.activated(active)),
                    (_, current) => current,
                },
            },
        )
    }
}

} // verus!
