//! What holds of subscriptions, reservations and relays across operations.

use vstd::prelude::*;

use crate::ids::{PublishedSourceId, UserIdentity};
use crate::order::OrdKey;
use crate::relay::{
    aggregate, owners_of, owns, relay_effects, wanted, with_owner, with_owner_effects,
    without_owner, without_owner_effects, Relays, RouteRelay,
};
use crate::route_graph::{
    after_activity, after_attach, after_commit, after_release, attached_keys, attached_to,
    attachment, awaits, consumers_of, detached, forgotten, intent_merged, live, receiver_keys,
    record, reset, routes_of, waits_for_setup, ConsumerRouteReservation, Graph, RemovedRoutes,
    Subscriptions,
};
use crate::source_model::{ConsumerSourceSelection, PolicyPauseReason, SourceSubscriptionIntent};
use crate::ids::RoutedConsumerId;
use crate::transport::{
    RelayIdentity, RelayRouteActivity, RelayRouteKey, SubscriptionIdentity,
    TransportConsumerRoute, TransportRelayRouteAction, TransportRelayRouteEffect,
};

verus! {

/// A publication that leaves takes no receiver's intent with it.
pub proof fn intent_survives_detach(
    subs: Subscriptions,
    source: PublishedSourceId,
    k: SubscriptionIdentity,
)
    ensures
        record(detached(subs, attached_keys(subs, source)), k).intent == record(subs, k).intent,
{
}

/// After a publication was detached nothing is attached to it, and no record that
/// says nothing is left of it.
pub proof fn detach_leaves_nothing_behind(
    subs: Subscriptions,
    source: PublishedSourceId,
    k: SubscriptionIdentity,
)
    ensures
        ({
            let after = detached(subs, attached_keys(subs, source));
            &&& !attached_to(after, k, source)
            &&& attached_to(subs, k, source) && after.contains_key(k) ==> after[k].intent
                != SourceSubscriptionIntent::nothing()
            &&& !attached_to(subs, k, source) ==> record(after, k) == record(subs, k)
        }),
{
}

/// A subscription that finds a publication again starts from the receiver's intent,
/// with nothing left of the selection it had before.
pub proof fn reattachment_starts_from_intent(
    subs: Subscriptions,
    gone: PublishedSourceId,
    fresh: PublishedSourceId,
    k: SubscriptionIdentity,
)
    requires
        attached_to(subs, k, gone),
    ensures
        ({
            let after = after_attach(detached(subs, attached_keys(subs, gone)), k, fresh);
            &&& waits_for_setup(after, k, fresh)
            &&& attachment(after, k)->0.selection == ConsumerSourceSelection::opened(
                record(subs, k).intent.wants(),
            )
        }),
{
}

/// A receiver that leaves takes all its subscriptions and intent with it, and those
/// of no other receiver.
pub proof fn leaving_forgets_the_receiver(
    subs: Subscriptions,
    receiver: UserIdentity,
    k: SubscriptionIdentity,
)
    ensures
        ({
            let after = forgotten(subs, receiver_keys(subs, receiver));
            &&& k.receiver == receiver ==> !after.contains_key(k)
            &&& k.receiver != receiver ==> record(after, k) == record(subs, k)
        }),
{
}

/// A replaced receiver keeps its intent and its publications; every one of them
/// waits for a setup again, as its intent wants it.
pub proof fn replacement_resets_to_intent(
    subs: Subscriptions,
    receiver: UserIdentity,
    k: SubscriptionIdentity,
)
    requires
        subs.contains_key(k),
    ensures
        ({
            let after = reset(subs, receiver_keys(subs, receiver));
            &&& record(after, k).intent == record(subs, k).intent
            &&& k.receiver != receiver ==> record(after, k) == record(subs, k)
            &&& k.receiver == receiver && attachment(subs, k) is Some ==> {
                &&& waits_for_setup(after, k, attachment(subs, k)->0.source_id)
                &&& attachment(after, k)->0.selection == ConsumerSourceSelection::opened(
                    record(subs, k).intent.wants(),
                )
            }
        }),
{
}

/// Later graphs revive nothing of what earlier ones had given up.
pub proof fn revival_is_transitive(first: Graph, second: Graph, third: Graph)
    requires
        second.revives_nothing_of(first),
        third.revives_nothing_of(second),
    ensures
        third.revives_nothing_of(first),
{
    assert forall|k: SubscriptionIdentity, id: u64|
        awaits(third.subscriptions, k, id) && id <= first.reservations implies #[trigger] awaits(
        first.subscriptions,
        k,
        id,
    ) by {
        assert(awaits(second.subscriptions, k, id));
    }
}

/// A reservation that is no longer awaited is never live again: no later commit
/// or release under it changes the graph.
pub proof fn spent_reservations_stay_spent(
    earlier: Graph,
    later: Graph,
    reservation: ConsumerRouteReservation,
)
    requires
        later.revives_nothing_of(earlier),
        reservation.number() <= earlier.reservations,
        !awaits(earlier.subscriptions, reservation.key_id(), reservation.number()),
    ensures
        !live(later.subscriptions, reservation),
{
    if awaits(later.subscriptions, reservation.key_id(), reservation.number()) {
        assert(awaits(earlier.subscriptions, reservation.key_id(), reservation.number()));
    }
}

/// Committing or releasing a reservation spends it.
pub proof fn completion_spends_the_reservation(
    g: Graph,
    reservation: ConsumerRouteReservation,
    route: TransportConsumerRoute,
    mid: String,
    selection: ConsumerSourceSelection,
    routed: RoutedConsumerId,
)
    requires
        live(g.subscriptions, reservation),
    ensures
        !awaits(
            after_commit(g, reservation.key_id(), route, mid, selection, routed).subscriptions,
            reservation.key_id(),
            reservation.number(),
        ),
        !awaits(
            after_release(g, reservation.key_id()).subscriptions,
            reservation.key_id(),
            reservation.number(),
        ),
{
}

/// A new reservation has a number that no subscription waits for yet.
pub proof fn reservation_numbers_are_fresh(g: Graph, k: SubscriptionIdentity)
    requires
        g.consistent(),
        g.reservations < u64::MAX,
    ensures
        !awaits(g.subscriptions, k, (g.reservations + 1) as u64),
{
}

/// A router that rejects a commit leaves the selection of the subscription as it was.
pub proof fn rejection_keeps_the_selection(g: Graph, k: SubscriptionIdentity)
    requires
        attachment(g.subscriptions, k) is Some,
    ensures
        attachment(after_release(g, k).subscriptions, k)->0.selection == attachment(
            g.subscriptions,
            k,
        )->0.selection,
        record(after_release(g, k).subscriptions, k).intent == record(g.subscriptions, k).intent,
{
}

/// In a consistent graph a relay exists exactly while some subscription holds a share
/// in it, and it is active exactly while one of those shares is.
pub proof fn relays_follow_their_shares(g: Graph, relay: RelayIdentity)
    requires
        g.consistent(),
    ensures
        g.relays.contains_key(relay) <==> exists|k: SubscriptionIdentity|
            #![trigger record(g.subscriptions, k)]
            holds(g.subscriptions, k, relay),
        g.relays.contains_key(relay) ==> (aggregate(g.relays[relay]) == Some(
            RelayRouteActivity::Active,
        ) <==> exists|k: SubscriptionIdentity|
            #![trigger record(g.subscriptions, k)]
            holds(g.subscriptions, k, relay) && record(g.subscriptions, k).share()->0.activity
                == RelayRouteActivity::Active),
{
    if g.relays.contains_key(relay) {
        let k = choose|k: SubscriptionIdentity| owns(g.relays, k, relay);
        assert(owns(g.relays, k, relay));
        assert(holds(g.subscriptions, k, relay));
        let owners = g.relays[relay];
        assert(owners.contains_key(k));
        assert(owners != Map::<SubscriptionIdentity, RelayRouteActivity>::empty());
        if wanted(owners) {
            let l = choose|l: SubscriptionIdentity|
                #[trigger] owners.contains_key(l) && owners[l] == RelayRouteActivity::Active;
            assert(owns(g.relays, l, relay));
            assert(holds(g.subscriptions, l, relay) && record(
                g.subscriptions,
                l,
            ).share()->0.activity == RelayRouteActivity::Active);
        }
        if exists|k: SubscriptionIdentity|
            #![trigger record(g.subscriptions, k)]
            holds(g.subscriptions, k, relay) && record(g.subscriptions, k).share()->0.activity
                == RelayRouteActivity::Active {
            let l = choose|k: SubscriptionIdentity|
                #![trigger record(g.subscriptions, k)]
                holds(g.subscriptions, k, relay) && record(
                    g.subscriptions,
                    k,
                ).share()->0.activity == RelayRouteActivity::Active;
            assert(owns(g.relays, l, relay));
            assert(owners.contains_key(l) && owners[l] == RelayRouteActivity::Active);
        }
    }
    if exists|k: SubscriptionIdentity|
        #![trigger record(g.subscriptions, k)]
        holds(g.subscriptions, k, relay) {
        let k = choose|k: SubscriptionIdentity|
            #![trigger record(g.subscriptions, k)]
            holds(g.subscriptions, k, relay);
        assert(owns(g.relays, k, relay));
    }
}

/// A subscription has a share in this relay.
pub open spec fn holds(subs: Subscriptions, k: SubscriptionIdentity, relay: RelayIdentity) -> bool {
    record(subs, k).share() matches Some(share) && share.route.id() == relay
}

/// What a worker makes of relay work, given the activity of the relay it has.
pub open spec fn apply_effects(
    state: Option<RelayRouteActivity>,
    effects: Seq<TransportRelayRouteEffect>,
) -> Option<RelayRouteActivity>
    decreases effects.len(),
{
    if effects.len() == 0 {
        state
    } else {
        let next = match effects[0].action {
            TransportRelayRouteAction::Install => Some(RelayRouteActivity::Inactive),
            TransportRelayRouteAction::SetActivity(activity) => Some(activity),
            TransportRelayRouteAction::Release => None,
        };
        apply_effects(next, effects.drop_first())
    }
}

/// A worker that applies the relay work of a claimed share has the relay at the
/// aggregate activity of its owners.
pub proof fn claims_keep_the_worker_in_step(
    relays: Relays,
    k: SubscriptionIdentity,
    share: RouteRelay,
)
    ensures
        apply_effects(
            aggregate(owners_of(relays, share.route.id())),
            with_owner_effects(relays, k, share),
        ) == aggregate(owners_of(with_owner(relays, k, share), share.route.id())),
{
    let owners = owners_of(relays, share.route.id());
    let more = owners.insert(k, share.activity);
    assert(more.contains_key(k));
    effects_reach_the_aggregate(share.route, aggregate(owners), aggregate(more));
}

/// A worker that applies the relay work of a released share has the relay at the
/// aggregate activity of the owners left, and none without owners.
pub proof fn releases_keep_the_worker_in_step(
    relays: Relays,
    k: SubscriptionIdentity,
    relay: RelayRouteKey,
)
    requires
        owns(relays, k, relay.id()),
    ensures
        apply_effects(
            aggregate(owners_of(relays, relay.id())),
            without_owner_effects(relays, k, relay),
        ) == aggregate(owners_of(without_owner(relays, k, relay.id()), relay.id())),
{
    let owners = relays[relay.id()];
    assert(owners.contains_key(k));
    effects_reach_the_aggregate(relay, aggregate(owners), aggregate(owners.remove(k)));
}

proof fn effects_reach_the_aggregate(
    route: RelayRouteKey,
    before: Option<RelayRouteActivity>,
    after: Option<RelayRouteActivity>,
)
    ensures
        apply_effects(before, relay_effects(route, before, after)) == after,
{
    let effects = relay_effects(route, before, after);
    reveal_with_fuel(apply_effects, 3);
    if effects.len() > 1 {
        assert(effects.drop_first().drop_first() =~= Seq::<TransportRelayRouteEffect>::empty());
    }
    if effects.len() > 0 {
        assert(effects.drop_first().len() == effects.len() - 1);
    }
}

/// The first owner of a relay installs it, and an owner that wants it activates it;
/// the last owner to go releases it.
pub proof fn first_owner_installs_and_last_releases(
    relays: Relays,
    k: SubscriptionIdentity,
    share: RouteRelay,
)
    ensures
        !relays.contains_key(share.route.id()) ==> with_owner_effects(relays, k, share).map_values(
            |effect: TransportRelayRouteEffect| effect.action,
        ) == if share.activity == RelayRouteActivity::Active {
            seq![
                TransportRelayRouteAction::Install,
                TransportRelayRouteAction::SetActivity(RelayRouteActivity::Active),
            ]
        } else {
            seq![TransportRelayRouteAction::Install]
        },
        owns(relays, k, share.route.id()) && relays[share.route.id()].remove(k) == Map::<
            SubscriptionIdentity,
            RelayRouteActivity,
        >::empty() ==> without_owner_effects(relays, k, share.route).map_values(
            |effect: TransportRelayRouteEffect| effect.action,
        ) == seq![TransportRelayRouteAction::Release],
{
    let owners = owners_of(relays, share.route.id());
    let more = owners.insert(k, share.activity);
    assert(more.contains_key(k));
    if share.activity == RelayRouteActivity::Active {
        assert(more.contains_key(k) && more[k] == RelayRouteActivity::Active);
    } else if !relays.contains_key(share.route.id()) {
        assert(!wanted(more));
    }
}

/// A policy pause withholds delivery and leaves the relay on the receiver's intent:
/// relay work does not depend on it.
pub proof fn policy_pause_leaves_the_relay_on_intent(
    g: Graph,
    k: SubscriptionIdentity,
    active: bool,
    reason: PolicyPauseReason,
)
    requires
        attachment(g.subscriptions, k) is Some,
    ensures
        after_activity(g, k, active, Some(reason)).relays == after_activity(
            g,
            k,
            active,
            None,
        ).relays,
        !attachment(
            after_activity(g, k, active, Some(reason)).subscriptions,
            k,
        )->0.selection.delivers(),
        record(after_activity(g, k, active, Some(reason)).subscriptions, k).share() matches Some(
            share,
        ) ==> share.activity == RelayRouteActivity::of(active),
{
}

/// Merging two updates one after the other is merging their merge.
pub proof fn intent_updates_compose(
    known: SourceSubscriptionIntent,
    first: SourceSubscriptionIntent,
    second: SourceSubscriptionIntent,
)
    ensures
        known.merged(first).merged(second) == known.merged(first.merged(second)),
        known.merged(SourceSubscriptionIntent::nothing()) == known,
        known.merged(known) == known,
{
}

/// An intent update touches one subscription, and detaches nothing.
pub proof fn intent_updates_are_local(
    subs: Subscriptions,
    k: SubscriptionIdentity,
    update: SourceSubscriptionIntent,
    l: SubscriptionIdentity,
)
    ensures
        l != k ==> record(intent_merged(subs, k, update), l) == record(subs, l),
        record(intent_merged(subs, k, update), k).intent == record(subs, k).intent.merged(update),
        attachment(intent_merged(subs, k, update), k) is Some <==> attachment(subs, k) is Some,
        record(intent_merged(subs, k, update), k).share() == record(subs, k).share(),
{
}

/// What is removed with its routes are their consumers: one for each.
pub proof fn removed_routes_drop_their_consumers(
    removed: RemovedRoutes,
    g: Graph,
    keys: Seq<SubscriptionIdentity>,
    i: int,
)
    requires
        removed.removes(g, keys),
        0 <= i < keys.len(),
        record(g.subscriptions, keys[i]).routed(),
    ensures
        removed.consumers@.len() == removed.routes@.len(),
        exists|n: int|
            {
                &&& 0 <= n < removed.routes@.len()
                &&& #[trigger] removed.routes@[n] == record(
                    g.subscriptions,
                    keys[i],
                ).current->0.realization->Committed_0.route
                &&& removed.consumers@[n] == record(
                    g.subscriptions,
                    keys[i],
                ).current->0.realization->Committed_0.routed
            },
{
    lemma_consumers_beside_routes(g.subscriptions, keys, i);
}

proof fn lemma_consumers_beside_routes(
    subs: Subscriptions,
    keys: Seq<SubscriptionIdentity>,
    i: int,
)
    ensures
        consumers_of(subs, keys).len() == routes_of(subs, keys).len(),
        0 <= i < keys.len() && record(subs, keys[i]).routed() ==> exists|n: int|
            {
                &&& 0 <= n < routes_of(subs, keys).len()
                &&& #[trigger] routes_of(subs, keys)[n] == record(
                    subs,
                    keys[i],
                ).current->0.realization->Committed_0.route
                &&& consumers_of(subs, keys)[n] == record(
                    subs,
                    keys[i],
                ).current->0.realization->Committed_0.routed
            },
    decreases keys.len(),
{
    if keys.len() > 0 {
        let fewer = keys.drop_last();
        lemma_consumers_beside_routes(subs, fewer, i);
        if 0 <= i < keys.len() && record(subs, keys[i]).routed() {
            let early = routes_of(subs, fewer);
            let route = record(subs, keys[i]).current->0.realization->Committed_0.route;
            if i < fewer.len() {
                assert(fewer[i] == keys[i]);
                let n = choose|n: int|
                    {
                        &&& 0 <= n < early.len()
                        &&& #[trigger] routes_of(subs, fewer)[n] == route
                        &&& consumers_of(subs, fewer)[n] == record(
                            subs,
                            keys[i],
                        ).current->0.realization->Committed_0.routed
                    };
                assert(routes_of(subs, keys)[n] == route);
            } else {
                assert(routes_of(subs, keys)[early.len() as int] == route);
            }
        }
    }
}

} // verus!
