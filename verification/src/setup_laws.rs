//! Which setups a room plans, which it carries through, and which publications count for
//! speech.

use vstd::prelude::*;

use crate::consumer_setup::{
    CommittedConsumerSetup, ConsumerSetupTarget, DeclaredConsumerSetup, PendingConsumerSetup,
};
use crate::delivery_laws::committed;
use crate::ids::{
    ConnectionId, MediaWorkerId, OutboundLane, PublishedSourceId, RoutedConsumerId,
    TransportMediaId, UserId, UserIdentity, UserStreamId,
};
use crate::key_index::in_order;
use crate::ord_map::lemma_sorted_lists;
use crate::order::OrdKey;
use crate::producer::{describes_publication, ValidatedPublish};
use crate::relay::RouteRelay;
use crate::room_laws::valid;
use crate::route_graph::{
    after_selection, after_upgrade, attachment, declined_keys, record, relay_reservation_effects,
    routes_of, ConsumerRealization, Graph, PendingUpgrade,
};
use crate::source_model::{
    ConsumerSourceSelection, MediaCapabilities, PublishedSourceDescriptor, RtpStream,
    SessionUploadEncoding, SourceSubscriptionIntent,
};
use crate::sources::{source_order, Sources};
use crate::state::State;
use crate::subscription::{
    all_planned, are_reserved, attaches_scope, by_rank, changes_intent, declines, is_reserved,
    negotiated, planned, plans, plans_scope, ready, reserves, ReceiverRouteCommit,
    ReceiverRouteScope,
};
use crate::topology::{
    considered, crosses_workers, intent_acts, intent_relays, picked, placement_outcome,
    receiver_targets, setup_mid, setup_outcome, setup_relays, speaks_through, target_for,
    targets_for, upgradable, with_receivers, with_setup, with_targets, RouterError,
    SessionPlacementCommit, SessionPlacementRejection, Topology,
};
use crate::transport::{
    RelayRouteActivity, SubscriptionIdentity, SubscriptionKey, TransportConsumerRoute,
    TransportRelayRouteAction, TransportRelayRouteEffect, TransportSessionKey, TransportTeardown,
};
use crate::transport_plan::ReceiverRouteWork;

verus! {

/// The subscription of a session to a publication.
pub open spec fn own_subscription(
    t: Topology,
    session: TransportSessionKey,
    id: u64,
) -> SubscriptionIdentity {
    SubscriptionIdentity {
        receiver: session.user.id(),
        publisher: t.sources[id].transport.session.user.id(),
        stream: t.sources[id].descriptor.stream_id.id(),
    }
}

proof fn lemma_last<T>(all: Seq<T>, value: T)
    requires
        all.len() > 0,
    ensures
        all.contains(value) <==> all.drop_last().contains(value) || value == all.last(),
{
    let fewer = all.drop_last();
    if all.contains(value) {
        let i = all.index_of(value);
        if i < fewer.len() {
            assert(fewer[i] == value);
        }
    }
    if fewer.contains(value) {
        assert(all[fewer.index_of(value)] == value);
    }
    if value == all.last() {
        assert(all[all.len() - 1] == value);
    }
}

proof fn lemma_with_targets(
    t: Topology,
    session: TransportSessionKey,
    ids: Seq<u64>,
    k: SubscriptionIdentity,
)
    ensures
        ({
            let after = with_targets(t, session, ids);
            let now = attachment(after.graph.subscriptions, k);
            &&& after.sources == t.sources
            &&& attachment(t.graph.subscriptions, k) is Some ==> now == attachment(
                t.graph.subscriptions,
                k,
            )
            &&& now is Some && attachment(t.graph.subscriptions, k) is None ==> exists|j: int|
                0 <= j < ids.len() && k == #[trigger] own_subscription(t, session, ids[j])
                    && now->0.source_id == t.sources[ids[j]].descriptor.source_id
                    && now->0.realization is Absent
        }),
    decreases ids.len(),
{
    if ids.len() > 0 {
        let fewer = ids.drop_last();
        lemma_with_targets(t, session, fewer, k);
        let before = attachment(with_targets(t, session, fewer).graph.subscriptions, k);
        let now = attachment(with_targets(t, session, ids).graph.subscriptions, k);
        if now is Some && attachment(t.graph.subscriptions, k) is None {
            if before is Some {
                let j = choose|j: int|
                    0 <= j < fewer.len() && k == #[trigger] own_subscription(t, session, fewer[j])
                        && before->0.source_id == t.sources[fewer[j]].descriptor.source_id
                        && before->0.realization is Absent;
                assert(fewer[j] == ids[j]);
                assert(k == own_subscription(t, session, ids[j]));
            } else {
                assert(k == own_subscription(t, session, ids[ids.len() - 1]));
            }
        }
    }
}

/// A receiver is set up for every publication of others that nothing was attached for yet,
/// and for nothing that is its own, or that is set up or being set up already.
pub proof fn missing_routes_are_set_up(
    t: Topology,
    session: TransportSessionKey,
    ids: Seq<u64>,
    id: u64,
)
    requires
        t.consistent(),
        ids.contains(id),
        forall|i: int| 0 <= i < ids.len() ==> t.sources.contains_key(#[trigger] ids[i]),
    ensures
        ({
            let source = t.sources[id];
            let own = own_subscription(t, session, id);
            let known = attachment(t.graph.subscriptions, own);
            let targets = targets_for(t, session, ids);
            let mine = source.descriptor.owner.id() == session.user.id();
            &&& !mine && known is None ==> exists|i: int|
                0 <= i < targets.len() && (#[trigger] targets[i]).source_id
                    == source.descriptor.source_id && targets[i].session == session
                    && targets[i].source == source.transport && targets[i].kind
                    == source.descriptor.media_kind && targets[i].routed == source.routed
                    && targets[i].stream == source.descriptor.stream_id
            &&& mine || (known is Some && !(known->0.realization is Absent)) ==> forall|i: int|
                0 <= i < targets.len() ==> (#[trigger] targets[i]).source_id
                    != source.descriptor.source_id
        }),
    decreases ids.len(),
{
    let fewer = ids.drop_last();
    let last = ids.last();
    let before = with_targets(t, session, fewer);
    let source = t.sources[id];
    let own = own_subscription(t, session, id);
    let targets = targets_for(t, session, ids);
    let early = targets_for(t, session, fewer);
    assert forall|i: int| 0 <= i < fewer.len() implies t.sources.contains_key(
        #[trigger] fewer[i],
    ) by {
        assert(ids[i] == fewer[i]);
    }
    lemma_last(ids, id);
    assert(ids[ids.len() - 1] == last);
    assert(t.sources.contains_key(last));
    lemma_with_targets(t, session, fewer, own);
    lemma_targets_listed(t, session, fewer);
    if fewer.contains(id) {
        missing_routes_are_set_up(t, session, fewer, id);
        let known = attachment(t.graph.subscriptions, own);
        if source.descriptor.owner.id() != session.user.id() && known is None {
            let i = choose|i: int|
                0 <= i < early.len() && (#[trigger] early[i]).source_id
                    == source.descriptor.source_id && early[i].session == session
                    && early[i].source == source.transport && early[i].kind
                    == source.descriptor.media_kind && early[i].routed == source.routed
                    && early[i].stream == source.descriptor.stream_id;
            assert(targets[i] == early[i]);
        }
    } else {
        let known = attachment(before.graph.subscriptions, own);
        if attachment(t.graph.subscriptions, own) is None && known is Some {
            let j = choose|j: int|
                0 <= j < fewer.len() && own == #[trigger] own_subscription(t, session, fewer[j]);
            assert(t.sources.contains_key(fewer[j]) && t.sources.contains_key(id));
            assert(t.sources[fewer[j]].stream() == t.sources[id].stream());
            assert(fewer.contains(fewer[j]));
        }
        if target_for(before, session, last) is Some {
            assert(targets[early.len() as int] == target_for(before, session, last)->0);
        }
        assert forall|i: int| 0 <= i < early.len() implies (#[trigger] early[i]).source_id
            != source.descriptor.source_id by {
            let j = choose|j: int|
                0 <= j < fewer.len() && early[i].source_id == t.sources[
                    #[trigger] fewer[j]
                ].descriptor.source_id;
            assert(fewer.contains(fewer[j]));
            assert(t.sources.contains_key(fewer[j]));
        }
    }
    let known = attachment(t.graph.subscriptions, own);
    if source.descriptor.owner.id() == session.user.id() || (known is Some && !(
    known->0.realization is Absent)) {
        assert forall|i: int| 0 <= i < targets.len() implies (#[trigger] targets[i]).source_id
            != source.descriptor.source_id by {
            if i < early.len() {
                assert(targets[i] == early[i]);
            } else {
                assert(target_for(before, session, last) == Some(targets[i]));
                assert(last != id);
                assert(t.sources[last].descriptor.source_id.0 == last);
                assert(t.sources.contains_key(id));
            }
        }
    }
}

/// Every setup is of one of the publications that are considered.
proof fn lemma_targets_listed(t: Topology, session: TransportSessionKey, ids: Seq<u64>)
    ensures
        forall|i: int|
            0 <= i < targets_for(t, session, ids).len() ==> exists|j: int|
                0 <= j < ids.len() && (#[trigger] targets_for(t, session, ids)[i]).source_id
                    == t.sources[#[trigger] ids[j]].descriptor.source_id,
    decreases ids.len(),
{
    if ids.len() > 0 {
        let fewer = ids.drop_last();
        lemma_targets_listed(t, session, fewer);
        let early = targets_for(t, session, fewer);
        let all = targets_for(t, session, ids);
        lemma_with_targets(
            t,
            session,
            fewer,
            own_subscription(t, session, ids.last()),
        );
        assert forall|i: int| 0 <= i < all.len() implies exists|j: int|
            0 <= j < ids.len() && (#[trigger] all[i]).source_id == t.sources[
                #[trigger] ids[j]
            ].descriptor.source_id by {
            if i < early.len() {
                assert(all[i] == early[i]);
                let j = choose|j: int|
                    0 <= j < fewer.len() && early[i].source_id == t.sources[
                        #[trigger] fewer[j]
                    ].descriptor.source_id;
                assert(ids[j] == fewer[j]);
            } else {
                assert(all[i].source_id == t.sources[ids[ids.len() - 1]].descriptor.source_id);
            }
        }
    }
}

proof fn lemma_with_receivers(
    t: Topology,
    id: u64,
    receivers: Seq<(UserId, ConnectionId)>,
    k: SubscriptionIdentity,
)
    ensures
        ({
            let after = with_receivers(t, id, receivers);
            &&& after.sources == t.sources
            &&& after.placements == t.placements
            &&& after.instance == t.instance
            &&& (forall|j: int|
                0 <= j < receivers.len() ==> (#[trigger] receivers[j]).0.id() != k.receiver)
                ==> attachment(after.graph.subscriptions, k) == attachment(
                t.graph.subscriptions,
                k,
            )
        }),
    decreases receivers.len(),
{
    if receivers.len() > 0 {
        let fewer = receivers.drop_last();
        lemma_with_receivers(t, id, fewer, k);
        if forall|j: int|
            0 <= j < receivers.len() ==> (#[trigger] receivers[j]).0.id() != k.receiver {
            assert forall|j: int| 0 <= j < fewer.len() implies (#[trigger] fewer[j]).0.id()
                != k.receiver by {
                assert(fewer[j] == receivers[j]);
            }
            assert(receivers[receivers.len() - 1].0.id() != k.receiver);
        }
    }
}

/// A new publication is set up for everyone else who is placed on its connection, and not
/// for its publisher.
pub proof fn a_publication_is_set_up_for_everyone_else(
    t: Topology,
    id: u64,
    receivers: Seq<(UserId, ConnectionId)>,
    i: int,
)
    requires
        t.sources.contains_key(id),
        0 <= i < receivers.len(),
        t.placements.contains_key(receivers[i].0.id()),
        t.placements[receivers[i].0.id()].connection == receivers[i].1,
        forall|a: int, b: int|
            0 <= a < b < receivers.len() ==> (#[trigger] receivers[a]).0.id() != (
            #[trigger] receivers[b]).0.id(),
        attachment(
            t.graph.subscriptions,
            SubscriptionIdentity {
                receiver: receivers[i].0.id(),
                publisher: t.sources[id].transport.session.user.id(),
                stream: t.sources[id].descriptor.stream_id.id(),
            },
        ) is None,
    ensures
        t.sources[id].descriptor.owner.id() != receivers[i].0.id() ==> exists|j: int|
            {
                let targets = receiver_targets(t, id, receivers);
                &&& 0 <= j < targets.len()
                &&& (#[trigger] receiver_targets(t, id, receivers)[j]).session.user
                    == receivers[i].0
                &&& targets[j].session.connection == receivers[i].1
                &&& targets[j].source == t.sources[id].transport
                &&& targets[j].source_id == t.sources[id].descriptor.source_id
                &&& targets[j].kind == t.sources[id].descriptor.media_kind
            },
        forall|j: int|
            0 <= j < receiver_targets(t, id, receivers).len() ==> (#[trigger] receiver_targets(
                t,
                id,
                receivers,
            )[j]).session.user.id() != t.sources[id].descriptor.owner.id(),
    decreases receivers.len(),
{
    let fewer = receivers.drop_last();
    let k = SubscriptionIdentity {
        receiver: receivers[i].0.id(),
        publisher: t.sources[id].transport.session.user.id(),
        stream: t.sources[id].descriptor.stream_id.id(),
    };
    let early = receiver_targets(t, id, fewer);
    let targets = receiver_targets(t, id, receivers);
    lemma_with_receivers(t, id, fewer, k);
    lemma_never_own(t, id, receivers);
    if t.sources[id].descriptor.owner.id() != receivers[i].0.id() {
        if i < fewer.len() {
            assert(fewer[i] == receivers[i]);
            assert forall|a: int, b: int| 0 <= a < b < fewer.len() implies (
            #[trigger] fewer[a]).0.id() != (#[trigger] fewer[b]).0.id() by {
                assert(receivers[a].0.id() != receivers[b].0.id());
            }
            a_publication_is_set_up_for_everyone_else(t, id, fewer, i);
            let j = choose|j: int|
                {
                    &&& 0 <= j < early.len()
                    &&& (#[trigger] receiver_targets(t, id, fewer)[j]).session.user
                        == receivers[i].0
                    &&& early[j].session.connection == receivers[i].1
                    &&& early[j].source == t.sources[id].transport
                    &&& early[j].source_id == t.sources[id].descriptor.source_id
                    &&& early[j].kind == t.sources[id].descriptor.media_kind
                };
            assert(targets[j] == early[j]);
        } else {
            assert forall|j: int| 0 <= j < fewer.len() implies (#[trigger] fewer[j]).0.id()
                != k.receiver by {
                assert(receivers[j].0.id() != receivers[i].0.id());
            }
            assert(targets[early.len() as int].session.user == receivers[i].0);
        }
    }
}

proof fn lemma_never_own(t: Topology, id: u64, receivers: Seq<(UserId, ConnectionId)>)
    ensures
        forall|j: int|
            0 <= j < receiver_targets(t, id, receivers).len() ==> (#[trigger] receiver_targets(
                t,
                id,
                receivers,
            )[j]).session.user.id() != t.sources[id].descriptor.owner.id(),
    decreases receivers.len(),
{
    if receivers.len() > 0 {
        let fewer = receivers.drop_last();
        lemma_never_own(t, id, fewer);
        let some: SubscriptionIdentity = arbitrary();
        lemma_with_receivers(t, id, fewer, some);
        let early = receiver_targets(t, id, fewer);
        let targets = receiver_targets(t, id, receivers);
        assert forall|j: int| 0 <= j < targets.len() implies (
        #[trigger] targets[j]).session.user.id() != t.sources[id].descriptor.owner.id() by {
            if j < early.len() {
                assert(targets[j] == early[j]);
            }
        }
    }
}

proof fn lemma_picked(sources: Sources, ids: Seq<u64>, owner: Option<UserIdentity>, id: u64)
    ensures
        picked(sources, ids, owner).contains(id) <==> ids.contains(id) && (owner is None
            || sources[id].descriptor.owner.id() == owner->0),
    decreases ids.len(),
{
    if ids.len() > 0 {
        let fewer = ids.drop_last();
        lemma_picked(sources, fewer, owner, id);
        lemma_last(ids, id);
        let all = picked(sources, ids, owner);
        let early = picked(sources, fewer, owner);
        if all.len() > early.len() {
            assert(all.drop_last() =~= early);
            lemma_last(all, id);
        }
    }
}

/// A receiver that becomes ready is considered for every publication of the room, and one
/// that asks for the streams of a user for those of that user.
pub proof fn publications_are_considered(sources: Sources, owner: Option<UserIdentity>, id: u64)
    requires
        sources.dom().finite(),
    ensures
        considered(sources, owner).contains(id) <==> sources.contains_key(id) && (owner is None
            || sources[id].descriptor.owner.id() == owner->0),
{
    lemma_sorted_lists::<PublishedSourceId>(sources.dom());
    assert(source_order(sources).contains(id) <==> sources.dom().contains(id));
    lemma_picked(sources, source_order(sources), owner, id);
}

/// A setup is reserved exactly for a receiver that is there on this connection and has
/// negotiated, for a publication that is still the one that was meant, where a format was
/// agreed on and nothing was set up yet. Nothing else is touched by it.
pub proof fn setups_are_reserved_for_the_ready(
    st: State,
    target: ConsumerSetupTarget,
    answer: Option<RtpStream>,
    other: SubscriptionIdentity,
)
    ensures
        ({
            let user = target.session.user.id();
            let sources = st.topology.sources;
            let own = SubscriptionIdentity {
                receiver: user,
                publisher: target.source.session.user.id(),
                stream: target.stream.id(),
            };
            let known = attachment(st.topology.graph.subscriptions, own);
            let after = planned(st, target, answer);
            let met = {
                &&& st.users.contains_key(user)
                &&& st.users[user].connection_id == target.session.connection
                &&& st.users[user].capabilities is Some
                &&& sources.contains_key(target.source_id.0)
                &&& sources[target.source_id.0].transport.id() == target.source.id()
                &&& sources[target.source_id.0].descriptor.source_id == target.source_id
                &&& sources[target.source_id.0].descriptor.stream_id.id() == target.stream.id()
                &&& sources[target.source_id.0].descriptor.media_kind == target.kind
                &&& sources[target.source_id.0].routed == target.routed
            };
            &&& ready(st, target) <==> met
            &&& reserves(st, target, answer) <==> met && answer is Some && known is Some
                && known->0.source_id == target.source_id && known->0.realization is Absent
            &&& reserves(st, target, answer) ==> {
                let now = attachment(after.topology.graph.subscriptions, own);
                now is Some && now->0.realization is Pending && now->0.source_id
                    == target.source_id
            }
            &&& !reserves(st, target, answer) ==> after.topology == st.topology
            &&& st.next_consumer < u64::MAX ==> after.next_consumer == st.next_consumer + if met
                && answer is Some {
                1int
            } else {
                0
            }
            &&& other != own ==> record(after.topology.graph.subscriptions, other) == record(
                st.topology.graph.subscriptions,
                other,
            )
            &&& after.users == st.users && after.topology.sources == st.topology.sources
            &&& record(after.topology.graph.subscriptions, own).intent == record(
                st.topology.graph.subscriptions,
                own,
            ).intent
        }),
{
}

/// There are no more setups than targets, and each is of one of the targets.
pub proof fn setups_are_of_their_targets(
    st: State,
    targets: Seq<ConsumerSetupTarget>,
    answers: Seq<Option<RtpStream>>,
    setups: Seq<PendingConsumerSetup>,
    i: int,
)
    requires
        are_reserved(st, targets, answers, setups),
        answers.len() == targets.len(),
        0 <= i < setups.len(),
    ensures
        setups.len() <= targets.len(),
        exists|j: int|
            i <= j < targets.len() && #[trigger] targets[j] == setups[i].target && answers[j]
                == Some(setups[i].rtp),
    decreases targets.len(),
{
    if targets.len() > 0 {
        let fewer = targets.drop_last();
        let before = crate::subscription::all_planned(st, fewer, answers.drop_last());
        if reserves(before, targets.last(), answers.last()) {
            if i < setups.len() - 1 {
                setups_are_of_their_targets(
                    st,
                    fewer,
                    answers.drop_last(),
                    setups.drop_last(),
                    i,
                );
                let j = choose|j: int|
                    i <= j < fewer.len() && #[trigger] fewer[j] == setups.drop_last()[i].target
                        && answers.drop_last()[j] == Some(setups.drop_last()[i].rtp);
                assert(targets[j] == setups[i].target);
            } else {
                if i > 0 {
                    setups_are_of_their_targets(
                        st,
                        fewer,
                        answers.drop_last(),
                        setups.drop_last(),
                        i - 1,
                    );
                }
                assert(targets[targets.len() - 1] == setups[i].target);
            }
        } else {
            setups_are_of_their_targets(st, fewer, answers.drop_last(), setups, i);
            let j = choose|j: int|
                i <= j < fewer.len() && #[trigger] fewer[j] == setups[i].target
                    && answers.drop_last()[j] == Some(setups[i].rtp);
            assert(targets[j] == setups[i].target);
        }
    }
}

/// A setup between users of one worker needs no relay and makes none; one that crosses
/// workers takes a share in the relay of its publication to the receiver's worker.
pub proof fn relays_cross_workers(
    g: Graph,
    target: ConsumerSetupTarget,
    selection: ConsumerSourceSelection,
)
    ensures
        crosses_workers(target) <==> target.source.session.worker != target.session.worker,
        target.source.session.worker == target.session.worker ==> setup_relays(
            g,
            target,
            selection,
        ).len() == 0 && with_setup(g, target, selection).relays == g.relays,
        target.source.session.worker != target.session.worker ==> ({
            let relay = crate::transport::RelayIdentity {
                source: target.source.id(),
                target_worker: target.session.worker,
            };
            with_setup(g, target, selection).relays.contains_key(relay)
        }),
{
}

/// A committed track is known by the name that the receiver declared, else by the one that
/// was negotiated, else by its number.
pub proof fn tracks_have_a_name(setup: DeclaredConsumerSetup)
    ensures
        setup.mid matches Some(mid) ==> setup_mid(setup) == mid@,
        setup.mid is None ==> (setup.pending.rtp.mid matches Some(mid) ==> setup_mid(setup)
            == mid@),
        setup.mid is None && setup.pending.rtp.mid is None ==> setup_mid(setup)
            == setup.pending.consumer.text(),
{
}

/// Routes that a receiver declines are taken down and wait to be set up anew, as they were
/// asked for; every other route stays. The receiver is told its tracks exactly where it
/// lost one, and without a negotiation.
pub proof fn declined_routes_are_given_up(
    st: State,
    session: TransportSessionKey,
    declined: Seq<TransportMediaId>,
    sender: OutboundLane,
    after: State,
    commit: ReceiverRouteCommit,
    k: SubscriptionIdentity,
)
    requires
        st.topology.graph.subscriptions.dom().finite(),
        declines(st, session, declined, sender, after, commit),
    ensures
        ({
            let before = attachment(st.topology.graph.subscriptions, k);
            let now = attachment(after.topology.graph.subscriptions, k);
            let given_up = committed(st.topology, k) && {
                let route = before->0.realization->Committed_0.route;
                k.receiver == session.user.id() && route.consumer_session.id() == session.id()
                    && declined.contains(route.consumer_media)
            };
            &&& !given_up ==> now == before
            &&& given_up ==> {
                let route = before->0.realization->Committed_0.route;
                &&& now is Some && now->0.realization is Absent
                &&& now->0.source_id == before->0.source_id
                &&& now->0.selection == before->0.selection
                &&& commit.work.teardown@.contains(
                    TransportTeardown::RemoveMedia {
                        session_key: route.consumer_session,
                        transport_media_id: route.consumer_media,
                    },
                )
                &&& commit.dropped_consumers@.contains(before->0.realization->Committed_0.routed)
                &&& commit.track_snapshots@.len() == 1
                &&& commit.track_snapshots@[0].0 == sender
                &&& !commit.track_snapshots@[0].1.snapshot.requires_negotiation
            }
            &&& record(after.topology.graph.subscriptions, k).intent == record(
                st.topology.graph.subscriptions,
                k,
            ).intent
            &&& commit.work.teardown@.len() == 0 <==> commit.track_snapshots@.len() == 0
            &&& after.users == st.users && after.topology.sources == st.topology.sources
        }),
{
    let subs = st.topology.graph.subscriptions;
    let members = declined_keys(subs, session, declined);
    assert(members.subset_of(subs.dom()));
    vstd::set_lib::lemma_len_subset(members, subs.dom());
    lemma_sorted_lists::<SubscriptionKey>(members);
    let keys = in_order(members);
    let lost = routes_of(subs, keys);
    assert(crate::subscription::declined_tracks(st, session, declined) == lost);
    if members.contains(k) {
        let route = attachment(subs, k)->0.realization->Committed_0.route;
        assert(record(subs, k).routed());
        assert(keys.contains(k));
        lemma_routes_of(subs, keys, k);
        lemma_consumers_of(subs, keys, k);
        let i = lost.index_of(route);
        assert(commit.work.teardown@[i] == (TransportTeardown::RemoveMedia {
            session_key: route.consumer_session,
            transport_media_id: route.consumer_media,
        }));
    }
}

proof fn lemma_routes_of(
    subs: crate::route_graph::Subscriptions,
    keys: Seq<SubscriptionIdentity>,
    k: SubscriptionIdentity,
)
    requires
        keys.contains(k),
        record(subs, k).routed(),
    ensures
        routes_of(subs, keys).contains(
            crate::route_graph::committed_route(record(subs, k)).route,
        ),
    decreases keys.len(),
{
    let all = routes_of(subs, keys);
    let before = routes_of(subs, keys.drop_last());
    let route = crate::route_graph::committed_route(record(subs, k)).route;
    lemma_last(keys, k);
    if keys.drop_last().contains(k) {
        lemma_routes_of(subs, keys.drop_last(), k);
        assert(all[before.index_of(route)] == route);
    } else {
        assert(all[before.len() as int] == route);
    }
}

proof fn lemma_consumers_of(
    subs: crate::route_graph::Subscriptions,
    keys: Seq<SubscriptionIdentity>,
    k: SubscriptionIdentity,
)
    requires
        keys.contains(k),
        record(subs, k).routed(),
    ensures
        crate::route_graph::consumers_of(subs, keys).contains(
            crate::route_graph::committed_route(record(subs, k)).routed,
        ),
    decreases keys.len(),
{
    let all = crate::route_graph::consumers_of(subs, keys);
    let before = crate::route_graph::consumers_of(subs, keys.drop_last());
    let routed = crate::route_graph::committed_route(record(subs, k)).routed;
    lemma_last(keys, k);
    if keys.drop_last().contains(k) {
        lemma_consumers_of(subs, keys.drop_last(), k);
        assert(all[before.index_of(routed)] == routed);
    } else {
        assert(all[before.len() as int] == routed);
    }
}

/// The publication detects speech, and its owner has something on air to be promoted for.
pub open spec fn heard(
    sources: Sources,
    media: TransportMediaId,
    owner: UserIdentity,
    other: u64,
) -> bool {
    exists|id: u64| #[trigger]
        sources.contains_key(id) && {
            &&& sources[id].transport.media == media
            &&& sources[id].descriptor.owner.id() == owner
            &&& sources[id].descriptor.policy.active_speaker matches Some(detector)
                && detector.role is Detector && {
                &&& sources.contains_key(other)
                &&& sources[other].active
                &&& sources[other].descriptor.owner.id() == owner
                &&& sources[other].descriptor.policy.active_speaker matches Some(shown)
                    && shown.role is Promotable && shown.group == detector.group
            }
        }
}

/// Speech is that of a user who has something on air to be promoted, in the group of the
/// publication that detected it. A user who paused everything that could be promoted, and
/// one who publishes nothing that detects, does not speak.
pub proof fn speakers_have_something_to_show(
    sources: Sources,
    media: TransportMediaId,
    r: Option<UserId>,
    user: UserIdentity,
    other: u64,
)
    requires
        speaks_through(sources, media, r),
    ensures
        r matches Some(owner) ==> exists|shown: u64| heard(sources, media, owner.id(), shown),
        heard(sources, media, user, other) && (forall|a: u64, b: u64| #[trigger]
            sources.contains_key(a) && #[trigger] sources.contains_key(b)
                && sources[a].transport.media == sources[b].transport.media ==> a == b) ==> (
        r matches Some(owner) && owner.id() == user),
{
    if r is Some {
        let owner = r->0;
        let id = choose|id: u64|
            #![trigger crate::sources::first_with_media(sources, media, id)]
            crate::sources::first_with_media(sources, media, id)
                && sources[id].descriptor.owner == owner && crate::topology::detects(sources, id);
        let group = sources[id].descriptor.policy.active_speaker->0.group;
        let shown = choose|shown: u64| #[trigger]
            sources.contains_key(shown) && crate::sources::promotable(
                sources[shown],
                owner.id(),
                group,
            );
        assert(sources.contains_key(id));
        assert(heard(sources, media, owner.id(), shown));
    }
    if heard(sources, media, user, other) && (forall|a: u64, b: u64| #[trigger]
        sources.contains_key(a) && #[trigger] sources.contains_key(b) && sources[a].transport.media
            == sources[b].transport.media ==> a == b) {
        let id = choose|id: u64| #[trigger]
            sources.contains_key(id) && sources[id].transport.media == media
                && sources[id].descriptor.owner.id() == user
                && (sources[id].descriptor.policy.active_speaker matches Some(detector)
                && detector.role is Detector && sources.contains_key(other)
                && sources[other].active && sources[other].descriptor.owner.id() == user && (
            sources[other].descriptor.policy.active_speaker matches Some(shown) && shown.role
                is Promotable && shown.group == detector.group));
        assert(sources.contains_key(id) && sources.contains_key(other));
        assert(crate::sources::promotable(
            sources[other],
            user,
            sources[id].descriptor.policy.active_speaker->0.group,
        ));
        assert(crate::topology::detects(sources, id));
        assert(crate::sources::first_with_media(sources, media, id));
        if r is Some {
            let found = choose|found: u64|
                #![trigger crate::sources::first_with_media(sources, media, found)]
                crate::sources::first_with_media(sources, media, found)
                    && sources[found].descriptor.owner == r->0 && crate::topology::detects(
                    sources,
                    found,
                );
            assert(sources.contains_key(found));
            assert(found == id);
        }
    }
}

/// An upgrade waits only on a committed route of a publication on air that its receiver
/// asked for, and recording one changes nothing else of the subscription.
pub proof fn upgrades_wait_on_wanted_routes(
    t: Topology,
    k: SubscriptionIdentity,
    source_id: PublishedSourceId,
    route: TransportConsumerRoute,
    upgrade: Option<PendingUpgrade>,
)
    requires
        upgradable(t, k, source_id, route),
    ensures
        t.sources.contains_key(source_id.0) && t.sources[source_id.0].active,
        committed(t, k),
        ({
            let before = attachment(t.graph.subscriptions, k)->0;
            let now = attachment(after_upgrade(t.graph, k, upgrade).subscriptions, k)->0;
            &&& before.source_id == source_id && before.selection.active
            &&& before.realization->Committed_0.route.id() == route.id()
            &&& now.realization is Committed
            &&& now.realization->Committed_0.pending_upgrade == upgrade
            &&& now.realization->Committed_0.route == before.realization->Committed_0.route
            &&& now.selection == before.selection && now.source_id == before.source_id
        }),
{
}

/// A selection that its receiver does not want leaves no upgrade waiting.
pub proof fn unwanted_routes_wait_for_no_upgrade(
    g: Graph,
    k: SubscriptionIdentity,
    selection: ConsumerSourceSelection,
    other: SubscriptionIdentity,
)
    requires
        attachment(g.subscriptions, k) is Some,
    ensures
        ({
            let before = attachment(g.subscriptions, k)->0;
            let now = attachment(after_selection(g, k, selection).subscriptions, k)->0;
            &&& now.selection == selection
            &&& now.source_id == before.source_id
            &&& selection.active ==> now.realization == before.realization
            &&& !selection.active ==> (now.realization matches ConsumerRealization::Committed(
                route,
            ) ==> route.pending_upgrade is None)
            &&& now.realization is Committed <==> before.realization is Committed
            &&& other != k ==> record(after_selection(g, k, selection).subscriptions, other)
                == record(g.subscriptions, other)
        }),
{
}

/// A placement that the router accepts is the user's own from then on, on the worker that
/// the router gave; one that it refuses changes nothing. A displaced session is closed
/// after everything else of it.
pub proof fn placements_are_the_routers(
    t: Topology,
    user: UserId,
    connection: ConnectionId,
    displaced: Option<TransportSessionKey>,
    answer: Result<MediaWorkerId, RouterError>,
    after: Topology,
    r: Result<SessionPlacementCommit, SessionPlacementRejection>,
    other: UserIdentity,
)
    requires
        placement_outcome(t, user, connection, displaced, answer, after, r),
    ensures
        r is Ok <==> answer is Ok,
        r is Err ==> after == t,
        r matches Ok(commit) ==> {
            let teardown = commit.replacement_transport_plan.teardown@;
            &&& after.placements.contains_key(user.id())
            &&& after.placements[user.id()].connection == connection
            &&& Ok::<_, RouterError>(after.placements[user.id()].worker) == answer
            &&& commit.receipt.transport_session_key.user == user
            &&& commit.receipt.transport_session_key.connection == connection
            &&& commit.receipt.transport_session_key.room == t.instance
            &&& Ok::<_, RouterError>(commit.receipt.transport_session_key.worker) == answer
            &&& other != user.id() ==> (after.placements.contains_key(other)
                <==> t.placements.contains_key(other))
            &&& displaced is None ==> teardown.len() == 0 && after.sources == t.sources
                && after.graph == t.graph
            &&& displaced matches Some(session_key) ==> teardown.len() > 0 && teardown.last() == (
            TransportTeardown::CloseSession { session_key })
        },
{
}

/// A publication is described as it was asked for: its owner, its stream, its kind and its
/// policy are those of the request, with one encoding for each binding that was negotiated,
/// numbered in their order.
pub proof fn publications_are_described_as_asked(
    descriptor: PublishedSourceDescriptor,
    publish: ValidatedPublish,
    rtp: RtpStream,
    layers: Seq<SessionUploadEncoding>,
    source_id: u64,
    first_encoding: u64,
    i: int,
)
    requires
        describes_publication(descriptor, publish, rtp, layers, source_id, first_encoding),
    ensures
        descriptor.owner == publish.session_key.user,
        descriptor.stream_id == publish.stream_id,
        descriptor.media_kind == publish.media_kind,
        descriptor.policy == publish.policy,
        descriptor.source_id.0 == source_id,
        descriptor.encodings@.len() == rtp.bindings@.len(),
        0 <= i < rtp.bindings@.len() ==> {
            &&& descriptor.encodings@[i].encoding_id.0 == first_encoding + i
            &&& descriptor.encodings@[i].rid == rtp.bindings@[i].rid
            &&& descriptor.encodings@[i].primary_ssrc == rtp.bindings@[i].ssrc
            &&& descriptor.encodings@[i].source_id == descriptor.source_id
        },
{
}

/// A declared setup stands or falls with the router. Accepted, it is the committed route of
/// its subscription, with the selection that was decided; refused, its reservation is given
/// up, and the relay share with it. No other subscription is touched.
pub proof fn declared_setups_follow_the_router(
    t: Topology,
    setup: DeclaredConsumerSetup,
    selection: ConsumerSourceSelection,
    answer: Option<RoutedConsumerId>,
    after: Topology,
    r: Result<CommittedConsumerSetup, (TransportConsumerRoute, Vec<TransportRelayRouteEffect>)>,
    other: SubscriptionIdentity,
)
    requires
        setup_outcome(t, setup, selection, answer, after, r),
        attachment(t.graph.subscriptions, setup.pending.reservation.key_id()) is Some,
    ensures
        r is Ok <==> answer is Some,
        ({
            let k = setup.pending.reservation.key_id();
            let before = attachment(t.graph.subscriptions, k)->0;
            let now = attachment(after.graph.subscriptions, k);
            &&& now is Some && now->0.source_id == before.source_id
            &&& answer matches Some(routed) ==> {
                &&& now->0.realization is Committed
                &&& now->0.realization->Committed_0.route == setup.route
                &&& now->0.realization->Committed_0.routed == routed
                &&& now->0.selection == selection
                &&& r->Ok_0.target == setup.pending.target
                &&& r->Ok_0.route == setup.route
                &&& r->Ok_0.sender == setup.pending.sender
                &&& r->Ok_0.transport_activity_update is Some <==> (
                setup.pending.reservation.activity() is Active) != selection.delivers()
                &&& r->Ok_0.transport_activity_update is Some
                    ==> r->Ok_0.transport_activity_update->0 == selection.delivers()
            }
            &&& answer is None ==> {
                &&& now->0.realization is Absent
                &&& now->0.selection == before.selection
                &&& r->Err_0.0 == setup.route
            }
            &&& other != k ==> record(after.graph.subscriptions, other) == record(
                t.graph.subscriptions,
                other,
            )
            &&& after.sources == t.sources && after.placements == t.placements
        }),
{
}

/// A subscription that claims what it has changes nothing for the worker; one that moves to
/// another relay gives the former one up first.
pub proof fn a_relay_is_claimed_once(g: Graph, k: SubscriptionIdentity, share: RouteRelay)
    ensures
        record(g.subscriptions, k).share() matches Some(held) ==> {
            let effects = relay_reservation_effects(g, k, share);
            &&& held.route.id() == share.route.id() && held.activity == share.activity
                ==> effects.len() == 0
            &&& held.route.id() != share.route.id() && crate::relay::owns(
                g.relays,
                k,
                held.route.id(),
            ) && g.relays[held.route.id()].remove(k) == Map::<
                SubscriptionIdentity,
                RelayRouteActivity,
            >::empty() ==> effects.len() > 0 && effects[0].action is Release && effects[0].source
                == held.route.source && effects[0].target_media_worker_id
                == held.route.target_worker
        },
        record(g.subscriptions, k).share() is None && !g.relays.contains_key(share.route.id())
            ==> {
            let effects = relay_reservation_effects(g, k, share);
            &&& effects.len() > 0 && effects[0].action is Install
            &&& effects.len() == if share.activity is Active {
                2int
            } else {
                1
            }
        },
{
    if record(g.subscriptions, k).share() is None && !g.relays.contains_key(share.route.id()) {
        let empty = Map::<SubscriptionIdentity, RelayRouteActivity>::empty();
        let owners = empty.insert(k, share.activity);
        assert(owners.contains_key(k));
        assert(owners != empty);
        assert(crate::relay::wanted(owners) <==> share.activity is Active) by {
            if share.activity is Active {
                assert(owners.contains_key(k) && owners[k] == RelayRouteActivity::Active);
            }
        }
    }
}

/// A new publication is offered to every user of the room but its publisher, and set up for
/// each of them who was not attached to it.
pub proof fn a_new_publication_reaches_every_user(
    st: State,
    id: PublishedSourceId,
    after: State,
    targets: Seq<ConsumerSetupTarget>,
    user: UserIdentity,
)
    requires
        valid(st),
        st.topology.sources.contains_key(id.0),
        attaches_scope(st, ReceiverRouteScope::Source(id), after, targets),
        st.users.contains_key(user),
        user != st.topology.sources[id.0].descriptor.owner.id(),
    ensures
        ({
            let source = st.topology.sources[id.0];
            let k = SubscriptionIdentity {
                receiver: user,
                publisher: source.transport.session.user.id(),
                stream: source.descriptor.stream_id.id(),
            };
            &&& attachment(after.topology.graph.subscriptions, k) is Some
            &&& attachment(st.topology.graph.subscriptions, k) is None ==> exists|j: int|
                {
                    &&& 0 <= j < targets.len()
                    &&& (#[trigger] targets[j]).session.user.id() == user
                    &&& targets[j].session.connection == st.users[user].connection_id
                    &&& targets[j].source == source.transport
                }
            &&& after.users == st.users && after.topology.sources == st.topology.sources
        }),
{
    let t = st.topology;
    let receivers = choose|receivers: Seq<(UserId, ConnectionId)>| #[trigger]
        crate::state::lists_users(st.users, receivers) && after == (State {
            topology: with_receivers(t, id.0, receivers),
            ..st
        }) && targets == receiver_targets(t, id.0, receivers);
    let order = crate::state::user_order(st.users);
    lemma_sorted_lists::<UserId>(st.users.dom());
    assert(order.contains(user) <==> st.users.dom().contains(user));
    let i = order.index_of(user);
    assert(receivers[i].0.id() == user);
    assert forall|a: int, b: int| 0 <= a < b < receivers.len() implies (
    #[trigger] receivers[a]).0.id() != (#[trigger] receivers[b]).0.id() by {
        if order[a] == order[b] {
            crate::ord_map::lemma_increasing_distinct::<UserId>(order, a, b);
        }
    }
    crate::publication_laws::a_publication_is_offered_to_everyone_else(t, id.0, receivers, i);
    let k = SubscriptionIdentity {
        receiver: user,
        publisher: t.sources[id.0].transport.session.user.id(),
        stream: t.sources[id.0].descriptor.stream_id.id(),
    };
    if attachment(t.graph.subscriptions, k) is None {
        a_publication_is_set_up_for_everyone_else(t, id.0, receivers, i);
        let j = choose|j: int|
            {
                &&& 0 <= j < targets.len()
                &&& (#[trigger] receiver_targets(t, id.0, receivers)[j]).session.user
                    == receivers[i].0
                &&& targets[j].session.connection == receivers[i].1
                &&& targets[j].source == t.sources[id.0].transport
                &&& targets[j].source_id == t.sources[id.0].descriptor.source_id
                &&& targets[j].kind == t.sources[id.0].descriptor.media_kind
            };
        assert(targets[j].session.user.id() == user);
    }
}

/// A receiver that is ready, or that asks for the streams of a user, is offered every
/// publication that this concerns but its own, and set up for each that it was not attached
/// to.
pub proof fn a_ready_receiver_reaches_every_publication(
    st: State,
    user: UserId,
    connection: ConnectionId,
    owner: UserId,
    everyone: bool,
    after: State,
    targets: Seq<ConsumerSetupTarget>,
    id: u64,
)
    requires
        valid(st),
        st.users.contains_key(user.id()),
        st.users[user.id()].connection_id == connection,
        everyone ==> attaches_scope(
            st,
            ReceiverRouteScope::Receiver(&user, connection),
            after,
            targets,
        ),
        !everyone ==> attaches_scope(
            st,
            ReceiverRouteScope::SourceUser(&user, connection, &owner),
            after,
            targets,
        ),
        st.topology.sources.contains_key(id),
        st.topology.sources[id].descriptor.owner.id() != user.id(),
        everyone || st.topology.sources[id].descriptor.owner.id() == owner.id(),
    ensures
        ({
            let source = st.topology.sources[id];
            let k = SubscriptionIdentity {
                receiver: user.id(),
                publisher: source.transport.session.user.id(),
                stream: source.descriptor.stream_id.id(),
            };
            &&& attachment(after.topology.graph.subscriptions, k) is Some
            &&& attachment(st.topology.graph.subscriptions, k) is None ==> {
                let now = attachment(after.topology.graph.subscriptions, k)->0;
                &&& now.realization is Absent && now.source_id == source.descriptor.source_id
                &&& exists|i: int|
                    0 <= i < targets.len() && (#[trigger] targets[i]).source_id
                        == source.descriptor.source_id && targets[i].session.user == user
                        && targets[i].session.connection == connection && targets[i].source
                        == source.transport && targets[i].kind == source.descriptor.media_kind
                        && targets[i].routed == source.routed && targets[i].stream
                        == source.descriptor.stream_id
            }
            &&& after.users == st.users && after.topology.sources == st.topology.sources
        }),
{
    let t = st.topology;
    let filter = if everyone {
        None
    } else {
        Some(owner.id())
    };
    let session = t.session(user, connection)->0;
    let ids = considered(t.sources, filter);
    assert(t.session(user, connection) is Some);
    publications_are_considered(t.sources, filter, id);
    assert forall|i: int| 0 <= i < ids.len() implies t.sources.contains_key(
        #[trigger] ids[i],
    ) by {
        assert(ids.contains(ids[i]));
        publications_are_considered(t.sources, filter, ids[i]);
    }
    let own = own_subscription(t, session, id);
    let i = ids.index_of(id);
    crate::publication_laws::receivers_are_attached_as_they_asked(t, session, ids, i, own);
    if attachment(t.graph.subscriptions, own) is None {
        missing_routes_are_set_up(t, session, ids, id);
        let source = t.sources[id];
        let j = choose|j: int|
            0 <= j < targets.len() && (#[trigger] targets[j]).source_id
                == source.descriptor.source_id && targets[j].session == session
                && targets[j].source == source.transport && targets[j].kind
                == source.descriptor.media_kind && targets[j].routed == source.routed
                && targets[j].stream == source.descriptor.stream_id;
        assert(targets[j].source_id == source.descriptor.source_id);
        lemma_with_targets(t, session, ids, own);
        let n = choose|n: int|
            0 <= n < ids.len() && own == #[trigger] own_subscription(t, session, ids[n])
                && attachment(after.topology.graph.subscriptions, own)->0.source_id
                == t.sources[ids[n]].descriptor.source_id && attachment(
                after.topology.graph.subscriptions,
                own,
            )->0.realization is Absent;
        assert(t.sources.contains_key(ids[n]) && t.sources.contains_key(id));
        assert(t.sources[ids[n]].stream() == source.stream());
    }
    lemma_with_targets(t, session, ids, own);
}

/// Planning changes a subscription only from waiting for a setup to being set up, and
/// nothing of the users and the publications.
proof fn lemma_plans_only_set_up(
    st: State,
    order: Seq<ConsumerSetupTarget>,
    answers: Seq<Option<RtpStream>>,
    k: SubscriptionIdentity,
)
    requires
        order.len() == answers.len(),
    ensures
        ({
            let after = all_planned(st, order, answers);
            let before = attachment(st.topology.graph.subscriptions, k);
            let now = attachment(after.topology.graph.subscriptions, k);
            &&& after.users == st.users
            &&& after.topology.sources == st.topology.sources
            &&& now == before || (before is Some && before->0.realization is Absent && now is Some
                && now->0.realization is Pending && now->0.source_id == before->0.source_id)
        }),
    decreases order.len(),
{
    if order.len() > 0 {
        let fewer = order.drop_last();
        lemma_plans_only_set_up(st, fewer, answers.drop_last(), k);
        let middle = all_planned(st, fewer, answers.drop_last());
        setups_are_reserved_for_the_ready(middle, order.last(), answers.last(), k);
    }
}

/// What is planned for a receiver that is ready, with an answer, is set up in the end.
proof fn lemma_planned_is_set_up(
    st: State,
    order: Seq<ConsumerSetupTarget>,
    answers: Seq<Option<RtpStream>>,
    i: int,
)
    requires
        order.len() == answers.len(),
        0 <= i < order.len(),
        ready(st, order[i]),
        answers[i] is Some,
        waits(st, order[i]),
    ensures
        ({
            let now = attachment(
                all_planned(st, order, answers).topology.graph.subscriptions,
                order[i].subscription(),
            );
            now is Some && now->0.realization is Pending
        }),
    decreases order.len(),
{
    let fewer = order.drop_last();
    let k = order[i].subscription();
    let middle = all_planned(st, fewer, answers.drop_last());
    lemma_plans_only_set_up(st, fewer, answers.drop_last(), k);
    if i < fewer.len() {
        assert(fewer[i] == order[i]);
        lemma_planned_is_set_up(st, fewer, answers.drop_last(), i);
    }
    setups_are_reserved_for_the_ready(middle, order.last(), answers.last(), k);
}

/// What was set up in the end has a setup of its own.
proof fn lemma_set_up_is_listed(
    st: State,
    order: Seq<ConsumerSetupTarget>,
    answers: Seq<Option<RtpStream>>,
    setups: Seq<PendingConsumerSetup>,
    k: SubscriptionIdentity,
)
    requires
        order.len() == answers.len(),
        are_reserved(st, order, answers, setups),
        attachment(st.topology.graph.subscriptions, k) is Some,
        attachment(st.topology.graph.subscriptions, k)->0.realization is Absent,
        attachment(all_planned(st, order, answers).topology.graph.subscriptions, k) is Some,
        attachment(
            all_planned(st, order, answers).topology.graph.subscriptions,
            k,
        )->0.realization is Pending,
    ensures
        exists|n: int|
            0 <= n < setups.len() && (#[trigger] setups[n]).target.subscription() == k
                && setups[n].reservation.key_id() == k,
    decreases order.len(),
{
    if order.len() > 0 {
        let fewer = order.drop_last();
        let middle = all_planned(st, fewer, answers.drop_last());
        lemma_plans_only_set_up(st, fewer, answers.drop_last(), k);
        setups_are_reserved_for_the_ready(middle, order.last(), answers.last(), k);
        let reserved = reserves(middle, order.last(), answers.last());
        let early = if reserved {
            setups.drop_last()
        } else {
            setups
        };
        if attachment(middle.topology.graph.subscriptions, k)->0.realization is Pending {
            lemma_set_up_is_listed(st, fewer, answers.drop_last(), early, k);
            let n = choose|n: int|
                0 <= n < early.len() && (#[trigger] early[n]).target.subscription() == k
                    && early[n].reservation.key_id() == k;
            assert(setups[n] == early[n]);
        } else {
            assert(setups[setups.len() - 1].target.subscription() == k);
        }
    }
}

/// The publication is attached for the receiver of a target, and waits to be set up.
pub open spec fn waits(st: State, target: ConsumerSetupTarget) -> bool {
    let k = SubscriptionIdentity {
        receiver: target.session.user.id(),
        publisher: target.source.session.user.id(),
        stream: target.stream.id(),
    };
    let known = attachment(st.topology.graph.subscriptions, k);
    known is Some && known->0.source_id == target.source_id && known->0.realization is Absent
}

/// Whatever the order of a plan, nothing in it is forgotten: every target whose receiver is
/// ready, whose publication waits for it and for which a format can be agreed on gets its
/// setup.
pub proof fn no_planned_route_is_forgotten<
    N: Fn(&RtpStream, &MediaCapabilities) -> Option<RtpStream>,
>(
    negotiate: N,
    st: State,
    targets: Seq<ConsumerSetupTarget>,
    after: State,
    setups: Seq<PendingConsumerSetup>,
    i: int,
)
    requires
        plans(negotiate, st, targets, after, setups),
        0 <= i < targets.len(),
        ready(st, targets[i]),
        waits(st, targets[i]),
        forall|answer: Option<RtpStream>|
            negotiate.ensures(
                (
                    &st.topology.sources[targets[i].source_id.0].rtp,
                    &st.users[targets[i].session.user.id()].capabilities->0,
                ),
                answer,
            ) ==> answer is Some,
    ensures
        ({
            let k = targets[i].subscription();
            let now = attachment(after.topology.graph.subscriptions, k);
            &&& now is Some && now->0.realization is Pending
            &&& exists|n: int|
                0 <= n < setups.len() && (#[trigger] setups[n]).target.subscription() == k
                    && setups[n].reservation.key_id() == k
        }),
{
    broadcast use vstd::seq_lib::group_to_multiset_ensures;

    let target = targets[i];
    let order = by_rank(st, targets);
    let answers = choose|answers: Seq<Option<RtpStream>>|
        #![trigger negotiated(negotiate, st, order, answers)]
        negotiated(negotiate, st, order, answers) && after == all_planned(st, order, answers)
            && are_reserved(st, order, answers, setups);
    crate::room_laws::setups_go_by_rank(st, targets);
    assert(targets.contains(target));
    assert(order.to_multiset().count(target) > 0);
    assert(order.contains(target));
    let j = order.index_of(target);
    let turn = all_planned(st, order.take(j), answers.take(j));
    lemma_plans_only_set_up(st, order.take(j), answers.take(j), target.subscription());
    assert(crate::subscription::answers_about(negotiate, turn, order[j], answers[j]));
    assert(ready(turn, target));
    lemma_planned_is_set_up(st, order, answers, j);
    lemma_set_up_is_listed(st, order, answers, setups, target.subscription());
}

/// A receiver that is ready is set up for every publication of others that it was not
/// attached to, where a format can be agreed on.
pub proof fn a_ready_receiver_is_set_up_for_every_publication<
    N: Fn(&RtpStream, &MediaCapabilities) -> Option<RtpStream>,
>(
    negotiate: N,
    st: State,
    user: UserId,
    connection: ConnectionId,
    after: State,
    setups: Seq<PendingConsumerSetup>,
    id: u64,
)
    requires
        valid(st),
        plans_scope(
            negotiate,
            st,
            ReceiverRouteScope::Receiver(&user, connection),
            after,
            setups,
        ),
        st.users.contains_key(user.id()),
        st.users[user.id()].connection_id == connection,
        st.users[user.id()].capabilities is Some,
        st.topology.sources.contains_key(id),
        st.topology.sources[id].descriptor.owner.id() != user.id(),
        attachment(
            st.topology.graph.subscriptions,
            SubscriptionIdentity {
                receiver: user.id(),
                publisher: st.topology.sources[id].transport.session.user.id(),
                stream: st.topology.sources[id].descriptor.stream_id.id(),
            },
        ) is None,
        forall|answer: Option<RtpStream>|
            negotiate.ensures(
                (&st.topology.sources[id].rtp, &st.users[user.id()].capabilities->0),
                answer,
            ) ==> answer is Some,
    ensures
        ({
            let k = SubscriptionIdentity {
                receiver: user.id(),
                publisher: st.topology.sources[id].transport.session.user.id(),
                stream: st.topology.sources[id].descriptor.stream_id.id(),
            };
            let now = attachment(after.topology.graph.subscriptions, k);
            &&& now is Some && now->0.realization is Pending
            &&& exists|n: int|
                0 <= n < setups.len() && (#[trigger] setups[n]).target.subscription() == k
        }),
{
    let source = st.topology.sources[id];
    let (attached, targets) = choose|attached: State, targets: Seq<ConsumerSetupTarget>| #[trigger]
        attaches_scope(
            st,
            ReceiverRouteScope::Receiver(&user, connection),
            attached,
            targets,
        ) && plans(negotiate, attached, targets, after, setups);
    a_ready_receiver_reaches_every_publication(
        st,
        user,
        connection,
        user,
        true,
        attached,
        targets,
        id,
    );
    let i = choose|i: int|
        0 <= i < targets.len() && (#[trigger] targets[i]).source_id == source.descriptor.source_id
            && targets[i].session.user == user && targets[i].session.connection == connection
            && targets[i].source == source.transport && targets[i].kind
            == source.descriptor.media_kind && targets[i].routed == source.routed
            && targets[i].stream == source.descriptor.stream_id;
    assert(source.descriptor.source_id.0 == id);
    assert(ready(attached, targets[i]));
    assert(waits(attached, targets[i]));
    no_planned_route_is_forgotten(negotiate, attached, targets, after, setups, i);
}

/// A reservation is for its receiver alone: it is told on the receiver's lane, speaks the
/// format that was agreed on, and starts to deliver exactly where the receiver wants the
/// publication and nothing withholds it.
pub proof fn reservations_are_for_their_receiver(
    st: State,
    target: ConsumerSetupTarget,
    rtp: RtpStream,
    setup: PendingConsumerSetup,
)
    requires
        is_reserved(st, target, rtp, setup),
    ensures
        setup.target == target,
        setup.rtp == rtp,
        setup.sender == st.users[target.session.user.id()].sender,
        setup.consumer.0 == st.next_consumer,
        setup.reservation.source() == target.source_id,
        ({
            let given = crate::subscription::planned_selection(st, target);
            setup.reservation.activity() is Active <==> given.active && given.policy_pause_reason
                is None
        }),
        target.source.session.worker == target.session.worker ==> setup.relays@.len() == 0,
{
}

/// An intent moves the relay of its route with it: where the receiver is the only one who
/// has a share in it, the worker is told exactly what the receiver asks for, if that is
/// news. A route without a relay needs no relay work.
pub proof fn an_intent_moves_its_relay(
    t: Topology,
    k: SubscriptionIdentity,
    intent: SourceSubscriptionIntent,
)
    requires
        intent.active is Some,
    ensures
        record(t.graph.subscriptions, k).share() is None ==> intent_relays(t, k, intent).len() == 0,
        record(t.graph.subscriptions, k).share() matches Some(share) ==> {
            let effects = intent_relays(t, k, intent);
            let news = (share.activity is Active) != intent.active->0;
            &&& !news ==> effects.len() == 0
            &&& news && t.graph.relays.contains_key(share.route.id())
                && t.graph.relays[share.route.id()] == Map::<
                SubscriptionIdentity,
                RelayRouteActivity,
            >::empty().insert(k, share.activity) ==> {
                &&& effects.len() == 1
                &&& effects[0].source == share.route.source
                &&& effects[0].target_media_worker_id == share.route.target_worker
                &&& effects[0].action matches TransportRelayRouteAction::SetActivity(activity)
                    && (activity is Active <==> intent.active->0)
            }
        },
{
    let share = record(t.graph.subscriptions, k).share();
    if share is Some {
        let held = share->0;
        let empty = Map::<SubscriptionIdentity, RelayRouteActivity>::empty();
        let one = empty.insert(k, held.activity);
        let wanted = RelayRouteActivity::of(intent.active->0);
        let more = one.insert(k, wanted);
        assert(more =~= empty.insert(k, wanted));
        assert(one.contains_key(k) && more.contains_key(k));
        assert(one != empty && more != empty);
        assert(crate::relay::wanted(one) <==> held.activity is Active) by {
            if held.activity is Active {
                assert(one.contains_key(k) && one[k] == RelayRouteActivity::Active);
            }
        }
        assert(crate::relay::wanted(more) <==> intent.active->0) by {
            if intent.active->0 {
                assert(more.contains_key(k) && more[k] == RelayRouteActivity::Active);
            }
        }
    }
}

/// A change of intent brings the relays of the routes it concerns along, and takes nothing
/// down.
pub proof fn a_change_of_intent_moves_the_relays<
    N: Fn(&RtpStream, &MediaCapabilities) -> Option<RtpStream>,
>(
    negotiate: N,
    st: State,
    user: UserId,
    connection: ConnectionId,
    publisher: UserId,
    stream: UserStreamId,
    intent: SourceSubscriptionIntent,
    after: State,
    work: ReceiverRouteWork,
)
    requires
        changes_intent(
            negotiate,
            st,
            user,
            connection,
            publisher,
            seq![(stream, intent)],
            after,
            work,
        ),
    ensures
        work.teardown@.len() == 0,
        intent.active is None ==> work.relays@.len() == 0 && work.activities@.len() == 0,
        ({
            let k = SubscriptionIdentity {
                receiver: user.id(),
                publisher: publisher.id(),
                stream: stream.id(),
            };
            let share = record(st.topology.graph.subscriptions, k).share();
            &&& share is None ==> work.relays@.len() == 0
            &&& share is Some && intent.active is Some && (share->0.activity is Active)
                == intent.active->0 ==> work.relays@.len() == 0
            &&& share is Some && intent.active is Some && (share->0.activity is Active)
                != intent.active->0 && intent_acts(st.topology, k, connection, intent)
                && st.topology.graph.relays.contains_key(share->0.route.id())
                && st.topology.graph.relays[share->0.route.id()] == Map::<
                SubscriptionIdentity,
                RelayRouteActivity,
            >::empty().insert(k, share->0.activity) ==> {
                &&& work.relays@.len() == 1
                &&& work.relays@[0].action matches TransportRelayRouteAction::SetActivity(activity)
                    && (activity is Active <==> intent.active->0)
            }
        }),
{
    let entries = seq![(stream, intent)];
    assert(entries.drop_last() =~= Seq::<(UserStreamId, SourceSubscriptionIntent)>::empty());
    let k = SubscriptionIdentity {
        receiver: user.id(),
        publisher: publisher.id(),
        stream: stream.id(),
    };
    reveal_with_fuel(crate::subscription::intents_relays, 2);
    reveal_with_fuel(crate::subscription::intents_activities, 2);
    reveal_with_fuel(crate::subscription::intents_applied, 2);
    if intent.active is Some {
        an_intent_moves_its_relay(st.topology, k, intent);
    }
}

} // verus!
