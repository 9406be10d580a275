//! Who leaves a room, what is torn down then, and who learns of it.

use vstd::prelude::*;

use crate::admission_laws::{
    departures_are_told_to_those_who_stay, fanouts_reach_everyone_else, received_from,
    the_audience_has_routes,
};
use crate::delivery_laws::committed;
use crate::ids::{ConnectionId, PublishedSourceId, UserId, UserIdentity};
use crate::key_index::in_order;
use crate::membership::{
    all_departed, closes, departed, departures, departures_closes, departures_sessions,
    disconnects, lost_audience, DisconnectCommit,
};
use crate::ord_map::{lemma_sorted_lists, sorted};
use crate::order::OrdKey;
use crate::outbound::{
    BroadcastPayload, BroadcastPayloadError, MessageFanout, RoomEventMessage, UserCloseReason,
};
use crate::room_laws::{
    a_departed_user_leaves_nothing_behind, a_departure_leaves_others_alone, settled, valid,
};
use crate::route_graph::{attached_keys, attachment, record, Graph, Subscriptions};
use crate::source_model::UserInfo;
use crate::sources::owned_ids;
use crate::state::{
    announces_presence, broadcasts, connected, with_presence, ConnectionCloseCommit, State,
    Users,
};
use crate::topology::{
    audience_of, departure_teardown, lost_routes, owned_order, receives, user_identities,
    without_sources, RouterRelease, Topology,
};
use crate::transport::{SubscriptionIdentity, SubscriptionKey, TransportTeardown};

verus! {

/// The departure of one user keeps what is attached in agreement, and attaches nothing.
proof fn lemma_departed(st: State, user: UserIdentity)
    requires
        settled(st),
    ensures
        settled(departed(st, user)),
        forall|k: SubscriptionIdentity|
            (#[trigger] attachment(departed(st, user).topology.graph.subscriptions, k)) is Some
                ==> attachment(st.topology.graph.subscriptions, k) == attachment(
                departed(st, user).topology.graph.subscriptions,
                k,
            ),
{
    let after = departed(st, user);
    let subs = st.topology.graph.subscriptions;
    let now = after.topology.graph.subscriptions;
    assert forall|k: SubscriptionIdentity| (#[trigger] attachment(now, k)) is Some implies {
        &&& attachment(subs, k) == attachment(now, k)
        &&& crate::sources::publishes(
            after.topology.sources,
            attachment(now, k)->0.source_id.0,
            crate::transport::OwnerStream { owner: k.publisher, stream: k.stream },
        )
        &&& k.receiver != k.publisher
    } by {
        a_departed_user_leaves_nothing_behind(st, user, 0, k);
        let other = if k.receiver != user {
            k.receiver
        } else {
            k.publisher
        };
        a_departure_leaves_others_alone(st, user, other, 0, k);
        assert(attachment(subs, k) is Some);
        let id = attachment(subs, k)->0.source_id.0;
        a_departure_leaves_others_alone(st, user, other, id, k);
    }
    assert(after.topology.sources.dom().subset_of(st.topology.sources.dom()));
    vstd::set_lib::lemma_len_subset(after.topology.sources.dom(), st.topology.sources.dom());
}

/// What several departures leave of a user, a publication and a subscription.
proof fn lemma_all_departed(
    st: State,
    users: Seq<UserIdentity>,
    user: UserIdentity,
    id: u64,
    k: SubscriptionIdentity,
)
    requires
        settled(st),
        st.placed(),
    ensures
        ({
            let gone = all_departed(st, users);
            let now = attachment(gone.topology.graph.subscriptions, k);
            &&& settled(gone)
            &&& gone.placed()
            &&& gone.topology.instance == st.topology.instance
            &&& gone.users.contains_key(user) <==> st.users.contains_key(user) && !users.contains(
                user,
            )
            &&& gone.users.contains_key(user) ==> gone.users[user] == st.users[user]
                && gone.topology.placements[user] == st.topology.placements[user]
            &&& now is Some ==> now == attachment(st.topology.graph.subscriptions, k)
            &&& !users.contains(k.receiver) && !users.contains(k.publisher) ==> record(
                gone.topology.graph.subscriptions,
                k,
            ) == record(st.topology.graph.subscriptions, k)
            &&& st.topology.sources.contains_key(id) && !users.contains(
                st.topology.sources[id].descriptor.owner.id(),
            ) ==> gone.topology.sources.contains_key(id) && gone.topology.sources[id]
                == st.topology.sources[id]
        }),
    decreases users.len(),
{
    if users.len() > 0 {
        let fewer = users.drop_last();
        let last = users.last();
        lemma_all_departed(st, fewer, user, id, k);
        lemma_all_departed(st, fewer, last, id, k);
        let before = all_departed(st, fewer);
        let gone = all_departed(st, users);
        assert forall|who: UserIdentity| #[trigger]
            users.contains(who) <==> fewer.contains(who) || who == last by {
            lemma_last(users, who);
        }
        if before.users.contains_key(last) {
            lemma_departed(before, last);
            if user != last {
                a_departure_leaves_others_alone(before, last, user, id, k);
            }
            if k.receiver != last {
                a_departure_leaves_others_alone(before, last, k.receiver, id, k);
            }
            if st.topology.sources.contains_key(id) {
                let owner = st.topology.sources[id].descriptor.owner.id();
                if owner != last {
                    a_departure_leaves_others_alone(before, last, owner, id, k);
                }
            }
            assert forall|who: UserIdentity| #[trigger] gone.users.contains_key(who) implies
                gone.topology.placements.contains_key(who)
                && gone.topology.placements[who].connection == gone.users[who].connection_id by {
                assert(who != last);
                a_departure_leaves_others_alone(before, last, who, id, k);
                assert(before.users.contains_key(who));
            }
        } else if st.users.contains_key(last) {
            assert(fewer.contains(last));
        }
    }
}

proof fn lemma_last<T>(all: Seq<T>, value: T)
    requires
        all.len() > 0,
    ensures
        all.contains(value) <==> all.drop_last().contains(value) || value == all.last(),
{
    let fewer = all.drop_last();
    if all.contains(value) {
        let i = all.index_of(value);
        if i < fewer.len() {
            assert(fewer[i] == value);
        }
    }
    if fewer.contains(value) {
        assert(all[fewer.index_of(value)] == value);
    }
    if value == all.last() {
        assert(all[all.len() - 1] == value);
    }
}

/// The closes, session teardowns and departures of the listed users.
proof fn lemma_departures(st: State, ids: Seq<UserId>, user: UserIdentity)
    requires
        settled(st),
        st.placed(),
        st.users.dom().finite(),
    ensures
        ({
            let users = user_identities(ids);
            let count = departures(st, ids).len();
            let closed = departures_closes(st, users);
            let sessions = departures_sessions(st, ids);
            &&& closed.len() == count && sessions.len() == count
            &&& all_departed(st, users).users.dom().finite()
            &&& all_departed(st, users).users.dom().len() + count == st.users.dom().len()
            &&& forall|i: int|
                0 <= i < count ==> (#[trigger] closed[i]).reason
                    == UserCloseReason::RemovedByRuntime
            &&& st.users.contains_key(user) && users.contains(user) ==> exists|i: int|
                {
                    &&& 0 <= i < count
                    &&& (#[trigger] departures(st, ids)[i]).id() == user
                    &&& closed[i].sender == st.users[user].sender
                    &&& sessions[i] matches TransportTeardown::CloseSession { session_key }
                        && session_key.user.id() == user && session_key.connection
                        == st.users[user].connection_id && session_key.worker
                        == st.topology.placements[user].worker && session_key.room
                        == st.topology.instance
                }
        }),
    decreases ids.len(),
{
    let users = user_identities(ids);
    if ids.len() > 0 {
        let fewer = ids.drop_last();
        lemma_departures(st, fewer, user);
        assert(user_identities(fewer) =~= users.drop_last());
        let last = ids.last();
        let before = all_departed(st, users.drop_last());
        lemma_last(users, user);
        let some: SubscriptionIdentity = arbitrary();
        lemma_all_departed(st, users.drop_last(), last.id(), 0, some);
        lemma_all_departed(st, users.drop_last(), user, 0, some);
        let count = departures(st, fewer).len() as int;
        if st.users.contains_key(user) && users.drop_last().contains(user) {
            let i = choose|i: int|
                {
                    &&& 0 <= i < count
                    &&& (#[trigger] departures(st, fewer)[i]).id() == user
                    &&& departures_closes(st, users.drop_last())[i].sender
                        == st.users[user].sender
                    &&& departures_sessions(st, fewer)[i] matches TransportTeardown::CloseSession {
                        session_key,
                    } && session_key.user.id() == user && session_key.connection
                        == st.users[user].connection_id && session_key.worker
                        == st.topology.placements[user].worker && session_key.room
                        == st.topology.instance
                };
            assert(departures(st, ids)[i].id() == user);
        } else if st.users.contains_key(user) && users.contains(user) {
            assert(before.users.contains_key(user));
            assert(departures(st, ids)[count].id() == user);
        }
        if before.users.contains_key(last.id()) {
            assert(departed(before, last.id()).users.dom() =~= before.users.dom().remove(
                last.id(),
            ));
        }
    } else {
        assert(all_departed(st, users).users.dom() == st.users.dom());
    }
}

/// Every listed user that is there is removed: its lane is closed as removed, its session
/// is torn down and its router session released, and those who stay learn of it. Users
/// that are not listed stay as they are, and nobody is removed twice.
pub proof fn listed_users_are_removed(
    st: State,
    ids: Seq<UserId>,
    after: State,
    r: DisconnectCommit,
    user: UserIdentity,
    other: UserIdentity,
)
    requires
        valid(st),
        disconnects(st, ids, after, r),
        user_identities(ids).contains(user),
        !user_identities(ids).contains(other),
    ensures
        !after.users.contains_key(user),
        after.users.contains_key(other) <==> st.users.contains_key(other),
        st.users.contains_key(other) ==> after.users[other] == st.users[other],
        r.effects.close_requests@.len() == st.users.dom().len() - after.users.dom().len(),
        r.session_teardowns@.len() == r.effects.close_requests@.len(),
        r.router_releases@.len() == r.effects.close_requests@.len(),
        r.effects.fanouts@.len() == r.effects.close_requests@.len(),
        st.users.contains_key(user) ==> exists|i: int|
            {
                &&& 0 <= i < r.effects.close_requests@.len()
                &&& (#[trigger] r.effects.close_requests@[i]).sender == st.users[user].sender
                &&& r.effects.close_requests@[i].reason == UserCloseReason::RemovedByRuntime
                &&& r.session_teardowns@[i] matches TransportTeardown::CloseSession { session_key }
                    && session_key.user.id() == user && session_key.connection
                    == st.users[user].connection_id
                &&& r.router_releases@[i] matches RouterRelease::Session { user_id }
                    && user_id.id() == user
                &&& r.effects.fanouts@[i].message matches RoomEventMessage::UserDeparted { user_id }
                    && user_id.id() == user
                &&& st.users.contains_key(other) ==> r.effects.fanouts@[i].recipients@.contains(
                    st.users[other].sender,
                )
            },
{
    let users = user_identities(ids);
    let some: SubscriptionIdentity = arbitrary();
    lemma_departures(st, ids, user);
    lemma_all_departed(st, users, user, 0, some);
    lemma_all_departed(st, users, other, 0, some);
    let gone = all_departed(st, users);
    assert(after.users == gone.users);
    if st.users.contains_key(user) {
        let left = departures(st, ids);
        let i = choose|i: int|
            {
                &&& 0 <= i < left.len()
                &&& (#[trigger] departures(st, ids)[i]).id() == user
                &&& departures_closes(st, users)[i].sender == st.users[user].sender
                &&& departures_sessions(st, ids)[i] matches TransportTeardown::CloseSession {
                    session_key,
                } && session_key.user.id() == user && session_key.connection
                    == st.users[user].connection_id && session_key.worker
                    == st.topology.placements[user].worker && session_key.room
                    == st.topology.instance
            };
        departures_are_told_to_those_who_stay(gone, left, r.effects.fanouts@, i, other);
        assert(r.effects.close_requests@[i].sender == st.users[user].sender);
    }
}

/// Those who received something of a user that leaves.
proof fn lemma_audience_finite(t: Topology, owner: UserIdentity)
    requires
        t.graph.subscriptions.dom().finite(),
    ensures
        audience_of(t, owner).finite(),
{
    let subs = t.graph.subscriptions;
    let receiver = |k: SubscriptionIdentity| k.receiver;
    let all = subs.dom().map(receiver);
    subs.dom().lemma_map_finite(receiver);
    assert forall|who: UserIdentity| audience_of(t, owner).contains(who) implies all.contains(
        who,
    ) by {
        let id = choose|id: u64|
            owned_ids(t.sources, owner).contains(id) && #[trigger] receives(subs, id, who);
        let k = choose|k: SubscriptionIdentity|
            crate::route_graph::attached_to(subs, k, PublishedSourceId(id)) && #[trigger] record(
                subs,
                k,
            ).routed() && k.receiver == who;
        assert(subs.dom().contains(k) && receiver(k) == who);
    }
    vstd::set_lib::lemma_len_subset(audience_of(t, owner), all);
}

proof fn lemma_connected(users: Users, ids: Seq<UserIdentity>, user: UserIdentity)
    ensures
        connected(users, ids).contains(user) <==> ids.contains(user) && users.contains_key(user),
    decreases ids.len(),
{
    if ids.len() > 0 {
        lemma_connected(users, ids.drop_last(), user);
        lemma_last(ids, user);
        let before = connected(users, ids.drop_last());
        let all = connected(users, ids);
        if users.contains_key(ids.last()) {
            assert(all.drop_last() =~= before);
            lemma_last(all, user);
        }
    }
}

/// A connection that closes while it is the user's own takes the user out of the room: its
/// session is torn down and its router session released, those who stay learn that it
/// left, and whoever received something of it is sent its tracks anew, to negotiate. No
/// lane is closed by it.
pub proof fn a_closed_connection_takes_its_user(
    st: State,
    user: UserId,
    connection: ConnectionId,
    after: State,
    r: Option<ConnectionCloseCommit>,
    other: UserIdentity,
    k: SubscriptionIdentity,
)
    requires
        valid(st),
        closes(st, user, connection, after, r),
        st.users.contains_key(user.id()),
        st.users[user.id()].connection_id == connection,
        other != user.id(),
        st.users.contains_key(other),
    ensures
        !after.users.contains_key(user.id()),
        after.users == st.users.remove(user.id()),
        r matches Some(
            ConnectionCloseCommit::Current { session_teardown, router_release, effects, .. },
        ) && {
            &&& session_teardown matches TransportTeardown::CloseSession { session_key }
                && session_key.user == user && session_key.connection == connection
                && session_key.worker == st.topology.placements[user.id()].worker
            &&& router_release matches RouterRelease::Session { user_id } && user_id == user
            &&& effects.close_requests@.len() == 0
            &&& effects.fanouts@.len() == 1
            &&& effects.fanouts@[0].message matches RoomEventMessage::UserDeparted { user_id }
                && user_id == user
            &&& effects.fanouts@[0].recipients@.contains(st.users[other].sender)
            &&& effects.fanouts@[0].recipients@.len() == st.users.dom().len() - 1
            &&& received_from(st, other, user.id(), k) ==> exists|i: int|
                0 <= i < effects.track_snapshots@.len() && (
                #[trigger] effects.track_snapshots@[i]).0 == st.users[other].sender
                    && effects.track_snapshots@[i].1.snapshot.requires_negotiation
        },
{
    let gone = departed(st, user.id());
    let effects = r->0->effects;
    departures_are_told_to_those_who_stay(gone, seq![user], effects.fanouts@, 0, other);
    if received_from(st, other, user.id(), k) {
        the_audience_has_routes(st, user.id(), other);
        lemma_audience_finite(st.topology, user.id());
        lemma_sorted_lists::<UserId>(audience_of(st.topology, user.id()));
        let order = crate::membership::audience(st, user.id());
        assert(order.contains(other));
        let told = connected(gone.users, order);
        lemma_connected(gone.users, order, other);
        let i = told.index_of(other);
        assert(crate::state::is_sent(effects.track_snapshots@[i], gone, told[i], true, i));
        assert(effects.track_snapshots@[i].0 == st.users[other].sender);
    }
}

/// A connection that was replaced, or was never there, takes nobody out of the room and
/// changes no publication and no subscription; nobody is told of it.
pub proof fn a_replaced_connection_closes_quietly(
    st: State,
    user: UserId,
    connection: ConnectionId,
    after: State,
    r: Option<ConnectionCloseCommit>,
)
    requires
        closes(st, user, connection, after, r),
        !(st.users.contains_key(user.id()) && st.users[user.id()].connection_id == connection),
    ensures
        after.users == st.users,
        after.topology.sources == st.topology.sources,
        after.topology.graph == st.topology.graph,
        after.track_revision == st.track_revision,
        ({
            let placed = st.topology.placements.contains_key(user.id())
                && st.topology.placements[user.id()].connection == connection;
            if placed {
                &&& after.topology.placements == st.topology.placements.remove(user.id())
                &&& r matches Some(
                    ConnectionCloseCommit::StalePlacement { session_teardown, router_release },
                ) && (session_teardown matches TransportTeardown::CloseSession { session_key }
                    && session_key.user == user && session_key.connection == connection)
                    && router_release == (RouterRelease::Placement {
                    user_id: user,
                    connection_id: connection,
                })
            } else {
                r is None && after == st
            }
        }),
{
}

/// Whoever received something of a user that is disconnected, and stays, is sent its
/// tracks anew, to negotiate.
pub proof fn disconnected_publishers_are_missed(
    st: State,
    ids: Seq<UserId>,
    after: State,
    r: DisconnectCommit,
    user: UserIdentity,
    other: UserIdentity,
    k: SubscriptionIdentity,
)
    requires
        valid(st),
        disconnects(st, ids, after, r),
        user_identities(ids).contains(user),
        st.users.contains_key(user),
        !user_identities(ids).contains(other),
        st.users.contains_key(other),
        received_from(st, other, user, k),
    ensures
        exists|i: int|
            0 <= i < r.effects.track_snapshots@.len() && (
            #[trigger] r.effects.track_snapshots@[i]).0 == st.users[other].sender
                && r.effects.track_snapshots@[i].1.snapshot.requires_negotiation,
{
    let users = user_identities(ids);
    let gone = all_departed(st, users);
    let missed = lost_audience(st, users);
    lemma_lost_audience(st, users, user, other, k);
    lemma_lost_finite(st, users);
    lemma_sorted_lists::<UserId>(missed);
    let order = sorted::<UserId>(missed);
    assert(order.contains(other));
    lemma_all_departed(st, users, other, 0, k);
    lemma_connected(gone.users, order, other);
    let told = connected(gone.users, order);
    let i = told.index_of(other);
    assert(crate::state::is_sent(r.effects.track_snapshots@[i], gone, told[i], true, i));
    assert(r.effects.track_snapshots@[i].0 == st.users[other].sender);
}

proof fn lemma_lost_audience(
    st: State,
    users: Seq<UserIdentity>,
    user: UserIdentity,
    other: UserIdentity,
    k: SubscriptionIdentity,
)
    requires
        settled(st),
        st.placed(),
        users.contains(user),
        st.users.contains_key(user),
        !users.contains(other),
        received_from(st, other, user, k),
    ensures
        lost_audience(st, users).contains(other),
    decreases users.len(),
{
    let fewer = users.drop_last();
    lemma_last(users, user);
    lemma_last(users, other);
    if fewer.contains(user) {
        lemma_lost_audience(st, fewer, user, other, k);
    } else {
        let before = all_departed(st, fewer);
        let id = attachment(st.topology.graph.subscriptions, k)->0.source_id.0;
        assert(attachment(st.topology.graph.subscriptions, k) is Some);
        assert(k.publisher == user);
        lemma_all_departed(st, fewer, user, id, k);
        assert(received_from(before, other, user, k));
        the_audience_has_routes(before, user, other);
    }
}

proof fn lemma_lost_finite(st: State, users: Seq<UserIdentity>)
    requires
        settled(st),
        st.placed(),
        st.topology.graph.subscriptions.dom().finite(),
    ensures
        lost_audience(st, users).finite(),
    decreases users.len(),
{
    if users.len() > 0 {
        let fewer = users.drop_last();
        lemma_lost_finite(st, fewer);
        let before = all_departed(st, fewer);
        let subs = st.topology.graph.subscriptions;
        let now = before.topology.graph.subscriptions;
        let receiver = |k: SubscriptionIdentity| k.receiver;
        let all = subs.dom().map(receiver);
        subs.dom().lemma_map_finite(receiver);
        let more = audience_of(before.topology, users.last());
        assert forall|who: UserIdentity| more.contains(who) implies all.contains(who) by {
            let id = choose|id: u64|
                owned_ids(before.topology.sources, users.last()).contains(id)
                    && #[trigger] receives(now, id, who);
            let k = choose|k: SubscriptionIdentity|
                crate::route_graph::attached_to(now, k, PublishedSourceId(id))
                    && #[trigger] record(now, k).routed() && k.receiver == who;
            lemma_all_departed(st, fewer, who, id, k);
            assert(attachment(now, k) is Some);
            assert(subs.contains_key(k));
            assert(subs.dom().contains(k) && receiver(k) == who);
        }
        vstd::set_lib::lemma_len_subset(more, all);
    }
}

/// A route that is listed is among the routes of the list.
proof fn lemma_routes_of(
    subs: Subscriptions,
    keys: Seq<SubscriptionIdentity>,
    k: SubscriptionIdentity,
)
    requires
        keys.contains(k),
        record(subs, k).routed(),
    ensures
        crate::route_graph::routes_of(subs, keys).contains(
            crate::route_graph::committed_route(record(subs, k)).route,
        ),
    decreases keys.len(),
{
    let all = crate::route_graph::routes_of(subs, keys);
    let before = crate::route_graph::routes_of(subs, keys.drop_last());
    let route = crate::route_graph::committed_route(record(subs, k)).route;
    lemma_last(keys, k);
    if keys.drop_last().contains(k) {
        lemma_routes_of(subs, keys.drop_last(), k);
        assert(all[before.index_of(route)] == route);
    } else {
        assert(all[before.len() as int] == route);
    }
}

/// Taking out publications keeps the other subscriptions, and adds none.
proof fn lemma_without_sources(g: Graph, ids: Seq<u64>, k: SubscriptionIdentity)
    requires
        g.subscriptions.dom().finite(),
    ensures
        without_sources(g, ids).subscriptions.dom().finite(),
        attachment(g.subscriptions, k) is Some && !ids.contains(
            attachment(g.subscriptions, k)->0.source_id.0,
        ) ==> without_sources(g, ids).subscriptions.contains_key(k) && record(
            without_sources(g, ids).subscriptions,
            k,
        ) == record(g.subscriptions, k),
    decreases ids.len(),
{
    if ids.len() > 0 {
        let fewer = ids.drop_last();
        lemma_without_sources(g, fewer, k);
        let before = without_sources(g, fewer).subscriptions;
        let after = without_sources(g, ids).subscriptions;
        assert(after.dom().subset_of(before.dom()));
        vstd::set_lib::lemma_len_subset(after.dom(), before.dom());
        if attachment(g.subscriptions, k) is Some {
            lemma_last(ids, attachment(g.subscriptions, k)->0.source_id.0);
        }
        assert(attached_keys(before, PublishedSourceId(ids.last())).contains(k)
            <==> crate::route_graph::attached_to(before, k, PublishedSourceId(ids.last())));
    }
}

proof fn lemma_lost_routes(g: Graph, ids: Seq<u64>, k: SubscriptionIdentity)
    requires
        g.subscriptions.dom().finite(),
        record(g.subscriptions, k).routed(),
        attachment(g.subscriptions, k) is Some,
        ids.contains(attachment(g.subscriptions, k)->0.source_id.0),
    ensures
        lost_routes(g, ids).contains(
            crate::route_graph::committed_route(record(g.subscriptions, k)).route,
        ),
    decreases ids.len(),
{
    let id = attachment(g.subscriptions, k)->0.source_id.0;
    let route = crate::route_graph::committed_route(record(g.subscriptions, k)).route;
    let fewer = ids.drop_last();
    let early = lost_routes(g, fewer);
    let all = lost_routes(g, ids);
    lemma_last(ids, id);
    if fewer.contains(id) {
        lemma_lost_routes(g, fewer, k);
        assert(all[early.index_of(route)] == route);
    } else {
        let before = without_sources(g, fewer);
        lemma_without_sources(g, fewer, k);
        let keys = attached_keys(before.subscriptions, PublishedSourceId(id));
        assert(keys.subset_of(before.subscriptions.dom()));
        vstd::set_lib::lemma_len_subset(keys, before.subscriptions.dom());
        lemma_sorted_lists::<SubscriptionKey>(keys);
        assert(in_order(keys).contains(k));
        lemma_routes_of(before.subscriptions, in_order(keys), k);
        let late = crate::route_graph::routes_of(before.subscriptions, in_order(keys));
        assert(all[early.len() + late.index_of(route)] == route);
    }
}

/// Everything that a user had on the transport is taken down with it: the media of its
/// publications, the routes by which others received them, and its own routes.
pub proof fn nothing_of_a_departed_user_is_left_up(
    st: State,
    user: UserIdentity,
    id: u64,
    k: SubscriptionIdentity,
)
    requires
        valid(st),
    ensures
        ({
            let t = st.topology;
            let teardown = departure_teardown(t, user);
            &&& t.sources.contains_key(id) && t.sources[id].descriptor.owner.id() == user
                ==> teardown.contains(
                TransportTeardown::RemoveMedia {
                    session_key: t.sources[id].transport.session,
                    transport_media_id: t.sources[id].transport.media,
                },
            )
            &&& committed(t, k) && (k.receiver == user || k.publisher == user) ==> {
                let route = attachment(
                    t.graph.subscriptions,
                    k,
                )->0.realization->Committed_0.route;
                teardown.contains(
                    TransportTeardown::RemoveMedia {
                        session_key: route.consumer_session,
                        transport_media_id: route.consumer_media,
                    },
                )
            }
        }),
{
    let t = st.topology;
    let ids = owned_order(t.sources, user);
    let owned = owned_ids(t.sources, user);
    assert(owned.subset_of(t.sources.dom()));
    vstd::set_lib::lemma_len_subset(owned, t.sources.dom());
    lemma_sorted_lists::<PublishedSourceId>(owned);
    let gone = without_sources(t.graph, ids);
    let own = crate::route_graph::receiver_keys(gone.subscriptions, user);
    let released = crate::transport_plan::relay_teardown(
        crate::topology::departure_relays(t, user),
    );
    let published = crate::topology::transports_of(t.sources, ids);
    let lost = lost_routes(t.graph, ids);
    let mine = crate::route_graph::routes_of(gone.subscriptions, in_order(own));
    let teardown = departure_teardown(t, user);
    if t.sources.contains_key(id) && t.sources[id].descriptor.owner.id() == user {
        assert(owned.contains(id));
        assert(ids.contains(id));
        let i = ids.index_of(id);
        assert(teardown[released.len() + i] == (TransportTeardown::RemoveMedia {
            session_key: t.sources[id].transport.session,
            transport_media_id: t.sources[id].transport.media,
        }));
    }
    if committed(t, k) && (k.receiver == user || k.publisher == user) {
        let subs = t.graph.subscriptions;
        let route = attachment(subs, k)->0.realization->Committed_0.route;
        let source = attachment(subs, k)->0.source_id.0;
        assert(attachment(subs, k) is Some);
        let removal = TransportTeardown::RemoveMedia {
            session_key: route.consumer_session,
            transport_media_id: route.consumer_media,
        };
        assert(owned.contains(source) <==> k.publisher == user);
        assert(ids.contains(source) <==> owned.contains(source));
        assert(record(subs, k).routed());
        if k.publisher == user {
            lemma_lost_routes(t.graph, ids, k);
            let i = lost.index_of(route);
            assert(teardown[released.len() + published.len() + i] == removal);
        } else {
            lemma_without_sources(t.graph, ids, k);
            assert(own.subset_of(gone.subscriptions.dom()));
            vstd::set_lib::lemma_len_subset(own, gone.subscriptions.dom());
            lemma_sorted_lists::<SubscriptionKey>(own);
            assert(own.contains(k));
            assert(in_order(own).contains(k));
            lemma_routes_of(gone.subscriptions, in_order(own), k);
            let i = mine.index_of(route);
            assert(teardown[released.len() + published.len() + lost.len() + i] == removal);
        }
    }
}

/// What a user says of itself is remembered as it said it last; what it says nothing of
/// stays as it was. Nobody else's presence changes, and only the user's own connection is
/// heard.
pub proof fn presence_is_what_was_said_last(
    st: State,
    user: UserIdentity,
    connection: ConnectionId,
    info: UserInfo,
    other: UserIdentity,
)
    ensures
        ({
            let after = with_presence(st, user, connection, info);
            let heard = st.users.contains_key(user) && st.users[user].connection_id == connection;
            &&& !heard ==> after == st
            &&& heard ==> {
                let known = st.users[user].info;
                let now = after.users[user].info;
                &&& after.users.contains_key(user)
                &&& now.is_raising_hand == if info.is_raising_hand is Some {
                    info.is_raising_hand
                } else {
                    known.is_raising_hand
                }
                &&& now.is_self_muted == if info.is_self_muted is Some {
                    info.is_self_muted
                } else {
                    known.is_self_muted
                }
                &&& now.is_deaf == if info.is_deaf is Some {
                    info.is_deaf
                } else {
                    known.is_deaf
                }
                &&& now.is_camera_on == if info.is_camera_on is Some {
                    info.is_camera_on
                } else {
                    known.is_camera_on
                }
                &&& now.is_screen_sharing_on == if info.is_screen_sharing_on is Some {
                    info.is_screen_sharing_on
                } else {
                    known.is_screen_sharing_on
                }
                &&& now.is_featured == if info.is_featured is Some {
                    info.is_featured
                } else {
                    known.is_featured
                }
                &&& after.users[user].connection_id == connection
                &&& after.users[user].sender == st.users[user].sender
                &&& after.users[user].capabilities == st.users[user].capabilities
            }
            &&& other != user ==> (after.users.contains_key(other) <==> st.users.contains_key(
                other,
            )) && after.users[other] == st.users[other]
            &&& after.topology == st.topology
        }),
{
}

/// What a client says of itself is taken but for its camera and its screen.
pub proof fn clients_report_all_but_their_media(info: UserInfo)
    ensures
        info.self_reported().is_camera_on is None,
        info.self_reported().is_screen_sharing_on is None,
        info.self_reported().is_raising_hand == info.is_raising_hand,
        info.self_reported().is_self_muted == info.is_self_muted,
        info.self_reported().is_deaf == info.is_deaf,
        info.self_reported().is_featured == info.is_featured,
{
}

/// A presence is told to everyone in the room, the user itself included, and says of this
/// user alone what is now known of it.
pub proof fn presence_is_told_to_everyone(
    st: State,
    user: UserIdentity,
    fanout: MessageFanout,
    other: UserIdentity,
)
    requires
        st.users.dom().finite(),
        announces_presence(st, user, fanout),
    ensures
        fanout.recipients@.len() == st.users.dom().len(),
        st.users.contains_key(other) ==> fanout.recipients@.contains(st.users[other].sender),
        fanout.message matches RoomEventMessage::UserInfoChanged(snapshot) && {
            &&& snapshot@.contains_key(user)
            &&& snapshot@[user] == st.users[user].info
            &&& other != user ==> !snapshot@.contains_key(other)
        },
{
    fanouts_reach_everyone_else(st, None, other);
}

/// A message of a user goes to everyone else, under its name and unchanged. A connection
/// that was replaced says nothing, and a message that is refused reaches nobody.
pub proof fn messages_reach_everyone_else(
    st: State,
    sender: UserId,
    connection: ConnectionId,
    payload: Result<BroadcastPayload, BroadcastPayloadError>,
    r: Result<Option<MessageFanout>, BroadcastPayloadError>,
    other: UserIdentity,
)
    requires
        st.users.dom().finite(),
        broadcasts(st, sender, connection, payload, r),
    ensures
        ({
            let heard = st.users.contains_key(sender.id()) && st.users[sender.id()].connection_id
                == connection;
            &&& !heard ==> r == Ok::<Option<MessageFanout>, BroadcastPayloadError>(None)
            &&& r is Err <==> heard && payload is Err
            &&& heard ==> (payload matches Ok(message) ==> r matches Ok(Some(fanout)) && {
                &&& fanout.message matches RoomEventMessage::Broadcast {
                    sender_id,
                    message: carried,
                } && sender_id == sender && carried == message
                &&& fanout.recipients@.len() == st.users.dom().len() - 1
                &&& other != sender.id() && st.users.contains_key(other)
                    ==> fanout.recipients@.contains(st.users[other].sender)
                &&& (forall|who: UserIdentity| #[trigger]
                    st.users.contains_key(who) && who != sender.id() ==> st.users[who].sender
                        != st.users[sender.id()].sender) ==> !fanout.recipients@.contains(
                    st.users[sender.id()].sender,
                )
            })
        }),
{
    fanouts_reach_everyone_else(st, Some(sender.id()), other);
}

/// A user that leaves changes nothing on the transport but what is taken down: no route of
/// another user is controlled, no publication is switched and nothing is set up.
pub proof fn a_departure_only_takes_down(
    st: State,
    user: UserId,
    connection: ConnectionId,
    after: State,
    r: Option<ConnectionCloseCommit>,
    ids: Seq<UserId>,
    gone: State,
    all: DisconnectCommit,
)
    requires
        closes(st, user, connection, after, r),
        disconnects(st, ids, gone, all),
    ensures
        r matches Some(ConnectionCloseCommit::Current { transport_plan, .. }) ==> {
            &&& transport_plan.remote_source_activity@.len() == 0
            &&& transport_plan.route_control.producers@.len() == 0
            &&& transport_plan.route_control.consumers@.len() == 0
            &&& transport_plan.route_control.receiver_bwe_targets@.len() == 0
            &&& transport_plan.setup_turns@.len() == 0
        },
        all.transport_plan.remote_source_activity@.len() == 0,
        all.transport_plan.route_control.producers@.len() == 0,
        all.transport_plan.route_control.consumers@.len() == 0,
        all.transport_plan.route_control.receiver_bwe_targets@.len() == 0,
        all.transport_plan.setup_turns@.len() == 0,
{
}

} // verus!
