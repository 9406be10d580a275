//! Where sessions are placed, who is admitted and who is told.

use vstd::prelude::*;

use crate::admission::{admission_outcome, places, start_of, JoinUserRequest};
use crate::ids::{ConnectionId, MediaWorkerId, OutboundLane, RouterId, UserId, UserIdentity};
use crate::membership::{
    admitted, announces_departures, audience, departed, join_effects, join_plan, joined, refused,
};
use crate::ord_map::lemma_sorted_lists;
use crate::order::OrdKey;
use crate::outbound::{RoomEventMessage, UserCloseReason};
use crate::placement::{
    chooses, first_index, healthy_on_walk, is_first, is_least, least_index, spare_on_walk,
    spillover_worker, worker_at, worker_total, PlacementSnapshot, RoomWorkerPolicy,
    RouterPlacement,
};
use crate::read_model::{is_session_of, lists_sessions};
use crate::room_laws::{fanouts_skip_only_the_excluded, valid};
use crate::source_model::UserInfo;
use crate::state::{
    connected, lanes_without, user_order, JoinCommit, LifecycleEffects, RoomJoinError, State,
    UserJoinedFanout,
};
use crate::topology::RouterError;
use crate::transport::{SubscriptionIdentity, TransportSessionKey, TransportTeardown};
use crate::transport_plan::RoomTransportPlan;

verus! {

/// The sampled delay of a worker; without a sample it is the worst there is.
pub open spec fn sample(delays_ms: Seq<Option<u64>>, worker: MediaWorkerId) -> int {
    if worker.0 < delays_ms.len() && delays_ms[worker.0 as int] is Some {
        delays_ms[worker.0 as int]->0 as int
    } else {
        u64::MAX as int
    }
}

/// Number of steps from the start of a walk round `n` workers to a worker.
pub open spec fn distance(start: usize, worker: MediaWorkerId, n: int) -> int {
    let first = start as int % n;
    if worker.0 >= first {
        worker.0 - first
    } else {
        worker.0 + n - first
    }
}

/// No placement of the room is on the worker.
pub open spec fn spare(assigned: Seq<RouterPlacement>, worker: MediaWorkerId) -> bool {
    forall|i: int| 0 <= i < assigned.len() ==> (#[trigger] assigned[i]).media_worker != worker
}

/// The walk reaches every worker, each at its distance.
proof fn lemma_walk(start: usize, n: nat, worker: MediaWorkerId, offset: int)
    requires
        n > 0,
        start + n <= usize::MAX,
    ensures
        worker.0 < n ==> 0 <= distance(start, worker, n as int) < n && worker_at(
            start,
            distance(start, worker, n as int),
            n,
        ) == worker,
        0 <= offset < n ==> worker_at(start, offset, n).0 < n && distance(
            start,
            worker_at(start, offset, n),
            n as int,
        ) == offset,
{
    let m = n as int;
    let first = start as int % m;
    let rounds = start as int / m;
    vstd::arithmetic::div_mod::lemma_fundamental_div_mod(start as int, m);
    vstd::arithmetic::div_mod::lemma_mod_bound(start as int, m);
    assert(m * rounds == rounds * m) by (nonlinear_arith);
    assert((rounds + 1) * m == rounds * m + m) by (nonlinear_arith);
    if worker.0 < n {
        let d = distance(start, worker, m);
        if worker.0 >= first {
            vstd::arithmetic::div_mod::lemma_fundamental_div_mod_converse(
                start + d,
                m,
                rounds,
                worker.0 as int,
            );
        } else {
            vstd::arithmetic::div_mod::lemma_fundamental_div_mod_converse(
                start + d,
                m,
                rounds + 1,
                worker.0 as int,
            );
        }
    }
    if 0 <= offset < n {
        if first + offset < n {
            vstd::arithmetic::div_mod::lemma_fundamental_div_mod_converse(
                start + offset,
                m,
                rounds,
                first + offset,
            );
        } else {
            vstd::arithmetic::div_mod::lemma_fundamental_div_mod_converse(
                start + offset,
                m,
                rounds + 1,
                first + offset - m,
            );
        }
    }
}

/// Where an index is good, there is a first one, and it is no later.
proof fn lemma_some_first(n: nat, ok: spec_fn(int) -> bool, i: int)
    requires
        0 <= i < n,
        ok(i),
    ensures
        first_index(n, ok) matches Some(first) && is_first(n, ok, first) && first <= i,
    decreases i,
{
    if forall|j: int| 0 <= j < i ==> !#[trigger] ok(j) {
        assert(is_first(n, ok, i));
    } else {
        let j = choose|j: int| 0 <= j < i && #[trigger] ok(j);
        lemma_some_first(n, ok, j);
    }
    let first = choose|i: int| is_first(n, ok, i);
    assert(is_first(n, ok, first));
    if i < first {
        assert(!ok(i));
    }
}

/// Where there is an index, there is a first one with the least key.
proof fn lemma_some_least(n: nat, key: spec_fn(int) -> u64)
    requires
        n > 0,
    ensures
        is_least(n, key, least_index(n, key)),
    decreases n,
{
    if n == 1 {
        assert(is_least(n, key, 0));
    } else {
        let fewer = (n - 1) as nat;
        lemma_some_least(fewer, key);
        let best = least_index(fewer, key);
        if key(fewer as int) < key(best) {
            assert(is_least(n, key, fewer as int));
        } else {
            assert(is_least(n, key, best));
        }
    }
}

/// A room whose placements are all overloaded takes a join to a worker that it does not
/// use yet, where its policy allows one more router and such a worker is healthy: to the
/// nearest of them.
pub proof fn an_overloaded_room_spills_over<A: FnOnce() -> RouterId>(
    allocate: A,
    room: PlacementSnapshot,
    policy: RoomWorkerPolicy,
    delays_ms: Seq<Option<u64>>,
    start: usize,
    idle: MediaWorkerId,
    chosen: RouterPlacement,
)
    requires
        start + delays_ms.len() <= usize::MAX,
        chooses(allocate, room, policy, delays_ms, start, chosen),
        0 < room.assigned@.len() < policy.routers(),
        room.assigned@.len() < delays_ms.len(),
        policy.routers() > 1,
        forall|i: int|
            0 <= i < room.assigned@.len() ==> sample(
                delays_ms,
                (#[trigger] room.assigned@[i]).media_worker,
            ) >= policy.threshold(),
        sample(delays_ms, idle) < policy.threshold(),
        idle.0 < delays_ms.len(),
        spare(room.assigned@, idle),
    ensures
        sample(delays_ms, chosen.media_worker) < policy.threshold(),
        spare(room.assigned@, chosen.media_worker),
        allocate.ensures((), chosen.router),
        chosen.media_worker.0 < delays_ms.len(),
        distance(start, chosen.media_worker, delays_ms.len() as int) <= distance(
            start,
            idle,
            delays_ms.len() as int,
        ),
{
    let n = delays_ms.len();
    let ok = spare_on_walk(room.assigned@, delays_ms, policy.threshold(), start);
    let d = distance(start, idle, n as int);
    lemma_walk(start, n, idle, 0);
    assert(ok(d));
    lemma_some_first(n, ok, d);
    let first = first_index(n, ok)->0;
    assert(ok(first));
    lemma_walk(start, n, idle, first);
}

/// A join that does not spill over stays on a placement of the room: on the one with the
/// least delay, the earliest of equals. It stays there where some placement is healthy,
/// where the room has as many routers as its policy allows, where it is on every worker,
/// and where no other worker is healthy.
pub proof fn a_settled_room_takes_its_least_delayed_placement<A: FnOnce() -> RouterId>(
    allocate: A,
    room: PlacementSnapshot,
    policy: RoomWorkerPolicy,
    delays_ms: Seq<Option<u64>>,
    start: usize,
    chosen: RouterPlacement,
)
    requires
        chooses(allocate, room, policy, delays_ms, start, chosen),
        policy.routers() != 1,
        room.assigned@.len() > 0,
        ({
            ||| room.assigned@.len() >= policy.routers()
            ||| delays_ms.len() > 0 && room.assigned@.len() >= delays_ms.len()
            ||| exists|i: int|
                0 <= i < room.assigned@.len() && sample(
                    delays_ms,
                    (#[trigger] room.assigned@[i]).media_worker,
                ) < policy.threshold()
            ||| forall|w: MediaWorkerId|
                spare(room.assigned@, w) ==> #[trigger] sample(delays_ms, w) >= policy.threshold()
        }),
    ensures
        exists|i: int|
            0 <= i < room.assigned@.len() && chosen == #[trigger] room.assigned@[i] && (forall|
                j: int,
            |
                0 <= j < room.assigned@.len() ==> sample(delays_ms, chosen.media_worker) <= sample(
                    delays_ms,
                    (#[trigger] room.assigned@[j]).media_worker,
                )) && (forall|j: int|
                0 <= j < i ==> sample(delays_ms, chosen.media_worker) < sample(
                    delays_ms,
                    (#[trigger] room.assigned@[j]).media_worker,
                )),
{
    let assigned = room.assigned@;
    let n = worker_total(delays_ms);
    let ok = spare_on_walk(assigned, delays_ms, policy.threshold(), start);
    if spillover_worker(assigned, policy, delays_ms, start) is Some {
        let offset = choose|i: int| is_first(n, ok, i);
        assert(is_first(n, ok, offset));
        assert(ok(offset));
        let w = worker_at(start, offset, n);
        assert(spare(assigned, w));
        assert(sample(delays_ms, w) < policy.threshold());
    }
    let key = crate::placement::assigned_delay(assigned, delays_ms);
    lemma_some_least(assigned.len(), key);
    let i = least_index(assigned.len(), key);
    assert(chosen == assigned[i]);
    assert forall|j: int| 0 <= j < assigned.len() implies sample(delays_ms, chosen.media_worker)
        <= sample(delays_ms, (#[trigger] assigned[j]).media_worker) by {
        assert(key(i) <= key(j));
    }
    assert forall|j: int| 0 <= j < i implies sample(delays_ms, chosen.media_worker) < sample(
        delays_ms,
        (#[trigger] assigned[j]).media_worker,
    ) by {
        assert(key(i) < key(j));
    }
}

/// The first join of a room goes to its primary router: to the nearest healthy worker, and
/// where none is healthy to the nearest of the least delayed ones.
pub proof fn the_first_join_goes_to_the_nearest_healthy_worker<A: FnOnce() -> RouterId>(
    allocate: A,
    room: PlacementSnapshot,
    policy: RoomWorkerPolicy,
    delays_ms: Seq<Option<u64>>,
    start: usize,
    chosen: RouterPlacement,
    other: MediaWorkerId,
)
    requires
        chooses(allocate, room, policy, delays_ms, start, chosen),
        room.assigned@.len() == 0,
        2 * delays_ms.len() <= usize::MAX,
        other.0 < delays_ms.len(),
    ensures
        chosen.router == room.primary,
        chosen.media_worker.0 < delays_ms.len(),
        ({
            let n = delays_ms.len() as int;
            let own = sample(delays_ms, chosen.media_worker);
            let theirs = sample(delays_ms, other);
            let nearer = distance(start, other, n) < distance(start, chosen.media_worker, n);
            if theirs < policy.threshold() {
                own < policy.threshold() && !nearer
            } else {
                own < policy.threshold() || own < theirs || (own == theirs && !nearer)
            }
        }),
{
    let n = delays_ms.len();
    let begin = (start as int % n as int) as usize;
    vstd::arithmetic::div_mod::lemma_mod_bound(start as int, n as int);
    vstd::arithmetic::div_mod::lemma_small_mod(begin as nat, n);
    assert(distance(begin, other, n as int) == distance(start, other, n as int));
    let ok = healthy_on_walk(delays_ms, policy.threshold(), begin);
    let d = distance(begin, other, n as int);
    lemma_walk(begin, n, other, 0);
    if ok(d) {
        lemma_some_first(n, ok, d);
    }
    match first_index(n, ok) {
        Some(first) => {
            assert(is_first(n, ok, first));
            assert(ok(first));
            lemma_walk(begin, n, other, first);
        },
        None => {
            let key = crate::placement::delay_on_walk(delays_ms, begin);
            lemma_some_least(n, key);
            let least = least_index(n, key);
            lemma_walk(begin, n, other, least);
            assert(key(least) <= key(d));
            if d < least {
                assert(key(least) < key(d));
            }
            if ok(least) {
                lemma_some_first(n, ok, least);
            }
        },
    }
}

/// A room that may have one router keeps every join on its first placement, whatever the
/// delays.
pub proof fn one_router_takes_every_join<A: FnOnce() -> RouterId>(
    allocate: A,
    room: PlacementSnapshot,
    policy: RoomWorkerPolicy,
    delays_ms: Seq<Option<u64>>,
    start: usize,
    chosen: RouterPlacement,
)
    requires
        chooses(allocate, room, policy, delays_ms, start, chosen),
        policy.routers() == 1,
        room.assigned@.len() > 0,
    ensures
        chosen == room.assigned@[0],
{
}

/// Rooms start their walks round robin: the next room starts one worker further.
pub proof fn rooms_spread_over_the_workers(instance: u64, delays_ms: Seq<Option<u64>>)
    requires
        0 < delays_ms.len() <= usize::MAX,
        instance < u64::MAX,
    ensures
        start_of(instance, delays_ms) < delays_ms.len(),
        start_of((instance + 1) as u64, delays_ms) == if start_of(instance, delays_ms) + 1
            == delays_ms.len() {
            0
        } else {
            start_of(instance, delays_ms) + 1
        },
        start_of(0, delays_ms) == 0,
{
    let n = delays_ms.len() as int;
    let i = instance as int;
    vstd::arithmetic::div_mod::lemma_fundamental_div_mod(i, n);
    vstd::arithmetic::div_mod::lemma_mod_bound(i, n);
    let rounds = i / n;
    assert(n * rounds == rounds * n) by (nonlinear_arith);
    assert((rounds + 1) * n == rounds * n + n) by (nonlinear_arith);
    if i % n + 1 == n {
        vstd::arithmetic::div_mod::lemma_fundamental_div_mod_converse(i + 1, n, rounds + 1, 0);
    } else {
        vstd::arithmetic::div_mod::lemma_fundamental_div_mod_converse(
            i + 1,
            n,
            rounds,
            i % n + 1,
        );
    }
    vstd::arithmetic::div_mod::lemma_small_mod(0, n as nat);
}

/// An admission asks the router for a placement of the room, or for a new router on a
/// worker that the room does not use.
pub proof fn admissions_place_on_known_or_spare_workers<A: FnOnce() -> RouterId>(
    allocate: A,
    snapshot: PlacementSnapshot,
    policy: RoomWorkerPolicy,
    delays_ms: Seq<Option<u64>>,
    instance: u64,
    placement: RouterPlacement,
)
    requires
        places(allocate, snapshot, policy, delays_ms, instance, placement),
        snapshot.assigned@.len() > 0,
    ensures
        snapshot.assigned@.contains(placement) || (spare(
            snapshot.assigned@,
            placement.media_worker,
        ) && allocate.ensures((), placement.router) && sample(delays_ms, placement.media_worker)
            < policy.threshold() && snapshot.assigned@.len() < policy.routers()),
{
    let assigned = snapshot.assigned@;
    let start = start_of(instance, delays_ms);
    let n = worker_total(delays_ms);
    let ok = spare_on_walk(assigned, delays_ms, policy.threshold(), start);
    if spillover_worker(assigned, policy, delays_ms, start) is Some {
        let offset = choose|i: int| is_first(n, ok, i);
        assert(is_first(n, ok, offset));
        assert(ok(offset));
    } else if policy.routers() == 1 {
        assert(assigned[0] == placement);
    } else {
        let key = crate::placement::assigned_delay(assigned, delays_ms);
        lemma_some_least(assigned.len(), key);
        assert(assigned[least_index(assigned.len(), key)] == placement);
    }
}

/// A join is refused exactly where the user is new and the room has as many users as it
/// may.
pub proof fn joins_are_refused_when_the_room_is_full(st: State, user: UserIdentity)
    requires
        st.users.dom().finite(),
    ensures
        refused(st, user) <==> !st.users.contains_key(user) && st.users.dom().len() >= st.max_users,
{
    lemma_sorted_lists::<UserId>(st.users.dom());
}

/// An admitted user is connected by a connection of its own on the worker that it was
/// given, under its lane and with nothing known of it. Nobody else is touched, and a
/// newcomer changes no publication and no subscription.
pub proof fn a_join_adds_one_user(
    st: State,
    user: UserIdentity,
    sender: OutboundLane,
    worker: MediaWorkerId,
    other: UserIdentity,
)
    requires
        st.next_connection < u64::MAX,
    ensures
        ({
            let after = joined(st, user, sender, worker);
            &&& after.users.dom() == st.users.dom().insert(user)
            &&& after.users[user].connection_id == ConnectionId(st.next_connection)
            &&& after.users[user].sender == sender
            &&& after.users[user].capabilities is None
            &&& after.users[user].info == (UserInfo {
                is_raising_hand: None,
                is_self_muted: None,
                is_deaf: None,
                is_camera_on: None,
                is_screen_sharing_on: None,
                is_featured: None,
            })
            &&& after.topology.placements.contains_key(user)
            &&& after.topology.placements[user].connection == ConnectionId(st.next_connection)
            &&& after.topology.placements[user].worker == worker
            &&& after.next_connection == st.next_connection + 1
            &&& other != user && st.users.contains_key(other) ==> after.users[other]
                == st.users[other]
            &&& other != user && st.topology.placements.contains_key(other)
                ==> after.topology.placements.contains_key(other)
                && after.topology.placements[other] == st.topology.placements[other]
            &&& !st.users.contains_key(user) ==> after.topology.sources == st.topology.sources
                && after.topology.graph == st.topology.graph && after.track_revision
                == st.track_revision
        }),
{
    assert(joined(st, user, sender, worker).users.dom() =~= st.users.dom().insert(user));
}

/// Lanes of the listed users, one for each but the excluded one.
proof fn lemma_lane_count(
    users: crate::state::Users,
    order: Seq<UserIdentity>,
    excluded: Option<UserIdentity>,
)
    requires
        order.no_duplicates(),
    ensures
        lanes_without(users, order, excluded).len() == order.len() - if excluded is Some
            && order.contains(excluded->0) {
            1int
        } else {
            0
        },
    decreases order.len(),
{
    if order.len() > 0 {
        let fewer = order.drop_last();
        lemma_lane_count(users, fewer, excluded);
        if excluded is Some {
            let who = excluded->0;
            if fewer.contains(who) {
                let i = fewer.index_of(who);
                assert(order[i] == who);
            }
            if order.contains(who) {
                let i = order.index_of(who);
                if i < fewer.len() {
                    assert(fewer[i] == who);
                }
            }
        }
    }
}

/// The listing of the users holds every one of them once.
proof fn lemma_users_listed(users: crate::state::Users)
    requires
        users.dom().finite(),
    ensures
        user_order(users).no_duplicates(),
        user_order(users).len() == users.dom().len(),
        forall|user: UserIdentity| #[trigger]
            user_order(users).contains(user) <==> users.contains_key(user),
{
    lemma_sorted_lists::<UserId>(users.dom());
    let order = user_order(users);
    assert forall|a: int, b: int|
        0 <= a < order.len() && 0 <= b < order.len() && a != b implies order[a] != order[b] by {
        if order[a] == order[b] {
            crate::ord_map::lemma_increasing_distinct::<UserId>(order, a, b);
        }
    }
}

/// Everyone but the excluded user is reached, each once, and nobody else.
pub proof fn fanouts_reach_everyone_else(
    st: State,
    excluded: Option<UserIdentity>,
    user: UserIdentity,
)
    requires
        st.users.dom().finite(),
    ensures
        ({
            let lanes = lanes_without(st.users, user_order(st.users), excluded);
            &&& st.users.contains_key(user) && excluded != Some(user) ==> lanes.contains(
                st.users[user].sender,
            )
            &&& lanes.len() == st.users.dom().len() - if excluded is Some
                && st.users.contains_key(excluded->0) {
                1int
            } else {
                0
            }
            &&& forall|lane: OutboundLane| #[trigger]
                lanes.contains(lane) ==> exists|other: UserIdentity| #[trigger]
                    st.users.contains_key(other) && excluded != Some(other)
                        && st.users[other].sender == lane
        }),
{
    let order = user_order(st.users);
    lemma_users_listed(st.users);
    lemma_lane_count(st.users, order, excluded);
    if st.users.contains_key(user) {
        fanouts_skip_only_the_excluded(st.users, order, excluded, st.users[user].sender);
        assert(order.contains(user));
        let i = order.index_of(user);
        assert(order[i] == user);
    }
    if excluded is Some {
        assert(order.contains(excluded->0) <==> st.users.contains_key(excluded->0));
    }
    let lanes = lanes_without(st.users, order, excluded);
    assert forall|lane: OutboundLane| #[trigger] lanes.contains(lane) implies exists|
        other: UserIdentity,
    | #[trigger] st.users.contains_key(other) && excluded != Some(other)
        && st.users[other].sender == lane by {
        fanouts_skip_only_the_excluded(st.users, order, excluded, lane);
        let i = choose|i: int|
            0 <= i < order.len() && excluded != Some(#[trigger] order[i])
                && st.users[order[i]].sender == lane;
        assert(order.contains(order[i]));
        assert(st.users.contains_key(order[i]));
    }
}

/// A newcomer is announced once to everyone who was there, unless nobody is to be told; no
/// connection is closed for it. A user that was connected is not announced: its former
/// connection is closed as replaced.
pub proof fn a_join_tells_those_who_were_there(
    st: State,
    user: UserId,
    sender: OutboundLane,
    worker: MediaWorkerId,
    joined_fanout: UserJoinedFanout,
    effects: LifecycleEffects,
    other: UserIdentity,
)
    requires
        st.users.dom().finite(),
        join_effects(st, user, sender, worker, joined_fanout, effects),
    ensures
        !st.users.contains_key(user.id()) ==> {
            &&& effects.close_requests@.len() == 0
            &&& effects.track_snapshots@.len() == 0
            &&& effects.fanouts@.len() == if joined_fanout == UserJoinedFanout::Emit {
                1int
            } else {
                0
            }
            &&& joined_fanout == UserJoinedFanout::Emit ==> {
                let told = effects.fanouts@[0];
                &&& told.message matches RoomEventMessage::UserJoined { user_id, .. } && user_id
                    == user
                &&& told.recipients@.len() == st.users.dom().len()
                &&& st.users.contains_key(other) ==> told.recipients@.contains(
                    st.users[other].sender,
                )
            }
        },
        st.users.contains_key(user.id()) ==> {
            &&& effects.fanouts@.len() == 0
            &&& effects.close_requests@.len() == 1
            &&& effects.close_requests@[0].sender == st.users[user.id()].sender
            &&& effects.close_requests@[0].reason == UserCloseReason::Replaced
        },
{
    let after = admitted(st, user.id(), sender, worker);
    if !st.users.contains_key(user.id()) {
        assert(after.users.dom() =~= st.users.dom().insert(user.id()));
        fanouts_reach_everyone_else(after, Some(user.id()), other);
        if st.users.contains_key(other) {
            assert(other != user.id());
        }
    }
}

/// The user received a committed route of a publication of the owner.
pub open spec fn received_from(
    st: State,
    receiver: UserIdentity,
    owner: UserIdentity,
    k: SubscriptionIdentity,
) -> bool {
    &&& k.receiver == receiver
    &&& crate::delivery_laws::committed(st.topology, k)
    &&& st.topology.sources.contains_key(
        crate::route_graph::attachment(st.topology.graph.subscriptions, k)->0.source_id.0,
    )
    &&& st.topology.sources[crate::route_graph::attachment(
        st.topology.graph.subscriptions,
        k,
    )->0.source_id.0].descriptor.owner.id() == owner
}

/// The audience of a user are those who have a committed route of one of its
/// publications.
pub proof fn the_audience_has_routes(st: State, owner: UserIdentity, receiver: UserIdentity)
    ensures
        crate::topology::audience_of(st.topology, owner).contains(receiver) <==> exists|
            k: SubscriptionIdentity,
        | #[trigger] received_from(st, receiver, owner, k),
{
    let t = st.topology;
    let subs = t.graph.subscriptions;
    if crate::topology::audience_of(t, owner).contains(receiver) {
        let id = choose|id: u64|
            crate::sources::owned_ids(t.sources, owner).contains(id)
                && #[trigger] crate::topology::receives(subs, id, receiver);
        let k = choose|k: SubscriptionIdentity|
            crate::route_graph::attached_to(subs, k, crate::ids::PublishedSourceId(id))
                && #[trigger] crate::route_graph::record(subs, k).routed() && k.receiver
                == receiver;
        assert(received_from(st, receiver, owner, k));
    }
    if exists|k: SubscriptionIdentity| #[trigger] received_from(st, receiver, owner, k) {
        let k = choose|k: SubscriptionIdentity| #[trigger] received_from(st, receiver, owner, k);
        let id = crate::route_graph::attachment(subs, k)->0.source_id.0;
        assert(crate::route_graph::record(subs, k).routed());
        assert(crate::topology::receives(subs, id, receiver));
        assert(crate::sources::owned_ids(t.sources, owner).contains(id));
    }
}

/// Those of the listed users that are connected are kept, in their order.
proof fn lemma_connected(users: crate::state::Users, ids: Seq<UserIdentity>, user: UserIdentity)
    ensures
        connected(users, ids).contains(user) <==> ids.contains(user) && users.contains_key(user),
    decreases ids.len(),
{
    if ids.len() > 0 {
        let fewer = ids.drop_last();
        lemma_connected(users, fewer, user);
        let before = connected(users, fewer);
        let all = connected(users, ids);
        if fewer.contains(user) {
            assert(ids[fewer.index_of(user)] == user);
        }
        if ids.contains(user) {
            let i = ids.index_of(user);
            if i < fewer.len() {
                assert(fewer[i] == user);
            }
        }
        if before.contains(user) {
            assert(all[before.index_of(user)] == user);
        }
        if all.contains(user) {
            let i = all.index_of(user);
            if i < before.len() {
                assert(before[i] == user);
            }
        }
        if users.contains_key(ids.last()) {
            assert(all[all.len() - 1] == ids.last());
        }
    }
}

/// A user that is replaced is missed by its audience: everyone who received one of its
/// publications and is still there is sent its tracks anew, and asked to negotiate.
pub proof fn a_replaced_publisher_is_missed(
    st: State,
    user: UserId,
    sender: OutboundLane,
    worker: MediaWorkerId,
    joined_fanout: UserJoinedFanout,
    effects: LifecycleEffects,
    receiver: UserIdentity,
    k: SubscriptionIdentity,
)
    requires
        valid(st),
        st.users.contains_key(user.id()),
        join_effects(st, user, sender, worker, joined_fanout, effects),
        received_from(st, receiver, user.id(), k),
        st.users.contains_key(receiver),
        receiver != user.id(),
        crate::topology::audience_of(st.topology, user.id()).finite(),
    ensures
        exists|i: int|
            0 <= i < effects.track_snapshots@.len() && (#[trigger] effects.track_snapshots@[i]).0
                == st.users[receiver].sender
                && effects.track_snapshots@[i].1.snapshot.requires_negotiation,
{
    the_audience_has_routes(st, user.id(), receiver);
    let members = crate::topology::audience_of(st.topology, user.id());
    lemma_sorted_lists::<UserId>(members);
    let after = admitted(st, user.id(), sender, worker);
    let told = connected(after.users, audience(st, user.id()));
    assert(audience(st, user.id()).contains(receiver) <==> members.contains(receiver));
    lemma_connected(after.users, audience(st, user.id()), receiver);
    let i = told.index_of(receiver);
    assert(crate::state::is_sent(effects.track_snapshots@[i], after, told[i], true, i));
    assert(effects.track_snapshots@[i].0 == st.users[receiver].sender);
}

/// Everyone who is left learns of each departure, once.
pub proof fn departures_are_told_to_those_who_stay(
    st: State,
    gone: Seq<UserId>,
    fanouts: Seq<crate::outbound::MessageFanout>,
    i: int,
    other: UserIdentity,
)
    requires
        st.users.dom().finite(),
        announces_departures(st, gone, fanouts),
        0 <= i < gone.len(),
    ensures
        fanouts.len() == gone.len(),
        fanouts[i].message matches RoomEventMessage::UserDeparted { user_id } && user_id == gone[i],
        fanouts[i].recipients@.len() == st.users.dom().len(),
        st.users.contains_key(other) ==> fanouts[i].recipients@.contains(st.users[other].sender),
{
    fanouts_reach_everyone_else(st, None, other);
}

/// A departure takes exactly one user out of the room.
pub proof fn a_departure_takes_one_user(st: State, user: UserIdentity)
    requires
        st.users.dom().finite(),
        st.users.contains_key(user),
    ensures
        departed(st, user).users == st.users.remove(user),
        departed(st, user).users.dom().len() == st.users.dom().len() - 1,
        departed(st, user).next_connection == st.next_connection,
        departed(st, user).max_users == st.max_users,
        !refused(departed(st, user), user) || st.users.dom().len() > st.max_users,
{
    assert(departed(st, user).users.dom() =~= st.users.dom().remove(user));
    lemma_sorted_lists::<UserId>(departed(st, user).users.dom());
}

/// An admission stands or falls with the router. Where the router answers, the user is in
/// the room, on the worker of the answer and under the next connection, and its receipt
/// says so; where it fails nothing changes and the router is blamed.
pub proof fn admissions_follow_the_router(
    st: State,
    request: JoinUserRequest,
    joined_fanout: UserJoinedFanout,
    answer: Result<MediaWorkerId, RouterError>,
    after: State,
    r: Result<JoinCommit, RoomJoinError>,
)
    requires
        admission_outcome(st, request, joined_fanout, answer, after, r),
        st.next_connection < u64::MAX,
    ensures
        r is Ok <==> answer is Ok,
        r matches Err(error) ==> error is RouterState && after == st,
        r matches Ok(commit) ==> {
            let user = request.user_id.id();
            let key = commit.receipt.transport_session_key;
            &&& after.users.contains_key(user)
            &&& after.users[user].sender == request.sender
            &&& after.users[user].connection_id == key.connection
            &&& after.topology.placements[user].worker == key.worker
            &&& after.topology.placements[user].connection == key.connection
            &&& answer == Ok::<_, RouterError>(key.worker)
            &&& key.user == request.user_id
            &&& key.room == st.topology.instance
            &&& key.connection.0 == st.next_connection
            &&& join_effects(
                st,
                request.user_id,
                request.sender,
                key.worker,
                joined_fanout,
                commit.effects,
            )
            &&& join_plan(st, request.user_id, commit.transport_plan)
        },
{
}

/// A newcomer asks nothing of the transport but its own session. A user that connects
/// again has its former session closed, after everything that others received of it was
/// taken down.
pub proof fn a_join_closes_the_former_session(
    st: State,
    user: UserId,
    plan: RoomTransportPlan,
)
    requires
        valid(st),
        join_plan(st, user, plan),
    ensures
        !st.users.contains_key(user.id()) ==> plan.teardown@.len() == 0 && plan.relays@.len() == 0,
        st.users.contains_key(user.id()) ==> plan.teardown@.len() > 0 && (plan.teardown@.last()
            matches TransportTeardown::CloseSession { session_key } && session_key.user == user
            && session_key.connection == st.users[user.id()].connection_id && session_key.worker
            == st.topology.placements[user.id()].worker),
        plan.setup_turns@.len() == 0,
{
}

/// The sessions of a room are listed, one for each user: that of its connection, on the
/// worker it is placed on.
pub proof fn every_user_has_one_session(
    st: State,
    keys: Seq<TransportSessionKey>,
    user: UserIdentity,
)
    requires
        st.users.dom().finite(),
        st.users.contains_key(user),
        lists_sessions(st, keys),
    ensures
        keys.len() == st.users.dom().len(),
        exists|i: int|
            0 <= i < keys.len() && (#[trigger] keys[i]).user.id() == user && keys[i].connection
                == st.users[user].connection_id && keys[i].worker
                == st.topology.placements[user].worker && keys[i].room == st.topology.instance,
{
    lemma_users_listed(st.users);
    let order = user_order(st.users);
    assert(order.contains(user));
    let i = order.index_of(user);
    assert(is_session_of(st, order[i], keys[i]));
}

} // verus!
