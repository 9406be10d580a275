//! Joining and leaving a room.
//!
//! A user that joins again replaces its connection without taking another place.
//! Members that lose tracks with a departing publisher are sent new snapshots.

use vstd::prelude::*;

use crate::ids::{ConnectionId, MediaWorkerId, OutboundLane, UserId, UserIdentity};
use crate::ord_map::{enumerates, lemma_sorted, sorted, OrdMap};
use crate::order::OrdKey;
use crate::outbound::{
    MessageFanout, RoomEventMessage, UserCloseReason, VersionedRemoteTrackSnapshot,
};
use crate::source_model::UserInfo;
use crate::state::{
    are_snapshots, connected, lanes_without, user_order, with_track_revisions, ActiveUser,
    CloseRequest, ConnectionCloseCommit, JoinCommit, LifecycleEffects, RoomJoinError, RoomState,
    State, UserJoinedFanout,
};
use crate::topology::{
    audience_of, departure_relays, departure_teardown, lost_routes, media_removals, owned_order,
    user_identities, with_replaced_session, without_user, RouterError, RouterRelease,
    SessionPlacement, SessionPlacementCommit, SessionRemoval, Topology,
};
use crate::transport::{
    TransportRelayRouteEffect, TransportSessionKey, TransportTeardown,
};
use crate::transport_plan::{kept_relays, relay_teardown, RoomTransportPlan};

verus! {

/// Marks a user as authenticated, whatever its permissions are.
#[derive(Debug, Clone, Copy, PartialEq, Eq, Structural)]
pub struct RoomUserPermissions;

/// A new user that finds no place.
pub open spec fn refused(st: State, user: UserIdentity) -> bool {
    !st.users.contains_key(user) && user_order(st.users).len() >= st.max_users
}

/// Receivers of a user's publications, in order.
pub open spec fn audience(st: State, user: UserIdentity) -> Seq<UserIdentity> {
    sorted::<UserId>(audience_of(st.topology, user))
}

/// The state once a user is connected, before anyone is told.
pub open spec fn admitted(
    st: State,
    user: UserIdentity,
    sender: OutboundLane,
    worker: MediaWorkerId,
) -> State {
    let connection = ConnectionId(st.next_connection);
    let placed = Topology {
        placements: st.topology.placements.insert(user, SessionPlacement { connection, worker }),
        ..st.topology
    };
    State {
        users: st.users.insert(user, ActiveUser::fresh(connection, sender)),
        topology: if st.users.contains_key(user) {
            with_replaced_session(placed, user)
        } else {
            placed
        },
        next_connection: (st.next_connection + 1) as u64,
        ..st
    }
}

/// The state after a join.
pub open spec fn joined(
    st: State,
    user: UserIdentity,
    sender: OutboundLane,
    worker: MediaWorkerId,
) -> State {
    let after = admitted(st, user, sender, worker);
    if st.users.contains_key(user) {
        with_track_revisions(after, connected(after.users, audience(st, user)).len())
    } else {
        after
    }
}

/// What a join tells others.
pub open spec fn join_effects(
    st: State,
    user: UserId,
    sender: OutboundLane,
    worker: MediaWorkerId,
    joined_fanout: UserJoinedFanout,
    effects: LifecycleEffects,
) -> bool {
    let after = admitted(st, user.id(), sender, worker);
    if st.users.contains_key(user.id()) {
        &&& effects.close_requests@ == seq![
            CloseRequest {
                sender: st.users[user.id()].sender,
                reason: UserCloseReason::Replaced,
            },
        ]
        &&& are_snapshots(
            effects.track_snapshots@,
            after,
            connected(after.users, audience(st, user.id())),
            true,
        )
        &&& effects.fanouts@ == Seq::<MessageFanout>::empty()
    } else {
        &&& effects.close_requests@ == Seq::<CloseRequest>::empty()
        &&& effects.track_snapshots@ == Seq::<(
            OutboundLane,
            VersionedRemoteTrackSnapshot,
        )>::empty()
        &&& if joined_fanout == UserJoinedFanout::Emit {
            &&& effects.fanouts@.len() == 1
            &&& effects.fanouts@[0].message == (RoomEventMessage::UserJoined {
                user_id: user,
                info: UserInfo::nothing(),
            })
            &&& effects.fanouts@[0].recipients@ == lanes_without(
                after.users,
                user_order(after.users),
                Some(user.id()),
            )
        } else {
            effects.fanouts@ == Seq::<MessageFanout>::empty()
        }
    }
}

/// Transport work of a join.
pub open spec fn join_plan(st: State, user: UserId, plan: RoomTransportPlan) -> bool {
    let t = st.topology;
    if st.users.contains_key(user.id()) {
        let relays = departure_relays(t, user.id());
        let displaced = t.session(user, st.users[user.id()].connection_id)->0;
        plan.only(
            kept_relays(relays),
            relay_teardown(relays) + media_removals(
                seq![],
                lost_routes(t.graph, owned_order(t.sources, user.id())),
            ).push(TransportTeardown::CloseSession { session_key: displaced }),
        )
    } else {
        plan.only(seq![], seq![])
    }
}

/// The state once a user is gone, before anyone is told.
pub open spec fn departed(st: State, user: UserIdentity) -> State {
    State {
        users: st.users.remove(user),
        topology: without_user(st.topology, user),
        ..st
    }
}

/// The state once all these users that are connected are gone.
pub open spec fn all_departed(st: State, users: Seq<UserIdentity>) -> State
    decreases users.len(),
{
    if users.len() == 0 {
        st
    } else {
        let before = all_departed(st, users.drop_last());
        if before.users.contains_key(users.last()) {
            departed(before, users.last())
        } else {
            before
        }
    }
}

/// Receivers of what these users published.
pub open spec fn lost_audience(st: State, users: Seq<UserIdentity>) -> Set<UserIdentity>
    decreases users.len(),
{
    if users.len() == 0 {
        Set::empty()
    } else {
        let before = all_departed(st, users.drop_last());
        if before.users.contains_key(users.last()) {
            lost_audience(st, users.drop_last()).union(audience_of(before.topology, users.last()))
        } else {
            lost_audience(st, users.drop_last())
        }
    }
}

/// Relay work of these departures.
pub open spec fn departures_relays(st: State, users: Seq<UserIdentity>) -> Seq<
    TransportRelayRouteEffect,
>
    decreases users.len(),
{
    if users.len() == 0 {
        seq![]
    } else {
        let before = all_departed(st, users.drop_last());
        if before.users.contains_key(users.last()) {
            departures_relays(st, users.drop_last()) + kept_relays(
                departure_relays(before.topology, users.last()),
            )
        } else {
            departures_relays(st, users.drop_last())
        }
    }
}

/// Media teardown of these departures.
pub open spec fn departures_teardown(st: State, users: Seq<UserIdentity>) -> Seq<TransportTeardown>
    decreases users.len(),
{
    if users.len() == 0 {
        seq![]
    } else {
        let before = all_departed(st, users.drop_last());
        if before.users.contains_key(users.last()) {
            departures_teardown(st, users.drop_last()) + departure_teardown(
                before.topology,
                users.last(),
            )
        } else {
            departures_teardown(st, users.drop_last())
        }
    }
}

/// Connections closed by these departures.
pub open spec fn departures_closes(st: State, users: Seq<UserIdentity>) -> Seq<CloseRequest>
    decreases users.len(),
{
    if users.len() == 0 {
        seq![]
    } else {
        let before = all_departed(st, users.drop_last());
        if before.users.contains_key(users.last()) {
            departures_closes(st, users.drop_last()).push(
                CloseRequest {
                    sender: before.users[users.last()].sender,
                    reason: UserCloseReason::RemovedByRuntime,
                },
            )
        } else {
            departures_closes(st, users.drop_last())
        }
    }
}

/// Sessions closed by these departures.
pub open spec fn departures_sessions(st: State, users: Seq<UserId>) -> Seq<TransportTeardown>
    decreases users.len(),
{
    if users.len() == 0 {
        seq![]
    } else {
        let user = users.last();
        let before = all_departed(st, user_identities(users.drop_last()));
        if before.users.contains_key(user.id()) {
            departures_sessions(st, users.drop_last()).push(
                TransportTeardown::CloseSession {
                    session_key: before.topology.session(
                        user,
                        before.users[user.id()].connection_id,
                    )->0,
                },
            )
        } else {
            departures_sessions(st, users.drop_last())
        }
    }
}

/// Users that these departures concern.
pub open spec fn departures(st: State, users: Seq<UserId>) -> Seq<UserId>
    decreases users.len(),
{
    if users.len() == 0 {
        seq![]
    } else {
        let before = all_departed(st, user_identities(users.drop_last()));
        if before.users.contains_key(users.last().id()) {
            departures(st, users.drop_last()).push(users.last())
        } else {
            departures(st, users.drop_last())
        }
    }
}

/// Everyone who is left is told of each departure.
pub open spec fn announces_departures(
    st: State,
    gone: Seq<UserId>,
    fanouts: Seq<MessageFanout>,
) -> bool {
    &&& fanouts.len() == gone.len()
    &&& forall|i: int|
        0 <= i < gone.len() ==> (#[trigger] fanouts[i]).message == (
        RoomEventMessage::UserDeparted { user_id: gone[i] }) && fanouts[i].recipients@
            == lanes_without(st.users, user_order(st.users), None)
}

/// What the router gives up of users that left.
pub open spec fn session_releases(gone: Seq<UserId>) -> Seq<RouterRelease> {
    gone.map_values(|user_id: UserId| RouterRelease::Session { user_id })
}

/// Users that an administrator disconnected.
#[derive(Debug)]
pub struct DisconnectCommit {
    pub session_teardowns: Vec<TransportTeardown>,
    pub router_releases: Vec<RouterRelease>,
    pub effects: LifecycleEffects,
    pub transport_plan: RoomTransportPlan,
}

/// What closing a connection comes to.
pub open spec fn closes(
    st: State,
    user_id: UserId,
    connection: ConnectionId,
    after: State,
    r: Option<ConnectionCloseCommit>,
) -> bool {
    let user = user_id.id();
    let session = st.topology.session(user_id, connection);
    if st.current(user, connection) {
        let gone = departed(st, user);
        let told = connected(gone.users, audience(st, user));
        &&& after == with_track_revisions(gone, told.len())
        &&& r matches Some(
            ConnectionCloseCommit::Current {
                session_teardown,
                router_release,
                effects,
                transport_plan,
            },
        )
        &&& router_release == (RouterRelease::Session { user_id })
        &&& session_teardown == (TransportTeardown::CloseSession { session_key: session->0 })
        &&& effects.close_requests@ == Seq::<CloseRequest>::empty()
        &&& are_snapshots(effects.track_snapshots@, gone, told, true)
        &&& announces_departures(gone, seq![user_id], effects.fanouts@)
        &&& transport_plan.only(
            kept_relays(departure_relays(st.topology, user)),
            departure_teardown(st.topology, user),
        )
    } else if session is Some {
        &&& after == (State {
            topology: Topology {
                placements: st.topology.placements.remove(user),
                ..st.topology
            },
            ..st
        })
        &&& r matches Some(
            ConnectionCloseCommit::StalePlacement { session_teardown, router_release },
        )
        &&& router_release == (RouterRelease::Placement { user_id, connection_id: connection })
        &&& session_teardown == (TransportTeardown::CloseSession { session_key: session->0 })
    } else {
        after == st && r is None
    }
}

/// What disconnecting users comes to.
pub open spec fn disconnects(
    st: State,
    user_ids: Seq<UserId>,
    after: State,
    r: DisconnectCommit,
) -> bool {
    let users = user_identities(user_ids);
    let gone = all_departed(st, users);
    let told = connected(gone.users, sorted::<UserId>(lost_audience(st, users)));
    &&& after == with_track_revisions(gone, told.len())
    &&& r.session_teardowns@ == departures_sessions(st, user_ids)
    &&& r.router_releases@ == session_releases(departures(st, user_ids))
    &&& r.effects.close_requests@ == departures_closes(st, users)
    &&& are_snapshots(r.effects.track_snapshots@, gone, told, true)
    &&& announces_departures(gone, departures(st, user_ids), r.effects.fanouts@)
    &&& r.transport_plan.only(departures_relays(st, users), departures_teardown(st, users))
}

impl RoomState {
    /// Admits a user, on the worker that the router gives it.
    pub fn apply_join<F: FnOnce(&UserId, ConnectionId) -> Result<MediaWorkerId, RouterError>>(
        &mut self,
        user_id: &UserId,
        sender: OutboundLane,
        joined_fanout: UserJoinedFanout,
        place: F,
    ) -> (r: Result<JoinCommit, RoomJoinError>)
        requires
            old(self).wf(),
            old(self)@.next_connection < u64::MAX,
            place.requires((user_id, ConnectionId(old(self)@.next_connection))),
        ensures
            final(self).wf(),
            refused(old(self)@, user_id.id()) ==> r == Err::<JoinCommit, _>(
                RoomJoinError::RoomFull,
            ) && final(self)@ == old(self)@,
            !refused(old(self)@, user_id.id()) ==> exists|
                answer: Result<MediaWorkerId, RouterError>,
            |
                #![trigger place.ensures(
                    (user_id, ConnectionId(old(self)@.next_connection)),
                    answer,
                )]
                place.ensures(
                    (user_id, ConnectionId(old(self)@.next_connection)),
                    answer,
                ) && match answer {
                    Err(_) => r == Err::<JoinCommit, _>(RoomJoinError::RouterState)
                        && final(self)@ == old(self)@,
                    Ok(worker) => {
                        &&& r is Ok
                        &&& final(self)@ == joined(old(self)@, user_id.id(), sender, worker)
                        &&& r->Ok_0.receipt.transport_session_key == (TransportSessionKey {
                            room: old(self)@.topology.instance,
                            worker,
                            connection: ConnectionId(old(self)@.next_connection),
                            user: *user_id,
                        })
                        &&& join_effects(
                            old(self)@,
                            *user_id,
                            sender,
                            worker,
                            joined_fanout,
                            r->Ok_0.effects,
                        )
                        &&& join_plan(old(self)@, *user_id, r->Ok_0.transport_plan)
                    },
                },
    {
        let ghost st = old(self)@;
        let ghost user = user_id.id();
        let (previous, displaced) = match self.users.get(user_id) {
            Some(known) => (Some(known.connection_id), Some(known.sender)),
            None => (None, None),
        };
        proof {
            self.users.lemma_contents();
        }
        if previous.is_none() && self.users.len() >= self.max_users {
            return Err(RoomJoinError::RoomFull);
        }
        let connection = ConnectionId(self.next_connection_id);
        let receivers = self.topology.committed_consumer_user_ids_for_owner_sources(user_id);
        proof {
            lemma_sorted::<UserId>(user_identities(receivers@), audience_of(st.topology, user));
        }
        let commit = match self.topology.commit_session_placement(
            user_id,
            connection,
            previous,
            place,
        ) {
            Err(_) => {
                return Err(RoomJoinError::RouterState);
            },
            Ok(commit) => commit,
        };
        let SessionPlacementCommit { receipt, replacement_transport_plan } = commit;
        let ghost worker = receipt.transport_session_key.worker;
        self.next_connection_id = self.next_connection_id + 1;
        let newcomer = ActiveUser {
            connection_id: connection,
            sender,
            capabilities: None,
            info: UserInfo::default(),
            video_soft_pause_deadline: None,
        };
        self.users.insert(user_id.clone(), newcomer);
        proof {
            assert(self@ =~= admitted(st, user, sender, worker));
            assert(self@.placed());
        }
        let mut close_requests: Vec<CloseRequest> = Vec::new();
        let mut fanouts: Vec<MessageFanout> = Vec::new();
        let track_snapshots = match displaced {
            Some(lane) => {
                close_requests.push(
                    CloseRequest { sender: lane, reason: UserCloseReason::Replaced },
                );
                self.remote_track_snapshots_for_users(&receivers, true)
            },
            None => {
                if joined_fanout == UserJoinedFanout::Emit {
                    let recipients = self.lanes_except(Some(user_id));
                    fanouts.push(
                        MessageFanout {
                            recipients,
                            message: RoomEventMessage::UserJoined {
                                user_id: user_id.clone(),
                                info: UserInfo::default(),
                            },
                        },
                    );
                }
                Vec::new()
            },
        };
        Ok(
            JoinCommit {
                receipt,
                effects: LifecycleEffects { close_requests, track_snapshots, fanouts },
                transport_plan: replacement_transport_plan,
            },
        )
    }

    /// Takes a connected user out of the room. Returns its session, its lane, what is
    /// left to do for it and the receivers of its publications.
    fn remove_current(&mut self, user_id: &UserId) -> (r: (
        TransportSessionKey,
        OutboundLane,
        SessionRemoval,
        Vec<UserId>,
    ))
        requires
            old(self).wf(),
            old(self)@.users.contains_key(user_id.id()),
        ensures
            final(self).wf(),
            final(self)@ == departed(old(self)@, user_id.id()),
            old(self)@.topology.session(
                *user_id,
                old(self)@.users[user_id.id()].connection_id,
            ) == Some(r.0),
            r.1 == old(self)@.users[user_id.id()].sender,
            r.2.router_release == (RouterRelease::Session { user_id: *user_id }),
            r.2.transport_plan.only(
                kept_relays(departure_relays(old(self)@.topology, user_id.id())),
                departure_teardown(old(self)@.topology, user_id.id()),
            ),
            enumerates::<UserId>(
                user_identities(r.3@),
                audience_of(old(self)@.topology, user_id.id()),
            ),
    {
        let ghost st = old(self)@;
        let receivers = self.topology.committed_consumer_user_ids_for_owner_sources(user_id);
        let (connection, sender) = match self.users.remove(user_id) {
            Some(user) => (user.connection_id, user.sender),
            None => (ConnectionId(0), OutboundLane(0)),
        };
        let session = self.topology.transport_user_key(user_id, connection);
        let removal = self.topology.remove_session(user_id);
        proof {
            assert(self@ =~= departed(st, user_id.id()));
            assert(self@.placed());
        }
        (session, sender, removal, receivers)
    }

    /// Closes a connection. The user of a current one leaves the room; a placement
    /// that a connection left behind is given up.
    pub fn close_connection(&mut self, user_id: &UserId, connection_id: ConnectionId) -> (r: Option<
        ConnectionCloseCommit,
    >)
        requires
            old(self).wf(),
        ensures
            final(self).wf(),
            closes(old(self)@, *user_id, connection_id, final(self)@, r),
    {
        let ghost st = old(self)@;
        if self.user_for_connection(user_id, connection_id).is_some() {
            let (session, _, removal, receivers) = self.remove_current(user_id);
            let SessionRemoval { router_release, transport_plan } = removal;
            let ghost gone = self@;
            proof {
                lemma_sorted::<UserId>(
                    user_identities(receivers@),
                    audience_of(st.topology, user_id.id()),
                );
            }
            let recipients = self.lanes_except(None);
            let track_snapshots = self.remote_track_snapshots_for_users(&receivers, true);
            let mut fanouts: Vec<MessageFanout> = Vec::new();
            fanouts.push(
                MessageFanout {
                    recipients,
                    message: RoomEventMessage::UserDeparted { user_id: user_id.clone() },
                },
            );
            return Some(
                ConnectionCloseCommit::Current {
                    session_teardown: TransportTeardown::CloseSession { session_key: session },
                    router_release,
                    effects: LifecycleEffects {
                        close_requests: Vec::new(),
                        track_snapshots,
                        fanouts,
                    },
                    transport_plan,
                },
            );
        }
        match self.topology.retire_committed_placement(user_id, connection_id) {
            None => None,
            Some(session_key) => Some(
                ConnectionCloseCommit::StalePlacement {
                    session_teardown: TransportTeardown::CloseSession { session_key },
                    router_release: RouterRelease::Placement {
                        user_id: user_id.clone(),
                        connection_id,
                    },
                },
            ),
        }
    }

    /// Disconnects those of the users that are connected, in the listed order, as
    /// one change.
    pub fn apply_disconnect_users(&mut self, user_ids: &Vec<UserId>) -> (r: DisconnectCommit)
        requires
            old(self).wf(),
        ensures
            final(self).wf(),
            disconnects(old(self)@, user_ids@, final(self)@, r),
    {
        let ghost st = old(self)@;
        let ghost all = user_ids@;
        let ghost users = user_identities(user_ids@);
        let mut session_teardowns: Vec<TransportTeardown> = Vec::new();
        let mut router_releases: Vec<RouterRelease> = Vec::new();
        let mut close_requests: Vec<CloseRequest> = Vec::new();
        let mut transport_plan = RoomTransportPlan::new();
        let mut gone: Vec<UserId> = Vec::new();
        let mut told: OrdMap<UserId, ()> = OrdMap::new();
        let mut i: usize = 0;
        proof {
            assert(users.take(0) =~= Seq::<UserIdentity>::empty());
            assert(all.take(0) =~= Seq::<UserId>::empty());
            assert(told@.dom() =~= lost_audience(st, users.take(0)));
        }
        while i < user_ids.len()
            invariant
                i <= user_ids@.len(),
                all == user_ids@,
                users == user_identities(all),
                self.wf(),
                told.wf(),
                self@ == all_departed(st, users.take(i as int)),
                session_teardowns@ == departures_sessions(st, all.take(i as int)),
                close_requests@ == departures_closes(st, users.take(i as int)),
                gone@ == departures(st, all.take(i as int)),
                router_releases@ == session_releases(gone@),
                told@.dom() == lost_audience(st, users.take(i as int)),
                transport_plan.only(
                    departures_relays(st, users.take(i as int)),
                    departures_teardown(st, users.take(i as int)),
                ),
            decreases user_ids@.len() - i,
        {
            let ghost before = self@;
            let user_id = &user_ids[i];
            proof {
                assert(users.take(i + 1).drop_last() =~= users.take(i as int));
                assert(users.take(i + 1).last() == user_id.id());
                assert(all.take(i + 1).drop_last() =~= all.take(i as int));
                assert(all.take(i + 1).last() == *user_id);
                assert(user_identities(all.take(i as int)) =~= users.take(i as int));
            }
            if self.users.contains_key(user_id) {
                let ghost earlier = told@.dom();
                let (session_key, sender, removal, receivers) = self.remove_current(user_id);
                let ghost released = router_releases@;
                router_releases.push(removal.router_release);
                session_teardowns.push(TransportTeardown::CloseSession { session_key });
                close_requests.push(
                    CloseRequest { sender, reason: UserCloseReason::RemovedByRuntime },
                );
                transport_plan.extend(removal.transport_plan);
                let ghost others = gone@;
                gone.push(user_id.clone());
                proof {
                    assert(session_releases(others.push(*user_id)) =~= released.push(
                        RouterRelease::Session { user_id: *user_id },
                    ));
                }
                let mut j: usize = 0;
                let ghost names = user_identities(receivers@);
                proof {
                    assert(names.take(0) =~= Seq::<UserIdentity>::empty());
                    assert(earlier.union(names.take(0).to_set()) =~= earlier);
                }
                while j < receivers.len()
                    invariant
                        j <= receivers@.len(),
                        names == user_identities(receivers@),
                        told.wf(),
                        told@.dom() == earlier.union(names.take(j as int).to_set()),
                    decreases receivers@.len() - j,
                {
                    told.insert(receivers[j].clone(), ());
                    proof {
                        let some = names.take(j as int);
                        let more = names.take(j + 1);
                        assert(more =~= some.push(names[j as int]));
                        assert forall|name: UserIdentity| more.to_set().contains(name)
                            <==> some.to_set().contains(name) || name == names[j as int] by {
                            if some.contains(name) {
                                assert(more[some.index_of(name)] == name);
                            }
                            if name == names[j as int] {
                                assert(more[j as int] == name);
                            }
                            if more.contains(name) {
                                let m = more.index_of(name);
                                if m < j {
                                    assert(some[m] == name);
                                }
                            }
                        }
                        assert(told@.dom() =~= earlier.union(more.to_set()));
                    }
                    j = j + 1;
                }
                proof {
                    assert(names.take(j as int) =~= names);
                    assert(names.to_set() =~= audience_of(before.topology, user_id.id()));
                    assert(told@.dom() =~= lost_audience(st, users.take(i + 1)));
                }
            }
            i = i + 1;
        }
        proof {
            assert(users.take(i as int) =~= users);
            assert(all.take(i as int) =~= all);
            told.lemma_contents();
        }
        let ghost left = self@;
        let mut fanouts: Vec<MessageFanout> = Vec::new();
        let ghost departed_users = gone@;
        for user_id in it: gone
            invariant
                it.seq() == departed_users,
                self.wf(),
                self@ == left,
                fanouts@.len() == it.index(),
                forall|j: int|
                    0 <= j < it.index() ==> (#[trigger] fanouts@[j]).message == (
                    RoomEventMessage::UserDeparted { user_id: departed_users[j] })
                        && fanouts@[j].recipients@ == lanes_without(
                        left.users,
                        user_order(left.users),
                        None,
                    ),
        {
            let recipients = self.lanes_except(None);
            fanouts.push(
                MessageFanout { recipients, message: RoomEventMessage::UserDeparted { user_id } },
            );
        }
        let receivers = told.to_keys();
        proof {
            assert(user_identities(receivers@) =~= told.ids());
        }
        let track_snapshots = self.remote_track_snapshots_for_users(&receivers, true);
        DisconnectCommit {
            session_teardowns,
            router_releases,
            effects: LifecycleEffects { close_requests, track_snapshots, fanouts },
            transport_plan,
        }
    }
}

} // verus!
