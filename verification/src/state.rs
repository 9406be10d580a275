//! Users of a room and the state that their commits change together.

use vstd::prelude::*;

use crate::ids::{same, ConnectionId, OutboundLane, RoomInstanceId, UserId, UserIdentity};
use crate::json::json_length;
use crate::key_index::{ids_of, in_order, lemma_in_order};
use crate::ord_map::{sorted, OrdMap};
use crate::order::OrdKey;
use crate::outbound::{
    BroadcastPayload, BroadcastPayloadError, MessageFanout, RemoteTrackProjection,
    RemoteTrackSnapshot, RoomEventMessage, UserCloseReason, VersionedRemoteTrackSnapshot,
};
use crate::route_graph::{receiver_keys, record, Graph};
use crate::source_model::{MediaCapabilities, Moment, UserInfo};
use crate::topology::{
    user_identities, CommittedTransportReceipt, RoomTopology, RouterRelease, Topology,
};
use crate::transport::{SubscriptionIdentity, TransportSessionKey, TransportTeardown};
use crate::transport_plan::RoomTransportPlan;

verus! {

/// Why a user was not admitted.
#[derive(Debug, Clone, Copy, PartialEq, Eq, Structural)]
pub enum RoomJoinError {
    RoomFull,
    RouterState,
}

impl RoomJoinError {
    pub open spec fn text(self) -> Seq<char> {
        match self {
            RoomJoinError::RoomFull => "room is full"@,
            RoomJoinError::RouterState => "router state error"@,
        }
    }

    pub fn message(self) -> (r: &'static str)
        ensures
            r@ == self.text(),
    {
        match self {
            RoomJoinError::RoomFull => "room is full",
            RoomJoinError::RouterState => "router state error",
        }
    }
}

/// A connected user.
#[derive(Debug)]
pub struct ActiveUser {
    pub connection_id: ConnectionId,
    pub sender: OutboundLane,
    /// What the client negotiated; nothing until it has.
    pub capabilities: Option<MediaCapabilities>,
    pub info: UserInfo,
    pub video_soft_pause_deadline: Option<Moment>,
}

impl ActiveUser {
    pub open spec fn deaf(&self) -> bool {
        self.info.is_deaf == Some(true)
    }

    pub fn is_deaf(&self) -> (r: bool)
        ensures
            r == self.deaf(),
    {
        match self.info.is_deaf {
            Some(deaf) => deaf,
            None => false,
        }
    }

    /// A user that has just connected.
    pub open spec fn fresh(connection_id: ConnectionId, sender: OutboundLane) -> Self {
        ActiveUser {
            connection_id,
            sender,
            capabilities: None,
            info: UserInfo::nothing(),
            video_soft_pause_deadline: None,
        }
    }
}

/// Connected users.
pub type Users = Map<UserIdentity, ActiveUser>;

/// A room state as mathematics.
#[verifier::ext_equal]
pub struct State {
    pub users: Users,
    pub topology: Topology,
    /// The next connection id.
    pub next_connection: u64,
    /// The next consumer id.
    pub next_consumer: u64,
    /// Revision of the last track snapshot.
    pub track_revision: u64,
    pub max_users: usize,
    pub max_video_downloads: usize,
}

impl State {
    /// The user is connected by this exact connection.
    pub open spec fn current(self, user: UserIdentity, connection: ConnectionId) -> bool {
        self.users.contains_key(user) && self.users[user].connection_id == connection
    }

    /// Every user's connection is placed.
    pub open spec fn placed(self) -> bool {
        forall|user: UserIdentity| #[trigger]
            self.users.contains_key(user) ==> self.topology.placements.contains_key(user)
                && self.topology.placements[user].connection == self.users[user].connection_id
    }
}

/// Whether joining users are announced.
#[derive(Debug, Clone, Copy, PartialEq, Eq, Structural)]
pub enum UserJoinedFanout {
    Emit,
    Suppress,
}

/// A connection to close.
#[derive(Debug, PartialEq, Eq)]
pub struct CloseRequest {
    pub sender: OutboundLane,
    pub reason: UserCloseReason,
}

/// Output that a change of members asks for.
#[derive(Debug)]
pub struct LifecycleEffects {
    pub close_requests: Vec<CloseRequest>,
    pub track_snapshots: Vec<(OutboundLane, VersionedRemoteTrackSnapshot)>,
    pub fanouts: Vec<MessageFanout>,
}

/// A committed join.
#[derive(Debug)]
pub struct JoinCommit {
    pub receipt: CommittedTransportReceipt,
    pub effects: LifecycleEffects,
    pub transport_plan: RoomTransportPlan,
}

/// A committed close of one connection.
#[derive(Debug)]
pub enum ConnectionCloseCommit {
    /// The connection was the user's current one.
    Current {
        session_teardown: TransportTeardown,
        router_release: RouterRelease,
        effects: LifecycleEffects,
        transport_plan: RoomTransportPlan,
    },
    /// A placement was left of a connection whose user is gone.
    StalePlacement { session_teardown: TransportTeardown, router_release: RouterRelease },
}

impl ConnectionCloseCommit {
    /// What the router has to give up.
    pub fn router_release(&self) -> (r: &RouterRelease)
        ensures
            *r == match *self {
                ConnectionCloseCommit::Current { router_release, .. } => router_release,
                ConnectionCloseCommit::StalePlacement { router_release, .. } => router_release,
            },
    {
        match self {
            ConnectionCloseCommit::Current { router_release, .. } => router_release,
            ConnectionCloseCommit::StalePlacement { router_release, .. } => router_release,
        }
    }
}

/// A committed presence update.
#[derive(Debug)]
pub struct PresenceCommit {
    pub fanout: MessageFanout,
}

/// State of a room.
pub struct RoomState {
    pub users: OrdMap<UserId, ActiveUser>,
    pub topology: RoomTopology,
    pub next_connection_id: u64,
    pub next_consumer_id: u64,
    pub track_revision: u64,
    pub max_users: usize,
    pub max_video_downloads: usize,
}

impl RoomState {
    pub open spec fn view(&self) -> State {
        State {
            users: self.users@,
            topology: self.topology@,
            next_connection: self.next_connection_id,
            next_consumer: self.next_consumer_id,
            track_revision: self.track_revision,
            max_users: self.max_users,
            max_video_downloads: self.max_video_downloads,
        }
    }

    pub open spec fn wf(&self) -> bool {
        &&& self.users.wf()
        &&& self.topology.wf()
        &&& self@.placed()
    }

    pub fn new(instance: RoomInstanceId, max_users: usize, max_video_downloads: usize) -> (r: Self)
        ensures
            r.wf(),
            r@.users == Map::<UserIdentity, ActiveUser>::empty(),
            r@.topology == (Topology {
                instance,
                sources: Map::empty(),
                graph: Graph {
                    subscriptions: Map::empty(),
                    relays: Map::empty(),
                    reservations: 0,
                },
                placements: Map::empty(),
                next_source: 1,
                next_encoding: 1,
                next_producer: 1,
                revision: 0,
            }),
            r@.next_connection == 0,
            r@.next_consumer == 1,
            r@.track_revision == 0,
            r@.max_users == max_users,
            r@.max_video_downloads == max_video_downloads,
    {
        RoomState {
            users: OrdMap::new(),
            topology: RoomTopology::new(instance),
            next_connection_id: 0,
            next_consumer_id: 1,
            track_revision: 0,
            max_users,
            max_video_downloads,
        }
    }

    /// The user, while this exact connection is current.
    pub fn user_for_connection(&self, user_id: &UserId, connection_id: ConnectionId) -> (r: Option<
        &ActiveUser,
    >)
        requires
            self.wf(),
        ensures
            match r {
                Some(user) => self@.current(user_id.id(), connection_id) && *user
                    == self@.users[user_id.id()],
                None => !self@.current(user_id.id(), connection_id),
            },
    {
        match self.users.get(user_id) {
            Some(user) => if user.connection_id == connection_id {
                Some(user)
            } else {
                None
            },
            None => None,
        }
    }

    pub fn user_connection_id(&self, user_id: &UserId) -> (r: Option<ConnectionId>)
        requires
            self.wf(),
        ensures
            r == if self@.users.contains_key(user_id.id()) {
                Some(self@.users[user_id.id()].connection_id)
            } else {
                None
            },
    {
        match self.users.get(user_id) {
            Some(user) => Some(user.connection_id),
            None => None,
        }
    }

    pub fn user_info(&self, user_id: &UserId) -> (r: Option<UserInfo>)
        requires
            self.wf(),
        ensures
            r == if self@.users.contains_key(user_id.id()) {
                Some(self@.users[user_id.id()].info)
            } else {
                None
            },
    {
        match self.users.get(user_id) {
            Some(user) => Some(user.info),
            None => None,
        }
    }

    pub fn user_count(&self) -> (r: usize)
        requires
            self.wf(),
        ensures
            r == user_order(self@.users).len(),
    {
        proof {
            self.users.lemma_contents();
        }
        self.users.len()
    }

    pub fn is_empty(&self) -> (r: bool)
        requires
            self.wf(),
        ensures
            r == (self@.users == Map::<UserIdentity, ActiveUser>::empty()),
    {
        proof {
            self.users.lemma_contents();
            if self.users.ids().len() == 0 {
                assert(self@.users =~= Map::<UserIdentity, ActiveUser>::empty());
            } else {
                assert(self@.users.contains_key(self.users.ids()[0]));
            }
        }
        self.users.len() == 0
    }

    /// The transport session of a current connection.
    pub fn transport_user_key(&self, user_id: &UserId, connection_id: ConnectionId) -> (r:
        TransportSessionKey)
        requires
            self.wf(),
            self@.topology.worker_of(user_id.id(), connection_id) is Some,
        ensures
            self@.topology.session(*user_id, connection_id) == Some(r),
    {
        self.topology.transport_user_key(user_id, connection_id)
    }

    /// Users and their connections, in order.
    pub fn transport_user_entries(&self) -> (r: Vec<(UserId, ConnectionId)>)
        requires
            self.wf(),
        ensures
            lists_users(self@.users, r@),
    {
        let mut r: Vec<(UserId, ConnectionId)> = Vec::new();
        let mut i: usize = 0;
        let count: usize = self.users.len();
        let ghost ids = self.users.ids();
        proof {
            self.users.lemma_contents();
        }
        while i < count
            invariant
                self.wf(),
                ids == self.users.ids(),
                count == ids.len(),
                i <= count,
                r@.len() == i,
                forall|j: int|
                    0 <= j < i ==> (#[trigger] r@[j]).0.id() == ids[j] && r@[j].1
                        == self@.users[ids[j]].connection_id,
            decreases count - i,
        {
            r.push((self.users.key(i).clone(), self.users.value(i).connection_id));
            i = i + 1;
        }
        r
    }

    /// Output lanes of all users but one, in user order.
    pub fn lanes_except(&self, excluded: Option<&UserId>) -> (r: Vec<OutboundLane>)
        requires
            self.wf(),
        ensures
            r@ == lanes_without(
                self@.users,
                user_order(self@.users),
                match excluded {
                    Some(user) => Some(user.id()),
                    None => None,
                },
            ),
    {
        let mut r: Vec<OutboundLane> = Vec::new();
        let mut i: usize = 0;
        let count: usize = self.users.len();
        let ghost ids = self.users.ids();
        let ghost skipped = match excluded {
            Some(user) => Some(user.id()),
            None => None,
        };
        proof {
            self.users.lemma_contents();
            assert(ids.take(0) =~= Seq::<UserIdentity>::empty());
        }
        while i < count
            invariant
                self.wf(),
                ids == self.users.ids(),
                count == ids.len(),
                i <= count,
                skipped == match excluded {
                    Some(user) => Some(user.id()),
                    None => None,
                },
                r@ == lanes_without(self@.users, ids.take(i as int), skipped),
            decreases count - i,
        {
            proof {
                assert(ids.take(i + 1).drop_last() =~= ids.take(i as int));
                assert(ids.take(i + 1).last() == ids[i as int]);
            }
            let skip = match excluded {
                Some(user) => same(self.users.key(i), user),
                None => false,
            };
            let sender = self.users.value(i).sender;
            if !skip {
                r.push(sender);
            }
            i = i + 1;
        }
        proof {
            assert(ids.take(count as int) =~= ids);
        }
        r
    }

    /// Records what a client negotiated. Returns whether it is the first
    /// negotiation of the connection, or nothing for one that is not current.
    pub fn set_user_negotiated(
        &mut self,
        user_id: &UserId,
        connection_id: ConnectionId,
        capabilities: MediaCapabilities,
    ) -> (r: Option<bool>)
        requires
            old(self).wf(),
        ensures
            final(self).wf(),
            if old(self)@.current(user_id.id(), connection_id) {
                let user = old(self)@.users[user_id.id()];
                &&& r == Some(user.capabilities is None)
                &&& final(self)@ == (State {
                    users: old(self)@.users.insert(
                        user_id.id(),
                        ActiveUser { capabilities: Some(capabilities), ..user },
                    ),
                    ..old(self)@
                })
            } else {
                r is None && final(self)@ == old(self)@
            },
    {
        if self.user_for_connection(user_id, connection_id).is_none() {
            return None;
        }
        match self.users.get_mut(user_id) {
            None => None,
            Some(user) => {
                let first = user.capabilities.is_none();
                user.capabilities = Some(capabilities);
                Some(first)
            },
        }
    }

    /// Merges presence of a current connection and announces what is known now.
    pub fn apply_presence_update(
        &mut self,
        user_id: &UserId,
        connection_id: ConnectionId,
        info: UserInfo,
    ) -> (r: Option<PresenceCommit>)
        requires
            old(self).wf(),
        ensures
            final(self).wf(),
            final(self)@ == with_presence(old(self)@, user_id.id(), connection_id, info),
            match r {
                None => !old(self)@.current(user_id.id(), connection_id),
                Some(commit) => {
                    &&& old(self)@.current(user_id.id(), connection_id)
                    &&& announces_presence(final(self)@, user_id.id(), commit.fanout)
                },
            },
    {
        if self.user_for_connection(user_id, connection_id).is_none() {
            return None;
        }
        let mut known = info;
        match self.users.get_mut(user_id) {
            None => {},
            Some(user) => {
                user.info = user.info.merge(info);
                known = user.info;
            },
        }
        let mut snapshot: OrdMap<UserId, UserInfo> = OrdMap::new();
        snapshot.insert(user_id.clone(), known);
        let recipients = self.lanes_except(None);
        Some(
            PresenceCommit {
                fanout: MessageFanout {
                    recipients,
                    message: RoomEventMessage::UserInfoChanged(snapshot),
                },
            },
        )
    }

    /// A broadcast of a measured document to everyone but its sender. One whose
    /// sender is not current is ignored; a document that does not fit is refused.
    pub fn broadcast_payload(
        &self,
        sender_id: &UserId,
        connection_id: ConnectionId,
        payload: Result<BroadcastPayload, BroadcastPayloadError>,
    ) -> (r: Result<Option<MessageFanout>, BroadcastPayloadError>)
        requires
            self.wf(),
        ensures
            broadcasts(self@, *sender_id, connection_id, payload, r),
    {
        if self.user_for_connection(sender_id, connection_id).is_none() {
            return Ok(None);
        }
        match payload {
            Err(error) => Err(error),
            Ok(message) => {
                let recipients = self.lanes_except(Some(sender_id));
                Ok(
                    Some(
                        MessageFanout {
                            recipients,
                            message: RoomEventMessage::Broadcast {
                                sender_id: sender_id.clone(),
                                message,
                            },
                        },
                    ),
                )
            },
        }
    }

    /// A broadcast to everyone but its sender. One whose sender is not current is
    /// ignored; a document that does not fit is refused.
    pub fn broadcast_fanout(
        &self,
        sender_id: &UserId,
        connection_id: ConnectionId,
        message: serde_json::Value,
    ) -> (r: Result<Option<MessageFanout>, BroadcastPayloadError>)
        requires
            self.wf(),
        ensures
            exists|payload: Result<BroadcastPayload, BroadcastPayloadError>| #[trigger]
                BroadcastPayload::admits(
                    message,
                    json_length(message),
                    payload,
                ) && broadcasts(self@, *sender_id, connection_id, payload, r),
    {
        let payload = BroadcastPayload::try_new(message);
        self.broadcast_payload(sender_id, connection_id, payload)
    }

    /// All tracks of a receiver, as the next snapshot.
    pub fn remote_track_snapshot_for_user(
        &mut self,
        user_id: &UserId,
        requires_negotiation: bool,
    ) -> (r: VersionedRemoteTrackSnapshot)
        requires
            old(self).wf(),
        ensures
            final(self).wf(),
            final(self)@ == with_track_revisions(old(self)@, 1),
            is_snapshot(
                r,
                old(self)@.topology,
                user_id.id(),
                requires_negotiation,
                final(self)@.track_revision,
            ),
    {
        let keys = self.topology.receiver_subscriptions(user_id);
        let ghost ids = ids_of(keys@);
        let ghost t = self@.topology;
        let mut tracks: Vec<RemoteTrackProjection> = Vec::new();
        let mut i: usize = 0;
        proof {
            lemma_in_order(ids, receiver_keys(t.graph.subscriptions, user_id.id()));
            assert(ids.take(0) =~= Seq::<SubscriptionIdentity>::empty());
        }
        while i < keys.len()
            invariant
                self.wf(),
                t == self@.topology,
                i <= keys@.len(),
                ids == ids_of(keys@),
                tracks@ == tracks_of(t, ids.take(i as int)),
            decreases keys@.len() - i,
        {
            proof {
                assert(ids.take(i + 1).drop_last() =~= ids.take(i as int));
                assert(ids.take(i + 1).last() == ids[i as int]);
            }
            match self.topology.committed_consumer_route_for_key(&keys[i]) {
                None => {
                    proof {
                        assert(tracks@ =~= tracks@ + Seq::<RemoteTrackProjection>::empty());
                    }
                },
                Some(view) => {
                    let ghost before = tracks@;
                    tracks.push(
                        RemoteTrackProjection {
                            consumer_mid: view.mid.clone(),
                            user_id: view.source.descriptor.owner.clone(),
                            stream_id: view.source.descriptor.stream_id.clone(),
                            producer_active: view.source.active,
                        },
                    );
                    proof {
                        assert(tracks@ =~= before + track_of(t, ids[i as int]));
                    }
                },
            }
            i = i + 1;
        }
        proof {
            assert(ids.take(i as int) =~= ids);
        }
        self.track_revision = self.track_revision.saturating_add(1);
        VersionedRemoteTrackSnapshot {
            snapshot: RemoteTrackSnapshot { tracks, requires_negotiation },
            revision: self.track_revision,
        }
    }

    /// Track snapshots for those of the listed users that are connected.
    pub fn remote_track_snapshots_for_users(
        &mut self,
        users: &Vec<UserId>,
        requires_negotiation: bool,
    ) -> (r: Vec<(OutboundLane, VersionedRemoteTrackSnapshot)>)
        requires
            old(self).wf(),
        ensures
            final(self).wf(),
            final(self)@ == with_track_revisions(
                old(self)@,
                connected(old(self)@.users, user_identities(users@)).len(),
            ),
            are_snapshots(
                r@,
                old(self)@,
                connected(old(self)@.users, user_identities(users@)),
                requires_negotiation,
            ),
    {
        let ghost start = self@;
        let ghost ids = user_identities(users@);
        let mut r: Vec<(OutboundLane, VersionedRemoteTrackSnapshot)> = Vec::new();
        let mut i: usize = 0;
        proof {
            assert(ids.take(0) =~= Seq::<UserIdentity>::empty());
        }
        while i < users.len()
            invariant
                i <= users@.len(),
                ids == user_identities(users@),
                self.wf(),
                self@ == with_track_revisions(
                    start,
                    connected(start.users, ids.take(i as int)).len(),
                ),
                are_snapshots(
                    r@,
                    start,
                    connected(start.users, ids.take(i as int)),
                    requires_negotiation,
                ),
            decreases users@.len() - i,
        {
            let ghost before = connected(start.users, ids.take(i as int));
            proof {
                assert(ids.take(i + 1).drop_last() =~= ids.take(i as int));
                assert(ids.take(i + 1).last() == ids[i as int]);
            }
            let lane = match self.users.get(&users[i]) {
                Some(user) => Some(user.sender),
                None => None,
            };
            match lane {
                None => {},
                Some(lane) => {
                    let ghost earlier = r@;
                    let snapshot = self.remote_track_snapshot_for_user(
                        &users[i],
                        requires_negotiation,
                    );
                    r.push((lane, snapshot));
                    proof {
                        let more = before.push(ids[i as int]);
                        lemma_revisions(start.track_revision, before.len(), 1);
                        assert forall|j: int| 0 <= j < more.len() implies #[trigger] is_sent(
                            r@[j],
                            start,
                            more[j],
                            requires_negotiation,
                            j,
                        ) by {
                            if j < before.len() {
                                assert(is_sent(
                                    earlier[j],
                                    start,
                                    before[j],
                                    requires_negotiation,
                                    j,
                                ));
                            }
                        }
                    }
                },
            }
            i = i + 1;
        }
        proof {
            assert(ids.take(i as int) =~= ids);
        }
        r
    }
}

/// The same room around another topology.
pub open spec fn in_topology(st: State, topology: Topology) -> State {
    State { topology, ..st }
}

/// Connected users, in order.
pub open spec fn user_order(users: Users) -> Seq<UserIdentity> {
    sorted::<UserId>(users.dom())
}

/// All users and their connections, in order.
pub open spec fn lists_users(users: Users, entries: Seq<(UserId, ConnectionId)>) -> bool {
    let order = user_order(users);
    &&& entries.len() == order.len()
    &&& forall|j: int|
        0 <= j < entries.len() ==> (#[trigger] entries[j]).0.id() == order[j] && entries[j].1
            == users[order[j]].connection_id
}

/// Output lanes of the listed users but one.
pub open spec fn lanes_without(
    users: Users,
    order: Seq<UserIdentity>,
    excluded: Option<UserIdentity>,
) -> Seq<OutboundLane>
    decreases order.len(),
{
    if order.len() == 0 {
        seq![]
    } else {
        let before = lanes_without(users, order.drop_last(), excluded);
        if excluded == Some(order.last()) {
            before
        } else {
            before.push(users[order.last()].sender)
        }
    }
}

/// What a broadcast of a measured document comes to.
pub open spec fn broadcasts(
    st: State,
    sender: UserId,
    connection: ConnectionId,
    payload: Result<BroadcastPayload, BroadcastPayloadError>,
    r: Result<Option<MessageFanout>, BroadcastPayloadError>,
) -> bool {
    if !st.current(sender.id(), connection) {
        r == Ok::<Option<MessageFanout>, BroadcastPayloadError>(None)
    } else {
        match payload {
            Err(error) => r == Err::<Option<MessageFanout>, _>(error),
            Ok(message) => {
                &&& r matches Ok(Some(fanout))
                &&& fanout.message == (RoomEventMessage::Broadcast { sender_id: sender, message })
                &&& fanout.recipients@ == lanes_without(
                    st.users,
                    user_order(st.users),
                    Some(sender.id()),
                )
            },
        }
    }
}

/// The state after a presence update.
pub open spec fn with_presence(
    st: State,
    user: UserIdentity,
    connection: ConnectionId,
    info: UserInfo,
) -> State {
    if st.current(user, connection) {
        State {
            users: st.users.insert(
                user,
                ActiveUser { info: st.users[user].info.merged(info), ..st.users[user] },
            ),
            ..st
        }
    } else {
        st
    }
}

/// The fanout tells everyone the presence of one user.
pub open spec fn announces_presence(st: State, user: UserIdentity, fanout: MessageFanout) -> bool {
    &&& fanout.recipients@ == lanes_without(st.users, user_order(st.users), None)
    &&& fanout.message matches RoomEventMessage::UserInfoChanged(snapshot) && snapshot.wf()
        && snapshot@ == Map::<UserIdentity, UserInfo>::empty().insert(user, st.users[user].info)
}

/// The track that a subscription shows, if its route is committed.
pub open spec fn track_of(t: Topology, k: SubscriptionIdentity) -> Seq<RemoteTrackProjection> {
    let s = record(t.graph.subscriptions, k);
    if s.routed() {
        let source = t.sources[s.current->0.source_id.0];
        seq![
            RemoteTrackProjection {
                consumer_mid: s.current->0.realization->Committed_0.mid,
                user_id: source.descriptor.owner,
                stream_id: source.descriptor.stream_id,
                producer_active: source.active,
            },
        ]
    } else {
        seq![]
    }
}

pub open spec fn tracks_of(t: Topology, keys: Seq<SubscriptionIdentity>) -> Seq<
    RemoteTrackProjection,
>
    decreases keys.len(),
{
    if keys.len() == 0 {
        seq![]
    } else {
        tracks_of(t, keys.drop_last()) + track_of(t, keys.last())
    }
}

/// All tracks of a receiver, in subscription order.
pub open spec fn receiver_tracks(t: Topology, user: UserIdentity) -> Seq<RemoteTrackProjection> {
    tracks_of(t, in_order(receiver_keys(t.graph.subscriptions, user)))
}

/// A snapshot of the tracks of a receiver.
pub open spec fn is_snapshot(
    snapshot: VersionedRemoteTrackSnapshot,
    t: Topology,
    user: UserIdentity,
    requires_negotiation: bool,
    revision: u64,
) -> bool {
    &&& snapshot.snapshot.tracks@ == receiver_tracks(t, user)
    &&& snapshot.snapshot.requires_negotiation == requires_negotiation
    &&& snapshot.revision == revision
}

/// A track revision after `n` snapshots; the last one is its own successor.
pub open spec fn later_revision(revision: u64, n: nat) -> u64 {
    if revision + n <= u64::MAX {
        (revision + n) as u64
    } else {
        u64::MAX
    }
}

proof fn lemma_revisions(revision: u64, m: nat, n: nat)
    ensures
        later_revision(later_revision(revision, m), n) == later_revision(revision, m + n),
{
}

pub open spec fn with_track_revisions(st: State, n: nat) -> State {
    State { track_revision: later_revision(st.track_revision, n), ..st }
}

/// Those of the users that are connected.
pub open spec fn connected(users: Users, ids: Seq<UserIdentity>) -> Seq<UserIdentity>
    decreases ids.len(),
{
    if ids.len() == 0 {
        seq![]
    } else {
        let before = connected(users, ids.drop_last());
        if users.contains_key(ids.last()) {
            before.push(ids.last())
        } else {
            before
        }
    }
}

/// The snapshot that is sent to a user as number `j`.
pub open spec fn is_sent(
    sent: (OutboundLane, VersionedRemoteTrackSnapshot),
    st: State,
    user: UserIdentity,
    requires_negotiation: bool,
    j: int,
) -> bool {
    &&& sent.0 == st.users[user].sender
    &&& is_snapshot(
        sent.1,
        st.topology,
        user,
        requires_negotiation,
        later_revision(st.track_revision, (j + 1) as nat),
    )
}

/// One snapshot for each of the users, in their order.
pub open spec fn are_snapshots(
    sent: Seq<(OutboundLane, VersionedRemoteTrackSnapshot)>,
    st: State,
    users: Seq<UserIdentity>,
    requires_negotiation: bool,
) -> bool {
    &&& sent.len() == users.len()
    &&& forall|j: int|
        0 <= j < users.len() ==> #[trigger] is_sent(
            sent[j],
            st,
            users[j],
            requires_negotiation,
            j,
        )
}

} // verus!
