//! Admission of users to a room.
//!
//! A join is placed on a worker by the delays that were sampled in the same turn, so
//! that every join sees the placements that were committed before it.

use vstd::prelude::*;

use crate::ids::{ConnectionId, MediaWorkerId, OutboundLane, RouterId, UserId};
use crate::membership::{join_effects, join_plan, joined, refused, RoomUserPermissions};
use crate::order::OrdKey;
use crate::placement::{
    choose_placement, chooses, room_worker_start, worker_total, PlacementSnapshot,
    RoomWorkerPolicy, RouterPlacement,
};
use crate::source_model::UserInfo;
use crate::state::{
    announces_presence, with_presence, JoinCommit, PresenceCommit, RoomJoinError, RoomState, State,
    UserJoinedFanout,
};
use crate::topology::RouterError;
use crate::transport::TransportSessionKey;

verus! {

/// A request to join a room. A user that is connected replaces its connection without
/// taking another place.
pub struct JoinUserRequest {
    pub user_id: UserId,
    /// Ignored by admission.
    pub label: Option<String>,
    /// Ignored by admission.
    pub permissions: RoomUserPermissions,
    pub sender: OutboundLane,
}

/// The worker at which a room starts to look for one.
pub open spec fn start_of(instance: u64, delays_ms: Seq<Option<u64>>) -> usize {
    (instance as int % worker_total(delays_ms) as int) as usize
}

/// The placement is the one that the delays ask for; a router that is added is one that
/// was allocated.
pub open spec fn places<A: FnOnce() -> RouterId>(
    allocate: A,
    snapshot: PlacementSnapshot,
    policy: RoomWorkerPolicy,
    delays_ms: Seq<Option<u64>>,
    instance: u64,
    placement: RouterPlacement,
) -> bool {
    chooses(allocate, snapshot, policy, delays_ms, start_of(instance, delays_ms), placement)
}

/// What the router's answer makes of an admission: the session is on the worker that the
/// router committed it to.
pub open spec fn admission_outcome(
    st: State,
    request: JoinUserRequest,
    joined_fanout: UserJoinedFanout,
    answer: Result<MediaWorkerId, RouterError>,
    after: State,
    r: Result<JoinCommit, RoomJoinError>,
) -> bool {
    match answer {
        Err(_) => r == Err::<JoinCommit, _>(RoomJoinError::RouterState) && after == st,
        Ok(worker) => {
            &&& r is Ok
            &&& after == joined(st, request.user_id.id(), request.sender, worker)
            &&& r->Ok_0.receipt.transport_session_key == (TransportSessionKey {
                room: st.topology.instance,
                worker,
                connection: ConnectionId(st.next_connection),
                user: request.user_id,
            })
            &&& join_effects(
                st,
                request.user_id,
                request.sender,
                worker,
                joined_fanout,
                r->Ok_0.effects,
            )
            &&& join_plan(st, request.user_id, r->Ok_0.transport_plan)
        },
    }
}

impl RoomState {
    /// Admits a user: chooses a placement from the sampled delays, has the router commit
    /// it and admits the user on the worker that the router answers.
    pub fn commit_admission<
        A: FnOnce() -> RouterId,
        P: FnOnce(&UserId, ConnectionId, RouterPlacement) -> Result<MediaWorkerId, RouterError>,
    >(
        &mut self,
        request: &JoinUserRequest,
        snapshot: &PlacementSnapshot,
        policy: RoomWorkerPolicy,
        delays_ms: &Vec<Option<u64>>,
        joined_fanout: UserJoinedFanout,
        allocate_spillover_router: A,
        place: P,
    ) -> (r: Result<JoinCommit, RoomJoinError>)
        requires
            old(self).wf(),
            old(self)@.next_connection < u64::MAX,
            allocate_spillover_router.requires(()),
            forall|placement: RouterPlacement|
                place.requires(
                    (&request.user_id, ConnectionId(old(self)@.next_connection), placement),
                ),
        ensures
            final(self).wf(),
            refused(old(self)@, request.user_id.id()) ==> r == Err::<JoinCommit, _>(
                RoomJoinError::RoomFull,
            ) && final(self)@ == old(self)@,
            !refused(old(self)@, request.user_id.id()) ==> exists|
                placement: RouterPlacement,
                answer: Result<MediaWorkerId, RouterError>,
            |
                #![trigger place.ensures(
                    (&request.user_id, ConnectionId(old(self)@.next_connection), placement),
                    answer,
                )]
                {
                    &&& place.ensures(
                        (&request.user_id, ConnectionId(old(self)@.next_connection), placement),
                        answer,
                    )
                    &&& places(
                        allocate_spillover_router,
                        *snapshot,
                        policy,
                        delays_ms@,
                        old(self)@.topology.instance.0,
                        placement,
                    )
                    &&& admission_outcome(
                        old(self)@,
                        *request,
                        joined_fanout,
                        answer,
                        final(self)@,
                        r,
                    )
                },
    {
        let instance = self.topology.instance();
        let start_worker: usize = room_worker_start(instance, delays_ms.len());
        let placement = choose_placement(
            snapshot,
            policy,
            delays_ms,
            start_worker,
            allocate_spillover_router,
        );
        let placing = move |user_id: &UserId, connection: ConnectionId| -> (answer: Result<
            MediaWorkerId,
            RouterError,
        >)
            requires
                place.requires((user_id, connection, placement)),
            ensures
                place.ensures((user_id, connection, placement), answer),
            { place(user_id, connection, placement) };
        self.apply_join(&request.user_id, request.sender, joined_fanout, placing)
    }

    /// Whether this exact connection is the user's current one.
    pub fn has_connection(&self, user_id: &UserId, connection_id: ConnectionId) -> (r: bool)
        requires
            self.wf(),
        ensures
            r == self@.current(user_id.id(), connection_id),
    {
        self.user_for_connection(user_id, connection_id).is_some()
    }

    /// What a client reports of itself. Camera and screen follow publications, whatever
    /// the client reports.
    pub fn update_user_info(
        &mut self,
        user_id: &UserId,
        connection_id: ConnectionId,
        info: UserInfo,
    ) -> (r: Option<PresenceCommit>)
        requires
            old(self).wf(),
        ensures
            final(self).wf(),
            final(self)@ == with_presence(
                old(self)@,
                user_id.id(),
                connection_id,
                info.self_reported(),
            ),
            match r {
                None => !old(self)@.current(user_id.id(), connection_id),
                Some(commit) => old(self)@.current(user_id.id(), connection_id)
                    && announces_presence(final(self)@, user_id.id(), commit.fanout),
            },
    {
        self.apply_presence_update(user_id, connection_id, info.without_publication_flags())
    }
}

} // verus!
