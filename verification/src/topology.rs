//! Publications, subscriptions and session placements of a room.
//!
//! Source records and route realizations stand beside the placements that the
//! router committed, so that transport work resolves from the same placement.
//! Operations that face the transport return resolved work.

use vstd::prelude::*;

use crate::consumer_setup::{
    CommittedConsumerSetup, ConsumerRouteTarget, ConsumerRouteView, ConsumerSetupTarget,
    DeclaredConsumerSetup, PendingConsumerSetup,
};
use crate::ids::{
    same, ConnectionId, ConsumerId, MediaWorkerId, OutboundLane, ProducerId, PublishedSourceId,
    RoomInstanceId, RoutedConsumerId, RoutedProducerId, TransportMediaId, UserId, UserIdentity,
    UserStreamId,
};
use crate::key_index::{ids_of, in_order, lists};
use crate::ord_map::{enumerates, sorted, OrdMap};
use crate::order::OrdKey;
use crate::producer::{allocate_source_descriptor, describes_publication, ValidatedPublish};
use crate::relay::relayed_to;
use crate::route_graph::{
    activity_applies, activity_effects, after_activity, after_attach, after_commit, after_release,
    after_reserve, after_selection, after_upgrade, attached_keys, attached_to, attachment, attaches,
    consumers_of, declined_keys, detached, forgotten, intent_merged, live, realizing_keys,
    receiver_keys, record, relay_share, relays_without, release_effects, released_shares, reset,
    routed_keys, routes, routes_of, unrealized, upgrades_cleared, waits_for_setup,
    ConsumerRealization, CurrentPublication, Graph, PendingUpgrade, RemovedRoutes, RouteGraph,
    Subscriptions,
};
use crate::source_model::{
    ActiveSpeakerSourceRole, ConsumerSourceSelection, MediaKind, PolicyPauseReason,
    PublishedSourceDescriptor, RtpStream, SessionUploadEncoding, SourceSubscriptionIntent,
};
use crate::sources::{
    first_with_media, owned_ids, promotable, published_as, publishes, raw_ids, source_order,
    sources_agree, unpublished, PublishedSource, PublishedSources, Sources,
};
use crate::transport::{
    ConsumerActivity, OwnerStream, SourceActivityRevision, SourceActivityUpdate,
    SubscriptionIdentity, SubscriptionKey, TransportConsumerRoute, TransportRelayRouteEffect,
    TransportSessionKey, TransportSourceActivityEffect, TransportSourceKey, TransportTeardown,
};
use crate::transport_plan::{
    kept_relays, relay_teardown, ReceiverRouteActivity, RoomTransportPlan,
};

verus! {

/// Why the router refused an operation.
#[derive(Debug, PartialEq, Eq)]
pub struct RouterError(pub String);

/// Why a descriptor is not valid.
#[derive(Debug, PartialEq, Eq)]
pub struct SourceModelError(pub String);

/// The connection of a user and the worker that hosts it.
#[derive(Debug, Clone, Copy, PartialEq, Eq, Structural)]
pub struct SessionPlacement {
    pub connection: ConnectionId,
    pub worker: MediaWorkerId,
}

/// Placements that the router committed, by user.
pub type Placements = Map<UserIdentity, SessionPlacement>;

/// A topology as mathematics.
#[verifier::ext_equal]
pub struct Topology {
    pub instance: RoomInstanceId,
    pub sources: Sources,
    pub graph: Graph,
    pub placements: Placements,
    /// The next publication id.
    pub next_source: u64,
    /// The next encoding id.
    pub next_encoding: u64,
    /// The next producer id.
    pub next_producer: u64,
    /// Version of what video allocation depends on.
    pub revision: u64,
}

/// A publication belongs to the user whose session carries it.
pub open spec fn sources_owned(sources: Sources) -> bool {
    forall|id: u64| #[trigger]
        sources.contains_key(id) ==> sources[id].descriptor.owner.id()
            == sources[id].transport.session.user.id()
}

/// What is attached to a subscription is the publication of its stream, and not one
/// of the receiver's own.
pub open spec fn attachments_agree(subs: Subscriptions, sources: Sources) -> bool {
    forall|k: SubscriptionIdentity|
        (#[trigger] attachment(subs, k)) matches Some(current) ==> {
            &&& publishes(
                sources,
                current.source_id.0,
                OwnerStream { owner: k.publisher, stream: k.stream },
            )
            &&& k.receiver != k.publisher
        }
}

impl Topology {
    pub open spec fn consistent(self) -> bool {
        &&& self.graph.consistent()
        &&& sources_agree(self.sources)
        &&& sources_owned(self.sources)
        &&& attachments_agree(self.graph.subscriptions, self.sources)
        &&& forall|id: u64| #[trigger] self.sources.contains_key(id) ==> id < self.next_source
    }

    /// The worker of the exact connection of a user.
    pub open spec fn worker_of(self, user: UserIdentity, connection: ConnectionId) -> Option<
        MediaWorkerId,
    > {
        if self.placements.contains_key(user) && self.placements[user].connection == connection {
            Some(self.placements[user].worker)
        } else {
            None
        }
    }

    /// The transport session of the exact connection of a user.
    pub open spec fn session(self, user: UserId, connection: ConnectionId) -> Option<
        TransportSessionKey,
    > {
        match self.worker_of(user.id(), connection) {
            Some(worker) => Some(
                TransportSessionKey { room: self.instance, worker, connection, user },
            ),
            None => None,
        }
    }

    /// The same topology with its allocation revision advanced `n` times.
    pub open spec fn advanced(self, n: nat) -> Self {
        Topology { revision: advance(self.revision, n), ..self }
    }
}

/// A revision after `n` changes; after the largest one comes zero.
pub open spec fn advance(revision: u64, n: nat) -> u64
    decreases n,
{
    if n == 0 {
        revision
    } else {
        let before = advance(revision, (n - 1) as nat);
        if before == u64::MAX {
            0
        } else {
            (before + 1) as u64
        }
    }
}

/// Acknowledges that a session placement was committed.
#[derive(Debug, PartialEq, Eq)]
pub struct CommittedTransportReceipt {
    pub transport_session_key: TransportSessionKey,
}

impl Clone for CommittedTransportReceipt {
    fn clone(&self) -> (r: Self)
        ensures
            r == *self,
    {
        CommittedTransportReceipt { transport_session_key: self.transport_session_key.clone() }
    }
}

/// A committed placement, and the cleanup of the session it displaced.
#[derive(Debug)]
pub struct SessionPlacementCommit {
    pub receipt: CommittedTransportReceipt,
    pub replacement_transport_plan: RoomTransportPlan,
}

/// Why a placement was not committed.
#[derive(Debug, PartialEq, Eq)]
pub enum SessionPlacementRejection {
    MissingPreviousSession { previous_connection: ConnectionId },
    Router(RouterError),
}

/// Why a publication was not committed.
#[derive(Debug, PartialEq, Eq)]
pub enum PublicationCommitError {
    Source(SourceModelError),
    Router(RouterError),
}

/// Publications and subscriptions with a setup or a route.
#[derive(Debug, Clone, Copy, PartialEq, Eq, Structural)]
pub struct RoomMediaCounts {
    pub publications: usize,
    pub subscriptions: usize,
}

/// Teardown of published media, then of consumer media.
pub open spec fn media_removals(
    sources: Seq<TransportSourceKey>,
    routes: Seq<TransportConsumerRoute>,
) -> Seq<TransportTeardown> {
    sources.map_values(
        |source: TransportSourceKey|
            TransportTeardown::RemoveMedia {
                session_key: source.session,
                transport_media_id: source.media,
            },
    ) + routes.map_values(
        |route: TransportConsumerRoute|
            TransportTeardown::RemoveMedia {
                session_key: route.consumer_session,
                transport_media_id: route.consumer_media,
            },
    )
}

fn media_teardowns(sources: Vec<TransportSourceKey>, routes: Vec<TransportConsumerRoute>) -> (r:
    Vec<TransportTeardown>)
    ensures
        r@ == media_removals(sources@, routes@),
{
    let mut r: Vec<TransportTeardown> = Vec::new();
    let ghost published = sources@;
    for source in it: sources
        invariant
            it.seq() == published,
            r@ == media_removals(published.take(it.index() as int), seq![]),
    {
        let TransportSourceKey { session, media } = source;
        r.push(TransportTeardown::RemoveMedia { session_key: session, transport_media_id: media });
        proof {
            let done = it.index() as int;
            assert(r@ =~= media_removals(published.take(done + 1), seq![]));
        }
    }
    proof {
        assert(published.take(published.len() as int) =~= published);
    }
    let ghost consumed = routes@;
    for route in it: routes
        invariant
            it.seq() == consumed,
            r@ == media_removals(published, consumed.take(it.index() as int)),
    {
        let TransportConsumerRoute { consumer_session, consumer_media, .. } = route;
        r.push(
            TransportTeardown::RemoveMedia {
                session_key: consumer_session,
                transport_media_id: consumer_media,
            },
        );
        proof {
            let done = it.index() as int;
            assert(r@ =~= media_removals(published, consumed.take(done + 1)));
        }
    }
    proof {
        assert(consumed.take(consumed.len() as int) =~= consumed);
    }
    r
}

/// A graph without one publication.
pub open spec fn without_source(g: Graph, id: u64) -> Graph {
    let keys = attached_keys(g.subscriptions, PublishedSourceId(id));
    Graph {
        subscriptions: detached(g.subscriptions, keys),
        relays: relays_without(g, in_order(keys)),
        ..g
    }
}

/// A graph without these publications, taken out one after the other.
pub open spec fn without_sources(g: Graph, ids: Seq<u64>) -> Graph
    decreases ids.len(),
{
    if ids.len() == 0 {
        g
    } else {
        without_source(without_sources(g, ids.drop_last()), ids.last())
    }
}

/// Subscriptions that lose their publication when `id` is taken out.
pub open spec fn losing(g: Graph, id: u64) -> Seq<SubscriptionIdentity> {
    in_order(attached_keys(g.subscriptions, PublishedSourceId(id)))
}

pub open spec fn lost_routes(g: Graph, ids: Seq<u64>) -> Seq<TransportConsumerRoute>
    decreases ids.len(),
{
    if ids.len() == 0 {
        seq![]
    } else {
        let before = without_sources(g, ids.drop_last());
        lost_routes(g, ids.drop_last()) + routes_of(
            before.subscriptions,
            losing(before, ids.last()),
        )
    }
}

pub open spec fn lost_consumers(g: Graph, ids: Seq<u64>) -> Seq<RoutedConsumerId>
    decreases ids.len(),
{
    if ids.len() == 0 {
        seq![]
    } else {
        let before = without_sources(g, ids.drop_last());
        lost_consumers(g, ids.drop_last()) + consumers_of(
            before.subscriptions,
            losing(before, ids.last()),
        )
    }
}

pub open spec fn lost_relays(g: Graph, ids: Seq<u64>) -> Seq<TransportRelayRouteEffect>
    decreases ids.len(),
{
    if ids.len() == 0 {
        seq![]
    } else {
        let before = without_sources(g, ids.drop_last());
        lost_relays(g, ids.drop_last()) + released_shares(before, losing(before, ids.last()))
    }
}

/// What taking out these publications removed.
pub open spec fn loses(removed: RemovedRoutes, g: Graph, ids: Seq<u64>) -> bool {
    &&& removed.routes@ == lost_routes(g, ids)
    &&& removed.consumers@ == lost_consumers(g, ids)
    &&& removed.relays@ == lost_relays(g, ids)
}

/// Publications without these ids.
pub open spec fn sources_without(sources: Sources, ids: Set<u64>) -> Sources {
    Map::new(
        |id: u64| sources.contains_key(id) && !ids.contains(id),
        |id: u64| sources[id],
    )
}

/// Publications of a user, in order.
pub open spec fn owned_order(sources: Sources, user: UserIdentity) -> Seq<u64> {
    sorted::<PublishedSourceId>(owned_ids(sources, user))
}

pub open spec fn transports_of(sources: Sources, ids: Seq<u64>) -> Seq<TransportSourceKey> {
    ids.map_values(|id: u64| sources[id].transport)
}

/// The topology once all publications of a user are gone.
pub open spec fn without_publisher(t: Topology, user: UserIdentity) -> Topology {
    let ids = owned_order(t.sources, user);
    Topology {
        sources: sources_without(t.sources, owned_ids(t.sources, user)),
        graph: without_sources(t.graph, ids),
        ..t
    }.advanced(ids.len())
}

/// The graph once a receiver is forgotten.
pub open spec fn without_receiver(g: Graph, user: UserIdentity) -> Graph {
    let keys = receiver_keys(g.subscriptions, user);
    Graph {
        subscriptions: forgotten(g.subscriptions, keys),
        relays: relays_without(g, in_order(keys)),
        ..g
    }
}

/// The graph once a receiver was replaced.
pub open spec fn with_replaced_receiver(g: Graph, user: UserIdentity) -> Graph {
    let keys = receiver_keys(g.subscriptions, user);
    Graph {
        subscriptions: reset(g.subscriptions, keys),
        relays: relays_without(g, in_order(keys)),
        ..g
    }
}

/// The topology once a new connection took the place of an old one.
pub open spec fn with_replaced_session(t: Topology, user: UserIdentity) -> Topology {
    let gone = without_publisher(t, user);
    Topology { graph: with_replaced_receiver(gone.graph, user), ..gone }.advanced(1)
}

/// The topology once a user is gone.
pub open spec fn without_user(t: Topology, user: UserIdentity) -> Topology {
    let gone = without_publisher(t, user);
    Topology {
        graph: without_receiver(gone.graph, user),
        placements: gone.placements.remove(user),
        ..gone
    }.advanced(1)
}

/// Relay work of ending the sessions of a user.
pub open spec fn departure_relays(t: Topology, user: UserIdentity) -> Seq<
    TransportRelayRouteEffect,
> {
    let ids = owned_order(t.sources, user);
    let gone = without_sources(t.graph, ids);
    lost_relays(t.graph, ids) + released_shares(
        gone,
        in_order(receiver_keys(gone.subscriptions, user)),
    )
}

/// Teardown of forgetting a user: relays, its publications, then the routes of and to
/// it.
pub open spec fn departure_teardown(t: Topology, user: UserIdentity) -> Seq<TransportTeardown> {
    let ids = owned_order(t.sources, user);
    let gone = without_sources(t.graph, ids);
    relay_teardown(departure_relays(t, user)) + media_removals(
        transports_of(t.sources, ids),
        lost_routes(t.graph, ids) + routes_of(
            gone.subscriptions,
            in_order(receiver_keys(gone.subscriptions, user)),
        ),
    )
}

/// What the router has to give up once a change is committed.
#[derive(Debug, PartialEq, Eq)]
pub enum RouterRelease {
    /// Everything of a user.
    Session { user_id: UserId },
    /// The placement of one connection.
    Placement { user_id: UserId, connection_id: ConnectionId },
}

/// What is left to do for a user that was forgotten.
#[derive(Debug)]
pub struct SessionRemoval {
    pub router_release: RouterRelease,
    pub transport_plan: RoomTransportPlan,
}

/// Publications and subscriptions of a room, and where its sessions are placed.
pub struct RoomTopology {
    instance: RoomInstanceId,
    sources: PublishedSources,
    route_graph: RouteGraph,
    placements: OrdMap<UserId, SessionPlacement>,
    next_producer_id: u64,
    video_allocation_revision: u64,
}

impl RoomTopology {
    pub closed spec fn view(&self) -> Topology {
        Topology {
            instance: self.instance,
            sources: self.sources@,
            graph: self.route_graph@,
            placements: self.placements@,
            next_source: self.sources.upcoming(),
            next_encoding: self.sources.upcoming_encoding(),
            next_producer: self.next_producer_id,
            revision: self.video_allocation_revision,
        }
    }

    pub closed spec fn wf(&self) -> bool {
        &&& self.sources.wf()
        &&& self.route_graph.wf()
        &&& self.placements.wf()
        &&& sources_owned(self.sources@)
        &&& attachments_agree(self.route_graph@.subscriptions, self.sources@)
    }

    /// A well-formed topology is consistent and finite.
    pub proof fn lemma_consistent(&self)
        requires
            self.wf(),
        ensures
            self@.consistent(),
            self@.sources.dom().finite(),
            self@.graph.subscriptions.dom().finite(),
    {
        self.sources.lemma_agree();
        self.sources.lemma_order();
        self.route_graph.lemma_consistent();
    }

    pub fn new(instance: RoomInstanceId) -> (r: Self)
        ensures
            r.wf(),
            r@ == (Topology {
                instance,
                sources: Map::empty(),
                graph: Graph {
                    subscriptions: Map::empty(),
                    relays: Map::empty(),
                    reservations: 0,
                },
                placements: Map::empty(),
                next_source: 1,
                next_encoding: 1,
                next_producer: 1,
                revision: 0,
            }),
    {
        RoomTopology {
            instance,
            sources: PublishedSources::new(),
            route_graph: RouteGraph::new(),
            placements: OrdMap::new(),
            next_producer_id: 1,
            video_allocation_revision: 0,
        }
    }

    pub fn instance(&self) -> (r: RoomInstanceId)
        ensures
            r == self@.instance,
    {
        self.instance
    }

    /// Whether the counters have room for one more publication with these encodings.
    pub fn can_publish(&self, encodings: usize) -> (r: bool)
        requires
            self.wf(),
        ensures
            r == (self@.next_source < u64::MAX && self@.next_producer < u64::MAX
                && self@.next_encoding + encodings <= u64::MAX),
    {
        self.sources.can_allocate(encodings) && self.next_producer_id < u64::MAX
    }

    /// Whether the counters have room for these setups.
    pub fn can_reserve(&self, setups: usize) -> (r: bool)
        ensures
            r == (self@.graph.reservations + setups <= u64::MAX),
    {
        setups as u64 <= u64::MAX - self.route_graph.reservation_count()
    }

    pub fn video_allocation_revision(&self) -> (r: u64)
        ensures
            r == self@.revision,
    {
        self.video_allocation_revision
    }

    fn invalidate_video_allocation(&mut self)
        requires
            old(self).wf(),
        ensures
            final(self).wf(),
            final(self)@ == old(self)@.advanced(1),
    {
        self.video_allocation_revision = self.video_allocation_revision.wrapping_add(1);
        proof {
            reveal_with_fuel(advance, 2);
        }
    }

    /// The transport session of a user, while this exact connection is committed.
    pub fn committed_transport_user_key(&self, user_id: &UserId, connection_id: ConnectionId) -> (r:
        Option<TransportSessionKey>)
        requires
            self.wf(),
        ensures
            r == self@.session(*user_id, connection_id),
    {
        match self.placements.get(user_id) {
            Some(placement) => {
                if placement.connection == connection_id {
                    Some(
                        TransportSessionKey::new(
                            self.instance,
                            placement.worker,
                            connection_id,
                            user_id.clone(),
                        ),
                    )
                } else {
                    None
                }
            },
            None => None,
        }
    }

    /// The transport session of a user whose exact connection is committed.
    pub fn transport_user_key(&self, user_id: &UserId, connection_id: ConnectionId) -> (r:
        TransportSessionKey)
        requires
            self.wf(),
            self@.worker_of(user_id.id(), connection_id) is Some,
        ensures
            self@.session(*user_id, connection_id) == Some(r),
    {
        let worker = match self.placements.get(user_id) {
            Some(placement) => placement.worker,
            None => MediaWorkerId(0),
        };
        TransportSessionKey::new(self.instance, worker, connection_id, user_id.clone())
    }

    /// Gives up the placement of this exact connection. Returns its session, or
    /// nothing where the connection is not the user's committed one.
    pub fn retire_committed_placement(&mut self, user_id: &UserId, connection_id: ConnectionId) -> (r:
        Option<TransportSessionKey>)
        requires
            old(self).wf(),
        ensures
            final(self).wf(),
            r == old(self)@.session(*user_id, connection_id),
            final(self)@ == if r is Some {
                Topology {
                    placements: old(self)@.placements.remove(user_id.id()),
                    ..old(self)@
                }
            } else {
                old(self)@
            },
    {
        let r = self.committed_transport_user_key(user_id, connection_id);
        if r.is_some() {
            let _ = self.placements.remove(user_id);
        }
        r
    }

    /// Takes out one publication.
    pub fn remove_source(&mut self, source_id: PublishedSourceId) -> (r: Option<
        (PublishedSource, RemovedRoutes),
    >)
        requires
            old(self).wf(),
        ensures
            final(self).wf(),
            match r {
                None => !old(self)@.sources.contains_key(source_id.0) && final(self)@ == old(self)@,
                Some((source, removed)) => {
                    &&& old(self)@.sources.contains_key(source_id.0)
                    &&& source == old(self)@.sources[source_id.0]
                    &&& removed.removes(old(self)@.graph, losing(old(self)@.graph, source_id.0))
                    &&& final(self)@ == (Topology {
                        sources: old(self)@.sources.remove(source_id.0),
                        graph: without_source(old(self)@.graph, source_id.0),
                        ..old(self)@
                    }).advanced(1)
                },
            },
    {
        let ghost t = old(self)@;
        match self.sources.remove(source_id) {
            None => {
                proof {
                    assert(t.sources.remove(source_id.0) =~= t.sources);
                }
                None
            },
            Some(source) => {
                let removed = self.route_graph.detach_source(source_id);
                proof {
                    assert forall|k: SubscriptionIdentity|
                        (#[trigger] attachment(
                            self.route_graph@.subscriptions,
                            k,
                        )) is Some implies attachment(t.graph.subscriptions, k) == attachment(
                        self.route_graph@.subscriptions,
                        k,
                    ) && attachment(t.graph.subscriptions, k)->0.source_id.0 != source_id.0 by {
                        assert(attachment(t.graph.subscriptions, k) is Some);
                    }
                }
                self.invalidate_video_allocation();
                Some((source, removed))
            },
        }
    }

    /// Takes out all publications of a user, in id order.
    fn detach_user_sources(&mut self, user_id: &UserId) -> (r: (
        Vec<TransportSourceKey>,
        RemovedRoutes,
    ))
        requires
            old(self).wf(),
        ensures
            final(self).wf(),
            final(self)@ == without_publisher(old(self)@, user_id.id()),
            r.0@ == transports_of(
                old(self)@.sources,
                owned_order(old(self)@.sources, user_id.id()),
            ),
            loses(r.1, old(self)@.graph, owned_order(old(self)@.sources, user_id.id())),
    {
        let ghost t = old(self)@;
        let owned = self.sources.ids_for_owner(user_id);
        let ghost ids = raw_ids(owned@);
        let ghost members = owned_ids(t.sources, user_id.id());
        let mut sources: Vec<TransportSourceKey> = Vec::new();
        let mut removed = RemovedRoutes::new();
        let mut i: usize = 0;
        proof {
            assert(ids.take(0) =~= Seq::<u64>::empty());
            assert(sources_without(t.sources, ids.take(0).to_set()) =~= t.sources);
            assert(sources@ =~= transports_of(t.sources, ids.take(0)));
        }
        while i < owned.len()
            invariant
                i <= owned@.len(),
                ids == raw_ids(owned@),
                enumerates::<PublishedSourceId>(ids, members),
                members == owned_ids(t.sources, user_id.id()),
                self.wf(),
                self@ == (Topology {
                    sources: sources_without(t.sources, ids.take(i as int).to_set()),
                    graph: without_sources(t.graph, ids.take(i as int)),
                    ..t
                }).advanced(i as nat),
                sources@ == transports_of(t.sources, ids.take(i as int)),
                loses(removed, t.graph, ids.take(i as int)),
            decreases owned@.len() - i,
        {
            let source_id = owned[i];
            let ghost before = self@;
            proof {
                lemma_take_ids(ids, i as int);
                assert(ids[i as int] == source_id.0);
                assert(ids.contains(ids[i as int]));
                assert(!ids.take(i as int).to_set().contains(source_id.0)) by {
                    if ids.take(i as int).contains(source_id.0) {
                        let j = ids.take(i as int).index_of(source_id.0);
                        crate::ord_map::lemma_increasing_distinct::<PublishedSourceId>(
                            ids,
                            i as int,
                            j,
                        );
                    }
                }
                assert(before.sources.contains_key(source_id.0));
            }
            match self.remove_source(source_id) {
                None => {},
                Some((source, routes)) => {
                    sources.push(source.transport);
                    removed.extend(routes);
                },
            }
            proof {
                assert(sources@ =~= transports_of(t.sources, ids.take(i + 1)));
                assert(before.sources.remove(source_id.0) =~= sources_without(
                    t.sources,
                    ids.take(i + 1).to_set(),
                ));
                lemma_advance(t.revision, i as nat, 1);
            }
            i = i + 1;
        }
        proof {
            assert(ids.take(ids.len() as int) =~= ids);
            assert(ids.to_set() =~= members);
        }
        (sources, removed)
    }

    /// Commits a new placement, and cleans up after the connection it displaces.
    ///
    /// A replacement names the connection it displaces, which has to be the
    /// committed one. The router is asked only then.
    pub fn commit_session_placement<
        F: FnOnce(&UserId, ConnectionId) -> Result<MediaWorkerId, RouterError>,
    >(
        &mut self,
        user_id: &UserId,
        connection_id: ConnectionId,
        previous_connection: Option<ConnectionId>,
        place: F,
    ) -> (r: Result<SessionPlacementCommit, SessionPlacementRejection>)
        requires
            old(self).wf(),
            place.requires((user_id, connection_id)),
        ensures
            final(self).wf(),
            ({
                let t = old(self)@;
                let displaced = match previous_connection {
                    Some(previous) => t.session(*user_id, previous),
                    None => None,
                };
                if previous_connection is Some && displaced is None {
                    &&& r == Err::<SessionPlacementCommit, _>(
                        SessionPlacementRejection::MissingPreviousSession {
                            previous_connection: previous_connection->0,
                        },
                    )
                    &&& final(self)@ == t
                } else {
                    exists|answer: Result<MediaWorkerId, RouterError>|
                        #![trigger place.ensures((user_id, connection_id), answer)]
                        place.ensures((user_id, connection_id), answer) && placement_outcome(
                            t,
                            *user_id,
                            connection_id,
                            displaced,
                            answer,
                            final(self)@,
                            r,
                        )
                }
            }),
    {
        let ghost t = old(self)@;
        let displaced = match previous_connection {
            Some(previous) => match self.committed_transport_user_key(user_id, previous) {
                Some(key) => Some(key),
                None => {
                    return Err(
                        SessionPlacementRejection::MissingPreviousSession {
                            previous_connection: previous,
                        },
                    );
                },
            },
            None => None,
        };
        let worker = match place(user_id, connection_id) {
            Err(error) => {
                return Err(SessionPlacementRejection::Router(error));
            },
            Ok(worker) => worker,
        };
        self.placements.insert(
            user_id.clone(),
            SessionPlacement { connection: connection_id, worker },
        );
        let receipt = CommittedTransportReceipt {
            transport_session_key: TransportSessionKey::new(
                self.instance,
                worker,
                connection_id,
                user_id.clone(),
            ),
        };
        let replacement_transport_plan = match displaced {
            None => RoomTransportPlan::new(),
            Some(session_key) => {
                let (_, removed) = self.detach_user_sources(user_id);
                let ghost gone = self@;
                let mut receiver_relays = self.route_graph.reset_receiver_for_replacement(user_id);
                proof {
                    assert forall|k: SubscriptionIdentity|
                        (#[trigger] attachment(
                            self.route_graph@.subscriptions,
                            k,
                        )) is Some implies attachment(gone.graph.subscriptions, k) is Some
                        && attachment(gone.graph.subscriptions, k)->0.source_id == attachment(
                        self.route_graph@.subscriptions,
                        k,
                    )->0.source_id by {
                        assert(attachment(gone.graph.subscriptions, k) is Some);
                    }
                }
                let RemovedRoutes { routes, consumers: _, relays } = removed;
                let mut relays = relays;
                relays.append(&mut receiver_relays);
                let mut teardown = media_teardowns(Vec::new(), routes);
                teardown.push(TransportTeardown::CloseSession { session_key });
                self.invalidate_video_allocation();
                RoomTransportPlan::from_relays_and_teardown(relays, teardown)
            },
        };
        Ok(SessionPlacementCommit { receipt, replacement_transport_plan })
    }

    /// Forgets a user: its publications, its subscriptions and its placement.
    pub fn remove_session(&mut self, user_id: &UserId) -> (r: SessionRemoval)
        requires
            old(self).wf(),
        ensures
            final(self).wf(),
            final(self)@ == without_user(old(self)@, user_id.id()),
            r.router_release == (RouterRelease::Session { user_id: *user_id }),
            r.transport_plan.only(
                kept_relays(departure_relays(old(self)@, user_id.id())),
                departure_teardown(old(self)@, user_id.id()),
            ),
    {
        let (sources, removed) = self.detach_user_sources(user_id);
        let ghost gone = self@;
        let received = self.route_graph.remove_receiver(user_id);
        proof {
            assert forall|k: SubscriptionIdentity|
                (#[trigger] attachment(
                    self.route_graph@.subscriptions,
                    k,
                )) is Some implies attachment(gone.graph.subscriptions, k) == attachment(
                self.route_graph@.subscriptions,
                k,
            ) by {
                assert(attachment(gone.graph.subscriptions, k) is Some);
            }
        }
        let mut removed = removed;
        removed.extend(received);
        self.invalidate_video_allocation();
        let _ = self.placements.remove(user_id);
        let RemovedRoutes { routes, consumers: _, relays } = removed;
        let teardown = media_teardowns(sources, routes);
        SessionRemoval {
            router_release: RouterRelease::Session { user_id: user_id.clone() },
            transport_plan: RoomTransportPlan::from_relays_and_teardown(relays, teardown),
        }
    }

    /// Publications, and subscriptions with a setup or a route.
    pub fn media_counts(&self) -> (r: RoomMediaCounts)
        requires
            self.wf(),
        ensures
            r.publications == source_order(self@.sources).len(),
            r.subscriptions == in_order(realizing_keys(self@.graph.subscriptions)).len(),
    {
        RoomMediaCounts {
            publications: self.sources.publication_count(),
            subscriptions: self.route_graph.subscription_count(),
        }
    }

    /// Number of committed consumer routes.
    pub fn consumer_count(&self) -> (r: usize)
        requires
            self.wf(),
        ensures
            r == in_order(routed_keys(self@.graph.subscriptions)).len(),
    {
        self.route_graph.count()
    }

    /// Number of publications.
    pub fn publication_count(&self) -> (r: usize)
        requires
            self.wf(),
        ensures
            r == source_order(self@.sources).len(),
    {
        self.sources.publication_count()
    }

    /// The publication at a position of the walk in id order.
    pub fn publication(&self, i: usize) -> (r: &PublishedSource)
        requires
            self.wf(),
            i < source_order(self@.sources).len(),
        ensures
            self@.sources.contains_key(source_order(self@.sources)[i as int]),
            *r == self@.sources[source_order(self@.sources)[i as int]],
            r.descriptor.source_id.0 == source_order(self@.sources)[i as int],
    {
        self.sources.at(i)
    }

    /// Transport medium of the first publication, in id order.
    pub fn first_published_transport_media_id(&self) -> (r: Option<TransportMediaId>)
        requires
            self.wf(),
        ensures
            r == if source_order(self@.sources).len() == 0 {
                None
            } else {
                Some(self@.sources[source_order(self@.sources)[0]].transport.media)
            },
    {
        if self.sources.publication_count() == 0 {
            None
        } else {
            Some(self.sources.at(0).transport.media)
        }
    }

    pub fn published_source(&self, source_id: PublishedSourceId) -> (r: Option<&PublishedSource>)
        requires
            self.wf(),
        ensures
            match r {
                Some(source) => self@.sources.contains_key(source_id.0) && *source
                    == self@.sources[source_id.0],
                None => !self@.sources.contains_key(source_id.0),
            },
    {
        self.sources.source(source_id)
    }

    pub fn source_descriptor(&self, source_id: PublishedSourceId) -> (r: Option<
        &PublishedSourceDescriptor,
    >)
        requires
            self.wf(),
        ensures
            match r {
                Some(descriptor) => self@.sources.contains_key(source_id.0) && *descriptor
                    == self@.sources[source_id.0].descriptor,
                None => !self@.sources.contains_key(source_id.0),
            },
    {
        match self.sources.source(source_id) {
            Some(source) => Some(&source.descriptor),
            None => None,
        }
    }

    /// The first publication, in id order, that uses the transport medium.
    pub fn source_for_transport_media(&self, transport_media_id: TransportMediaId) -> (r: Option<
        &PublishedSource,
    >)
        requires
            self.wf(),
        ensures
            match r {
                Some(source) => first_with_media(
                    self@.sources,
                    transport_media_id,
                    source.descriptor.source_id.0,
                ) && *source == self@.sources[source.descriptor.source_id.0],
                None => forall|id: u64| #[trigger]
                    self@.sources.contains_key(id) ==> self@.sources[id].transport.media
                        != transport_media_id,
            },
    {
        self.sources.source_for_transport(transport_media_id)
    }

    pub fn source_id_for_owner_stream(&self, owner_user_id: &UserId, stream_id: &UserStreamId) -> (r:
        Option<PublishedSourceId>)
        requires
            self.wf(),
        ensures
            r == source_of_stream(self@.sources, owner_user_id.id(), stream_id.id()),
            match r {
                Some(id) => publishes(
                    self@.sources,
                    id.0,
                    OwnerStream { owner: owner_user_id.id(), stream: stream_id.id() },
                ),
                None => unpublished(
                    self@.sources,
                    OwnerStream { owner: owner_user_id.id(), stream: stream_id.id() },
                ),
            },
    {
        self.sources.id_for_owner_stream(owner_user_id, stream_id)
    }

    /// The publication of a stream, while it is of this exact connection.
    pub fn published_source_id(
        &self,
        owner: &UserId,
        connection: ConnectionId,
        stream_id: &UserStreamId,
    ) -> (r: Option<PublishedSourceId>)
        requires
            self.wf(),
        ensures
            r == source_of_connection(self@.sources, owner.id(), connection, stream_id.id()),
    {
        match self.sources.id_for_owner_stream(owner, stream_id) {
            None => None,
            Some(id) => match self.sources.source(id) {
                None => None,
                Some(source) => if source.transport.session.connection == connection {
                    Some(id)
                } else {
                    None
                },
            },
        }
    }

    /// Transport medium of the publication of a stream of this exact connection.
    pub fn producer_transport_media_id(
        &self,
        user_id: &UserId,
        connection_id: ConnectionId,
        stream_id: &UserStreamId,
    ) -> (r: Option<TransportMediaId>)
        requires
            self.wf(),
        ensures
            r == match source_of_connection(
                self@.sources,
                user_id.id(),
                connection_id,
                stream_id.id(),
            ) {
                Some(id) => Some(self@.sources[id.0].transport.media),
                None => None,
            },
    {
        match self.published_source_id(user_id, connection_id, stream_id) {
            None => None,
            Some(id) => match self.sources.source(id) {
                None => None,
                Some(source) => Some(source.transport.media),
            },
        }
    }

    /// The owner of a detector whose group has an active source to promote.
    pub fn active_speaker_detector_owner(&self, transport_media_id: TransportMediaId) -> (r: Option<
        UserId,
    >)
        requires
            self.wf(),
        ensures
            speaks_through(self@.sources, transport_media_id, r),
    {
        let source = match self.sources.source_for_transport(transport_media_id) {
            None => {
                return None;
            },
            Some(source) => source,
        };
        let ghost found = source.descriptor.source_id.0;
        proof {
            assert(first_with_media(self@.sources, transport_media_id, found));
            assert forall|id: u64|
                #![trigger first_with_media(self@.sources, transport_media_id, id)]
                first_with_media(self@.sources, transport_media_id, id) implies id == found by {
                if id < found {
                    assert(self@.sources[id].transport.media != transport_media_id);
                }
                if found < id {
                    assert(self@.sources[found].transport.media != transport_media_id);
                }
            }
        }
        match &source.descriptor.policy.active_speaker {
            None => None,
            Some(policy) => {
                if policy.role != ActiveSpeakerSourceRole::Detector {
                    return None;
                }
                let owner = &source.descriptor.owner;
                if self.sources.owner_has_promotable_source_in_group(owner, policy.group) {
                    Some(owner.clone())
                } else {
                    None
                }
            },
        }
    }

    /// Selection of a subscription while this publication is attached to it.
    pub fn consumer_source_selection(&self, key: &SubscriptionKey, source_id: PublishedSourceId) -> (r:
        Option<ConsumerSourceSelection>)
        requires
            self.wf(),
        ensures
            r == if attached_to(self@.graph.subscriptions, key.id(), source_id) {
                Some(attachment(self@.graph.subscriptions, key.id())->0.selection)
            } else {
                None
            },
    {
        self.route_graph.selection(key, source_id)
    }

    /// Merged receiver intent.
    pub fn subscription_intent(&self, key: &SubscriptionKey) -> (r: SourceSubscriptionIntent)
        requires
            self.wf(),
        ensures
            r == record(self@.graph.subscriptions, key.id()).intent,
    {
        self.route_graph.intent(key)
    }

    /// Subscriptions of a receiver, in order.
    pub fn receiver_subscriptions(&self, receiver: &UserId) -> (r: Vec<SubscriptionKey>)
        requires
            self.wf(),
        ensures
            lists(ids_of(r@), receiver_keys(self@.graph.subscriptions, receiver.id())),
    {
        self.route_graph.receiver_subscriptions(receiver)
    }

    /// The publication attached to a subscription.
    pub fn current(&self, key: &SubscriptionKey) -> (r: Option<&CurrentPublication>)
        requires
            self.wf(),
        ensures
            match r {
                Some(current) => attachment(self@.graph.subscriptions, key.id()) == Some(*current)
                    && self@.sources.contains_key(current.source_id.0),
                None => attachment(self@.graph.subscriptions, key.id()) is None,
            },
    {
        proof {
            let attached = attachment(self@.graph.subscriptions, key.id());
            assert(attached is Some ==> publishes(
                self@.sources,
                attached->0.source_id.0,
                OwnerStream { owner: key.id().publisher, stream: key.id().stream },
            ));
        }
        self.route_graph.current(key)
    }

    /// The committed route of a subscription.
    pub fn committed_consumer_route_for_key<'a>(&'a self, key: &'a SubscriptionKey) -> (r: Option<
        ConsumerRouteView<'a>,
    >)
        requires
            self.wf(),
        ensures
            match r {
                Some(view) => shows_route(self@, *key, view),
                None => !record(self@.graph.subscriptions, key.id()).routed(),
            },
    {
        match self.current(key) {
            None => None,
            Some(current) => match &current.realization {
                ConsumerRealization::Committed(committed) => match self.sources.source(
                    current.source_id,
                ) {
                    None => None,
                    Some(source) => Some(
                        ConsumerRouteView {
                            key,
                            route: &committed.route,
                            mid: &committed.mid,
                            pending_upgrade: committed.pending_upgrade,
                            source,
                            selection: current.selection,
                        },
                    ),
                },
                _ => None,
            },
        }
    }

    /// Detaches the committed routes that a client declined. Returns the relay work,
    /// the media to remove and the consumers that the router has to drop.
    pub fn detach_declined_consumers(
        &mut self,
        session: &TransportSessionKey,
        declined: &Vec<TransportMediaId>,
    ) -> (r: (Vec<TransportRelayRouteEffect>, Vec<TransportTeardown>, Vec<RoutedConsumerId>))
        requires
            old(self).wf(),
        ensures
            final(self).wf(),
            ({
                let t = old(self)@;
                let members = declined_keys(t.graph.subscriptions, *session, declined@);
                let keys = in_order(members);
                let routes = routes_of(t.graph.subscriptions, keys);
                &&& r.0@ == released_shares(t.graph, keys)
                &&& r.1@ == media_removals(seq![], routes)
                &&& r.2@ == consumers_of(t.graph.subscriptions, keys)
                &&& r.1@.len() == routes.len()
                &&& final(self)@ == (Topology {
                    graph: Graph {
                        subscriptions: unrealized(t.graph.subscriptions, members),
                        relays: relays_without(t.graph, keys),
                        ..t.graph
                    },
                    ..t
                }).advanced(
                    if routes.len() == 0 {
                        0
                    } else {
                        1
                    },
                )
            }),
    {
        let ghost t = old(self)@;
        let RemovedRoutes { routes, consumers, relays } = self.route_graph.detach_declined_consumers(
            session,
            declined,
        );
        proof {
            let members = declined_keys(t.graph.subscriptions, *session, declined@);
            assert forall|k: SubscriptionIdentity|
                (#[trigger] attachment(
                    self.route_graph@.subscriptions,
                    k,
                )) is Some implies attachment(t.graph.subscriptions, k) is Some && attachment(
                t.graph.subscriptions,
                k,
            )->0.source_id == attachment(self.route_graph@.subscriptions, k)->0.source_id by {
                assert(attachment(t.graph.subscriptions, k) is Some);
            }
        }
        if routes.len() > 0 {
            self.invalidate_video_allocation();
        }
        let teardown = media_teardowns(Vec::new(), routes);
        (relays, teardown, consumers)
    }

    /// Attaches a publication to a receiver's subscription, unless it is the
    /// receiver's own. Returns the setup where one is needed.
    fn attach_consumer_target(
        &mut self,
        session: &TransportSessionKey,
        source_id: PublishedSourceId,
    ) -> (r: Option<ConsumerSetupTarget>)
        requires
            old(self).wf(),
            old(self)@.sources.contains_key(source_id.0),
        ensures
            final(self).wf(),
            final(self)@ == with_target(old(self)@, *session, source_id.0),
            r == target_for(old(self)@, *session, source_id.0),
    {
        let ghost t = old(self)@;
        proof {
            self.lemma_consistent();
        }
        let target = match self.sources.source(source_id) {
            None => {
                return None;
            },
            Some(source) => {
                if same(&source.descriptor.owner, &session.user) {
                    return None;
                }
                ConsumerSetupTarget::new(session.clone(), source)
            },
        };
        let key = target.subscription_key();
        let attached = self.route_graph.attach_for_setup(&key, target.source_id);
        proof {
            let k = key.id();
            let source = t.sources[source_id.0];
            assert forall|l: SubscriptionIdentity|
                (#[trigger] attachment(
                    self.route_graph@.subscriptions,
                    l,
                )) is Some implies (attachment(t.graph.subscriptions, l) == attachment(
                self.route_graph@.subscriptions,
                l,
            ) || (l == k && attachment(t.graph.subscriptions, l) is None)) by {
            }
            assert(publishes(
                t.sources,
                source_id.0,
                OwnerStream { owner: k.publisher, stream: k.stream },
            ));
        }
        if attached {
            Some(target)
        } else {
            None
        }
    }

    /// Attaches every publication, or every one of `source_user`, that the exact
    /// connection of a receiver lacks. Returns the setups in source order; none for
    /// a connection that is not committed.
    pub fn missing_consumer_targets(
        &mut self,
        user_id: &UserId,
        connection_id: ConnectionId,
        source_user: Option<&UserId>,
    ) -> (r: Vec<ConsumerSetupTarget>)
        requires
            old(self).wf(),
        ensures
            final(self).wf(),
            ({
                let t = old(self)@;
                match t.session(*user_id, connection_id) {
                    None => final(self)@ == t && r@ == Seq::<ConsumerSetupTarget>::empty(),
                    Some(session) => {
                        let ids = considered(t.sources, filter_of(source_user));
                        final(self)@ == with_targets(t, session, ids) && r@ == targets_for(
                            t,
                            session,
                            ids,
                        )
                    },
                }
            }),
    {
        let ghost t = old(self)@;
        let session = match self.committed_transport_user_key(user_id, connection_id) {
            None => {
                return Vec::new();
            },
            Some(session) => session,
        };
        let mut targets: Vec<ConsumerSetupTarget> = Vec::new();
        let mut i: usize = 0;
        let count: usize = self.sources.publication_count();
        let ghost order = source_order(t.sources);
        let ghost filter = filter_of(source_user);
        proof {
            assert(order.take(0) =~= Seq::<u64>::empty());
        }
        while i < count
            invariant
                i <= count,
                order == source_order(t.sources),
                count == order.len(),
                filter == filter_of(source_user),
                self.wf(),
                self@.sources == t.sources,
                self@ == with_targets(t, session, picked(t.sources, order.take(i as int), filter)),
                targets@ == targets_for(
                    t,
                    session,
                    picked(t.sources, order.take(i as int), filter),
                ),
            decreases count - i,
        {
            let source_id = self.sources.at(i).descriptor.source_id;
            let considered = match source_user {
                None => true,
                Some(owner) => same(&self.sources.at(i).descriptor.owner, owner),
            };
            let ghost before = picked(t.sources, order.take(i as int), filter);
            proof {
                lemma_take_ids(order, i as int);
            }
            if considered {
                proof {
                    assert(picked(t.sources, order.take(i + 1), filter) == before.push(
                        source_id.0,
                    ));
                    assert(before.push(source_id.0).drop_last() =~= before);
                    lemma_with_targets(t, session, before.push(source_id.0));
                }
                match self.attach_consumer_target(&session, source_id) {
                    Some(target) => {
                        targets.push(target);
                    },
                    None => {},
                }
            }
            i = i + 1;
        }
        proof {
            assert(order.take(count as int) =~= order);
        }
        targets
    }

    /// Attaches a publication to every listed receiver that lacks it. Receivers
    /// whose connection is not committed are skipped.
    pub fn missing_consumer_targets_for_source(
        &mut self,
        source_id: PublishedSourceId,
        receivers: &Vec<(UserId, ConnectionId)>,
    ) -> (r: Vec<ConsumerSetupTarget>)
        requires
            old(self).wf(),
        ensures
            final(self).wf(),
            if old(self)@.sources.contains_key(source_id.0) {
                final(self)@ == with_receivers(old(self)@, source_id.0, receivers@) && r@
                    == receiver_targets(old(self)@, source_id.0, receivers@)
            } else {
                final(self)@ == old(self)@ && r@ == Seq::<ConsumerSetupTarget>::empty()
            },
    {
        let ghost t = old(self)@;
        let mut targets: Vec<ConsumerSetupTarget> = Vec::new();
        if self.sources.source(source_id).is_none() {
            return targets;
        }
        let ghost all = receivers@;
        let mut i: usize = 0;
        proof {
            assert(all.take(0) =~= Seq::<(UserId, ConnectionId)>::empty());
        }
        while i < receivers.len()
            invariant
                i <= receivers@.len(),
                all == receivers@,
                t.sources.contains_key(source_id.0),
                self.wf(),
                self@ == with_receivers(t, source_id.0, all.take(i as int)),
                self@.sources == t.sources,
                targets@ == receiver_targets(t, source_id.0, all.take(i as int)),
            decreases receivers@.len() - i,
        {
            proof {
                assert(all.take(i + 1).drop_last() =~= all.take(i as int));
                assert(all.take(i + 1).last() == all[i as int]);
                lemma_with_receivers(t, source_id.0, all.take(i as int));
            }
            match self.committed_transport_user_key(&receivers[i].0, receivers[i].1) {
                None => {},
                Some(session) => {
                    match self.attach_consumer_target(&session, source_id) {
                        Some(target) => {
                            targets.push(target);
                        },
                        None => {},
                    }
                },
            }
            i = i + 1;
        }
        proof {
            assert(all.take(i as int) =~= all);
        }
        targets
    }

    /// Changes the selection of an exact committed route. Returns whether the route
    /// is still the one that the change was made for.
    pub fn update_consumer_source_selection<
        F: FnOnce(ConsumerSourceSelection) -> ConsumerSourceSelection,
    >(
        &mut self,
        key: &SubscriptionKey,
        source_id: PublishedSourceId,
        route: &TransportConsumerRoute,
        update: F,
    ) -> (r: bool)
        requires
            old(self).wf(),
            forall|selection: ConsumerSourceSelection| update.requires((selection,)),
        ensures
            final(self).wf(),
            r == routes(old(self)@.graph.subscriptions, key.id(), source_id, *route),
            !r ==> final(self)@ == old(self)@,
            r ==> exists|selection: ConsumerSourceSelection|
                #![trigger update.ensures(
                    (attachment(old(self)@.graph.subscriptions, key.id())->0.selection,),
                    selection,
                )]
                update.ensures(
                    (attachment(old(self)@.graph.subscriptions, key.id())->0.selection,),
                    selection,
                ) && final(self)@ == (Topology {
                    graph: after_selection(old(self)@.graph, key.id(), selection),
                    ..old(self)@
                }).advanced(1),
    {
        let ghost t = old(self)@;
        let updated = self.route_graph.update_selection(key, source_id, route, update);
        proof {
            assert forall|l: SubscriptionIdentity|
                (#[trigger] attachment(
                    self.route_graph@.subscriptions,
                    l,
                )) is Some implies attachment(t.graph.subscriptions, l) is Some && attachment(
                t.graph.subscriptions,
                l,
            )->0.source_id == attachment(self.route_graph@.subscriptions, l)->0.source_id by {
            }
        }
        if updated {
            self.invalidate_video_allocation();
        }
        updated
    }

    /// Sets the upgrade that an exact route of an active publication waits for.
    pub fn update_consumer_upgrade(
        &mut self,
        key: &SubscriptionKey,
        source_id: PublishedSourceId,
        route: &TransportConsumerRoute,
        pending_upgrade: Option<PendingUpgrade>,
    ) -> (r: bool)
        requires
            old(self).wf(),
        ensures
            final(self).wf(),
            r == upgradable(old(self)@, key.id(), source_id, *route),
            final(self)@ == if r {
                Topology {
                    graph: after_upgrade(old(self)@.graph, key.id(), pending_upgrade),
                    ..old(self)@
                }
            } else {
                old(self)@
            },
    {
        let ghost t = old(self)@;
        let active = match self.sources.source(source_id) {
            Some(source) => source.active,
            None => false,
        };
        if !active {
            return false;
        }
        let r = self.route_graph.update_upgrade(key, source_id, route, pending_upgrade);
        proof {
            assert forall|l: SubscriptionIdentity|
                (#[trigger] attachment(
                    self.route_graph@.subscriptions,
                    l,
                )) is Some implies attachment(t.graph.subscriptions, l) is Some && attachment(
                t.graph.subscriptions,
                l,
            )->0.source_id == attachment(self.route_graph@.subscriptions, l)->0.source_id by {
            }
        }
        r
    }

    /// Sets the activity of a publication of this exact connection. Returns the new
    /// revision, or nothing where the publication is missing, is of another
    /// connection or has that activity already.
    pub fn set_published_source_activity(
        &mut self,
        source_id: PublishedSourceId,
        connection_id: ConnectionId,
        active: bool,
    ) -> (r: Option<SourceActivityRevision>)
        requires
            old(self).wf(),
        ensures
            final(self).wf(),
            ({
                let t = old(self)@;
                if switches(t.sources, source_id.0, connection_id, active) {
                    &&& r == Some(t.sources[source_id.0].activity_revision.following())
                    &&& final(self)@ == switched_topology(t, source_id, active)
                } else {
                    r is None && final(self)@ == t
                }
            }),
    {
        let ghost t = old(self)@;
        match self.sources.source(source_id) {
            None => {
                return None;
            },
            Some(source) => {
                if source.transport.session.connection != connection_id || source.active == active {
                    return None;
                }
            },
        }
        self.sources.switch(source_id, active);
        let revision = match self.sources.source(source_id) {
            Some(source) => source.activity_revision,
            None => SourceActivityRevision(0),
        };
        if !active {
            self.route_graph.clear_source_upgrades(source_id);
        }
        proof {
            assert forall|l: SubscriptionIdentity|
                (#[trigger] attachment(
                    self.route_graph@.subscriptions,
                    l,
                )) is Some implies attachment(t.graph.subscriptions, l) is Some && attachment(
                t.graph.subscriptions,
                l,
            )->0.source_id == attachment(self.route_graph@.subscriptions, l)->0.source_id by {
            }
        }
        self.invalidate_video_allocation();
        Some(revision)
    }

    /// Tells the activity of a publication to every worker it is relayed to.
    pub fn source_activity_effects(
        &self,
        source: &TransportSourceKey,
        update: SourceActivityUpdate,
    ) -> (r: Vec<TransportSourceActivityEffect>)
        requires
            self.wf(),
        ensures
            announces(self@.graph, *source, update, r@),
    {
        let workers = self.route_graph.source_activity_target_workers(source);
        let mut r: Vec<TransportSourceActivityEffect> = Vec::new();
        let mut i: usize = 0;
        while i < workers.len()
            invariant
                i <= workers@.len(),
                r@ == activity_announcements(*source, update, workers@.take(i as int)),
            decreases workers@.len() - i,
        {
            r.push(
                TransportSourceActivityEffect {
                    source: source.clone(),
                    target_media_worker_id: workers[i],
                    update,
                },
            );
            proof {
                assert(r@ =~= activity_announcements(*source, update, workers@.take(i + 1)));
            }
            i = i + 1;
        }
        proof {
            assert(workers@.take(i as int) =~= workers@);
        }
        r
    }

    /// Commits a negotiated publication once its descriptor is valid and the router
    /// has its producer.
    pub fn commit_publication<
        V: FnOnce(&PublishedSourceDescriptor) -> Option<SourceModelError>,
        A: FnOnce(&UserId, ProducerId) -> Result<RoutedProducerId, RouterError>,
    >(
        &mut self,
        publish: ValidatedPublish,
        rtp: RtpStream,
        encodings: &Vec<SessionUploadEncoding>,
        media: TransportMediaId,
        validate: V,
        add_producer: A,
    ) -> (r: Result<PublishedSourceId, PublicationCommitError>)
        requires
            old(self).wf(),
            unpublished(
                old(self)@.sources,
                OwnerStream {
                    owner: publish.session_key.user.id(),
                    stream: publish.stream_id.id(),
                },
            ),
            old(self)@.next_source < u64::MAX,
            old(self)@.next_producer < u64::MAX,
            old(self)@.next_encoding + rtp.bindings@.len() <= u64::MAX,
            forall|descriptor: &PublishedSourceDescriptor| validate.requires((descriptor,)),
            add_producer.requires((&publish.session_key.user, ProducerId(old(self)@.next_producer))),
        ensures
            final(self).wf(),
            exists|descriptor: PublishedSourceDescriptor, verdict: Option<SourceModelError>|
                #![trigger validate.ensures((&descriptor,), verdict)]
                {
                    &&& describes_publication(
                        descriptor,
                        publish,
                        rtp,
                        encodings@,
                        old(self)@.next_source,
                        old(self)@.next_encoding,
                    )
                    &&& validate.ensures((&descriptor,), verdict)
                    &&& match verdict {
                        Some(error) => r == Err::<PublishedSourceId, _>(
                            PublicationCommitError::Source(error),
                        ) && final(self)@ == described(old(self)@, rtp),
                        None => exists|answer: Result<RoutedProducerId, RouterError>|
                            #![trigger add_producer.ensures(
                                (&publish.session_key.user, ProducerId(old(self)@.next_producer)),
                                answer,
                            )]
                            add_producer.ensures(
                                (&publish.session_key.user, ProducerId(old(self)@.next_producer)),
                                answer,
                            ) && publication_outcome(
                                old(self)@,
                                publish,
                                rtp,
                                media,
                                descriptor,
                                answer,
                                final(self)@,
                                r,
                            ),
                    }
                },
    {
        let ghost t = old(self)@;
        proof {
            self.lemma_consistent();
        }
        let descriptor = allocate_source_descriptor(&mut self.sources, &publish, &rtp, encodings);
        match validate(&descriptor) {
            Some(error) => {
                return Err(PublicationCommitError::Source(error));
            },
            None => {},
        }
        let producer = ProducerId(self.next_producer_id);
        self.next_producer_id = self.next_producer_id + 1;
        let routed = match add_producer(&publish.session_key.user, producer) {
            Err(error) => {
                return Err(PublicationCommitError::Router(error));
            },
            Ok(routed) => routed,
        };
        let source_id = descriptor.source_id;
        let ghost known = descriptor;
        let source = PublishedSource {
            descriptor,
            transport: TransportSourceKey::new(publish.session_key, media),
            rtp,
            routed,
            active: true,
            activity_revision: SourceActivityRevision::default(),
        };
        self.sources.insert(source);
        proof {
            assert forall|l: SubscriptionIdentity|
                (#[trigger] attachment(
                    self.route_graph@.subscriptions,
                    l,
                )) is Some implies publishes(
                self.sources@,
                attachment(self.route_graph@.subscriptions, l)->0.source_id.0,
                OwnerStream { owner: l.publisher, stream: l.stream },
            ) by {
            }
            assert(publication_outcome(
                t,
                publish,
                rtp,
                media,
                known,
                Ok(routed),
                self@,
                Ok(source_id),
            ));
        }
        Ok(source_id)
    }

    /// Reserves the setup of a route that waits for one, with a share in the relay
    /// where receiver and publication are on different workers.
    pub fn reserve_consumer_setup(
        &mut self,
        target: ConsumerSetupTarget,
        consumer: ConsumerId,
        selection: ConsumerSourceSelection,
        sender: OutboundLane,
        rtp: RtpStream,
    ) -> (r: Option<PendingConsumerSetup>)
        requires
            old(self).wf(),
            old(self)@.graph.reservations < u64::MAX,
        ensures
            final(self).wf(),
            ({
                let t = old(self)@;
                let k = target.subscription();
                match r {
                    None => final(self)@ == t && !waits_for_setup(
                        t.graph.subscriptions,
                        k,
                        target.source_id,
                    ),
                    Some(setup) => {
                        &&& waits_for_setup(t.graph.subscriptions, k, target.source_id)
                        &&& setup.target == target
                        &&& setup.consumer == consumer
                        &&& setup.sender == sender
                        &&& setup.rtp == rtp
                        &&& setup.reservation.key_id() == k
                        &&& setup.reservation.source() == target.source_id
                        &&& setup.reservation.number() == t.graph.reservations + 1
                        &&& setup.reservation.activity() == ConsumerActivity::of(
                            selection.delivers(),
                        )
                        &&& final(self)@ == (Topology {
                            graph: with_setup(t.graph, target, selection),
                            ..t
                        })
                        &&& setup.relays@ == setup_relays(t.graph, target, selection)
                    },
                }
            }),
    {
        let ghost t = old(self)@;
        let key = target.subscription_key();
        let reservation = match self.route_graph.reserve_consumer_setup(
            &key,
            target.source_id,
            selection,
        ) {
            None => {
                return None;
            },
            Some(reservation) => reservation,
        };
        let relays = if target.source.session.worker == target.session.worker {
            Vec::new()
        } else {
            self.route_graph.reserve_relay(
                &reservation,
                &target.source,
                target.session.worker,
                selection.active(),
            )
        };
        proof {
            assert forall|l: SubscriptionIdentity|
                (#[trigger] attachment(
                    self.route_graph@.subscriptions,
                    l,
                )) is Some implies attachment(t.graph.subscriptions, l) is Some && attachment(
                t.graph.subscriptions,
                l,
            )->0.source_id == attachment(self.route_graph@.subscriptions, l)->0.source_id by {
            }
        }
        Some(PendingConsumerSetup { target, consumer, reservation, sender, rtp, relays })
    }

    /// Releases a reserved setup. A reservation that is no longer awaited releases
    /// nothing.
    pub fn release_consumer_setup(&mut self, setup: PendingConsumerSetup) -> (r: Vec<
        TransportRelayRouteEffect,
    >)
        requires
            old(self).wf(),
        ensures
            final(self).wf(),
            final(self)@ == with_released_setup(old(self)@, setup),
            r@ == released_setup_relays(old(self)@, setup),
    {
        let ghost t = old(self)@;
        let r = self.route_graph.release_consumer_setup(setup.reservation);
        proof {
            assert forall|l: SubscriptionIdentity|
                (#[trigger] attachment(
                    self.route_graph@.subscriptions,
                    l,
                )) is Some implies attachment(t.graph.subscriptions, l) is Some && attachment(
                t.graph.subscriptions,
                l,
            )->0.source_id == attachment(self.route_graph@.subscriptions, l)->0.source_id by {
            }
        }
        r
    }

    /// Commits a declared setup once the router accepts its consumer. Hands back the
    /// declared route, and the relay work, of a setup that is no longer awaited or
    /// that the router rejects.
    pub fn commit_consumer_setup<
        F: FnOnce(&UserId, ConsumerId, RoutedProducerId) -> Option<RoutedConsumerId>,
    >(
        &mut self,
        setup: DeclaredConsumerSetup,
        selection: ConsumerSourceSelection,
        accept: F,
    ) -> (r: Result<
        CommittedConsumerSetup,
        (TransportConsumerRoute, Vec<TransportRelayRouteEffect>),
    >)
        requires
            old(self).wf(),
            accept.requires(
                (
                    &setup.pending.target.session.user,
                    setup.pending.consumer,
                    setup.pending.target.routed,
                ),
            ),
        ensures
            final(self).wf(),
            ({
                let t = old(self)@;
                let pending = setup.pending;
                if !live(t.graph.subscriptions, pending.reservation) {
                    &&& final(self)@ == t
                    &&& r matches Err((route, relays)) && route == setup.route && relays@ == Seq::<
                        TransportRelayRouteEffect,
                    >::empty()
                } else {
                    exists|answer: Option<RoutedConsumerId>|
                        #![trigger accept.ensures(
                            (&pending.target.session.user, pending.consumer, pending.target.routed),
                            answer,
                        )]
                        accept.ensures(
                            (&pending.target.session.user, pending.consumer, pending.target.routed),
                            answer,
                        ) && setup_outcome(
                            t,
                            setup,
                            selection,
                            answer,
                            final(self)@,
                            r,
                        )
                }
            }),
    {
        let ghost t = old(self)@;
        let DeclaredConsumerSetup { pending, route, mid } = setup;
        let PendingConsumerSetup { target, consumer, reservation, sender, rtp, relays: _ } =
            pending;
        let active = selection.delivery_active();
        let declared_active = reservation.declared_activity().is_active();
        let committed_mid = match mid {
            Some(mid) => mid,
            None => match &rtp.mid {
                Some(mid) => mid.clone(),
                None => consumer.to_text(),
            },
        };
        let receiver = &target.session.user;
        let routed = target.routed;
        let accepting = move || -> (answer: Option<RoutedConsumerId>)
            requires
                accept.requires((receiver, consumer, routed)),
            ensures
                accept.ensures((receiver, consumer, routed), answer),
            { accept(receiver, consumer, routed) };
        let result = self.route_graph.commit(
            reservation,
            route.clone(),
            committed_mid,
            selection,
            accepting,
        );
        proof {
            assert forall|l: SubscriptionIdentity|
                (#[trigger] attachment(
                    self.route_graph@.subscriptions,
                    l,
                )) is Some implies attachment(t.graph.subscriptions, l) is Some && attachment(
                t.graph.subscriptions,
                l,
            )->0.source_id == attachment(self.route_graph@.subscriptions, l)->0.source_id by {
            }
            assert(committed_mid@ == setup_mid(setup));
        }
        match result {
            Err(relays) => Err((route, relays)),
            Ok(()) => {
                self.invalidate_video_allocation();
                Ok(
                    CommittedConsumerSetup {
                        target,
                        route,
                        sender,
                        transport_activity_update: if active != declared_active {
                            Some(active)
                        } else {
                            None
                        },
                    },
                )
            },
        }
    }

    /// Merges sparse intent, and brings an attached route to the activity it asks
    /// for.
    ///
    /// An empty update does nothing. Intent stays where there is no publication and
    /// where the receiver is not ready; there is then no activity work, nor for an
    /// update of the layout alone or of a displaced connection.
    pub fn apply_subscription_intent(
        &mut self,
        key: &SubscriptionKey,
        connection_id: ConnectionId,
        intent: SourceSubscriptionIntent,
        receiver_deafened: bool,
    ) -> (r: Option<ConsumerActivityCommit>)
        requires
            old(self).wf(),
        ensures
            final(self).wf(),
            final(self)@ == with_intent(
                old(self)@,
                key.id(),
                connection_id,
                intent,
                receiver_deafened,
            ),
            match r {
                None => !intent_acts(old(self)@, key.id(), connection_id, intent),
                Some(commit) => {
                    &&& intent_acts(old(self)@, key.id(), connection_id, intent)
                    &&& commit.relay_effects@ == intent_relays(old(self)@, key.id(), intent)
                    &&& commit.update == route_activity(final(self)@, *key)
                },
            },
    {
        let ghost t = old(self)@;
        if intent.is_empty() {
            return None;
        }
        self.route_graph.merge_intent(key, intent);
        proof {
            assert forall|l: SubscriptionIdentity|
                (#[trigger] attachment(
                    self.route_graph@.subscriptions,
                    l,
                )) is Some implies attachment(t.graph.subscriptions, l) is Some && attachment(
                t.graph.subscriptions,
                l,
            )->0.source_id == attachment(self.route_graph@.subscriptions, l)->0.source_id by {
                let before = attachment(t.graph.subscriptions, l);
            }
        }
        self.invalidate_video_allocation();
        let ghost merged = self@;
        let active = match intent.active() {
            None => {
                return None;
            },
            Some(active) => active,
        };
        let source_id = match self.source_id_for_owner_stream(&key.publisher, &key.stream) {
            None => {
                return None;
            },
            Some(source_id) => source_id,
        };
        let audio = match self.source_descriptor(source_id) {
            Some(source) => source.media_kind == MediaKind::Audio,
            None => false,
        };
        let reason = if active && receiver_deafened && audio {
            Some(PolicyPauseReason::ReceiverDeafened)
        } else {
            None
        };
        let relay_effects = match self.route_graph.set_activity(
            key,
            source_id,
            connection_id,
            active,
            reason,
        ) {
            None => {
                return None;
            },
            Some(effects) => effects,
        };
        proof {
            assert forall|l: SubscriptionIdentity|
                (#[trigger] attachment(
                    self.route_graph@.subscriptions,
                    l,
                )) is Some implies attachment(merged.graph.subscriptions, l) is Some && attachment(
                merged.graph.subscriptions,
                l,
            )->0.source_id == attachment(self.route_graph@.subscriptions, l)->0.source_id by {
                let before = attachment(merged.graph.subscriptions, l);
            }
        }
        let update = match self.committed_consumer_route_for_key(key) {
            None => None,
            Some(view) => Some(
                ReceiverRouteActivity::new(view.target(), view.selection.delivery_active()),
            ),
        };
        Some(ConsumerActivityCommit { update, relay_effects })
    }

    /// Adds the receivers of the committed routes of a publication.
    fn add_routed_receivers(
        &self,
        source_id: PublishedSourceId,
        receivers: &mut OrdMap<UserId, ()>,
    )
        requires
            self.wf(),
            old(receivers).wf(),
        ensures
            final(receivers).wf(),
            forall|user: UserIdentity| #[trigger]
                final(receivers)@.contains_key(user) <==> old(receivers)@.contains_key(user)
                    || receives(self@.graph.subscriptions, source_id.0, user),
    {
        let keys = self.route_graph.source_subscriptions(source_id);
        let ghost ids = ids_of(keys@);
        let ghost start = receivers@;
        let ghost subs = self@.graph.subscriptions;
        let mut i: usize = 0;
        while i < keys.len()
            invariant
                self.wf(),
                i <= keys@.len(),
                ids == ids_of(keys@),
                subs == self@.graph.subscriptions,
                lists(ids, attached_keys(subs, source_id)),
                receivers.wf(),
                forall|user: UserIdentity| #[trigger]
                    receivers@.contains_key(user) <==> start.contains_key(user) || exists|j: int|
                        0 <= j < i && record(subs, #[trigger] ids[j]).routed() && ids[j].receiver
                            == user,
            decreases keys@.len() - i,
        {
            let key = &keys[i];
            let ghost before = receivers@;
            let routed = match self.route_graph.current(key) {
                Some(current) => current.committed().is_some(),
                None => false,
            };
            if routed {
                receivers.insert(key.receiver.clone(), ());
            }
            proof {
                assert(routed == record(subs, ids[i as int]).routed());
                assert forall|user: UserIdentity| #[trigger]
                    receivers@.contains_key(user) <==> start.contains_key(user) || exists|j: int|
                    0 <= j < i + 1 && record(subs, #[trigger] ids[j]).routed() && ids[j].receiver
                        == user by {
                    if before.contains_key(user) && !start.contains_key(user) {
                        let j = choose|j: int|
                            0 <= j < i && record(subs, #[trigger] ids[j]).routed()
                                && ids[j].receiver == user;
                        assert(record(subs, ids[j]).routed());
                    }
                    if routed && user == key.receiver.id() {
                        assert(record(subs, ids[i as int]).routed() && ids[i as int].receiver
                            == user);
                    }
                }
            }
            i = i + 1;
        }
        proof {
            assert forall|user: UserIdentity| #[trigger]
                receivers@.contains_key(user) <==> start.contains_key(user) || receives(
                subs,
                source_id.0,
                user,
            ) by {
                if receives(subs, source_id.0, user) {
                    let k = choose|k: SubscriptionIdentity|
                        attached_to(subs, k, source_id) && #[trigger] record(subs, k).routed()
                            && k.receiver == user;
                    assert(attached_keys(subs, source_id).contains(k));
                    assert(ids.contains(k));
                    let j = ids.index_of(k);
                    assert(record(subs, ids[j]).routed() && ids[j].receiver == user);
                }
                if receivers@.contains_key(user) && !start.contains_key(user) {
                    let j = choose|j: int|
                        0 <= j < i && record(subs, #[trigger] ids[j]).routed() && ids[j].receiver
                            == user;
                    assert(ids.contains(ids[j]));
                    assert(attached_to(subs, ids[j], source_id) && record(subs, ids[j]).routed());
                }
            }
        }
    }

    /// Users with a committed route of a publication, in order.
    pub fn committed_consumer_user_ids_for_source(&self, source_id: PublishedSourceId) -> (r: Vec<
        UserId,
    >)
        requires
            self.wf(),
        ensures
            enumerates::<UserId>(
                user_identities(r@),
                receivers_of(self@.graph.subscriptions, source_id.0),
            ),
    {
        let mut receivers: OrdMap<UserId, ()> = OrdMap::new();
        self.add_routed_receivers(source_id, &mut receivers);
        let r = receivers.to_keys();
        proof {
            receivers.lemma_contents();
            assert(user_identities(r@) =~= receivers.ids());
        }
        r
    }

    /// Users with a committed route of any publication of a user, in order.
    pub fn committed_consumer_user_ids_for_owner_sources(&self, user_id: &UserId) -> (r: Vec<
        UserId,
    >)
        requires
            self.wf(),
        ensures
            enumerates::<UserId>(user_identities(r@), audience_of(self@, user_id.id())),
    {
        let mut receivers: OrdMap<UserId, ()> = OrdMap::new();
        let owned = self.sources.ids_for_owner(user_id);
        let ghost ids = raw_ids(owned@);
        let ghost subs = self@.graph.subscriptions;
        let mut i: usize = 0;
        while i < owned.len()
            invariant
                self.wf(),
                i <= owned@.len(),
                ids == raw_ids(owned@),
                subs == self@.graph.subscriptions,
                receivers.wf(),
                forall|user: UserIdentity| #[trigger]
                    receivers@.contains_key(user) <==> exists|j: int|
                        0 <= j < i && receives(subs, #[trigger] ids[j], user),
            decreases owned@.len() - i,
        {
            let ghost before = receivers@;
            self.add_routed_receivers(owned[i], &mut receivers);
            proof {
                assert forall|user: UserIdentity| #[trigger]
                    receivers@.contains_key(user) <==> exists|j: int|
                    0 <= j < i + 1 && receives(subs, #[trigger] ids[j], user) by {
                    if before.contains_key(user) {
                        let j = choose|j: int| 0 <= j < i && receives(subs, #[trigger] ids[j], user);
                        assert(receives(subs, ids[j], user));
                    }
                    if receives(subs, owned@[i as int].0, user) {
                        assert(receives(subs, ids[i as int], user));
                    }
                }
            }
            i = i + 1;
        }
        let r = receivers.to_keys();
        proof {
            receivers.lemma_contents();
            assert(user_identities(r@) =~= receivers.ids());
            let members = audience_of(self@, user_id.id());
            assert forall|user: UserIdentity| receivers@.contains_key(user)
                <==> #[trigger] members.contains(user) by {
                if receivers@.contains_key(user) {
                    let j = choose|j: int| 0 <= j < i && receives(subs, #[trigger] ids[j], user);
                    assert(ids.contains(ids[j]));
                    assert(owned_ids(self@.sources, user_id.id()).contains(ids[j]) && receives(
                        subs,
                        ids[j],
                        user,
                    ));
                }
                if members.contains(user) {
                    let id = choose|id: u64|
                        owned_ids(self@.sources, user_id.id()).contains(id) && #[trigger] receives(
                            subs,
                            id,
                            user,
                        );
                    assert(ids.contains(id));
                    assert(receives(subs, ids[ids.index_of(id)], user));
                }
            }
        }
        r
    }

    /// Number of users with an active publication of each stream.
    pub fn active_stream_user_counts(&self) -> (r: OrdMap<UserStreamId, u64>)
        requires
            self.wf(),
        ensures
            r.wf(),
            counts_users(self@.sources, r@),
    {
        let ghost sources = self@.sources;
        let ghost order = source_order(sources);
        let mut built: OrdMap<UserStreamId, OrdMap<UserId, ()>> = OrdMap::new();
        let mut i: usize = 0;
        let count: usize = self.sources.publication_count();
        while i < count
            invariant
                self.wf(),
                sources == self@.sources,
                order == source_order(sources),
                count == order.len(),
                i <= count,
                built.wf(),
                forall|stream: Seq<char>| #[trigger]
                    built@.contains_key(stream) ==> built@[stream].wf(),
                counts_publishers(built@, sources, order.take(i as int)),
            decreases count - i,
        {
            let source = self.sources.at(i);
            let ghost before = built@;
            proof {
                lemma_take_ids(order, i as int);
            }
            if source.active {
                match built.get_mut(&source.descriptor.stream_id) {
                    Some(users) => {
                        users.insert(source.descriptor.owner.clone(), ());
                    },
                    None => {
                        let mut users: OrdMap<UserId, ()> = OrdMap::new();
                        users.insert(source.descriptor.owner.clone(), ());
                        built.insert(source.descriptor.stream_id.clone(), users);
                    },
                }
            }
            proof {
                let some = order.take(i as int);
                let more = order.take(i + 1);
                assert forall|stream: Seq<char>, user: UserIdentity|
                    #![trigger active_among(sources, more, stream, user)]
                    counted(built@, stream, user) <==> active_among(
                        sources,
                        more,
                        stream,
                        user,
                    ) by {
                    lemma_active_among(sources, some, order[i as int], stream, user);
                    assert(counted(before, stream, user) <==> active_among(
                        sources,
                        some,
                        stream,
                        user,
                    ));
                }
                assert forall|stream: Seq<char>| #[trigger]
                    built@.contains_key(stream) implies exists|user: UserIdentity| #[trigger]
                    built@[stream]@.contains_key(user) by {
                    if before.contains_key(stream) {
                        let user = choose|user: UserIdentity| #[trigger]
                            before[stream]@.contains_key(user);
                        assert(built@[stream]@.contains_key(user));
                    } else {
                        assert(built@[stream]@.contains_key(source.descriptor.owner.id()));
                    }
                }
            }
            i = i + 1;
        }
        proof {
            assert(order.take(count as int) =~= order);
            self.lemma_order_complete();
            assert forall|stream: Seq<char>, user: UserIdentity|
                #![trigger publishes_actively(sources, stream, user)]
                counted(built@, stream, user) <==> publishes_actively(
                    sources,
                    stream,
                    user,
                ) by {
                assert(counted(built@, stream, user) <==> active_among(
                    sources,
                    order,
                    stream,
                    user,
                ));
                if publishes_actively(sources, stream, user) {
                    let id = choose|id: u64| active_source(sources, id, stream, user);
                    assert(order.contains(id));
                    assert(active_source(sources, order[order.index_of(id)], stream, user));
                }
                if active_among(sources, order, stream, user) {
                    let j = choose|j: int|
                        0 <= j < order.len() && #[trigger] active_source(
                            sources,
                            order[j],
                            stream,
                            user,
                        );
                    assert(active_source(sources, order[j], stream, user));
                }
            }
        }
        let mut r: OrdMap<UserStreamId, u64> = OrdMap::new();
        let mut n: usize = 0;
        let streams: usize = built.len();
        let ghost names = built.ids();
        proof {
            built.lemma_contents();
        }
        while n < streams
            invariant
                built.wf(),
                names == built.ids(),
                streams == names.len(),
                n <= streams,
                forall|stream: Seq<char>| #[trigger]
                    built@.contains_key(stream) ==> built@[stream].wf(),
                r.wf(),
                forall|stream: Seq<char>| #[trigger]
                    r@.contains_key(stream) <==> exists|j: int|
                        0 <= j < n && #[trigger] names[j] == stream,
                forall|stream: Seq<char>| #[trigger]
                    r@.contains_key(stream) ==> built@.contains_key(stream) && r@[stream]
                        == built@[stream].ids().len(),
            decreases streams - n,
        {
            let ghost before = r@;
            let users = built.value(n);
            r.insert(built.key(n).clone(), users.len() as u64);
            proof {
                assert forall|stream: Seq<char>| #[trigger]
                    r@.contains_key(stream) <==> exists|j: int|
                    0 <= j < n + 1 && #[trigger] names[j] == stream by {
                    if before.contains_key(stream) {
                        let j = choose|j: int| 0 <= j < n && #[trigger] names[j] == stream;
                        assert(names[j] == stream);
                    }
                    if stream == names[n as int] {
                        assert(names[n as int] == stream);
                    }
                }
            }
            n = n + 1;
        }
        proof {
            built.lemma_contents();
            assert forall|stream: Seq<char>| #[trigger] r@.contains_key(stream) <==> exists|
                user: UserIdentity,
            | publishes_actively(sources, stream, user) by {
                if r@.contains_key(stream) {
                    assert(built@.contains_key(stream));
                    let user = choose|user: UserIdentity| #[trigger]
                        built@[stream]@.contains_key(user);
                    assert(counted(built@, stream, user));
                    assert(publishes_actively(sources, stream, user));
                }
                if exists|user: UserIdentity| publishes_actively(sources, stream, user) {
                    let user = choose|user: UserIdentity| publishes_actively(sources, stream, user);
                    assert(counted(built@, stream, user));
                    assert(names.contains(stream));
                    assert(names[names.index_of(stream)] == stream);
                }
            }
            assert forall|stream: Seq<char>| #[trigger] r@.contains_key(stream) implies r@[stream]
                == sorted::<UserId>(active_publishers(sources, stream)).len() by {
                let users = built@[stream];
                users.lemma_contents();
                assert(users@.dom() =~= active_publishers(sources, stream)) by {
                    assert forall|user: UserIdentity| users@.contains_key(user)
                        <==> #[trigger] active_publishers(sources, stream).contains(user) by {
                        assert(counted(built@, stream, user) <==> publishes_actively(
                            sources,
                            stream,
                            user,
                        ));
                    }
                }
            }
        }
        r
    }

    proof fn lemma_order_complete(&self)
        requires
            self.wf(),
        ensures
            forall|id: u64| #[trigger]
                self@.sources.contains_key(id) <==> source_order(self@.sources).contains(id),
    {
        self.sources.lemma_order();
    }
}

/// Identities of users.
pub open spec fn user_identities(users: Seq<UserId>) -> Seq<UserIdentity> {
    users.map_values(|user: UserId| user.id())
}

/// The user has a committed route of this publication.
pub open spec fn receives(subs: Subscriptions, id: u64, user: UserIdentity) -> bool {
    exists|k: SubscriptionIdentity|
        attached_to(subs, k, PublishedSourceId(id)) && #[trigger] record(subs, k).routed()
            && k.receiver == user
}

pub open spec fn receivers_of(subs: Subscriptions, id: u64) -> Set<UserIdentity> {
    Set::new(|user: UserIdentity| receives(subs, id, user))
}

/// Users with a committed route of some publication of a user.
pub open spec fn audience_of(t: Topology, owner: UserIdentity) -> Set<UserIdentity> {
    Set::new(
        |user: UserIdentity|
            exists|id: u64|
                owned_ids(t.sources, owner).contains(id) && #[trigger] receives(
                    t.graph.subscriptions,
                    id,
                    user,
                ),
    )
}

/// The user's publication of the stream, while it is active.
pub open spec fn active_source(
    sources: Sources,
    id: u64,
    stream: Seq<char>,
    user: UserIdentity,
) -> bool {
    &&& sources.contains_key(id)
    &&& sources[id].active
    &&& sources[id].stream() == (OwnerStream { owner: user, stream })
}

pub open spec fn publishes_actively(
    sources: Sources,
    stream: Seq<char>,
    user: UserIdentity,
) -> bool {
    exists|id: u64| active_source(sources, id, stream, user)
}

/// Users with an active publication of the stream.
pub open spec fn active_publishers(sources: Sources, stream: Seq<char>) -> Set<UserIdentity> {
    Set::new(|user: UserIdentity| publishes_actively(sources, stream, user))
}

/// Each stream that is published actively has the number of users who do so, and no
/// other stream has an entry.
pub open spec fn counts_users(sources: Sources, counts: Map<Seq<char>, u64>) -> bool {
    &&& forall|stream: Seq<char>| #[trigger]
        counts.contains_key(stream) <==> exists|user: UserIdentity|
            publishes_actively(sources, stream, user)
    &&& forall|stream: Seq<char>| #[trigger]
        counts.contains_key(stream) ==> counts[stream] == sorted::<UserId>(
            active_publishers(sources, stream),
        ).len()
}

spec fn active_among(
    sources: Sources,
    ids: Seq<u64>,
    stream: Seq<char>,
    user: UserIdentity,
) -> bool {
    exists|j: int| 0 <= j < ids.len() && #[trigger] active_source(sources, ids[j], stream, user)
}

proof fn lemma_active_among(
    sources: Sources,
    ids: Seq<u64>,
    id: u64,
    stream: Seq<char>,
    user: UserIdentity,
)
    ensures
        active_among(sources, ids.push(id), stream, user) <==> active_among(
            sources,
            ids,
            stream,
            user,
        ) || active_source(sources, id, stream, user),
{
    let more = ids.push(id);
    if active_among(sources, more, stream, user) {
        let j = choose|j: int|
            0 <= j < more.len() && #[trigger] active_source(sources, more[j], stream, user);
        if j < ids.len() {
            assert(active_source(sources, ids[j], stream, user));
        }
    }
    if active_among(sources, ids, stream, user) {
        let j = choose|j: int|
            0 <= j < ids.len() && #[trigger] active_source(sources, ids[j], stream, user);
        assert(active_source(sources, more[j], stream, user));
    }
    if active_source(sources, id, stream, user) {
        assert(active_source(sources, more[ids.len() as int], stream, user));
    }
}

spec fn counted(
    built: Map<Seq<char>, OrdMap<UserId, ()>>,
    stream: Seq<char>,
    user: UserIdentity,
) -> bool {
    built.contains_key(stream) && built[stream]@.contains_key(user)
}

spec fn counts_publishers(
    built: Map<Seq<char>, OrdMap<UserId, ()>>,
    sources: Sources,
    ids: Seq<u64>,
) -> bool {
    &&& forall|stream: Seq<char>, user: UserIdentity|
        #![trigger active_among(sources, ids, stream, user)]
        #![trigger counted(built, stream, user)]
        counted(built, stream, user) <==> active_among(sources, ids, stream, user)
    &&& forall|stream: Seq<char>| #[trigger]
        built.contains_key(stream) ==> exists|user: UserIdentity| #[trigger]
            built[stream]@.contains_key(user)
}

/// What an intent update asks of the transport.
#[derive(Debug)]
pub struct ConsumerActivityCommit {
    pub update: Option<ReceiverRouteActivity>,
    pub relay_effects: Vec<TransportRelayRouteEffect>,
}

/// The publication of a stream.
pub open spec fn source_of_stream(sources: Sources, owner: UserIdentity, stream: Seq<char>) -> Option<
    PublishedSourceId,
> {
    match published_as(sources, OwnerStream { owner, stream }) {
        Some(id) => Some(PublishedSourceId(id)),
        None => None,
    }
}

/// The publication of a stream, while it is of this connection.
pub open spec fn source_of_connection(
    sources: Sources,
    owner: UserIdentity,
    connection: ConnectionId,
    stream: Seq<char>,
) -> Option<PublishedSourceId> {
    match source_of_stream(sources, owner, stream) {
        Some(id) => if sources[id.0].transport.session.connection == connection {
            Some(id)
        } else {
            None
        },
        None => None,
    }
}

/// A detector whose owner has an active source to promote in its group.
pub open spec fn detects(sources: Sources, id: u64) -> bool {
    match sources[id].descriptor.policy.active_speaker {
        Some(policy) => policy.role == ActiveSpeakerSourceRole::Detector && exists|other: u64|
            #[trigger]
            sources.contains_key(other) && promotable(
                sources[other],
                sources[id].descriptor.owner.id(),
                policy.group,
            ),
        None => false,
    }
}

/// The user who speaks through a medium: the owner of a publication that detects speech.
pub open spec fn speaks_through(
    sources: Sources,
    media: TransportMediaId,
    r: Option<UserId>,
) -> bool {
    match r {
        Some(owner) => exists|id: u64|
            #![trigger first_with_media(sources, media, id)]
            first_with_media(sources, media, id) && sources[id].descriptor.owner == owner
                && detects(sources, id),
        None => forall|id: u64|
            #![trigger first_with_media(sources, media, id)]
            first_with_media(sources, media, id) ==> !detects(sources, id),
    }
}

/// An upgrade can wait on this route: it is the committed one of an active publication that
/// its receiver wants.
pub open spec fn upgradable(
    t: Topology,
    k: SubscriptionIdentity,
    source_id: PublishedSourceId,
    route: TransportConsumerRoute,
) -> bool {
    &&& t.sources.contains_key(source_id.0)
    &&& t.sources[source_id.0].active
    &&& routes(t.graph.subscriptions, k, source_id, route)
    &&& attachment(t.graph.subscriptions, k)->0.selection.active
}

/// The view is that of the committed route of a subscription.
pub open spec fn shows_route(t: Topology, key: SubscriptionKey, view: ConsumerRouteView) -> bool {
    let s = record(t.graph.subscriptions, key.id());
    &&& s.routed()
    &&& *view.key == key
    &&& *view.route == s.current->0.realization->Committed_0.route
    &&& *view.mid == s.current->0.realization->Committed_0.mid
    &&& view.pending_upgrade == s.current->0.realization->Committed_0.pending_upgrade
    &&& view.selection == s.current->0.selection
    &&& t.sources.contains_key(s.current->0.source_id.0)
    &&& *view.source == t.sources[s.current->0.source_id.0]
}

/// The publication can be set up for the session: it is someone else's.
pub open spec fn foreign(source: PublishedSource, session: TransportSessionKey) -> bool {
    source.descriptor.owner.id() != session.user.id()
}

/// The topology once a publication is attached for a session.
pub open spec fn with_target(t: Topology, session: TransportSessionKey, id: u64) -> Topology {
    let source = t.sources[id];
    if foreign(source, session) {
        Topology {
            graph: Graph {
                subscriptions: after_attach(
                    t.graph.subscriptions,
                    ConsumerSetupTarget::of(session, source).subscription(),
                    source.descriptor.source_id,
                ),
                ..t.graph
            },
            ..t
        }
    } else {
        t
    }
}

/// The setup that a publication needs for a session.
pub open spec fn target_for(t: Topology, session: TransportSessionKey, id: u64) -> Option<
    ConsumerSetupTarget,
> {
    let source = t.sources[id];
    let target = ConsumerSetupTarget::of(session, source);
    if foreign(source, session) && attaches(
        t.graph.subscriptions,
        target.subscription(),
        source.descriptor.source_id,
    ) {
        Some(target)
    } else {
        None
    }
}

pub open spec fn with_targets(t: Topology, session: TransportSessionKey, ids: Seq<u64>) -> Topology
    decreases ids.len(),
{
    if ids.len() == 0 {
        t
    } else {
        with_target(with_targets(t, session, ids.drop_last()), session, ids.last())
    }
}

pub open spec fn targets_for(t: Topology, session: TransportSessionKey, ids: Seq<u64>) -> Seq<
    ConsumerSetupTarget,
>
    decreases ids.len(),
{
    if ids.len() == 0 {
        seq![]
    } else {
        let before = targets_for(t, session, ids.drop_last());
        match target_for(with_targets(t, session, ids.drop_last()), session, ids.last()) {
            Some(target) => before.push(target),
            None => before,
        }
    }
}

proof fn lemma_with_targets(t: Topology, session: TransportSessionKey, ids: Seq<u64>)
    ensures
        with_targets(t, session, ids).sources == t.sources,
        with_targets(t, session, ids).placements == t.placements,
    decreases ids.len(),
{
    if ids.len() > 0 {
        lemma_with_targets(t, session, ids.drop_last());
    }
}

/// Attaching publications gives at most one setup each, and no reservation.
pub proof fn lemma_targets(t: Topology, session: TransportSessionKey, ids: Seq<u64>)
    ensures
        targets_for(t, session, ids).len() <= ids.len(),
        with_targets(t, session, ids).graph.reservations == t.graph.reservations,
        with_targets(t, session, ids).placements == t.placements,
    decreases ids.len(),
{
    if ids.len() > 0 {
        lemma_targets(t, session, ids.drop_last());
    }
}

/// A filter picks at most all.
pub proof fn lemma_picked_len(sources: Sources, ids: Seq<u64>, owner: Option<UserIdentity>)
    ensures
        picked(sources, ids, owner).len() <= ids.len(),
    decreases ids.len(),
{
    if ids.len() > 0 {
        lemma_picked_len(sources, ids.drop_last(), owner);
    }
}

pub open spec fn filter_of(source_user: Option<&UserId>) -> Option<UserIdentity> {
    match source_user {
        Some(user) => Some(user.id()),
        None => None,
    }
}

/// The publications among `ids` that are of the wanted user.
pub open spec fn picked(sources: Sources, ids: Seq<u64>, owner: Option<UserIdentity>) -> Seq<u64>
    decreases ids.len(),
{
    if ids.len() == 0 {
        seq![]
    } else {
        let before = picked(sources, ids.drop_last(), owner);
        if owner is None || sources[ids.last()].descriptor.owner.id() == owner->0 {
            before.push(ids.last())
        } else {
            before
        }
    }
}

/// All publications, or those of one user, in order.
pub open spec fn considered(sources: Sources, owner: Option<UserIdentity>) -> Seq<u64> {
    picked(sources, source_order(sources), owner)
}

pub open spec fn with_receivers(
    t: Topology,
    id: u64,
    receivers: Seq<(UserId, ConnectionId)>,
) -> Topology
    decreases receivers.len(),
{
    if receivers.len() == 0 {
        t
    } else {
        let before = with_receivers(t, id, receivers.drop_last());
        match before.session(receivers.last().0, receivers.last().1) {
            Some(session) => with_target(before, session, id),
            None => before,
        }
    }
}

pub open spec fn receiver_targets(
    t: Topology,
    id: u64,
    receivers: Seq<(UserId, ConnectionId)>,
) -> Seq<ConsumerSetupTarget>
    decreases receivers.len(),
{
    if receivers.len() == 0 {
        seq![]
    } else {
        let before = with_receivers(t, id, receivers.drop_last());
        let targets = receiver_targets(t, id, receivers.drop_last());
        match before.session(receivers.last().0, receivers.last().1) {
            Some(session) => match target_for(before, session, id) {
                Some(target) => targets.push(target),
                None => targets,
            },
            None => targets,
        }
    }
}

proof fn lemma_with_receivers(t: Topology, id: u64, receivers: Seq<(UserId, ConnectionId)>)
    ensures
        with_receivers(t, id, receivers).sources == t.sources,
        with_receivers(t, id, receivers).placements == t.placements,
    decreases receivers.len(),
{
    if receivers.len() > 0 {
        lemma_with_receivers(t, id, receivers.drop_last());
    }
}

/// Whether setting the activity changes anything.
pub open spec fn switches(
    sources: Sources,
    id: u64,
    connection: ConnectionId,
    active: bool,
) -> bool {
    &&& sources.contains_key(id)
    &&& sources[id].transport.session.connection == connection
    &&& sources[id].active != active
}

/// The topology once the activity of a publication changed.
pub open spec fn switched_topology(t: Topology, id: PublishedSourceId, active: bool) -> Topology {
    Topology {
        sources: t.sources.insert(id.0, t.sources[id.0].switched(active)),
        graph: if active {
            t.graph
        } else {
            Graph {
                subscriptions: upgrades_cleared(
                    t.graph.subscriptions,
                    attached_keys(t.graph.subscriptions, id),
                ),
                ..t.graph
            }
        },
        ..t
    }.advanced(1)
}

pub open spec fn activity_announcements(
    source: TransportSourceKey,
    update: SourceActivityUpdate,
    workers: Seq<MediaWorkerId>,
) -> Seq<TransportSourceActivityEffect> {
    workers.map_values(
        |worker: MediaWorkerId|
            TransportSourceActivityEffect { source, target_media_worker_id: worker, update },
    )
}

/// One announcement per worker that the publication is relayed to, by worker.
pub open spec fn announces(
    g: Graph,
    source: TransportSourceKey,
    update: SourceActivityUpdate,
    effects: Seq<TransportSourceActivityEffect>,
) -> bool {
    exists|workers: Seq<MediaWorkerId>|
        #![trigger relayed_to(g.relays, source.id(), workers)]
        relayed_to(g.relays, source.id(), workers) && effects == activity_announcements(
            source,
            update,
            workers,
        )
}

/// The topology once ids were given to a publication.
pub open spec fn described(t: Topology, rtp: RtpStream) -> Topology {
    Topology {
        next_source: (t.next_source + 1) as u64,
        next_encoding: (t.next_encoding + rtp.bindings@.len()) as u64,
        ..t
    }
}

/// What the router's answer makes of a publication.
pub open spec fn publication_outcome(
    t: Topology,
    publish: ValidatedPublish,
    rtp: RtpStream,
    media: TransportMediaId,
    descriptor: PublishedSourceDescriptor,
    answer: Result<RoutedProducerId, RouterError>,
    after: Topology,
    r: Result<PublishedSourceId, PublicationCommitError>,
) -> bool {
    let asked = Topology {
        next_producer: (t.next_producer + 1) as u64,
        ..described(t, rtp)
    };
    match answer {
        Err(error) => r == Err::<PublishedSourceId, _>(PublicationCommitError::Router(error))
            && after == asked,
        Ok(routed) => {
            &&& r == Ok::<_, PublicationCommitError>(PublishedSourceId(t.next_source))
            &&& after == (Topology {
                sources: t.sources.insert(
                    t.next_source,
                    PublishedSource {
                        descriptor,
                        transport: TransportSourceKey { session: publish.session_key, media },
                        rtp,
                        routed,
                        active: true,
                        activity_revision: SourceActivityRevision(0),
                    },
                ),
                ..asked
            })
        },
    }
}

/// Receiver and publication are on different workers.
pub open spec fn crosses_workers(target: ConsumerSetupTarget) -> bool {
    target.source.session.worker != target.session.worker
}

/// The relay that a setup needs follows the receiver's intent, whatever policy says.
pub open spec fn setup_share(
    target: ConsumerSetupTarget,
    selection: ConsumerSourceSelection,
) -> crate::relay::RouteRelay {
    relay_share(target.source, target.session.worker, selection.active)
}

/// The graph once a setup is reserved.
pub open spec fn with_setup(
    g: Graph,
    target: ConsumerSetupTarget,
    selection: ConsumerSourceSelection,
) -> Graph {
    let k = target.subscription();
    let reserved = after_reserve(g, k, selection);
    if crosses_workers(target) {
        let share = setup_share(target, selection);
        Graph {
            subscriptions: crate::route_graph::with_realization(
                reserved.subscriptions,
                k,
                ConsumerRealization::Pending(reserved.reservations, Some(share)),
            ),
            relays: crate::relay::with_owner(g.relays, k, share),
            ..reserved
        }
    } else {
        reserved
    }
}

pub open spec fn setup_relays(
    g: Graph,
    target: ConsumerSetupTarget,
    selection: ConsumerSourceSelection,
) -> Seq<TransportRelayRouteEffect> {
    if crosses_workers(target) {
        crate::relay::with_owner_effects(
            g.relays,
            target.subscription(),
            setup_share(target, selection),
        )
    } else {
        seq![]
    }
}

pub open spec fn with_released_setup(t: Topology, setup: PendingConsumerSetup) -> Topology {
    if live(t.graph.subscriptions, setup.reservation) {
        Topology { graph: after_release(t.graph, setup.reservation.key_id()), ..t }
    } else {
        t
    }
}

pub open spec fn released_setup_relays(t: Topology, setup: PendingConsumerSetup) -> Seq<
    TransportRelayRouteEffect,
> {
    if live(t.graph.subscriptions, setup.reservation) {
        release_effects(t.graph, setup.reservation.key_id())
    } else {
        seq![]
    }
}

/// The MID of a committed setup: that of the transport, else the negotiated one, else
/// the name of the consumer.
pub open spec fn setup_mid(setup: DeclaredConsumerSetup) -> Seq<char> {
    match (setup.mid, setup.pending.rtp.mid) {
        (Some(mid), _) => mid@,
        (None, Some(mid)) => mid@,
        (None, None) => setup.pending.consumer.text(),
    }
}

/// What the router's answer makes of a declared setup that is still awaited.
pub open spec fn setup_outcome(
    t: Topology,
    setup: DeclaredConsumerSetup,
    selection: ConsumerSourceSelection,
    answer: Option<RoutedConsumerId>,
    after: Topology,
    r: Result<CommittedConsumerSetup, (TransportConsumerRoute, Vec<TransportRelayRouteEffect>)>,
) -> bool {
    let k = setup.pending.reservation.key_id();
    match answer {
        None => {
            &&& after == (Topology { graph: after_release(t.graph, k), ..t })
            &&& r matches Err((route, relays)) && route == setup.route && relays@
                == release_effects(t.graph, k)
        },
        Some(routed) => {
            &&& r == Ok::<_, (TransportConsumerRoute, Vec<TransportRelayRouteEffect>)>(
                CommittedConsumerSetup {
                    target: setup.pending.target,
                    route: setup.route,
                    sender: setup.pending.sender,
                    transport_activity_update: correction(setup.pending, selection),
                },
            )
            &&& exists|mid: String|
                #![trigger mid@]
                mid@ == setup_mid(setup) && after == (Topology {
                    graph: after_commit(t.graph, k, setup.route, mid, selection, routed),
                    ..t
                }).advanced(1)
        },
    }
}

/// The delivery to correct, where the transport declared another one.
pub open spec fn correction(
    pending: PendingConsumerSetup,
    selection: ConsumerSourceSelection,
) -> Option<bool> {
    if ConsumerActivity::of(selection.delivers()) != pending.reservation.activity() {
        Some(selection.delivers())
    } else {
        None
    }
}

/// The topology with intent merged, before it acts on a route.
pub open spec fn intent_known(
    t: Topology,
    k: SubscriptionIdentity,
    intent: SourceSubscriptionIntent,
) -> Topology {
    Topology {
        graph: Graph {
            subscriptions: intent_merged(t.graph.subscriptions, k, intent),
            ..t.graph
        },
        ..t
    }.advanced(1)
}

/// Whether an intent update acts on an attached route.
pub open spec fn intent_acts(
    t: Topology,
    k: SubscriptionIdentity,
    connection: ConnectionId,
    intent: SourceSubscriptionIntent,
) -> bool {
    let known = intent_known(t, k, intent);
    &&& intent.active is Some
    &&& source_of_stream(t.sources, k.publisher, k.stream) is Some
    &&& activity_applies(
        known.graph.subscriptions,
        k,
        source_of_stream(t.sources, k.publisher, k.stream)->0,
        connection,
    )
}

/// Audio that a deaf receiver asks for is withheld, and still asked for.
pub open spec fn deafened_reason(
    t: Topology,
    k: SubscriptionIdentity,
    intent: SourceSubscriptionIntent,
    receiver_deafened: bool,
) -> Option<PolicyPauseReason> {
    let source = source_of_stream(t.sources, k.publisher, k.stream)->0;
    if intent.active == Some(true) && receiver_deafened
        && t.sources[source.0].descriptor.media_kind == MediaKind::Audio {
        Some(PolicyPauseReason::ReceiverDeafened)
    } else {
        None
    }
}

/// The topology after an intent update.
pub open spec fn with_intent(
    t: Topology,
    k: SubscriptionIdentity,
    connection: ConnectionId,
    intent: SourceSubscriptionIntent,
    receiver_deafened: bool,
) -> Topology {
    let known = intent_known(t, k, intent);
    if intent == SourceSubscriptionIntent::nothing() {
        t
    } else if intent_acts(t, k, connection, intent) {
        Topology {
            graph: after_activity(
                known.graph,
                k,
                intent.active->0,
                deafened_reason(t, k, intent, receiver_deafened),
            ),
            ..known
        }
    } else {
        known
    }
}

pub open spec fn intent_relays(
    t: Topology,
    k: SubscriptionIdentity,
    intent: SourceSubscriptionIntent,
) -> Seq<TransportRelayRouteEffect> {
    activity_effects(intent_known(t, k, intent).graph, k, intent.active->0)
}

/// The activity of the committed route of a subscription.
pub open spec fn route_activity(t: Topology, key: SubscriptionKey) -> Option<
    ReceiverRouteActivity,
> {
    let s = record(t.graph.subscriptions, key.id());
    if s.routed() {
        Some(
            ReceiverRouteActivity {
                target: ConsumerRouteTarget {
                    transport_route: s.current->0.realization->Committed_0.route,
                    stream_id: key.stream,
                    kind: t.sources[s.current->0.source_id.0].descriptor.media_kind,
                },
                active: s.current->0.selection.delivers(),
            },
        )
    } else {
        None
    }
}

/// What the router's answer makes of a placement.
pub open spec fn placement_outcome(
    t: Topology,
    user: UserId,
    connection: ConnectionId,
    displaced: Option<TransportSessionKey>,
    answer: Result<MediaWorkerId, RouterError>,
    after: Topology,
    r: Result<SessionPlacementCommit, SessionPlacementRejection>,
) -> bool {
    match answer {
        Err(error) => r == Err::<SessionPlacementCommit, _>(
            SessionPlacementRejection::Router(error),
        ) && after == t,
        Ok(worker) => {
            let placed = Topology {
                placements: t.placements.insert(user.id(), SessionPlacement { connection, worker }),
                ..t
            };
            &&& r is Ok
            &&& r->Ok_0.receipt.transport_session_key == (TransportSessionKey {
                room: t.instance,
                worker,
                connection,
                user,
            })
            &&& match displaced {
                None => after == placed && r->Ok_0.replacement_transport_plan.only(seq![], seq![]),
                Some(session_key) => {
                    let relays = departure_relays(t, user.id());
                    &&& after == with_replaced_session(placed, user.id())
                    &&& r->Ok_0.replacement_transport_plan.only(
                        kept_relays(relays),
                        relay_teardown(relays) + media_removals(
                            seq![],
                            lost_routes(t.graph, owned_order(t.sources, user.id())),
                        ).push(TransportTeardown::CloseSession { session_key }),
                    )
                },
            }
        },
    }
}

proof fn lemma_take_ids(ids: Seq<u64>, i: int)
    requires
        0 <= i < ids.len(),
    ensures
        ids.take(i + 1) == ids.take(i).push(ids[i]),
        ids.take(i + 1).drop_last() == ids.take(i),
        ids.take(i + 1).last() == ids[i],
        forall|id: u64| #[trigger]
            ids.take(i + 1).to_set().contains(id) <==> ids.take(i).to_set().contains(id) || id
                == ids[i],
{
    let more = ids.take(i + 1);
    let some = ids.take(i);
    assert(more =~= some.push(ids[i]));
    assert(more.drop_last() =~= some);
    assert forall|id: u64| #[trigger] more.to_set().contains(id) <==> some.to_set().contains(id)
        || id == ids[i] by {
        if more.contains(id) {
            let j = more.index_of(id);
            if j < i {
                assert(some[j] == id);
            }
        }
        if some.contains(id) {
            let j = some.index_of(id);
            assert(more[j] == id);
        }
        if id == ids[i] {
            assert(more[i] == id);
        }
    }
}

/// Revisions advance step by step.
pub proof fn lemma_advance(revision: u64, m: nat, n: nat)
    ensures
        advance(advance(revision, m), n) == advance(revision, m + n),
    decreases n,
{
    if n > 0 {
        lemma_advance(revision, m, (n - 1) as nat);
    }
}

} // verus!
