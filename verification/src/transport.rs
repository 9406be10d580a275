//! Transport identities and the effects a room asks of its media transport.

use vstd::prelude::*;

use crate::ids::{
    same, ConnectionId, MediaWorkerId, RoomInstanceId, TransportMediaId, UserId, UserIdentity,
    UserStreamId,
};
use crate::order::{
    lemma_text_irreflexive, lemma_text_total, lemma_text_transitive, order_u64, text_before,
    OrdKey, Order,
};

verus! {

/// A user connection placed on a media worker.
#[derive(Debug, PartialEq, Eq)]
pub struct TransportSessionKey {
    pub room: RoomInstanceId,
    pub worker: MediaWorkerId,
    pub connection: ConnectionId,
    pub user: UserId,
}

/// What distinguishes one transport session from another.
pub struct SessionIdentity {
    pub room: RoomInstanceId,
    pub worker: MediaWorkerId,
    pub connection: ConnectionId,
    pub user: UserIdentity,
}

impl Clone for TransportSessionKey {
    fn clone(&self) -> (r: Self)
        ensures
            r == *self,
    {
        TransportSessionKey {
            room: self.room,
            worker: self.worker,
            connection: self.connection,
            user: self.user.clone(),
        }
    }
}

impl TransportSessionKey {
    pub fn new(
        room: RoomInstanceId,
        worker: MediaWorkerId,
        connection: ConnectionId,
        user: UserId,
    ) -> (r: Self)
        ensures
            r == (TransportSessionKey { room, worker, connection, user }),
    {
        TransportSessionKey { room, worker, connection, user }
    }

    pub fn user_id(&self) -> (r: &UserId)
        ensures
            *r == self.user,
    {
        &self.user
    }

    pub fn connection_id(&self) -> (r: ConnectionId)
        ensures
            r == self.connection,
    {
        self.connection
    }

    pub fn media_worker_id(&self) -> (r: MediaWorkerId)
        ensures
            r == self.worker,
    {
        self.worker
    }
}

impl OrdKey for TransportSessionKey {
    type Id = SessionIdentity;

    open spec fn id(&self) -> SessionIdentity {
        SessionIdentity {
            room: self.room,
            worker: self.worker,
            connection: self.connection,
            user: self.user.id(),
        }
    }

    open spec fn before(a: SessionIdentity, b: SessionIdentity) -> bool {
        if a.room != b.room {
            a.room.0 < b.room.0
        } else if a.worker != b.worker {
            a.worker.0 < b.worker.0
        } else if a.connection != b.connection {
            a.connection.0 < b.connection.0
        } else {
            UserId::before(a.user, b.user)
        }
    }

    proof fn law_irreflexive(a: SessionIdentity) {
        UserId::law_irreflexive(a.user);
    }

    proof fn law_transitive(a: SessionIdentity, b: SessionIdentity, c: SessionIdentity) {
        if UserId::before(a.user, b.user) && UserId::before(b.user, c.user) {
            UserId::law_transitive(a.user, b.user, c.user);
        }
    }

    proof fn law_total(a: SessionIdentity, b: SessionIdentity) {
        UserId::law_total(a.user, b.user);
    }

    fn order(&self, other: &Self) -> (o: Order) {
        if self.room.0 < other.room.0 {
            Order::Before
        } else if other.room.0 < self.room.0 {
            Order::After
        } else if self.worker.0 < other.worker.0 {
            Order::Before
        } else if other.worker.0 < self.worker.0 {
            Order::After
        } else if self.connection.0 < other.connection.0 {
            Order::Before
        } else if other.connection.0 < self.connection.0 {
            Order::After
        } else {
            self.user.order(&other.user)
        }
    }

    fn duplicate(&self) -> (r: Self) {
        self.clone()
    }
}

/// Media published on a transport session.
#[derive(Debug, PartialEq, Eq)]
pub struct TransportSourceKey {
    pub session: TransportSessionKey,
    pub media: TransportMediaId,
}

/// What distinguishes one published transport medium from another.
pub struct SourceIdentity {
    pub session: SessionIdentity,
    pub media: TransportMediaId,
}

impl Clone for TransportSourceKey {
    fn clone(&self) -> (r: Self)
        ensures
            r == *self,
    {
        TransportSourceKey { session: self.session.clone(), media: self.media }
    }
}

impl TransportSourceKey {
    pub fn new(session: TransportSessionKey, media: TransportMediaId) -> (r: Self)
        ensures
            r == (TransportSourceKey { session, media }),
    {
        TransportSourceKey { session, media }
    }

    pub fn session_key(&self) -> (r: &TransportSessionKey)
        ensures
            *r == self.session,
    {
        &self.session
    }

    pub fn transport_media_id(&self) -> (r: TransportMediaId)
        ensures
            r == self.media,
    {
        self.media
    }
}

impl OrdKey for TransportSourceKey {
    type Id = SourceIdentity;

    open spec fn id(&self) -> SourceIdentity {
        SourceIdentity { session: self.session.id(), media: self.media }
    }

    open spec fn before(a: SourceIdentity, b: SourceIdentity) -> bool {
        if a.session != b.session {
            TransportSessionKey::before(a.session, b.session)
        } else {
            a.media.0 < b.media.0
        }
    }

    proof fn law_irreflexive(a: SourceIdentity) {
    }

    proof fn law_transitive(a: SourceIdentity, b: SourceIdentity, c: SourceIdentity) {
        if a.session != b.session && b.session != c.session {
            TransportSessionKey::law_transitive(a.session, b.session, c.session);
            TransportSessionKey::law_irreflexive(a.session);
        }
    }

    proof fn law_total(a: SourceIdentity, b: SourceIdentity) {
        TransportSessionKey::law_total(a.session, b.session);
    }

    fn order(&self, other: &Self) -> (o: Order) {
        match self.session.order(&other.session) {
            Order::Same => order_u64(self.media.0, other.media.0),
            Order::Before => {
                proof {
                    TransportSessionKey::law_irreflexive(self.session.id());
                }
                Order::Before
            },
            Order::After => {
                proof {
                    TransportSessionKey::law_irreflexive(self.session.id());
                }
                Order::After
            },
        }
    }

    fn duplicate(&self) -> (r: Self) {
        self.clone()
    }
}

/// A declared consumer medium and the source it forwards.
#[derive(Debug, PartialEq, Eq)]
pub struct TransportConsumerRoute {
    pub consumer_session: TransportSessionKey,
    pub consumer_media: TransportMediaId,
    pub source: TransportSourceKey,
}

/// What distinguishes one consumer route from another.
pub struct RouteIdentity {
    pub consumer_session: SessionIdentity,
    pub consumer_media: TransportMediaId,
    pub source: SourceIdentity,
}

impl Clone for TransportConsumerRoute {
    fn clone(&self) -> (r: Self)
        ensures
            r == *self,
    {
        TransportConsumerRoute {
            consumer_session: self.consumer_session.clone(),
            consumer_media: self.consumer_media,
            source: self.source.clone(),
        }
    }
}

impl TransportConsumerRoute {
    pub open spec fn id(&self) -> RouteIdentity {
        RouteIdentity {
            consumer_session: self.consumer_session.id(),
            consumer_media: self.consumer_media,
            source: self.source.id(),
        }
    }

    pub fn new(
        consumer_session: TransportSessionKey,
        consumer_media: TransportMediaId,
        source: TransportSourceKey,
    ) -> (r: Self)
        ensures
            r == (TransportConsumerRoute { consumer_session, consumer_media, source }),
    {
        TransportConsumerRoute { consumer_session, consumer_media, source }
    }

    pub fn consumer_session_key(&self) -> (r: &TransportSessionKey)
        ensures
            *r == self.consumer_session,
    {
        &self.consumer_session
    }

    pub fn consumer_transport_media_id(&self) -> (r: TransportMediaId)
        ensures
            r == self.consumer_media,
    {
        self.consumer_media
    }

    pub fn source(&self) -> (r: &TransportSourceKey)
        ensures
            *r == self.source,
    {
        &self.source
    }

    pub fn source_session_key(&self) -> (r: &TransportSessionKey)
        ensures
            *r == self.source.session,
    {
        &self.source.session
    }

    pub fn source_transport_media_id(&self) -> (r: TransportMediaId)
        ensures
            r == self.source.media,
    {
        self.source.media
    }

    /// Whether both name the same route.
    pub fn same_route(&self, other: &Self) -> (r: bool)
        ensures
            r == (self.id() == other.id()),
    {
        same(&self.consumer_session, &other.consumer_session) && self.consumer_media
            == other.consumer_media && same(&self.source, &other.source)
    }
}

/// A receiver's logical subscription to one stream of a publisher.
#[derive(Debug, PartialEq, Eq)]
pub struct SubscriptionKey {
    pub receiver: UserId,
    pub publisher: UserId,
    pub stream: UserStreamId,
}

/// What distinguishes one subscription from another.
pub struct SubscriptionIdentity {
    pub receiver: UserIdentity,
    pub publisher: UserIdentity,
    pub stream: Seq<char>,
}

impl Clone for SubscriptionKey {
    fn clone(&self) -> (r: Self)
        ensures
            r == *self,
    {
        SubscriptionKey {
            receiver: self.receiver.clone(),
            publisher: self.publisher.clone(),
            stream: self.stream.clone(),
        }
    }
}

impl SubscriptionKey {
    pub fn new(receiver: &UserId, publisher: &UserId, stream: &UserStreamId) -> (r: Self)
        ensures
            r.receiver == *receiver,
            r.publisher == *publisher,
            r.stream == *stream,
    {
        SubscriptionKey {
            receiver: receiver.clone(),
            publisher: publisher.clone(),
            stream: stream.clone(),
        }
    }
}

impl OrdKey for SubscriptionKey {
    type Id = SubscriptionIdentity;

    open spec fn id(&self) -> SubscriptionIdentity {
        SubscriptionIdentity {
            receiver: self.receiver.id(),
            publisher: self.publisher.id(),
            stream: self.stream.id(),
        }
    }

    open spec fn before(a: SubscriptionIdentity, b: SubscriptionIdentity) -> bool {
        if a.receiver != b.receiver {
            UserId::before(a.receiver, b.receiver)
        } else if a.publisher != b.publisher {
            UserId::before(a.publisher, b.publisher)
        } else {
            text_before(a.stream, b.stream)
        }
    }

    proof fn law_irreflexive(a: SubscriptionIdentity) {
        lemma_text_irreflexive(a.stream);
    }

    proof fn law_transitive(
        a: SubscriptionIdentity,
        b: SubscriptionIdentity,
        c: SubscriptionIdentity,
    ) {
        UserId::law_irreflexive(a.receiver);
        UserId::law_irreflexive(a.publisher);
        if UserId::before(a.receiver, b.receiver) && UserId::before(b.receiver, c.receiver) {
            UserId::law_transitive(a.receiver, b.receiver, c.receiver);
        }
        if UserId::before(a.publisher, b.publisher) && UserId::before(b.publisher, c.publisher) {
            UserId::law_transitive(a.publisher, b.publisher, c.publisher);
        }
        if text_before(a.stream, b.stream) && text_before(b.stream, c.stream) {
            lemma_text_transitive(a.stream, b.stream, c.stream);
        }
    }

    proof fn law_total(a: SubscriptionIdentity, b: SubscriptionIdentity) {
        UserId::law_total(a.receiver, b.receiver);
        UserId::law_total(a.publisher, b.publisher);
        lemma_text_total(a.stream, b.stream);
    }

    fn order(&self, other: &Self) -> (o: Order) {
        proof {
            UserId::law_irreflexive(self.receiver.id());
            UserId::law_irreflexive(self.publisher.id());
        }
        match self.receiver.order(&other.receiver) {
            Order::Before => Order::Before,
            Order::After => Order::After,
            Order::Same => match self.publisher.order(&other.publisher) {
                Order::Before => Order::Before,
                Order::After => Order::After,
                Order::Same => self.stream.order(&other.stream),
            },
        }
    }

    fn duplicate(&self) -> (r: Self) {
        self.clone()
    }
}

/// A stream of a publisher.
#[derive(Debug, PartialEq, Eq)]
pub struct SourceKey {
    pub owner_user_id: UserId,
    pub stream_id: UserStreamId,
}

/// What distinguishes one published stream from another.
pub struct OwnerStream {
    pub owner: UserIdentity,
    pub stream: Seq<char>,
}

impl Clone for SourceKey {
    fn clone(&self) -> (r: Self)
        ensures
            r == *self,
    {
        SourceKey { owner_user_id: self.owner_user_id.clone(), stream_id: self.stream_id.clone() }
    }
}

impl SourceKey {
    pub fn new(owner_user_id: &UserId, stream_id: &UserStreamId) -> (r: Self)
        ensures
            r.owner_user_id == *owner_user_id,
            r.stream_id == *stream_id,
    {
        SourceKey { owner_user_id: owner_user_id.clone(), stream_id: stream_id.clone() }
    }
}

impl OrdKey for SourceKey {
    type Id = OwnerStream;

    open spec fn id(&self) -> OwnerStream {
        OwnerStream { owner: self.owner_user_id.id(), stream: self.stream_id.id() }
    }

    open spec fn before(a: OwnerStream, b: OwnerStream) -> bool {
        if a.owner != b.owner {
            UserId::before(a.owner, b.owner)
        } else {
            text_before(a.stream, b.stream)
        }
    }

    proof fn law_irreflexive(a: OwnerStream) {
        lemma_text_irreflexive(a.stream);
    }

    proof fn law_transitive(a: OwnerStream, b: OwnerStream, c: OwnerStream) {
        UserId::law_irreflexive(a.owner);
        if UserId::before(a.owner, b.owner) && UserId::before(b.owner, c.owner) {
            UserId::law_transitive(a.owner, b.owner, c.owner);
        }
        if text_before(a.stream, b.stream) && text_before(b.stream, c.stream) {
            lemma_text_transitive(a.stream, b.stream, c.stream);
        }
    }

    proof fn law_total(a: OwnerStream, b: OwnerStream) {
        UserId::law_total(a.owner, b.owner);
        lemma_text_total(a.stream, b.stream);
    }

    fn order(&self, other: &Self) -> (o: Order) {
        proof {
            UserId::law_irreflexive(self.owner_user_id.id());
        }
        match self.owner_user_id.order(&other.owner_user_id) {
            Order::Before => Order::Before,
            Order::After => Order::After,
            Order::Same => self.stream_id.order(&other.stream_id),
        }
    }

    fn duplicate(&self) -> (r: Self) {
        self.clone()
    }
}

/// A source forwarded to another media worker.
///
/// The captured source placement outlives a replacement of the source until the
/// owners of the relay have released it.
#[derive(Debug, PartialEq, Eq)]
pub struct RelayRouteKey {
    pub source: TransportSourceKey,
    pub target_worker: MediaWorkerId,
}

/// What distinguishes one relay from another.
pub struct RelayIdentity {
    pub source: SourceIdentity,
    pub target_worker: MediaWorkerId,
}

impl Clone for RelayRouteKey {
    fn clone(&self) -> (r: Self)
        ensures
            r == *self,
    {
        RelayRouteKey { source: self.source.clone(), target_worker: self.target_worker }
    }
}

impl OrdKey for RelayRouteKey {
    type Id = RelayIdentity;

    open spec fn id(&self) -> RelayIdentity {
        RelayIdentity { source: self.source.id(), target_worker: self.target_worker }
    }

    open spec fn before(a: RelayIdentity, b: RelayIdentity) -> bool {
        if a.source != b.source {
            TransportSourceKey::before(a.source, b.source)
        } else {
            a.target_worker.0 < b.target_worker.0
        }
    }

    proof fn law_irreflexive(a: RelayIdentity) {
    }

    proof fn law_transitive(a: RelayIdentity, b: RelayIdentity, c: RelayIdentity) {
        if a.source != b.source && b.source != c.source {
            TransportSourceKey::law_transitive(a.source, b.source, c.source);
            TransportSourceKey::law_irreflexive(a.source);
        }
    }

    proof fn law_total(a: RelayIdentity, b: RelayIdentity) {
        TransportSourceKey::law_total(a.source, b.source);
    }

    fn order(&self, other: &Self) -> (o: Order) {
        proof {
            TransportSourceKey::law_irreflexive(self.source.id());
        }
        match self.source.order(&other.source) {
            Order::Before => Order::Before,
            Order::After => Order::After,
            Order::Same => if self.target_worker.0 < other.target_worker.0 {
                Order::Before
            } else if self.target_worker.0 == other.target_worker.0 {
                Order::Same
            } else {
                Order::After
            },
        }
    }

    fn duplicate(&self) -> (r: Self) {
        self.clone()
    }
}

/// Whether a consumer destination delivers.
#[derive(Debug, Clone, Copy, PartialEq, Eq, Structural)]
pub enum ConsumerActivity {
    Active,
    Inactive,
}

impl ConsumerActivity {
    pub open spec fn of(active: bool) -> Self {
        if active {
            ConsumerActivity::Active
        } else {
            ConsumerActivity::Inactive
        }
    }

    pub fn from_active(active: bool) -> (r: Self)
        ensures
            r == Self::of(active),
    {
        if active {
            ConsumerActivity::Active
        } else {
            ConsumerActivity::Inactive
        }
    }

    pub fn is_active(self) -> (r: bool)
        ensures
            r == (self == ConsumerActivity::Active),
    {
        match self {
            ConsumerActivity::Active => true,
            ConsumerActivity::Inactive => false,
        }
    }
}

/// Whether a publication sends.
#[derive(Debug, Clone, Copy, PartialEq, Eq, Structural)]
pub enum ProducerActivity {
    Active,
    Inactive,
}

impl ProducerActivity {
    pub open spec fn of(active: bool) -> Self {
        if active {
            ProducerActivity::Active
        } else {
            ProducerActivity::Inactive
        }
    }

    pub fn from_active(active: bool) -> (r: Self)
        ensures
            r == Self::of(active),
    {
        if active {
            ProducerActivity::Active
        } else {
            ProducerActivity::Inactive
        }
    }

    pub fn is_active(self) -> (r: bool)
        ensures
            r == (self == ProducerActivity::Active),
    {
        match self {
            ProducerActivity::Active => true,
            ProducerActivity::Inactive => false,
        }
    }
}

/// Whether a relay forwards.
#[derive(Debug, Clone, Copy, PartialEq, Eq, Structural)]
pub enum RelayRouteActivity {
    Active,
    Inactive,
}

impl RelayRouteActivity {
    pub open spec fn of(active: bool) -> Self {
        if active {
            RelayRouteActivity::Active
        } else {
            RelayRouteActivity::Inactive
        }
    }

    pub fn from_active(active: bool) -> (r: Self)
        ensures
            r == Self::of(active),
    {
        if active {
            RelayRouteActivity::Active
        } else {
            RelayRouteActivity::Inactive
        }
    }

    pub fn is_active(self) -> (r: bool)
        ensures
            r == (self == RelayRouteActivity::Active),
    {
        match self {
            RelayRouteActivity::Active => true,
            RelayRouteActivity::Inactive => false,
        }
    }
}

/// What a media worker does with a relay.
#[derive(Debug, Clone, Copy, PartialEq, Eq, Structural)]
pub enum TransportRelayRouteAction {
    Install,
    SetActivity(RelayRouteActivity),
    Release,
}

/// One relay operation.
#[derive(Debug, PartialEq, Eq)]
pub struct TransportRelayRouteEffect {
    pub source: TransportSourceKey,
    pub target_media_worker_id: MediaWorkerId,
    pub action: TransportRelayRouteAction,
}

/// Version of a publication's activity.
#[derive(Debug, Clone, Copy, PartialEq, Eq, Structural)]
pub struct SourceActivityRevision(pub u64);

impl SourceActivityRevision {
    pub open spec fn following(self) -> Self {
        if self.0 == u64::MAX {
            self
        } else {
            SourceActivityRevision((self.0 + 1) as u64)
        }
    }

    /// The next revision; the last one is its own successor.
    pub fn next(self) -> (r: Self)
        ensures
            r == self.following(),
    {
        SourceActivityRevision(self.0.saturating_add(1))
    }
}

impl Default for SourceActivityRevision {
    fn default() -> (r: Self)
        ensures
            r == SourceActivityRevision(0),
    {
        SourceActivityRevision(0)
    }
}

/// Activity of a publication at a revision.
#[derive(Debug, Clone, Copy, PartialEq, Eq, Structural)]
pub struct SourceActivityUpdate {
    pub activity: ProducerActivity,
    pub revision: SourceActivityRevision,
}

impl SourceActivityUpdate {
    pub fn new(activity: ProducerActivity, revision: SourceActivityRevision) -> (r: Self)
        ensures
            r == (SourceActivityUpdate { activity, revision }),
    {
        SourceActivityUpdate { activity, revision }
    }

    pub fn activity(self) -> (r: ProducerActivity)
        ensures
            r == self.activity,
    {
        self.activity
    }

    pub fn revision(self) -> (r: SourceActivityRevision)
        ensures
            r == self.revision,
    {
        self.revision
    }
}

/// Publication activity told to a worker that does not host the producer.
#[derive(Debug, PartialEq, Eq)]
pub struct TransportSourceActivityEffect {
    pub source: TransportSourceKey,
    pub target_media_worker_id: MediaWorkerId,
    pub update: SourceActivityUpdate,
}

/// Transport state to take down.
#[derive(Debug, PartialEq, Eq)]
pub enum TransportTeardown {
    RemoveMedia { session_key: TransportSessionKey, transport_media_id: TransportMediaId },
    CloseSession { session_key: TransportSessionKey },
    ReleaseRelayRoute { source: TransportSourceKey, target_media_worker_id: MediaWorkerId },
}

} // verus!
