//! Setup of consumer routes across the transport boundary.
//!
//! A setup starts as a target, is reserved, declared to the transport and then
//! committed or released. What is declared carries the identity of what was
//! reserved.

use vstd::prelude::*;

use crate::ids::{
    same, ConsumerId, MediaWorkerId, OutboundLane, PublishedSourceId, RoutedProducerId,
    TransportMediaId, UserId, UserStreamId,
};
use crate::order::OrdKey;
use crate::outbound::VersionedRemoteTrackSnapshot;
use crate::route_graph::{ConsumerRouteReservation, PendingUpgrade};
use crate::source_model::{ConsumerSourceSelection, MediaKind, RtpStream};
use crate::sources::PublishedSource;
use crate::transport::{
    RelayRouteKey, SubscriptionIdentity, SubscriptionKey, TransportConsumerRoute,
    TransportRelayRouteEffect, TransportSessionKey, TransportSourceActivityEffect,
    TransportSourceKey,
};

verus! {

/// A committed consumer route and what it shows.
#[derive(Debug, PartialEq, Eq)]
pub struct ConsumerRouteTarget {
    pub transport_route: TransportConsumerRoute,
    pub stream_id: UserStreamId,
    pub kind: MediaKind,
}

impl Clone for ConsumerRouteTarget {
    fn clone(&self) -> (r: Self)
        ensures
            r == *self,
    {
        ConsumerRouteTarget {
            transport_route: self.transport_route.clone(),
            stream_id: self.stream_id.clone(),
            kind: self.kind,
        }
    }
}

impl ConsumerRouteTarget {
    pub fn new(
        transport_route: TransportConsumerRoute,
        stream_id: UserStreamId,
        kind: MediaKind,
    ) -> (r: Self)
        ensures
            r == (ConsumerRouteTarget { transport_route, stream_id, kind }),
    {
        ConsumerRouteTarget { transport_route, stream_id, kind }
    }

    pub fn transport_route(&self) -> (r: &TransportConsumerRoute)
        ensures
            *r == self.transport_route,
    {
        &self.transport_route
    }

    pub fn consumer_media_id(&self) -> (r: TransportMediaId)
        ensures
            r == self.transport_route.consumer_media,
    {
        self.transport_route.consumer_media
    }

    pub fn producer_user_id(&self) -> (r: &UserId)
        ensures
            *r == self.transport_route.source.session.user,
    {
        &self.transport_route.source.session.user
    }

    pub fn source_media_id(&self) -> (r: TransportMediaId)
        ensures
            r == self.transport_route.source.media,
    {
        self.transport_route.source.media
    }

    pub fn stream_id(&self) -> (r: &UserStreamId)
        ensures
            *r == self.stream_id,
    {
        &self.stream_id
    }

    /// A video that starts to flow needs a keyframe.
    pub fn request_keyframe_after_activity(&self, active: bool) -> (r: bool)
        ensures
            r == (active && self.kind == MediaKind::Video),
    {
        active && self.kind == MediaKind::Video
    }
}

/// A committed consumer route and the records it belongs to.
pub struct ConsumerRouteView<'a> {
    pub key: &'a SubscriptionKey,
    pub route: &'a TransportConsumerRoute,
    pub mid: &'a String,
    pub pending_upgrade: Option<PendingUpgrade>,
    pub source: &'a PublishedSource,
    pub selection: ConsumerSourceSelection,
}

impl<'a> ConsumerRouteView<'a> {
    pub fn target(&self) -> (r: ConsumerRouteTarget)
        ensures
            r == (ConsumerRouteTarget {
                transport_route: *self.route,
                stream_id: self.key.stream,
                kind: self.source.descriptor.media_kind,
            }),
    {
        ConsumerRouteTarget::new(
            self.route.clone(),
            self.key.stream.clone(),
            self.source.descriptor.media_kind,
        )
    }
}

/// A receiver and the publication to set up for it.
#[derive(Debug)]
pub struct ConsumerSetupTarget {
    pub session: TransportSessionKey,
    pub source: TransportSourceKey,
    pub source_id: PublishedSourceId,
    pub stream: UserStreamId,
    pub kind: MediaKind,
    pub routed: RoutedProducerId,
}

impl ConsumerSetupTarget {
    /// The setup of a publication for a session.
    pub open spec fn of(session: TransportSessionKey, source: PublishedSource) -> Self {
        ConsumerSetupTarget {
            session,
            source: source.transport,
            source_id: source.descriptor.source_id,
            stream: source.descriptor.stream_id,
            kind: source.descriptor.media_kind,
            routed: source.routed,
        }
    }

    /// The subscription that the setup realizes.
    pub open spec fn subscription(&self) -> SubscriptionIdentity {
        SubscriptionIdentity {
            receiver: self.session.user.id(),
            publisher: self.source.session.user.id(),
            stream: self.stream.id(),
        }
    }

    /// The publication is the one that the setup was made for.
    pub open spec fn identifies(&self, source: PublishedSource) -> bool {
        &&& source.descriptor.source_id == self.source_id
        &&& source.transport.id() == self.source.id()
        &&& source.descriptor.stream_id.id() == self.stream.id()
        &&& source.descriptor.media_kind == self.kind
        &&& source.routed == self.routed
    }

    /// The transport route once the transport named its medium.
    pub open spec fn route(&self, media: TransportMediaId) -> TransportConsumerRoute {
        TransportConsumerRoute {
            consumer_session: self.session,
            consumer_media: media,
            source: self.source,
        }
    }

    pub fn new(session: TransportSessionKey, source: &PublishedSource) -> (r: Self)
        ensures
            r == Self::of(session, *source),
    {
        ConsumerSetupTarget {
            session,
            source: source.transport.clone(),
            source_id: source.descriptor.source_id,
            stream: source.descriptor.stream_id.clone(),
            kind: source.descriptor.media_kind,
            routed: source.routed,
        }
    }

    pub fn subscription_key(&self) -> (r: SubscriptionKey)
        ensures
            r.id() == self.subscription(),
            r.receiver == self.session.user,
            r.publisher == self.source.session.user,
            r.stream == self.stream,
    {
        SubscriptionKey::new(&self.session.user, &self.source.session.user, &self.stream)
    }

    pub fn transport_consumer_route(&self, consumer_media: TransportMediaId) -> (r:
        TransportConsumerRoute)
        ensures
            r == self.route(consumer_media),
    {
        TransportConsumerRoute::new(self.session.clone(), consumer_media, self.source.clone())
    }

    pub fn route_target(&self, route: TransportConsumerRoute) -> (r: ConsumerRouteTarget)
        ensures
            r == (ConsumerRouteTarget {
                transport_route: route,
                stream_id: self.stream,
                kind: self.kind,
            }),
    {
        ConsumerRouteTarget::new(route, self.stream.clone(), self.kind)
    }

    pub fn relay_route_key(&self, target_worker: MediaWorkerId) -> (r: RelayRouteKey)
        ensures
            r == (RelayRouteKey { source: self.source, target_worker }),
    {
        RelayRouteKey { source: self.source.clone(), target_worker }
    }

    pub fn matches_identity(&self, source: &PublishedSource) -> (r: bool)
        ensures
            r == self.identifies(*source),
    {
        source.descriptor.source_id == self.source_id && same(&source.transport, &self.source)
            && same(&source.descriptor.stream_id, &self.stream) && source.descriptor.media_kind
            == self.kind && source.routed == self.routed
    }
}

/// A reserved route that waits for its transport declaration.
///
/// It holds graph state and perhaps a relay share: it has to be committed or
/// released.
#[derive(Debug)]
#[must_use]
pub struct PendingConsumerSetup {
    pub target: ConsumerSetupTarget,
    pub consumer: ConsumerId,
    pub reservation: ConsumerRouteReservation,
    pub sender: OutboundLane,
    pub rtp: RtpStream,
    pub relays: Vec<TransportRelayRouteEffect>,
}

impl PendingConsumerSetup {
    /// Hands out the relay work of the reservation, once.
    pub fn take_relays(&mut self) -> (r: Vec<TransportRelayRouteEffect>)
        ensures
            r == old(self).relays,
            final(self).relays@ == Seq::<TransportRelayRouteEffect>::empty(),
            final(self).target == old(self).target,
            final(self).consumer == old(self).consumer,
            final(self).reservation == old(self).reservation,
            final(self).sender == old(self).sender,
            final(self).rtp == old(self).rtp,
    {
        let mut taken: Vec<TransportRelayRouteEffect> = Vec::new();
        core::mem::swap(&mut self.relays, &mut taken);
        taken
    }

    /// Completes the declaration with what the transport answered: the medium it
    /// declared, and the MID it gave. A rejected declaration hands the setup back.
    pub fn declare(self, media: Option<TransportMediaId>, mid: Option<String>) -> (r: Result<
        DeclaredConsumerSetup,
        Self,
    >)
        ensures
            match media {
                Some(media) => r == Ok::<_, Self>(
                    DeclaredConsumerSetup { pending: self, route: self.target.route(media), mid },
                ),
                None => r == Err::<DeclaredConsumerSetup, _>(self),
            },
    {
        match media {
            Some(media) => {
                let route = self.target.transport_consumer_route(media);
                Ok(DeclaredConsumerSetup { pending: self, route, mid })
            },
            None => Err(self),
        }
    }
}

/// A setup that the transport declared.
#[derive(Debug)]
pub struct DeclaredConsumerSetup {
    pub pending: PendingConsumerSetup,
    pub route: TransportConsumerRoute,
    pub mid: Option<String>,
}

/// A setup that the room committed.
#[derive(Debug)]
pub struct CommittedConsumerSetup {
    pub target: ConsumerSetupTarget,
    pub route: TransportConsumerRoute,
    pub sender: OutboundLane,
    /// The delivery that the transport has to correct.
    pub transport_activity_update: Option<bool>,
}

/// What became of a declared setup.
#[derive(Debug)]
pub enum ConsumerSetupOutcome {
    Committed {
        target: ConsumerSetupTarget,
        route: TransportConsumerRoute,
        sender: OutboundLane,
        track_snapshot: VersionedRemoteTrackSnapshot,
        remote_source_activity: Option<TransportSourceActivityEffect>,
        transport_activity_update: Option<bool>,
        readiness_keyframe: Option<ConsumerRouteTarget>,
    },
    Released(TransportConsumerRoute, Vec<TransportRelayRouteEffect>),
}

/// What asked for a setup.
#[derive(Debug, Clone, Copy, PartialEq, Eq, Structural)]
pub enum ConsumerSetupOrigin {
    Readiness,
    Publish,
    Subscribe,
}

impl ConsumerSetupOrigin {
    pub open spec fn label(self) -> Seq<char> {
        match self {
            ConsumerSetupOrigin::Readiness => "readiness"@,
            ConsumerSetupOrigin::Publish => "publish"@,
            ConsumerSetupOrigin::Subscribe => "subscribe"@,
        }
    }

    pub fn as_diagnostic_str(self) -> (r: &'static str)
        ensures
            r@ == self.label(),
    {
        match self {
            ConsumerSetupOrigin::Readiness => "readiness",
            ConsumerSetupOrigin::Publish => "publish",
            ConsumerSetupOrigin::Subscribe => "subscribe",
        }
    }
}

} // verus!
