//! Publishing, and the activity of publications.

use vstd::prelude::*;

use crate::ids::{
    ConnectionId, OutboundLane, ProducerId, PublishedSourceId, RoutedProducerId,
    TransportMediaId, UserId, UserIdentity, UserStreamId,
};
use crate::ord_map::{lemma_sorted, sorted};
use crate::order::OrdKey;
use crate::outbound::VersionedRemoteTrackSnapshot;
use crate::producer::{describes_publication, ValidatedPublish};
use crate::source_model::{
    MediaCapabilities, PublishedSourceDescriptor, RtpStream, SessionUploadEncoding,
    SourcePublishIntent, UserInfo,
};
use crate::sources::{first_with_media, source_order, unpublished};
use crate::state::{
    announces_presence, are_snapshots, connected, in_topology, user_order, with_presence,
    with_track_revisions, PresenceCommit, RoomState, State,
};
use crate::subscription::{
    has_room, negotiated_user, plans_scope, ReceiverRouteScope,
};
use crate::topology::{
    announces, described, publication_outcome, receivers_of, source_of_connection,
    source_of_stream, switched_topology, switches, user_identities, PublicationCommitError,
    RouterError, SourceModelError, Topology,
};
use crate::transport::{
    OwnerStream, ProducerActivity, SourceActivityUpdate, TransportSourceActivityEffect,
    TransportSourceKey,
};
use crate::transport_plan::ReceiverRouteWork;

verus! {

/// A committed publication and what it asks of receivers.
#[derive(Debug)]
pub struct PublishCommit {
    pub source_id: PublishedSourceId,
    pub receiver_route_work: ReceiverRouteWork,
    pub presence: Option<PresenceCommit>,
}

/// What a request to publish leads to.
#[derive(Debug)]
pub enum PublishIntentPlan {
    /// The stream is published and becomes active.
    Activate(ProducerActivityCommit),
    Noop,
    /// Another negotiation is under way.
    Queue,
    /// The stream is negotiated.
    Stage(ValidatedPublish),
}

/// A committed change of a publication's activity.
#[derive(Debug)]
pub struct ProducerActivityCommit {
    pub source: TransportSourceKey,
    pub stream_id: UserStreamId,
    pub update: SourceActivityUpdate,
    pub remote_activity_effects: Vec<TransportSourceActivityEffect>,
    pub track_snapshots: Vec<(OutboundLane, VersionedRemoteTrackSnapshot)>,
    pub presence: Option<PresenceCommit>,
}

/// Why the activity of a publication was not changed.
#[derive(Debug, Clone, Copy, PartialEq, Eq, Structural)]
pub enum ProducerActivityRejection {
    MissingPublication,
    StalePublication,
}

/// Receivers of a publication, in order.
pub open spec fn receiver_order(t: Topology, id: PublishedSourceId) -> Seq<UserIdentity> {
    sorted::<UserId>(receivers_of(t.graph.subscriptions, id.0))
}

/// The state with the activity changed and the presence known, before receivers are
/// told.
pub open spec fn with_activity(
    st: State,
    id: PublishedSourceId,
    active: bool,
    user: UserIdentity,
    connection: ConnectionId,
    presence: Option<UserInfo>,
) -> State {
    let switched = State { topology: switched_topology(st.topology, id, active), ..st };
    match presence {
        Some(info) => with_presence(switched, user, connection, info),
        None => switched,
    }
}

/// A presence update is announced exactly where the connection is current.
pub open spec fn commits_presence(
    before: State,
    after: State,
    user: UserIdentity,
    connection: ConnectionId,
    presence: Option<UserInfo>,
    commit: Option<PresenceCommit>,
) -> bool {
    match commit {
        Some(commit) => presence is Some && before.current(user, connection) && announces_presence(
            after,
            user,
            commit.fanout,
        ),
        None => presence is None || !before.current(user, connection),
    }
}

/// What a change of activity comes to.
pub open spec fn changes_activity(
    st: State,
    user: UserIdentity,
    connection: ConnectionId,
    stream: UserStreamId,
    active: bool,
    presence: Option<UserInfo>,
    after: State,
    r: Result<ProducerActivityCommit, ProducerActivityRejection>,
) -> bool {
    let t = st.topology;
    match source_of_connection(t.sources, user, connection, stream.id()) {
        None => after == st && r == Err::<ProducerActivityCommit, _>(
            ProducerActivityRejection::MissingPublication,
        ),
        Some(id) => if !switches(t.sources, id.0, connection, active) {
            after == st && r == Err::<ProducerActivityCommit, _>(
                ProducerActivityRejection::StalePublication,
            )
        } else {
            let known = with_activity(st, id, active, user, connection, presence);
            let told = connected(known.users, receiver_order(known.topology, id));
            let update = SourceActivityUpdate {
                activity: ProducerActivity::of(active),
                revision: t.sources[id.0].activity_revision.following(),
            };
            &&& after == with_track_revisions(known, told.len())
            &&& r matches Ok(commit)
            &&& commit.source == t.sources[id.0].transport
            &&& commit.stream_id == stream
            &&& commit.update == update
            &&& announces(
                known.topology.graph,
                commit.source,
                update,
                commit.remote_activity_effects@,
            )
            &&& are_snapshots(commit.track_snapshots@, known, told, false)
            &&& commits_presence(st, known, user, connection, presence, commit.presence)
        },
    }
}

/// The publication that a user may negotiate.
pub open spec fn is_validated(
    st: State,
    user: UserId,
    connection: ConnectionId,
    intent: SourcePublishIntent,
    publish: ValidatedPublish,
) -> bool {
    &&& st.topology.session(user, connection) == Some(publish.session_key)
    &&& publish.stream_id == intent.stream_id
    &&& publish.media_kind == intent.media_kind
    &&& publish.policy == intent.policy
    &&& publish.presence == intent.presence
}

/// The publisher is still ready on its connection and the stream is still free.
pub open spec fn publishable(st: State, publish: ValidatedPublish) -> bool {
    &&& negotiated_user(st, publish.session_key.user.id(), publish.session_key.connection)
    &&& source_of_stream(
        st.topology.sources,
        publish.session_key.user.id(),
        publish.stream_id.id(),
    ) is None
}

/// The counters have room for one more publication.
pub open spec fn has_room_to_publish(st: State, rtp: RtpStream) -> bool {
    &&& st.topology.next_source < u64::MAX
    &&& st.topology.next_producer < u64::MAX
    &&& st.topology.next_encoding + rtp.bindings@.len() <= u64::MAX
    &&& has_room(st, user_order(st.users).len())
}

/// What the router's answer makes of a valid publication.
pub open spec fn publishes_to<N: Fn(&RtpStream, &MediaCapabilities) -> Option<RtpStream>>(
    negotiate: N,
    st: State,
    publish: ValidatedPublish,
    rtp: RtpStream,
    media: TransportMediaId,
    descriptor: PublishedSourceDescriptor,
    answer: Result<RoutedProducerId, RouterError>,
    after: State,
    r: Option<PublishCommit>,
) -> bool {
    let id = PublishedSourceId(st.topology.next_source);
    let user = publish.session_key.user.id();
    let connection = publish.session_key.connection;
    match answer {
        Err(error) => r is None && exists|t: Topology|
            #![trigger in_topology(st, t)]
            publication_outcome(
                st.topology,
                publish,
                rtp,
                media,
                descriptor,
                answer,
                t,
                Err(PublicationCommitError::Router(error)),
            ) && after == in_topology(st, t),
        Ok(_) => exists|t: Topology, planned: State|
            #![trigger plans_scope(
                negotiate,
                in_topology(st, t),
                ReceiverRouteScope::Source(id),
                planned,
                r->0.receiver_route_work.setups@,
            )]
            {
                &&& publication_outcome(
                    st.topology,
                    publish,
                    rtp,
                    media,
                    descriptor,
                    answer,
                    t,
                    Ok(id),
                )
                &&& r is Some
                &&& r->0.source_id == id
                &&& r->0.receiver_route_work.activities@.len() == 0
                &&& r->0.receiver_route_work.relays@.len() == 0
                &&& r->0.receiver_route_work.teardown@.len() == 0
                &&& plans_scope(
                    negotiate,
                    in_topology(st, t),
                    ReceiverRouteScope::Source(id),
                    planned,
                    r->0.receiver_route_work.setups@,
                )
                &&& after == match publish.presence {
                    Some(info) => with_presence(planned, user, connection, info),
                    None => planned,
                }
                &&& commits_presence(
                    planned,
                    after,
                    user,
                    connection,
                    publish.presence,
                    r->0.presence,
                )
            },
    }
}

impl RoomState {
    /// Whether the counters have room for these setups.
    fn can_plan(&self, setups: usize) -> (r: bool)
        ensures
            r == has_room(self@, setups as nat),
    {
        setups as u64 <= u64::MAX - self.next_consumer_id && self.topology.can_reserve(setups)
    }

    /// Whether the counters have room to set up every publication for a receiver.
    pub fn has_room_for_routes(&self) -> (r: bool)
        requires
            self.wf(),
        ensures
            r == has_room(self@, source_order(self@.topology.sources).len()),
    {
        self.can_plan(self.topology.publication_count())
    }

    /// Whether the counters have room for one more publication.
    pub fn has_room_for_publication(&self, rtp: &RtpStream) -> (r: bool)
        requires
            self.wf(),
        ensures
            r == has_room_to_publish(self@, *rtp),
    {
        self.topology.can_publish(rtp.bindings.len()) && self.can_plan(self.user_count())
    }

    /// The publication of a stream, while it is of this exact connection.
    pub fn published_source_id(
        &self,
        owner: &UserId,
        connection: ConnectionId,
        stream: &UserStreamId,
    ) -> (r: Option<PublishedSourceId>)
        requires
            self.wf(),
        ensures
            r == source_of_connection(
                self@.topology.sources,
                owner.id(),
                connection,
                stream.id(),
            ),
    {
        self.topology.published_source_id(owner, connection, stream)
    }

    /// The publication of a stream of the connection that a user has.
    pub fn published_source_id_for_user(&self, user: &UserId, stream: &UserStreamId) -> (r: Option<
        PublishedSourceId,
    >)
        requires
            self.wf(),
        ensures
            r == if self@.users.contains_key(user.id()) {
                source_of_connection(
                    self@.topology.sources,
                    user.id(),
                    self@.users[user.id()].connection_id,
                    stream.id(),
                )
            } else {
                None
            },
    {
        match self.user_connection_id(user) {
            Some(connection) => self.published_source_id(user, connection, stream),
            None => None,
        }
    }

    /// The stream whose publication uses a transport medium.
    pub fn producer_stream_id_for_transport_media_id(
        &self,
        transport_media_id: TransportMediaId,
    ) -> (r: Option<UserStreamId>)
        requires
            self.wf(),
        ensures
            match r {
                Some(stream) => exists|id: u64|
                    #![trigger first_with_media(self@.topology.sources, transport_media_id, id)]
                    first_with_media(self@.topology.sources, transport_media_id, id)
                        && self@.topology.sources[id].descriptor.stream_id == stream,
                None => forall|id: u64| #[trigger]
                    self@.topology.sources.contains_key(id)
                        ==> self@.topology.sources[id].transport.media != transport_media_id,
            },
    {
        match self.topology.source_for_transport_media(transport_media_id) {
            Some(source) => {
                proof {
                    assert(first_with_media(
                        self@.topology.sources,
                        transport_media_id,
                        source.descriptor.source_id.0,
                    ));
                }
                Some(source.descriptor.stream_id.clone())
            },
            None => None,
        }
    }

    /// Changes the activity of a publication of this exact connection.
    pub fn apply_publication_activity(
        &mut self,
        user_id: &UserId,
        connection_id: ConnectionId,
        stream_id: &UserStreamId,
        active: bool,
        presence: Option<UserInfo>,
    ) -> (r: Result<ProducerActivityCommit, ProducerActivityRejection>)
        requires
            old(self).wf(),
        ensures
            final(self).wf(),
            changes_activity(
                old(self)@,
                user_id.id(),
                connection_id,
                *stream_id,
                active,
                presence,
                final(self)@,
                r,
            ),
    {
        let ghost st = old(self)@;
        let source_id = match self.published_source_id(user_id, connection_id, stream_id) {
            None => {
                return Err(ProducerActivityRejection::MissingPublication);
            },
            Some(source_id) => source_id,
        };
        let revision = match self.topology.set_published_source_activity(
            source_id,
            connection_id,
            active,
        ) {
            None => {
                return Err(ProducerActivityRejection::StalePublication);
            },
            Some(revision) => revision,
        };
        let recipients = self.topology.committed_consumer_user_ids_for_source(source_id);
        proof {
            lemma_sorted::<UserId>(
                user_identities(recipients@),
                receivers_of(self@.topology.graph.subscriptions, source_id.0),
            );
        }
        let source = match self.topology.published_source(source_id) {
            None => {
                return Err(ProducerActivityRejection::StalePublication);
            },
            Some(source) => source.transport.clone(),
        };
        let update = SourceActivityUpdate::new(ProducerActivity::from_active(active), revision);
        let remote_activity_effects = self.topology.source_activity_effects(&source, update);
        proof {
            assert(self@.placed());
        }
        let presence_commit = match presence {
            Some(info) => self.apply_presence_update(user_id, connection_id, info),
            None => None,
        };
        proof {
            assert(self@ =~= with_activity(
                st,
                source_id,
                active,
                user_id.id(),
                connection_id,
                presence,
            ));
        }
        let track_snapshots = self.remote_track_snapshots_for_users(&recipients, false);
        Ok(
            ProducerActivityCommit {
                source,
                stream_id: stream_id.clone(),
                update,
                remote_activity_effects,
                track_snapshots,
                presence: presence_commit,
            },
        )
    }

    /// What a user that has negotiated may publish.
    pub fn validate_publish(
        &self,
        user_id: &UserId,
        publisher_connection_id: ConnectionId,
        intent: &SourcePublishIntent,
    ) -> (r: Option<ValidatedPublish>)
        requires
            self.wf(),
        ensures
            match r {
                None => !negotiated_user(self@, user_id.id(), publisher_connection_id),
                Some(publish) => negotiated_user(self@, user_id.id(), publisher_connection_id)
                    && is_validated(self@, *user_id, publisher_connection_id, *intent, publish),
            },
    {
        match self.user_for_connection(user_id, publisher_connection_id) {
            None => {
                return None;
            },
            Some(user) => {
                if user.capabilities.is_none() {
                    return None;
                }
            },
        }
        Some(
            ValidatedPublish {
                session_key: self.topology.transport_user_key(user_id, publisher_connection_id),
                stream_id: intent.stream_id.clone(),
                media_kind: intent.media_kind,
                policy: intent.policy,
                presence: intent.presence,
            },
        )
    }

    /// Decides what a request to publish leads to. A stream that is published becomes
    /// active; one that is not is queued while a negotiation is under way.
    pub fn apply_publish_intent(
        &mut self,
        user_id: &UserId,
        publisher_connection_id: ConnectionId,
        intent: &SourcePublishIntent,
        can_stage: bool,
    ) -> (r: PublishIntentPlan)
        requires
            old(self).wf(),
        ensures
            final(self).wf(),
            plans_publish(
                old(self)@,
                *user_id,
                publisher_connection_id,
                *intent,
                can_stage,
                final(self)@,
                r,
            ),
    {
        if self.user_for_connection(user_id, publisher_connection_id).is_none() {
            return PublishIntentPlan::Noop;
        }
        if self.published_source_id(
            user_id,
            publisher_connection_id,
            &intent.stream_id,
        ).is_some() {
            let change = self.apply_publication_activity(
                user_id,
                publisher_connection_id,
                &intent.stream_id,
                true,
                intent.presence,
            );
            let ghost known = change;
            let plan = match change {
                Ok(commit) => PublishIntentPlan::Activate(commit),
                Err(_) => PublishIntentPlan::Noop,
            };
            proof {
                assert(plan == plan_of(known));
            }
            return plan;
        }
        if !can_stage {
            return PublishIntentPlan::Queue;
        }
        match self.validate_publish(user_id, publisher_connection_id, intent) {
            Some(publish) => PublishIntentPlan::Stage(publish),
            None => PublishIntentPlan::Noop,
        }
    }

    /// Whether a negotiated publication may still be committed.
    pub fn validate_publish_commit(&self, publish: &ValidatedPublish) -> (r: bool)
        requires
            self.wf(),
        ensures
            r == publishable(self@, *publish),
    {
        let user_id = &publish.session_key.user;
        match self.user_for_connection(user_id, publish.session_key.connection) {
            None => {
                return false;
            },
            Some(user) => {
                if user.capabilities.is_none() {
                    return false;
                }
            },
        }
        self.topology.source_id_for_owner_stream(user_id, &publish.stream_id).is_none()
    }

    /// Commits a negotiated publication and plans its routes for everyone. Nothing is
    /// committed where the publisher changed, the descriptor is not valid or the
    /// router refuses the producer.
    pub fn commit_publish_reservation<
        V: FnOnce(&PublishedSourceDescriptor) -> Option<SourceModelError>,
        A: FnOnce(&UserId, ProducerId) -> Result<RoutedProducerId, RouterError>,
        N: Fn(&RtpStream, &MediaCapabilities) -> Option<RtpStream>,
    >(
        &mut self,
        publish: ValidatedPublish,
        consumable_rtp_parameters: RtpStream,
        upload_encodings: &Vec<SessionUploadEncoding>,
        transport_media_id: TransportMediaId,
        validate: V,
        add_producer: A,
        negotiate: &N,
    ) -> (r: Option<PublishCommit>)
        requires
            old(self).wf(),
            has_room_to_publish(old(self)@, consumable_rtp_parameters),
            forall|descriptor: &PublishedSourceDescriptor| validate.requires((descriptor,)),
            add_producer.requires((&publish.session_key.user, ProducerId(old(self)@.topology.next_producer))),
            forall|rtp: &RtpStream, caps: &MediaCapabilities| negotiate.requires((rtp, caps)),
        ensures
            final(self).wf(),
            !publishable(old(self)@, publish) ==> r is None && final(self)@ == old(self)@,
            publishable(old(self)@, publish) ==> exists|
                descriptor: PublishedSourceDescriptor,
                verdict: Option<SourceModelError>,
            |
                #![trigger validate.ensures((&descriptor,), verdict)]
                {
                    &&& describes_publication(
                        descriptor,
                        publish,
                        consumable_rtp_parameters,
                        upload_encodings@,
                        old(self)@.topology.next_source,
                        old(self)@.topology.next_encoding,
                    )
                    &&& validate.ensures((&descriptor,), verdict)
                    &&& match verdict {
                        Some(_) => r is None && final(self)@ == (State {
                            topology: described(
                                old(self)@.topology,
                                consumable_rtp_parameters,
                            ),
                            ..old(self)@
                        }),
                        None => exists|answer: Result<RoutedProducerId, RouterError>|
                            #![trigger add_producer.ensures(
                                (&publish.session_key.user, ProducerId(old(self)@.topology.next_producer)),
                                answer,
                            )]
                            add_producer.ensures(
                                (&publish.session_key.user, ProducerId(old(self)@.topology.next_producer)),
                                answer,
                            ) && publishes_to(
                                *negotiate,
                                old(self)@,
                                publish,
                                consumable_rtp_parameters,
                                transport_media_id,
                                descriptor,
                                answer,
                                final(self)@,
                                r,
                            ),
                    }
                },
    {
        let ghost st = old(self)@;
        if !self.validate_publish_commit(&publish) {
            return None;
        }
        proof {
            let stream = OwnerStream {
                owner: publish.session_key.user.id(),
                stream: publish.stream_id.id(),
            };
            assert(unpublished(st.topology.sources, stream)) by {
                assert forall|id: u64| #[trigger]
                    st.topology.sources.contains_key(
                        id,
                    ) implies st.topology.sources[id].stream() != stream by {
                    if st.topology.sources[id].stream() == stream {
                        self.topology.lemma_consistent();
                        crate::sources::lemma_published_as(st.topology.sources, id, stream);
                    }
                }
            }
        }
        let owner = publish.session_key.user.clone();
        let connection = publish.session_key.connection;
        let presence = publish.presence;
        let source_id = match self.topology.commit_publication(
            publish,
            consumable_rtp_parameters,
            upload_encodings,
            transport_media_id,
            validate,
            add_producer,
        ) {
            Err(_) => {
                proof {
                    assert(self@ =~= in_topology(st, self@.topology));
                }
                return None;
            },
            Ok(source_id) => source_id,
        };
        proof {
            assert(self@ =~= in_topology(st, self@.topology));
            assert(self@.placed());
        }
        let ghost committed = self@;
        let receiver_route_work = self.plan_missing_receiver_routes(
            ReceiverRouteScope::Source(source_id),
            negotiate,
        );
        let ghost planned = self@;
        let presence = match presence {
            Some(info) => self.apply_presence_update(&owner, connection, info),
            None => None,
        };
        let commit = PublishCommit { source_id, receiver_route_work, presence };
        proof {
            let id = PublishedSourceId(st.topology.next_source);
            assert(source_id == id);
            assert(plans_scope(
                *negotiate,
                in_topology(st, committed.topology),
                ReceiverRouteScope::Source(id),
                planned,
                Some(commit)->0.receiver_route_work.setups@,
            ));
        }
        Some(commit)
    }
}

/// What a request to publish leads to.
pub open spec fn plans_publish(
    st: State,
    user: UserId,
    connection: ConnectionId,
    intent: SourcePublishIntent,
    can_stage: bool,
    after: State,
    r: PublishIntentPlan,
) -> bool {
    let published = source_of_connection(
        st.topology.sources,
        user.id(),
        connection,
        intent.stream_id.id(),
    );
    if !st.current(user.id(), connection) {
        after == st && r is Noop
    } else if published is Some {
        exists|change: Result<ProducerActivityCommit, ProducerActivityRejection>|
            #![trigger plan_of(change)]
            changes_activity(
                st,
                user.id(),
                connection,
                intent.stream_id,
                true,
                intent.presence,
                after,
                change,
            ) && r == plan_of(change)
    } else if !can_stage {
        after == st && r is Queue
    } else if negotiated_user(st, user.id(), connection) {
        after == st && (r matches PublishIntentPlan::Stage(publish) && is_validated(
            st,
            user,
            connection,
            intent,
            publish,
        ))
    } else {
        after == st && r is Noop
    }
}

/// The plan that a change of activity makes.
pub open spec fn plan_of(
    change: Result<ProducerActivityCommit, ProducerActivityRejection>,
) -> PublishIntentPlan {
    match change {
        Ok(commit) => PublishIntentPlan::Activate(commit),
        Err(_) => PublishIntentPlan::Noop,
    }
}

} // verus!
