use sfu_room::consumer_setup::{
    ConsumerSetupOrigin, ConsumerSetupOutcome, PendingConsumerSetup,
};
use sfu_room::ids::{
    ConnectionId, MediaWorkerId, OutboundLane, ProducerId, PublishedSourceId, RoomInstanceId,
    RoutedConsumerId, RoutedProducerId, RouterId, TransportMediaId, UserId, UserStreamId,
};
use sfu_room::ord_map::OrdMap;
use sfu_room::route_graph::PendingUpgrade;
use sfu_room::source_model::{
    Bitrate, ConsumerSourceSelection, MediaCapabilities, MediaKind, Moment, PolicyPauseReason,
    RtpBinding, RtpStream, SessionUploadEncoding, SourceEncodingDescriptor, SourcePolicy,
    SourcePublishIntent, SourceRoomPolicySelector, SourceSelector, SourceSubscriptionIntent,
    UploadLayerPolicyRole, UserInfo,
};
use sfu_room::state::{RoomState, UserJoinedFanout};
use sfu_room::subscription::ConsumerRouteState;
use sfu_room::topology::{RouterRelease, SourceModelError};
use sfu_room::producer::ValidatedPublish;
use sfu_room::transport::{
    ProducerActivity, SourceActivityRevision, SourceActivityUpdate, SubscriptionKey,
    TransportRelayRouteAction, TransportSessionKey, TransportTeardown,
};

#[derive(Clone, Copy)]
enum TestSourceKind {
    ScalableVideo,
    ReadableVideo,
    AudioDetector,
}

fn stream_id_for_source(kind: TestSourceKind) -> UserStreamId {
    match kind {
        TestSourceKind::ScalableVideo => UserStreamId::new("camera"),
        TestSourceKind::ReadableVideo => UserStreamId::new("screen"),
        TestSourceKind::AudioDetector => UserStreamId::new("audio"),
    }
}

fn source_publish_intent_for_source(kind: TestSourceKind) -> SourcePublishIntent {
    let (media_kind, layout) = match kind {
        TestSourceKind::ScalableVideo => {
            (MediaKind::Video, SourceRoomPolicySelector::VisibleThumbnail)
        }
        TestSourceKind::ReadableVideo => {
            (MediaKind::Video, SourceRoomPolicySelector::ReadableDetail)
        }
        TestSourceKind::AudioDetector => (MediaKind::Audio, SourceRoomPolicySelector::Hidden),
    };
    SourcePublishIntent {
        stream_id: stream_id_for_source(kind),
        media_kind,
        policy: SourcePolicy { layout, active_speaker: None, video_bitrate_cap: None },
        presence: None,
    }
}

fn capabilities() -> MediaCapabilities {
    MediaCapabilities { formats: vec![] }
}

fn binding(rid: Option<&str>, ssrc: u32, max_bitrate: Option<u64>) -> RtpBinding {
    RtpBinding { rid: rid.map(str::to_owned), ssrc: Some(ssrc), max_bitrate, payload_type: None }
}

fn stream(mid: Option<&str>, bindings: Vec<RtpBinding>) -> RtpStream {
    RtpStream { mid: mid.map(str::to_owned), bindings, formats: vec![] }
}

fn video_rtp(ssrc: u32) -> RtpStream {
    stream(None, vec![binding(None, ssrc, None)])
}

/// Every receiver can take every stream as it is.
fn negotiate(rtp: &RtpStream, _capabilities: &MediaCapabilities) -> Option<RtpStream> {
    Some(RtpStream {
        mid: rtp.mid.clone(),
        bindings: rtp
            .bindings
            .iter()
            .map(|own| RtpBinding {
                rid: own.rid.clone(),
                ssrc: own.ssrc,
                max_bitrate: own.max_bitrate,
                payload_type: own.payload_type,
            })
            .collect(),
        formats: rtp.formats.clone(),
    })
}

fn accept_producer(connection: ConnectionId, producer: ProducerId) -> RoutedProducerId {
    RoutedProducerId { router: RouterId(1), connection, producer }
}

fn lane(user_id: &UserId) -> OutboundLane {
    match user_id {
        UserId::Integer(raw) => OutboundLane(*raw as u64),
        UserId::String(_) => OutboundLane(0),
    }
}

fn join_on(state: &mut RoomState, user_id: &UserId, worker: usize) -> ConnectionId {
    state
        .apply_join(user_id, lane(user_id), UserJoinedFanout::Emit, |placed, _| {
            assert_eq!(placed, user_id);
            Ok(MediaWorkerId(worker))
        })
        .expect("test user should join")
        .receipt
        .transport_session_key
        .connection_id()
}

fn join_test_user(state: &mut RoomState, user_id: &UserId) -> ConnectionId {
    join_on(state, user_id, 0)
}

fn set_test_user_ready(state: &mut RoomState, user_id: &UserId) -> ConnectionId {
    let connection_id =
        state.user_connection_id(user_id).expect("user should have a connection id");
    assert!(state.set_user_negotiated(user_id, connection_id, capabilities()).is_some());
    connection_id
}

fn commit_setup_with_media(
    state: &mut RoomState,
    setup: PendingConsumerSetup,
    media: TransportMediaId,
    mid: Option<String>,
) -> ConsumerSetupOutcome {
    let target = setup.target.session.user.clone();
    let routed = setup.target.routed;
    let connection = setup.target.session.connection_id();
    let declared = setup.declare(Some(media), mid).ok().expect("transport should declare");
    let origin = ConsumerSetupOrigin::Subscribe;
    state.commit_declared_consumer_setup(declared, origin, |user, consumer, producer| {
        assert_eq!(*user, target);
        assert_eq!(producer, routed);
        Some(RoutedConsumerId { router: RouterId(1), connection, consumer })
    })
}

fn commit_setup(state: &mut RoomState, setup: PendingConsumerSetup) -> ConsumerSetupOutcome {
    commit_setup_with_media(state, setup, TransportMediaId::new(20), Some(String::from("m0")))
}

fn test_state() -> RoomState {
    RoomState::new(RoomInstanceId::from_raw(0), 4, 16)
}

fn test_state_with_download_limit(max_video_downloads: usize) -> RoomState {
    RoomState::new(RoomInstanceId::from_raw(0), 4, max_video_downloads)
}

fn intents(
    kind: TestSourceKind,
    active: bool,
) -> OrdMap<UserStreamId, SourceSubscriptionIntent> {
    let mut intents = OrdMap::new();
    intents.insert(
        stream_id_for_source(kind),
        SourceSubscriptionIntent::new(Some(active), None),
    );
    intents
}

fn test_upload_encodings() -> Vec<SessionUploadEncoding> {
    vec![
        SessionUploadEncoding {
            rid: "lo".to_owned(),
            max_bitrate: Some(Bitrate::from_kbps(180)),
            resolution_scale: Some(4),
            max_framerate: Some(15),
        },
        SessionUploadEncoding {
            rid: "hi".to_owned(),
            max_bitrate: Some(Bitrate::from_kbps(950)),
            resolution_scale: Some(1),
            max_framerate: None,
        },
    ]
}

fn assert_upload_profile_metadata(encodings: &[SourceEncodingDescriptor]) {
    assert_eq!(encodings[0].resolution_scale, Some(4));
    assert_eq!(encodings[0].max_framerate, Some(15));
    assert_eq!(encodings[0].policy_role, Some(UploadLayerPolicyRole::Thumbnail));
    assert_eq!(encodings[1].resolution_scale, Some(1));
    assert_eq!(encodings[1].max_framerate, None);
    assert_eq!(encodings[1].policy_role, Some(UploadLayerPolicyRole::Featured));
}

fn commit_test_publication_with_rtp(
    state: &mut RoomState,
    user_id: &UserId,
    kind: TestSourceKind,
    rtp: RtpStream,
    media: TransportMediaId,
) -> PublishedSourceId {
    let connection_id =
        state.user_connection_id(user_id).expect("publisher should have a connection id");
    let intent = source_publish_intent_for_source(kind);
    let publish = ValidatedPublish {
        session_key: state.transport_user_key(user_id, connection_id),
        stream_id: intent.stream_id,
        media_kind: intent.media_kind,
        policy: intent.policy,
        presence: intent.presence,
    };
    state
        .topology
        .commit_publication(
            publish,
            rtp,
            &vec![],
            media,
            |_| None,
            |publisher, producer| {
                assert_eq!(publisher, user_id);
                Ok(accept_producer(connection_id, producer))
            },
        )
        .expect("test publication should commit")
}

fn install_test_consumer_route(
    state: &mut RoomState,
    producer_user_id: &UserId,
    consumer_user_id: &UserId,
) -> (SubscriptionKey, ConnectionId) {
    join_test_user(state, producer_user_id);
    join_test_user(state, consumer_user_id);
    let consumer_connection_id = set_test_user_ready(state, consumer_user_id);
    commit_test_publication_with_rtp(
        state,
        producer_user_id,
        TestSourceKind::ScalableVideo,
        video_rtp(77_777),
        TransportMediaId::new(1),
    );
    let route_key = SubscriptionKey::new(
        consumer_user_id,
        producer_user_id,
        &stream_id_for_source(TestSourceKind::ScalableVideo),
    );
    let mut setups = state
        .plan_missing_consumers(consumer_user_id, consumer_connection_id, &negotiate)
        .expect("consumer session should exist");
    assert_eq!(setups.len(), 1);
    let setup = setups.pop().expect("consumer setup should be planned");
    assert!(matches!(
        commit_setup_with_media(
            state,
            setup,
            TransportMediaId::new(2),
            Some(String::from("camera-down")),
        ),
        ConsumerSetupOutcome::Committed { .. }
    ));
    (route_key, consumer_connection_id)
}

fn pending_consumer_setup(
) -> (RoomState, UserId, UserId, ConnectionId, UserStreamId, PendingConsumerSetup) {
    let mut state = test_state();
    let publisher = UserId::Integer(1);
    let subscriber = UserId::Integer(2);
    let stream_id = stream_id_for_source(TestSourceKind::ScalableVideo);
    join_test_user(&mut state, &publisher);
    join_test_user(&mut state, &subscriber);
    let subscriber_connection = set_test_user_ready(&mut state, &subscriber);
    commit_test_publication_with_rtp(
        &mut state,
        &publisher,
        TestSourceKind::ScalableVideo,
        video_rtp(22_222),
        TransportMediaId::new(10),
    );
    let mut planned = state
        .plan_missing_consumers(&subscriber, subscriber_connection, &negotiate)
        .expect("subscriber session should exist");
    assert_eq!(planned.len(), 1);
    let setup = planned.pop().expect("setup should be planned");
    (state, publisher, subscriber, subscriber_connection, stream_id, setup)
}

#[test]
fn consumer_setup_mid_uses_transport_then_negotiated_then_id() {
    for (negotiated, transport, expected) in [
        (None, None, "consumer-1"),
        (Some("negotiated-mid"), None, "negotiated-mid"),
        (
            Some("negotiated-mid"),
            Some(String::from("transport-mid")),
            "transport-mid",
        ),
    ] {
        let (mut state, publisher, subscriber, _, stream, mut setup) = pending_consumer_setup();
        if let Some(mid) = negotiated {
            setup.rtp.mid = Some(mid.to_owned());
        }
        assert!(matches!(
            commit_setup_with_media(&mut state, setup, TransportMediaId::new(20), transport),
            ConsumerSetupOutcome::Committed { .. }
        ));
        let key = SubscriptionKey::new(&subscriber, &publisher, &stream);

        assert_eq!(
            state
                .topology
                .committed_consumer_route_for_key(&key)
                .map(|route| route.mid.as_str()),
            Some(expected)
        );
    }
}

#[test]
fn stale_replaced_connection_cannot_update_download_state() {
    let mut state = test_state();
    let producer_user_id = UserId::Integer(1);
    let consumer_user_id = UserId::Integer(2);

    let (route_key, stale_connection_id) =
        install_test_consumer_route(&mut state, &producer_user_id, &consumer_user_id);

    join_test_user(&mut state, &consumer_user_id);

    assert!(state
        .apply_receiver_intent(
            &consumer_user_id,
            stale_connection_id,
            &producer_user_id,
            &intents(TestSourceKind::ScalableVideo, false),
            &negotiate,
        )
        .is_none());
    assert!(
        state.topology.subscription_intent(&route_key).active().unwrap_or(true),
        "stale subscription updates must not overwrite the replacement user's stored preferences"
    );
    assert_eq!(
        state.topology.media_counts().subscriptions,
        0,
        "replacement join should clear stale consumer routes"
    );
}

#[test]
fn stored_intent_attaches_before_readiness_then_reserves_setup() {
    let mut state = test_state();
    let publisher = UserId::Integer(1);
    let receiver = UserId::Integer(2);
    let publisher_connection = join_test_user(&mut state, &publisher);
    let receiver_connection = join_test_user(&mut state, &receiver);
    assert!(state
        .set_user_negotiated(&publisher, publisher_connection, capabilities())
        .is_some());
    let intent = source_publish_intent_for_source(TestSourceKind::ScalableVideo);
    assert!(state
        .apply_receiver_intent(
            &receiver,
            receiver_connection,
            &publisher,
            &intents(TestSourceKind::ScalableVideo, false),
            &negotiate,
        )
        .is_some());
    let publish = state
        .validate_publish(&publisher, publisher_connection, &intent)
        .expect("ready publisher should validate");
    let commit = state
        .commit_publish_reservation(
            publish,
            video_rtp(22_222),
            &vec![],
            TransportMediaId::new(10),
            |_| None,
            |_, producer| Ok(accept_producer(publisher_connection, producer)),
            &negotiate,
        )
        .expect("publication should commit");
    assert!(commit.receiver_route_work.setups.is_empty());
    let source_id = state
        .published_source_id(&publisher, publisher_connection, &intent.stream_id)
        .expect("publication should be current");
    let key = SubscriptionKey::new(&receiver, &publisher, &intent.stream_id);
    assert_eq!(
        state.topology.consumer_source_selection(&key, source_id),
        Some(ConsumerSourceSelection::open(false))
    );
    assert_eq!(
        state.set_user_negotiated(&receiver, receiver_connection, capabilities()),
        Some(true)
    );
    let readiness = state
        .refresh_consumer_readiness(&receiver, receiver_connection, &vec![], &negotiate)
        .expect("receiver should remain current");
    assert_eq!(readiness.work.setups.len(), 1);
}

#[test]
fn missing_consumer_setup_applies_video_cap_before_transport() {
    let mut state = test_state_with_download_limit(1);
    let publisher = UserId::Integer(1);
    let receiver = UserId::Integer(2);
    join_test_user(&mut state, &publisher);
    join_test_user(&mut state, &receiver);
    let receiver_connection = set_test_user_ready(&mut state, &receiver);
    let scalable = commit_test_publication_with_rtp(
        &mut state,
        &publisher,
        TestSourceKind::ScalableVideo,
        video_rtp(22_222),
        TransportMediaId::new(10),
    );
    let readable = commit_test_publication_with_rtp(
        &mut state,
        &publisher,
        TestSourceKind::ReadableVideo,
        video_rtp(33_333),
        TransportMediaId::new(11),
    );
    let setups = state
        .plan_missing_consumers(&receiver, receiver_connection, &negotiate)
        .expect("receiver should remain current");
    assert_eq!(setups.len(), 2);
    let declared_active = |source_id| {
        setups
            .iter()
            .find(|setup| setup.target.source_id == source_id)
            .expect("published source should have a setup")
            .reservation
            .declared_activity()
            .is_active()
    };
    assert!(declared_active(readable));
    assert!(!declared_active(scalable));
    let key = SubscriptionKey::new(
        &receiver,
        &publisher,
        &stream_id_for_source(TestSourceKind::ScalableVideo),
    );
    assert_eq!(
        state
            .topology
            .consumer_source_selection(&key, scalable)
            .expect("pending route should retain its policy selection")
            .policy_pause_reason(),
        Some(PolicyPauseReason::VideoDownloadLimit)
    );
}

#[test]
fn consumer_setup_commit_uses_latest_room_state() {
    let (mut state, publisher, subscriber, subscriber_connection, stream_id, mut setup) =
        pending_consumer_setup();
    let target_worker = MediaWorkerId::from_raw(1);
    setup.target.session = TransportSessionKey::new(
        setup.target.session.room,
        target_worker,
        setup.target.session.connection_id(),
        setup.target.session.user_id().clone(),
    );

    let publisher_connection =
        state.user_connection_id(&publisher).expect("publisher should have a connection id");
    let source_id = state
        .published_source_id(&publisher, publisher_connection, &stream_id)
        .expect("published source should exist");
    assert!(state
        .topology
        .set_published_source_activity(source_id, publisher_connection, false)
        .is_some());

    let change = state
        .apply_receiver_intent(
            &subscriber,
            subscriber_connection,
            &publisher,
            &intents(TestSourceKind::ScalableVideo, false),
            &negotiate,
        )
        .expect("subscriber should remain current");
    assert!(change.work.setups.is_empty());

    let ConsumerSetupOutcome::Committed {
        track_snapshot: snapshot,
        remote_source_activity,
        transport_activity_update,
        ..
    } = commit_setup(&mut state, setup)
    else {
        panic!("current room state should still accept the setup");
    };
    assert!(snapshot.snapshot.tracks.iter().any(|track| !track.producer_active));
    let transport_activity_update =
        transport_activity_update.expect("transport declaration should be corrected");
    assert!(!transport_activity_update);
    let remote_source_activity =
        remote_source_activity.expect("remote setup should reconcile source activity");
    assert_eq!(remote_source_activity.target_media_worker_id, target_worker);
    assert_eq!(
        remote_source_activity.update,
        SourceActivityUpdate::new(
            ProducerActivity::Inactive,
            SourceActivityRevision::default().next(),
        )
    );
    assert_eq!(
        state.consumer_route_state(&subscriber, &publisher, &stream_id),
        Some(ConsumerRouteState::Inactive)
    );
}

#[test]
fn consumer_setup_commit_releases_stale_receiver_plan() {
    let (mut state, _publisher, subscriber, _connection, _stream_id, setup) =
        pending_consumer_setup();
    assert_eq!(state.topology.media_counts().subscriptions, 1);

    state.users.get_mut(&subscriber).expect("subscriber should exist").connection_id =
        ConnectionId::from_raw(900);
    let ConsumerSetupOutcome::Released(..) = commit_setup(&mut state, setup) else {
        panic!("stale receiver setup should be released");
    };

    assert_eq!(state.topology.media_counts().subscriptions, 0);
}

#[test]
fn consumer_setup_commit_releases_stale_publication_plan() {
    let (mut state, publisher, _subscriber, _connection, stream_id, setup) =
        pending_consumer_setup();
    assert_eq!(state.topology.media_counts().subscriptions, 1);

    let source_id = state
        .topology
        .source_id_for_owner_stream(&publisher, &stream_id)
        .expect("publisher source should exist");
    assert!(state.topology.remove_source(source_id).is_some());
    let ConsumerSetupOutcome::Released(..) = commit_setup(&mut state, setup) else {
        panic!("stale producer setup should be released");
    };

    assert_eq!(state.topology.media_counts().subscriptions, 0);
}

#[test]
fn commit_publish_reservation_registers_all_source_encodings() {
    let mut state = test_state();
    let user_id = UserId::Integer(1);

    join_test_user(&mut state, &user_id);
    let connection_id = set_test_user_ready(&mut state, &user_id);

    let rtp = stream(
        Some("camera-0"),
        vec![
            binding(Some("lo"), 31_001, Some(150_000)),
            binding(Some("hi"), 31_002, Some(900_000)),
        ],
    );
    let validated_publish = state
        .validate_publish(
            &user_id,
            connection_id,
            &source_publish_intent_for_source(TestSourceKind::ScalableVideo),
        )
        .expect("publish descriptor should validate once the user is publish-ready");
    let transport_media_id = TransportMediaId::new(101);

    assert!(state
        .commit_publish_reservation(
            validated_publish,
            rtp,
            &test_upload_encodings(),
            transport_media_id,
            |_| None,
            |_, producer| Ok(accept_producer(connection_id, producer)),
            &negotiate,
        )
        .is_some());

    let source_id = state
        .topology
        .source_for_transport_media(transport_media_id)
        .expect("transport media should resolve to the committed source")
        .descriptor
        .source_id;
    let source = &state
        .topology
        .published_source(source_id)
        .expect("source registry should own the committed source")
        .descriptor;
    assert_eq!(source.owner, user_id);
    assert_eq!(source.stream_id, stream_id_for_source(TestSourceKind::ScalableVideo));
    assert_eq!(source.mid.as_deref(), Some("camera-0"));
    let encodings = &source.encodings;
    assert_eq!(encodings.len(), 2);
    assert_eq!(encodings[0].rid.as_deref(), Some("lo"));
    assert_eq!(encodings[1].rid.as_deref(), Some("hi"));
    assert_eq!(encodings[0].primary_ssrc, Some(31_001));
    assert_eq!(encodings[1].primary_ssrc, Some(31_002));
    assert_eq!(encodings[0].max_bitrate, Some(Bitrate::from_kbps(150)));
    assert_eq!(encodings[1].max_bitrate, Some(Bitrate::from_kbps(900)));
    assert_upload_profile_metadata(encodings);
    let ids: Vec<_> = encodings.iter().map(|encoding| encoding.encoding_id).collect();
    assert_eq!(
        state
            .topology
            .source_for_transport_media(transport_media_id)
            .expect("transport media should resolve to source encoding ids")
            .descriptor
            .encodings
            .iter()
            .map(|encoding| encoding.encoding_id)
            .collect::<Vec<_>>(),
        ids
    );
}

#[test]
fn publication_preserves_negotiated_upload_roles() {
    let upload_encoding = |rid: &str| {
        let mut all = test_upload_encodings();
        all.insert(
            1,
            SessionUploadEncoding {
                rid: "mid".to_owned(),
                max_bitrate: Some(Bitrate::from_kbps(450)),
                resolution_scale: Some(2),
                max_framerate: None,
            },
        );
        all.into_iter().find(|encoding| encoding.rid == rid).unwrap()
    };
    for expected in [
        &[
            ("lo", 4, UploadLayerPolicyRole::DegradedThumbnail),
            ("mid", 2, UploadLayerPolicyRole::Thumbnail),
            ("hi", 1, UploadLayerPolicyRole::Featured),
        ][..],
        &[("mid", 2, UploadLayerPolicyRole::Thumbnail)],
    ] {
        let mut state = test_state();
        let user_id = UserId::Integer(1);
        join_test_user(&mut state, &user_id);
        let connection_id = set_test_user_ready(&mut state, &user_id);
        let rtp = stream(
            Some("camera-0"),
            expected
                .iter()
                .enumerate()
                .map(|(at, (rid, _, _))| binding(Some(rid), 41_001 + at as u32, None))
                .collect(),
        );
        let publish = state
            .validate_publish(
                &user_id,
                connection_id,
                &source_publish_intent_for_source(TestSourceKind::ScalableVideo),
            )
            .expect("ready publisher should validate");
        let accepted = expected.iter().map(|(rid, _, _)| upload_encoding(rid)).collect();
        let media = TransportMediaId::new(101);
        assert!(state
            .commit_publish_reservation(
                publish,
                rtp,
                &accepted,
                media,
                |_| None,
                |_, producer| Ok(accept_producer(connection_id, producer)),
                &negotiate,
            )
            .is_some());
        let source = &state.topology.source_for_transport_media(media).unwrap().descriptor;
        let metadata = source
            .encodings
            .iter()
            .map(|encoding| {
                (encoding.rid.as_deref(), encoding.resolution_scale, encoding.policy_role)
            })
            .collect::<Vec<_>>();
        assert_eq!(
            metadata,
            expected
                .iter()
                .map(|(rid, scale, role)| (Some(*rid), Some(*scale), Some(*role)))
                .collect::<Vec<_>>()
        );
    }
}

#[test]
fn an_invalid_descriptor_is_not_published() {
    let mut state = test_state();
    let user_id = UserId::Integer(1);
    join_test_user(&mut state, &user_id);
    let connection_id = set_test_user_ready(&mut state, &user_id);
    let intent = source_publish_intent_for_source(TestSourceKind::ScalableVideo);
    let publish = state.validate_publish(&user_id, connection_id, &intent).unwrap();
    let mut asked_router = false;
    assert!(state
        .commit_publish_reservation(
            publish,
            video_rtp(1),
            &vec![],
            TransportMediaId::new(9),
            |_| Some(SourceModelError(String::from("no usable encoding"))),
            |_, producer| {
                asked_router = true;
                Ok(accept_producer(connection_id, producer))
            },
            &negotiate,
        )
        .is_none());
    assert!(!asked_router);
    assert_eq!(state.topology.publication_count(), 0);
}

#[test]
fn a_stream_is_not_published_twice() {
    let mut state = test_state();
    let user_id = UserId::Integer(1);
    join_test_user(&mut state, &user_id);
    let connection_id = set_test_user_ready(&mut state, &user_id);
    let intent = source_publish_intent_for_source(TestSourceKind::ScalableVideo);
    let first = state.validate_publish(&user_id, connection_id, &intent).unwrap();
    let second = first.clone();
    for (publish, media, expected) in [(first, 9, true), (second, 10, false)] {
        assert_eq!(
            state
                .commit_publish_reservation(
                    publish,
                    video_rtp(1),
                    &vec![],
                    TransportMediaId::new(media),
                    |_| None,
                    |_, producer| Ok(accept_producer(connection_id, producer)),
                    &negotiate,
                )
                .is_some(),
            expected
        );
    }
    assert_eq!(state.topology.publication_count(), 1);
}

#[test]
fn routes_across_workers_are_relayed() {
    let mut state = test_state();
    let publisher = UserId::Integer(1);
    let receiver = UserId::Integer(2);
    join_on(&mut state, &publisher, 0);
    join_on(&mut state, &receiver, 1);
    let connection = set_test_user_ready(&mut state, &receiver);
    commit_test_publication_with_rtp(
        &mut state,
        &publisher,
        TestSourceKind::ScalableVideo,
        video_rtp(1),
        TransportMediaId::new(10),
    );
    let mut setups =
        state.plan_missing_consumers(&receiver, connection, &negotiate).unwrap();
    let mut setup = setups.pop().unwrap();
    let relays = setup.take_relays();
    assert!(matches!(relays[0].action, TransportRelayRouteAction::Install));
    assert!(setup.take_relays().is_empty());
    assert!(matches!(commit_setup(&mut state, setup), ConsumerSetupOutcome::Committed { .. }));
    let removal = state.topology.remove_session(&receiver);
    assert_eq!(removal.router_release, RouterRelease::Session { user_id: receiver.clone() });
    let plan = removal.transport_plan;
    assert!(plan
        .teardown
        .iter()
        .any(|teardown| matches!(teardown, TransportTeardown::ReleaseRelayRoute { .. })));
}

#[test]
fn a_released_setup_can_be_planned_again() {
    let (mut state, _publisher, subscriber, connection, _stream_id, setup) =
        pending_consumer_setup();
    assert!(state
        .plan_missing_consumers(&subscriber, connection, &negotiate)
        .unwrap()
        .is_empty());
    assert!(state.release_pending_consumer_setup(setup).is_empty());
    assert_eq!(
        state.plan_missing_consumers(&subscriber, connection, &negotiate).unwrap().len(),
        1
    );
}

#[test]
fn audio_starts_paused_for_a_deaf_receiver() {
    let mut state = test_state();
    let publisher = UserId::Integer(1);
    let receiver = UserId::Integer(2);
    join_test_user(&mut state, &publisher);
    join_test_user(&mut state, &receiver);
    let connection = set_test_user_ready(&mut state, &receiver);
    assert!(state
        .update_user_info(
            &receiver,
            connection,
            UserInfo { is_deaf: Some(true), ..UserInfo::default() }
        )
        .is_some());
    let audio = commit_test_publication_with_rtp(
        &mut state,
        &publisher,
        TestSourceKind::AudioDetector,
        video_rtp(1),
        TransportMediaId::new(10),
    );
    let setups = state.plan_missing_consumers(&receiver, connection, &negotiate).unwrap();
    assert!(!setups[0].reservation.declared_activity().is_active());
    let key = SubscriptionKey::new(
        &receiver,
        &publisher,
        &stream_id_for_source(TestSourceKind::AudioDetector),
    );
    assert_eq!(
        state.topology.consumer_source_selection(&key, audio).unwrap().policy_pause_reason(),
        Some(PolicyPauseReason::ReceiverDeafened)
    );
}

#[test]
fn nothing_is_planned_for_a_receiver_without_negotiation() {
    let mut state = test_state();
    let publisher = UserId::Integer(1);
    let receiver = UserId::Integer(2);
    join_test_user(&mut state, &publisher);
    let connection = join_test_user(&mut state, &receiver);
    commit_test_publication_with_rtp(
        &mut state,
        &publisher,
        TestSourceKind::ScalableVideo,
        video_rtp(1),
        TransportMediaId::new(10),
    );
    assert!(state
        .plan_missing_consumers(&receiver, connection, &negotiate)
        .unwrap()
        .is_empty());
    assert!(state
        .plan_missing_consumers(&receiver, ConnectionId(77), &negotiate)
        .is_none());
    assert!(state
        .refresh_consumer_readiness(&receiver, connection, &vec![], &negotiate)
        .is_none());
}

#[test]
fn a_declined_route_is_dropped_and_its_receiver_told() {
    let (mut state, _publisher, subscriber, connection, _stream_id, setup) =
        pending_consumer_setup();
    assert!(matches!(commit_setup(&mut state, setup), ConsumerSetupOutcome::Committed { .. }));
    assert_eq!(state.topology.consumer_count(), 1);
    let commit = state
        .refresh_consumer_readiness(
            &subscriber,
            connection,
            &vec![TransportMediaId::new(20)],
            &negotiate,
        )
        .unwrap();
    assert_eq!(state.topology.consumer_count(), 0);
    assert!(commit.work.setups.is_empty());
    assert_eq!(commit.dropped_consumers.len(), 1);
    assert_eq!(commit.track_snapshots.len(), 1);
    assert!(commit.track_snapshots[0].1.snapshot.tracks.is_empty());
}

#[test]
fn route_states_follow_the_route() {
    let mut state = test_state();
    let producer = UserId::Integer(1);
    let consumer = UserId::Integer(2);
    let stream_id = stream_id_for_source(TestSourceKind::ScalableVideo);
    assert_eq!(state.consumer_route_state(&consumer, &producer, &stream_id), None);
    let (_, connection) = install_test_consumer_route(&mut state, &producer, &consumer);
    assert_eq!(
        state.consumer_route_state(&consumer, &producer, &stream_id),
        Some(ConsumerRouteState::Active)
    );
    let commit = state
        .apply_receiver_intent(
            &consumer,
            connection,
            &producer,
            &intents(TestSourceKind::ScalableVideo, false),
            &negotiate,
        )
        .unwrap();
    assert_eq!(commit.work.activities.len(), 1);
    assert!(!commit.work.activities[0].active());
    assert_eq!(
        state.consumer_route_state(&consumer, &producer, &stream_id),
        Some(ConsumerRouteState::Inactive)
    );
    assert_eq!(
        state.consumer_route_state(&producer, &consumer, &stream_id),
        Some(ConsumerRouteState::Absent)
    );
}

#[test]
fn a_selection_changes_only_for_its_exact_route() {
    let mut state = test_state();
    let publisher = UserId::Integer(1);
    let subscriber = UserId::Integer(2);
    let (key, _) = install_test_consumer_route(&mut state, &publisher, &subscriber);
    let stream_id = stream_id_for_source(TestSourceKind::ScalableVideo);
    let source_id = state
        .published_source_id_for_user(&publisher, &stream_id)
        .expect("camera should be published");
    let route = {
        let view = state
            .topology
            .committed_consumer_route_for_key(&key)
            .expect("route should be committed");
        view.route.clone()
    };
    let paused = |mut selection: ConsumerSourceSelection| {
        selection.set_policy_pause_reason(Some(PolicyPauseReason::BudgetPressure));
        selection
    };
    let stale = PublishedSourceId(source_id.0 + 1);
    assert!(!state.topology.update_consumer_source_selection(&key, stale, &route, paused));
    assert!(state.topology.update_consumer_source_selection(&key, source_id, &route, paused));
    let view = state
        .topology
        .committed_consumer_route_for_key(&key)
        .expect("route should stay committed");
    assert!(view.selection.active(), "a policy pause keeps the receiver's intent");
    assert!(!view.selection.delivery_active());
    assert_eq!(view.pending_upgrade, None);
}

#[test]
fn an_upgrade_waits_only_on_an_active_publication() {
    let mut state = test_state();
    let publisher = UserId::Integer(1);
    let subscriber = UserId::Integer(2);
    let (key, _) = install_test_consumer_route(&mut state, &publisher, &subscriber);
    let stream_id = stream_id_for_source(TestSourceKind::ScalableVideo);
    let connection =
        state.user_connection_id(&publisher).expect("publisher should have a connection id");
    let source_id = state
        .published_source_id(&publisher, connection, &stream_id)
        .expect("camera should be published");
    let route = {
        let view = state
            .topology
            .committed_consumer_route_for_key(&key)
            .expect("route should be committed");
        view.route.clone()
    };
    let upgrade = PendingUpgrade { selector: SourceSelector::Open, deadline: Moment(5) };
    assert!(state.topology.update_consumer_upgrade(&key, source_id, &route, Some(upgrade)));
    assert_eq!(
        state
            .topology
            .committed_consumer_route_for_key(&key)
            .and_then(|view| view.pending_upgrade),
        Some(upgrade)
    );
    assert!(state
        .apply_publication_activity(&publisher, connection, &stream_id, false, None)
        .is_ok());
    assert!(!state.topology.update_consumer_upgrade(&key, source_id, &route, None));
}

#[test]
fn the_first_publication_is_found_by_its_medium() {
    let mut state = test_state();
    let publisher = UserId::Integer(1);
    assert_eq!(state.topology.first_published_transport_media_id(), None);
    join_test_user(&mut state, &publisher);
    for (kind, media) in [(TestSourceKind::ReadableVideo, 7), (TestSourceKind::ScalableVideo, 3)] {
        commit_test_publication_with_rtp(
            &mut state,
            &publisher,
            kind,
            video_rtp(media as u32),
            TransportMediaId::new(media),
        );
    }
    assert_eq!(
        state.topology.first_published_transport_media_id(),
        Some(TransportMediaId::new(7))
    );
    assert_eq!(
        state.producer_stream_id_for_transport_media_id(TransportMediaId::new(3)),
        Some(UserStreamId::new("camera"))
    );
    assert_eq!(state.producer_stream_id_for_transport_media_id(TransportMediaId::new(4)), None);
    assert_eq!(state.topology.active_speaker_detector_owner(TransportMediaId::new(7)), None);
}
