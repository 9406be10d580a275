use sfu_room::admission::JoinUserRequest;
use sfu_room::consumer_setup::{
    ConsumerSetupOrigin, ConsumerSetupOutcome, PendingConsumerSetup,
};
use sfu_room::ids::{
    ConnectionId, MediaWorkerId, OutboundLane, ProducerId, RoomInstanceId, RoutedConsumerId,
    RoutedProducerId, RouterId, TransportMediaId, UserId, UserStreamId,
};
use sfu_room::membership::RoomUserPermissions;
use sfu_room::outbound::{
    BroadcastPayloadError, RoomEventMessage, UserCloseReason, MAX_BROADCAST_PAYLOAD_BYTES,
};
use sfu_room::placement::{PlacementSnapshot, RoomWorkerPolicy, RouterPlacement};
use sfu_room::publication::{ProducerActivityRejection, PublishIntentPlan};
use sfu_room::source_model::{
    MediaCapabilities, MediaKind, RtpBinding, RtpStream, SourcePolicy, SourcePublishIntent,
    SourceRoomPolicySelector, UserInfo,
};
use sfu_room::state::{ConnectionCloseCommit, RoomJoinError, RoomState, UserJoinedFanout};
use sfu_room::topology::{RouterError, RouterRelease};
use sfu_room::transport::{ProducerActivity, SubscriptionKey, TransportTeardown};

#[derive(Clone, Copy)]
enum TestSourceKind {
    ScalableVideo,
    ReadableVideo,
    AudioDetector,
}

fn stream_id_for_source(kind: TestSourceKind) -> UserStreamId {
    match kind {
        TestSourceKind::ScalableVideo => UserStreamId::new("camera"),
        TestSourceKind::ReadableVideo => UserStreamId::new("screen"),
        TestSourceKind::AudioDetector => UserStreamId::new("audio"),
    }
}

fn source_publish_intent_for_source(kind: TestSourceKind) -> SourcePublishIntent {
    let (media_kind, layout) = match kind {
        TestSourceKind::ScalableVideo => {
            (MediaKind::Video, SourceRoomPolicySelector::VisibleThumbnail)
        }
        TestSourceKind::ReadableVideo => {
            (MediaKind::Video, SourceRoomPolicySelector::ReadableDetail)
        }
        TestSourceKind::AudioDetector => (MediaKind::Audio, SourceRoomPolicySelector::Hidden),
    };
    SourcePublishIntent {
        stream_id: stream_id_for_source(kind),
        media_kind,
        policy: SourcePolicy { layout, active_speaker: None, video_bitrate_cap: None },
        presence: None,
    }
}

fn capabilities() -> MediaCapabilities {
    MediaCapabilities { formats: vec![] }
}

fn binding(rid: Option<&str>, ssrc: u32, max_bitrate: Option<u64>) -> RtpBinding {
    RtpBinding { rid: rid.map(str::to_owned), ssrc: Some(ssrc), max_bitrate, payload_type: None }
}

fn stream(mid: Option<&str>, bindings: Vec<RtpBinding>) -> RtpStream {
    RtpStream { mid: mid.map(str::to_owned), bindings, formats: vec![] }
}

fn video_rtp(ssrc: u32) -> RtpStream {
    stream(None, vec![binding(None, ssrc, None)])
}

/// Every receiver can take every stream as it is.
fn negotiate(rtp: &RtpStream, _capabilities: &MediaCapabilities) -> Option<RtpStream> {
    Some(RtpStream {
        mid: rtp.mid.clone(),
        bindings: rtp
            .bindings
            .iter()
            .map(|own| RtpBinding {
                rid: own.rid.clone(),
                ssrc: own.ssrc,
                max_bitrate: own.max_bitrate,
                payload_type: own.payload_type,
            })
            .collect(),
        formats: rtp.formats.clone(),
    })
}

fn accept_producer(connection: ConnectionId, producer: ProducerId) -> RoutedProducerId {
    RoutedProducerId { router: RouterId(1), connection, producer }
}

fn lane(user_id: &UserId) -> OutboundLane {
    match user_id {
        UserId::Integer(raw) => OutboundLane(*raw as u64),
        UserId::String(_) => OutboundLane(0),
    }
}

fn join_on(state: &mut RoomState, user_id: &UserId, worker: usize) -> ConnectionId {
    state
        .apply_join(user_id, lane(user_id), UserJoinedFanout::Emit, |placed, _| {
            assert_eq!(placed, user_id);
            Ok(MediaWorkerId(worker))
        })
        .expect("test user should join")
        .receipt
        .transport_session_key
        .connection_id()
}

fn join_test_user(state: &mut RoomState, user_id: &UserId) -> ConnectionId {
    join_on(state, user_id, 0)
}

fn set_test_user_ready(state: &mut RoomState, user_id: &UserId) -> ConnectionId {
    let connection_id =
        state.user_connection_id(user_id).expect("user should have a connection id");
    assert!(state.set_user_negotiated(user_id, connection_id, capabilities()).is_some());
    connection_id
}

fn commit_setup_with_media(
    state: &mut RoomState,
    setup: PendingConsumerSetup,
    media: TransportMediaId,
    mid: Option<String>,
) -> ConsumerSetupOutcome {
    let target = setup.target.session.user.clone();
    let routed = setup.target.routed;
    let connection = setup.target.session.connection_id();
    let declared = setup.declare(Some(media), mid).ok().expect("transport should declare");
    let origin = ConsumerSetupOrigin::Subscribe;
    state.commit_declared_consumer_setup(declared, origin, |user, consumer, producer| {
        assert_eq!(*user, target);
        assert_eq!(producer, routed);
        Some(RoutedConsumerId { router: RouterId(1), connection, consumer })
    })
}

fn commit_setup(state: &mut RoomState, setup: PendingConsumerSetup) -> ConsumerSetupOutcome {
    commit_setup_with_media(state, setup, TransportMediaId::new(20), Some(String::from("m0")))
}

fn room(max_users: usize) -> RoomState {
    RoomState::new(RoomInstanceId(0), max_users, 16)
}

/// Publishes a source and sets it up for every receiver that is ready.
fn publish(
    state: &mut RoomState,
    user_id: &UserId,
    intent: &SourcePublishIntent,
    media: u64,
) -> usize {
    let connection = state.user_connection_id(user_id).unwrap();
    let publish = state.validate_publish(user_id, connection, intent).unwrap();
    let commit = state
        .commit_publish_reservation(
            publish,
            video_rtp(31_001),
            &vec![],
            TransportMediaId::new(media),
            |_| None,
            |_, producer| Ok(accept_producer(connection, producer)),
            &negotiate,
        )
        .unwrap();
    let mut committed = 0;
    for (at, setup) in commit.receiver_route_work.setups.into_iter().enumerate() {
        let down = TransportMediaId::new(1_000 * media + at as u64);
        if matches!(
            commit_setup_with_media(state, setup, down, None),
            ConsumerSetupOutcome::Committed { .. }
        ) {
            committed += 1;
        }
    }
    committed
}

fn two_ready_users() -> (RoomState, ConnectionId, ConnectionId) {
    let mut state = room(4);
    join_test_user(&mut state, &UserId::Integer(1));
    join_test_user(&mut state, &UserId::Integer(2));
    let first = set_test_user_ready(&mut state, &UserId::Integer(1));
    let second = set_test_user_ready(&mut state, &UserId::Integer(2));
    (state, first, second)
}

fn camera_intent(camera_on: Option<bool>) -> SourcePublishIntent {
    SourcePublishIntent {
        stream_id: UserStreamId::new("camera"),
        media_kind: MediaKind::Video,
        policy: SourcePolicy {
            layout: SourceRoomPolicySelector::Hidden,
            active_speaker: None,
            video_bitrate_cap: None,
        },
        presence: camera_on.map(|on| UserInfo { is_camera_on: Some(on), ..UserInfo::default() }),
    }
}

#[test]
fn join_user_enforces_capacity() {
    let mut state = room(1);
    assert!(state
        .apply_join(&UserId::Integer(1), OutboundLane(1), UserJoinedFanout::Emit, |_, _| Ok(
            MediaWorkerId(0)
        ))
        .is_ok());
    let result =
        state.apply_join(&UserId::Integer(2), OutboundLane(2), UserJoinedFanout::Emit, |_, _| {
            Ok(MediaWorkerId(0))
        });
    assert_eq!(result.err(), Some(RoomJoinError::RoomFull));
    assert_eq!(RoomJoinError::RoomFull.message(), "room is full");
}

#[test]
fn reconnection_bypasses_capacity_and_replaces_existing_connection() {
    let mut state = room(1);
    let user_id = UserId::Integer(1);
    let first_connection = join_test_user(&mut state, &user_id);
    assert_eq!(
        state.set_user_negotiated(&user_id, first_connection, capabilities()),
        Some(true)
    );

    let commit = state
        .apply_join(&user_id, OutboundLane(11), UserJoinedFanout::Emit, |_, _| Ok(MediaWorkerId(0)))
        .expect("replacement join should succeed");
    let second_connection = commit.receipt.transport_session_key.connection_id();

    assert_ne!(first_connection, second_connection);
    assert!(state
        .user_for_connection(&user_id, second_connection)
        .unwrap()
        .capabilities
        .is_none());
    assert_eq!(state.set_user_negotiated(&user_id, first_connection, capabilities()), None);
    assert_eq!(state.user_count(), 1);
    assert_eq!(commit.effects.close_requests.len(), 1);
    assert_eq!(commit.effects.close_requests[0].sender, OutboundLane(1));
    assert_eq!(commit.effects.close_requests[0].reason, UserCloseReason::Replaced);
    assert!(state.close_connection(&user_id, first_connection).is_none());
    assert_eq!(state.user_connection_id(&user_id), Some(second_connection));
}

#[test]
fn leave_user_sends_departure_to_remaining_peers() {
    let mut state = room(4);
    join_test_user(&mut state, &UserId::Integer(1));
    let bob_connection = join_test_user(&mut state, &UserId::Integer(2));

    let Some(ConnectionCloseCommit::Current { effects, .. }) =
        state.close_connection(&UserId::Integer(2), bob_connection)
    else {
        panic!("the current connection should close");
    };
    assert_eq!(effects.fanouts.len(), 1);
    assert_eq!(effects.fanouts[0].recipients, vec![OutboundLane(1)]);
    assert_eq!(
        effects.fanouts[0].message,
        RoomEventMessage::UserDeparted { user_id: UserId::Integer(2) }
    );
    assert_eq!(state.user_count(), 1);
}

#[test]
fn mismatched_stale_close_keeps_other_user_routing() {
    let mut state = room(4);
    let alice = UserId::Integer(1);
    let bob = UserId::Integer(2);
    let alice_connection = join_test_user(&mut state, &alice);
    let bob_connection = join_test_user(&mut state, &bob);

    assert!(state.close_connection(&alice, bob_connection).is_none());

    assert_eq!(state.user_connection_id(&alice), Some(alice_connection));
    assert_eq!(state.user_connection_id(&bob), Some(bob_connection));
    assert!(state.topology.committed_transport_user_key(&bob, bob_connection).is_some());
}

#[test]
fn replacement_join_closes_displaced_transport_user() {
    let mut state = room(4);
    let user_id = UserId::Integer(1);
    let first = join_test_user(&mut state, &user_id);
    let first_key = state.transport_user_key(&user_id, first);
    let commit = state
        .apply_join(&user_id, OutboundLane(11), UserJoinedFanout::Emit, |_, _| Ok(MediaWorkerId(3)))
        .expect("replacement join should succeed");
    let second_key = &commit.receipt.transport_session_key;
    assert_ne!(first, second_key.connection_id());
    assert_eq!(second_key.media_worker_id(), MediaWorkerId(3));
    assert_eq!(
        commit.transport_plan.teardown.last(),
        Some(&TransportTeardown::CloseSession { session_key: first_key })
    );
    assert_eq!(state.user_connection_id(&user_id), Some(second_key.connection_id()));
    assert!(state.topology.committed_transport_user_key(&user_id, first).is_none());
}

#[test]
fn removing_publisher_clears_media_state_and_transport_routes() {
    let (mut state, connection, _) = two_ready_users();
    let publisher = UserId::Integer(1);
    let intent = source_publish_intent_for_source(TestSourceKind::ScalableVideo);
    assert_eq!(publish(&mut state, &publisher, &intent, 7), 1);
    assert!(state
        .apply_publication_activity(&publisher, connection, &intent.stream_id, false, None)
        .is_ok());

    let Some(ConnectionCloseCommit::Current { effects, transport_plan, .. }) =
        state.close_connection(&publisher, connection)
    else {
        panic!("the current connection should close");
    };
    assert_eq!(effects.track_snapshots.len(), 1);
    let (recipient, snapshot) = &effects.track_snapshots[0];
    assert_eq!(*recipient, OutboundLane(2));
    assert!(snapshot.snapshot.requires_negotiation && snapshot.snapshot.tracks.is_empty());
    assert_eq!(state.topology.publication_count(), 0);
    assert_eq!(state.topology.consumer_count(), 0);
    assert!(state
        .producer_stream_id_for_transport_media_id(TransportMediaId::new(7))
        .is_none());
    let removed: Vec<_> = transport_plan
        .teardown
        .iter()
        .filter_map(|teardown| match teardown {
            TransportTeardown::RemoveMedia { transport_media_id, .. } => Some(*transport_media_id),
            _ => None,
        })
        .collect();
    assert_eq!(removed, vec![TransportMediaId::new(7), TransportMediaId::new(7_000)]);
}

#[test]
fn publication_activity_pauses_and_resumes_committed_source() {
    let (mut state, connection, _) = two_ready_users();
    let publisher = UserId::Integer(1);
    let intent = source_publish_intent_for_source(TestSourceKind::ScalableVideo);
    assert_eq!(publish(&mut state, &publisher, &intent, 7), 1);

    let pause = state
        .apply_publication_activity(&publisher, connection, &intent.stream_id, false, None)
        .expect("an active publication should pause");
    assert_eq!(pause.update.activity(), ProducerActivity::Inactive);
    assert_eq!(pause.track_snapshots.len(), 1, "subscriber should get a track snapshot");
    assert_eq!(pause.track_snapshots[0].0, OutboundLane(2));
    let snapshot = &pause.track_snapshots[0].1.snapshot;
    assert!(!snapshot.requires_negotiation);
    assert!(!snapshot.tracks[0].producer_active);

    assert_eq!(
        state
            .apply_publication_activity(&publisher, connection, &intent.stream_id, false, None)
            .err(),
        Some(ProducerActivityRejection::StalePublication)
    );

    let PublishIntentPlan::Activate(resume) =
        state.apply_publish_intent(&publisher, connection, &intent, true)
    else {
        panic!("a paused publication should resume");
    };
    assert!(resume.update.revision().0 > pause.update.revision().0);
    assert!(resume.track_snapshots[0].1.snapshot.tracks[0].producer_active);
    assert!(matches!(
        state.apply_publish_intent(&publisher, connection, &intent, true),
        PublishIntentPlan::Noop
    ));
}

#[test]
fn duplicate_camera_publish_intent_updates_presence_and_remote_activity() {
    let (mut state, connection, _) = two_ready_users();
    let publisher = UserId::Integer(1);
    publish(&mut state, &publisher, &camera_intent(Some(false)), 7);
    assert_eq!(state.user_info(&publisher).unwrap().is_camera_on, Some(false));
    let camera = UserStreamId::new("camera");
    assert!(state
        .apply_publication_activity(&publisher, connection, &camera, false, None)
        .is_ok());

    let PublishIntentPlan::Activate(commit) =
        state.apply_publish_intent(&publisher, connection, &camera_intent(Some(true)), true)
    else {
        panic!("the paused camera should resume");
    };
    assert_eq!(state.user_info(&publisher).unwrap().is_camera_on, Some(true));
    assert!(commit.presence.is_some());
    assert_eq!(commit.track_snapshots.len(), 1);
    let tracks = &commit.track_snapshots[0].1.snapshot.tracks;
    assert_eq!(tracks.len(), 1);
    assert_eq!(tracks[0].stream_id, camera);
    assert!(tracks[0].producer_active);
}

#[test]
fn publish_track_emits_remote_track_snapshot_with_committed_mid() {
    let (mut state, connection, _) = two_ready_users();
    let publisher = UserId::Integer(1);
    let intent = source_publish_intent_for_source(TestSourceKind::ScalableVideo);
    let publish = state.validate_publish(&publisher, connection, &intent).unwrap();
    let commit = state
        .commit_publish_reservation(
            publish,
            video_rtp(31_001),
            &vec![],
            TransportMediaId::new(7),
            |_| None,
            |_, producer| Ok(accept_producer(connection, producer)),
            &negotiate,
        )
        .unwrap();
    let setup = commit.receiver_route_work.setups.into_iter().next().unwrap();
    let ConsumerSetupOutcome::Committed { sender, track_snapshot, .. } =
        commit_setup(&mut state, setup)
    else {
        panic!("the route should commit");
    };
    assert_eq!(sender, OutboundLane(2));
    let tracks = &track_snapshot.snapshot.tracks;
    assert_eq!(tracks.len(), 1);
    assert_eq!(tracks[0].consumer_mid, "m0");
    assert_eq!(tracks[0].stream_id, intent.stream_id);
}

#[test]
fn late_join_receives_remote_track_snapshot_from_route_state() {
    let mut state = room(4);
    let publisher = UserId::Integer(1);
    let subscriber = UserId::Integer(2);
    join_test_user(&mut state, &publisher);
    set_test_user_ready(&mut state, &publisher);
    let intent = source_publish_intent_for_source(TestSourceKind::ScalableVideo);
    assert_eq!(publish(&mut state, &publisher, &intent, 7), 0);

    join_test_user(&mut state, &subscriber);
    let connection = set_test_user_ready(&mut state, &subscriber);
    let commit = state
        .refresh_consumer_readiness(&subscriber, connection, &vec![], &negotiate)
        .unwrap();
    let setup = commit.work.setups.into_iter().next().unwrap();
    let ConsumerSetupOutcome::Committed { track_snapshot, .. } = commit_setup(&mut state, setup)
    else {
        panic!("the route should commit");
    };
    let snapshot = track_snapshot.snapshot;
    assert!(snapshot.requires_negotiation);
    assert_eq!(snapshot.tracks.len(), 1);
    assert_eq!(snapshot.tracks[0].user_id, publisher);
    assert_eq!(snapshot.tracks[0].stream_id, intent.stream_id);
}

#[test]
fn generic_camera_info_cannot_override_publication_presence() {
    let (mut state, connection, _) = two_ready_users();
    let publisher = UserId::Integer(1);
    publish(&mut state, &publisher, &camera_intent(Some(true)), 7);

    assert!(state
        .update_user_info(
            &publisher,
            connection,
            UserInfo { is_camera_on: Some(false), ..UserInfo::default() },
        )
        .is_some());

    assert_eq!(state.user_info(&publisher).unwrap().is_camera_on, Some(true));
}

#[test]
fn user_replacement_purges_all_published_stream_mappings() {
    let (mut state, _, _) = two_ready_users();
    let publisher = UserId::Integer(1);
    let camera = source_publish_intent_for_source(TestSourceKind::ScalableVideo);
    let audio = source_publish_intent_for_source(TestSourceKind::AudioDetector);
    assert_eq!(publish(&mut state, &publisher, &camera, 7), 1);
    assert_eq!(publish(&mut state, &publisher, &audio, 8), 1);
    let first = ConnectionId::from_raw(0);
    assert!(state.topology.producer_transport_media_id(&publisher, first, &camera.stream_id).is_some());
    assert!(state.topology.producer_transport_media_id(&publisher, first, &audio.stream_id).is_some());
    assert!(state
        .apply_publication_activity(&publisher, first, &camera.stream_id, false, None)
        .is_ok());

    join_test_user(&mut state, &publisher);

    assert_eq!(state.topology.publication_count(), 0);
    assert_eq!(state.topology.consumer_count(), 0);
    for media in [7, 8] {
        assert!(state
            .producer_stream_id_for_transport_media_id(TransportMediaId::new(media))
            .is_none());
    }
    assert!(state.published_source_id(&publisher, first, &camera.stream_id).is_none());
    assert!(state.published_source_id(&publisher, first, &audio.stream_id).is_none());
}

#[test]
fn screen_deactivation_updates_remote_track_activity() {
    let (mut state, connection, _) = two_ready_users();
    let publisher = UserId::Integer(1);
    let intent = source_publish_intent_for_source(TestSourceKind::ReadableVideo);
    assert_eq!(publish(&mut state, &publisher, &intent, 7), 1);
    let commit = state
        .apply_publication_activity(&publisher, connection, &intent.stream_id, false, None)
        .unwrap();
    let snapshot = &commit.track_snapshots[0].1.snapshot;
    assert_eq!(snapshot.tracks[0].stream_id, intent.stream_id);
    assert!(!snapshot.tracks[0].producer_active);
    assert!(!snapshot.requires_negotiation);
}

#[test]
fn publication_deactivation_updates_presence() {
    let (mut state, connection, _) = two_ready_users();
    let user_id = UserId::Integer(1);
    let intent = source_publish_intent_for_source(TestSourceKind::ScalableVideo);
    publish(&mut state, &user_id, &intent, 7);
    let commit = state
        .apply_publication_activity(
            &user_id,
            connection,
            &intent.stream_id,
            false,
            Some(UserInfo { is_camera_on: Some(false), ..UserInfo::default() }),
        )
        .unwrap();
    assert!(commit.presence.is_some());
    assert_eq!(state.user_info(&user_id).unwrap().is_camera_on, Some(false));
}

#[test]
fn unknown_publication_deactivation_is_a_noop() {
    let (mut state, connection, _) = two_ready_users();
    let stream_id = stream_id_for_source(TestSourceKind::AudioDetector);
    assert_eq!(
        state
            .apply_publication_activity(&UserId::Integer(1), connection, &stream_id, false, None)
            .err(),
        Some(ProducerActivityRejection::MissingPublication)
    );
}

#[test]
fn initial_answer_sets_up_pending_consumers_once() {
    let mut state = room(4);
    let publisher = UserId::Integer(1);
    let subscriber = UserId::Integer(2);
    join_test_user(&mut state, &publisher);
    join_test_user(&mut state, &subscriber);
    set_test_user_ready(&mut state, &publisher);
    let intent = source_publish_intent_for_source(TestSourceKind::ScalableVideo);
    assert_eq!(publish(&mut state, &publisher, &intent, 7), 0);

    let connection = set_test_user_ready(&mut state, &subscriber);
    let commit = state
        .refresh_consumer_readiness(&subscriber, connection, &vec![], &negotiate)
        .unwrap();
    for setup in commit.work.setups {
        assert!(matches!(
            commit_setup(&mut state, setup),
            ConsumerSetupOutcome::Committed { .. }
        ));
    }
    assert_eq!(state.topology.consumer_count(), 1);

    assert_eq!(state.set_user_negotiated(&subscriber, connection, capabilities()), Some(false));
    let commit = state
        .refresh_consumer_readiness(&subscriber, connection, &vec![], &negotiate)
        .unwrap();
    assert!(commit.work.setups.is_empty());
    assert!(commit.track_snapshots.is_empty());
    assert_eq!(state.topology.consumer_count(), 1);
}

#[test]
fn requests_to_publish_wait_for_negotiation() {
    let mut state = room(4);
    let user_id = UserId::Integer(1);
    let connection = join_test_user(&mut state, &user_id);
    let intent = camera_intent(None);
    assert!(state.validate_publish(&user_id, connection, &intent).is_none());
    set_test_user_ready(&mut state, &user_id);
    assert!(matches!(
        state.apply_publish_intent(&user_id, connection, &intent, false),
        PublishIntentPlan::Queue
    ));
    let PublishIntentPlan::Stage(publish) =
        state.apply_publish_intent(&user_id, connection, &intent, true)
    else {
        panic!("a ready user may publish");
    };
    assert!(state.validate_publish_commit(&publish));
    assert!(matches!(
        state.apply_publish_intent(&user_id, ConnectionId(9), &intent, true),
        PublishIntentPlan::Noop
    ));
    join_test_user(&mut state, &user_id);
    assert!(!state.validate_publish_commit(&publish));
}

#[test]
fn a_router_that_refuses_leaves_the_room_as_it_was() {
    let mut state = room(4);
    let user_id = UserId::Integer(1);
    let refusal =
        state.apply_join(&user_id, OutboundLane(1), UserJoinedFanout::Emit, |_, _| {
            Err(RouterError(String::from("no router")))
        });
    assert_eq!(refusal.err(), Some(RoomJoinError::RouterState));
    assert!(state.is_empty());
    assert_eq!(join_test_user(&mut state, &user_id), ConnectionId(0));
    set_test_user_ready(&mut state, &user_id);
    let publish =
        state.validate_publish(&user_id, ConnectionId(0), &camera_intent(None)).unwrap();
    assert!(state
        .commit_publish_reservation(
            publish,
            video_rtp(1),
            &vec![],
            TransportMediaId::new(1),
            |_| None,
            |_, _| Err(RouterError(String::from("no producer"))),
            &negotiate,
        )
        .is_none());
    assert_eq!(state.topology.publication_count(), 0);
}

#[test]
fn disconnected_users_are_closed_and_announced() {
    let mut state = room(4);
    for raw in 1..=3 {
        join_test_user(&mut state, &UserId::Integer(raw));
    }
    let commit = state.apply_disconnect_users(&vec![
        UserId::Integer(3),
        UserId::Integer(9),
        UserId::Integer(1),
        UserId::Integer(3),
    ]);
    assert_eq!(commit.session_teardowns.len(), 2);
    let closed: Vec<_> =
        commit.effects.close_requests.iter().map(|request| request.sender).collect();
    assert_eq!(closed, vec![OutboundLane(3), OutboundLane(1)]);
    assert!(commit
        .effects
        .close_requests
        .iter()
        .all(|request| request.reason == UserCloseReason::RemovedByRuntime));
    assert_eq!(commit.effects.fanouts.len(), 2);
    assert!(commit
        .effects
        .fanouts
        .iter()
        .all(|fanout| fanout.recipients == vec![OutboundLane(2)]));
    assert_eq!(state.user_count(), 1);
}

#[test]
fn joins_are_announced_where_they_are_meant_to_be() {
    let mut state = room(4);
    join_test_user(&mut state, &UserId::Integer(1));
    let announced = state
        .apply_join(&UserId::Integer(2), OutboundLane(2), UserJoinedFanout::Emit, |_, _| {
            Ok(MediaWorkerId(0))
        })
        .unwrap();
    assert_eq!(announced.effects.fanouts[0].recipients, vec![OutboundLane(1)]);
    assert_eq!(
        announced.effects.fanouts[0].message,
        RoomEventMessage::UserJoined { user_id: UserId::Integer(2), info: UserInfo::default() }
    );
    let silent = state
        .apply_join(&UserId::Integer(3), OutboundLane(3), UserJoinedFanout::Suppress, |_, _| {
            Ok(MediaWorkerId(0))
        })
        .unwrap();
    assert!(silent.effects.fanouts.is_empty());
}

#[test]
fn broadcasts_reach_everyone_but_their_sender() {
    let mut state = room(4);
    let sender = UserId::Integer(2);
    for raw in 1..=3 {
        join_test_user(&mut state, &UserId::Integer(raw));
    }
    let connection = state.user_connection_id(&sender).unwrap();
    let hello = serde_json::Value::String(String::from("hello"));
    let fanout = state.broadcast_fanout(&sender, connection, hello.clone()).unwrap().unwrap();
    assert_eq!(fanout.recipients, vec![OutboundLane(1), OutboundLane(3)]);
    let RoomEventMessage::Broadcast { sender_id, message } = fanout.message else {
        panic!("a broadcast should be announced as one");
    };
    assert_eq!(sender_id, sender);
    assert_eq!(message.byte_len(), 7);
    assert_eq!(message.to_json(), hello);

    assert!(state.broadcast_fanout(&sender, ConnectionId(99), hello).unwrap().is_none());
    let large = serde_json::Value::String("x".repeat(MAX_BROADCAST_PAYLOAD_BYTES));
    assert_eq!(
        state.broadcast_fanout(&sender, connection, large).err(),
        Some(BroadcastPayloadError::TooLarge {
            actual: MAX_BROADCAST_PAYLOAD_BYTES + 2,
            limit: MAX_BROADCAST_PAYLOAD_BYTES
        })
    );
}

#[test]
fn presence_is_merged_and_told_to_everyone() {
    let mut state = room(4);
    let user_id = UserId::Integer(1);
    let connection = join_test_user(&mut state, &user_id);
    join_test_user(&mut state, &UserId::Integer(2));
    let mute = UserInfo { is_self_muted: Some(true), ..UserInfo::default() };
    let hand = UserInfo { is_raising_hand: Some(true), ..UserInfo::default() };
    assert!(state.update_user_info(&user_id, connection, mute).is_some());
    let commit = state.update_user_info(&user_id, connection, hand).unwrap();
    assert_eq!(commit.fanout.recipients, vec![OutboundLane(1), OutboundLane(2)]);
    let known = state.user_info(&user_id).unwrap();
    assert_eq!((known.is_self_muted, known.is_raising_hand), (Some(true), Some(true)));
    assert!(state.update_user_info(&user_id, ConnectionId(9), mute).is_none());
    assert!(state.has_connection(&user_id, connection));
    assert!(!state.has_connection(&user_id, ConnectionId(9)));
}

#[test]
fn admission_places_users_by_delay() {
    let mut state = RoomState::new(RoomInstanceId(1), 4, 16);
    let request = |raw: i64| JoinUserRequest {
        user_id: UserId::Integer(raw),
        label: None,
        permissions: RoomUserPermissions,
        sender: OutboundLane(raw as u64),
    };
    let mut snapshot = PlacementSnapshot { primary: RouterId(7), assigned: vec![] };
    let first = state
        .commit_admission(
            &request(1),
            &snapshot,
            RoomWorkerPolicy::new(2, 20),
            &vec![Some(0), Some(0)],
            UserJoinedFanout::Emit,
            || RouterId(8),
            |user, connection, placement| {
                assert_eq!((user, connection), (&UserId::Integer(1), ConnectionId(0)));
                assert_eq!(placement.router, RouterId(7));
                Ok(placement.media_worker)
            },
        )
        .unwrap();
    assert_eq!(first.receipt.transport_session_key.media_worker_id(), MediaWorkerId(1));
    snapshot.assigned.push(RouterPlacement { router: RouterId(7), media_worker: MediaWorkerId(1) });
    let second = state
        .commit_admission(
            &request(2),
            &snapshot,
            RoomWorkerPolicy::new(2, 20),
            &vec![Some(0), Some(25)],
            UserJoinedFanout::Emit,
            || RouterId(8),
            |user, connection, placement| {
                assert_eq!((user, connection), (&UserId::Integer(2), ConnectionId(1)));
                assert_eq!(placement.router, RouterId(8));
                Ok(placement.media_worker)
            },
        )
        .unwrap();
    assert_eq!(second.receipt.transport_session_key.media_worker_id(), MediaWorkerId(0));
    let refused = state.commit_admission(
        &request(3),
        &snapshot,
        RoomWorkerPolicy::new(2, 20),
        &vec![],
        UserJoinedFanout::Emit,
        || RouterId(9),
        |_, _, _| Err(RouterError(String::from("full"))),
    );
    assert_eq!(refused.err(), Some(RoomJoinError::RouterState));
}

#[test]
fn a_replaced_receiver_keeps_its_intent() {
    let (mut state, _, connection) = two_ready_users();
    let publisher = UserId::Integer(1);
    let receiver = UserId::Integer(2);
    let intent = source_publish_intent_for_source(TestSourceKind::ScalableVideo);
    assert_eq!(publish(&mut state, &publisher, &intent, 7), 1);
    let mut intents = sfu_room::ord_map::OrdMap::new();
    intents.insert(
        intent.stream_id.clone(),
        sfu_room::source_model::SourceSubscriptionIntent::new(Some(false), None),
    );
    assert!(state
        .apply_receiver_intent(&receiver, connection, &publisher, &intents, &negotiate)
        .is_some());
    join_test_user(&mut state, &receiver);
    let key = SubscriptionKey::new(&receiver, &publisher, &intent.stream_id);
    assert_eq!(state.topology.subscription_intent(&key).active(), Some(false));
    assert_eq!(state.topology.consumer_count(), 0);
    let connection = set_test_user_ready(&mut state, &receiver);
    let setups = state.plan_missing_consumers(&receiver, connection, &negotiate).unwrap();
    assert_eq!(setups.len(), 1);
    assert!(!setups[0].reservation.declared_activity().is_active());
}

#[test]
fn the_router_gives_up_who_left() {
    let mut state = RoomState::new(RoomInstanceId(0), 4, 16);
    let users = [UserId::Integer(1), UserId::Integer(2), UserId::Integer(3)];
    let connections: Vec<ConnectionId> =
        users.iter().map(|user| join_test_user(&mut state, user)).collect();
    let closed = state
        .close_connection(&users[0], connections[0])
        .expect("a current connection should close");
    assert_eq!(closed.router_release(), &RouterRelease::Session { user_id: users[0].clone() });
    let gone = state.apply_disconnect_users(&vec![
        users[2].clone(),
        users[0].clone(),
        users[1].clone(),
    ]);
    assert_eq!(
        gone.router_releases,
        vec![
            RouterRelease::Session { user_id: users[2].clone() },
            RouterRelease::Session { user_id: users[1].clone() },
        ]
    );
}
