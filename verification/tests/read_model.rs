use sfu_room::consumer_setup::{
    ConsumerSetupOrigin, ConsumerSetupOutcome, PendingConsumerSetup,
};
use sfu_room::diagnostics::{
    duration_millis, quality_summary, time_until, ActiveSpeakerActivityReason,
    ActiveSpeakerActivityState, ActiveSpeakerSourceDiagnostic, DiagnosticsActiveSpeaker,
    DiagnosticsActiveSpeakerReason, DiagnosticsActiveSpeakerState, DiagnosticsIncomingBitrate,
    DiagnosticsMediaKind, DiagnosticsPolicyPauseReason, DiagnosticsSourceSelectionReason,
    DiagnosticsSourceSelector, DiagnosticsVideoLayoutRole, DiagnosticsVideoRoutePriority,
    TransportBitrateSnapshot, TransportHealthSnapshot, TransportQualitySample,
    TransportRidActivity, TransportSessionHealth, TransportSourceActivity,
    TransportSourceDiagnosticsSnapshot,
};
use sfu_room::ids::{
    ConnectionId, MediaWorkerId, OutboundLane, ProducerId, RoomInstanceId, RoutedConsumerId,
    RoutedProducerId, RouterId, SourceEncodingId, TransportMediaId, UserId, UserStreamId,
};
use sfu_room::manager::RoomManager;
use sfu_room::ord_map::OrdMap;
use sfu_room::outbound::RecordingState;
use sfu_room::read_model::{
    user_summary, CapturedUserSummary, DiagnosticsRouteState, RoomUsersCapture, StreamNames,
};
use sfu_room::route_graph::PendingUpgrade;
use sfu_room::source_model::{
    Bitrate, ConsumerSourceSelection, MediaCapabilities, MediaKind, Moment, PolicyPauseReason,
    RtpBinding, RtpStream, SourcePolicy, SourcePublishIntent, SourceRoomPolicySelector,
    SourceSelector, UserInfo,
};
use sfu_room::state::{RoomState, UserJoinedFanout};
use sfu_room::transport::{SubscriptionKey, TransportSessionKey};

#[derive(Clone, Copy)]
enum TestSourceKind {
    ScalableVideo,
    ReadableVideo,
    AudioDetector,
}

fn stream_id_for_source(kind: TestSourceKind) -> UserStreamId {
    match kind {
        TestSourceKind::ScalableVideo => UserStreamId::new("camera"),
        TestSourceKind::ReadableVideo => UserStreamId::new("screen"),
        TestSourceKind::AudioDetector => UserStreamId::new("audio"),
    }
}

fn source_publish_intent_for_source(kind: TestSourceKind) -> SourcePublishIntent {
    let (media_kind, layout) = match kind {
        TestSourceKind::ScalableVideo => {
            (MediaKind::Video, SourceRoomPolicySelector::VisibleThumbnail)
        }
        TestSourceKind::ReadableVideo => {
            (MediaKind::Video, SourceRoomPolicySelector::ReadableDetail)
        }
        TestSourceKind::AudioDetector => (MediaKind::Audio, SourceRoomPolicySelector::Hidden),
    };
    SourcePublishIntent {
        stream_id: stream_id_for_source(kind),
        media_kind,
        policy: SourcePolicy { layout, active_speaker: None, video_bitrate_cap: None },
        presence: None,
    }
}

fn capabilities() -> MediaCapabilities {
    MediaCapabilities { formats: vec![] }
}

fn binding(rid: Option<&str>, ssrc: u32, max_bitrate: Option<u64>) -> RtpBinding {
    RtpBinding { rid: rid.map(str::to_owned), ssrc: Some(ssrc), max_bitrate, payload_type: None }
}

fn stream(mid: Option<&str>, bindings: Vec<RtpBinding>) -> RtpStream {
    RtpStream { mid: mid.map(str::to_owned), bindings, formats: vec![] }
}

fn video_rtp(ssrc: u32) -> RtpStream {
    stream(None, vec![binding(None, ssrc, None)])
}

/// Every receiver can take every stream as it is.
fn negotiate(rtp: &RtpStream, _capabilities: &MediaCapabilities) -> Option<RtpStream> {
    Some(RtpStream {
        mid: rtp.mid.clone(),
        bindings: rtp
            .bindings
            .iter()
            .map(|own| RtpBinding {
                rid: own.rid.clone(),
                ssrc: own.ssrc,
                max_bitrate: own.max_bitrate,
                payload_type: own.payload_type,
            })
            .collect(),
        formats: rtp.formats.clone(),
    })
}

fn accept_producer(connection: ConnectionId, producer: ProducerId) -> RoutedProducerId {
    RoutedProducerId { router: RouterId(1), connection, producer }
}

fn lane(user_id: &UserId) -> OutboundLane {
    match user_id {
        UserId::Integer(raw) => OutboundLane(*raw as u64),
        UserId::String(_) => OutboundLane(0),
    }
}

fn join_on(state: &mut RoomState, user_id: &UserId, worker: usize) -> ConnectionId {
    state
        .apply_join(user_id, lane(user_id), UserJoinedFanout::Emit, |placed, _| {
            assert_eq!(placed, user_id);
            Ok(MediaWorkerId(worker))
        })
        .expect("test user should join")
        .receipt
        .transport_session_key
        .connection_id()
}

fn join_test_user(state: &mut RoomState, user_id: &UserId) -> ConnectionId {
    join_on(state, user_id, 0)
}

fn set_test_user_ready(state: &mut RoomState, user_id: &UserId) -> ConnectionId {
    let connection_id =
        state.user_connection_id(user_id).expect("user should have a connection id");
    assert!(state.set_user_negotiated(user_id, connection_id, capabilities()).is_some());
    connection_id
}

fn commit_setup_with_media(
    state: &mut RoomState,
    setup: PendingConsumerSetup,
    media: TransportMediaId,
    mid: Option<String>,
) -> ConsumerSetupOutcome {
    let target = setup.target.session.user.clone();
    let routed = setup.target.routed;
    let connection = setup.target.session.connection_id();
    let declared = setup.declare(Some(media), mid).ok().expect("transport should declare");
    let origin = ConsumerSetupOrigin::Subscribe;
    state.commit_declared_consumer_setup(declared, origin, |user, consumer, producer| {
        assert_eq!(*user, target);
        assert_eq!(producer, routed);
        Some(RoutedConsumerId { router: RouterId(1), connection, consumer })
    })
}

fn commit_setup(state: &mut RoomState, setup: PendingConsumerSetup) -> ConsumerSetupOutcome {
    commit_setup_with_media(state, setup, TransportMediaId::new(20), Some(String::from("m0")))
}

const NOT_RECORDING: RecordingState = RecordingState { recording: None };

fn publish(state: &mut RoomState, user_id: &UserId, kind: TestSourceKind, media: u64) {
    let connection = set_test_user_ready(state, user_id);
    let intent = source_publish_intent_for_source(kind);
    let publish = state.validate_publish(user_id, connection, &intent).unwrap();
    let rtp = stream(
        Some("mid-up"),
        vec![binding(Some("lo"), 1, Some(150_000)), binding(Some("hi"), 2, Some(900_000))],
    );
    let commit = state
        .commit_publish_reservation(
            publish,
            rtp,
            &vec![],
            TransportMediaId::new(media),
            |_| None,
            |_, producer| Ok(accept_producer(connection, producer)),
            &negotiate,
        )
        .unwrap();
    for setup in commit.receiver_route_work.setups {
        let down = TransportMediaId::new(100 + media);
        assert!(matches!(
            commit_setup_with_media(state, setup, down, None),
            ConsumerSetupOutcome::Committed { .. }
        ));
    }
}

/// User 1 publishes a camera and audio, user 2 receives both.
fn media_room() -> RoomState {
    let mut state = RoomState::new(RoomInstanceId(3), 4, 16);
    join_on(&mut state, &UserId::Integer(1), 0);
    join_on(&mut state, &UserId::Integer(2), 1);
    set_test_user_ready(&mut state, &UserId::Integer(2));
    publish(&mut state, &UserId::Integer(1), TestSourceKind::ScalableVideo, 7);
    publish(&mut state, &UserId::Integer(1), TestSourceKind::AudioDetector, 8);
    state
}

fn bitrate(total: u64, media: &[(u64, u64)]) -> TransportBitrateSnapshot {
    let mut per_media = OrdMap::new();
    for (id, bps) in media {
        per_media.insert(TransportMediaId::new(*id), Bitrate::from_bps(*bps));
    }
    TransportBitrateSnapshot { total: Bitrate::from_bps(total), per_media }
}

fn health_of(state: &RoomState, user: i64, known: TransportSessionHealth) -> TransportHealthSnapshot {
    let user_id = UserId::Integer(user);
    let connection = state.user_connection_id(&user_id).unwrap();
    let mut health = OrdMap::new();
    health.insert(state.transport_user_key(&user_id, connection), known);
    health
}

#[test]
fn sessions_are_counted_by_health() {
    let state = media_room();
    let overview = state.overview_capture(Some(MediaWorkerId(0)), NOT_RECORDING);
    assert_eq!(overview.media_counts.publications, 2);
    assert_eq!(overview.media_counts.subscriptions, 2);
    assert_eq!(overview.session_keys.len(), 2);
    let health = health_of(&state, 2, TransportSessionHealth::Disconnected);
    let counts = overview.transport_counts(&health);
    assert_eq!(
        (counts.connected, counts.disconnected, counts.unknown, counts.total),
        (0, 1, 1, 2)
    );
}

#[test]
fn user_lists_add_up_bitrates_by_stream() {
    let state = media_room();
    let capture = state.diagnostics_users_capture(Some(MediaWorkerId(0)));
    assert_eq!(capture.session_keys().len(), 2);
    let names = StreamNames { audio: "audio", camera: "camera", screen: "screen" };
    let health = health_of(&state, 1, TransportSessionHealth::Connected);
    let summaries = capture.into_user_summaries(
        "room",
        &bitrate(0, &[(7, 1_000), (8, 30), (9, 5)]),
        &health,
        names,
    );
    assert_eq!(summaries.len(), 2);
    let publisher = &summaries[0];
    assert_eq!(publisher.user_id, UserId::Integer(1));
    assert_eq!(publisher.room_id, "room");
    assert_eq!(publisher.camera_incoming_bitrate_bps, 1_000);
    assert_eq!(publisher.audio_incoming_bitrate_bps, 30);
    assert_eq!(publisher.screen_incoming_bitrate_bps, 0);
    assert_eq!(publisher.incoming_bitrate_bps, 1_030);
    assert_eq!(publisher.publication_count, 2);
    assert_eq!(publisher.subscription_count, 0);
    assert_eq!(publisher.health, Some(TransportSessionHealth::Connected));
    let receiver = &summaries[1];
    assert_eq!(receiver.publication_count, 0);
    assert_eq!(receiver.subscription_count, 2);
    assert_eq!(receiver.media_worker_id, 1);
    assert_eq!(receiver.health, None);
}

#[test]
fn bitrate_sums_do_not_wrap() {
    let user = CapturedUserSummary {
        publications: vec![
            (UserStreamId::new("a"), TransportMediaId(1)),
            (UserStreamId::new("a"), TransportMediaId(2)),
        ],
        session_key: TransportSessionKey::new(
            RoomInstanceId(0),
            MediaWorkerId(0),
            ConnectionId(0),
            UserId::Integer(1),
        ),
        subscription_count: 0,
        user_id: UserId::Integer(1),
    };
    let names = StreamNames { audio: "a", camera: "a", screen: "b" };
    let summary = user_summary(
        "room",
        user,
        &bitrate(0, &[(1, u64::MAX), (2, 5)]).per_media,
        &OrdMap::new(),
        names,
    );
    assert_eq!(summary.incoming_bitrate_bps, u64::MAX);
    assert_eq!(summary.audio_incoming_bitrate_bps, u64::MAX);
    assert_eq!(summary.camera_incoming_bitrate_bps, 0);
}

#[test]
fn workers_count_a_room_once() {
    let mut workers = OrdMap::new();
    let state = media_room();
    let health = health_of(&state, 1, TransportSessionHealth::Connected);
    state.diagnostics_users_capture(None).add_to_worker_summaries(&health, &mut workers);
    state.diagnostics_users_capture(None).add_to_worker_summaries(&health, &mut workers);
    let first = workers.get(&MediaWorkerId(0)).unwrap();
    assert_eq!((first.room_count, first.user_count), (2, 2));
    assert_eq!((first.publication_count, first.connected_user_count), (4, 2));
    let second = workers.get(&MediaWorkerId(1)).unwrap();
    assert_eq!((second.subscription_count, second.unknown_user_count), (4, 2));

    let empty = RoomUsersCapture { primary_media_worker_id: Some(MediaWorkerId(5)), users: vec![] };
    empty.add_to_worker_summaries(&health, &mut workers);
    assert_eq!(workers.get(&MediaWorkerId(5)).unwrap().room_count, 1);
    let unassigned = RoomUsersCapture { primary_media_worker_id: None, users: vec![] };
    unassigned.add_to_worker_summaries(&health, &mut workers);
    assert_eq!(workers.get(&MediaWorkerId(0)).unwrap().room_count, 3);
}

#[test]
fn room_stats_go_by_stream() {
    let state = media_room();
    let stats = state.session_stats(&bitrate(2_000, &[(7, 900), (8, 60), (70, 11)]));
    assert_eq!(stats.count, 2);
    assert_eq!(stats.incoming_bitrate.total, 2_000);
    let by_stream = &stats.incoming_bitrate.by_stream;
    assert_eq!(by_stream.len(), 2);
    assert_eq!(by_stream.get(&UserStreamId::new("camera")), Some(&900));
    assert_eq!(by_stream.get(&UserStreamId::new("audio")), Some(&60));
    assert_eq!(stats.active_stream_counts.get(&UserStreamId::new("camera")), Some(&1));
}

#[test]
fn details_show_users_and_sources() {
    let mut state = media_room();
    let connection = state.user_connection_id(&UserId::Integer(1)).unwrap();
    let camera = UserStreamId::new("camera");
    assert!(state
        .apply_publication_activity(
            &UserId::Integer(1),
            connection,
            &camera,
            false,
            Some(UserInfo { is_camera_on: Some(false), ..UserInfo::default() })
        )
        .is_ok());
    let capture = state.diagnostics_detail_capture(None, NOT_RECORDING, Moment(0));
    assert_eq!(capture.session_keys().len(), 2);
    assert_eq!(capture.source_keys().len(), 2);
    let diagnostics = TransportSourceDiagnosticsSnapshot {
        activity: vec![TransportSourceActivity {
            transport_media_id: TransportMediaId(7),
            last_packet_age: 5_000_000,
            last_keyframe_age: None,
            rids: vec![TransportRidActivity {
                rid: String::from("hi"),
                last_packet_age: 2_999_999,
                last_keyframe_age: Some(9_000_000),
            }],
        }],
        active_speaker_diagnostics: vec![ActiveSpeakerSourceDiagnostic {
            transport_media_id: TransportMediaId(8),
            state: ActiveSpeakerActivityState::Active,
            reason: ActiveSpeakerActivityReason::Vad,
            last_audio_level_dbov: Some(-30),
            confidence_observations: 4,
            hold_remaining: Some(1_500_000),
        }],
    };
    let mut quality = OrdMap::new();
    quality.insert(
        capture.session_keys()[0].clone(),
        TransportQualitySample { sample_count: 3, rtt_ms: Some(40), ..TransportQualitySample::default() },
    );
    let (overview, users, sources) = capture.into_views(
        &bitrate(0, &[(7, 900), (8, 60)]),
        &quality,
        &OrdMap::new(),
        &diagnostics,
    );
    assert_eq!(overview.media_counts.publications, 2);

    let publisher = &users[0];
    assert_eq!(publisher.publications.len(), 2);
    assert!(!publisher.publications[0].active);
    assert_eq!(publisher.publications[0].stream_id, "camera");
    assert_eq!(publisher.publications[0].encoding_ids.len(), 2);
    assert_eq!(publisher.publications[0].transport_media_id, Some(7));
    assert_eq!(publisher.user_info.is_camera_on, Some(false));
    let summary = &publisher.transport.quality_summary;
    assert!(summary.sampled_metrics_available);
    assert_eq!((summary.rtt_ms, summary.sample_count), (Some(40), 3));
    assert_eq!(summary.current_incoming_bitrate.total, 960);
    assert_eq!(
        summary.current_incoming_bitrate.by_stream_bps.get(&String::from("audio")),
        Some(&60)
    );

    let receiver = &users[1];
    assert_eq!(receiver.subscriptions.len(), 2);
    let audio = receiver.subscriptions.iter().find(|shown| shown.stream_id == "audio").unwrap();
    assert_eq!(audio.state, DiagnosticsRouteState::Active);
    assert_eq!((audio.layout_role, audio.layout_priority), (None, None));
    let video = receiver.subscriptions.iter().find(|shown| shown.stream_id == "camera").unwrap();
    assert_eq!(video.state, DiagnosticsRouteState::Inactive);
    assert_eq!(video.layout_role, Some(DiagnosticsVideoLayoutRole::VisibleThumbnail));
    assert_eq!(video.layout_priority, Some(DiagnosticsVideoRoutePriority::VisibleThumbnail));
    assert_eq!(video.consumer_transport_media_id, Some(107));
    assert_eq!(video.source_transport_media_id, Some(7));
    assert_eq!(video.producer_user_id, UserId::Integer(1));
    assert!(!receiver.transport.quality_summary.sampled_metrics_available);

    let camera = &sources[0];
    assert!(!camera.active);
    assert_eq!(camera.media_kind, DiagnosticsMediaKind::Video);
    assert_eq!(camera.active_speaker, None);
    assert_eq!(camera.current_incoming_bitrate_bps, 900);
    assert_eq!((camera.last_packet_age_ms, camera.last_keyframe_age_ms), (Some(5), None));
    assert_eq!(camera.mid.as_deref(), Some("mid-up"));
    assert_eq!(camera.encodings[0].last_packet_age_ms, None);
    assert_eq!(camera.encodings[1].last_packet_age_ms, Some(2));
    assert_eq!(camera.encodings[1].last_keyframe_age_ms, Some(9));
    assert_eq!(camera.encodings[1].max_bitrate_bps, Some(900_000));
    assert_eq!(camera.encodings[1].primary_ssrc, Some(2));
    let audio = sources[1].active_speaker.unwrap();
    assert_eq!(audio.state, DiagnosticsActiveSpeakerState::Active);
    assert_eq!(audio.reason, DiagnosticsActiveSpeakerReason::Vad);
    assert_eq!(audio.hold_remaining_ms, Some(1));
    assert_eq!(sources[1].last_packet_age_ms, None);
}

#[test]
fn a_single_user_is_captured_while_current() {
    let state = media_room();
    let user = UserId::Integer(2);
    let connection = state.user_connection_id(&user).unwrap();
    let recording = RecordingState { recording: Some(true) };
    assert!(state
        .diagnostics_user_capture(&user, ConnectionId(55), recording, Moment(0))
        .is_none());
    let capture =
        state.diagnostics_user_capture(&user, connection, recording, Moment(0)).unwrap();
    assert_eq!(capture.session_key().connection_id(), connection);
    let (shown, view) =
        capture.into_view(&bitrate(0, &[]), &OrdMap::new(), &OrdMap::new());
    assert_eq!(shown, recording);
    assert_eq!(view.subscriptions.len(), 2);
    assert_eq!(view.transport.video_soft_pause_remaining_ms, None);
}

#[test]
fn pending_setups_are_shown_after_routes() {
    let mut state = media_room();
    let receiver = UserId::Integer(2);
    let connection = state.user_connection_id(&receiver).unwrap();
    join_test_user(&mut state, &UserId::Integer(3));
    let third = set_test_user_ready(&mut state, &UserId::Integer(3));
    let intent = source_publish_intent_for_source(TestSourceKind::ReadableVideo);
    let publish = state.validate_publish(&UserId::Integer(3), third, &intent).unwrap();
    let commit = state
        .commit_publish_reservation(
            publish,
            video_rtp(5),
            &vec![],
            TransportMediaId::new(9),
            |_| None,
            |_, producer| Ok(accept_producer(third, producer)),
            &negotiate,
        )
        .unwrap();
    assert_eq!(commit.receiver_route_work.setups.len(), 2);
    let shown = state.diagnostics_subscriptions(&receiver, connection, Moment(0));
    assert_eq!(shown.len(), 3);
    assert_eq!(shown[2].state, DiagnosticsRouteState::Pending);
    assert_eq!(shown[2].stream_id, "screen");
    assert_eq!(shown[2].consumer_transport_media_id, None);
    assert_eq!(shown[2].source_transport_media_id, Some(9));
}

#[test]
fn selections_show_what_they_deliver() {
    let state = media_room();
    let descriptor =
        &state.topology.source_for_transport_media(TransportMediaId(7)).unwrap().descriptor;
    let open = sfu_room::diagnostics::selection(
        descriptor,
        ConsumerSourceSelection::open(true),
        None,
        Moment(0),
    );
    assert_eq!(open.selector, DiagnosticsSourceSelector::Open);
    assert_eq!(open.selection_reason, DiagnosticsSourceSelectionReason::Open);
    assert!(open.policy_allows_delivery);
    assert_eq!(open.selected_rid, None);

    let high = descriptor.encodings[1].encoding_id;
    let mut chosen = ConsumerSourceSelection::open(true);
    chosen.set_selector(SourceSelector::Encoding(high));
    chosen.set_policy_pause_reason(Some(PolicyPauseReason::BudgetPressure));
    let upgrade = PendingUpgrade {
        selector: SourceSelector::Encoding(SourceEncodingId(77)),
        deadline: Moment(5_000_000),
    };
    let shown =
        sfu_room::diagnostics::selection(descriptor, chosen, Some(upgrade), Moment(1_000_000));
    assert_eq!(shown.selector, DiagnosticsSourceSelector::Encoding);
    assert_eq!(shown.selection_reason, DiagnosticsSourceSelectionReason::ReceiverAdaptation);
    assert_eq!(shown.policy_pause_reason, Some(DiagnosticsPolicyPauseReason::BudgetPressure));
    assert_eq!(shown.selected_encoding_id, Some(high.0));
    assert_eq!(shown.selected_rid.as_deref(), Some("hi"));
    assert_eq!(shown.selected_estimated_bitrate_bps, Some(900_000));
    let pending = shown.pending_upgrade.unwrap();
    assert_eq!((pending.encoding_id, pending.remaining_ms), (Some(77), 4));
}

#[test]
fn durations_are_whole_milliseconds() {
    assert_eq!(duration_millis(1_999_999), 1);
    assert_eq!(duration_millis(u128::MAX), u64::MAX);
    assert_eq!(time_until(Moment(5), Moment(9)), 0);
    assert_eq!(time_until(Moment(9), Moment(5)), 4);
}

#[test]
fn every_reason_has_its_counterpart() {
    for (own, shown) in [
        (PolicyPauseReason::HiddenTile, DiagnosticsPolicyPauseReason::HiddenTile),
        (PolicyPauseReason::OverflowTile, DiagnosticsPolicyPauseReason::OverflowTile),
        (PolicyPauseReason::MissingUsableLayer, DiagnosticsPolicyPauseReason::MissingUsableLayer),
        (PolicyPauseReason::AudioSpeakerLimit, DiagnosticsPolicyPauseReason::AudioSpeakerLimit),
        (PolicyPauseReason::ReceiverDeafened, DiagnosticsPolicyPauseReason::ReceiverDeafened),
        (PolicyPauseReason::VideoDownloadLimit, DiagnosticsPolicyPauseReason::VideoDownloadLimit),
        (PolicyPauseReason::SourceBitrateLimit, DiagnosticsPolicyPauseReason::SourceBitrateLimit),
    ] {
        assert_eq!(DiagnosticsPolicyPauseReason::from(own), shown);
    }
    assert_eq!(
        DiagnosticsVideoLayoutRole::from(SourceRoomPolicySelector::Overflow),
        DiagnosticsVideoLayoutRole::Overflow
    );
    assert_eq!(
        DiagnosticsVideoRoutePriority::from(SourceRoomPolicySelector::Featured.priority()),
        DiagnosticsVideoRoutePriority::PinnedOrFeatured
    );
    assert_eq!(DiagnosticsActiveSpeaker::idle().reason, DiagnosticsActiveSpeakerReason::NoMetadata);
}

#[test]
fn unsampled_quality_is_empty() {
    let incoming = DiagnosticsIncomingBitrate { total: 4, by_stream_bps: OrdMap::new() };
    let summary = quality_summary(incoming, None);
    assert!(!summary.sampled_metrics_available);
    assert_eq!(summary.current_incoming_bitrate.total, 4);
    assert_eq!((summary.rtt_ms, summary.sample_count), (None, 0));
}

#[test]
fn stats_of_a_room_carry_its_row() {
    let mut manager = RoomManager::new(
        sfu_room::definition::RoomRuntimePolicy::new(
            sfu_room::definition::RoomAdmissionPolicy::new(2),
            sfu_room::definition::RuntimeFeatureFlags {
                transcription: false,
                audio_recording: false,
                video_recording: false,
            },
            capabilities(),
            sfu_room::definition::RoomMediaLimits {
                max_audio_speakers: 1,
                max_video_downloads_per_receiver: 1,
            },
            sfu_room::definition::VideoAdaptationTuning { upgrade_hold: 0 },
        ),
        10,
        10,
    );
    let served = manager
        .serve_room(
            "issuer",
            sfu_room::definition::RoomKey::new(String::from("key")),
            &sfu_room::definition::RoomConfig::default(),
            Some("198.51.100.7"),
            Moment(0),
        )
        .ok()
        .unwrap();
    let stats = media_room().session_stats(&bitrate(5, &[]));
    let snapshot = manager.entry_stats_snapshot(&served.uuid, stats).unwrap();
    assert_eq!(snapshot.uuid, served.uuid);
    assert_eq!(snapshot.remote_address, "198.51.100.7");
    assert!(snapshot.web_rtc_enabled);
    assert_eq!(snapshot.users_stats.incoming_bitrate.total, 5);
    let stats = media_room().session_stats(&bitrate(5, &[]));
    assert!(manager.entry_stats_snapshot("nowhere", stats).is_none());
}

#[test]
fn users_receive_only_streams_of_others() {
    let state = media_room();
    let own = SubscriptionKey::new(
        &UserId::Integer(1),
        &UserId::Integer(1),
        &UserStreamId::new("camera"),
    );
    assert!(state.topology.current(&own).is_none());
}
