use sfu_room::definition::{
    RoomAdmissionPolicy, RoomConfig, RoomKey, RoomMediaLimits, RoomRuntimePolicy,
    RuntimeFeatureFlags, VideoAdaptationTuning,
};
use sfu_room::directory::{rfc3339_now, timestamp_or_epoch};
use sfu_room::ids::{ConnectionId, MediaWorkerId, OutboundLane, RoomInstanceId, RouterId, UserId};
use sfu_room::lifecycle::{ExpiryReason, RoomLifecyclePhase, RoomRemovalPolicy};
use sfu_room::manager::{
    bulk_disconnect_report, room_gauges, RoomGauge, RoomGaugeValues, RoomManager, RoomManagerJoinError,
    RoomManagerServeError,
};
use sfu_room::outbound::RecordingState;
use sfu_room::source_model::{MediaCapabilities, Moment};
use sfu_room::state::{ConnectionCloseCommit, RoomJoinError, RoomState, UserJoinedFanout};

const SECOND: u128 = 1_000_000_000;
const LONG_EXPIRATION: u128 = 3_600 * SECOND;
const TEST_ROOM_KEY: &str = "room-key";
const START: Moment = Moment(0);

fn policy(max_sessions: usize) -> RoomRuntimePolicy {
    RoomRuntimePolicy::new(
        RoomAdmissionPolicy::new(max_sessions),
        RuntimeFeatureFlags {
            transcription: false,
            audio_recording: false,
            video_recording: false,
        },
        MediaCapabilities { formats: vec![] },
        RoomMediaLimits { max_audio_speakers: 4, max_video_downloads_per_receiver: 16 },
        VideoAdaptationTuning { upgrade_hold: 0 },
    )
}

fn manager_with_reservation_ttl(ttl: u128) -> RoomManager {
    RoomManager::new(policy(100), ttl, 0)
}

fn key() -> RoomKey {
    RoomKey::new(TEST_ROOM_KEY.to_owned())
}

fn serve_test_room(manager: &mut RoomManager, issuer: &str, now: Moment) -> String {
    manager
        .serve_room(issuer, key(), &RoomConfig::default(), None, now)
        .ok()
        .expect("test room should be served")
        .uuid
}

/// A join through the manager, with the room state that belongs to the room.
fn try_manager_join_user(
    manager: &mut RoomManager,
    room_id: &str,
    state: &mut RoomState,
    raw_user_id: i64,
    now: Moment,
) -> Result<ConnectionId, RoomManagerJoinError> {
    let mutation = manager.begin_join(room_id)?;
    let joined = state.apply_join(
        &UserId::Integer(raw_user_id),
        OutboundLane(raw_user_id as u64),
        UserJoinedFanout::Emit,
        |_, _| Ok(MediaWorkerId(0)),
    );
    match joined {
        Err(refusal) => Err(manager.refuse_join(mutation, refusal, state.is_empty(), now)),
        Ok(commit) => {
            manager.accept_join(&mutation);
            Ok(manager
                .conclude_join(
                    mutation,
                    commit.receipt.transport_session_key,
                    state.is_empty(),
                    now,
                )
                .connection_id)
        }
    }
}

fn close_session(
    manager: &mut RoomManager,
    room_id: &str,
    state: &mut RoomState,
    raw_user_id: i64,
    connection_id: ConnectionId,
    now: Moment,
) -> bool {
    let Some(mutation) = manager.begin_current_room_mutation(room_id) else {
        return false;
    };
    let closed = matches!(
        state.close_connection(&UserId::Integer(raw_user_id), connection_id),
        Some(ConnectionCloseCommit::Current { .. })
    );
    manager.finish_session_mutation(
        mutation,
        Some(RoomRemovalPolicy::AfterGrace),
        state.is_empty(),
        now,
    );
    closed
}

fn room_state(max_sessions: usize) -> RoomState {
    RoomState::new(RoomInstanceId(0), max_sessions, 16)
}

fn gauges(manager: &RoomManager, states: &[&RoomState]) -> RoomGaugeValues {
    assert_eq!(manager.directory_snapshots().len(), states.len());
    room_gauges(
        &states
            .iter()
            .map(|state| RoomGauge {
                users: state.user_count(),
                publications: state.topology.media_counts().publications,
                subscriptions: state.topology.media_counts().subscriptions,
                recording_state: RecordingState { recording: None },
            })
            .collect(),
    )
}

const NO_GAUGES: RoomGaugeValues =
    RoomGaugeValues { rooms: 0, users: 0, publications: 0, subscriptions: 0, recording_rooms: 0 };
const ONE_USER: RoomGaugeValues =
    RoomGaugeValues { rooms: 1, users: 1, publications: 0, subscriptions: 0, recording_rooms: 0 };

fn has_room_reservation_deadline(manager: &RoomManager, room_id: &str) -> bool {
    matches!(manager.phase(room_id), Some(RoomLifecyclePhase::Reservation { .. }))
}

#[test]
fn room_manager_concurrent_create_and_cleanup_are_idempotent() {
    let mut manager = RoomManager::new(policy(2), LONG_EXPIRATION, 60 * SECOND);
    let mut state = room_state(2);
    let first = serve_test_room(&mut manager, "issuer-a", START);
    let second = serve_test_room(&mut manager, "issuer-a", START);
    assert_eq!(first, second);
    try_manager_join_user(&mut manager, &first, &mut state, 1, START).unwrap();

    let user_ids = vec![UserId::Integer(1)];
    let one = manager.begin_current_room_mutation(&first).unwrap();
    let other = manager.begin_current_room_mutation(&first).unwrap();
    for mutation in [one, other] {
        let _ = state.apply_disconnect_users(&user_ids);
        manager.finish_session_mutation(
            mutation,
            Some(RoomRemovalPolicy::Immediately),
            state.is_empty(),
            START,
        );
    }

    assert!(manager.get_by_uuid(&first).is_none());
}

#[test]
fn manager_lifecycle_future_does_not_block_empty_cleanup() {
    let mut manager = RoomManager::new(policy(2), LONG_EXPIRATION, 0);
    let mut state = room_state(2);
    let room_id = serve_test_room(&mut manager, "issuer-a", START);
    let connection =
        try_manager_join_user(&mut manager, &room_id, &mut state, 1, START).unwrap();

    let held = manager.begin_current_room_mutation(&room_id).unwrap();
    assert!(close_session(&mut manager, &room_id, &mut state, 1, connection, START));
    assert!(manager.get_by_uuid(&room_id).is_some());

    assert!(manager.finish_session_mutation(held, None, state.is_empty(), START));
    assert!(manager.get_by_uuid(&room_id).is_none());
}

#[test]
fn expired_reservation_is_reaped_and_frees_the_issuer_alias() {
    const ISSUER: &str = "issuer-reservation-expiry";

    let mut manager = manager_with_reservation_ttl(0);
    let room_id = serve_test_room(&mut manager, ISSUER, START);

    // a room is available until it is reaped, so a uuid whose deadline has passed
    // keeps being served. that uuid is still joinable.
    assert_eq!(serve_test_room(&mut manager, ISSUER, START), room_id);

    assert_eq!(
        manager.check_expired_room_reservations(START),
        vec![(room_id.clone(), ExpiryReason::ReservationLapsed)]
    );

    assert!(
        manager.get_by_uuid(&room_id).is_none(),
        "an expired reservation should leave the directory"
    );
    assert_eq!(
        gauges(&manager, &[]),
        NO_GAUGES,
        "the reaped room should stop counting towards the active-room gauge"
    );
    assert_ne!(
        serve_test_room(&mut manager, ISSUER, START),
        room_id,
        "the issuer alias should be free for a fresh room"
    );
}

#[test]
fn serving_an_existing_room_renews_its_reservation() {
    const ISSUER: &str = "issuer-serve-renews-reservation";

    let mut manager = manager_with_reservation_ttl(LONG_EXPIRATION);
    let room_id = serve_test_room(&mut manager, ISSUER, START);
    let expired = Moment(LONG_EXPIRATION + SECOND);

    assert_eq!(
        serve_test_room(&mut manager, ISSUER, expired),
        room_id,
        "a second serve for the same issuer should return the same room"
    );

    // if the second serve had not renewed the reservation, this pass would
    // reap the room since its deadline has passed
    assert!(manager.check_expired_room_reservations(expired).is_empty());

    assert!(
        manager.get_by_uuid(&room_id).is_some(),
        "serving the room again should renew its reservation before the reaper runs"
    );
}

#[test]
fn serving_a_joined_room_does_not_rearm_its_reservation() {
    const ISSUER: &str = "issuer-serve-after-join";

    let mut manager = manager_with_reservation_ttl(0);
    let mut state = room_state(100);
    let room_id = serve_test_room(&mut manager, ISSUER, START);
    try_manager_join_user(&mut manager, &room_id, &mut state, 1, START).unwrap();

    // a room keeps being served while its users are in it, and the reaper does not
    // check membership, so a deadline re-armed here would reap an occupied room
    assert_eq!(serve_test_room(&mut manager, ISSUER, START), room_id);
    assert!(
        !has_room_reservation_deadline(&manager, &room_id),
        "serving a joined room must not rearm the reservation its join retired"
    );

    assert!(manager.check_expired_room_reservations(START).is_empty());

    assert!(
        manager.get_by_uuid(&room_id).is_some(),
        "an occupied room must survive the reaper"
    );
    assert_eq!(gauges(&manager, &[&state]), ONE_USER);
}

#[test]
fn a_joined_room_has_no_reservation_deadline() {
    let mut manager = manager_with_reservation_ttl(LONG_EXPIRATION);
    let mut state = room_state(100);
    let room_id = serve_test_room(&mut manager, "issuer-joined-reservation", START);
    assert!(
        has_room_reservation_deadline(&manager, &room_id),
        "an unjoined room should carry a reservation deadline"
    );

    let connection_id =
        try_manager_join_user(&mut manager, &room_id, &mut state, 1, START).unwrap();

    assert!(
        !has_room_reservation_deadline(&manager, &room_id),
        "a successful first join should retire the reservation"
    );
    assert!(manager.check_expired_room_reservations(Moment(2 * LONG_EXPIRATION)).is_empty());
    assert_eq!(gauges(&manager, &[&state]), ONE_USER);

    assert!(close_session(&mut manager, &room_id, &mut state, 1, connection_id, START));
    assert!(
        manager.get_by_uuid(&room_id).is_none(),
        "last-user cleanup should stay unchanged by reservations"
    );
}

#[test]
fn expiry_loses_to_an_in_flight_first_join() {
    let mut manager = manager_with_reservation_ttl(LONG_EXPIRATION);
    let mut state = room_state(100);
    let room_id = serve_test_room(&mut manager, "issuer-join-outruns-expiry", START);
    let expired = Moment(LONG_EXPIRATION + SECOND);
    let pending_join = manager.begin_join(&room_id).ok().unwrap();

    assert!(manager.check_expired_room_reservations(expired).is_empty());
    assert!(
        manager.get_by_uuid(&room_id).is_some(),
        "expiry must not reap a room whose first join already holds a lease"
    );

    let commit = state
        .apply_join(&UserId::Integer(1), OutboundLane(1), UserJoinedFanout::Emit, |_, _| {
            Ok(MediaWorkerId(0))
        })
        .unwrap();
    manager.accept_join(&pending_join);
    manager.conclude_join(
        pending_join,
        commit.receipt.transport_session_key,
        state.is_empty(),
        expired,
    );

    assert!(
        !has_room_reservation_deadline(&manager, &room_id),
        "the join that outran expiry should retire the reservation"
    );
    assert!(manager.check_expired_room_reservations(expired).is_empty());
    assert_eq!(gauges(&manager, &[&state]), ONE_USER);
}

#[test]
fn a_join_between_the_deadline_and_the_reaper_keeps_the_room() {
    let mut manager = manager_with_reservation_ttl(0);
    let mut state = room_state(100);
    let room_id = serve_test_room(&mut manager, "issuer-join-outruns-reaper", START);

    // the deadline has already passed, but no reaper pass has claimed the row,
    // so the room is still in the directory and still joinable
    assert!(
        try_manager_join_user(&mut manager, &room_id, &mut state, 1, START).is_ok(),
        "a room past its deadline stays joinable until the reaper claims it"
    );
    assert!(
        state.user_connection_id(&UserId::Integer(1)).is_some(),
        "the accepted join should leave a room session behind"
    );
    assert!(
        !has_room_reservation_deadline(&manager, &room_id),
        "the join that outran the reaper should retire the reservation"
    );

    assert!(manager.check_expired_room_reservations(START).is_empty());

    assert!(
        manager.get_by_uuid(&room_id).is_some(),
        "a reaper pass after the join must leave the occupied room alone"
    );
    assert_eq!(gauges(&manager, &[&state]), ONE_USER);
}

#[test]
fn a_failed_first_join_does_not_extend_the_reservation() {
    let mut manager = RoomManager::new(policy(0), LONG_EXPIRATION, 0);
    let mut state = room_state(0);
    let room_id = serve_test_room(&mut manager, "issuer-failed-join-reservation", START);

    assert!(matches!(
        try_manager_join_user(&mut manager, &room_id, &mut state, 1, Moment(SECOND)),
        Err(RoomManagerJoinError::RoomFull)
    ));

    assert!(
        has_room_reservation_deadline(&manager, &room_id),
        "only a successful join may retire the reservation"
    );
    assert_eq!(manager.check_expired_room_reservations(Moment(LONG_EXPIRATION)).len(), 1);

    assert!(manager.get_by_uuid(&room_id).is_none());
    assert_eq!(gauges(&manager, &[]), NO_GAUGES);
}

#[test]
fn a_conflicting_reservation_leaves_the_current_room_in_place() {
    let mut manager = RoomManager::new(policy(100), 60 * SECOND, 60 * SECOND);
    let room_id = serve_test_room(&mut manager, "issuer-conflicting-reservation", START);

    assert!(matches!(
        manager.serve_room(
            "issuer-conflicting-reservation",
            RoomKey::new(String::from("other-key")),
            &RoomConfig::default(),
            None,
            START,
        ),
        Err(RoomManagerServeError::ConflictingReservation)
    ));

    assert!(
        manager.get_by_uuid(&room_id).is_some(),
        "a rejected request must not retire the current room"
    );
    assert_eq!(
        serve_test_room(&mut manager, "issuer-conflicting-reservation", START),
        room_id,
        "the issuer alias should still resolve to the room it reserved"
    );
}

#[test]
fn another_configuration_conflicts_too() {
    let mut manager = manager_with_reservation_ttl(LONG_EXPIRATION);
    serve_test_room(&mut manager, "issuer", START);
    for config in [
        RoomConfig { web_rtc_enabled: false, recording_address: None },
        RoomConfig { web_rtc_enabled: true, recording_address: Some(String::from("rec")) },
    ] {
        let answer = manager.serve_room("issuer", key(), &config, None, START);
        assert_eq!(
            answer.err().map(RoomManagerServeError::message),
            Some("conflicting room reservation")
        );
    }
}

#[test]
fn a_new_room_is_reserved_with_what_was_asked() {
    let mut manager = manager_with_reservation_ttl(LONG_EXPIRATION);
    let config = RoomConfig { web_rtc_enabled: false, recording_address: None };
    let served = manager
        .serve_room("issuer", key(), &config, Some("203.0.113.1"), Moment(3))
        .ok()
        .unwrap();
    assert_eq!(served.instance_id, RoomInstanceId(0));
    assert_eq!(served.context.unwrap().primary_router(), RouterId(0));
    assert_eq!(
        manager.phase(&served.uuid),
        Some(RoomLifecyclePhase::Reservation { expires_at: Moment(3 + LONG_EXPIRATION) })
    );
    let row = manager.directory_snapshot(&served.uuid).unwrap();
    assert_eq!(row.remote_address, "203.0.113.1");
    assert_ne!(row.create_date, "1970-01-01T00:00:00Z");
    assert!(row.create_date.ends_with('Z') && row.create_date.contains('T'));
    assert!(!manager.get_by_uuid(&served.uuid).unwrap().web_rtc_enabled());

    let next = manager.serve_room("other", key(), &config, None, START).ok().unwrap();
    assert_eq!(next.instance_id, RoomInstanceId(1));
    assert_eq!(
        manager.rooms_for_instance_ids(&vec![RoomInstanceId(1), RoomInstanceId(5)]),
        vec![next.uuid]
    );
}

#[test]
fn joins_of_missing_rooms_are_refused() {
    let mut manager = manager_with_reservation_ttl(LONG_EXPIRATION);
    assert!(matches!(
        manager.begin_join("nowhere"),
        Err(RoomManagerJoinError::MissingRoom)
    ));
    assert_eq!(RoomManagerJoinError::MissingRoom.message(), "room not found");
    assert_eq!(RoomManagerJoinError::RoomFull.message(), "room is full");
    assert_eq!(RoomManagerJoinError::RouterState.message(), "router state error");
}

#[test]
fn a_refusal_of_the_router_is_reported() {
    let mut manager = manager_with_reservation_ttl(LONG_EXPIRATION);
    let room_id = serve_test_room(&mut manager, "issuer", START);
    let mutation = manager.begin_join(&room_id).ok().unwrap();
    assert_eq!(
        manager.refuse_join(mutation, RoomJoinError::RouterState, true, START),
        RoomManagerJoinError::RouterState
    );
    assert!(has_room_reservation_deadline(&manager, &room_id));
}

#[test]
fn a_departure_is_held_for_its_grace() {
    let mut manager = RoomManager::new(policy(2), LONG_EXPIRATION, 60 * SECOND);
    let mut state = room_state(2);
    let room_id = serve_test_room(&mut manager, "issuer", START);
    let connection =
        try_manager_join_user(&mut manager, &room_id, &mut state, 1, START).unwrap();
    assert!(close_session(&mut manager, &room_id, &mut state, 1, connection, START));
    assert!(manager.check_expired_room_reservations(Moment(59 * SECOND)).is_empty());
    assert_eq!(
        manager.check_expired_room_reservations(Moment(60 * SECOND)),
        vec![(room_id, ExpiryReason::GraceElapsed)]
    );
}

#[test]
fn abandoned_work_removes_nothing() {
    let mut manager = manager_with_reservation_ttl(LONG_EXPIRATION);
    let room_id = serve_test_room(&mut manager, "issuer", START);
    let mutation = manager.begin_current_room_mutation(&room_id).unwrap();
    manager.abandon_mutation(mutation);
    assert!(manager.get_by_uuid(&room_id).is_some());
    assert!(manager.begin_current_room_mutation("nowhere").is_none());
}

#[test]
fn gauges_add_up() {
    let room = |users, recording| RoomGauge {
        users,
        publications: 2,
        subscriptions: 3,
        recording_state: RecordingState { recording },
    };
    assert_eq!(
        room_gauges(&vec![room(1, Some(true)), room(usize::MAX, Some(false)), room(0, None)]),
        RoomGaugeValues {
            rooms: 3,
            users: usize::MAX,
            publications: 6,
            subscriptions: 9,
            recording_rooms: 1
        }
    );
}

fn assert_is_timestamp(text: &str) {
    let bytes = text.as_bytes();
    assert!(bytes.len() >= 20 && bytes[bytes.len() - 1] == b'Z');
    for (i, byte) in bytes[..19].iter().enumerate() {
        match i {
            4 | 7 => assert_eq!(*byte, b'-'),
            10 => assert_eq!(*byte, b'T'),
            13 | 16 => assert_eq!(*byte, b':'),
            _ => assert!(byte.is_ascii_digit()),
        }
    }
    if bytes.len() > 20 {
        assert!(bytes.len() > 21 && bytes[19] == b'.');
        assert!(bytes[20..bytes.len() - 1].iter().all(u8::is_ascii_digit));
    }
}

#[test]
fn a_room_is_dated_when_it_is_published() {
    let mut manager = manager_with_reservation_ttl(LONG_EXPIRATION);
    serve_test_room(&mut manager, "issuer", START);
    let rows = manager.directory_snapshots();
    assert_eq!(rows.len(), 1);
    assert_is_timestamp(&rows[0].create_date);
}

#[test]
fn users_bulk_disconnected_event_preserves_contract_fields() {
    let mut manager = manager_with_reservation_ttl(LONG_EXPIRATION);
    let room_id = manager
        .serve_room(
            "issuer-bulk-disconnect",
            key(),
            &RoomConfig::default(),
            Some("203.0.113.1"),
            START,
        )
        .ok()
        .expect("test room should be served")
        .uuid;
    let mut state = RoomState::new(RoomInstanceId(0), 100, 16);
    try_manager_join_user(&mut manager, &room_id, &mut state, 1, START)
        .expect("test user should join");
    let user_ids = vec![UserId::Integer(1)];
    // success case: user is in a live room; this also empties and destroys the room
    let mutation = manager
        .begin_current_room_mutation(&room_id)
        .expect("the room should accept the disconnect");
    let closed = state.apply_disconnect_users(&user_ids).session_teardowns.len();
    assert!(manager.finish_session_mutation(
        mutation,
        Some(RoomRemovalPolicy::Immediately),
        state.is_empty(),
        START,
    ));
    let report = bulk_disconnect_report(&room_id, user_ids.len(), Some(closed));
    assert_eq!(report.room_id, room_id);
    assert_eq!(report.requested_user_count, 1);
    assert_eq!(report.disconnected_session_count, 1);
    assert_eq!(report.outcome.as_str(), "success");
    // room_missing case: the same room was destroyed by the previous call
    assert!(manager.begin_current_room_mutation(&room_id).is_none());
    let report = bulk_disconnect_report(&room_id, user_ids.len(), None);
    assert_eq!(report.room_id, room_id);
    assert_eq!(report.requested_user_count, 1);
    assert_eq!(report.disconnected_session_count, 0);
    assert_eq!(report.outcome.as_str(), "room_missing");
}

#[test]
fn the_last_lease_alone_removes_a_room() {
    let mut manager = manager_with_reservation_ttl(LONG_EXPIRATION);
    let room_id = serve_test_room(&mut manager, "issuer", START);
    let first = manager.begin_current_room_mutation(&room_id).unwrap();
    let second = manager.begin_current_room_mutation(&room_id).unwrap();
    assert!(!manager.finish_session_mutation(
        first,
        Some(RoomRemovalPolicy::Immediately),
        true,
        START,
    ));
    assert!(manager.finish_session_mutation(second, None, true, START));
    assert!(manager.check_expired_room_reservations(Moment(2 * LONG_EXPIRATION)).is_empty());
}

#[test]
fn timestamps_fall_back_to_the_epoch() {
    assert_eq!(timestamp_or_epoch(None), "1970-01-01T00:00:00Z");
    assert_eq!(timestamp_or_epoch(Some(String::from("now"))), "now");
    let now = rfc3339_now();
    assert_is_timestamp(&now);
}

#[test]
fn a_room_is_known_by_its_definition() {
    let mut manager = manager_with_reservation_ttl(LONG_EXPIRATION);
    assert_eq!(manager.runtime_policy().admission_policy.max_sessions, 100);
    let room_id = serve_test_room(&mut manager, "issuer", START);
    let room = manager.get_by_uuid(&room_id).expect("the room should be current");
    assert_eq!((room.uuid(), room.issuer()), (room_id.as_str(), "issuer"));
    assert_eq!(room.key().as_str(), TEST_ROOM_KEY);
    assert!(room.web_rtc_enabled());
    assert_eq!(room.room_worker_policy().max_local_routers(), 1);
}
