use sfu_room::definition::{
    RoomAdmissionPolicy, RoomConfig, RoomKey, RoomMediaLimits, RoomRuntimePolicy,
    RuntimeFeatureFlags, VideoAdaptationTuning,
};
use sfu_room::directory::{RoomDirectory, RoomDirectoryEntry};
use sfu_room::factory::RoomFactory;
use sfu_room::lifecycle::{ExpiryReason, RoomLifecycle, RoomLifecyclePhase, RoomRemovalPolicy};
use sfu_room::source_model::{MediaCapabilities, Moment};

const MILLISECOND: u128 = 1_000_000;
const TEST_RESERVATION_TTL: u128 = 60_000 * MILLISECOND;
const TEST_DEPARTURE_GRACE: u128 = 60_000 * MILLISECOND;
const TEST_ROOM_KEY: &str = "room-key";
const START: Moment = Moment(0);

/// just past a freshly published reservation deadline
fn past_reservation_deadline() -> Moment {
    Moment(START.0 + TEST_RESERVATION_TTL + MILLISECOND)
}

fn test_lifecycle() -> RoomLifecycle {
    RoomLifecycle::new(TEST_RESERVATION_TTL, TEST_DEPARTURE_GRACE, START)
}

fn test_factory() -> RoomFactory {
    RoomFactory::new(RoomRuntimePolicy::new(
        RoomAdmissionPolicy::new(2),
        RuntimeFeatureFlags {
            transcription: false,
            audio_recording: false,
            video_recording: false,
        },
        MediaCapabilities { formats: vec![] },
        RoomMediaLimits { max_audio_speakers: 4, max_video_downloads_per_receiver: 16 },
        VideoAdaptationTuning { upgrade_hold: 0 },
    ))
}

fn key() -> RoomKey {
    RoomKey::new(TEST_ROOM_KEY.to_owned())
}

fn publish(directory: &mut RoomDirectory, factory: &mut RoomFactory, issuer: &str, now: Moment) -> (String, sfu_room::ids::RoomInstanceId) {
    let created = factory.create(issuer, key(), &RoomConfig::default());
    let identity = (created.definition.uuid().to_owned(), created.definition.instance_id());
    directory.insert(RoomDirectoryEntry::new(
        created.definition,
        None,
        String::from("2024-01-01T00:00:00Z"),
        TEST_RESERVATION_TTL,
        TEST_DEPARTURE_GRACE,
        now,
    ));
    identity
}

#[test]
fn an_expired_reservation_is_claimed_once_and_is_terminal() {
    let mut lifecycle = test_lifecycle();

    let lease = lifecycle.begin().expect("work should be accepted before the deadline");
    lifecycle.abandon(lease);
    assert_eq!(
        lifecycle.claim_expired_room(START),
        None,
        "an unexpired reservation must not be claimed"
    );

    let now = past_reservation_deadline();

    // a room stays available until a reaper pass claims it, so a passed
    // deadline on its own must not refuse work
    let lease =
        lifecycle.begin().expect("work arriving before the reaper should still be accepted");
    lifecycle.abandon(lease);
    assert_eq!(
        lifecycle.claim_expired_room(now),
        Some(ExpiryReason::ReservationLapsed),
        "the first claim after the deadline should win directory removal"
    );
    assert_eq!(
        lifecycle.claim_expired_room(now),
        None,
        "later reaper passes must not win again, so the room gauge drops once"
    );
    assert!(lifecycle.begin().is_none(), "a claimed reservation is terminal");
}

#[test]
fn work_that_leaves_the_room_empty_keeps_the_reservation() {
    let mut lifecycle = test_lifecycle();
    let lease = lifecycle.begin().expect("a join that will fail is still accepted");

    let now = past_reservation_deadline();
    assert!(
        !lifecycle.finish(lease, None, true, now),
        "an empty room is not removed without a removal request"
    );
    assert_eq!(
        lifecycle.claim_expired_room(now),
        Some(ExpiryReason::ReservationLapsed),
        "only a successful join may retire the reservation"
    );
}

#[test]
fn empty_room_removal_wins_over_a_later_expiry_claim() {
    let mut lifecycle = test_lifecycle();
    let lease = lifecycle.begin().expect("an administrative disconnect should be accepted");

    assert!(
        lifecycle.finish(lease, Some(RoomRemovalPolicy::Immediately), true, START),
        "the finisher that empties the room should win directory removal"
    );

    assert_eq!(
        lifecycle.claim_expired_room(past_reservation_deadline()),
        None,
        "expiry must not remove a room the last-user path already removed"
    );
}

#[test]
fn stale_expiry_never_removes_a_newer_room_for_the_same_issuer() {
    const ISSUER: &str = "issuer-stale-expiry";

    let mut factory = test_factory();
    let mut directory = RoomDirectory::new();
    let (stale, stale_instance) = publish(&mut directory, &mut factory, ISSUER, START);

    let now = past_reservation_deadline();
    assert!(directory
        .lifecycle_mut(&stale)
        .expect("the first room should be a current row")
        .claim_expired_room(now)
        .is_some());
    assert!(directory.remove_if_current(&stale, stale_instance));

    // a reaper pass keeps what it claimed while the issuer is republished, so
    // removal must be re-validated against the current row
    let (current, current_instance) = publish(&mut directory, &mut factory, ISSUER, now);
    assert_ne!(stale, current, "a republished issuer should get a fresh uuid");
    assert_ne!(stale_instance, current_instance);

    assert!(!directory.remove_if_current(&stale, stale_instance));
    assert!(!directory.remove_if_current(&current, stale_instance));

    assert_eq!(
        directory.entry_by_issuer(ISSUER).map(|entry| entry.room.uuid().to_owned()),
        Some(current),
        "a stale expiry must leave the issuer alias pointing at the current room"
    );
}

#[test]
fn an_elapsed_departure_grace_is_claimed_once_and_repeated_cleanup_cannot_extend_it() {
    let mut lifecycle = test_lifecycle();
    let departure = lifecycle.begin().expect("last-user teardown should be accepted");
    // the room was joined, so only the departure below can arm a deadline
    lifecycle.clear_expiration(&departure);

    assert!(
        !lifecycle.finish(departure, Some(RoomRemovalPolicy::AfterGrace), true, START),
        "a departure must not remove the room its grace still holds"
    );
    assert_eq!(
        lifecycle.claim_expired_room(START),
        None,
        "an unelapsed grace must not be claimed"
    );

    // a stale close arrives mid-grace and asks for the same removal again
    let half = Moment(TEST_DEPARTURE_GRACE / 2);
    let repeated_cleanup = lifecycle.begin().expect("repeated cleanup should be accepted");
    assert!(!lifecycle.finish(repeated_cleanup, Some(RoomRemovalPolicy::AfterGrace), true, half));

    let now = Moment(TEST_DEPARTURE_GRACE + MILLISECOND);
    assert_eq!(
        lifecycle.claim_expired_room(now),
        Some(ExpiryReason::GraceElapsed),
        "repeated cleanup must not push the original deadline back"
    );
    assert_eq!(
        lifecycle.claim_expired_room(now),
        None,
        "later reaper passes must not win again, so `room.destroyed` is logged once"
    );
    assert!(lifecycle.begin().is_none(), "a claimed departure grace is terminal");
}

#[test]
fn a_dropped_lease_neither_closes_an_occupied_room_nor_arms_a_grace() {
    let mut lifecycle = test_lifecycle();
    let first_join = lifecycle.begin().expect("a first join should be accepted");
    lifecycle.clear_expiration(&first_join);
    lifecycle.abandon(first_join);

    let departure = lifecycle.begin().expect("last-user teardown should be accepted");
    let rejoin = lifecycle.begin().expect("a rejoin should be accepted");
    assert!(
        !lifecycle.finish(departure, Some(RoomRemovalPolicy::AfterGrace), true, START),
        "the rejoin still holds a lease, so removal waits for it"
    );

    // the rejoin is cancelled, so it proves nothing about the room it leaves
    // behind and cannot consume the pending removal
    lifecycle.abandon(rejoin);

    assert!(
        !lifecycle.has_departure_grace(),
        "a cancelled rejoin must not arm the grace the departure requested"
    );
    assert_eq!(
        lifecycle.claim_expired_room(Moment(TEST_DEPARTURE_GRACE + MILLISECOND)),
        None,
        "a room the join retired a deadline for must survive the reaper"
    );
    assert!(lifecycle.begin().is_some(), "the room should still accept work");
}

#[test]
fn a_pending_immediate_removal_refuses_further_work() {
    let mut lifecycle = test_lifecycle();
    let disconnect = lifecycle.begin().unwrap();
    let other = lifecycle.begin().unwrap();
    assert!(!lifecycle.finish(disconnect, Some(RoomRemovalPolicy::Immediately), true, START));
    assert!(lifecycle.begin().is_none());
    assert!(lifecycle.finish(other, None, true, START));
    assert_eq!(lifecycle.phase(), RoomLifecyclePhase::Closing);
}

#[test]
fn without_a_grace_period_departures_remove_at_once() {
    let mut lifecycle = RoomLifecycle::new(TEST_RESERVATION_TTL, 0, START);
    let join = lifecycle.begin().unwrap();
    lifecycle.clear_expiration(&join);
    assert!(!lifecycle.finish(join, None, false, START));
    let departure = lifecycle.begin().unwrap();
    assert_eq!(lifecycle.lease_count(), 1);
    assert!(lifecycle.finish(departure, Some(RoomRemovalPolicy::AfterGrace), true, START));
}

#[test]
fn a_renewal_turns_a_grace_period_into_a_reservation() {
    let mut lifecycle = test_lifecycle();
    let departure = lifecycle.begin().unwrap();
    lifecycle.clear_expiration(&departure);
    assert!(!lifecycle.finish(departure, Some(RoomRemovalPolicy::AfterGrace), true, START));
    assert!(lifecycle.has_departure_grace());
    lifecycle.renew_reservation(Moment(5));
    assert!(lifecycle.has_reservation_deadline());
    assert_eq!(
        lifecycle.phase(),
        RoomLifecyclePhase::Reservation { expires_at: Moment(5 + TEST_RESERVATION_TTL) }
    );
}

#[test]
fn a_removed_room_leaves_no_alias() {
    let mut factory = test_factory();
    let mut directory = RoomDirectory::new();
    let (uuid, instance) = publish(&mut directory, &mut factory, "issuer", START);
    assert_eq!(directory.len(), 1);
    assert_eq!(directory.room_ids(), vec![uuid.clone()]);
    assert!(directory.contains_current(&uuid, instance));
    assert_eq!(directory.get_by_instance_id(instance).map(|room| room.uuid()), Some(&uuid[..]));
    assert_eq!(directory.entry(&uuid).unwrap().remote_address, "unknown");
    assert!(directory.remove_if_current(&uuid, instance));
    assert_eq!(directory.len(), 0);
    assert!(directory.get_by_uuid(&uuid).is_none());
    assert!(directory.entry_by_issuer("issuer").is_none());
    assert!(directory.get_by_instance_id(instance).is_none());
}

#[test]
fn a_room_is_removed_once_over_any_calls() {
    let mut lifecycle = RoomLifecycle::new(10, 5, START);
    let mut removals = 0;
    let join = lifecycle.begin().unwrap();
    lifecycle.clear_expiration(&join);
    let departure = lifecycle.begin().unwrap();
    removals += usize::from(lifecycle.finish(join, None, false, START));
    removals += usize::from(lifecycle.finish(
        departure,
        Some(RoomRemovalPolicy::AfterGrace),
        true,
        START,
    ));
    removals += usize::from(lifecycle.claim_expired_room(Moment(4)).is_some());
    let late = lifecycle.begin().unwrap();
    removals += usize::from(lifecycle.claim_expired_room(Moment(9)).is_some());
    lifecycle.abandon(late);
    removals += usize::from(lifecycle.claim_expired_room(Moment(9)).is_some());
    assert_eq!(removals, 1);
    lifecycle.renew_reservation(Moment(9));
    removals += usize::from(lifecycle.claim_expired_room(Moment(99)).is_some());
    assert_eq!(removals, 1);
    assert!(lifecycle.begin().is_none());
}
