use sfu_room::consumer_setup::ConsumerRouteTarget;
use sfu_room::effects::{RoomEffectContext, RoomEffectStep, RoomEffects, RoomEmission};
use sfu_room::ids::{
    ConnectionId, MediaWorkerId, OutboundLane, PublishedSourceId, RoomInstanceId,
    TransportMediaId, UserId, UserStreamId,
};
use sfu_room::outbound::{
    MessageFanout, RemoteTrackSnapshot, RoomEventMessage, UserCloseReason,
    VersionedRemoteTrackSnapshot,
};
use sfu_room::publication::{ProducerActivityCommit, PublishCommit};
use sfu_room::source_model::{Bitrate, ConsumerSourceSelection, MediaKind, SourceSelector};
use sfu_room::state::{
    CloseRequest, ConnectionCloseCommit, LifecycleEffects, PresenceCommit, UserJoinedFanout,
};
use sfu_room::subscription::ReceiverRouteCommit;
use sfu_room::membership::DisconnectCommit;
use sfu_room::topology::RouterRelease;
use sfu_room::transport::{
    ConsumerActivity, ProducerActivity, RelayRouteActivity, SourceActivityRevision,
    SourceActivityUpdate, SubscriptionKey, TransportConsumerRoute, TransportRelayRouteAction,
    TransportRelayRouteEffect, TransportSessionKey, TransportSourceActivityEffect,
    TransportSourceKey, TransportTeardown,
};
use sfu_room::transport_plan::{
    extract_relay_teardown, finish_consumers, ConsumerPacketSelectionUpdate,
    ConsumerRouteControlOutcome, ConsumerRouteFinish, ReceiverBweTargetUpdate,
    ReceiverRouteActivity, ReceiverRouteWork, RoomRouteEffects, RoomTransportPlan, RouteFailure,
};

fn session(user: i64) -> TransportSessionKey {
    TransportSessionKey::new(
        RoomInstanceId(0),
        MediaWorkerId(0),
        ConnectionId(user as u64),
        UserId::Integer(user),
    )
}

fn source() -> TransportSourceKey {
    TransportSourceKey::new(session(1), TransportMediaId(10))
}

fn route(media: u64) -> TransportConsumerRoute {
    TransportConsumerRoute::new(session(2), TransportMediaId(media), source())
}

fn target(kind: MediaKind) -> ConsumerRouteTarget {
    ConsumerRouteTarget::new(route(20), UserStreamId::new("camera"), kind)
}

fn departed(user: i64) -> MessageFanout {
    MessageFanout {
        recipients: vec![OutboundLane(9)],
        message: RoomEventMessage::UserDeparted { user_id: UserId::Integer(user) },
    }
}

fn tracks(revision: u64) -> (OutboundLane, VersionedRemoteTrackSnapshot) {
    (
        OutboundLane(revision),
        VersionedRemoteTrackSnapshot {
            snapshot: RemoteTrackSnapshot { tracks: vec![], requires_negotiation: false },
            revision,
        },
    )
}

fn lifecycle() -> LifecycleEffects {
    LifecycleEffects {
        close_requests: vec![CloseRequest {
            sender: OutboundLane(1),
            reason: UserCloseReason::RemovedByRuntime,
        }],
        track_snapshots: vec![tracks(5)],
        fanouts: vec![departed(1), departed(2)],
    }
}

/// The order of the steps, one letter each.
fn trace(effects: RoomEffects) -> String {
    effects
        .into_steps()
        .iter()
        .map(|step| match step {
            RoomEffectStep::Transport(_) => 'T',
            RoomEffectStep::SourcePolicy => 'P',
            RoomEffectStep::Emit(RoomEmission::Tracks(..)) => 't',
            RoomEffectStep::Emit(RoomEmission::Fanout(_)) => 'f',
            RoomEffectStep::Emit(RoomEmission::Close(..)) => 'c',
        })
        .collect()
}

fn no_work() -> ReceiverRouteWork {
    ReceiverRouteWork { activities: vec![], setups: vec![], relays: vec![], teardown: vec![] }
}

fn relay(action: TransportRelayRouteAction) -> TransportRelayRouteEffect {
    TransportRelayRouteEffect {
        source: source(),
        target_media_worker_id: MediaWorkerId(1),
        action,
    }
}

fn activity(active: bool) -> ProducerActivityCommit {
    ProducerActivityCommit {
        source: source(),
        stream_id: UserStreamId::new("camera"),
        update: SourceActivityUpdate::new(
            ProducerActivity::from_active(active),
            SourceActivityRevision(3),
        ),
        remote_activity_effects: vec![TransportSourceActivityEffect {
            source: source(),
            target_media_worker_id: MediaWorkerId(4),
            update: SourceActivityUpdate::new(
                ProducerActivity::from_active(active),
                SourceActivityRevision(3),
            ),
        }],
        track_snapshots: vec![tracks(5), tracks(6)],
        presence: Some(PresenceCommit { fanout: departed(1) }),
    }
}

#[test]
fn contexts_choose_the_transport() {
    let transport = 7u8;
    let runtime = RoomEffectContext::runtime(&transport);
    assert_eq!(runtime.media_transport(), Some(&7));
    assert_eq!(runtime.route_transport(), Some(&7));
    assert_eq!(runtime.user_joined_fanout(), UserJoinedFanout::Emit);
    let state_only = RoomEffectContext::state_only(Some(&transport));
    assert_eq!(state_only.media_transport(), Some(&7));
    assert_eq!(state_only.route_transport(), None);
    assert_eq!(state_only.user_joined_fanout(), UserJoinedFanout::Suppress);
    assert_eq!(RoomEffectContext::<u8>::state_only(None).media_transport(), None);
}

#[test]
fn an_activation_runs_policy_before_transport() {
    let effects = RoomEffects::from_publication_activity(activity(true));
    assert_eq!(effects.transport.remote_source_activity.len(), 1);
    assert_eq!(effects.transport.route_control.producers.len(), 1);
    assert_eq!(trace(effects), "fPTtt");
    assert_eq!(
        trace(RoomEffects::from_publication_activity(activity(false))),
        "TttfP"
    );
}

#[test]
fn departures_tear_down_before_they_are_told() {
    let effects = RoomEffects::from_connection_close(ConnectionCloseCommit::Current {
        session_teardown: TransportTeardown::CloseSession { session_key: session(1) },
        router_release: RouterRelease::Session { user_id: UserId::Integer(1) },
        effects: lifecycle(),
        transport_plan: RoomTransportPlan::new(),
    });
    assert_eq!(
        effects.transport.teardown,
        vec![TransportTeardown::CloseSession { session_key: session(1) }]
    );
    assert_eq!(trace(effects), "TPctff");

    let stale = RoomEffects::from_connection_close(ConnectionCloseCommit::StalePlacement {
        session_teardown: TransportTeardown::CloseSession { session_key: session(1) },
        router_release: RouterRelease::Placement {
            user_id: UserId::Integer(1),
            connection_id: ConnectionId(1),
        },
    });
    assert_eq!(stale.transport.teardown.len(), 1);
    assert_eq!(trace(stale), "T");

    let disconnect = RoomEffects::from_disconnect(DisconnectCommit {
        session_teardowns: vec![
            TransportTeardown::CloseSession { session_key: session(1) },
            TransportTeardown::CloseSession { session_key: session(2) },
        ],
        router_releases: vec![],
        effects: lifecycle(),
        transport_plan: RoomTransportPlan::new(),
    });
    assert_eq!(disconnect.transport.teardown.len(), 2);
    assert_eq!(trace(disconnect), "TPctff");
}

#[test]
fn presence_is_told_after_policy_and_publications_before() {
    assert_eq!(
        trace(RoomEffects::from_presence(PresenceCommit { fanout: departed(1) })),
        "TPf"
    );
    let publish = PublishCommit {
        source_id: PublishedSourceId(1),
        receiver_route_work: no_work(),
        presence: Some(PresenceCommit { fanout: departed(1) }),
    };
    assert_eq!(trace(RoomEffects::from_publish(publish)), "TfP");
}

#[test]
fn receiver_work_reaches_the_transport() {
    let commit = |work| ReceiverRouteCommit {
        work,
        track_snapshots: vec![tracks(5)],
        dropped_consumers: vec![],
    };
    let mut work = no_work();
    work.activities.push(ReceiverRouteActivity::new(target(MediaKind::Video), true));
    work.relays.push(relay(TransportRelayRouteAction::Release));
    work.relays.push(relay(TransportRelayRouteAction::Install));
    work.teardown.push(TransportTeardown::CloseSession { session_key: session(2) });
    let effects = RoomEffects::from_receiver_intent(commit(work));
    assert_eq!(effects.transport.relays.len(), 1);
    assert!(matches!(
        effects.transport.teardown[0],
        TransportTeardown::ReleaseRelayRoute { .. }
    ));
    assert!(matches!(effects.transport.teardown[1], TransportTeardown::CloseSession { .. }));
    assert_eq!(effects.transport.route_control.consumers.len(), 1);
    assert_eq!(trace(effects), "TP");
    assert_eq!(trace(RoomEffects::from_consumer_readiness(commit(no_work()))), "TtP");
}

#[test]
fn releases_of_relays_are_torn_down() {
    let (kept, teardown) = extract_relay_teardown(vec![
        relay(TransportRelayRouteAction::Install),
        relay(TransportRelayRouteAction::Release),
        relay(TransportRelayRouteAction::SetActivity(RelayRouteActivity::Active)),
    ]);
    assert_eq!(kept.len(), 2);
    assert_eq!(
        teardown,
        vec![TransportTeardown::ReleaseRelayRoute {
            source: source(),
            target_media_worker_id: MediaWorkerId(1)
        }]
    );
}

fn outcome(gate: bool, activity: bool, keyframe: bool) -> ConsumerRouteControlOutcome {
    ConsumerRouteControlOutcome {
        packet_gate_failed: gate,
        activity_failed: activity,
        keyframe_failed: keyframe,
    }
}

fn policy_update() -> ConsumerPacketSelectionUpdate {
    let mut selection = ConsumerSourceSelection::open(true);
    selection.set_selector(SourceSelector::Open);
    ConsumerPacketSelectionUpdate {
        key: SubscriptionKey::new(
            &UserId::Integer(2),
            &UserId::Integer(1),
            &UserStreamId::new("camera"),
        ),
        source_id: PublishedSourceId(1),
        route: route(20),
        selection,
        request_keyframe: true,
    }
}

#[test]
fn a_refused_update_is_not_accepted() {
    let mut accepted = Vec::new();
    let finish = || ConsumerRouteFinish::SourcePolicy(policy_update());
    assert_eq!(
        finish().finish(outcome(true, false, true), &mut accepted),
        Some(RouteFailure::Selection)
    );
    assert_eq!(
        finish().finish(outcome(false, true, false), &mut accepted),
        Some(RouteFailure::Selection)
    );
    assert!(accepted.is_empty());
    assert_eq!(
        finish().finish(outcome(false, false, true), &mut accepted),
        Some(RouteFailure::Keyframe)
    );
    assert_eq!(finish().finish(outcome(false, false, false), &mut accepted), None);
    assert_eq!(accepted.len(), 2);
}

#[test]
fn a_refused_activity_is_reported_before_its_keyframe() {
    let mut accepted = Vec::new();
    let activity =
        || ConsumerRouteFinish::Activity(ReceiverRouteActivity::new(target(MediaKind::Video), true));
    assert_eq!(
        activity().finish(outcome(false, true, true), &mut accepted),
        Some(RouteFailure::Activity)
    );
    assert_eq!(
        activity().finish(outcome(false, false, true), &mut accepted),
        Some(RouteFailure::Keyframe)
    );
    assert_eq!(
        ConsumerRouteFinish::SetupActivity(route(20), true)
            .finish(outcome(false, true, false), &mut accepted),
        Some(RouteFailure::Activity)
    );
    assert_eq!(
        ConsumerRouteFinish::Keyframe(target(MediaKind::Video))
            .finish(outcome(true, true, false), &mut accepted),
        None
    );
    let (updates, failures) = finish_consumers(vec![
        (ConsumerRouteFinish::SourcePolicy(policy_update()), outcome(false, false, false)),
        (activity(), outcome(false, true, false)),
    ]);
    assert_eq!(updates.len(), 1);
    assert_eq!(failures, vec![None, Some(RouteFailure::Activity)]);
    let control = policy_update().route_control();
    assert_eq!(control.activity, Some(ConsumerActivity::Active));
    assert!(control.request_keyframe);
}

#[test]
fn only_video_that_starts_needs_a_keyframe() {
    assert!(target(MediaKind::Video).request_keyframe_after_activity(true));
    assert!(!target(MediaKind::Video).request_keyframe_after_activity(false));
    assert!(!target(MediaKind::Audio).request_keyframe_after_activity(true));
    assert_eq!(ConsumerActivity::from_active(true), ConsumerActivity::Active);
}

#[test]
fn policy_updates_and_targets_join_one_plan() {
    let mut effects = RoomRouteEffects::new();
    assert!(policy_update().route_active());
    effects.source_policy_update(policy_update());
    effects.set_receiver_bwe_targets(vec![ReceiverBweTargetUpdate {
        session: session(2),
        target: Bitrate::from_kbps(300),
    }]);
    assert_eq!(effects.consumers.len(), 1);
    assert!(matches!(effects.consumers[0].finish, ConsumerRouteFinish::SourcePolicy(_)));
    assert_eq!(effects.receiver_bwe_targets[0].target.as_bps(), 300_000);
    assert!(effects.producers.is_empty());
}
