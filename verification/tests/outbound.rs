use sfu_room::ids::{OutboundLane, UserId, UserStreamId};
use sfu_room::ord_map::OrdMap;
use sfu_room::outbound::{
    fanout_all, BroadcastPayload, BroadcastPayloadError, OutboundLedger, QueueOutcome,
    QueuedUserOutbound, RecordingState, RecordingStateUpdate, RemoteTrackProjection,
    RemoteTrackSnapshot, RoomEventMessage, UserCloseReason, UserOutbound, UserOutboundEvent,
    UserOutboundOverflowKind, UserOutboundQueueLimits, UserOutboundSendError,
    UserOutboundTryRecvError,
    VersionedRemoteTrackSnapshot, BROADCAST_QUEUE_OVERHEAD_BYTES,
    DEFAULT_USER_OUTBOUND_QUEUE_BYTE_CAPACITY, DEFAULT_USER_OUTBOUND_QUEUE_CAPACITY,
    MAX_BROADCAST_PAYLOAD_BYTES, ROOM_EVENT_QUEUE_BYTES, TRACK_PROJECTION_QUEUE_OVERHEAD_BYTES,
};
use sfu_room::source_model::UserInfo;

fn close() -> UserOutbound {
    UserOutbound::Close(UserCloseReason::Replaced)
}

fn track(mid: &str) -> RemoteTrackProjection {
    RemoteTrackProjection {
        consumer_mid: mid.to_owned(),
        user_id: UserId::String(String::from("ada")),
        stream_id: UserStreamId::new("camera"),
        producer_active: true,
    }
}

fn snapshot(revision: u64, mids: &[&str], negotiate: bool) -> VersionedRemoteTrackSnapshot {
    VersionedRemoteTrackSnapshot {
        snapshot: RemoteTrackSnapshot {
            tracks: mids.iter().map(|mid| track(mid)).collect(),
            requires_negotiation: negotiate,
        },
        revision,
    }
}

#[test]
fn payloads_are_measured_as_json() {
    let value = serde_json::Value::Array(vec![
        serde_json::Value::Null,
        serde_json::Value::Bool(true),
        serde_json::Value::String(String::from("\u{e9}\n")),
    ]);
    let payload = BroadcastPayload::try_new(value.clone()).unwrap();
    assert_eq!(payload.byte_len(), value.to_string().len());
    assert_eq!(payload.to_json(), value);
}

#[test]
fn payloads_over_the_limit_are_refused() {
    let fits = serde_json::Value::String("x".repeat(MAX_BROADCAST_PAYLOAD_BYTES - 2));
    assert_eq!(
        BroadcastPayload::try_new(fits).unwrap().byte_len(),
        MAX_BROADCAST_PAYLOAD_BYTES
    );
    let large = serde_json::Value::String("x".repeat(MAX_BROADCAST_PAYLOAD_BYTES - 1));
    assert_eq!(
        BroadcastPayload::try_new(large).err(),
        Some(BroadcastPayloadError::TooLarge {
            actual: MAX_BROADCAST_PAYLOAD_BYTES + 1,
            limit: 16 * 1024
        })
    );
    assert_eq!(
        BroadcastPayload::measured(serde_json::Value::Null, None).err(),
        Some(BroadcastPayloadError::JsonSerialization)
    );
}

#[test]
fn messages_are_charged_by_their_kind() {
    let broadcast = RoomEventMessage::Broadcast {
        sender_id: UserId::Integer(1),
        message: BroadcastPayload::try_new(serde_json::Value::Null).unwrap(),
    };
    assert_eq!(broadcast.queued_bytes(), 4 + BROADCAST_QUEUE_OVERHEAD_BYTES);
    let mut infos = OrdMap::new();
    infos.insert(UserId::Integer(1), UserInfo::default());
    infos.insert(UserId::Integer(2), UserInfo::default());
    assert_eq!(
        RoomEventMessage::UserInfoChanged(infos).queued_bytes(),
        2 * ROOM_EVENT_QUEUE_BYTES
    );
    let recording = RoomEventMessage::RecordingStateChanged(RecordingStateUpdate {
        state: RecordingState { recording: Some(true) },
    });
    assert_eq!(recording.queued_bytes(), ROOM_EVENT_QUEUE_BYTES);
    assert_eq!(close().queued_bytes(), ROOM_EVENT_QUEUE_BYTES);
    assert_eq!(
        snapshot(1, &["m0"], false).snapshot.queued_bytes(),
        ROOM_EVENT_QUEUE_BYTES + TRACK_PROJECTION_QUEUE_OVERHEAD_BYTES + 2 + 3 + 6
    );
}

#[test]
fn limits_are_at_least_one() {
    let limits = UserOutboundQueueLimits::new(0, 0);
    assert_eq!((limits.message_capacity(), limits.byte_capacity()), (1, 1));
    let limits = UserOutboundQueueLimits::default();
    assert_eq!(limits.message_capacity(), DEFAULT_USER_OUTBOUND_QUEUE_CAPACITY);
    assert_eq!(limits.byte_capacity(), DEFAULT_USER_OUTBOUND_QUEUE_BYTE_CAPACITY);
}

#[test]
fn queued_bytes_follow_the_queue() {
    let mut ledger = OutboundLedger::new(UserOutboundQueueLimits::new(4, 4 * 1024));
    let mut queue: Vec<QueuedUserOutbound> = Vec::new();
    for _ in 0..2 {
        assert!(ledger
            .enqueue(close(), |message| {
                queue.push(message);
                QueueOutcome::Accepted
            })
            .is_ok());
    }
    assert_eq!(ledger.queued_bytes(), 2 * ROOM_EVENT_QUEUE_BYTES);
    let first = queue.remove(0);
    assert!(matches!(ledger.record_received(first), UserOutbound::Close(_)));
    assert_eq!(ledger.queued_bytes(), ROOM_EVENT_QUEUE_BYTES);
    assert_eq!(ledger.drain(&queue), 1);
    assert_eq!(ledger.queued_bytes(), 0);
    assert!(!ledger.has_overflowed());
}

#[test]
fn a_message_over_the_byte_limit_overflows() {
    let mut ledger = OutboundLedger::new(UserOutboundQueueLimits::new(4, 1_500));
    assert!(ledger.enqueue(close(), |_| QueueOutcome::Accepted).is_ok());
    let mut offered = false;
    let refusal = ledger.enqueue(close(), |_| {
        offered = true;
        QueueOutcome::Accepted
    });
    assert!(!offered);
    let Err(UserOutboundSendError::Full(overflow)) = refusal else {
        panic!("the byte limit should refuse the message");
    };
    assert_eq!(overflow.kind(), UserOutboundOverflowKind::QueuedBytes);
    assert_eq!(overflow.capacity(), 4);
    assert_eq!(overflow.byte_capacity(), 1_500);
    assert_eq!(overflow.queued_bytes(), 1_024);
    assert_eq!(overflow.message_bytes(), 1_024);
    assert_eq!(ledger.overflow(), Some(overflow));
    let mut taken = false;
    let event = ledger.recv_event(|| {
        taken = true;
        Err(UserOutboundTryRecvError::Empty)
    });
    assert!(matches!(event, Some(UserOutboundEvent::Overflow(last)) if last == overflow));
    assert!(!taken, "an overflow leaves queued output where it is");
}

#[test]
fn a_full_or_closed_queue_takes_no_bytes() {
    let mut ledger = OutboundLedger::new(UserOutboundQueueLimits::new(1, 1_000_000));
    let Err(UserOutboundSendError::Full(overflow)) = ledger.enqueue(close(), |_| QueueOutcome::Full)
    else {
        panic!("a full queue should overflow");
    };
    assert_eq!(overflow.kind(), UserOutboundOverflowKind::MessageCount);
    assert_eq!(ledger.queued_bytes(), 0);

    let mut ledger = OutboundLedger::new(UserOutboundQueueLimits::new(1, 1_000_000));
    assert!(matches!(
        ledger.enqueue(close(), |_| QueueOutcome::Closed),
        Err(UserOutboundSendError::Closed)
    ));
    assert_eq!(ledger.queued_bytes(), 0);
    assert!(!ledger.has_overflowed());
    assert!(ledger.recv_event(|| Err(UserOutboundTryRecvError::Empty)).is_none());
    assert!(matches!(
        ledger.recv_event(|| Err(UserOutboundTryRecvError::Disconnected)),
        Some(UserOutboundEvent::Closed)
    ));
}

#[test]
fn an_older_track_snapshot_is_not_sent() {
    let mut ledger = OutboundLedger::new(UserOutboundQueueLimits::default());
    let mut sent: Vec<RemoteTrackSnapshot> = Vec::new();
    for update in [
        snapshot(2, &["m0"], false),
        snapshot(1, &[], false),
        snapshot(3, &["m0", "m1"], false),
    ] {
        assert!(ledger
            .send_remote_tracks(update, false, |message| {
                if let UserOutbound::RemoteTracks(tracks) = message.outbound {
                    sent.push(tracks);
                }
                QueueOutcome::Accepted
            })
            .is_ok());
    }
    let lengths: Vec<usize> = sent.iter().map(|tracks| tracks.tracks.len()).collect();
    assert_eq!(lengths, vec![1, 2]);
}

#[test]
fn a_late_negotiation_goes_out_with_the_latest_tracks() {
    let mut ledger = OutboundLedger::new(UserOutboundQueueLimits::default());
    let mut sent: Vec<RemoteTrackSnapshot> = Vec::new();
    for update in [snapshot(2, &["m0"], false), snapshot(1, &[], true)] {
        assert!(ledger
            .send_remote_tracks(update, false, |message| {
                if let UserOutbound::RemoteTracks(tracks) = message.outbound {
                    sent.push(tracks);
                }
                QueueOutcome::Accepted
            })
            .is_ok());
    }
    assert_eq!(sent.len(), 2);
    assert!(sent[1].requires_negotiation);
    assert_eq!(sent[1].tracks, vec![track("m0")]);
    assert!(matches!(
        ledger.send_remote_tracks(snapshot(9, &[], false), true, |_| QueueOutcome::Accepted),
        Err(UserOutboundSendError::Closed)
    ));
}

#[test]
fn fanouts_keep_their_recipients() {
    let fanout = fanout_all(
        vec![OutboundLane(4), OutboundLane(2)],
        RoomEventMessage::UserDeparted { user_id: UserId::Integer(1) },
    );
    assert_eq!(fanout.recipients, vec![OutboundLane(4), OutboundLane(2)]);
}

/// A queue of a room and its session.
struct Queue {
    ledger: OutboundLedger,
    messages: Vec<QueuedUserOutbound>,
    capacity: usize,
    connected: bool,
}

impl Queue {
    fn new(capacity: usize, bytes: usize) -> Self {
        Queue {
            ledger: OutboundLedger::new(UserOutboundQueueLimits::new(capacity, bytes)),
            messages: Vec::new(),
            capacity,
            connected: true,
        }
    }

    fn send(&mut self, user: i64) -> Result<(), UserOutboundSendError> {
        let (messages, capacity) = (&mut self.messages, self.capacity);
        let outbound = UserOutbound::Message(RoomEventMessage::UserDeparted {
            user_id: UserId::Integer(user),
        });
        self.ledger.enqueue(outbound, |message| {
            if messages.len() == capacity {
                return QueueOutcome::Full;
            }
            messages.push(message);
            QueueOutcome::Accepted
        })
    }

    fn take(
        messages: &mut Vec<QueuedUserOutbound>,
        connected: bool,
    ) -> Result<QueuedUserOutbound, UserOutboundTryRecvError> {
        if !messages.is_empty() {
            Ok(messages.remove(0))
        } else if connected {
            Err(UserOutboundTryRecvError::Empty)
        } else {
            Err(UserOutboundTryRecvError::Disconnected)
        }
    }

    fn try_recv(&mut self) -> Result<i64, UserOutboundTryRecvError> {
        let taken = Self::take(&mut self.messages, self.connected);
        self.ledger.try_recv(taken).map(user_of)
    }

    fn recv_event(&mut self) -> Option<UserOutboundEvent> {
        let (messages, connected) = (&mut self.messages, self.connected);
        self.ledger.recv_event(|| Self::take(messages, connected))
    }
}

fn user_of(outbound: UserOutbound) -> i64 {
    match outbound {
        UserOutbound::Message(RoomEventMessage::UserDeparted {
            user_id: UserId::Integer(user),
        }) => user,
        _ => panic!("only departures are sent here"),
    }
}

#[test]
fn accepted_output_comes_out_in_its_order() {
    let mut queue = Queue::new(2, 1_000_000);
    assert!(queue.send(1).is_ok());
    assert!(queue.send(2).is_ok());
    assert!(matches!(queue.send(3), Err(UserOutboundSendError::Full(_))));
    assert_eq!(queue.try_recv(), Ok(1));
    assert!(queue.send(4).is_ok());
    assert_eq!(queue.try_recv(), Ok(2));
    assert_eq!(queue.try_recv(), Ok(4));
    assert_eq!(queue.ledger.queued_bytes(), 0);
    assert_eq!(queue.try_recv(), Err(UserOutboundTryRecvError::Empty));
    queue.connected = false;
    assert_eq!(queue.try_recv(), Err(UserOutboundTryRecvError::Disconnected));
    assert!(queue.ledger.has_overflowed(), "receiving does not clear an overflow");
}

#[test]
fn an_overflow_is_reported_again_and_again() {
    let mut queue = Queue::new(1, 1_000_000);
    assert!(queue.recv_event().is_none());
    assert!(queue.send(1).is_ok());
    let Err(UserOutboundSendError::Full(first)) = queue.send(2) else {
        panic!("a full queue should overflow");
    };
    assert_eq!(first.queued_bytes(), queue.ledger.queued_bytes());
    assert_eq!(first.kind(), UserOutboundOverflowKind::MessageCount);
    assert_eq!(first.capacity(), queue.messages.len());
    assert!(first.queued_bytes() <= first.byte_capacity());
    for _ in 0..2 {
        assert!(matches!(
            queue.recv_event(),
            Some(UserOutboundEvent::Overflow(overflow)) if overflow == first
        ));
        assert_eq!(queue.messages.len(), 1);
    }
    assert_eq!(queue.try_recv(), Ok(1));
    assert!(queue.send(3).is_ok());
    let Err(UserOutboundSendError::Full(last)) = queue.send(4) else {
        panic!("a full queue should overflow");
    };
    assert!(matches!(
        queue.recv_event(),
        Some(UserOutboundEvent::Overflow(overflow)) if overflow == last
    ));
}

#[test]
fn without_an_overflow_events_are_the_output() {
    let mut queue = Queue::new(4, 1_000_000);
    assert!(queue.send(7).is_ok());
    match queue.recv_event() {
        Some(UserOutboundEvent::Message(outbound)) => assert_eq!(user_of(outbound), 7),
        _ => panic!("the queued output should come out"),
    }
    assert_eq!(queue.ledger.queued_bytes(), 0);
    queue.connected = false;
    assert!(matches!(queue.recv_event(), Some(UserOutboundEvent::Closed)));
}

#[test]
fn bytes_are_reported_when_both_limits_are_exhausted() {
    let mut queue = Queue::new(1, ROOM_EVENT_QUEUE_BYTES);
    assert!(queue.send(1).is_ok());
    let Err(UserOutboundSendError::Full(overflow)) = queue.send(2) else {
        panic!("a full queue should overflow");
    };
    assert_eq!(overflow.kind(), UserOutboundOverflowKind::QueuedBytes);
    assert!(overflow.queued_bytes() + overflow.message_bytes() > overflow.byte_capacity());
}
