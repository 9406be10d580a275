//! Bounded per-user room output.
//!
//! Every queued message is charged its size against the byte capacity of its
//! queue. A message that does not fit, by count or by bytes, is refused and marks
//! the queue as overflowed. Track snapshots carry a revision: an older one is
//! suppressed, but a negotiation it asks for is carried over to the latest one.

use std::sync::Arc;
use vstd::prelude::*;
use vstd::utf8::encode_utf8;
use crate::ids::{OutboundLane, UserId, UserStreamId};
use crate::json::{clone_json, json_length, write_json};
use crate::ord_map::OrdMap;
use crate::source_model::UserInfo;

verus! {

/// Largest serialized broadcast.
pub const MAX_BROADCAST_PAYLOAD_BYTES: usize = 16 * 1024;

/// Charge of a room event of bounded size.
pub const ROOM_EVENT_QUEUE_BYTES: usize = 1024;

/// Charge of a broadcast beside its payload.
pub const BROADCAST_QUEUE_OVERHEAD_BYTES: usize = 256;

/// Charge of a track beside its texts.
pub const TRACK_PROJECTION_QUEUE_OVERHEAD_BYTES: usize = 256;

/// Messages that a queue holds by default.
pub const DEFAULT_USER_OUTBOUND_QUEUE_CAPACITY: usize = 128;

/// Bytes that a queue holds by default.
pub const DEFAULT_USER_OUTBOUND_QUEUE_BYTE_CAPACITY: usize = 128 * 16 * 1024;

/// A number, or the largest machine number where it is too large for one.
pub open spec fn capped(n: nat) -> usize {
    if n <= usize::MAX {
        n as usize
    } else {
        usize::MAX
    }
}

/// Why the runtime closes a user's connection.
#[derive(Debug, Clone, Copy, PartialEq, Eq, Structural)]
pub enum UserCloseReason {
    Replaced,
    RemovedByRuntime,
}

/// Whether a room records.
#[derive(Debug, Clone, Copy, PartialEq, Eq, Structural)]
pub struct RecordingState {
    /// Nothing where recording is not offered.
    pub recording: Option<bool>,
}

/// A change of the recording state.
#[derive(Debug, Clone, Copy, PartialEq, Eq, Structural)]
pub struct RecordingStateUpdate {
    pub state: RecordingState,
}

/// A JSON document that fits into a broadcast.
#[derive(Debug, Clone, PartialEq, Eq)]
pub struct BroadcastPayload {
    message: Arc<serde_json::Value>,
    byte_len: usize,
}

/// Why a document cannot be broadcast.
#[derive(Debug, Clone, Copy, PartialEq, Eq, Structural)]
pub enum BroadcastPayloadError {
    TooLarge { actual: usize, limit: usize },
    JsonSerialization,
}

impl BroadcastPayload {
    pub closed spec fn document(&self) -> serde_json::Value {
        *self.message
    }

    pub closed spec fn bytes(&self) -> usize {
        self.byte_len
    }

    /// A document that was measured fits, or its size says why not.
    pub open spec fn admits(
        message: serde_json::Value,
        measured: Option<usize>,
        r: Result<Self, BroadcastPayloadError>,
    ) -> bool {
        match measured {
            None => r == Err::<Self, _>(BroadcastPayloadError::JsonSerialization),
            Some(actual) => if actual > MAX_BROADCAST_PAYLOAD_BYTES {
                r == Err::<Self, _>(
                    BroadcastPayloadError::TooLarge { actual, limit: MAX_BROADCAST_PAYLOAD_BYTES },
                )
            } else {
                r matches Ok(payload) && payload.document() == message && payload.bytes() == actual
            },
        }
    }

    /// Admits a document by the length of its serialized text, or refuses it where
    /// it could not be serialized or is too long.
    pub fn measured(message: serde_json::Value, byte_len: Option<usize>) -> (r: Result<
        Self,
        BroadcastPayloadError,
    >)
        ensures
            Self::admits(message, byte_len, r),
    {
        match byte_len {
            None => Err(BroadcastPayloadError::JsonSerialization),
            Some(actual) => {
                if actual > MAX_BROADCAST_PAYLOAD_BYTES {
                    Err(
                        BroadcastPayloadError::TooLarge {
                            actual,
                            limit: MAX_BROADCAST_PAYLOAD_BYTES,
                        },
                    )
                } else {
                    Ok(BroadcastPayload { message: Arc::new(message), byte_len: actual })
                }
            },
        }
    }

    /// Measures a document by its compact JSON text and admits it if it fits.
    pub fn try_new(message: serde_json::Value) -> (r: Result<Self, BroadcastPayloadError>)
        ensures
            Self::admits(
                message,
                json_length(message),
                r,
            ),
    {
        let measured = match write_json(&message) {
            Ok(bytes) => Some(bytes.len()),
            Err(_) => None,
        };
        Self::measured(message, measured)
    }

    pub fn byte_len(&self) -> (r: usize)
        ensures
            r == self.bytes(),
    {
        self.byte_len
    }

    pub fn to_json(&self) -> (r: serde_json::Value)
        ensures
            r == self.document(),
    {
        clone_json(&self.message)
    }
}

/// What a room tells its users.
#[derive(Debug, Clone, PartialEq, Eq)]
pub enum RoomEventMessage {
    Broadcast { sender_id: UserId, message: BroadcastPayload },
    UserJoined { user_id: UserId, info: UserInfo },
    UserDeparted { user_id: UserId },
    UserInfoChanged(OrdMap<UserId, UserInfo>),
    RecordingStateChanged(RecordingStateUpdate),
}

impl RoomEventMessage {
    pub open spec fn wf(&self) -> bool {
        self matches RoomEventMessage::UserInfoChanged(snapshot) ==> snapshot.wf()
    }

    /// What the message is charged in a queue.
    pub open spec fn charge(&self) -> usize {
        match self {
            RoomEventMessage::Broadcast { message, .. } => capped(
                (message.bytes() + BROADCAST_QUEUE_OVERHEAD_BYTES) as nat,
            ),
            RoomEventMessage::UserInfoChanged(snapshot) => capped(
                (ROOM_EVENT_QUEUE_BYTES * snapshot.ids().len()) as nat,
            ),
            _ => ROOM_EVENT_QUEUE_BYTES,
        }
    }

    pub fn queued_bytes(&self) -> (r: usize)
        requires
            self.wf(),
        ensures
            r == self.charge(),
    {
        match self {
            RoomEventMessage::Broadcast { message, .. } => message.byte_len().saturating_add(
                BROADCAST_QUEUE_OVERHEAD_BYTES,
            ),
            RoomEventMessage::UserInfoChanged(snapshot) => {
                match snapshot.len().checked_mul(ROOM_EVENT_QUEUE_BYTES) {
                    Some(bytes) => bytes,
                    None => usize::MAX,
                }
            },
            _ => ROOM_EVENT_QUEUE_BYTES,
        }
    }
}

/// A remote track as its receiver sees it.
#[derive(Debug, PartialEq, Eq)]
pub struct RemoteTrackProjection {
    pub consumer_mid: String,
    pub user_id: UserId,
    pub stream_id: UserStreamId,
    pub producer_active: bool,
}

impl Clone for RemoteTrackProjection {
    fn clone(&self) -> (r: Self)
        ensures
            r == *self,
    {
        RemoteTrackProjection {
            consumer_mid: self.consumer_mid.clone(),
            user_id: self.user_id.clone(),
            stream_id: self.stream_id.clone(),
            producer_active: self.producer_active,
        }
    }
}

/// Bytes of a text, as a machine number.
pub open spec fn text_bytes(text: Seq<char>) -> usize {
    encode_utf8(text).len() as usize
}

impl RemoteTrackProjection {
    /// What the track is charged in a queue.
    pub open spec fn charge(&self) -> nat {
        (TRACK_PROJECTION_QUEUE_OVERHEAD_BYTES + text_bytes(self.consumer_mid@) + match self.user_id {
            UserId::Integer(_) => 0,
            UserId::String(value) => text_bytes(value@) as int,
        } + text_bytes(self.stream_id.0@)) as nat
    }
}

/// What all these tracks are charged.
pub open spec fn tracks_charge(tracks: Seq<RemoteTrackProjection>) -> nat
    decreases tracks.len(),
{
    if tracks.len() == 0 {
        0
    } else {
        tracks_charge(tracks.drop_last()) + tracks.last().charge()
    }
}

/// All remote tracks of one receiver.
#[derive(Debug, PartialEq, Eq)]
pub struct RemoteTrackSnapshot {
    pub tracks: Vec<RemoteTrackProjection>,
    pub requires_negotiation: bool,
}

impl Clone for RemoteTrackSnapshot {
    fn clone(&self) -> (r: Self)
        ensures
            r.same_as(*self),
    {
        let mut tracks: Vec<RemoteTrackProjection> = Vec::new();
        let mut i: usize = 0;
        while i < self.tracks.len()
            invariant
                i <= self.tracks@.len(),
                tracks@ == self.tracks@.take(i as int),
            decreases self.tracks@.len() - i,
        {
            tracks.push(self.tracks[i].clone());
            proof {
                assert(tracks@ =~= self.tracks@.take(i + 1));
            }
            i = i + 1;
        }
        proof {
            assert(self.tracks@.take(i as int) =~= self.tracks@);
        }
        RemoteTrackSnapshot { tracks, requires_negotiation: self.requires_negotiation }
    }
}

impl RemoteTrackSnapshot {
    /// The same tracks, and the same need to negotiate.
    pub open spec fn same_as(self, other: Self) -> bool {
        self.tracks@ == other.tracks@ && self.requires_negotiation == other.requires_negotiation
    }

    pub open spec fn charge(&self) -> usize {
        capped((ROOM_EVENT_QUEUE_BYTES + tracks_charge(self.tracks@)) as nat)
    }

    pub fn queued_bytes(&self) -> (r: usize)
        ensures
            r == self.charge(),
    {
        let mut bytes: usize = ROOM_EVENT_QUEUE_BYTES;
        let mut i: usize = 0;
        while i < self.tracks.len()
            invariant
                i <= self.tracks@.len(),
                bytes == capped(
                    (ROOM_EVENT_QUEUE_BYTES + tracks_charge(self.tracks@.take(i as int))) as nat,
                ),
            decreases self.tracks@.len() - i,
        {
            let track = &self.tracks[i];
            let user_bytes: usize = match &track.user_id {
                UserId::Integer(_) => 0,
                UserId::String(value) => value.as_str().len(),
            };
            proof {
                assert(self.tracks@.take(i + 1).drop_last() =~= self.tracks@.take(i as int));
                assert(self.tracks@.take(i + 1).last() == *track);
            }
            bytes = bytes.saturating_add(TRACK_PROJECTION_QUEUE_OVERHEAD_BYTES).saturating_add(
                track.consumer_mid.as_str().len(),
            ).saturating_add(user_bytes).saturating_add(track.stream_id.as_str().len());
            i = i + 1;
        }
        proof {
            assert(self.tracks@.take(i as int) =~= self.tracks@);
        }
        bytes
    }
}

/// A track snapshot and its place in the order of snapshots.
#[derive(Debug, Clone)]
pub struct VersionedRemoteTrackSnapshot {
    pub snapshot: RemoteTrackSnapshot,
    pub revision: u64,
}

/// Room output that belongs to one connected user.
#[derive(Debug, Clone)]
pub enum UserOutbound {
    Message(RoomEventMessage),
    RemoteTracks(RemoteTrackSnapshot),
    Close(UserCloseReason),
}

impl UserOutbound {
    pub open spec fn wf(&self) -> bool {
        self matches UserOutbound::Message(message) ==> message.wf()
    }

    pub open spec fn charge(&self) -> usize {
        match self {
            UserOutbound::Message(message) => message.charge(),
            UserOutbound::RemoteTracks(snapshot) => snapshot.charge(),
            UserOutbound::Close(_) => ROOM_EVENT_QUEUE_BYTES,
        }
    }

    pub fn queued_bytes(&self) -> (r: usize)
        requires
            self.wf(),
        ensures
            r == self.charge(),
    {
        match self {
            UserOutbound::Message(message) => message.queued_bytes(),
            UserOutbound::RemoteTracks(snapshot) => snapshot.queued_bytes(),
            UserOutbound::Close(_) => ROOM_EVENT_QUEUE_BYTES,
        }
    }
}

/// The limit that refused a message.
#[derive(Debug, Clone, Copy, PartialEq, Eq, Structural)]
pub enum UserOutboundOverflowKind {
    MessageCount,
    QueuedBytes,
}

/// State of a queue when it could not take a message.
#[derive(Debug, Clone, Copy, PartialEq, Eq, Structural)]
pub struct UserOutboundOverflow {
    pub(crate) kind: UserOutboundOverflowKind,
    pub(crate) message_capacity: usize,
    pub(crate) byte_capacity: usize,
    pub(crate) queued_bytes: usize,
    pub(crate) message_bytes: usize,
}

impl UserOutboundOverflow {
    pub closed spec fn of(
        kind: UserOutboundOverflowKind,
        limits: UserOutboundQueueLimits,
        queued_bytes: usize,
        message_bytes: usize,
    ) -> Self {
        UserOutboundOverflow {
            kind,
            message_capacity: limits.message_capacity,
            byte_capacity: limits.byte_capacity,
            queued_bytes,
            message_bytes,
        }
    }

    pub closed spec fn parts(self) -> (UserOutboundOverflowKind, usize, usize, usize, usize) {
        (
            self.kind,
            self.message_capacity,
            self.byte_capacity,
            self.queued_bytes,
            self.message_bytes,
        )
    }

    /// What an overflow of these limits says.
    pub proof fn lemma_parts(
        kind: UserOutboundOverflowKind,
        limits: UserOutboundQueueLimits,
        queued_bytes: usize,
        message_bytes: usize,
    )
        ensures
            Self::of(kind, limits, queued_bytes, message_bytes).parts() == (
                kind,
                limits.messages(),
                limits.bytes(),
                queued_bytes,
                message_bytes,
            ),
    {
    }

    fn new(
        kind: UserOutboundOverflowKind,
        limits: UserOutboundQueueLimits,
        queued_bytes: usize,
        message_bytes: usize,
    ) -> (r: Self)
        ensures
            r == Self::of(kind, limits, queued_bytes, message_bytes),
    {
        UserOutboundOverflow {
            kind,
            message_capacity: limits.message_capacity,
            byte_capacity: limits.byte_capacity,
            queued_bytes,
            message_bytes,
        }
    }

    pub fn kind(self) -> (r: UserOutboundOverflowKind)
        ensures
            r == self.parts().0,
    {
        self.kind
    }

    pub fn capacity(self) -> (r: usize)
        ensures
            r == self.parts().1,
    {
        self.message_capacity
    }

    pub fn byte_capacity(self) -> (r: usize)
        ensures
            r == self.parts().2,
    {
        self.byte_capacity
    }

    pub fn queued_bytes(self) -> (r: usize)
        ensures
            r == self.parts().3,
    {
        self.queued_bytes
    }

    pub fn message_bytes(self) -> (r: usize)
        ensures
            r == self.parts().4,
    {
        self.message_bytes
    }
}

/// Why a message was not queued.
#[derive(Debug, Clone, Copy, PartialEq, Eq, Structural)]
pub enum UserOutboundSendError {
    Full(UserOutboundOverflow),
    Closed,
}

/// Why a queue hands out nothing.
#[derive(Debug, Clone, Copy, PartialEq, Eq, Structural)]
pub enum UserOutboundTryRecvError {
    /// No output is queued.
    Empty,
    /// No output is queued, and none can be: every sender is gone.
    Disconnected,
}

/// What a session loop learns from its queue.
#[derive(Debug)]
pub enum UserOutboundEvent {
    Message(UserOutbound),
    Overflow(UserOutboundOverflow),
    Closed,
}

/// Message and byte capacity of one queue, each at least one.
#[derive(Debug, Clone, Copy, PartialEq, Eq, Structural)]
pub struct UserOutboundQueueLimits {
    message_capacity: usize,
    byte_capacity: usize,
}

impl UserOutboundQueueLimits {
    pub closed spec fn messages(self) -> usize {
        self.message_capacity
    }

    pub closed spec fn bytes(self) -> usize {
        self.byte_capacity
    }

    pub fn new(message_capacity: usize, byte_capacity: usize) -> (r: Self)
        ensures
            r.messages() == if message_capacity == 0 {
                1
            } else {
                message_capacity
            },
            r.bytes() == if byte_capacity == 0 {
                1
            } else {
                byte_capacity
            },
    {
        UserOutboundQueueLimits {
            message_capacity: if message_capacity == 0 {
                1
            } else {
                message_capacity
            },
            byte_capacity: if byte_capacity == 0 {
                1
            } else {
                byte_capacity
            },
        }
    }

    pub fn message_capacity(self) -> (r: usize)
        ensures
            r == self.messages(),
    {
        self.message_capacity
    }

    pub fn byte_capacity(self) -> (r: usize)
        ensures
            r == self.bytes(),
    {
        self.byte_capacity
    }
}

impl Default for UserOutboundQueueLimits {
    fn default() -> (r: Self)
        ensures
            r.messages() == DEFAULT_USER_OUTBOUND_QUEUE_CAPACITY,
            r.bytes() == DEFAULT_USER_OUTBOUND_QUEUE_BYTE_CAPACITY,
    {
        UserOutboundQueueLimits::new(
            DEFAULT_USER_OUTBOUND_QUEUE_CAPACITY,
            DEFAULT_USER_OUTBOUND_QUEUE_BYTE_CAPACITY,
        )
    }
}

/// A message in a queue and what it is charged.
#[derive(Debug)]
pub struct QueuedUserOutbound {
    pub outbound: UserOutbound,
    pub bytes: usize,
}

/// What a queue did with a message offered to it.
#[derive(Debug, Clone, Copy, PartialEq, Eq, Structural)]
pub enum QueueOutcome {
    Accepted,
    Full,
    Closed,
}

/// Byte accounting, overflow mark and latest track snapshot of one queue.
#[derive(Debug)]
pub struct OutboundLedger {
    limits: UserOutboundQueueLimits,
    queued_bytes: usize,
    overflow: Option<UserOutboundOverflow>,
    latest: Option<VersionedRemoteTrackSnapshot>,
}

/// A ledger as mathematics.
#[verifier::ext_equal]
pub struct Ledger {
    pub limits: UserOutboundQueueLimits,
    /// Bytes charged to the messages in the queue.
    pub queued: usize,
    /// The last refusal.
    pub overflow: Option<UserOutboundOverflow>,
}

/// The event of a session loop whose queue handed out this; there is none while it waits.
pub open spec fn event_of(taken: Result<QueuedUserOutbound, UserOutboundTryRecvError>) -> Option<
    UserOutboundEvent,
> {
    match taken {
        Ok(message) => Some(UserOutboundEvent::Message(message.outbound)),
        Err(UserOutboundTryRecvError::Empty) => None,
        Err(UserOutboundTryRecvError::Disconnected) => Some(UserOutboundEvent::Closed),
    }
}

impl Ledger {
    /// No more is charged than the queue may hold, and a marked overflow is one of this
    /// queue within its capacity.
    pub open spec fn valid(self) -> bool {
        &&& self.queued <= self.limits.bytes()
        &&& self.overflow matches Some(overflow) ==> {
            &&& overflow.parts().1 == self.limits.messages()
            &&& overflow.parts().2 == self.limits.bytes()
            &&& overflow.parts().3 <= overflow.parts().2
        }
    }

    /// The overflow tells of a message of this charge that this ledger refused: the limit
    /// that refused it, the limits of the queue, and what was queued without the message.
    pub open spec fn reports(self, overflow: UserOutboundOverflow, bytes: usize) -> bool {
        &&& overflow.parts().0 == if self.fits(bytes) {
            UserOutboundOverflowKind::MessageCount
        } else {
            UserOutboundOverflowKind::QueuedBytes
        }
        &&& overflow.parts().1 == self.limits.messages()
        &&& overflow.parts().2 == self.limits.bytes()
        &&& overflow.parts().3 == self.queued
        &&& overflow.parts().4 == bytes
    }

    /// The ledger after a message of this charge left the queue.
    pub open spec fn received(self, bytes: usize) -> Self {
        Ledger { queued: (self.queued - bytes) as usize, ..self }
    }

    /// The ledger after the queue handed out this.
    pub open spec fn after_taking(
        self,
        taken: Result<QueuedUserOutbound, UserOutboundTryRecvError>,
    ) -> Self {
        match taken {
            Ok(message) => self.received(message.bytes),
            Err(_) => self,
        }
    }

    pub open spec fn fits(self, bytes: usize) -> bool {
        self.queued + bytes <= self.limits.bytes()
    }

    pub open spec fn overflowed(self, kind: UserOutboundOverflowKind, bytes: usize) -> Self {
        Ledger {
            overflow: Some(UserOutboundOverflow::of(kind, self.limits, self.queued, bytes)),
            ..self
        }
    }

    pub open spec fn charged(self, bytes: usize) -> Self {
        Ledger { queued: (self.queued + bytes) as usize, ..self }
    }

    /// The ledger after a message that fits was offered to the queue.
    pub open spec fn settled(self, bytes: usize, outcome: QueueOutcome) -> Self {
        match outcome {
            QueueOutcome::Accepted => self.charged(bytes),
            QueueOutcome::Full => self.overflowed(UserOutboundOverflowKind::MessageCount, bytes),
            QueueOutcome::Closed => self,
        }
    }

    pub open spec fn answer(self, bytes: usize, outcome: QueueOutcome) -> Result<
        (),
        UserOutboundSendError,
    > {
        match outcome {
            QueueOutcome::Accepted => Ok(()),
            QueueOutcome::Full => Err(
                UserOutboundSendError::Full(
                    UserOutboundOverflow::of(
                        UserOutboundOverflowKind::MessageCount,
                        self.limits,
                        self.queued,
                        bytes,
                    ),
                ),
            ),
            QueueOutcome::Closed => Err(UserOutboundSendError::Closed),
        }
    }

    /// The refusal of a message that does not fit.
    pub open spec fn refusal(self, bytes: usize) -> Result<(), UserOutboundSendError> {
        Err(
            UserOutboundSendError::Full(
                UserOutboundOverflow::of(
                    UserOutboundOverflowKind::QueuedBytes,
                    self.limits,
                    self.queued,
                    bytes,
                ),
            ),
        )
    }

    /// What sending a message of this charge does, by the outcome of the offer.
    pub open spec fn sends(
        self,
        bytes: usize,
        outcome: QueueOutcome,
        after: Ledger,
        r: Result<(), UserOutboundSendError>,
    ) -> bool {
        if self.fits(bytes) {
            after == self.settled(bytes, outcome) && r == self.answer(bytes, outcome)
        } else {
            after == self.overflowed(UserOutboundOverflowKind::QueuedBytes, bytes) && r
                == self.refusal(bytes)
        }
    }
}

/// What a track snapshot becomes, given the latest one.
pub enum TrackTurn {
    /// It is the latest: it is sent.
    Send,
    /// It is older and asks for a negotiation: the latest is sent with it.
    Renegotiate,
    /// It is old.
    Suppress,
}

pub open spec fn track_turn(
    latest: Option<VersionedRemoteTrackSnapshot>,
    snapshot: VersionedRemoteTrackSnapshot,
) -> TrackTurn {
    match latest {
        None => TrackTurn::Send,
        Some(latest) => if snapshot.revision > latest.revision {
            TrackTurn::Send
        } else if snapshot.revision < latest.revision && snapshot.snapshot.requires_negotiation {
            TrackTurn::Renegotiate
        } else {
            TrackTurn::Suppress
        },
    }
}

/// Some track snapshot with these tracks was offered, with this outcome.
pub open spec fn offered_tracks<F: FnOnce(QueuedUserOutbound) -> QueueOutcome>(
    offer: F,
    tracks: RemoteTrackSnapshot,
    outcome: QueueOutcome,
) -> bool {
    exists|sent: RemoteTrackSnapshot| #[trigger]
        sent.same_as(tracks) && offer.ensures(
            (QueuedUserOutbound {
                outbound: UserOutbound::RemoteTracks(sent),
                bytes: sent.charge(),
            },),
            outcome,
        )
}

/// How a track snapshot is sent. One that is newer than the latest one is sent, and is the
/// latest one once it was accepted. An older one that has to be negotiated has the latest
/// one sent again, to be negotiated. Any other one is not sent.
pub open spec fn sends_tracks<F: FnOnce(QueuedUserOutbound) -> QueueOutcome>(
    offer: F,
    before: Ledger,
    latest: Option<VersionedRemoteTrackSnapshot>,
    snapshot: VersionedRemoteTrackSnapshot,
    closed: bool,
    after: Ledger,
    latest_after: Option<VersionedRemoteTrackSnapshot>,
    r: Result<(), UserOutboundSendError>,
) -> bool {
    &&& closed ==> r == Err::<(), _>(UserOutboundSendError::Closed) && after == before
        && latest_after == latest
    &&& !closed ==> match track_turn(latest, snapshot) {
        TrackTurn::Suppress => r is Ok && after == before && latest_after == latest,
        TrackTurn::Send => {
            let bytes = snapshot.snapshot.charge();
            &&& exists|outcome: QueueOutcome|
                #![trigger before.answer(bytes, outcome)]
                before.sends(bytes, outcome, after, r) && (before.fits(bytes) ==> offered_tracks(
                    offer,
                    snapshot.snapshot,
                    outcome,
                ))
            &&& latest_after == if r is Ok {
                Some(snapshot)
            } else {
                latest
            }
        },
        TrackTurn::Renegotiate => {
            let carried = RemoteTrackSnapshot {
                requires_negotiation: true,
                ..latest->0.snapshot
            };
            let bytes = carried.charge();
            &&& exists|outcome: QueueOutcome|
                #![trigger before.answer(bytes, outcome)]
                before.sends(bytes, outcome, after, r) && (before.fits(bytes) ==> offered_tracks(
                    offer,
                    carried,
                    outcome,
                ))
            &&& latest_after == Some(
                VersionedRemoteTrackSnapshot {
                    snapshot: carried,
                    revision: latest->0.revision,
                },
            )
        },
    }
}

impl OutboundLedger {
    pub closed spec fn view(&self) -> Ledger {
        Ledger { limits: self.limits, queued: self.queued_bytes, overflow: self.overflow }
    }

    /// The latest track snapshot.
    pub closed spec fn latest_tracks(&self) -> Option<VersionedRemoteTrackSnapshot> {
        self.latest
    }

    /// The books are valid.
    pub open spec fn wf(&self) -> bool {
        self@.valid()
    }

    pub fn new(limits: UserOutboundQueueLimits) -> (r: Self)
        ensures
            r.wf(),
            r@ == (Ledger { limits, queued: 0, overflow: None }),
            r.latest_tracks() is None,
    {
        OutboundLedger { limits, queued_bytes: 0, overflow: None, latest: None }
    }

    pub fn queued_bytes(&self) -> (r: usize)
        ensures
            r == self@.queued,
    {
        self.queued_bytes
    }

    pub fn overflow(&self) -> (r: Option<UserOutboundOverflow>)
        ensures
            r == self@.overflow,
    {
        self.overflow
    }

    pub fn has_overflowed(&self) -> (r: bool)
        ensures
            r == (self@.overflow is Some),
    {
        self.overflow.is_some()
    }

    fn mark_overflow(&mut self, kind: UserOutboundOverflowKind, message_bytes: usize) -> (r:
        UserOutboundOverflow)
        requires
            old(self).wf(),
        ensures
            final(self).wf(),
            final(self)@ == old(self)@.overflowed(kind, message_bytes),
            final(self).latest_tracks() == old(self).latest_tracks(),
            r == UserOutboundOverflow::of(
                kind,
                old(self)@.limits,
                old(self)@.queued,
                message_bytes,
            ),
    {
        let overflow = UserOutboundOverflow::new(
            kind,
            self.limits,
            self.queued_bytes,
            message_bytes,
        );
        self.overflow = Some(overflow);
        overflow
    }

    /// Charges a message to the queue if it fits.
    pub fn reserve_bytes(&mut self, bytes: usize) -> (r: Result<(), UserOutboundSendError>)
        requires
            old(self).wf(),
        ensures
            final(self).wf(),
            final(self).latest_tracks() == old(self).latest_tracks(),
            if old(self)@.fits(bytes) {
                r is Ok && final(self)@ == old(self)@.charged(bytes)
            } else {
                r == old(self)@.refusal(bytes) && final(self)@ == old(self)@.overflowed(
                    UserOutboundOverflowKind::QueuedBytes,
                    bytes,
                )
            },
    {
        match self.queued_bytes.checked_add(bytes) {
            Some(next) => {
                if next <= self.limits.byte_capacity {
                    self.queued_bytes = next;
                    return Ok(());
                }
            },
            None => {},
        }
        Err(
            UserOutboundSendError::Full(
                self.mark_overflow(UserOutboundOverflowKind::QueuedBytes, bytes),
            ),
        )
    }

    /// Takes back the charge of messages that left the queue.
    pub fn release_bytes(&mut self, bytes: usize)
        requires
            old(self).wf(),
            bytes <= old(self)@.queued,
        ensures
            final(self).wf(),
            final(self)@ == old(self)@.received(bytes),
            final(self).latest_tracks() == old(self).latest_tracks(),
    {
        self.queued_bytes = self.queued_bytes - bytes;
    }

    /// Charges a message and offers it to the queue. A refusal takes the charge
    /// back, and a full queue marks the overflow.
    pub fn enqueue<F: FnOnce(QueuedUserOutbound) -> QueueOutcome>(
        &mut self,
        outbound: UserOutbound,
        offer: F,
    ) -> (r: Result<(), UserOutboundSendError>)
        requires
            old(self).wf(),
            outbound.wf(),
            forall|message: QueuedUserOutbound| offer.requires((message,)),
        ensures
            final(self).wf(),
            r matches Err(UserOutboundSendError::Full(overflow)) ==> old(self)@.reports(
                overflow,
                outbound.charge(),
            ),
            final(self).latest_tracks() == old(self).latest_tracks(),
            exists|outcome: QueueOutcome|
                #![trigger old(self)@.answer(outbound.charge(), outcome)]
                old(self)@.sends(outbound.charge(), outcome, final(self)@, r) && (old(self)@.fits(
                    outbound.charge(),
                ) ==> offer.ensures(
                    (QueuedUserOutbound { outbound, bytes: outbound.charge() },),
                    outcome,
                )),
    {
        let bytes: usize = outbound.queued_bytes();
        let ghost start = self@;
        match self.reserve_bytes(bytes) {
            Err(error) => {
                proof {
                    let outcome = QueueOutcome::Closed;
                    assert(start.answer(bytes, outcome) == start.answer(bytes, outcome));
                    assert(start.sends(bytes, outcome, self@, Err(error)));
                }
                return Err(error);
            },
            Ok(()) => {},
        }
        let ghost message = QueuedUserOutbound { outbound, bytes };
        let outcome = offer(QueuedUserOutbound { outbound, bytes });
        let r = match outcome {
            QueueOutcome::Accepted => Ok(()),
            QueueOutcome::Full => {
                self.release_bytes(bytes);
                Err(
                    UserOutboundSendError::Full(
                        self.mark_overflow(UserOutboundOverflowKind::MessageCount, bytes),
                    ),
                )
            },
            QueueOutcome::Closed => {
                self.release_bytes(bytes);
                Err(UserOutboundSendError::Closed)
            },
        };
        proof {
            assert(start.answer(bytes, outcome) == r);
            assert(start.sends(bytes, outcome, self@, r));
        }
        r
    }

    /// Sends a track snapshot unless a later one was sent. A negotiation that an
    /// older snapshot asks for goes out with the latest tracks.
    pub fn send_remote_tracks<F: FnOnce(QueuedUserOutbound) -> QueueOutcome>(
        &mut self,
        snapshot: VersionedRemoteTrackSnapshot,
        closed: bool,
        offer: F,
    ) -> (r: Result<(), UserOutboundSendError>)
        requires
            old(self).wf(),
            forall|message: QueuedUserOutbound| offer.requires((message,)),
        ensures
            final(self).wf(),
            sends_tracks(
                offer,
                old(self)@,
                old(self).latest_tracks(),
                snapshot,
                closed,
                final(self)@,
                final(self).latest_tracks(),
                r,
            ),
    {
        if closed {
            return Err(UserOutboundSendError::Closed);
        }
        let newer = match &self.latest {
            None => true,
            Some(latest) => snapshot.revision > latest.revision,
        };
        if newer {
            let tracks = snapshot.snapshot.clone();
            let r = self.enqueue(UserOutbound::RemoteTracks(tracks), offer);
            proof {
                assert(tracks.charge() == snapshot.snapshot.charge());
                assert(tracks.same_as(snapshot.snapshot));
            }
            if r.is_ok() {
                self.latest = Some(snapshot);
            }
            return r;
        }
        let mut carried: Option<RemoteTrackSnapshot> = None;
        match &mut self.latest {
            None => {},
            Some(latest) => {
                if snapshot.revision < latest.revision && snapshot.snapshot.requires_negotiation {
                    latest.snapshot.requires_negotiation = true;
                    carried = Some(latest.snapshot.clone());
                }
            },
        }
        match carried {
            None => Ok(()),
            Some(tracks) => {
                proof {
                    let latest = self.latest_tracks()->0;
                    assert(tracks.same_as(latest.snapshot));
                    assert(tracks.charge() == latest.snapshot.charge());
                }
                self.enqueue(UserOutbound::RemoteTracks(tracks), offer)
            },
        }
    }

    /// Takes a message out of the accounting and hands its content on.
    pub fn record_received(&mut self, message: QueuedUserOutbound) -> (r: UserOutbound)
        requires
            old(self).wf(),
            message.bytes <= old(self)@.queued,
        ensures
            final(self).wf(),
            r == message.outbound,
            final(self)@ == old(self)@.received(message.bytes),
            final(self).latest_tracks() == old(self).latest_tracks(),
    {
        self.release_bytes(message.bytes);
        message.outbound
    }

    /// Takes all messages of a dropped queue out of the accounting. Returns their
    /// number.
    pub fn drain(&mut self, messages: &Vec<QueuedUserOutbound>) -> (r: usize)
        requires
            old(self).wf(),
            queue_charge(charges(messages@)) <= old(self)@.queued,
        ensures
            final(self).wf(),
            r == messages@.len(),
            final(self)@ == old(self)@.received(queue_charge(charges(messages@)) as usize),
            final(self).latest_tracks() == old(self).latest_tracks(),
    {
        let mut bytes: usize = 0;
        let mut i: usize = 0;
        let ghost all = charges(messages@);
        while i < messages.len()
            invariant
                i <= messages@.len(),
                all == charges(messages@),
                queue_charge(all) <= usize::MAX,
                bytes == queue_charge(all.take(i as int)),
            decreases messages@.len() - i,
        {
            proof {
                assert(all.take(i + 1).drop_last() =~= all.take(i as int));
                assert(all.take(i + 1).last() == messages@[i as int].bytes);
                lemma_charge_grows(all, i + 1);
            }
            bytes = bytes + messages[i].bytes;
            i = i + 1;
        }
        proof {
            assert(all.take(i as int) =~= all);
        }
        self.release_bytes(bytes);
        messages.len()
    }

    /// Receives what the queue handed out, without regard to overflow.
    pub fn try_recv(&mut self, taken: Result<QueuedUserOutbound, UserOutboundTryRecvError>) -> (r:
        Result<UserOutbound, UserOutboundTryRecvError>)
        requires
            old(self).wf(),
            taken matches Ok(message) ==> message.bytes <= old(self)@.queued,
        ensures
            final(self).wf(),
            final(self)@ == old(self)@.after_taking(taken),
            final(self).latest_tracks() == old(self).latest_tracks(),
            match taken {
                Ok(message) => r == Ok::<_, UserOutboundTryRecvError>(message.outbound),
                Err(error) => r == Err::<UserOutbound, _>(error),
            },
    {
        match taken {
            Ok(message) => Ok(self.record_received(message)),
            Err(error) => Err(error),
        }
    }

    /// The next event of a session loop. A marked overflow goes before queued output, and
    /// then nothing is taken from the queue; else the event is what the queue hands out,
    /// and there is none while the queue is empty.
    pub fn recv_event<F: FnOnce() -> Result<QueuedUserOutbound, UserOutboundTryRecvError>>(
        &mut self,
        take: F,
    ) -> (r: Option<UserOutboundEvent>)
        requires
            old(self).wf(),
            take.requires(()),
            forall|message: QueuedUserOutbound| #[trigger]
                take.ensures((), Ok(message)) ==> message.bytes <= old(self)@.queued,
        ensures
            final(self).wf(),
            final(self).latest_tracks() == old(self).latest_tracks(),
            match old(self)@.overflow {
                Some(overflow) => r == Some(UserOutboundEvent::Overflow(overflow)) && final(self)@
                    == old(self)@,
                None => exists|taken: Result<QueuedUserOutbound, UserOutboundTryRecvError>|
                    #![trigger take.ensures((), taken)]
                    take.ensures((), taken) && r == event_of(taken) && final(self)@ == old(
                        self,
                    )@.after_taking(taken),
            },
    {
        if let Some(overflow) = self.overflow {
            return Some(UserOutboundEvent::Overflow(overflow));
        }
        match take() {
            Ok(message) => Some(UserOutboundEvent::Message(self.record_received(message))),
            Err(UserOutboundTryRecvError::Empty) => None,
            Err(UserOutboundTryRecvError::Disconnected) => Some(UserOutboundEvent::Closed),
        }
    }
}

/// What the messages of a queue are charged, one by one.
pub open spec fn charges(messages: Seq<QueuedUserOutbound>) -> Seq<usize> {
    messages.map_values(|message: QueuedUserOutbound| message.bytes)
}

/// What a queue is charged.
pub open spec fn queue_charge(charges: Seq<usize>) -> nat
    decreases charges.len(),
{
    if charges.len() == 0 {
        0
    } else {
        queue_charge(charges.drop_last()) + charges.last() as nat
    }
}

proof fn lemma_charge_grows(charges: Seq<usize>, n: int)
    requires
        0 <= n <= charges.len(),
    ensures
        queue_charge(charges.take(n)) <= queue_charge(charges),
    decreases charges.len() - n,
{
    if n == charges.len() {
        assert(charges.take(n) =~= charges);
    } else {
        assert(charges.take(n + 1).drop_last() =~= charges.take(n));
        lemma_charge_grows(charges, n + 1);
    }
}

/// One message for several users.
#[derive(Debug, Clone)]
pub struct MessageFanout {
    pub recipients: Vec<OutboundLane>,
    pub message: RoomEventMessage,
}

pub fn fanout_all(recipients: Vec<OutboundLane>, message: RoomEventMessage) -> (r: MessageFanout)
    ensures
        r == (MessageFanout { recipients, message }),
{
    MessageFanout { recipients, message }
}

/// A ledger whose charge is that of the messages in its queue.
pub open spec fn balanced(ledger: Ledger, queue: Seq<usize>) -> bool {
    ledger.queued == queue_charge(queue)
}

/// Sending keeps the books: the ledger stays valid, is charged exactly what its queue
/// holds, and reports a refusal with the books as they were.
pub proof fn sending_keeps_the_books(
    ledger: Ledger,
    queue: Seq<usize>,
    bytes: usize,
    outcome: QueueOutcome,
    after: Ledger,
    r: Result<(), UserOutboundSendError>,
)
    requires
        balanced(ledger, queue),
        ledger.valid(),
        ledger.sends(bytes, outcome, after, r),
    ensures
        after.valid(),
        after.limits == ledger.limits,
        r matches Err(UserOutboundSendError::Full(overflow)) ==> ledger.reports(overflow, bytes),
        balanced(
            after,
            if r is Ok {
                queue.push(bytes)
            } else {
                queue
            },
        ),
{
    assert(queue.push(bytes).drop_last() =~= queue);
}

/// Receiving the oldest message keeps the books.
pub proof fn receiving_keeps_the_books(ledger: Ledger, queue: Seq<usize>)
    requires
        balanced(ledger, queue),
        queue.len() > 0,
    ensures
        queue[0] <= ledger.queued,
        balanced(ledger.received(queue[0]), queue.drop_first()),
{
    lemma_charge_splits(queue);
}

proof fn lemma_charge_splits(queue: Seq<usize>)
    requires
        queue.len() > 0,
    ensures
        queue_charge(queue) == queue[0] + queue_charge(queue.drop_first()),
    decreases queue.len(),
{
    reveal_with_fuel(queue_charge, 2);
    if queue.len() == 1 {
        assert(queue.drop_first() =~= Seq::<usize>::empty());
        assert(queue.drop_last() =~= Seq::<usize>::empty());
    } else {
        lemma_charge_splits(queue.drop_last());
        assert(queue.drop_first().drop_last() =~= queue.drop_last().drop_first());
    }
}

/// A message is refused for its bytes exactly when it would take the queue over its
/// byte capacity, and an overflow that was marked stays marked.
pub proof fn refusal_marks_overflow(
    ledger: Ledger,
    bytes: usize,
    outcome: QueueOutcome,
    after: Ledger,
    r: Result<(), UserOutboundSendError>,
)
    requires
        ledger.sends(bytes, outcome, after, r),
    ensures
        r matches Err(UserOutboundSendError::Full(overflow)) ==> after.overflow == Some(overflow),
        ledger.queued + bytes > ledger.limits.bytes() ==> r matches Err(
            UserOutboundSendError::Full(_),
        ),
        ledger.overflow is Some ==> after.overflow is Some,
{
}

} // verus!
