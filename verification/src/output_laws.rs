//! What may be sent to a user, what it is charged, and which tracks it gets.

use vstd::prelude::*;

use crate::ids::UserId;
use crate::outbound::{
    sends_tracks, text_bytes, tracks_charge, BroadcastPayload, BroadcastPayloadError, Ledger,
    QueueOutcome, QueuedUserOutbound, RemoteTrackProjection, RemoteTrackSnapshot, RoomEventMessage,
    UserOutbound, UserOutboundOverflow, UserOutboundSendError, VersionedRemoteTrackSnapshot,
};

verus! {

/// A message of up to sixteen kilobytes is accepted, and one of more is refused with its
/// length and the limit; one that cannot be measured is refused too. Whatever is accepted
/// is carried unchanged.
pub proof fn messages_have_a_limit(
    message: serde_json::Value,
    measured: Option<usize>,
    r: Result<BroadcastPayload, BroadcastPayloadError>,
)
    requires
        BroadcastPayload::admits(message, measured, r),
    ensures
        r is Ok <==> measured is Some && measured->0 <= 16 * 1024,
        r matches Ok(payload) ==> payload.document() == message && Some(payload.bytes())
            == measured,
        r == Err::<BroadcastPayload, _>(BroadcastPayloadError::JsonSerialization) <==> measured
            is None,
        r matches Err(BroadcastPayloadError::TooLarge { actual, limit }) ==> Some(actual)
            == measured && limit == 16 * 1024 && actual > limit,
{
}

/// Whatever may be accepted can be queued on its own: a message at the limit is charged its
/// length and a fixed amount on top.
pub proof fn messages_are_charged_their_length(
    sender_id: UserId,
    message: BroadcastPayload,
    larger: BroadcastPayload,
)
    requires
        message.bytes() <= larger.bytes() <= 16 * 1024,
    ensures
        ({
            let charge = UserOutbound::Message(
                RoomEventMessage::Broadcast { sender_id, message },
            ).charge();
            let more = UserOutbound::Message(
                RoomEventMessage::Broadcast { sender_id, message: larger },
            ).charge();
            &&& charge > message.bytes()
            &&& more - charge == larger.bytes() - message.bytes()
        }),
{
}

/// Presence is charged by the user: nothing is free that says something.
pub proof fn presence_is_charged_by_the_user(
    snapshot: crate::ord_map::OrdMap<UserId, crate::source_model::UserInfo>,
    larger: crate::ord_map::OrdMap<UserId, crate::source_model::UserInfo>,
)
    requires
        snapshot.ids().len() == larger.ids().len() - 1,
        larger.ids().len() <= 1024,
    ensures
        ({
            let charge = UserOutbound::Message(
                RoomEventMessage::UserInfoChanged(snapshot),
            ).charge();
            let more = UserOutbound::Message(RoomEventMessage::UserInfoChanged(larger)).charge();
            more - charge >= 1024
        }),
{
}

/// One more track is charged for its texts and for itself.
pub proof fn tracks_are_charged_by_the_track(
    tracks: Seq<RemoteTrackProjection>,
    track: RemoteTrackProjection,
)
    ensures
        tracks_charge(tracks.push(track)) >= tracks_charge(tracks) + text_bytes(
            track.consumer_mid@,
        ) + text_bytes(track.stream_id.0@) + 1,
        track.user_id matches UserId::String(name) ==> tracks_charge(tracks.push(track))
            >= tracks_charge(tracks) + text_bytes(track.consumer_mid@) + text_bytes(
            track.stream_id.0@,
        ) + text_bytes(name@) + 1,
{
    assert(tracks.push(track).drop_last() =~= tracks);
}

/// A receiver is never taken back to older tracks: what was sent last is replaced only by
/// something newer.
pub proof fn tracks_never_go_back<F: FnOnce(QueuedUserOutbound) -> QueueOutcome>(
    offer: F,
    before: Ledger,
    latest: VersionedRemoteTrackSnapshot,
    snapshot: VersionedRemoteTrackSnapshot,
    closed: bool,
    after: Ledger,
    latest_after: Option<VersionedRemoteTrackSnapshot>,
    r: Result<(), UserOutboundSendError>,
)
    requires
        sends_tracks(offer, before, Some(latest), snapshot, closed, after, latest_after, r),
    ensures
        latest_after matches Some(now) && {
            &&& now.revision >= latest.revision
            &&& now.revision > latest.revision ==> now == snapshot && r is Ok
            &&& now.revision == latest.revision ==> now.snapshot.tracks == latest.snapshot.tracks
            &&& snapshot.revision > latest.revision && r is Ok ==> now == snapshot
        },
{
}

/// What is new is sent, and what was sent is not sent again: the same snapshot, or an older
/// one that asks for no negotiation, leaves the queue as it is.
pub proof fn tracks_are_sent_once<F: FnOnce(QueuedUserOutbound) -> QueueOutcome>(
    offer: F,
    before: Ledger,
    latest: Option<VersionedRemoteTrackSnapshot>,
    snapshot: VersionedRemoteTrackSnapshot,
    middle: Ledger,
    sent: Option<VersionedRemoteTrackSnapshot>,
    older: VersionedRemoteTrackSnapshot,
    after: Ledger,
    latest_after: Option<VersionedRemoteTrackSnapshot>,
    r: Result<(), UserOutboundSendError>,
)
    requires
        sends_tracks(offer, before, latest, snapshot, false, middle, sent, Ok(())),
        latest is None || latest->0.revision < snapshot.revision,
        older.revision <= snapshot.revision,
        older.revision == snapshot.revision || !older.snapshot.requires_negotiation,
        sends_tracks(offer, middle, sent, older, false, after, latest_after, r),
    ensures
        middle.queued == before.queued + snapshot.snapshot.charge(),
        sent == Some(snapshot),
        r is Ok,
        after == middle,
        latest_after == sent,
{
}

/// A negotiation that was asked for is not lost to a newer snapshot: the newer tracks are
/// offered for negotiation.
pub proof fn negotiations_are_not_lost<F: FnOnce(QueuedUserOutbound) -> QueueOutcome>(
    offer: F,
    before: Ledger,
    latest: VersionedRemoteTrackSnapshot,
    snapshot: VersionedRemoteTrackSnapshot,
    after: Ledger,
    latest_after: Option<VersionedRemoteTrackSnapshot>,
    r: Result<(), UserOutboundSendError>,
)
    requires
        snapshot.revision < latest.revision,
        snapshot.snapshot.requires_negotiation,
        sends_tracks(offer, before, Some(latest), snapshot, false, after, latest_after, r),
    ensures
        latest_after matches Some(now) && now.snapshot.requires_negotiation && now.revision
            == latest.revision && now.snapshot.tracks == latest.snapshot.tracks,
        r is Ok ==> after.queued > before.queued,
{
}

/// A closed lane takes no tracks.
pub proof fn closed_lanes_take_no_tracks<F: FnOnce(QueuedUserOutbound) -> QueueOutcome>(
    offer: F,
    before: Ledger,
    latest: Option<VersionedRemoteTrackSnapshot>,
    snapshot: VersionedRemoteTrackSnapshot,
    after: Ledger,
    latest_after: Option<VersionedRemoteTrackSnapshot>,
    r: Result<(), UserOutboundSendError>,
)
    requires
        sends_tracks(offer, before, latest, snapshot, true, after, latest_after, r),
    ensures
        r matches Err(UserOutboundSendError::Closed),
        after == before,
        latest_after == latest,
{
}

/// What is offered to a receiver are the tracks that were meant, with their negotiation
/// where they need one; a newer snapshot as it is, and the latest one where an older one
/// asked for a negotiation.
pub proof fn the_tracks_that_were_meant_are_offered<
    F: FnOnce(QueuedUserOutbound) -> QueueOutcome,
>(
    offer: F,
    before: Ledger,
    latest: Option<VersionedRemoteTrackSnapshot>,
    snapshot: VersionedRemoteTrackSnapshot,
    after: Ledger,
    latest_after: Option<VersionedRemoteTrackSnapshot>,
)
    requires
        sends_tracks(offer, before, latest, snapshot, false, after, latest_after, Ok(())),
    ensures
        latest is None || latest->0.revision < snapshot.revision ==> exists|
            sent: RemoteTrackSnapshot,
        |
            #![trigger sent.charge()]
            sent.tracks@ == snapshot.snapshot.tracks@ && sent.requires_negotiation
                == snapshot.snapshot.requires_negotiation && offer.ensures(
                (QueuedUserOutbound {
                    outbound: UserOutbound::RemoteTracks(sent),
                    bytes: sent.charge(),
                },),
                QueueOutcome::Accepted,
            ),
        latest is Some && snapshot.revision < latest->0.revision
            && snapshot.snapshot.requires_negotiation ==> exists|sent: RemoteTrackSnapshot|
            #![trigger sent.charge()]
            sent.tracks@ == latest->0.snapshot.tracks@ && sent.requires_negotiation
                && offer.ensures(
                (QueuedUserOutbound {
                    outbound: UserOutbound::RemoteTracks(sent),
                    bytes: sent.charge(),
                },),
                QueueOutcome::Accepted,
            ),
{
}

/// A refusal names the limits of the queue as they are.
pub proof fn refusals_name_the_limits(ledger: Ledger, overflow: UserOutboundOverflow, bytes: usize)
    requires
        ledger.reports(overflow, bytes),
    ensures
        overflow.parts().0 is QueuedBytes <==> ledger.queued + bytes > ledger.limits.bytes(),
        overflow.parts().1 == ledger.limits.messages(),
        overflow.parts().2 == ledger.limits.bytes(),
        overflow.parts().3 == ledger.queued,
        overflow.parts().4 == bytes,
{
}

} // verus!
