//! What the reports on a room say of it.

use vstd::prelude::*;

use crate::delivery_laws::committed;
use crate::diagnostics::{
    bps, capped, first_encoding, first_rid, health_of, last_activity, last_speaker, millis,
    optional_bps, publications_bps, remaining, shown_encoding, shown_selection, speaker_of,
    summarized_quality, with_health, ActiveSpeakerActivityReason, ActiveSpeakerActivityState,
    ActiveSpeakerSourceDiagnostic, DiagnosticsActiveSpeakerReason,
    DiagnosticsActiveSpeakerState, DiagnosticsIncomingBitrate, DiagnosticsPolicyPauseReason,
    DiagnosticsPublication, DiagnosticsVideoLayoutRole, DiagnosticsVideoRoutePriority,
    TransportBitrateSnapshot, TransportQualitySample, TransportRidActivity,
    TransportSessionHealth, TransportSourceActivity,
};
use crate::ids::{
    ConnectionId, MediaWorkerId, SourceEncodingId, TransportMediaId, UserIdentity, UserStreamId,
};
use crate::key_index::in_order;
use crate::ord_map::{lemma_sorted_lists, sorted};
use crate::order::OrdKey;
use crate::read_model::{
    are_stats, captures_source, captures_summary, captures_user, own_publications, published_of,
    receiver_order, routed_of, set_up_of, shown_kind, shown_layout, shown_subscription,
    stream_bps, streams, summarizes, tallied_bps, views_source, views_user, with_room,
    with_users, worker_of, CapturedSource, CapturedUser, CapturedUserSummary, DiagnosticsSource,
    DiagnosticsUserSummary, DiagnosticsUserView, RoomUserStatsSnapshot, StreamNames,
    StreamTally, Workers,
};
use crate::route_graph::{attachment, realizing_keys, receiver_keys, record, PendingUpgrade};
use crate::source_model::{
    Bitrate, ConsumerSourceSelection, MediaKind, Moment, PolicyPauseReason,
    PublishedSourceDescriptor, SourceEncodingDescriptor,
    SourceRoomPolicySelector, SourceRoutePriority, SourceSelector, VideoLayoutIntent,
};
use crate::sources::{source_order, PublishedSource, Sources};
use crate::state::State;
use crate::topology::Topology;
use crate::transport::{SessionIdentity, SubscriptionIdentity, SubscriptionKey, TransportSessionKey};

verus! {

proof fn lemma_last<T>(all: Seq<T>, value: T)
    requires
        all.len() > 0,
    ensures
        all.contains(value) <==> all.drop_last().contains(value) || value == all.last(),
{
    let fewer = all.drop_last();
    if all.contains(value) {
        let i = all.index_of(value);
        if i < fewer.len() {
            assert(fewer[i] == value);
        }
    }
    if fewer.contains(value) {
        assert(all[fewer.index_of(value)] == value);
    }
    if value == all.last() {
        assert(all[all.len() - 1] == value);
    }
}

/// What comes in of a publication is added to the tally that its stream is named for, and
/// to the total; to no other tally. What is named for none is in the total alone.
pub proof fn streams_are_tallied_by_name(
    publications: Seq<(UserStreamId, TransportMediaId)>,
    stream: UserStreamId,
    media: TransportMediaId,
    per_media: Map<u64, Bitrate>,
    names: StreamNames,
)
    requires
        names.audio@ != names.camera@,
        names.audio@ != names.screen@,
        names.camera@ != names.screen@,
    ensures
        ({
            let more = publications.push((stream, media));
            let incoming = if per_media.contains_key(media.0) {
                per_media[media.0].0 as int
            } else {
                0
            };
            let grows = |tally: Option<StreamTally>|
                tallied_bps(more, per_media, names, tally) - tallied_bps(
                    publications,
                    per_media,
                    names,
                    tally,
                );
            &&& grows(None) == incoming
            &&& grows(Some(StreamTally::Audio)) == if stream.id() == names.audio@ {
                incoming
            } else {
                0
            }
            &&& grows(Some(StreamTally::Camera)) == if stream.id() == names.camera@ {
                incoming
            } else {
                0
            }
            &&& grows(Some(StreamTally::Screen)) == if stream.id() == names.screen@ {
                incoming
            } else {
                0
            }
        }),
{
    assert(publications.push((stream, media)).drop_last() =~= publications);
}

/// The summary of a user gives what comes in of its audio, camera and screen under those
/// names, and all of it as the total, which none of them exceeds.
pub proof fn summaries_give_each_tally(
    summary: DiagnosticsUserSummary,
    room_id: Seq<char>,
    user: CapturedUserSummary,
    per_media: Map<u64, Bitrate>,
    health: Map<SessionIdentity, TransportSessionHealth>,
    names: StreamNames,
)
    requires
        summarizes(summary, room_id, user, per_media, health, names),
        tallied_bps(user.publications@, per_media, names, None) <= u64::MAX,
    ensures
        summary.audio_incoming_bitrate_bps == tallied_bps(
            user.publications@,
            per_media,
            names,
            Some(StreamTally::Audio),
        ),
        summary.camera_incoming_bitrate_bps == tallied_bps(
            user.publications@,
            per_media,
            names,
            Some(StreamTally::Camera),
        ),
        summary.screen_incoming_bitrate_bps == tallied_bps(
            user.publications@,
            per_media,
            names,
            Some(StreamTally::Screen),
        ),
        summary.incoming_bitrate_bps == tallied_bps(user.publications@, per_media, names, None),
        summary.audio_incoming_bitrate_bps + summary.camera_incoming_bitrate_bps
            + summary.screen_incoming_bitrate_bps <= summary.incoming_bitrate_bps,
        summary.health is None <==> !health.contains_key(user.session_key.id()),
        summary.health matches Some(known) ==> known == health[user.session_key.id()],
        summary.publication_count == user.publications@.len(),
        summary.subscription_count == user.subscription_count,
        summary.user_id == user.user_id,
        summary.room_id@ == room_id,
        summary.connection_id == user.session_key.connection.0,
        summary.media_worker_id == user.session_key.worker.0,
{
    lemma_tallies(user.publications@, per_media, names);
}

proof fn lemma_tallies(
    publications: Seq<(UserStreamId, TransportMediaId)>,
    per_media: Map<u64, Bitrate>,
    names: StreamNames,
)
    ensures
        tallied_bps(publications, per_media, names, Some(StreamTally::Audio)) + tallied_bps(
            publications,
            per_media,
            names,
            Some(StreamTally::Camera),
        ) + tallied_bps(publications, per_media, names, Some(StreamTally::Screen))
            <= tallied_bps(publications, per_media, names, None),
    decreases publications.len(),
{
    if publications.len() > 0 {
        lemma_tallies(publications.drop_last(), per_media, names);
    }
}

/// One more user is counted on the worker that it is placed on, and there alone: as one
/// user, with its publications and subscriptions, and as connected, as disconnected, or as
/// unknown where the transport says nothing of it. Its room is counted there once.
pub proof fn users_are_counted_on_their_worker(
    workers: Workers,
    users: Seq<CapturedUserSummary>,
    user: CapturedUserSummary,
    health: Map<SessionIdentity, TransportSessionHealth>,
    other: usize,
)
    requires
        ({
            let known = worker_of(with_users(workers, users, health), user.session_key.worker.0);
            &&& known.room_count < usize::MAX
            &&& known.user_count < usize::MAX
            &&& known.connected_user_count < usize::MAX
            &&& known.disconnected_user_count < usize::MAX
            &&& known.unknown_user_count < usize::MAX
            &&& known.publication_count + user.publications@.len() <= usize::MAX
            &&& known.subscription_count + user.subscription_count <= usize::MAX
        }),
    ensures
        ({
            let worker = user.session_key.worker.0;
            let before = with_users(workers, users, health);
            let after = with_users(workers, users.push(user), health);
            let known = worker_of(before, worker);
            let now = after[worker];
            let state = if health.contains_key(user.session_key.id()) {
                Some(health[user.session_key.id()])
            } else {
                None
            };
            let seen = exists|i: int|
                0 <= i < users.len() && (#[trigger] users[i]).session_key.worker.0 == worker;
            &&& after.contains_key(worker)
            &&& now.user_count == known.user_count + 1
            &&& now.publication_count == known.publication_count + user.publications@.len()
            &&& now.subscription_count == known.subscription_count + user.subscription_count
            &&& now.connected_user_count == known.connected_user_count + if state == Some(
                TransportSessionHealth::Connected,
            ) {
                1int
            } else {
                0
            }
            &&& now.disconnected_user_count == known.disconnected_user_count + if state == Some(
                TransportSessionHealth::Disconnected,
            ) {
                1int
            } else {
                0
            }
            &&& now.unknown_user_count == known.unknown_user_count + if state is None {
                1int
            } else {
                0
            }
            &&& now.room_count == known.room_count + if seen {
                0int
            } else {
                1
            }
            &&& other != worker ==> (after.contains_key(other) <==> before.contains_key(other))
                && worker_of(after, other) == worker_of(before, other)
        }),
{
    assert(users.push(user).drop_last() =~= users);
}

/// An empty room is counted on the worker of its first router, as a room and as nothing
/// else; a room with users is counted by them.
pub proof fn empty_rooms_are_counted_on_their_worker(
    workers: Workers,
    primary: Option<MediaWorkerId>,
    users: Seq<CapturedUserSummary>,
    health: Map<SessionIdentity, TransportSessionHealth>,
    worker: usize,
)
    requires
        worker_of(workers, worker).room_count < usize::MAX,
    ensures
        users.len() > 0 ==> with_room(workers, primary, users, health) == with_users(
            workers,
            users,
            health,
        ),
        users.len() == 0 ==> {
            let known = worker_of(workers, worker);
            let now = worker_of(with_room(workers, primary, users, health), worker);
            let home = if primary is Some {
                (primary->0).0
            } else {
                0
            };
            &&& now.room_count == known.room_count + if worker == home {
                1int
            } else {
                0
            }
            &&& now.user_count == known.user_count
            &&& now.publication_count == known.publication_count
            &&& now.subscription_count == known.subscription_count
            &&& now.connected_user_count == known.connected_user_count
            &&& now.disconnected_user_count == known.disconnected_user_count
            &&& now.unknown_user_count == known.unknown_user_count
        },
{
}

/// Every session is counted once: as connected, as disconnected, or as unknown.
pub proof fn sessions_are_counted_by_health(
    keys: Seq<TransportSessionKey>,
    key: TransportSessionKey,
    health: Map<SessionIdentity, TransportSessionHealth>,
    wanted: Option<TransportSessionHealth>,
)
    ensures
        with_health(keys.push(key), health, wanted) == with_health(keys, health, wanted) + if (
        wanted is None && !health.contains_key(key.id())) || (wanted is Some
            && health.contains_key(key.id()) && health[key.id()] == wanted->0) {
            1nat
        } else {
            0
        },
        with_health(Seq::<TransportSessionKey>::empty(), health, wanted) == 0,
{
    assert(keys.push(key).drop_last() =~= keys);
}

/// What a user publishes on its connection is shown, and nothing that it published on
/// another one or that somebody else publishes.
pub proof fn own_publications_are_shown(
    sources: Sources,
    user: UserIdentity,
    connection: ConnectionId,
    id: u64,
)
    requires
        sources.dom().finite(),
        sources.contains_key(id),
    ensures
        sources[id].descriptor.owner.id() == user && sources[id].transport.session.connection
            == connection ==> own_publications(sources, user, connection).contains(sources[id]),
        forall|i: int|
            0 <= i < own_publications(sources, user, connection).len() ==> (
            #[trigger] own_publications(sources, user, connection)[i]).descriptor.owner.id() == user
                && own_publications(sources, user, connection)[i].transport.session.connection
                == connection,
{
    lemma_sorted_lists::<crate::ids::PublishedSourceId>(sources.dom());
    let order = source_order(sources);
    assert(order.contains(id));
    lemma_published_of(sources, order, user, connection, id);
}

proof fn lemma_published_of(
    sources: Sources,
    order: Seq<u64>,
    user: UserIdentity,
    connection: ConnectionId,
    id: u64,
)
    ensures
        ({
            let shown = published_of(sources, order, user, connection);
            &&& order.contains(id) && sources[id].descriptor.owner.id() == user
                && sources[id].transport.session.connection == connection ==> shown.contains(
                sources[id],
            )
            &&& forall|i: int|
                0 <= i < shown.len() ==> (#[trigger] shown[i]).descriptor.owner.id() == user
                    && shown[i].transport.session.connection == connection
        }),
    decreases order.len(),
{
    if order.len() > 0 {
        let fewer = order.drop_last();
        lemma_published_of(sources, fewer, user, connection, id);
        lemma_last(order, id);
        let all = published_of(sources, order, user, connection);
        let early = published_of(sources, fewer, user, connection);
        if all.len() > early.len() {
            assert(all.drop_last() =~= early);
            lemma_last(all, sources[id]);
        }
    }
}

/// The routes that are counted for a user are those that are committed on its connection
/// and those that are being set up; each once.
pub proof fn routes_are_counted_as_they_stand(
    t: Topology,
    user: UserIdentity,
    connection: ConnectionId,
    k: SubscriptionIdentity,
)
    requires
        t.graph.subscriptions.dom().finite(),
    ensures
        routed_of(t, receiver_order(t, user), connection).contains(k) <==> k.receiver == user
            && committed(t, k) && attachment(
            t.graph.subscriptions,
            k,
        )->0.realization->Committed_0.route.consumer_session.connection == connection,
        set_up_of(t, receiver_order(t, user)).contains(k) <==> k.receiver == user && attachment(
            t.graph.subscriptions,
            k,
        ) is Some && attachment(t.graph.subscriptions, k)->0.realization is Pending,
{
    let subs = t.graph.subscriptions;
    let keys = receiver_keys(subs, user);
    assert(keys.subset_of(subs.dom()));
    vstd::set_lib::lemma_len_subset(keys, subs.dom());
    lemma_sorted_lists::<SubscriptionKey>(keys);
    let order = receiver_order(t, user);
    assert(order.contains(k) <==> keys.contains(k));
    lemma_routed_of(t, order, connection, k);
    assert(attachment(subs, k) is Some ==> subs.contains_key(k));
}

proof fn lemma_routed_of(
    t: Topology,
    keys: Seq<SubscriptionIdentity>,
    connection: ConnectionId,
    k: SubscriptionIdentity,
)
    ensures
        routed_of(t, keys, connection).contains(k) <==> keys.contains(k) && committed(t, k)
            && attachment(
            t.graph.subscriptions,
            k,
        )->0.realization->Committed_0.route.consumer_session.connection == connection,
        set_up_of(t, keys).contains(k) <==> keys.contains(k) && attachment(
            t.graph.subscriptions,
            k,
        ) is Some && attachment(t.graph.subscriptions, k)->0.realization is Pending,
    decreases keys.len(),
{
    if keys.len() > 0 {
        let fewer = keys.drop_last();
        lemma_routed_of(t, fewer, connection, k);
        lemma_last(keys, k);
        let all = routed_of(t, keys, connection);
        let early = routed_of(t, fewer, connection);
        if all.len() > early.len() {
            assert(all.drop_last() =~= early);
            lemma_last(all, k);
        }
        let pending = set_up_of(t, keys);
        let before = set_up_of(t, fewer);
        if pending.len() > before.len() {
            assert(pending.drop_last() =~= before);
            lemma_last(pending, k);
        }
    }
}

/// A room has as many subscriptions as are set up or being set up.
pub proof fn subscriptions_are_counted_once_asked(t: Topology, k: SubscriptionIdentity)
    requires
        t.graph.subscriptions.dom().finite(),
    ensures
        in_order(realizing_keys(t.graph.subscriptions)).contains(k) <==> attachment(
            t.graph.subscriptions,
            k,
        ) is Some && !(attachment(t.graph.subscriptions, k)->0.realization is Absent),
{
    let subs = t.graph.subscriptions;
    let keys = realizing_keys(subs);
    assert(keys.subset_of(subs.dom()));
    vstd::set_lib::lemma_len_subset(keys, subs.dom());
    lemma_sorted_lists::<SubscriptionKey>(keys);
    assert(in_order(keys).contains(k) <==> keys.contains(k));
}

/// What comes in of a medium is added to the stream that is published by it, and to no
/// other one.
pub proof fn streams_get_what_their_media_bring(
    sources: Sources,
    per_media: Map<u64, Bitrate>,
    media: Seq<u64>,
    medium: u64,
    id: u64,
    stream: Seq<char>,
)
    requires
        sources.contains_key(id),
        sources[id].transport.media == TransportMediaId(medium),
        forall|other: u64| #[trigger]
            sources.contains_key(other) && sources[other].transport.media == TransportMediaId(
                medium,
            ) ==> other == id,
    ensures
        stream_bps(sources, per_media, media.push(medium), stream) == stream_bps(
            sources,
            per_media,
            media,
            stream,
        ) + if sources[id].descriptor.stream_id.id() == stream {
            per_media[medium].0 as int
        } else {
            0
        },
{
    assert(media.push(medium).drop_last() =~= media);
    assert(crate::sources::first_with_media(sources, TransportMediaId(medium), id));
    if streams(sources, medium, stream) {
        let found = choose|found: u64|
            #![trigger crate::sources::first_with_media(sources, TransportMediaId(medium), found)]
            crate::sources::first_with_media(sources, TransportMediaId(medium), found)
                && sources[found].descriptor.stream_id.id() == stream;
        assert(sources.contains_key(found));
    }
}

/// The statistics of a room count its users, give the total of the transport, and list a
/// stream exactly where something of it was read.
pub proof fn statistics_list_what_was_read(
    st: State,
    snapshot: TransportBitrateSnapshot,
    r: RoomUserStatsSnapshot,
    id: u64,
)
    requires
        st.users.dom().finite(),
        snapshot.per_media@.dom().finite(),
        are_stats(st, snapshot, r),
    ensures
        r.count == st.users.dom().len(),
        r.incoming_bitrate.total == snapshot.total.0,
        st.topology.sources.contains_key(id) && snapshot.per_media@.contains_key(
            st.topology.sources[id].transport.media.0,
        ) && (forall|other: u64| #[trigger]
            st.topology.sources.contains_key(other) && st.topology.sources[other].transport.media
                == st.topology.sources[id].transport.media ==> other == id)
            ==> r.incoming_bitrate.by_stream@.contains_key(
            st.topology.sources[id].descriptor.stream_id.id(),
        ),
{
    lemma_sorted_lists::<crate::ids::UserId>(st.users.dom());
    lemma_sorted_lists::<TransportMediaId>(snapshot.per_media@.dom());
    let media = sorted::<TransportMediaId>(snapshot.per_media@.dom());
    let sources = st.topology.sources;
    if sources.contains_key(id) && snapshot.per_media@.contains_key(
        sources[id].transport.media.0,
    ) && (forall|other: u64| #[trigger]
        sources.contains_key(other) && sources[other].transport.media == sources[id].transport.media
            ==> other == id) {
        let medium = sources[id].transport.media.0;
        assert(media.contains(medium));
        assert(crate::sources::first_with_media(sources, TransportMediaId(medium), id));
        let stream = sources[id].descriptor.stream_id.id();
        assert(streams(sources, medium, stream));
        assert(streams(sources, media[media.index_of(medium)], stream));
    }
}

/// A subscription is shown as it stands: pending until it is committed, active where the
/// publication is on air and the receiver gets it, and inactive else. Its media are shown
/// once it is committed, and a layout for video alone.
pub proof fn subscriptions_are_shown_as_they_stand(
    t: Topology,
    k: SubscriptionIdentity,
    now: Moment,
)
    requires
        attachment(t.graph.subscriptions, k) is Some,
    ensures
        ({
            let current = attachment(t.graph.subscriptions, k)->0;
            let source = t.sources[current.source_id.0];
            let shown = shown_subscription(t, k, now);
            let route = current.realization->Committed_0;
            &&& shown.state is Pending <==> !(current.realization is Committed)
            &&& shown.state is Active <==> current.realization is Committed && source.active
                && current.selection.active && current.selection.policy_pause_reason is None
            &&& shown.consumer_transport_media_id is Some <==> current.realization is Committed
            &&& current.realization is Committed ==> shown.consumer_transport_media_id == Some(
                route.route.consumer_media.0,
            ) && shown.source_transport_media_id == Some(route.route.source.media.0)
            &&& !(current.realization is Committed) ==> shown.source_transport_media_id == Some(
                source.transport.media.0,
            )
            &&& shown.layout_role is Some <==> source.descriptor.media_kind is Video
            &&& shown.layout_priority is Some <==> source.descriptor.media_kind is Video
            &&& shown.producer_user_id == source.descriptor.owner
            &&& shown.stream_id == source.descriptor.stream_id.0
            &&& shown.source_id == source.descriptor.source_id.0
            &&& shown.selection.active == current.selection.active
            &&& shown.selection.policy_allows_delivery <==> current.selection.policy_pause_reason
                is None
        }),
{
}

/// The layout that is shown of a video is the one that its receiver asked for, and the
/// default of the publication where it asked for none.
pub proof fn layouts_are_shown_as_asked(
    t: Topology,
    receiver: UserIdentity,
    source: PublishedSourceDescriptor,
)
    requires
        source.media_kind is Video,
    ensures
        ({
            let wish = record(
                t.graph.subscriptions,
                SubscriptionIdentity {
                    receiver,
                    publisher: source.owner.id(),
                    stream: source.stream_id.id(),
                },
            ).intent.layout;
            &&& wish == Some(VideoLayoutIntent::Pinned) ==> shown_layout(t, receiver, source)
                == Some(SourceRoomPolicySelector::Pinned)
            &&& wish == Some(VideoLayoutIntent::Featured) ==> shown_layout(t, receiver, source)
                == Some(SourceRoomPolicySelector::Featured)
            &&& wish == Some(VideoLayoutIntent::Visible) ==> shown_layout(t, receiver, source)
                == Some(SourceRoomPolicySelector::VisibleThumbnail)
            &&& wish == Some(VideoLayoutIntent::Hidden) ==> shown_layout(t, receiver, source)
                == Some(SourceRoomPolicySelector::Hidden)
            &&& wish is None ==> shown_layout(t, receiver, source) == Some(source.policy.layout)
        }),
{
}

/// A selection is shown with the encoding that it names and with what is known of it, and
/// an upgrade with the time that is left until it is due.
pub proof fn selections_are_shown_as_chosen(
    source: PublishedSourceDescriptor,
    selection: ConsumerSourceSelection,
    upgrade: Option<PendingUpgrade>,
    now: Moment,
    i: int,
)
    ensures
        ({
            let shown = shown_selection(source, selection, upgrade, now);
            let encodings = source.encodings@;
            &&& shown.active == selection.active
            &&& shown.policy_allows_delivery <==> selection.policy_pause_reason is None
            &&& shown.policy_pause_reason is Some <==> selection.policy_pause_reason is Some
            &&& shown.selector is Open <==> selection.selector is Open
            &&& selection.selector is Open ==> shown.selected_encoding_id is None
                && shown.selected_rid is None && shown.selected_estimated_bitrate_bps is None
                && shown.selection_reason is Open
            &&& selection.selector matches SourceSelector::Encoding(id) ==> {
                &&& shown.selected_encoding_id == Some(id.0)
                &&& shown.selection_reason is ReceiverAdaptation
                &&& 0 <= i < encodings.len() && encodings[i].encoding_id == id && (forall|j: int|
                    0 <= j < i ==> (#[trigger] encodings[j]).encoding_id != id) ==> {
                    &&& shown.selected_rid == encodings[i].rid
                    &&& shown.selected_estimated_bitrate_bps == optional_bps(
                        encodings[i].max_bitrate,
                    )
                }
            }
            &&& shown.pending_upgrade is Some <==> upgrade is Some
            &&& upgrade matches Some(due) ==> {
                let pending = shown.pending_upgrade->0;
                &&& due.deadline.0 <= now.0 ==> pending.remaining_ms == 0
                &&& pending.selector is Encoding <==> due.selector is Encoding
                &&& due.selector matches SourceSelector::Encoding(id) ==> pending.encoding_id
                    == Some(id.0)
            }
        }),
{
    if selection.selector is Encoding {
        let id = selection.selector->Encoding_0;
        let encodings = source.encodings@;
        if 0 <= i < encodings.len() && encodings[i].encoding_id == id && (forall|j: int|
            0 <= j < i ==> (#[trigger] encodings[j]).encoding_id != id) {
            the_first_encoding_is_found(encodings, id, i);
        }
    }
}

/// An encoding is found under its number; of several the first one.
pub proof fn the_first_encoding_is_found(
    encodings: Seq<SourceEncodingDescriptor>,
    id: SourceEncodingId,
    i: int,
)
    requires
        0 <= i < encodings.len(),
        encodings[i].encoding_id == id,
        forall|j: int| 0 <= j < i ==> (#[trigger] encodings[j]).encoding_id != id,
    ensures
        first_encoding(encodings, id) == Some(encodings[i]),
    decreases encodings.len(),
{
    let fewer = encodings.drop_last();
    if i < fewer.len() {
        assert forall|j: int| 0 <= j < i implies (#[trigger] fewer[j]).encoding_id != id by {
            assert(fewer[j] == encodings[j]);
        }
        the_first_encoding_is_found(fewer, id, i);
    } else {
        lemma_no_encoding(fewer, id);
    }
}

proof fn lemma_no_encoding(encodings: Seq<SourceEncodingDescriptor>, id: SourceEncodingId)
    requires
        forall|j: int| 0 <= j < encodings.len() ==> (#[trigger] encodings[j]).encoding_id != id,
    ensures
        first_encoding(encodings, id) is None,
    decreases encodings.len(),
{
    if encodings.len() > 0 {
        let fewer = encodings.drop_last();
        assert forall|j: int| 0 <= j < fewer.len() implies (#[trigger] fewer[j]).encoding_id
            != id by {
            assert(fewer[j] == encodings[j]);
        }
        lemma_no_encoding(fewer, id);
        assert(encodings[encodings.len() - 1].encoding_id != id);
    }
}

/// Of the readings of a RID the first one counts.
pub proof fn the_first_reading_of_a_rid_counts(
    rids: Seq<TransportRidActivity>,
    rid: Seq<char>,
    i: int,
)
    requires
        0 <= i < rids.len(),
        rids[i].rid@ == rid,
        forall|j: int| 0 <= j < i ==> (#[trigger] rids[j]).rid@ != rid,
    ensures
        first_rid(rids, rid) == Some(rids[i]),
    decreases rids.len(),
{
    let fewer = rids.drop_last();
    if i < fewer.len() {
        assert forall|j: int| 0 <= j < i implies (#[trigger] fewer[j]).rid@ != rid by {
            assert(fewer[j] == rids[j]);
        }
        the_first_reading_of_a_rid_counts(fewer, rid, i);
    } else {
        lemma_no_rid(fewer, rid);
    }
}

proof fn lemma_no_rid(rids: Seq<TransportRidActivity>, rid: Seq<char>)
    requires
        forall|j: int| 0 <= j < rids.len() ==> (#[trigger] rids[j]).rid@ != rid,
    ensures
        first_rid(rids, rid) is None,
    decreases rids.len(),
{
    if rids.len() > 0 {
        let fewer = rids.drop_last();
        assert forall|j: int| 0 <= j < fewer.len() implies (#[trigger] fewer[j]).rid@ != rid by {
            assert(fewer[j] == rids[j]);
        }
        lemma_no_rid(fewer, rid);
        assert(rids[rids.len() - 1].rid@ != rid);
    }
}

/// Of the readings of a medium the last one counts, and one of another medium never does.
pub proof fn the_last_reading_of_a_medium_counts(
    activity: Seq<TransportSourceActivity>,
    reading: TransportSourceActivity,
    speakers: Seq<ActiveSpeakerSourceDiagnostic>,
    heard: ActiveSpeakerSourceDiagnostic,
    media: TransportMediaId,
)
    ensures
        last_activity(activity.push(reading), media) == if reading.transport_media_id == media {
            Some(reading)
        } else {
            last_activity(activity, media)
        },
        last_speaker(speakers.push(heard), media) == if heard.transport_media_id == media {
            Some(heard)
        } else {
            last_speaker(speakers, media)
        },
        last_activity(Seq::<TransportSourceActivity>::empty(), media) is None,
        last_speaker(Seq::<ActiveSpeakerSourceDiagnostic>::empty(), media) is None,
{
    assert(activity.push(reading).drop_last() =~= activity);
    assert(speakers.push(heard).drop_last() =~= speakers);
}

/// Speech is shown of audio, and of audio alone; where nothing was heard of it, it is idle.
pub proof fn speech_is_shown_of_audio(
    kind: MediaKind,
    media: TransportMediaId,
    speakers: Seq<ActiveSpeakerSourceDiagnostic>,
)
    ensures
        speaker_of(kind, media, speakers) is Some <==> kind is Audio,
        kind is Audio && last_speaker(speakers, media) is None ==> (speaker_of(
            kind,
            media,
            speakers,
        )->0).state is Idle && (speaker_of(kind, media, speakers)->0).reason is NoMetadata
            && (speaker_of(kind, media, speakers)->0).confidence_observations == 0,
        kind is Audio ==> (last_speaker(speakers, media) matches Some(heard) ==> {
            let shown = speaker_of(kind, media, speakers)->0;
            &&& shown.state is Active <==> heard.state is Active
            &&& shown.state is Blocked <==> heard.state is Blocked
            &&& shown.state is RecentlyExpired <==> heard.state is RecentlyExpired
            &&& shown.state is Idle <==> heard.state is Idle
            &&& shown.confidence_observations == heard.confidence_observations
            &&& shown.last_audio_level_dbov == heard.last_audio_level_dbov
            &&& shown.hold_remaining_ms is Some <==> heard.hold_remaining is Some
        }),
{
}

/// Times are shown in whole milliseconds, rounded down, and nothing is left of a time that
/// is over.
pub proof fn times_are_shown_in_milliseconds(nanos: u128, deadline: Moment, now: Moment)
    ensures
        nanos < u64::MAX * 1_000_000 ==> millis(nanos) * 1_000_000 <= nanos < (millis(nanos) + 1)
            * 1_000_000,
        deadline.0 <= now.0 ==> remaining(deadline, now) == 0,
        now.0 < deadline.0 ==> now.0 + remaining(deadline, now) == deadline.0,
{
}

/// Readings of quality are available exactly where samples were taken, and are those of the
/// samples.
pub proof fn quality_is_that_of_the_samples(
    incoming: DiagnosticsIncomingBitrate,
    quality: Option<TransportQualitySample>,
)
    ensures
        summarized_quality(incoming, quality).sampled_metrics_available <==> quality is Some
            && (quality->0).sample_count > 0,
        quality matches Some(sample) ==> {
            let shown = summarized_quality(incoming, quality);
            &&& shown.sample_count == sample.sample_count
            &&& shown.rtt_ms == sample.rtt_ms
            &&& shown.latest_bwe_bps == sample.latest_bwe_bps
            &&& shown.ingress_loss_ppm == sample.ingress_loss_ppm
            &&& shown.egress_loss_ppm == sample.egress_loss_ppm
        },
        quality is None ==> summarized_quality(incoming, quality).sample_count == 0
            && summarized_quality(incoming, quality).rtt_ms is None,
        summarized_quality(incoming, quality).current_incoming_bitrate == incoming,
{
}

/// What comes in of a publication is added to its stream and to the total.
pub proof fn publications_add_up(
    publications: Seq<DiagnosticsPublication>,
    publication: DiagnosticsPublication,
    per_media: Map<u64, Bitrate>,
    stream: Seq<char>,
)
    ensures
        ({
            let more = publications.push(publication);
            let incoming = match publication.transport_media_id {
                Some(media) => if per_media.contains_key(media) {
                    per_media[media].0 as int
                } else {
                    0
                },
                None => 0,
            };
            &&& publications_bps(more, per_media, None) == publications_bps(
                publications,
                per_media,
                None,
            ) + incoming
            &&& publications_bps(more, per_media, Some(stream)) == publications_bps(
                publications,
                per_media,
                Some(stream),
            ) + if publication.stream_id@ == stream {
                incoming
            } else {
                0
            }
        }),
{
    assert(publications.push(publication).drop_last() =~= publications);
}

/// What is shown under a name is what has that name: kinds, reasons, roles and priorities
/// are shown as they are.
pub proof fn what_is_shown_keeps_its_name(
    kind: MediaKind,
    reason: PolicyPauseReason,
    role: SourceRoomPolicySelector,
    priority: SourceRoutePriority,
)
    ensures
        shown_kind(kind) is Audio <==> kind is Audio,
        shown_kind(kind) is Video <==> kind is Video,
        ({
            let shown: DiagnosticsPolicyPauseReason =
                vstd::std_specs::convert::FromSpec::from_spec(reason);
            &&& shown is BudgetPressure <==> reason is BudgetPressure
            &&& shown is HiddenTile <==> reason is HiddenTile
            &&& shown is OverflowTile <==> reason is OverflowTile
            &&& shown is MissingUsableLayer <==> reason is MissingUsableLayer
            &&& shown is AudioSpeakerLimit <==> reason is AudioSpeakerLimit
            &&& shown is ReceiverDeafened <==> reason is ReceiverDeafened
            &&& shown is VideoDownloadLimit <==> reason is VideoDownloadLimit
            &&& shown is SourceBitrateLimit <==> reason is SourceBitrateLimit
        }),
        ({
            let shown: DiagnosticsVideoLayoutRole = vstd::std_specs::convert::FromSpec::from_spec(
                role,
            );
            &&& shown is Pinned <==> role is Pinned
            &&& shown is Featured <==> role is Featured
            &&& shown is ReadableDetail <==> role is ReadableDetail
            &&& shown is ActiveSpeaker <==> role is ActiveSpeaker
            &&& shown is VisibleThumbnail <==> role is VisibleThumbnail
            &&& shown is Hidden <==> role is Hidden
            &&& shown is Overflow <==> role is Overflow
        }),
        ({
            let shown: DiagnosticsVideoRoutePriority =
                vstd::std_specs::convert::FromSpec::from_spec(priority);
            &&& shown is PinnedOrFeatured <==> priority is PinnedOrFeatured
            &&& shown is ReadableDetail <==> priority is ReadableDetail
            &&& shown is ActiveSpeaker <==> priority is ActiveSpeaker
            &&& shown is VisibleThumbnail <==> priority is VisibleThumbnail
            &&& shown is HiddenOrOverflow <==> priority is HiddenOrOverflow
        }),
{
}

/// Why speech was or was not found is shown under its own name.
pub proof fn reasons_of_speech_keep_their_name(
    state: ActiveSpeakerActivityState,
    reason: ActiveSpeakerActivityReason,
)
    ensures
        ({
            let shown: DiagnosticsActiveSpeakerReason =
                vstd::std_specs::convert::FromSpec::from_spec(reason);
            &&& shown is Vad <==> reason is Vad
            &&& shown is AudioLevel <==> reason is AudioLevel
            &&& shown is AudioLevelWarmup <==> reason is AudioLevelWarmup
            &&& shown is VadFalse <==> reason is VadFalse
            &&& shown is LowNoise <==> reason is LowNoise
            &&& shown is BelowSpeechThreshold <==> reason is BelowSpeechThreshold
            &&& shown is MissingAudioMetadata <==> reason is MissingAudioMetadata
            &&& shown is Expired <==> reason is Expired
            &&& shown is NoMetadata <==> reason is NoMetadata
        }),
        ({
            let shown: DiagnosticsActiveSpeakerState =
                vstd::std_specs::convert::FromSpec::from_spec(state);
            &&& shown is Active <==> state is Active
            &&& shown is Idle <==> state is Idle
            &&& shown is Blocked <==> state is Blocked
            &&& shown is RecentlyExpired <==> state is RecentlyExpired
        }),
{
}

/// An encoding is shown with its negotiated format, and with the age of what was last
/// received of its RID.
pub proof fn encodings_are_shown_as_negotiated(
    encoding: SourceEncodingDescriptor,
    activity: Option<TransportSourceActivity>,
)
    ensures
        ({
            let shown = shown_encoding(encoding, activity);
            &&& shown.encoding_id == encoding.encoding_id.0
            &&& shown.rid == encoding.rid
            &&& shown.primary_ssrc == encoding.primary_ssrc
            &&& shown.repair_ssrc == encoding.repair_ssrc
            &&& shown.max_bitrate_bps is Some <==> encoding.max_bitrate is Some
            &&& encoding.max_bitrate matches Some(limit) ==> shown.max_bitrate_bps == Some(limit.0)
            &&& shown.codec is Some <==> encoding.negotiated_format is Some
            &&& encoding.negotiated_format matches Some(format) ==> shown.codec == Some(
                format.codec,
            ) && shown.payload_type == Some(format.payload_type)
            &&& activity is None || encoding.rid is None ==> shown.last_packet_age_ms is None
                && shown.last_keyframe_age_ms is None
            &&& activity is Some && encoding.rid is Some ==> {
                let reading = first_rid((activity->0).rids@, (encoding.rid->0)@);
                &&& shown.last_packet_age_ms is Some <==> reading is Some
                &&& reading matches Some(reading) ==> shown.last_packet_age_ms == Some(
                    millis(reading.last_packet_age),
                ) && (shown.last_keyframe_age_ms is Some <==> reading.last_keyframe_age is Some)
            }
        }),
{
}

/// A publication is shown as it is: on air or paused, with what comes in of it, and with
/// the ages of its last packet and its last keyframe.
pub proof fn publications_are_shown_as_they_are(
    view: DiagnosticsSource,
    captured: CapturedSource,
    source: PublishedSource,
    per_media: Map<u64, Bitrate>,
    activity: Seq<TransportSourceActivity>,
    speakers: Seq<ActiveSpeakerSourceDiagnostic>,
)
    requires
        captures_source(captured, source),
        views_source(view, captured, per_media, activity, speakers),
    ensures
        view.active == source.active,
        view.media_kind is Audio <==> source.descriptor.media_kind is Audio,
        view.owner_user_id == source.descriptor.owner,
        view.stream_id == source.descriptor.stream_id.0,
        view.source_id == source.descriptor.source_id.0,
        view.transport_media_id == Some(source.transport.media.0),
        view.active_speaker is Some <==> source.descriptor.media_kind is Audio,
        view.current_incoming_bitrate_bps == if per_media.contains_key(source.transport.media.0) {
            per_media[source.transport.media.0].0
        } else {
            0
        },
        view.encodings@.len() == source.descriptor.encodings@.len(),
        last_activity(activity, source.transport.media) matches Some(reading) ==> {
            &&& view.last_packet_age_ms == Some(millis(reading.last_packet_age))
            &&& view.last_keyframe_age_ms is Some <==> reading.last_keyframe_age is Some
        },
        last_activity(activity, source.transport.media) is None ==> view.last_packet_age_ms is None
            && view.last_keyframe_age_ms is None,
        view.video_bitrate_cap_bps is Some <==> source.descriptor.policy.video_bitrate_cap is Some,
{
}

/// A user is shown with its own session, its presence, its publications and its
/// subscriptions; its health is what the transport says, or unknown.
pub proof fn users_are_shown_as_they_are(
    st: State,
    user: UserIdentity,
    captured: CapturedUser,
    now: Moment,
    view: DiagnosticsUserView,
    per_media: Map<u64, Bitrate>,
    quality: Map<SessionIdentity, TransportQualitySample>,
    health: Map<SessionIdentity, TransportSessionHealth>,
)
    requires
        captures_user(st, user, captured, now),
        views_user(view, captured, per_media, quality, health),
    ensures
        view.user_id.id() == user,
        view.user_info == st.users[user].info,
        view.transport.connection_id == st.users[user].connection_id.0,
        view.transport.media_worker_id == st.topology.placements[user].worker.0,
        view.transport.health is Some <==> health.contains_key(captured.session_key.id()),
        view.transport.health matches Some(state) ==> state == health[captured.session_key.id()],
        view.transport.video_soft_pause_remaining_ms is Some
            <==> st.users[user].video_soft_pause_deadline is Some,
        st.users[user].video_soft_pause_deadline matches Some(deadline) ==> (deadline.0 <= now.0
            ==> view.transport.video_soft_pause_remaining_ms == Some(0u64)),
        view.publications@.len() == own_publications(
            st.topology.sources,
            user,
            st.users[user].connection_id,
        ).len(),
{
}

/// A sum that is reported is exact until it no longer fits, and then the largest number.
pub proof fn sums_stop_at_the_largest(sum: int, more: int)
    requires
        0 <= sum <= more,
    ensures
        more <= u64::MAX ==> capped(more) == more,
        capped(sum) <= capped(more),
        more > u64::MAX ==> capped(more) == u64::MAX,
{
}

/// A medium that the transport has no reading of brings nothing, and a session that it does
/// not know has no health.
pub proof fn nothing_is_read_of_the_unknown(
    per_media: Map<u64, Bitrate>,
    media: u64,
    health: Map<SessionIdentity, TransportSessionHealth>,
    key: SessionIdentity,
)
    ensures
        !per_media.contains_key(media) ==> bps(per_media, media) == 0,
        per_media.contains_key(media) ==> bps(per_media, media) == per_media[media].0,
        health_of(health, key) is Some <==> health.contains_key(key),
        health.contains_key(key) ==> health_of(health, key) == Some(health[key]),
{
}

/// The summary of a user counts what it publishes on its connection and the routes it has
/// there or waits for.
pub proof fn summaries_count_what_is_there(
    st: State,
    user: UserIdentity,
    summary: CapturedUserSummary,
)
    requires
        captures_summary(st, user, summary),
    ensures
        summary.user_id.id() == user,
        summary.session_key.user.id() == user,
        summary.session_key.connection == st.users[user].connection_id,
        summary.session_key.worker == st.topology.placements[user].worker,
        summary.publications@.len() == own_publications(
            st.topology.sources,
            user,
            st.users[user].connection_id,
        ).len(),
        summary.subscription_count == routed_of(
            st.topology,
            receiver_order(st.topology, user),
            st.users[user].connection_id,
        ).len() + set_up_of(st.topology, receiver_order(st.topology, user)).len(),
{
}

/// The rate that the statistics give of a stream is the sum of what its media bring.
pub proof fn statistics_give_the_rate_of_each_stream(
    st: State,
    snapshot: TransportBitrateSnapshot,
    r: RoomUserStatsSnapshot,
    stream: Seq<char>,
)
    requires
        are_stats(st, snapshot, r),
        r.incoming_bitrate.by_stream@.contains_key(stream),
    ensures
        ({
            let sum = stream_bps(
                st.topology.sources,
                snapshot.per_media@,
                sorted::<TransportMediaId>(snapshot.per_media@.dom()),
                stream,
            );
            let given = r.incoming_bitrate.by_stream@[stream];
            &&& sum <= u64::MAX ==> given == sum
            &&& sum > u64::MAX ==> given == u64::MAX
        }),
{
}

} // verus!
