//! Two-phase room diagnostics.
//!
//! A capture copies the facts of a room and its transport keys while nothing changes
//! the room. Transport snapshots are taken afterwards, and projections combine both.

use vstd::prelude::*;

use crate::diagnostics::{
    active_speaker, bps, bps_of, capped, carries, count_health, duration_millis, find_activity,
    health_of, incoming_bitrate, last_activity, media_bitrate, millis, millis_of, optional_bps,
    optional_millis, publications_bps, quality_summary, referenced, remaining, selection,
    session_health, shown_encoding, shown_selection, source_encoding, speaker_of,
    summarized_quality, time_until, with_health, ActiveSpeakerSourceDiagnostic,
    DiagnosticsActiveSpeaker, DiagnosticsIncomingBitrate, DiagnosticsMediaKind,
    DiagnosticsPublication, DiagnosticsQualitySummary, DiagnosticsSourceEncoding,
    DiagnosticsSourceSelection, DiagnosticsTransportCounts, DiagnosticsVideoLayoutRole,
    DiagnosticsVideoRoutePriority, TransportBitrateSnapshot, TransportHealthSnapshot,
    TransportQualitySample, TransportQualitySnapshot, TransportSessionHealth,
    TransportSourceActivity, TransportSourceDiagnosticsSnapshot,
};
use crate::ids::{
    same, ConnectionId, MediaWorkerId, TransportMediaId, UserId, UserIdentity, UserStreamId,
};
use crate::key_index::{ids_of, in_order, lemma_in_order};
use crate::ord_map::{enumerates, sorted, OrdMap};
use crate::order::OrdKey;
use crate::outbound::RecordingState;
use crate::route_graph::{
    attachment, realizing_keys, receiver_keys, record, ConsumerRealization, CurrentPublication,
};
use crate::source_model::{
    clone_text, Bitrate, MediaKind, Moment, PublishedSourceDescriptor, SourceEncodingDescriptor,
    SourceRoomPolicySelector, UserInfo,
};
use crate::sources::{first_with_media, source_order, PublishedSource, Sources};
use crate::state::{lists_users, user_order, RoomState, State};
use crate::subscription::layout_role;
use crate::topology::{counts_users, RoomMediaCounts, Topology};
use crate::transport::{
    SessionIdentity, SubscriptionIdentity, SubscriptionKey, TransportSessionKey, TransportSourceKey,
};

verus! {

/// Incoming bitrates of a room.
#[derive(Debug, PartialEq, Eq)]
pub struct IncomingBitrateSnapshot {
    pub total: u64,
    pub by_stream: OrdMap<UserStreamId, u64>,
}

/// Users, streams and bitrates of a room.
#[derive(Debug, PartialEq, Eq)]
pub struct RoomUserStatsSnapshot {
    pub incoming_bitrate: IncomingBitrateSnapshot,
    pub count: u64,
    pub active_stream_counts: OrdMap<UserStreamId, u64>,
}

/// What summaries show of a room.
#[derive(Debug)]
pub struct RoomOverviewCapture {
    pub media_counts: RoomMediaCounts,
    /// The worker that hosts the primary router.
    pub primary_media_worker_id: Option<MediaWorkerId>,
    pub recording_state: RecordingState,
    /// Sessions of the room, in user order.
    pub session_keys: Vec<TransportSessionKey>,
}

impl RoomOverviewCapture {
    /// Sessions by their health.
    pub fn transport_counts(&self, health: &TransportHealthSnapshot) -> (r:
        DiagnosticsTransportCounts)
        requires
            health.wf(),
        ensures
            r.connected == with_health(
                self.session_keys@,
                health@,
                Some(TransportSessionHealth::Connected),
            ),
            r.disconnected == with_health(
                self.session_keys@,
                health@,
                Some(TransportSessionHealth::Disconnected),
            ),
            r.unknown == with_health(self.session_keys@, health@, None),
            r.total == self.session_keys@.len(),
            r.connected + r.disconnected + r.unknown == r.total,
    {
        count_health(&self.session_keys, health)
    }
}

/// What user lists show of a user.
#[derive(Debug)]
pub struct CapturedUserSummary {
    pub publications: Vec<(UserStreamId, TransportMediaId)>,
    pub session_key: TransportSessionKey,
    pub subscription_count: usize,
    pub user_id: UserId,
}

/// One user in a list of users.
#[derive(Debug, PartialEq, Eq)]
pub struct DiagnosticsUserSummary {
    pub audio_incoming_bitrate_bps: u64,
    pub camera_incoming_bitrate_bps: u64,
    pub connection_id: u64,
    pub health: Option<TransportSessionHealth>,
    pub incoming_bitrate_bps: u64,
    pub media_worker_id: usize,
    pub publication_count: usize,
    pub room_id: String,
    pub screen_incoming_bitrate_bps: u64,
    pub subscription_count: usize,
    pub user_id: UserId,
}

/// Names of the audio, the camera and the screen stream.
#[derive(Debug, Clone, Copy)]
pub struct StreamNames<'a> {
    pub audio: &'a str,
    pub camera: &'a str,
    pub screen: &'a str,
}

/// Which of the three well-known streams a publication is tallied under.
#[derive(Debug, Clone, Copy, PartialEq, Eq, Structural)]
pub enum StreamTally {
    Audio,
    Camera,
    Screen,
    Other,
}

/// The tally of a stream. Where names agree, the first of them counts.
pub open spec fn tally_of(stream: Seq<char>, names: StreamNames) -> StreamTally {
    if stream == names.audio@ {
        StreamTally::Audio
    } else if stream == names.camera@ {
        StreamTally::Camera
    } else if stream == names.screen@ {
        StreamTally::Screen
    } else {
        StreamTally::Other
    }
}

fn tally_stream(stream: &UserStreamId, names: StreamNames) -> (r: StreamTally)
    ensures
        r == tally_of(stream.id(), names),
{
    if stream.0 == names.audio.to_owned() {
        StreamTally::Audio
    } else if stream.0 == names.camera.to_owned() {
        StreamTally::Camera
    } else if stream.0 == names.screen.to_owned() {
        StreamTally::Screen
    } else {
        StreamTally::Other
    }
}

/// Incoming bits per second of the publications under a tally, or of all.
pub open spec fn tallied_bps(
    publications: Seq<(UserStreamId, TransportMediaId)>,
    per_media: Map<u64, Bitrate>,
    names: StreamNames,
    tally: Option<StreamTally>,
) -> nat
    decreases publications.len(),
{
    if publications.len() == 0 {
        0
    } else {
        let before = tallied_bps(publications.drop_last(), per_media, names, tally);
        let (stream, media) = publications.last();
        if tally is None || tally == Some(tally_of(stream.id(), names)) {
            before + bps(per_media, media.0) as nat
        } else {
            before
        }
    }
}

/// A user as a list shows it.
pub open spec fn summarizes(
    summary: DiagnosticsUserSummary,
    room_id: Seq<char>,
    user: CapturedUserSummary,
    per_media: Map<u64, Bitrate>,
    health: Map<SessionIdentity, TransportSessionHealth>,
    names: StreamNames,
) -> bool {
    &&& summary.audio_incoming_bitrate_bps == capped(
        tallied_bps(user.publications@, per_media, names, Some(StreamTally::Audio)) as int,
    )
    &&& summary.camera_incoming_bitrate_bps == capped(
        tallied_bps(user.publications@, per_media, names, Some(StreamTally::Camera)) as int,
    )
    &&& summary.screen_incoming_bitrate_bps == capped(
        tallied_bps(user.publications@, per_media, names, Some(StreamTally::Screen)) as int,
    )
    &&& summary.incoming_bitrate_bps == capped(
        tallied_bps(user.publications@, per_media, names, None) as int,
    )
    &&& summary.connection_id == user.session_key.connection.0
    &&& summary.health == health_of(health, user.session_key.id())
    &&& summary.media_worker_id == user.session_key.worker.0
    &&& summary.publication_count == user.publications@.len()
    &&& summary.room_id@ == room_id
    &&& summary.subscription_count == user.subscription_count
    &&& summary.user_id == user.user_id
}

/// Combines what was captured of a user with the transport of the room.
pub fn user_summary(
    room_id: &str,
    user: CapturedUserSummary,
    per_media: &OrdMap<TransportMediaId, Bitrate>,
    health: &TransportHealthSnapshot,
    names: StreamNames,
) -> (r: DiagnosticsUserSummary)
    requires
        per_media.wf(),
        health.wf(),
    ensures
        summarizes(r, room_id@, user, per_media@, health@, names),
{
    let mut audio: u64 = 0;
    let mut camera: u64 = 0;
    let mut screen: u64 = 0;
    let mut total: u64 = 0;
    let mut i: usize = 0;
    proof {
        assert(user.publications@.take(0) =~= Seq::<(UserStreamId, TransportMediaId)>::empty());
    }
    while i < user.publications.len()
        invariant
            per_media.wf(),
            i <= user.publications@.len(),
            audio == capped(
                tallied_bps(
                    user.publications@.take(i as int),
                    per_media@,
                    names,
                    Some(StreamTally::Audio),
                ) as int,
            ),
            camera == capped(
                tallied_bps(
                    user.publications@.take(i as int),
                    per_media@,
                    names,
                    Some(StreamTally::Camera),
                ) as int,
            ),
            screen == capped(
                tallied_bps(
                    user.publications@.take(i as int),
                    per_media@,
                    names,
                    Some(StreamTally::Screen),
                ) as int,
            ),
            total == capped(
                tallied_bps(user.publications@.take(i as int), per_media@, names, None) as int,
            ),
        decreases user.publications@.len() - i,
    {
        proof {
            assert(user.publications@.take(i + 1).drop_last() =~= user.publications@.take(
                i as int,
            ));
            assert(user.publications@.take(i + 1).last() == user.publications@[i as int]);
        }
        let bitrate: u64 = media_bitrate(per_media, user.publications[i].1.0);
        total = total.saturating_add(bitrate);
        match tally_stream(&user.publications[i].0, names) {
            StreamTally::Audio => {
                audio = audio.saturating_add(bitrate);
            },
            StreamTally::Camera => {
                camera = camera.saturating_add(bitrate);
            },
            StreamTally::Screen => {
                screen = screen.saturating_add(bitrate);
            },
            StreamTally::Other => {},
        }
        i = i + 1;
    }
    proof {
        assert(user.publications@.take(i as int) =~= user.publications@);
    }
    DiagnosticsUserSummary {
        audio_incoming_bitrate_bps: audio,
        camera_incoming_bitrate_bps: camera,
        connection_id: user.session_key.connection.0,
        health: session_health(health, &user.session_key),
        incoming_bitrate_bps: total,
        media_worker_id: user.session_key.worker.0,
        publication_count: user.publications.len(),
        room_id: room_id.to_owned(),
        screen_incoming_bitrate_bps: screen,
        subscription_count: user.subscription_count,
        user_id: user.user_id,
    }
}

/// Load of a media worker.
#[derive(Debug, Clone, Copy, PartialEq, Eq, Structural)]
pub struct DiagnosticsWorkerSummary {
    pub media_worker_id: usize,
    pub room_count: usize,
    pub user_count: usize,
    pub publication_count: usize,
    pub subscription_count: usize,
    pub connected_user_count: usize,
    pub disconnected_user_count: usize,
    pub unknown_user_count: usize,
}

/// A worker of which nothing was counted yet.
pub open spec fn idle_worker(media_worker_id: usize) -> DiagnosticsWorkerSummary {
    DiagnosticsWorkerSummary {
        media_worker_id,
        room_count: 0,
        user_count: 0,
        publication_count: 0,
        subscription_count: 0,
        connected_user_count: 0,
        disconnected_user_count: 0,
        unknown_user_count: 0,
    }
}

pub fn worker_summary(media_worker_id: usize) -> (r: DiagnosticsWorkerSummary)
    ensures
        r == idle_worker(media_worker_id),
{
    DiagnosticsWorkerSummary {
        media_worker_id,
        room_count: 0,
        user_count: 0,
        publication_count: 0,
        subscription_count: 0,
        connected_user_count: 0,
        disconnected_user_count: 0,
        unknown_user_count: 0,
    }
}

/// A count after `n` more; the largest count is not exceeded.
pub open spec fn more(count: usize, n: int) -> usize {
    if count + n > usize::MAX {
        usize::MAX
    } else {
        (count + n) as usize
    }
}

/// Summaries by worker.
pub type Workers = Map<usize, DiagnosticsWorkerSummary>;

/// The summary of a worker, idle where there is none yet.
pub open spec fn worker_of(workers: Workers, worker: usize) -> DiagnosticsWorkerSummary {
    if workers.contains_key(worker) {
        workers[worker]
    } else {
        idle_worker(worker)
    }
}

/// One of the users is on the worker.
pub open spec fn occupied(users: Seq<CapturedUserSummary>, worker: usize) -> bool {
    exists|i: int| 0 <= i < users.len() && (#[trigger] users[i]).session_key.worker.0 == worker
}

/// A worker with one more user, and one more room where it is the first of its room.
pub open spec fn with_user(
    worker: DiagnosticsWorkerSummary,
    user: CapturedUserSummary,
    health: Option<TransportSessionHealth>,
    first: bool,
) -> DiagnosticsWorkerSummary {
    DiagnosticsWorkerSummary {
        room_count: more(
            worker.room_count,
            if first {
                1
            } else {
                0
            },
        ),
        user_count: more(worker.user_count, 1),
        publication_count: more(worker.publication_count, user.publications@.len() as int),
        subscription_count: more(worker.subscription_count, user.subscription_count as int),
        connected_user_count: more(
            worker.connected_user_count,
            if health == Some(TransportSessionHealth::Connected) {
                1
            } else {
                0
            },
        ),
        disconnected_user_count: more(
            worker.disconnected_user_count,
            if health == Some(TransportSessionHealth::Disconnected) {
                1
            } else {
                0
            },
        ),
        unknown_user_count: more(
            worker.unknown_user_count,
            if health is None {
                1
            } else {
                0
            },
        ),
        ..worker
    }
}

/// Workers with the users of a room added.
pub open spec fn with_users(
    workers: Workers,
    users: Seq<CapturedUserSummary>,
    health: Map<SessionIdentity, TransportSessionHealth>,
) -> Workers
    decreases users.len(),
{
    if users.len() == 0 {
        workers
    } else {
        let before = with_users(workers, users.drop_last(), health);
        let user = users.last();
        let worker = user.session_key.worker.0;
        before.insert(
            worker,
            with_user(
                worker_of(before, worker),
                user,
                health_of(health, user.session_key.id()),
                !occupied(users.drop_last(), worker),
            ),
        )
    }
}

/// Workers with a room added. A room without users counts for its primary worker.
pub open spec fn with_room(
    workers: Workers,
    primary: Option<MediaWorkerId>,
    users: Seq<CapturedUserSummary>,
    health: Map<SessionIdentity, TransportSessionHealth>,
) -> Workers {
    if users.len() == 0 {
        let worker = match primary {
            Some(worker) => worker.0,
            None => 0,
        };
        workers.insert(
            worker,
            DiagnosticsWorkerSummary {
                room_count: more(worker_of(workers, worker).room_count, 1),
                ..worker_of(workers, worker)
            },
        )
    } else {
        with_users(workers, users, health)
    }
}

/// Users of a room, for user lists and worker summaries.
#[derive(Debug)]
pub struct RoomUsersCapture {
    pub primary_media_worker_id: Option<MediaWorkerId>,
    pub users: Vec<CapturedUserSummary>,
}

/// Sessions of captured users.
pub open spec fn sessions_of(users: Seq<CapturedUserSummary>) -> Seq<TransportSessionKey> {
    users.map_values(|user: CapturedUserSummary| user.session_key)
}

fn known_worker(workers: &OrdMap<MediaWorkerId, DiagnosticsWorkerSummary>, worker: MediaWorkerId) -> (r:
    DiagnosticsWorkerSummary)
    requires
        workers.wf(),
    ensures
        r == worker_of(workers@, worker.0),
{
    match workers.get(&worker) {
        Some(summary) => *summary,
        None => worker_summary(worker.0),
    }
}

impl RoomUsersCapture {
    /// Sessions of the users, in user order.
    pub fn session_keys(&self) -> (r: Vec<TransportSessionKey>)
        ensures
            r@ == sessions_of(self.users@),
    {
        let mut keys: Vec<TransportSessionKey> = Vec::new();
        let mut i: usize = 0;
        while i < self.users.len()
            invariant
                i <= self.users@.len(),
                keys@ == sessions_of(self.users@.take(i as int)),
            decreases self.users@.len() - i,
        {
            keys.push(self.users[i].session_key.clone());
            proof {
                assert(keys@ =~= sessions_of(self.users@.take(i + 1)));
            }
            i = i + 1;
        }
        proof {
            assert(self.users@.take(i as int) =~= self.users@);
        }
        keys
    }

    /// Users as a list shows them.
    pub fn into_user_summaries(
        self,
        room_id: &str,
        bitrate: &TransportBitrateSnapshot,
        health: &TransportHealthSnapshot,
        names: StreamNames,
    ) -> (r: Vec<DiagnosticsUserSummary>)
        requires
            bitrate.per_media.wf(),
            health.wf(),
        ensures
            r@.len() == self.users@.len(),
            forall|i: int|
                0 <= i < r@.len() ==> summarizes(
                    #[trigger] r@[i],
                    room_id@,
                    self.users@[i],
                    bitrate.per_media@,
                    health@,
                    names,
                ),
    {
        let ghost all = self.users@;
        let mut summaries: Vec<DiagnosticsUserSummary> = Vec::new();
        for user in it: self.users
            invariant
                it.seq() == all,
                bitrate.per_media.wf(),
                health.wf(),
                summaries@.len() == it.index(),
                forall|i: int|
                    0 <= i < summaries@.len() ==> summarizes(
                        #[trigger] summaries@[i],
                        room_id@,
                        all[i],
                        bitrate.per_media@,
                        health@,
                        names,
                    ),
        {
            summaries.push(user_summary(room_id, user, &bitrate.per_media, health, names));
        }
        summaries
    }

    /// Adds the room and its users to the summaries of their workers.
    pub fn add_to_worker_summaries(
        self,
        health: &TransportHealthSnapshot,
        workers: &mut OrdMap<MediaWorkerId, DiagnosticsWorkerSummary>,
    )
        requires
            health.wf(),
            old(workers).wf(),
        ensures
            final(workers).wf(),
            final(workers)@ == with_room(
                old(workers)@,
                self.primary_media_worker_id,
                self.users@,
                health@,
            ),
    {
        if self.users.len() == 0 {
            let worker_id = match self.primary_media_worker_id {
                Some(worker) => worker,
                None => MediaWorkerId(0),
            };
            let mut worker = known_worker(workers, worker_id);
            worker.room_count = worker.room_count.saturating_add(1);
            workers.insert(worker_id, worker);
            return ;
        }
        let ghost all = self.users@;
        let ghost before = workers@;
        let mut room_workers: OrdMap<MediaWorkerId, ()> = OrdMap::new();
        proof {
            assert(all.take(0) =~= Seq::<CapturedUserSummary>::empty());
        }
        for user in it: self.users
            invariant
                it.seq() == all,
                health.wf(),
                workers.wf(),
                room_workers.wf(),
                forall|worker: usize| #[trigger]
                    room_workers@.contains_key(worker) <==> occupied(
                        all.take(it.index() as int),
                        worker,
                    ),
                workers@ == with_users(before, all.take(it.index() as int), health@),
        {
            let ghost i = it.index() as int;
            let ghost earlier = all.take(i);
            let ghost done = all.take(i + 1);
            let ghost seen = room_workers@;
            proof {
                assert(done.drop_last() =~= earlier);
                assert(done.last() == user);
            }
            let worker_id = user.session_key.worker;
            let mut worker = known_worker(workers, worker_id);
            if !room_workers.contains_key(&worker_id) {
                room_workers.insert(worker_id, ());
                worker.room_count = worker.room_count.saturating_add(1);
            }
            worker.user_count = worker.user_count.saturating_add(1);
            worker.publication_count = worker.publication_count.saturating_add(
                user.publications.len(),
            );
            worker.subscription_count = worker.subscription_count.saturating_add(
                user.subscription_count,
            );
            match session_health(health, &user.session_key) {
                Some(TransportSessionHealth::Connected) => {
                    worker.connected_user_count = worker.connected_user_count.saturating_add(1);
                },
                Some(TransportSessionHealth::Disconnected) => {
                    worker.disconnected_user_count = worker.disconnected_user_count.saturating_add(
                        1,
                    );
                },
                None => {
                    worker.unknown_user_count = worker.unknown_user_count.saturating_add(1);
                },
            }
            workers.insert(worker_id, worker);
            proof {
                assert forall|w: usize| #[trigger]
                    room_workers@.contains_key(w) <==> occupied(done, w) by {
                    if occupied(done, w) {
                        let j = choose|j: int|
                            0 <= j < done.len() && (#[trigger] done[j]).session_key.worker.0 == w;
                        if j < i {
                            assert(earlier[j].session_key.worker.0 == w);
                        }
                    }
                    if room_workers@.contains_key(w) {
                        if w == worker_id.0 {
                            assert(done[i].session_key.worker.0 == w);
                        } else {
                            assert(seen.contains_key(w));
                            let j = choose|j: int|
                                0 <= j < earlier.len() && (
                                #[trigger] earlier[j]).session_key.worker.0 == w;
                            assert(done[j].session_key.worker.0 == w);
                        }
                    }
                }
            }
        }
        proof {
            assert(all.take(all.len() as int) =~= all);
        }
    }
}

/// The transport session of the current connection of a user.
pub open spec fn is_session_of(st: State, user: UserIdentity, key: TransportSessionKey) -> bool {
    &&& key.room == st.topology.instance
    &&& key.user.id() == user
    &&& key.connection == st.users[user].connection_id
    &&& key.worker == st.topology.placements[user].worker
}

/// The sessions of all users, in user order.
pub open spec fn lists_sessions(st: State, keys: Seq<TransportSessionKey>) -> bool {
    &&& keys.len() == user_order(st.users).len()
    &&& forall|i: int|
        0 <= i < keys.len() ==> is_session_of(st, user_order(st.users)[i], #[trigger] keys[i])
}

/// The publication was made by this connection of the user.
pub open spec fn published_by(
    source: PublishedSource,
    user: UserIdentity,
    connection: ConnectionId,
) -> bool {
    source.descriptor.owner.id() == user && source.transport.session.connection == connection
}

/// Those of the listed publications that this connection made.
pub open spec fn published_of(
    sources: Sources,
    order: Seq<u64>,
    user: UserIdentity,
    connection: ConnectionId,
) -> Seq<PublishedSource>
    decreases order.len(),
{
    if order.len() == 0 {
        seq![]
    } else {
        let before = published_of(sources, order.drop_last(), user, connection);
        if published_by(sources[order.last()], user, connection) {
            before.push(sources[order.last()])
        } else {
            before
        }
    }
}

/// Publications of a connection, in id order.
pub open spec fn own_publications(
    sources: Sources,
    user: UserIdentity,
    connection: ConnectionId,
) -> Seq<PublishedSource> {
    published_of(sources, source_order(sources), user, connection)
}

/// The subscription has a committed route to this connection of its receiver.
pub open spec fn routed_to(
    t: Topology,
    k: SubscriptionIdentity,
    connection: ConnectionId,
) -> bool {
    let s = record(t.graph.subscriptions, k);
    s.routed() && s.current->0.realization->Committed_0.route.consumer_session.connection
        == connection
}

/// The subscription has a setup under way.
pub open spec fn set_up(t: Topology, k: SubscriptionIdentity) -> bool {
    record(t.graph.subscriptions, k).current matches Some(current)
        && current.realization is Pending
}

/// Those of the listed subscriptions with a committed route to this connection.
pub open spec fn routed_of(
    t: Topology,
    keys: Seq<SubscriptionIdentity>,
    connection: ConnectionId,
) -> Seq<SubscriptionIdentity>
    decreases keys.len(),
{
    if keys.len() == 0 {
        seq![]
    } else {
        let before = routed_of(t, keys.drop_last(), connection);
        if routed_to(t, keys.last(), connection) {
            before.push(keys.last())
        } else {
            before
        }
    }
}

/// Those of the listed subscriptions with a setup under way.
pub open spec fn set_up_of(t: Topology, keys: Seq<SubscriptionIdentity>) -> Seq<
    SubscriptionIdentity,
>
    decreases keys.len(),
{
    if keys.len() == 0 {
        seq![]
    } else {
        let before = set_up_of(t, keys.drop_last());
        if set_up(t, keys.last()) {
            before.push(keys.last())
        } else {
            before
        }
    }
}

/// Subscriptions of a receiver, in order.
pub open spec fn receiver_order(t: Topology, user: UserIdentity) -> Seq<SubscriptionIdentity> {
    in_order(receiver_keys(t.graph.subscriptions, user))
}

/// Streams and media of publications.
pub open spec fn media_of(publications: Seq<PublishedSource>) -> Seq<
    (UserStreamId, TransportMediaId),
> {
    publications.map_values(
        |source: PublishedSource| (source.descriptor.stream_id, source.transport.media),
    )
}

/// What user lists capture of a user.
pub open spec fn captures_summary(
    st: State,
    user: UserIdentity,
    summary: CapturedUserSummary,
) -> bool {
    let connection = st.users[user].connection_id;
    let keys = receiver_order(st.topology, user);
    &&& summary.user_id.id() == user
    &&& is_session_of(st, user, summary.session_key)
    &&& summary.publications@ == media_of(own_publications(st.topology.sources, user, connection))
    &&& summary.subscription_count == routed_of(st.topology, keys, connection).len() + set_up_of(
        st.topology,
        keys,
    ).len()
}

/// The first publication of a medium, in id order, carries this stream.
pub open spec fn streams(sources: Sources, media: u64, stream: Seq<char>) -> bool {
    exists|id: u64|
        #![trigger first_with_media(sources, TransportMediaId(media), id)]
        first_with_media(sources, TransportMediaId(media), id)
            && sources[id].descriptor.stream_id.id() == stream
}

/// Incoming bits per second of a stream over the listed media.
pub open spec fn stream_bps(
    sources: Sources,
    per_media: Map<u64, Bitrate>,
    media: Seq<u64>,
    stream: Seq<char>,
) -> nat
    decreases media.len(),
{
    if media.len() == 0 {
        0
    } else {
        let before = stream_bps(sources, per_media, media.drop_last(), stream);
        if streams(sources, media.last(), stream) {
            before + per_media[media.last()].0 as nat
        } else {
            before
        }
    }
}

/// One of the listed media carries the stream.
pub open spec fn streamed(sources: Sources, media: Seq<u64>, stream: Seq<char>) -> bool {
    exists|i: int| 0 <= i < media.len() && streams(sources, #[trigger] media[i], stream)
}

proof fn lemma_streams_unique(sources: Sources, media: u64, a: Seq<char>, b: Seq<char>)
    requires
        streams(sources, media, a),
        streams(sources, media, b),
    ensures
        a == b,
{
    let i = choose|id: u64|
        #![trigger first_with_media(sources, TransportMediaId(media), id)]
        first_with_media(sources, TransportMediaId(media), id)
            && sources[id].descriptor.stream_id.id() == a;
    let j = choose|id: u64|
        #![trigger first_with_media(sources, TransportMediaId(media), id)]
        first_with_media(sources, TransportMediaId(media), id)
            && sources[id].descriptor.stream_id.id() == b;
    assert(sources.contains_key(i) && sources.contains_key(j));
}

impl RoomState {
    /// Sessions of all users, in user order.
    pub fn transport_session_keys(&self) -> (r: Vec<TransportSessionKey>)
        requires
            self.wf(),
        ensures
            lists_sessions(self@, r@),
    {
        let entries = self.transport_user_entries();
        let mut keys: Vec<TransportSessionKey> = Vec::new();
        let mut i: usize = 0;
        proof {
            self.users.lemma_contents();
        }
        while i < entries.len()
            invariant
                self.wf(),
                lists_users(self@.users, entries@),
                enumerates::<UserId>(user_order(self@.users), self@.users.dom()),
                i <= entries@.len(),
                keys@.len() == i,
                forall|j: int|
                    0 <= j < i ==> is_session_of(
                        self@,
                        user_order(self@.users)[j],
                        #[trigger] keys@[j],
                    ),
            decreases entries@.len() - i,
        {
            let ghost user = user_order(self@.users)[i as int];
            proof {
                assert(entries@[i as int].0.id() == user);
                assert(user_order(self@.users).contains(user));
                assert(self@.users.contains_key(user));
            }
            keys.push(self.transport_user_key(&entries[i].0, entries[i].1));
            i = i + 1;
        }
        keys
    }

    /// What summaries show of the room.
    pub fn overview_capture(
        &self,
        primary_media_worker_id: Option<MediaWorkerId>,
        recording_state: RecordingState,
    ) -> (r: RoomOverviewCapture)
        requires
            self.wf(),
        ensures
            r.media_counts.publications == source_order(self@.topology.sources).len(),
            r.media_counts.subscriptions == in_order(
                realizing_keys(self@.topology.graph.subscriptions),
            ).len(),
            r.primary_media_worker_id == primary_media_worker_id,
            r.recording_state == recording_state,
            lists_sessions(self@, r.session_keys@),
    {
        RoomOverviewCapture {
            media_counts: self.topology.media_counts(),
            primary_media_worker_id,
            recording_state,
            session_keys: self.transport_session_keys(),
        }
    }

    fn captured_media(&self, user_id: &UserId, connection_id: ConnectionId) -> (r: Vec<
        (UserStreamId, TransportMediaId),
    >)
        requires
            self.wf(),
        ensures
            r@ == media_of(
                own_publications(self@.topology.sources, user_id.id(), connection_id),
            ),
    {
        let ghost sources = self@.topology.sources;
        let ghost order = source_order(sources);
        let mut media: Vec<(UserStreamId, TransportMediaId)> = Vec::new();
        let count: usize = self.topology.publication_count();
        let mut i: usize = 0;
        proof {
            assert(order.take(0) =~= Seq::<u64>::empty());
            assert(media@ =~= media_of(seq![]));
        }
        while i < count
            invariant
                self.wf(),
                sources == self@.topology.sources,
                order == source_order(sources),
                count == order.len(),
                i <= count,
                media@ == media_of(
                    published_of(sources, order.take(i as int), user_id.id(), connection_id),
                ),
            decreases count - i,
        {
            let ghost before = published_of(
                sources,
                order.take(i as int),
                user_id.id(),
                connection_id,
            );
            proof {
                assert(order.take(i + 1).drop_last() =~= order.take(i as int));
                assert(order.take(i + 1).last() == order[i as int]);
            }
            let source = self.topology.publication(i);
            if same(&source.descriptor.owner, user_id) && source.transport.session.connection
                == connection_id {
                media.push((source.descriptor.stream_id.clone(), source.transport.media));
                proof {
                    assert(media@ =~= media_of(before.push(*source)));
                }
            }
            i = i + 1;
        }
        proof {
            assert(order.take(i as int) =~= order);
        }
        media
    }

    fn captured_subscription_count(&self, user_id: &UserId, connection_id: ConnectionId) -> (r: usize)
        requires
            self.wf(),
        ensures
            r == routed_of(
                self@.topology,
                receiver_order(self@.topology, user_id.id()),
                connection_id,
            ).len() + set_up_of(self@.topology, receiver_order(self@.topology, user_id.id())).len(),
    {
        let ghost t = self@.topology;
        let keys = self.topology.receiver_subscriptions(user_id);
        let ghost ids = ids_of(keys@);
        let mut count: usize = 0;
        let mut i: usize = 0;
        proof {
            lemma_in_order(ids, receiver_keys(t.graph.subscriptions, user_id.id()));
            assert(ids.take(0) =~= Seq::<SubscriptionIdentity>::empty());
        }
        while i < keys.len()
            invariant
                self.wf(),
                t == self@.topology,
                ids == ids_of(keys@),
                i <= keys@.len(),
                count <= i,
                count == routed_of(t, ids.take(i as int), connection_id).len() + set_up_of(
                    t,
                    ids.take(i as int),
                ).len(),
            decreases keys@.len() - i,
        {
            proof {
                assert(ids.take(i + 1).drop_last() =~= ids.take(i as int));
                assert(ids.take(i + 1).last() == ids[i as int]);
            }
            let counts = match self.topology.current(&keys[i]) {
                None => false,
                Some(current) => match &current.realization {
                    ConsumerRealization::Absent => false,
                    ConsumerRealization::Pending(_, _) => true,
                    ConsumerRealization::Committed(committed) => {
                        committed.route.consumer_session.connection == connection_id
                    },
                },
            };
            if counts {
                count = count + 1;
            }
            i = i + 1;
        }
        proof {
            assert(ids.take(i as int) =~= ids);
        }
        count
    }

    /// What user lists show of the users, in user order.
    pub fn captured_user_summaries(&self) -> (r: Vec<CapturedUserSummary>)
        requires
            self.wf(),
        ensures
            r@.len() == user_order(self@.users).len(),
            forall|i: int|
                0 <= i < r@.len() ==> captures_summary(
                    self@,
                    user_order(self@.users)[i],
                    #[trigger] r@[i],
                ),
    {
        let entries = self.transport_user_entries();
        let mut summaries: Vec<CapturedUserSummary> = Vec::new();
        let mut i: usize = 0;
        proof {
            self.users.lemma_contents();
        }
        while i < entries.len()
            invariant
                self.wf(),
                lists_users(self@.users, entries@),
                enumerates::<UserId>(user_order(self@.users), self@.users.dom()),
                i <= entries@.len(),
                summaries@.len() == i,
                forall|j: int|
                    0 <= j < i ==> captures_summary(
                        self@,
                        user_order(self@.users)[j],
                        #[trigger] summaries@[j],
                    ),
            decreases entries@.len() - i,
        {
            let ghost user = user_order(self@.users)[i as int];
            proof {
                assert(entries@[i as int].0.id() == user);
                assert(user_order(self@.users).contains(user));
                assert(self@.users.contains_key(user));
            }
            let user_id = &entries[i].0;
            let connection_id = entries[i].1;
            summaries.push(
                CapturedUserSummary {
                    publications: self.captured_media(user_id, connection_id),
                    session_key: self.transport_user_key(user_id, connection_id),
                    subscription_count: self.captured_subscription_count(user_id, connection_id),
                    user_id: user_id.clone(),
                },
            );
            i = i + 1;
        }
        summaries
    }

    /// What user lists and worker summaries show of the room.
    pub fn diagnostics_users_capture(&self, primary_media_worker_id: Option<MediaWorkerId>) -> (r:
        RoomUsersCapture)
        requires
            self.wf(),
        ensures
            r.primary_media_worker_id == primary_media_worker_id,
            r.users@.len() == user_order(self@.users).len(),
            forall|i: int|
                0 <= i < r.users@.len() ==> captures_summary(
                    self@,
                    user_order(self@.users)[i],
                    #[trigger] r.users@[i],
                ),
    {
        RoomUsersCapture { primary_media_worker_id, users: self.captured_user_summaries() }
    }

    /// Adds up the incoming bitrates of a room by stream. Media that nobody publishes
    /// count in the total alone.
    pub fn session_stats(&self, snapshot: &TransportBitrateSnapshot) -> (r: RoomUserStatsSnapshot)
        requires
            self.wf(),
            snapshot.per_media.wf(),
        ensures
            are_stats(self@, *snapshot, r),
    {
        let ghost sources = self@.topology.sources;
        let ghost per_media = snapshot.per_media@;
        let ghost media = snapshot.per_media.ids();
        let mut by_stream: OrdMap<UserStreamId, u64> = OrdMap::new();
        let count: usize = snapshot.per_media.len();
        let mut i: usize = 0;
        proof {
            snapshot.per_media.lemma_contents();
            assert(media.take(0) =~= Seq::<u64>::empty());
        }
        while i < count
            invariant
                self.wf(),
                sources == self@.topology.sources,
                snapshot.per_media.wf(),
                per_media == snapshot.per_media@,
                media == snapshot.per_media.ids(),
                count == media.len(),
                i <= count,
                by_stream.wf(),
                forall|stream: Seq<char>| #[trigger]
                    by_stream@.contains_key(stream) <==> streamed(
                        sources,
                        media.take(i as int),
                        stream,
                    ),
                forall|stream: Seq<char>|
                    (#[trigger] stream_bps(sources, per_media, media.take(i as int), stream)) == 0
                        || by_stream@.contains_key(stream),
                forall|stream: Seq<char>| #[trigger]
                    by_stream@.contains_key(stream) ==> by_stream@[stream] == capped(
                        stream_bps(sources, per_media, media.take(i as int), stream) as int,
                    ),
            decreases count - i,
        {
            let ghost earlier = media.take(i as int);
            let ghost done = media.take(i + 1);
            let ghost before = by_stream@;
            let transport_media_id = *snapshot.per_media.key(i);
            let bits: u64 = snapshot.per_media.value(i).as_bps();
            proof {
                assert(done.drop_last() =~= earlier);
                assert(done.last() == transport_media_id.0);
                assert forall|stream: Seq<char>|
                    streamed(sources, done, stream) <==> (streamed(sources, earlier, stream)
                        || streams(sources, transport_media_id.0, stream)) by {
                    if streamed(sources, done, stream) {
                        let j = choose|j: int|
                            0 <= j < done.len() && streams(sources, #[trigger] done[j], stream);
                        if j < i {
                            assert(streams(sources, earlier[j], stream));
                        }
                    }
                    if streamed(sources, earlier, stream) {
                        let j = choose|j: int|
                            0 <= j < earlier.len() && streams(sources, #[trigger] earlier[j], stream);
                        assert(streams(sources, done[j], stream));
                    }
                    if streams(sources, transport_media_id.0, stream) {
                        assert(streams(sources, done[i as int], stream));
                    }
                }
            }
            match self.producer_stream_id_for_transport_media_id(transport_media_id) {
                None => {
                    proof {
                        assert forall|stream: Seq<char>| !streams(
                            sources,
                            transport_media_id.0,
                            stream,
                        ) by {
                            if streams(sources, transport_media_id.0, stream) {
                                let id = choose|id: u64|
                                    #![trigger first_with_media(sources, transport_media_id, id)]
                                    first_with_media(sources, transport_media_id, id)
                                        && sources[id].descriptor.stream_id.id() == stream;
                                assert(sources.contains_key(id));
                            }
                        }
                        assert forall|stream: Seq<char>| #[trigger]
                            stream_bps(sources, per_media, done, stream) == stream_bps(
                                sources,
                                per_media,
                                earlier,
                                stream,
                            ) by {}
                    }
                },
                Some(stream_id) => {
                    let known: u64 = match by_stream.get(&stream_id) {
                        Some(known) => *known,
                        None => 0,
                    };
                    let ghost own = stream_id.id();
                    by_stream.insert(stream_id, known.saturating_add(bits));
                    proof {
                        assert(streams(sources, transport_media_id.0, own));
                        assert(stream_bps(sources, per_media, earlier, own) == 0
                            || before.contains_key(own));
                        assert forall|stream: Seq<char>| stream != own implies #[trigger] stream_bps(
                            sources,
                            per_media,
                            done,
                            stream,
                        ) == stream_bps(sources, per_media, earlier, stream) && !streams(
                            sources,
                            transport_media_id.0,
                            stream,
                        ) by {
                            if streams(sources, transport_media_id.0, stream) {
                                lemma_streams_unique(sources, transport_media_id.0, stream, own);
                            }
                        }
                        assert(stream_bps(sources, per_media, done, own) == stream_bps(
                            sources,
                            per_media,
                            earlier,
                            own,
                        ) + bits);
                        assert forall|stream: Seq<char>| #[trigger]
                            by_stream@.contains_key(stream) <==> streamed(
                                sources,
                                done,
                                stream,
                            ) by {
                            if stream != own {
                                assert(stream_bps(sources, per_media, done, stream) == stream_bps(
                                    sources,
                                    per_media,
                                    earlier,
                                    stream,
                                ));
                            }
                        }
                        assert forall|stream: Seq<char>| #[trigger]
                            by_stream@.contains_key(stream) implies by_stream@[stream] == capped(
                            stream_bps(sources, per_media, done, stream) as int,
                        ) by {
                            if stream != own {
                                assert(before.contains_key(stream));
                            }
                        }
                    }
                },
            }
            i = i + 1;
        }
        proof {
            assert(media.take(i as int) =~= media);
        }
        RoomUserStatsSnapshot {
            incoming_bitrate: IncomingBitrateSnapshot { total: snapshot.total.as_bps(), by_stream },
            count: self.user_count() as u64,
            active_stream_counts: self.topology.active_stream_user_counts(),
        }
    }
}

/// What is reported of a room's users: how many there are, how many publish each stream
/// actively, and what comes in of each stream that the transport has a reading of.
pub open spec fn are_stats(
    st: State,
    snapshot: TransportBitrateSnapshot,
    r: RoomUserStatsSnapshot,
) -> bool {
    let media = sorted::<TransportMediaId>(snapshot.per_media@.dom());
    let by_stream = r.incoming_bitrate.by_stream;
    &&& r.incoming_bitrate.total == snapshot.total.0
    &&& by_stream.wf()
    &&& forall|stream: Seq<char>| #[trigger]
        by_stream@.contains_key(stream) <==> streamed(st.topology.sources, media, stream)
    &&& forall|stream: Seq<char>| #[trigger]
        by_stream@.contains_key(stream) ==> by_stream@[stream] == capped(
            stream_bps(st.topology.sources, snapshot.per_media@, media, stream) as int,
        )
    &&& r.count == user_order(st.users).len()
    &&& r.active_stream_counts.wf()
    &&& counts_users(st.topology.sources, r.active_stream_counts@)
}

/// State of a route.
#[derive(Debug, Clone, Copy, PartialEq, Eq, Structural)]
pub enum DiagnosticsRouteState {
    Active,
    Inactive,
    Pending,
}

/// A subscription of a user.
#[derive(Debug, PartialEq, Eq)]
pub struct DiagnosticsSubscription {
    pub consumer_transport_media_id: Option<u64>,
    pub layout_priority: Option<DiagnosticsVideoRoutePriority>,
    pub layout_role: Option<DiagnosticsVideoLayoutRole>,
    pub producer_user_id: UserId,
    pub selection: DiagnosticsSourceSelection,
    pub source_id: u64,
    pub source_transport_media_id: Option<u64>,
    pub state: DiagnosticsRouteState,
    pub stream_id: String,
}

/// Numbers of encodings.
pub open spec fn encoding_numbers(encodings: Seq<SourceEncodingDescriptor>) -> Seq<u64> {
    encodings.map_values(|encoding: SourceEncodingDescriptor| encoding.encoding_id.0)
}

/// How a publication is shown.
pub open spec fn shows_publication(
    publication: DiagnosticsPublication,
    source: PublishedSource,
) -> bool {
    &&& publication.active == source.active
    &&& publication.encoding_ids@ == encoding_numbers(source.descriptor.encodings@)
    &&& publication.media_kind == shown_kind(source.descriptor.media_kind)
    &&& publication.source_id == source.descriptor.source_id.0
    &&& publication.stream_id == source.descriptor.stream_id.0
    &&& publication.transport_media_id == Some(source.transport.media.0)
}

/// How a kind of media is shown.
pub open spec fn shown_kind(kind: MediaKind) -> DiagnosticsMediaKind {
    vstd::std_specs::convert::FromSpec::from_spec(kind)
}

/// Where the layout of a receiver places a video source.
pub open spec fn shown_layout(
    t: Topology,
    receiver: UserIdentity,
    source: PublishedSourceDescriptor,
) -> Option<SourceRoomPolicySelector> {
    if source.media_kind == MediaKind::Video {
        Some(
            layout_role(
                record(
                    t.graph.subscriptions,
                    SubscriptionIdentity {
                        receiver,
                        publisher: source.owner.id(),
                        stream: source.stream_id.id(),
                    },
                ).intent.layout,
                source.policy.layout,
            ),
        )
    } else {
        None
    }
}

/// How a subscription is shown: its route where one is committed, else its setup.
pub open spec fn shown_subscription(
    t: Topology,
    k: SubscriptionIdentity,
    now: Moment,
) -> DiagnosticsSubscription {
    let current = record(t.graph.subscriptions, k).current->0;
    let source = t.sources[current.source_id.0];
    let layout = shown_layout(t, k.receiver, source.descriptor);
    let committed = current.realization is Committed;
    let route = current.realization->Committed_0;
    DiagnosticsSubscription {
        consumer_transport_media_id: if committed {
            Some(route.route.consumer_media.0)
        } else {
            None
        },
        layout_priority: match layout {
            Some(role) => Some(
                vstd::std_specs::convert::FromSpec::from_spec(role.route_priority()),
            ),
            None => None,
        },
        layout_role: match layout {
            Some(role) => Some(vstd::std_specs::convert::FromSpec::from_spec(role)),
            None => None,
        },
        producer_user_id: source.descriptor.owner,
        selection: shown_selection(
            source.descriptor,
            current.selection,
            if committed {
                route.pending_upgrade
            } else {
                None
            },
            now,
        ),
        source_id: source.descriptor.source_id.0,
        source_transport_media_id: Some(
            if committed {
                route.route.source.media.0
            } else {
                source.transport.media.0
            },
        ),
        state: if !committed {
            DiagnosticsRouteState::Pending
        } else if source.active && current.selection.delivers() {
            DiagnosticsRouteState::Active
        } else {
            DiagnosticsRouteState::Inactive
        },
        stream_id: source.descriptor.stream_id.0,
    }
}

/// How the listed subscriptions are shown.
pub open spec fn shown_subscriptions(
    t: Topology,
    keys: Seq<SubscriptionIdentity>,
    now: Moment,
) -> Seq<DiagnosticsSubscription> {
    keys.map_values(|k: SubscriptionIdentity| shown_subscription(t, k, now))
}

/// Subscriptions of a connection: its routes, and then the setups of its user.
pub open spec fn own_subscriptions(
    t: Topology,
    user: UserIdentity,
    connection: ConnectionId,
    now: Moment,
) -> Seq<DiagnosticsSubscription> {
    let keys = receiver_order(t, user);
    shown_subscriptions(t, routed_of(t, keys, connection), now) + shown_subscriptions(
        t,
        set_up_of(t, keys),
        now,
    )
}

/// What user views capture of a user.
#[derive(Debug)]
pub struct CapturedUser {
    pub publications: Vec<DiagnosticsPublication>,
    pub session_key: TransportSessionKey,
    pub subscriptions: Vec<DiagnosticsSubscription>,
    pub user_id: UserId,
    pub user_info: UserInfo,
    pub video_soft_pause_remaining_ms: Option<u64>,
}

/// The publications are shown, one for one.
pub open spec fn shows_publications(
    publications: Seq<DiagnosticsPublication>,
    sources: Seq<PublishedSource>,
) -> bool {
    &&& publications.len() == sources.len()
    &&& forall|i: int|
        0 <= i < publications.len() ==> shows_publication(#[trigger] publications[i], sources[i])
}

/// What user views capture of a connected user.
pub open spec fn captures_user(
    st: State,
    user: UserIdentity,
    captured: CapturedUser,
    now: Moment,
) -> bool {
    let connection = st.users[user].connection_id;
    &&& captured.user_id.id() == user
    &&& is_session_of(st, user, captured.session_key)
    &&& shows_publications(
        captured.publications@,
        own_publications(st.topology.sources, user, connection),
    )
    &&& captured.subscriptions@ == own_subscriptions(st.topology, user, connection, now)
    &&& captured.user_info == st.users[user].info
    &&& captured.video_soft_pause_remaining_ms == match st.users[user].video_soft_pause_deadline {
        Some(deadline) => Some(millis(remaining(deadline, now))),
        None => None,
    }
}

/// What detail views capture of a publication.
#[derive(Debug)]
pub struct CapturedSource {
    pub active: bool,
    pub descriptor: PublishedSourceDescriptor,
    pub source_key: TransportSourceKey,
}

/// The descriptor is a copy of the other.
pub open spec fn copies(copy: PublishedSourceDescriptor, of: PublishedSourceDescriptor) -> bool {
    &&& copy.source_id == of.source_id
    &&& copy.owner == of.owner
    &&& copy.stream_id == of.stream_id
    &&& copy.media_kind == of.media_kind
    &&& copy.policy == of.policy
    &&& copy.mid == of.mid
    &&& copy.encodings@ == of.encodings@
}

fn copy_encoding(encoding: &SourceEncodingDescriptor) -> (r: SourceEncodingDescriptor)
    ensures
        r == *encoding,
{
    SourceEncodingDescriptor {
        encoding_id: encoding.encoding_id,
        source_id: encoding.source_id,
        rid: clone_text(&encoding.rid),
        primary_ssrc: encoding.primary_ssrc,
        repair_ssrc: encoding.repair_ssrc,
        max_bitrate: encoding.max_bitrate,
        resolution_scale: encoding.resolution_scale,
        max_framerate: encoding.max_framerate,
        policy_role: encoding.policy_role,
        negotiated_format: match &encoding.negotiated_format {
            Some(format) => Some(format.clone()),
            None => None,
        },
    }
}

fn copy_descriptor(descriptor: &PublishedSourceDescriptor) -> (r: PublishedSourceDescriptor)
    ensures
        copies(r, *descriptor),
{
    let mut encodings: Vec<SourceEncodingDescriptor> = Vec::new();
    let mut i: usize = 0;
    while i < descriptor.encodings.len()
        invariant
            i <= descriptor.encodings@.len(),
            encodings@ == descriptor.encodings@.take(i as int),
        decreases descriptor.encodings@.len() - i,
    {
        encodings.push(copy_encoding(&descriptor.encodings[i]));
        proof {
            assert(encodings@ =~= descriptor.encodings@.take(i + 1));
        }
        i = i + 1;
    }
    proof {
        assert(encodings@ =~= descriptor.encodings@);
    }
    PublishedSourceDescriptor {
        source_id: descriptor.source_id,
        owner: descriptor.owner.clone(),
        stream_id: descriptor.stream_id.clone(),
        media_kind: descriptor.media_kind,
        policy: descriptor.policy,
        mid: clone_text(&descriptor.mid),
        encodings,
    }
}

/// What detail views capture of a publication.
pub open spec fn captures_source(captured: CapturedSource, source: PublishedSource) -> bool {
    &&& captured.active == source.active
    &&& copies(captured.descriptor, source.descriptor)
    &&& captured.source_key == source.transport
}

/// What room details show of a room.
#[derive(Debug)]
pub struct RoomDetailCapture {
    pub overview: RoomOverviewCapture,
    pub sources: Vec<CapturedSource>,
    pub users: Vec<CapturedUser>,
}

/// What the view of a single user shows.
#[derive(Debug)]
pub struct RoomUserCapture {
    pub recording_state: RecordingState,
    pub user: CapturedUser,
}

impl RoomState {
    /// Publications of a connection, in id order.
    pub fn diagnostics_publications(&self, user_id: &UserId, connection_id: ConnectionId) -> (r: Vec<
        DiagnosticsPublication,
    >)
        requires
            self.wf(),
        ensures
            shows_publications(
                r@,
                own_publications(self@.topology.sources, user_id.id(), connection_id),
            ),
    {
        let ghost sources = self@.topology.sources;
        let ghost order = source_order(sources);
        let mut publications: Vec<DiagnosticsPublication> = Vec::new();
        let count: usize = self.topology.publication_count();
        let mut i: usize = 0;
        proof {
            assert(order.take(0) =~= Seq::<u64>::empty());
        }
        while i < count
            invariant
                self.wf(),
                sources == self@.topology.sources,
                order == source_order(sources),
                count == order.len(),
                i <= count,
                shows_publications(
                    publications@,
                    published_of(sources, order.take(i as int), user_id.id(), connection_id),
                ),
            decreases count - i,
        {
            proof {
                assert(order.take(i + 1).drop_last() =~= order.take(i as int));
                assert(order.take(i + 1).last() == order[i as int]);
            }
            let publication = self.topology.publication(i);
            if same(&publication.descriptor.owner, user_id)
                && publication.transport.session.connection == connection_id {
                let source = &publication.descriptor;
                let mut encoding_ids: Vec<u64> = Vec::new();
                let mut j: usize = 0;
                while j < source.encodings.len()
                    invariant
                        j <= source.encodings@.len(),
                        encoding_ids@ == encoding_numbers(source.encodings@.take(j as int)),
                    decreases source.encodings@.len() - j,
                {
                    encoding_ids.push(source.encodings[j].encoding_id.0);
                    proof {
                        assert(encoding_ids@ =~= encoding_numbers(source.encodings@.take(j + 1)));
                    }
                    j = j + 1;
                }
                proof {
                    assert(source.encodings@.take(j as int) =~= source.encodings@);
                }
                publications.push(
                    DiagnosticsPublication {
                        active: publication.active,
                        encoding_ids,
                        media_kind: DiagnosticsMediaKind::from(source.media_kind),
                        source_id: source.source_id.0,
                        stream_id: source.stream_id.0.clone(),
                        transport_media_id: Some(publication.transport.media.0),
                    },
                );
            }
            i = i + 1;
        }
        proof {
            assert(order.take(i as int) =~= order);
        }
        publications
    }

    /// Where the layout of a receiver places a video source.
    pub fn diagnostics_video_layout_role(
        &self,
        user_id: &UserId,
        source: &PublishedSourceDescriptor,
    ) -> (r: Option<SourceRoomPolicySelector>)
        requires
            self.wf(),
        ensures
            r == shown_layout(self@.topology, user_id.id(), *source),
    {
        if source.media_kind == MediaKind::Video {
            Some(self.receiver_video_layout_role(user_id, source))
        } else {
            None
        }
    }

    fn project_subscription(&self, key: &SubscriptionKey, current: &CurrentPublication, now: Moment) -> (r:
        Option<DiagnosticsSubscription>)
        requires
            self.wf(),
            attachment(self@.topology.graph.subscriptions, key.id()) == Some(*current),
            self@.topology.sources.contains_key(current.source_id.0),
        ensures
            r == Some(shown_subscription(self@.topology, key.id(), now)),
    {
        match self.topology.published_source(current.source_id) {
            None => None,
            Some(published) => {
                let source = &published.descriptor;
                let layout = self.diagnostics_video_layout_role(&key.receiver, source);
                let (consumer_media, source_media, pending_upgrade, state) =
                    match &current.realization {
                    ConsumerRealization::Committed(committed) => (
                        Some(committed.route.consumer_media.0),
                        committed.route.source.media.0,
                        committed.pending_upgrade,
                        if published.active && current.selection.delivery_active() {
                            DiagnosticsRouteState::Active
                        } else {
                            DiagnosticsRouteState::Inactive
                        },
                    ),
                    _ => (None, published.transport.media.0, None, DiagnosticsRouteState::Pending),
                };
                Some(
                    DiagnosticsSubscription {
                        consumer_transport_media_id: consumer_media,
                        layout_priority: match layout {
                            Some(role) => Some(
                                DiagnosticsVideoRoutePriority::from(role.priority()),
                            ),
                            None => None,
                        },
                        layout_role: match layout {
                            Some(role) => Some(DiagnosticsVideoLayoutRole::from(role)),
                            None => None,
                        },
                        producer_user_id: source.owner.clone(),
                        selection: selection(source, current.selection, pending_upgrade, now),
                        source_id: source.source_id.0,
                        source_transport_media_id: Some(source_media),
                        state,
                        stream_id: source.stream_id.0.clone(),
                    },
                )
            },
        }
    }

    /// Subscriptions of a connection: its routes, and then the setups of its user.
    pub fn diagnostics_subscriptions(
        &self,
        user_id: &UserId,
        connection_id: ConnectionId,
        now: Moment,
    ) -> (r: Vec<DiagnosticsSubscription>)
        requires
            self.wf(),
        ensures
            r@ == own_subscriptions(self@.topology, user_id.id(), connection_id, now),
    {
        let ghost t = self@.topology;
        let keys = self.topology.receiver_subscriptions(user_id);
        let ghost ids = ids_of(keys@);
        let mut subscriptions: Vec<DiagnosticsSubscription> = Vec::new();
        let mut pending: Vec<DiagnosticsSubscription> = Vec::new();
        let mut i: usize = 0;
        proof {
            lemma_in_order(ids, receiver_keys(t.graph.subscriptions, user_id.id()));
            assert(ids.take(0) =~= Seq::<SubscriptionIdentity>::empty());
            assert(subscriptions@ =~= shown_subscriptions(t, seq![], now));
            assert(pending@ =~= shown_subscriptions(t, seq![], now));
        }
        while i < keys.len()
            invariant
                self.wf(),
                t == self@.topology,
                ids == ids_of(keys@),
                i <= keys@.len(),
                subscriptions@ == shown_subscriptions(
                    t,
                    routed_of(t, ids.take(i as int), connection_id),
                    now,
                ),
                pending@ == shown_subscriptions(t, set_up_of(t, ids.take(i as int)), now),
            decreases keys@.len() - i,
        {
            let ghost id = ids[i as int];
            let ghost routed = routed_of(t, ids.take(i as int), connection_id);
            let ghost setups = set_up_of(t, ids.take(i as int));
            proof {
                assert(ids.take(i + 1).drop_last() =~= ids.take(i as int));
                assert(ids.take(i + 1).last() == id);
            }
            match self.topology.current(&keys[i]) {
                None => {},
                Some(current) => match &current.realization {
                    ConsumerRealization::Absent => {},
                    ConsumerRealization::Pending(_, _) => {
                        match self.project_subscription(&keys[i], current, now) {
                            None => {},
                            Some(shown) => {
                                pending.push(shown);
                                proof {
                                    assert(pending@ =~= shown_subscriptions(
                                        t,
                                        setups.push(id),
                                        now,
                                    ));
                                }
                            },
                        }
                    },
                    ConsumerRealization::Committed(committed) => {
                        if committed.route.consumer_session.connection == connection_id {
                            match self.project_subscription(&keys[i], current, now) {
                                None => {},
                                Some(shown) => {
                                    subscriptions.push(shown);
                                    proof {
                                        assert(subscriptions@ =~= shown_subscriptions(
                                            t,
                                            routed.push(id),
                                            now,
                                        ));
                                    }
                                },
                            }
                        }
                    },
                },
            }
            i = i + 1;
        }
        proof {
            assert(ids.take(i as int) =~= ids);
        }
        subscriptions.append(&mut pending);
        subscriptions
    }

    /// What user views show of a user, while this exact connection is current.
    pub fn captured_user(&self, user_id: &UserId, connection_id: ConnectionId, now: Moment) -> (r:
        Option<CapturedUser>)
        requires
            self.wf(),
        ensures
            match r {
                Some(captured) => self@.current(user_id.id(), connection_id) && captures_user(
                    self@,
                    user_id.id(),
                    captured,
                    now,
                ),
                None => !self@.current(user_id.id(), connection_id),
            },
    {
        match self.user_for_connection(user_id, connection_id) {
            None => None,
            Some(user) => Some(
                CapturedUser {
                    publications: self.diagnostics_publications(user_id, connection_id),
                    session_key: self.transport_user_key(user_id, connection_id),
                    subscriptions: self.diagnostics_subscriptions(user_id, connection_id, now),
                    video_soft_pause_remaining_ms: match user.video_soft_pause_deadline {
                        Some(deadline) => Some(duration_millis(time_until(deadline, now))),
                        None => None,
                    },
                    user_info: user.info,
                    user_id: user_id.clone(),
                },
            ),
        }
    }

    /// What room details show of the room.
    pub fn diagnostics_detail_capture(
        &self,
        primary_media_worker_id: Option<MediaWorkerId>,
        recording_state: RecordingState,
        now: Moment,
    ) -> (r: RoomDetailCapture)
        requires
            self.wf(),
        ensures
            r.overview.media_counts.publications == source_order(self@.topology.sources).len(),
            r.overview.media_counts.subscriptions == in_order(
                realizing_keys(self@.topology.graph.subscriptions),
            ).len(),
            r.overview.primary_media_worker_id == primary_media_worker_id,
            r.overview.recording_state == recording_state,
            lists_sessions(self@, r.overview.session_keys@),
            r.sources@.len() == source_order(self@.topology.sources).len(),
            forall|i: int|
                0 <= i < r.sources@.len() ==> captures_source(
                    #[trigger] r.sources@[i],
                    self@.topology.sources[source_order(self@.topology.sources)[i]],
                ),
            r.users@.len() == user_order(self@.users).len(),
            forall|i: int|
                0 <= i < r.users@.len() ==> captures_user(
                    self@,
                    user_order(self@.users)[i],
                    #[trigger] r.users@[i],
                    now,
                ),
    {
        let entries = self.transport_user_entries();
        let mut users: Vec<CapturedUser> = Vec::new();
        let mut i: usize = 0;
        proof {
            self.users.lemma_contents();
        }
        while i < entries.len()
            invariant
                self.wf(),
                lists_users(self@.users, entries@),
                enumerates::<UserId>(user_order(self@.users), self@.users.dom()),
                i <= entries@.len(),
                users@.len() == i,
                forall|j: int|
                    0 <= j < i ==> captures_user(
                        self@,
                        user_order(self@.users)[j],
                        #[trigger] users@[j],
                        now,
                    ),
            decreases entries@.len() - i,
        {
            let ghost user = user_order(self@.users)[i as int];
            proof {
                assert(entries@[i as int].0.id() == user);
                assert(user_order(self@.users).contains(user));
                assert(self@.users.contains_key(user));
            }
            match self.captured_user(&entries[i].0, entries[i].1, now) {
                Some(captured) => {
                    users.push(captured);
                },
                None => {},
            }
            i = i + 1;
        }
        let mut sources: Vec<CapturedSource> = Vec::new();
        let count: usize = self.topology.publication_count();
        let mut j: usize = 0;
        while j < count
            invariant
                self.wf(),
                count == source_order(self@.topology.sources).len(),
                j <= count,
                sources@.len() == j,
                forall|k: int|
                    0 <= k < j ==> captures_source(
                        #[trigger] sources@[k],
                        self@.topology.sources[source_order(self@.topology.sources)[k]],
                    ),
            decreases count - j,
        {
            let source = self.topology.publication(j);
            sources.push(
                CapturedSource {
                    active: source.active,
                    descriptor: copy_descriptor(&source.descriptor),
                    source_key: source.transport.clone(),
                },
            );
            j = j + 1;
        }
        RoomDetailCapture {
            overview: self.overview_capture(primary_media_worker_id, recording_state),
            sources,
            users,
        }
    }

    /// What the view of a single user shows, while this exact connection is current.
    pub fn diagnostics_user_capture(
        &self,
        user_id: &UserId,
        connection_id: ConnectionId,
        recording_state: RecordingState,
        now: Moment,
    ) -> (r: Option<RoomUserCapture>)
        requires
            self.wf(),
        ensures
            match r {
                Some(capture) => self@.current(user_id.id(), connection_id) && captures_user(
                    self@,
                    user_id.id(),
                    capture.user,
                    now,
                ) && capture.recording_state == recording_state,
                None => !self@.current(user_id.id(), connection_id),
            },
    {
        match self.captured_user(user_id, connection_id, now) {
            Some(user) => Some(RoomUserCapture { recording_state, user }),
            None => None,
        }
    }
}

/// Transport of a user.
pub struct DiagnosticsUserTransport {
    pub video_soft_pause_remaining_ms: Option<u64>,
    pub connection_id: u64,
    pub health: Option<TransportSessionHealth>,
    pub media_worker_id: usize,
    pub quality_summary: DiagnosticsQualitySummary,
}

/// A user with all of its media.
pub struct DiagnosticsUserView {
    pub publications: Vec<DiagnosticsPublication>,
    pub subscriptions: Vec<DiagnosticsSubscription>,
    pub transport: DiagnosticsUserTransport,
    pub user_id: UserId,
    pub user_info: UserInfo,
}

/// The bitrates of publications are added up.
pub open spec fn adds_up(
    incoming: DiagnosticsIncomingBitrate,
    publications: Seq<DiagnosticsPublication>,
    per_media: Map<u64, Bitrate>,
) -> bool {
    &&& incoming.by_stream_bps.wf()
    &&& incoming.total == capped(publications_bps(publications, per_media, None) as int)
    &&& forall|stream: Seq<char>| #[trigger]
        incoming.by_stream_bps@.contains_key(stream) <==> carries(publications, stream)
    &&& forall|stream: Seq<char>| #[trigger]
        incoming.by_stream_bps@.contains_key(stream) ==> incoming.by_stream_bps@[stream]
            == capped(publications_bps(publications, per_media, Some(stream)) as int)
}

/// Quality of a session; nothing where the transport did not sample it.
pub open spec fn quality_of(
    quality: Map<SessionIdentity, TransportQualitySample>,
    key: SessionIdentity,
) -> Option<TransportQualitySample> {
    if quality.contains_key(key) {
        Some(quality[key])
    } else {
        None
    }
}

/// A captured user as its view shows it.
pub open spec fn views_user(
    view: DiagnosticsUserView,
    user: CapturedUser,
    per_media: Map<u64, Bitrate>,
    quality: Map<SessionIdentity, TransportQualitySample>,
    health: Map<SessionIdentity, TransportSessionHealth>,
) -> bool {
    &&& view.publications == user.publications
    &&& view.subscriptions == user.subscriptions
    &&& view.user_id == user.user_id
    &&& view.user_info == user.user_info
    &&& view.transport.video_soft_pause_remaining_ms == user.video_soft_pause_remaining_ms
    &&& view.transport.connection_id == user.session_key.connection.0
    &&& view.transport.health == health_of(health, user.session_key.id())
    &&& view.transport.media_worker_id == user.session_key.worker.0
    &&& view.transport.quality_summary == summarized_quality(
        view.transport.quality_summary.current_incoming_bitrate,
        quality_of(quality, user.session_key.id()),
    )
    &&& adds_up(
        view.transport.quality_summary.current_incoming_bitrate,
        user.publications@,
        per_media,
    )
}

/// Combines what was captured of a user with the transport of the room.
pub fn user_view(
    user: CapturedUser,
    per_media: &OrdMap<TransportMediaId, Bitrate>,
    quality: &TransportQualitySnapshot,
    health: &TransportHealthSnapshot,
) -> (r: DiagnosticsUserView)
    requires
        per_media.wf(),
        quality.wf(),
        health.wf(),
    ensures
        views_user(r, user, per_media@, quality@, health@),
{
    let sample = match quality.get(&user.session_key) {
        Some(sample) => Some(*sample),
        None => None,
    };
    let transport = DiagnosticsUserTransport {
        video_soft_pause_remaining_ms: user.video_soft_pause_remaining_ms,
        connection_id: user.session_key.connection.0,
        health: session_health(health, &user.session_key),
        media_worker_id: user.session_key.worker.0,
        quality_summary: quality_summary(incoming_bitrate(&user.publications, per_media), sample),
    };
    DiagnosticsUserView {
        publications: user.publications,
        subscriptions: user.subscriptions,
        transport,
        user_id: user.user_id,
        user_info: user.user_info,
    }
}

/// A publication with its packets.
pub struct DiagnosticsSource {
    pub active: bool,
    pub active_speaker: Option<DiagnosticsActiveSpeaker>,
    pub current_incoming_bitrate_bps: u64,
    pub encodings: Vec<DiagnosticsSourceEncoding>,
    pub last_packet_age_ms: Option<u64>,
    pub last_keyframe_age_ms: Option<u64>,
    pub media_kind: DiagnosticsMediaKind,
    pub mid: Option<String>,
    pub owner_user_id: UserId,
    pub source_id: u64,
    pub stream_id: String,
    pub transport_media_id: Option<u64>,
    pub video_bitrate_cap_bps: Option<u64>,
}

/// Encodings as a view shows them.
pub open spec fn shown_encodings(
    encodings: Seq<SourceEncodingDescriptor>,
    activity: Option<TransportSourceActivity>,
) -> Seq<DiagnosticsSourceEncoding> {
    encodings.map_values(
        |encoding: SourceEncodingDescriptor| shown_encoding(encoding, activity),
    )
}

/// A captured publication as its view shows it.
pub open spec fn views_source(
    view: DiagnosticsSource,
    source: CapturedSource,
    per_media: Map<u64, Bitrate>,
    activity: Seq<TransportSourceActivity>,
    speakers: Seq<ActiveSpeakerSourceDiagnostic>,
) -> bool {
    let media = source.source_key.media;
    let packets = last_activity(activity, media);
    &&& view.active == source.active
    &&& view.active_speaker == speaker_of(source.descriptor.media_kind, media, speakers)
    &&& view.current_incoming_bitrate_bps == bps(per_media, media.0)
    &&& view.encodings@ == shown_encodings(source.descriptor.encodings@, packets)
    &&& view.last_packet_age_ms == match packets {
        Some(packets) => Some(millis(packets.last_packet_age)),
        None => None,
    }
    &&& view.last_keyframe_age_ms == match packets {
        Some(packets) => optional_millis(packets.last_keyframe_age),
        None => None,
    }
    &&& view.media_kind == shown_kind(source.descriptor.media_kind)
    &&& view.mid == source.descriptor.mid
    &&& view.owner_user_id == source.descriptor.owner
    &&& view.source_id == source.descriptor.source_id.0
    &&& view.stream_id == source.descriptor.stream_id.0
    &&& view.transport_media_id == Some(media.0)
    &&& view.video_bitrate_cap_bps == optional_bps(source.descriptor.policy.video_bitrate_cap)
}

/// Combines what was captured of a publication with the transport of the room.
pub fn source_view(
    source: &CapturedSource,
    per_media: &OrdMap<TransportMediaId, Bitrate>,
    diagnostics: &TransportSourceDiagnosticsSnapshot,
) -> (r: DiagnosticsSource)
    requires
        per_media.wf(),
    ensures
        views_source(
            r,
            *source,
            per_media@,
            diagnostics.activity@,
            diagnostics.active_speaker_diagnostics@,
        ),
{
    let descriptor = &source.descriptor;
    let media_id = source.source_key.media;
    let activity = find_activity(&diagnostics.activity, media_id);
    let ghost packets = last_activity(diagnostics.activity@, media_id);
    let mut encodings: Vec<DiagnosticsSourceEncoding> = Vec::new();
    let mut i: usize = 0;
    while i < descriptor.encodings.len()
        invariant
            i <= descriptor.encodings@.len(),
            packets == referenced(activity),
            encodings@ == shown_encodings(descriptor.encodings@.take(i as int), packets),
        decreases descriptor.encodings@.len() - i,
    {
        encodings.push(source_encoding(&descriptor.encodings[i], activity));
        proof {
            assert(encodings@ =~= shown_encodings(descriptor.encodings@.take(i + 1), packets));
        }
        i = i + 1;
    }
    proof {
        assert(descriptor.encodings@.take(i as int) =~= descriptor.encodings@);
    }
    DiagnosticsSource {
        active: source.active,
        active_speaker: active_speaker(
            descriptor,
            media_id,
            &diagnostics.active_speaker_diagnostics,
        ),
        current_incoming_bitrate_bps: media_bitrate(per_media, media_id.0),
        encodings,
        last_packet_age_ms: match activity {
            Some(packets) => Some(duration_millis(packets.last_packet_age)),
            None => None,
        },
        last_keyframe_age_ms: match activity {
            Some(packets) => millis_of(packets.last_keyframe_age),
            None => None,
        },
        media_kind: DiagnosticsMediaKind::from(descriptor.media_kind),
        mid: clone_text(&descriptor.mid),
        owner_user_id: descriptor.owner.clone(),
        source_id: descriptor.source_id.0,
        stream_id: descriptor.stream_id.0.clone(),
        transport_media_id: Some(media_id.0),
        video_bitrate_cap_bps: bps_of(descriptor.policy.video_bitrate_cap),
    }
}

/// Media of captured publications.
pub open spec fn source_keys_of(sources: Seq<CapturedSource>) -> Seq<TransportSourceKey> {
    sources.map_values(|source: CapturedSource| source.source_key)
}

impl RoomDetailCapture {
    /// Sessions of the room, in user order.
    pub fn session_keys(&self) -> (r: &Vec<TransportSessionKey>)
        ensures
            *r == self.overview.session_keys,
    {
        &self.overview.session_keys
    }

    /// Media of the publications, in id order.
    pub fn source_keys(&self) -> (r: Vec<TransportSourceKey>)
        ensures
            r@ == source_keys_of(self.sources@),
    {
        let mut keys: Vec<TransportSourceKey> = Vec::new();
        let mut i: usize = 0;
        while i < self.sources.len()
            invariant
                i <= self.sources@.len(),
                keys@ == source_keys_of(self.sources@.take(i as int)),
            decreases self.sources@.len() - i,
        {
            keys.push(self.sources[i].source_key.clone());
            proof {
                assert(keys@ =~= source_keys_of(self.sources@.take(i + 1)));
            }
            i = i + 1;
        }
        proof {
            assert(self.sources@.take(i as int) =~= self.sources@);
        }
        keys
    }

    /// Combines the capture with the transport of the room.
    pub fn into_views(
        self,
        bitrate: &TransportBitrateSnapshot,
        quality: &TransportQualitySnapshot,
        health: &TransportHealthSnapshot,
        source_diagnostics: &TransportSourceDiagnosticsSnapshot,
    ) -> (r: (RoomOverviewCapture, Vec<DiagnosticsUserView>, Vec<DiagnosticsSource>))
        requires
            bitrate.per_media.wf(),
            quality.wf(),
            health.wf(),
        ensures
            r.0 == self.overview,
            r.1@.len() == self.users@.len(),
            forall|i: int|
                0 <= i < r.1@.len() ==> views_user(
                    #[trigger] r.1@[i],
                    self.users@[i],
                    bitrate.per_media@,
                    quality@,
                    health@,
                ),
            r.2@.len() == self.sources@.len(),
            forall|i: int|
                0 <= i < r.2@.len() ==> views_source(
                    #[trigger] r.2@[i],
                    self.sources@[i],
                    bitrate.per_media@,
                    source_diagnostics.activity@,
                    source_diagnostics.active_speaker_diagnostics@,
                ),
    {
        let mut sources: Vec<DiagnosticsSource> = Vec::new();
        let mut i: usize = 0;
        while i < self.sources.len()
            invariant
                bitrate.per_media.wf(),
                i <= self.sources@.len(),
                sources@.len() == i,
                forall|j: int|
                    0 <= j < i ==> views_source(
                        #[trigger] sources@[j],
                        self.sources@[j],
                        bitrate.per_media@,
                        source_diagnostics.activity@,
                        source_diagnostics.active_speaker_diagnostics@,
                    ),
            decreases self.sources@.len() - i,
        {
            sources.push(source_view(&self.sources[i], &bitrate.per_media, source_diagnostics));
            i = i + 1;
        }
        let ghost all = self.users@;
        let mut users: Vec<DiagnosticsUserView> = Vec::new();
        for user in it: self.users
            invariant
                it.seq() == all,
                bitrate.per_media.wf(),
                quality.wf(),
                health.wf(),
                users@.len() == it.index(),
                forall|j: int|
                    0 <= j < users@.len() ==> views_user(
                        #[trigger] users@[j],
                        all[j],
                        bitrate.per_media@,
                        quality@,
                        health@,
                    ),
        {
            users.push(user_view(user, &bitrate.per_media, quality, health));
        }
        (self.overview, users, sources)
    }
}

impl RoomUserCapture {
    pub fn session_key(&self) -> (r: &TransportSessionKey)
        ensures
            *r == self.user.session_key,
    {
        &self.user.session_key
    }

    /// Combines the capture with the transport of the room.
    pub fn into_view(
        self,
        bitrate: &TransportBitrateSnapshot,
        quality: &TransportQualitySnapshot,
        health: &TransportHealthSnapshot,
    ) -> (r: (RecordingState, DiagnosticsUserView))
        requires
            bitrate.per_media.wf(),
            quality.wf(),
            health.wf(),
        ensures
            r.0 == self.recording_state,
            views_user(r.1, self.user, bitrate.per_media@, quality@, health@),
    {
        (self.recording_state, user_view(self.user, &bitrate.per_media, quality, health))
    }
}

} // verus!
