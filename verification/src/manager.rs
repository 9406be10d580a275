//! The registry of current rooms and the coordination of their lifecycles.
//!
//! The manager publishes one current room per issuer. Work on a room is accepted while
//! the room is current and holds a lease until it is finished; what happens to an empty
//! room waits for the last lease.

use vstd::prelude::*;

use crate::definition::{is_uuid, RoomConfig, RoomDefinition, RoomKey, RoomRuntimePolicy};
use crate::directory::{
    is_published, is_rfc3339_utc, rfc3339_now, room_order, texts, Directory, RoomDirectory,
    RoomDirectoryEntry,
};
use crate::factory::{CreatedRoom, RoomFactory};
use crate::ids::{ConnectionId, RoomInstanceId, RouterId};
use crate::lifecycle::{
    ExpiryReason, Lifecycle, RoomLifecycle, RoomLifecycleLease, RoomLifecyclePhase,
    RoomRemovalPolicy,
};
use crate::ord_map::enumerates;
use crate::outbound::RecordingState;
use crate::placement::RoomRuntimeContext;
use crate::read_model::{more, RoomUserStatsSnapshot};
use crate::source_model::Moment;
use crate::state::RoomJoinError;
use crate::transport::TransportSessionKey;

verus! {

/// Why a user was not admitted to a room.
#[derive(Debug, Clone, Copy, PartialEq, Eq, Structural)]
pub enum RoomManagerJoinError {
    MissingRoom,
    RoomFull,
    RouterState,
}

impl RoomManagerJoinError {
    pub open spec fn text(self) -> Seq<char> {
        match self {
            RoomManagerJoinError::MissingRoom => "room not found"@,
            RoomManagerJoinError::RoomFull => "room is full"@,
            RoomManagerJoinError::RouterState => "router state error"@,
        }
    }

    pub fn message(self) -> (r: &'static str)
        ensures
            r@ == self.text(),
    {
        match self {
            RoomManagerJoinError::MissingRoom => "room not found",
            RoomManagerJoinError::RoomFull => "room is full",
            RoomManagerJoinError::RouterState => "router state error",
        }
    }

    /// The refusal of a room, as the manager reports it.
    pub open spec fn reporting(refusal: RoomJoinError) -> Self {
        match refusal {
            RoomJoinError::RoomFull => RoomManagerJoinError::RoomFull,
            RoomJoinError::RouterState => RoomManagerJoinError::RouterState,
        }
    }
}

/// Why no room was served.
#[derive(Debug, Clone, Copy, PartialEq, Eq, Structural)]
pub enum RoomManagerServeError {
    ConflictingReservation,
}

impl RoomManagerServeError {
    pub fn message(self) -> (r: &'static str)
        ensures
            r@ == "conflicting room reservation"@,
    {
        "conflicting room reservation"
    }
}

/// The room that a request was answered with.
pub struct ServedRoom {
    pub uuid: String,
    pub instance_id: RoomInstanceId,
    /// Where a room starts that was created for the request.
    pub context: Option<RoomRuntimeContext>,
}

/// Stats of a room.
pub struct RuntimeRoomStatsSnapshot {
    /// When the room was published, in RFC 3339.
    pub create_date: String,
    pub uuid: String,
    /// Where the room was first asked for.
    pub remote_address: String,
    pub users_stats: RoomUserStatsSnapshot,
    pub web_rtc_enabled: bool,
}

/// An admission whose effects are done.
pub struct RoomUserAdmission {
    pub room_id: String,
    pub connection_id: ConnectionId,
    pub transport_session_key: TransportSessionKey,
}

/// A current room.
#[derive(Debug, PartialEq, Eq)]
pub struct RuntimeRoomDirectorySnapshot {
    pub uuid: String,
    pub instance_id: RoomInstanceId,
    pub create_date: String,
    pub remote_address: String,
}

/// The row of a room.
pub open spec fn is_row(row: RuntimeRoomDirectorySnapshot, entry: RoomDirectoryEntry) -> bool {
    &&& row.uuid == entry.room.uuid
    &&& row.instance_id == entry.room.instance_id
    &&& row.create_date == entry.create_date
    &&& row.remote_address == entry.remote_address
}

fn directory_row(entry: &RoomDirectoryEntry) -> (r: RuntimeRoomDirectorySnapshot)
    ensures
        is_row(r, *entry),
{
    RuntimeRoomDirectorySnapshot {
        uuid: entry.room.uuid.clone(),
        instance_id: entry.room.instance_id,
        create_date: entry.create_date.clone(),
        remote_address: entry.remote_address.clone(),
    }
}

/// What one room adds to the gauges.
#[derive(Debug, Clone, Copy, PartialEq, Eq, Structural)]
pub struct RoomGauge {
    pub users: usize,
    pub publications: usize,
    pub subscriptions: usize,
    pub recording_state: RecordingState,
}

/// Gauges over all rooms.
#[derive(Debug, Clone, Copy, PartialEq, Eq, Structural)]
pub struct RoomGaugeValues {
    pub rooms: usize,
    pub users: usize,
    pub publications: usize,
    pub subscriptions: usize,
    pub recording_rooms: usize,
}

/// Sums over rooms; no gauge exceeds the largest number.
pub open spec fn gauges_of(rooms: Seq<RoomGauge>) -> RoomGaugeValues
    decreases rooms.len(),
{
    if rooms.len() == 0 {
        RoomGaugeValues {
            rooms: 0,
            users: 0,
            publications: 0,
            subscriptions: 0,
            recording_rooms: 0,
        }
    } else {
        let before = gauges_of(rooms.drop_last());
        let room = rooms.last();
        RoomGaugeValues {
            rooms: rooms.len() as usize,
            users: more(before.users, room.users as int),
            publications: more(before.publications, room.publications as int),
            subscriptions: more(before.subscriptions, room.subscriptions as int),
            recording_rooms: more(
                before.recording_rooms,
                if room.recording_state.recording == Some(true) {
                    1
                } else {
                    0
                },
            ),
        }
    }
}

/// Adds up the gauges of rooms.
pub fn room_gauges(rooms: &Vec<RoomGauge>) -> (r: RoomGaugeValues)
    ensures
        r == gauges_of(rooms@),
        r.rooms == rooms@.len(),
{
    let mut gauges = RoomGaugeValues {
        rooms: 0,
        users: 0,
        publications: 0,
        subscriptions: 0,
        recording_rooms: 0,
    };
    let mut i: usize = 0;
    proof {
        assert(rooms@.take(0) =~= Seq::<RoomGauge>::empty());
    }
    while i < rooms.len()
        invariant
            i <= rooms@.len(),
            gauges.rooms == i,
            gauges == gauges_of(rooms@.take(i as int)),
        decreases rooms@.len() - i,
    {
        proof {
            assert(rooms@.take(i + 1).drop_last() =~= rooms@.take(i as int));
            assert(rooms@.take(i + 1).last() == rooms@[i as int]);
        }
        let room = rooms[i];
        let recording: usize = match room.recording_state.recording {
            Some(true) => 1,
            _ => 0,
        };
        gauges = RoomGaugeValues {
            rooms: i + 1,
            users: gauges.users.saturating_add(room.users),
            publications: gauges.publications.saturating_add(room.publications),
            subscriptions: gauges.subscriptions.saturating_add(room.subscriptions),
            recording_rooms: gauges.recording_rooms.saturating_add(recording),
        };
        i = i + 1;
    }
    proof {
        assert(rooms@.take(i as int) =~= rooms@);
    }
    gauges
}

/// Work that a current room accepted. Dropping it without finishing it never removes
/// the room.
pub struct CurrentRoomMutation {
    pub room_id: String,
    pub instance_id: RoomInstanceId,
    pub lease: RoomLifecycleLease,
}

/// How a bulk disconnect ended.
#[derive(Debug, Clone, Copy, PartialEq, Eq, Structural)]
pub enum BulkDisconnectOutcome {
    Success,
    RoomMissing,
}

impl BulkDisconnectOutcome {
    pub open spec fn text(self) -> Seq<char> {
        match self {
            BulkDisconnectOutcome::Success => "success"@,
            BulkDisconnectOutcome::RoomMissing => "room_missing"@,
        }
    }

    pub fn as_str(self) -> (r: &'static str)
        ensures
            r@ == self.text(),
    {
        match self {
            BulkDisconnectOutcome::Success => "success",
            BulkDisconnectOutcome::RoomMissing => "room_missing",
        }
    }
}

/// What is reported of a bulk disconnect.
#[derive(Debug, PartialEq, Eq)]
pub struct BulkDisconnectReport {
    pub room_id: String,
    pub requested_user_count: usize,
    pub disconnected_session_count: usize,
    pub outcome: BulkDisconnectOutcome,
}

/// The report of a bulk disconnect that closed these sessions; there are none where the
/// room was not current.
pub fn bulk_disconnect_report(
    room_id: &str,
    requested_user_count: usize,
    closed_sessions: Option<usize>,
) -> (r: BulkDisconnectReport)
    ensures
        r.room_id@ == room_id@,
        r.requested_user_count == requested_user_count,
        match closed_sessions {
            Some(closed) => r.disconnected_session_count == closed && r.outcome
                == BulkDisconnectOutcome::Success,
            None => r.disconnected_session_count == 0 && r.outcome
                == BulkDisconnectOutcome::RoomMissing,
        },
{
    let (disconnected_session_count, outcome) = match closed_sessions {
        Some(closed) => (closed, BulkDisconnectOutcome::Success),
        None => (0, BulkDisconnectOutcome::RoomMissing),
    };
    BulkDisconnectReport {
        room_id: room_id.to_owned(),
        requested_user_count,
        disconnected_session_count,
        outcome,
    }
}

/// The registry as mathematics.
#[verifier::ext_equal]
pub struct Registry {
    pub directory: Directory,
    pub factory: RoomFactory,
    /// Length of a reservation, in nanoseconds.
    pub ttl: u128,
    /// Length of the departure grace, in nanoseconds.
    pub grace: u128,
}

impl Registry {
    /// A deadline that is set now can be expressed.
    pub open spec fn deadlines_fit(self, now: Moment) -> bool {
        now.0 + self.ttl <= u128::MAX && now.0 + self.grace <= u128::MAX
    }

    /// The room of the mutation is still current, and a lease of it is out.
    pub open spec fn holds(self, mutation: CurrentRoomMutation) -> bool {
        self.directory.current(mutation.room_id@, mutation.instance_id) && self.lifecycle(
            mutation.room_id@,
        ).leases > 0
    }

    /// The lifecycle of a current room.
    pub open spec fn lifecycle(self, uuid: Seq<char>) -> Lifecycle {
        self.directory.rooms[uuid].lifecycle@
    }
}

/// The directory changed in the lifecycle of one room alone, to this one.
pub open spec fn relived(
    before: Directory,
    after: Directory,
    uuid: Seq<char>,
    lifecycle: Lifecycle,
) -> bool {
    &&& before.rooms.contains_key(uuid)
    &&& after.rooms.contains_key(uuid)
    &&& after == before.with_lifecycle(uuid, after.rooms[uuid].lifecycle)
    &&& after.rooms[uuid].lifecycle@ == lifecycle
}

/// The directory after a pass over the listed rooms removed those that are claimed.
pub open spec fn reaped(d: Directory, uuids: Seq<Seq<char>>, now: Moment) -> Directory
    decreases uuids.len(),
{
    if uuids.len() == 0 {
        d
    } else {
        let before = reaped(d, uuids.drop_last(), now);
        if d.rooms[uuids.last()].lifecycle@.claimed(now) is Some {
            before.without(uuids.last())
        } else {
            before
        }
    }
}

/// Those of the listed rooms that are claimed, and why.
pub open spec fn claims(d: Directory, uuids: Seq<Seq<char>>, now: Moment) -> Seq<
    (Seq<char>, ExpiryReason),
>
    decreases uuids.len(),
{
    if uuids.len() == 0 {
        seq![]
    } else {
        let before = claims(d, uuids.drop_last(), now);
        match d.rooms[uuids.last()].lifecycle@.claimed(now) {
            Some(reason) => before.push((uuids.last(), reason)),
            None => before,
        }
    }
}

/// Texts and reasons of expired rooms.
pub open spec fn expired_texts(expired: Seq<(String, ExpiryReason)>) -> Seq<
    (Seq<char>, ExpiryReason),
> {
    expired.map_values(|room: (String, ExpiryReason)| (room.0@, room.1))
}

/// UUIDs of those of the listed instances that are current.
pub open spec fn current_rooms(d: Directory, instances: Seq<RoomInstanceId>) -> Seq<Seq<char>>
    decreases instances.len(),
{
    if instances.len() == 0 {
        seq![]
    } else {
        let before = current_rooms(d, instances.drop_last());
        let instance = instances.last().0;
        if d.by_instance.contains_key(instance) && d.rooms.contains_key(d.by_instance[instance]) {
            before.push(d.by_instance[instance])
        } else {
            before
        }
    }
}

/// A reaping pass leaves rooms alone that it does not visit, and removes what it claims.
pub proof fn lemma_reaped(d: Directory, uuids: Seq<Seq<char>>, now: Moment)
    requires
        uuids.no_duplicates(),
        forall|i: int| 0 <= i < uuids.len() ==> d.rooms.contains_key(#[trigger] uuids[i]),
    ensures
        forall|uuid: Seq<char>| #[trigger]
            reaped(d, uuids, now).rooms.contains_key(uuid) <==> d.rooms.contains_key(uuid) && !(
            uuids.contains(uuid) && d.rooms[uuid].lifecycle@.claimed(now) is Some),
        forall|uuid: Seq<char>| #[trigger]
            reaped(d, uuids, now).rooms.contains_key(uuid) ==> reaped(d, uuids, now).rooms[uuid]
                == d.rooms[uuid],
        d.agrees() ==> reaped(d, uuids, now).agrees(),
    decreases uuids.len(),
{
    if uuids.len() > 0 {
        let earlier = uuids.drop_last();
        lemma_reaped(d, earlier, now);
        let last = uuids.last();
        assert(!earlier.contains(last)) by {
            if earlier.contains(last) {
                let i = earlier.index_of(last);
                assert(uuids[i] == uuids[uuids.len() - 1]);
            }
        }
        assert forall|uuid: Seq<char>| uuids.contains(uuid) <==> (earlier.contains(uuid) || uuid
            == last) by {
            if uuids.contains(uuid) {
                let i = uuids.index_of(uuid);
                if i < earlier.len() {
                    assert(earlier[i] == uuid);
                }
            }
            if earlier.contains(uuid) {
                let i = earlier.index_of(uuid);
                assert(uuids[i] == uuid);
            }
            if uuid == last {
                assert(uuids[uuids.len() - 1] == uuid);
            }
        }
        assert(d.rooms.contains_key(last));
        assert(reaped(d, earlier, now).rooms.contains_key(last));
    }
}

/// Coordinates current rooms.
pub struct RoomManager {
    directory: RoomDirectory,
    factory: RoomFactory,
    reservation_ttl: u128,
    departure_grace: u128,
}

impl RoomManager {
    pub closed spec fn view(&self) -> Registry {
        Registry {
            directory: self.directory@,
            factory: self.factory,
            ttl: self.reservation_ttl,
            grace: self.departure_grace,
        }
    }

    /// Every room lives by the deadlines of the manager.
    pub closed spec fn wf(&self) -> bool {
        &&& self.directory.wf()
        &&& forall|uuid: Seq<char>| #[trigger]
            self.directory@.rooms.contains_key(uuid)
                ==> self.directory@.rooms[uuid].lifecycle@.ttl == self.reservation_ttl
                && self.directory@.rooms[uuid].lifecycle@.grace == self.departure_grace
    }

    /// A manager without rooms.
    pub fn new(
        runtime_policy: RoomRuntimePolicy,
        reservation_ttl: u128,
        departure_grace: u128,
    ) -> (r: Self)
        ensures
            r.wf(),
            r@.directory == (Directory {
                rooms: Map::empty(),
                by_issuer: Map::empty(),
                by_instance: Map::empty(),
            }),
            r@.directory.agrees(),
            r@.factory == (RoomFactory {
                runtime_policy,
                next_room_instance_id: 0,
                next_router_id: 0,
            }),
            r@.ttl == reservation_ttl,
            r@.grace == departure_grace,
    {
        RoomManager {
            directory: RoomDirectory::new(),
            factory: RoomFactory::new(runtime_policy),
            reservation_ttl,
            departure_grace,
        }
    }

    /// The rules of new rooms.
    pub fn runtime_policy(&self) -> (r: &RoomRuntimePolicy)
        ensures
            *r == self@.factory.runtime_policy,
    {
        &self.factory.runtime_policy
    }

    /// The current room of an issuer, for a request that asks for it. A reservation or
    /// a grace period is renewed; the deadline of a joined room is not set again.
    pub fn retrieve_room_reservation(
        &mut self,
        issuer: &str,
        key: &RoomKey,
        config: &RoomConfig,
        now: Moment,
    ) -> (r: Result<Option<ServedRoom>, RoomManagerServeError>)
        requires
            old(self).wf(),
            old(self)@.deadlines_fit(now),
        ensures
            final(self).wf(),
            retrieves(old(self)@, issuer@, *key, *config, now, final(self)@, r),
    {
        proof {
            self.directory.lemma_rooms();
        }
        let uuid = match self.directory.uuid_of_issuer(issuer) {
            Some(uuid) => uuid.clone(),
            None => {
                return Ok(None);
            },
        };
        let instance_id = match self.directory.entry(uuid.as_str()) {
            None => {
                return Ok(None);
            },
            Some(entry) => {
                if !entry.room.matches_reservation(key, config) {
                    return Err(RoomManagerServeError::ConflictingReservation);
                }
                entry.room.instance_id
            },
        };
        if let Some(lifecycle) = self.directory.lifecycle_mut(uuid.as_str()) {
            lifecycle.renew_reservation(now);
        }
        Ok(Some(ServedRoom { uuid, instance_id, context: None }))
    }

    /// Publishes a room that was created at this date.
    pub fn publish(
        &mut self,
        room: RoomDefinition,
        remote_address: Option<&str>,
        create_date: String,
        now: Moment,
    )
        requires
            old(self).wf(),
            old(self)@.deadlines_fit(now),
        ensures
            final(self).wf(),
            is_published(
                final(self)@.directory.rooms[room.uuid@],
                room,
                remote_address,
                create_date,
                old(self)@.ttl,
                old(self)@.grace,
                now,
            ),
            final(self)@ == (Registry {
                directory: old(self)@.directory.with_entry(
                    final(self)@.directory.rooms[room.uuid@],
                ),
                ..old(self)@
            }),
            old(self)@.directory.agrees() && old(self)@.directory.admits(room)
                ==> final(self)@.directory.agrees(),
    {
        let entry = RoomDirectoryEntry::new(
            room,
            remote_address,
            create_date,
            self.reservation_ttl,
            self.departure_grace,
            now,
        );
        self.directory.insert(entry);
        proof {
            assert(self.directory@.rooms[room.uuid@] == entry);
        }
    }

    /// The current room of an issuer, or a new reservation.
    ///
    /// The first reservation fixes the key, the configuration and the address. A
    /// request that agrees with it is answered with the same room; one that does not
    /// is refused.
    pub fn serve_room(
        &mut self,
        issuer: &str,
        key: RoomKey,
        config: &RoomConfig,
        remote_address: Option<&str>,
        now: Moment,
    ) -> (r: Result<ServedRoom, RoomManagerServeError>)
        requires
            old(self).wf(),
            old(self)@.deadlines_fit(now),
        ensures
            final(self).wf(),
            serves(old(self)@, issuer@, key, *config, remote_address, now, final(self)@, r),
    {
        match self.retrieve_room_reservation(issuer, &key, config, now) {
            Err(error) => {
                return Err(error);
            },
            Ok(Some(served)) => {
                return Ok(served);
            },
            Ok(None) => {},
        }
        let CreatedRoom { definition, context } = self.factory.create(issuer, key, config);
        let uuid = definition.uuid.clone();
        let instance_id = definition.instance_id;
        self.publish(definition, remote_address, rfc3339_now(), now);
        Ok(ServedRoom { uuid, instance_id, context: Some(context) })
    }

    /// The current room of a UUID.
    pub fn get_by_uuid(&self, uuid: &str) -> (r: Option<&RoomDefinition>)
        requires
            self.wf(),
        ensures
            match r {
                Some(room) => self@.directory.rooms.contains_key(uuid@) && *room
                    == self@.directory.rooms[uuid@].room,
                None => !self@.directory.rooms.contains_key(uuid@),
            },
    {
        self.directory.get_by_uuid(uuid)
    }

    /// The phase of a current room.
    pub fn phase(&self, uuid: &str) -> (r: Option<RoomLifecyclePhase>)
        requires
            self.wf(),
        ensures
            r == if self@.directory.rooms.contains_key(uuid@) {
                Some(self@.lifecycle(uuid@).phase)
            } else {
                None
            },
    {
        match self.directory.entry(uuid) {
            Some(entry) => Some(entry.lifecycle.phase()),
            None => None,
        }
    }

    /// The row of a current room.
    pub fn directory_snapshot(&self, room_id: &str) -> (r: Option<RuntimeRoomDirectorySnapshot>)
        requires
            self.wf(),
        ensures
            match r {
                Some(row) => self@.directory.rooms.contains_key(room_id@) && is_row(
                    row,
                    self@.directory.rooms[room_id@],
                ),
                None => !self@.directory.rooms.contains_key(room_id@),
            },
    {
        match self.directory.entry(room_id) {
            Some(entry) => Some(directory_row(entry)),
            None => None,
        }
    }

    /// The rows of all rooms, in the order of their UUIDs.
    pub fn directory_snapshots(&self) -> (r: Vec<RuntimeRoomDirectorySnapshot>)
        requires
            self.wf(),
        ensures
            r@.len() == room_order(self@.directory.rooms).len(),
            forall|i: int|
                0 <= i < r@.len() ==> is_row(
                    #[trigger] r@[i],
                    self@.directory.rooms[room_order(self@.directory.rooms)[i]],
                ),
    {
        let uuids = self.directory.room_ids();
        let ghost order = texts(uuids@);
        let mut rows: Vec<RuntimeRoomDirectorySnapshot> = Vec::new();
        let mut i: usize = 0;
        while i < uuids.len()
            invariant
                self.wf(),
                order == texts(uuids@),
                enumerates::<String>(order, self@.directory.rooms.dom()),
                i <= uuids@.len(),
                rows@.len() == i,
                forall|j: int|
                    0 <= j < i ==> is_row(
                        #[trigger] rows@[j],
                        self@.directory.rooms[order[j]],
                    ),
            decreases uuids@.len() - i,
        {
            proof {
                assert(order.contains(order[i as int]));
                assert(self@.directory.rooms.contains_key(order[i as int]));
            }
            match self.directory.entry(uuids[i].as_str()) {
                Some(entry) => {
                    rows.push(directory_row(entry));
                },
                None => {},
            }
            i = i + 1;
        }
        rows
    }

    /// Stats of a current room, around those of its users.
    pub fn entry_stats_snapshot(&self, room_id: &str, users_stats: RoomUserStatsSnapshot) -> (r:
        Option<RuntimeRoomStatsSnapshot>)
        requires
            self.wf(),
        ensures
            match r {
                Some(stats) => {
                    &&& self@.directory.rooms.contains_key(room_id@)
                    &&& stats == (RuntimeRoomStatsSnapshot {
                        create_date: self@.directory.rooms[room_id@].create_date,
                        uuid: self@.directory.rooms[room_id@].room.uuid,
                        remote_address: self@.directory.rooms[room_id@].remote_address,
                        users_stats,
                        web_rtc_enabled:
                            self@.directory.rooms[room_id@].room.config.web_rtc_enabled,
                    })
                },
                None => !self@.directory.rooms.contains_key(room_id@),
            },
    {
        match self.directory.entry(room_id) {
            Some(entry) => Some(
                RuntimeRoomStatsSnapshot {
                    create_date: entry.create_date.clone(),
                    uuid: entry.room.uuid.clone(),
                    remote_address: entry.remote_address.clone(),
                    users_stats,
                    web_rtc_enabled: entry.room.web_rtc_enabled(),
                },
            ),
            None => None,
        }
    }

    /// UUIDs of those of the listed instances that are current.
    pub fn rooms_for_instance_ids(&self, room_instance_ids: &Vec<RoomInstanceId>) -> (r: Vec<String>)
        requires
            self.wf(),
        ensures
            texts(r@) == current_rooms(self@.directory, room_instance_ids@),
    {
        let ghost d = self@.directory;
        let ghost all = room_instance_ids@;
        let mut uuids: Vec<String> = Vec::new();
        let mut i: usize = 0;
        proof {
            self.directory.lemma_rooms();
            assert(all.take(0) =~= Seq::<RoomInstanceId>::empty());
            assert(texts(uuids@) =~= Seq::<Seq<char>>::empty());
        }
        while i < room_instance_ids.len()
            invariant
                self.wf(),
                d == self@.directory,
                all == room_instance_ids@,
                i <= all.len(),
                forall|uuid: Seq<char>| #[trigger]
                    d.rooms.contains_key(uuid) ==> d.rooms[uuid].room.uuid@ == uuid,
                texts(uuids@) == current_rooms(d, all.take(i as int)),
            decreases all.len() - i,
        {
            proof {
                assert(all.take(i + 1).drop_last() =~= all.take(i as int));
                assert(all.take(i + 1).last() == all[i as int]);
            }
            match self.directory.get_by_instance_id(room_instance_ids[i]) {
                Some(room) => {
                    let ghost before = uuids@;
                    uuids.push(room.uuid.clone());
                    proof {
                        assert(texts(uuids@) =~= texts(before).push(room.uuid@));
                    }
                },
                None => {},
            }
            i = i + 1;
        }
        proof {
            assert(all.take(i as int) =~= all);
        }
        uuids
    }

    /// Accepts work on a current room.
    pub fn begin_current_room_mutation(&mut self, room_id: &str) -> (r: Option<CurrentRoomMutation>)
        requires
            old(self).wf(),
        ensures
            final(self).wf(),
            begins(old(self)@, room_id@, final(self)@, r),
    {
        proof {
            self.directory.lemma_rooms();
        }
        let instance_id = match self.directory.entry(room_id) {
            Some(entry) => entry.room.instance_id,
            None => {
                return None;
            },
        };
        let ghost d = self.directory@;
        let lease = match self.directory.lifecycle_mut(room_id) {
            Some(lifecycle) => lifecycle.begin(),
            None => None,
        };
        match lease {
            Some(lease) => Some(
                CurrentRoomMutation { room_id: room_id.to_owned(), instance_id, lease },
            ),
            None => {
                proof {
                    assert(self.directory@.rooms =~= d.rooms);
                }
                None
            },
        }
    }

    /// Accepts the join of a user.
    pub fn begin_join(&mut self, room_id: &str) -> (r: Result<
        CurrentRoomMutation,
        RoomManagerJoinError,
    >)
        requires
            old(self).wf(),
        ensures
            final(self).wf(),
            begins_join(old(self)@, room_id@, final(self)@, r),
    {
        match self.begin_current_room_mutation(room_id) {
            Some(mutation) => Ok(mutation),
            None => Err(RoomManagerJoinError::MissingRoom),
        }
    }

    /// Whether the room of the mutation is still current, with a lease out.
    fn holds_lease(&self, room_id: &str, instance_id: RoomInstanceId) -> (r: bool)
        requires
            self.wf(),
        ensures
            r == (self@.directory.current(room_id@, instance_id) && self@.lifecycle(room_id@).leases
                > 0),
    {
        match self.directory.entry(room_id) {
            Some(entry) => entry.room.instance_id == instance_id && entry.lifecycle.lease_count()
                > 0,
            None => false,
        }
    }

    /// Retires the deadline of a room whose membership admitted the user.
    pub fn accept_join(&mut self, mutation: &CurrentRoomMutation)
        requires
            old(self).wf(),
            mutation.lease.held(),
        ensures
            final(self).wf(),
            accepts(old(self)@, *mutation, final(self)@),
    {
        proof {
            self.directory.lemma_rooms();
        }
        if !self.holds_lease(mutation.room_id.as_str(), mutation.instance_id) {
            return ;
        }
        if let Some(lifecycle) = self.directory.lifecycle_mut(mutation.room_id.as_str()) {
            lifecycle.clear_expiration(&mutation.lease);
        }
    }

    /// Finishes work on a room. Returns whether the room was removed.
    pub fn finish_session_mutation(
        &mut self,
        mutation: CurrentRoomMutation,
        on_empty: Option<RoomRemovalPolicy>,
        room_is_empty: bool,
        now: Moment,
    ) -> (r: bool)
        requires
            old(self).wf(),
            old(self)@.deadlines_fit(now),
            mutation.lease.held(),
        ensures
            final(self).wf(),
            finishes(old(self)@, mutation, on_empty, room_is_empty, now, final(self)@, r),
    {
        let ghost d = self.directory@;
        proof {
            self.directory.lemma_rooms();
        }
        let CurrentRoomMutation { room_id, instance_id, lease } = mutation;
        if !self.holds_lease(room_id.as_str(), instance_id) {
            return false;
        }
        let removes = match self.directory.lifecycle_mut(room_id.as_str()) {
            Some(lifecycle) => lifecycle.finish(lease, on_empty, room_is_empty, now),
            None => false,
        };
        if removes {
            let ghost closing = self.directory@;
            let _ = self.directory.remove_if_current(room_id.as_str(), instance_id);
            proof {
                assert(closing.without(room_id@).rooms =~= d.without(room_id@).rooms);
            }
        }
        removes
    }

    /// Finishes a join that its room refused.
    pub fn refuse_join(
        &mut self,
        mutation: CurrentRoomMutation,
        refusal: RoomJoinError,
        room_is_empty: bool,
        now: Moment,
    ) -> (r: RoomManagerJoinError)
        requires
            old(self).wf(),
            old(self)@.deadlines_fit(now),
            mutation.lease.held(),
        ensures
            final(self).wf(),
            refuses(old(self)@, mutation, refusal, room_is_empty, now, final(self)@, r),
    {
        let _ = self.finish_session_mutation(mutation, None, room_is_empty, now);
        match refusal {
            RoomJoinError::RoomFull => RoomManagerJoinError::RoomFull,
            RoomJoinError::RouterState => RoomManagerJoinError::RouterState,
        }
    }

    /// Finishes a join whose effects are done.
    pub fn conclude_join(
        &mut self,
        mutation: CurrentRoomMutation,
        transport_session_key: TransportSessionKey,
        room_is_empty: bool,
        now: Moment,
    ) -> (r: RoomUserAdmission)
        requires
            old(self).wf(),
            old(self)@.deadlines_fit(now),
            mutation.lease.held(),
        ensures
            final(self).wf(),
            concludes(
                old(self)@,
                mutation,
                transport_session_key,
                room_is_empty,
                now,
                final(self)@,
                r,
            ),
    {
        let room_id = mutation.room_id.clone();
        let _ = self.finish_session_mutation(mutation, None, room_is_empty, now);
        RoomUserAdmission {
            room_id,
            connection_id: transport_session_key.connection,
            transport_session_key,
        }
    }

    /// Gives up work that was dropped before it finished.
    pub fn abandon_mutation(&mut self, mutation: CurrentRoomMutation)
        requires
            old(self).wf(),
            mutation.lease.held(),
        ensures
            final(self).wf(),
            abandons(old(self)@, mutation, final(self)@),
    {
        proof {
            self.directory.lemma_rooms();
        }
        let CurrentRoomMutation { room_id, instance_id, lease } = mutation;
        if !self.holds_lease(room_id.as_str(), instance_id) {
            return ;
        }
        if let Some(lifecycle) = self.directory.lifecycle_mut(room_id.as_str()) {
            lifecycle.abandon(lease);
        }
    }

    /// Claims and removes every room whose deadline has passed while no work holds a
    /// lease. Returns what was removed, in the order of the UUIDs.
    pub fn check_expired_room_reservations(&mut self, now: Moment) -> (r: Vec<
        (String, ExpiryReason),
    >)
        requires
            old(self).wf(),
        ensures
            final(self).wf(),
            expired_texts(r@) == claims(
                old(self)@.directory,
                room_order(old(self)@.directory.rooms),
                now,
            ),
            final(self)@ == (Registry {
                directory: reaped(
                    old(self)@.directory,
                    room_order(old(self)@.directory.rooms),
                    now,
                ),
                ..old(self)@
            }),
            forall|uuid: Seq<char>| #[trigger]
                final(self)@.directory.rooms.contains_key(uuid) <==> old(
                    self,
                )@.directory.rooms.contains_key(uuid) && old(self)@.lifecycle(uuid).claimed(now)
                    is None,
            forall|uuid: Seq<char>| #[trigger]
                final(self)@.directory.rooms.contains_key(uuid)
                    ==> final(self)@.directory.rooms[uuid] == old(self)@.directory.rooms[uuid],
            old(self)@.directory.agrees() ==> final(self)@.directory.agrees(),
    {
        let ghost d = self.directory@;
        let uuids = self.directory.room_ids();
        let ghost order = texts(uuids@);
        let mut expired: Vec<(String, ExpiryReason)> = Vec::new();
        let mut i: usize = 0;
        proof {
            self.directory.lemma_rooms();
            assert forall|a: int, b: int|
                0 <= a < order.len() && 0 <= b < order.len() && a != b implies order[a]
                != order[b] by {
                if order[a] == order[b] {
                    crate::ord_map::lemma_increasing_distinct::<String>(order, a, b);
                }
            }
            assert(order.no_duplicates());
            assert forall|a: int| 0 <= a < order.len() implies d.rooms.contains_key(
                #[trigger] order[a],
            ) by {
                assert(order.contains(order[a]));
            }
            assert(order.take(0) =~= Seq::<Seq<char>>::empty());
            assert(expired_texts(expired@) =~= Seq::<(Seq<char>, ExpiryReason)>::empty());
        }
        while i < uuids.len()
            invariant
                order == texts(uuids@),
                order == room_order(d.rooms),
                order.no_duplicates(),
                forall|a: int|
                    0 <= a < order.len() ==> d.rooms.contains_key(#[trigger] order[a]),
                i <= uuids@.len(),
                self.wf(),
                d == old(self)@.directory,
                self@ == (Registry { directory: self.directory@, ..old(self)@ }),
                self.directory@ == reaped(d, order.take(i as int), now),
                expired_texts(expired@) == claims(d, order.take(i as int), now),
            decreases uuids@.len() - i,
        {
            let ghost earlier = order.take(i as int);
            let ghost uuid = order[i as int];
            let ghost before = self.directory@;
            proof {
                self.directory.lemma_rooms();
                assert(order.take(i + 1).drop_last() =~= earlier);
                assert(order.take(i + 1).last() == uuid);
                assert(earlier.no_duplicates());
                assert forall|a: int| 0 <= a < earlier.len() implies d.rooms.contains_key(
                    #[trigger] earlier[a],
                ) by {
                    assert(earlier[a] == order[a]);
                }
                lemma_reaped(d, earlier, now);
                assert(!earlier.contains(uuid)) by {
                    if earlier.contains(uuid) {
                        let j = earlier.index_of(uuid);
                        assert(order[j] == order[i as int]);
                    }
                }
                assert(d.rooms.contains_key(uuid));
                assert(before.rooms.contains_key(uuid));
            }
            let instance_id = match self.directory.entry(uuids[i].as_str()) {
                Some(entry) => entry.room.instance_id,
                None => RoomInstanceId(0),
            };
            let claim = match self.directory.lifecycle_mut(uuids[i].as_str()) {
                Some(lifecycle) => lifecycle.claim_expired_room(now),
                None => None,
            };
            match claim {
                Some(reason) => {
                    let ghost closing = self.directory@;
                    let _ = self.directory.remove_if_current(uuids[i].as_str(), instance_id);
                    let ghost known = expired@;
                    expired.push((uuids[i].clone(), reason));
                    proof {
                        assert(closing.without(uuid).rooms =~= before.without(uuid).rooms);
                        assert(expired_texts(expired@) =~= expired_texts(known).push(
                            (uuid, reason),
                        ));
                    }
                },
                None => {
                    proof {
                        assert(self.directory@.rooms =~= before.rooms);
                    }
                },
            }
            i = i + 1;
        }
        proof {
            assert(order.take(i as int) =~= order);
            lemma_reaped(d, order, now);
            old(self).directory.lemma_rooms();
        }
        expired
    }
}

/// How the reservation of an issuer is retrieved.
pub open spec fn retrieves(
    before: Registry,
    issuer: Seq<char>,
    key: RoomKey,
    config: RoomConfig,
    now: Moment,
    after: Registry,
    r: Result<Option<ServedRoom>, RoomManagerServeError>,
) -> bool {
    &&& match before.directory.of_issuer(issuer) {
        None => r == Ok::<Option<ServedRoom>, RoomManagerServeError>(None) && after == before,
        Some(entry) => if entry.room.reserved_by(key, config) {
            &&& r matches Ok(Some(served)) && served.uuid@ == before.directory.by_issuer[issuer]
                && served.instance_id == entry.room.instance_id && served.context is None
            &&& relived(
                before.directory,
                after.directory,
                before.directory.by_issuer[issuer],
                entry.lifecycle@.after_renewal(now),
            )
            &&& after == (Registry { directory: after.directory, ..before })
        } else {
            r == Err::<Option<ServedRoom>, RoomManagerServeError>(
                RoomManagerServeError::ConflictingReservation,
            ) && after == before
        },
    }
    &&& before.directory.agrees() ==> after.directory.agrees()
}

/// How a request for a room is served.
pub open spec fn serves(
    before: Registry,
    issuer: Seq<char>,
    key: RoomKey,
    config: RoomConfig,
    remote_address: Option<&str>,
    now: Moment,
    after: Registry,
    r: Result<ServedRoom, RoomManagerServeError>,
) -> bool {
    &&& match before.directory.of_issuer(issuer) {
        None => r matches Ok(served) && {
            let room = after.directory.rooms[served.uuid@].room;
            &&& is_uuid(served.uuid@)
            &&& served.instance_id == RoomInstanceId(before.factory.next_room_instance_id)
            &&& served.context matches Some(context) && context.instance_of()
                == served.instance_id && context.router_of() == RouterId(
                before.factory.next_router_id,
            ) && context.placements_of() is None
            &&& room.uuid@ == served.uuid@
            &&& room.issuer@ == issuer
            &&& room.key == key
            &&& room.config == config
            &&& room.instance_id == served.instance_id
            &&& room.room_worker_policy == before.factory.runtime_policy.room_worker_policy
            &&& room.feature_flags == before.factory.runtime_policy.feature_flags
            &&& is_rfc3339_utc(after.directory.rooms[served.uuid@].create_date@)
            &&& is_published(
                after.directory.rooms[served.uuid@],
                room,
                remote_address,
                after.directory.rooms[served.uuid@].create_date,
                before.ttl,
                before.grace,
                now,
            )
            &&& after == (Registry {
                directory: before.directory.with_entry(after.directory.rooms[served.uuid@]),
                factory: before.factory.after_room(),
                ..before
            })
            &&& before.directory.agrees() && before.directory.admits(room)
                ==> after.directory.agrees()
        },
        Some(entry) => if entry.room.reserved_by(key, config) {
            &&& r matches Ok(served) && served.uuid@ == before.directory.by_issuer[issuer]
                && served.instance_id == entry.room.instance_id && served.context is None
            &&& relived(
                before.directory,
                after.directory,
                before.directory.by_issuer[issuer],
                entry.lifecycle@.after_renewal(now),
            )
            &&& after == (Registry { directory: after.directory, ..before })
            &&& before.directory.agrees() ==> after.directory.agrees()
        } else {
            r == Err::<ServedRoom, RoomManagerServeError>(
                RoomManagerServeError::ConflictingReservation,
            ) && after == before
        },
    }
}

/// How work on a room begins.
pub open spec fn begins(
    before: Registry,
    room_id: Seq<char>,
    after: Registry,
    r: Option<CurrentRoomMutation>,
) -> bool {
    &&& after == (Registry { directory: after.directory, ..before })
    &&& match r {
        Some(mutation) => {
            &&& before.directory.rooms.contains_key(room_id)
            &&& before.lifecycle(room_id).admits()
            &&& mutation.room_id@ == room_id
            &&& mutation.instance_id == before.directory.rooms[room_id].room.instance_id
            &&& mutation.lease.held()
            &&& relived(
                before.directory,
                after.directory,
                room_id,
                Lifecycle {
                    leases: (before.lifecycle(room_id).leases + 1) as usize,
                    ..before.lifecycle(room_id)
                },
            )
        },
        None => !(before.directory.rooms.contains_key(room_id) && before.lifecycle(
            room_id,
        ).admits()) && after == before,
    }
    &&& before.directory.agrees() ==> after.directory.agrees()
}

/// How a join begins.
pub open spec fn begins_join(
    before: Registry,
    room_id: Seq<char>,
    after: Registry,
    r: Result<CurrentRoomMutation, RoomManagerJoinError>,
) -> bool {
    &&& after == (Registry { directory: after.directory, ..before })
    &&& r is Ok <==> before.directory.rooms.contains_key(room_id) && before.lifecycle(
        room_id,
    ).admits()
    &&& match r {
        Ok(mutation) => {
            &&& mutation.room_id@ == room_id
            &&& mutation.instance_id == before.directory.rooms[room_id].room.instance_id
            &&& mutation.lease.held()
            &&& relived(
                before.directory,
                after.directory,
                room_id,
                Lifecycle {
                    leases: (before.lifecycle(room_id).leases + 1) as usize,
                    ..before.lifecycle(room_id)
                },
            )
        },
        Err(error) => error == RoomManagerJoinError::MissingRoom && after == before,
    }
    &&& before.directory.agrees() ==> after.directory.agrees()
}

/// What an accepted join makes of the room.
pub open spec fn accepts(before: Registry, mutation: CurrentRoomMutation, after: Registry) -> bool {
    &&& after == (Registry { directory: after.directory, ..before })
    &&& if before.holds(mutation) {
        relived(
            before.directory,
            after.directory,
            mutation.room_id@,
            Lifecycle { phase: RoomLifecyclePhase::Alive, ..before.lifecycle(mutation.room_id@) },
        )
    } else {
        after == before
    }
    &&& before.directory.agrees() ==> after.directory.agrees()
}

/// How work on a room ends.
pub open spec fn finishes(
    before: Registry,
    mutation: CurrentRoomMutation,
    on_empty: Option<RoomRemovalPolicy>,
    room_is_empty: bool,
    now: Moment,
    after: Registry,
    r: bool,
) -> bool {
    &&& after == (Registry { directory: after.directory, ..before })
    &&& r == (before.holds(mutation) && before.lifecycle(mutation.room_id@).removes(
        on_empty,
        room_is_empty,
    ))
    &&& if r {
        after.directory == before.directory.without(mutation.room_id@)
    } else if before.holds(mutation) {
        relived(
            before.directory,
            after.directory,
            mutation.room_id@,
            before.lifecycle(mutation.room_id@).after_release(on_empty, room_is_empty, now),
        )
    } else {
        after == before
    }
    &&& before.directory.agrees() ==> after.directory.agrees()
}

/// How a refused join ends.
pub open spec fn refuses(
    before: Registry,
    mutation: CurrentRoomMutation,
    refusal: RoomJoinError,
    room_is_empty: bool,
    now: Moment,
    after: Registry,
    r: RoomManagerJoinError,
) -> bool {
    &&& r == RoomManagerJoinError::reporting(refusal)
    &&& after == (Registry { directory: after.directory, ..before })
    &&& if before.holds(mutation) && before.lifecycle(mutation.room_id@).removes(
        None,
        room_is_empty,
    ) {
        after.directory == before.directory.without(mutation.room_id@)
    } else if before.holds(mutation) {
        relived(
            before.directory,
            after.directory,
            mutation.room_id@,
            before.lifecycle(mutation.room_id@).after_release(None, room_is_empty, now),
        )
    } else {
        after == before
    }
    &&& before.directory.agrees() ==> after.directory.agrees()
}

/// How an accepted join ends.
pub open spec fn concludes(
    before: Registry,
    mutation: CurrentRoomMutation,
    transport_session_key: TransportSessionKey,
    room_is_empty: bool,
    now: Moment,
    after: Registry,
    r: RoomUserAdmission,
) -> bool {
    &&& r.room_id@ == mutation.room_id@
    &&& r.connection_id == transport_session_key.connection
    &&& r.transport_session_key == transport_session_key
    &&& after == (Registry { directory: after.directory, ..before })
    &&& if before.holds(mutation) && before.lifecycle(mutation.room_id@).removes(
        None,
        room_is_empty,
    ) {
        after.directory == before.directory.without(mutation.room_id@)
    } else if before.holds(mutation) {
        relived(
            before.directory,
            after.directory,
            mutation.room_id@,
            before.lifecycle(mutation.room_id@).after_release(None, room_is_empty, now),
        )
    } else {
        after == before
    }
    &&& before.directory.agrees() ==> after.directory.agrees()
}

/// What is left of work that was dropped.
pub open spec fn abandons(
    before: Registry,
    mutation: CurrentRoomMutation,
    after: Registry,
) -> bool {
    &&& after == (Registry { directory: after.directory, ..before })
    &&& if before.holds(mutation) {
        relived(
            before.directory,
            after.directory,
            mutation.room_id@,
            before.lifecycle(mutation.room_id@).after_release(None, false, Moment(0)),
        )
    } else {
        after == before
    }
    &&& before.directory.agrees() ==> after.directory.agrees()
}

/// Serving is idempotent: once a room is published, the request that created it is
/// answered with that room, and so is every request that agrees with it.
pub proof fn a_published_room_answers_its_issuer(
    d: Directory,
    entry: RoomDirectoryEntry,
    key: RoomKey,
    config: RoomConfig,
)
    ensures
        d.with_entry(entry).of_issuer(entry.room.issuer@) == Some(entry),
        entry.room.reserved_by(entry.room.key, entry.room.config),
        entry.room.reserved_by(key, config) <==> key.secret() == entry.room.key.secret()
            && entry.room.config.agrees(config),
{
}

/// A change of a room's lifecycle changes nothing that requests are answered by: every
/// issuer and every instance keeps its room.
pub proof fn lifecycles_leave_the_indexes_alone(
    d: Directory,
    uuid: Seq<char>,
    lifecycle: RoomLifecycle,
    issuer: Seq<char>,
)
    requires
        d.agrees(),
        d.rooms.contains_key(uuid),
    ensures
        d.with_lifecycle(uuid, lifecycle).agrees(),
        d.with_lifecycle(uuid, lifecycle).of_issuer(issuer) is Some <==> d.of_issuer(issuer) is Some,
        d.of_issuer(issuer) is Some ==> d.with_lifecycle(uuid, lifecycle).of_issuer(
            issuer,
        )->0.room == d.of_issuer(issuer)->0.room,
{
}

/// A refused join leaves no trace: whatever other work is under way, the lifecycle is
/// what it was before the join began, and a deadline is neither extended nor retired.
pub proof fn a_refused_join_leaves_no_trace(before: Lifecycle, room_is_empty: bool, now: Moment)
    requires
        before.consistent(),
        before.admits(),
    ensures
        ({
            let joining = Lifecycle { leases: (before.leases + 1) as usize, ..before };
            &&& !joining.removes(None, room_is_empty)
            &&& joining.after_release(None, room_is_empty, now) == before
        }),
{
}

/// A join that was accepted retires the deadline for good: no later pass claims the
/// room and no later request sets the deadline again.
pub proof fn an_accepted_join_retires_the_deadline(
    before: Lifecycle,
    room_is_empty: bool,
    now: Moment,
    later: Moment,
)
    requires
        before.consistent(),
        before.admits(),
    ensures
        ({
            let joined = Lifecycle {
                leases: (before.leases + 1) as usize,
                phase: RoomLifecyclePhase::Alive,
                ..before
            };
            let after = joined.after_release(None, room_is_empty, now);
            &&& !joined.removes(None, room_is_empty)
            &&& after.phase == RoomLifecyclePhase::Alive
            &&& after.claimed(later) is None
            &&& after.after_renewal(later) == after
        }),
{
}

/// An expired room frees its issuer: after the pass that claimed it, the next request of
/// the issuer is answered with a new room.
pub proof fn an_expired_room_frees_its_issuer(d: Directory, uuid: Seq<char>, now: Moment)
    requires
        d.agrees(),
        d.rooms.contains_key(uuid),
        enumerates::<String>(room_order(d.rooms), d.rooms.dom()),
        d.rooms[uuid].lifecycle@.claimed(now) is Some,
    ensures
        reaped(d, room_order(d.rooms), now).agrees(),
        !reaped(d, room_order(d.rooms), now).rooms.contains_key(uuid),
        reaped(d, room_order(d.rooms), now).of_issuer(d.rooms[uuid].room.issuer@) is None,
{
    let order = room_order(d.rooms);
    assert forall|a: int, b: int|
        0 <= a < order.len() && 0 <= b < order.len() && a != b implies order[a] != order[b] by {
        if order[a] == order[b] {
            crate::ord_map::lemma_increasing_distinct::<String>(order, a, b);
        }
    }
    assert(order.no_duplicates());
    assert forall|a: int| 0 <= a < order.len() implies d.rooms.contains_key(
        #[trigger] order[a],
    ) by {
        assert(order.contains(order[a]));
    }
    lemma_reaped(d, order, now);
    let after = reaped(d, order, now);
    let issuer = d.rooms[uuid].room.issuer@;
    assert(order.contains(uuid));
    if after.of_issuer(issuer) is Some {
        let other = after.by_issuer[issuer];
        assert(after.rooms.contains_key(other));
        assert(after.rooms[other].room.issuer@ == issuer);
        assert(d.rooms.contains_key(other) && d.rooms[other] == after.rooms[other]);
        assert(d.by_issuer[issuer] == other && d.by_issuer[issuer] == uuid);
    }
}

} // verus!
