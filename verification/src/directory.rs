//! Current rooms, by UUID, by issuer and by instance.

use vstd::prelude::*;

use crate::definition::RoomDefinition;
use crate::ids::RoomInstanceId;
use crate::lifecycle::{Lifecycle, RoomLifecycle};
use crate::ord_map::{enumerates, sorted, OrdMap};
use crate::source_model::Moment;

verus! {

/// Address of a request whose origin is not known.
pub fn unknown_remote_address() -> (r: &'static str)
    ensures
        r@ == "unknown"@,
{
    "unknown"
}

pub open spec fn is_digit(c: char) -> bool {
    '0' <= c && c <= '9'
}

/// The text has the form of an RFC 3339 timestamp in UTC: date and time to the second, a
/// fraction where there is one, and `Z`.
pub open spec fn is_rfc3339_utc(text: Seq<char>) -> bool {
    &&& text.len() >= 20
    &&& forall|i: int|
        0 <= i < 19 ==> if i == 4 || i == 7 {
            #[trigger] text[i] == '-'
        } else if i == 10 {
            text[i] == 'T'
        } else if i == 13 || i == 16 {
            text[i] == ':'
        } else {
            is_digit(text[i])
        }
    &&& text.last() == 'Z'
    &&& text.len() > 20 ==> {
        &&& text.len() > 21
        &&& text[19] == '.'
        &&& forall|i: int| 20 <= i < text.len() - 1 ==> is_digit(#[trigger] text[i])
    }
}

/// `time::OffsetDateTime::now_utc`, formatted as RFC 3339 by
/// `time::OffsetDateTime::format`.
///
/// A text is a timestamp in UTC: four digits of the year, two each of month, day, hour,
/// minute and second, the digits of a fraction that is not zero, and `Z`. Which time it
/// shows is left to the system clock. There is no text where the clock shows a year that
/// RFC 3339 cannot express; a clock beyond what the crate can hold panics, which no
/// argument decides.
#[verifier::external_body]
fn clock_text() -> (r: Option<String>)
    ensures
        r matches Some(text) ==> is_rfc3339_utc(text@),
{
    time::OffsetDateTime::now_utc().format(&time::format_description::well_known::Rfc3339).ok()
}

/// A timestamp, or the epoch where there is none.
pub fn timestamp_or_epoch(timestamp: Option<String>) -> (r: String)
    ensures
        match timestamp {
            Some(text) => r == text,
            None => r@ == "1970-01-01T00:00:00Z"@,
        },
{
    match timestamp {
        Some(text) => text,
        None => "1970-01-01T00:00:00Z".to_owned(),
    }
}

/// The time of the call in RFC 3339, in UTC. Where RFC 3339 cannot express it, the epoch.
pub fn rfc3339_now() -> (r: String)
    ensures
        is_rfc3339_utc(r@),
{
    proof {
        reveal_strlit("1970-01-01T00:00:00Z");
    }
    timestamp_or_epoch(clock_text())
}

/// One current room.
pub struct RoomDirectoryEntry {
    pub room: RoomDefinition,
    pub lifecycle: RoomLifecycle,
    pub create_date: String,
    pub remote_address: String,
}

impl RoomDirectoryEntry {
    /// A room that is reserved from now on.
    pub fn new(
        room: RoomDefinition,
        remote_address: Option<&str>,
        create_date: String,
        reservation_ttl: u128,
        departure_grace: u128,
        now: Moment,
    ) -> (r: Self)
        requires
            now.0 + reservation_ttl <= u128::MAX,
        ensures
            is_published(r, room, remote_address, create_date, reservation_ttl, departure_grace, now),
    {
        let remote_address = match remote_address {
            Some(address) => address.to_owned(),
            None => unknown_remote_address().to_owned(),
        };
        RoomDirectoryEntry {
            room,
            lifecycle: RoomLifecycle::new(reservation_ttl, departure_grace, now),
            create_date,
            remote_address,
        }
    }
}

/// The entry of a room that was published at this time.
pub open spec fn is_published(
    entry: RoomDirectoryEntry,
    room: RoomDefinition,
    remote_address: Option<&str>,
    create_date: String,
    reservation_ttl: u128,
    departure_grace: u128,
    now: Moment,
) -> bool {
    &&& entry.room == room
    &&& entry.create_date == create_date
    &&& entry.remote_address@ == match remote_address {
        Some(address) => address@,
        None => "unknown"@,
    }
    &&& entry.lifecycle@.consistent()
    &&& entry.lifecycle@ == (Lifecycle {
        leases: 0,
        pending: None,
        ttl: reservation_ttl,
        grace: departure_grace,
        phase: crate::lifecycle::RoomLifecyclePhase::Reservation {
            expires_at: Moment((now.0 + reservation_ttl) as u128),
        },
    })
}

/// Current rooms by UUID.
pub type Rooms = Map<Seq<char>, RoomDirectoryEntry>;

/// A directory as mathematics.
#[verifier::ext_equal]
pub struct Directory {
    pub rooms: Rooms,
    /// UUIDs by issuer.
    pub by_issuer: Map<Seq<char>, Seq<char>>,
    /// UUIDs by instance.
    pub by_instance: Map<u64, Seq<char>>,
}

impl Directory {
    /// Every room is found under its UUID, its issuer and its instance, and every
    /// alias leads to the room it is of.
    pub open spec fn agrees(self) -> bool {
        &&& forall|uuid: Seq<char>| #[trigger]
            self.rooms.contains_key(uuid) ==> {
                let room = self.rooms[uuid].room;
                &&& room.uuid@ == uuid
                &&& self.by_issuer.contains_key(room.issuer@)
                &&& self.by_issuer[room.issuer@] == uuid
                &&& self.by_instance.contains_key(room.instance_id.0)
                &&& self.by_instance[room.instance_id.0] == uuid
            }
        &&& forall|issuer: Seq<char>| #[trigger]
            self.by_issuer.contains_key(issuer) ==> {
                let uuid = self.by_issuer[issuer];
                self.rooms.contains_key(uuid) && self.rooms[uuid].room.issuer@ == issuer
            }
        &&& forall|instance: u64| #[trigger]
            self.by_instance.contains_key(instance) ==> {
                let uuid = self.by_instance[instance];
                self.rooms.contains_key(uuid) && self.rooms[uuid].room.instance_id.0 == instance
            }
    }

    /// Nothing of the room is taken.
    pub open spec fn admits(self, room: RoomDefinition) -> bool {
        &&& !self.rooms.contains_key(room.uuid@)
        &&& !self.by_issuer.contains_key(room.issuer@)
        &&& !self.by_instance.contains_key(room.instance_id.0)
    }

    /// This instance is the current room of the UUID.
    pub open spec fn current(self, uuid: Seq<char>, instance: RoomInstanceId) -> bool {
        self.rooms.contains_key(uuid) && self.rooms[uuid].room.instance_id == instance
    }

    /// The current room of an issuer.
    pub open spec fn of_issuer(self, issuer: Seq<char>) -> Option<RoomDirectoryEntry> {
        if self.by_issuer.contains_key(issuer) && self.rooms.contains_key(self.by_issuer[issuer]) {
            Some(self.rooms[self.by_issuer[issuer]])
        } else {
            None
        }
    }

    pub open spec fn with_entry(self, entry: RoomDirectoryEntry) -> Self {
        Directory {
            rooms: self.rooms.insert(entry.room.uuid@, entry),
            by_issuer: self.by_issuer.insert(entry.room.issuer@, entry.room.uuid@),
            by_instance: self.by_instance.insert(entry.room.instance_id.0, entry.room.uuid@),
        }
    }

    /// The directory without a room and its aliases.
    pub open spec fn without(self, uuid: Seq<char>) -> Self {
        Directory {
            rooms: self.rooms.remove(uuid),
            by_issuer: self.by_issuer.remove(self.rooms[uuid].room.issuer@),
            by_instance: self.by_instance.remove(self.rooms[uuid].room.instance_id.0),
        }
    }

    /// The directory with the lifecycle of one room changed.
    pub open spec fn with_lifecycle(self, uuid: Seq<char>, lifecycle: RoomLifecycle) -> Self {
        Directory {
            rooms: self.rooms.insert(
                uuid,
                RoomDirectoryEntry { lifecycle, ..self.rooms[uuid] },
            ),
            ..self
        }
    }
}

/// Rooms in the order of their UUIDs.
pub open spec fn room_order(rooms: Rooms) -> Seq<Seq<char>> {
    sorted::<String>(rooms.dom())
}

/// Current rooms of the process.
pub struct RoomDirectory {
    by_uuid: OrdMap<String, RoomDirectoryEntry>,
    uuid_by_instance: OrdMap<RoomInstanceId, String>,
    uuid_by_issuer: OrdMap<String, String>,
}

impl RoomDirectory {
    pub closed spec fn view(&self) -> Directory {
        Directory {
            rooms: self.by_uuid@,
            by_issuer: self.uuid_by_issuer@.map_values(|uuid: String| uuid@),
            by_instance: self.uuid_by_instance@.map_values(|uuid: String| uuid@),
        }
    }

    pub closed spec fn wf(&self) -> bool {
        &&& self.by_uuid.wf()
        &&& self.uuid_by_instance.wf()
        &&& self.uuid_by_issuer.wf()
        &&& forall|uuid: Seq<char>| #[trigger]
            self.by_uuid@.contains_key(uuid) ==> self.by_uuid@[uuid].lifecycle@.consistent()
                && self.by_uuid@[uuid].room.uuid@ == uuid
    }

    /// The rooms of a well-formed directory are filed under their UUIDs, and their
    /// lifecycles are consistent.
    pub proof fn lemma_rooms(&self)
        requires
            self.wf(),
        ensures
            forall|uuid: Seq<char>| #[trigger]
                self@.rooms.contains_key(uuid) ==> self@.rooms[uuid].lifecycle@.consistent()
                    && self@.rooms[uuid].room.uuid@ == uuid,
            enumerates::<String>(room_order(self@.rooms), self@.rooms.dom()),
    {
        self.by_uuid.lemma_contents();
    }

    pub fn new() -> (r: Self)
        ensures
            r.wf(),
            r@ == (Directory {
                rooms: Map::empty(),
                by_issuer: Map::empty(),
                by_instance: Map::empty(),
            }),
            r@.agrees(),
    {
        let r = RoomDirectory {
            by_uuid: OrdMap::new(),
            uuid_by_instance: OrdMap::new(),
            uuid_by_issuer: OrdMap::new(),
        };
        proof {
            assert(r@.by_issuer =~= Map::<Seq<char>, Seq<char>>::empty());
            assert(r@.by_instance =~= Map::<u64, Seq<char>>::empty());
        }
        r
    }

    pub fn entry(&self, uuid: &str) -> (r: Option<&RoomDirectoryEntry>)
        requires
            self.wf(),
        ensures
            match r {
                Some(entry) => self@.rooms.contains_key(uuid@) && *entry == self@.rooms[uuid@],
                None => !self@.rooms.contains_key(uuid@),
            },
    {
        self.by_uuid.get(&uuid.to_owned())
    }

    pub fn get_by_uuid(&self, uuid: &str) -> (r: Option<&RoomDefinition>)
        requires
            self.wf(),
        ensures
            match r {
                Some(room) => self@.rooms.contains_key(uuid@) && *room == self@.rooms[uuid@].room,
                None => !self@.rooms.contains_key(uuid@),
            },
    {
        match self.entry(uuid) {
            Some(entry) => Some(&entry.room),
            None => None,
        }
    }

    /// The UUID that an issuer is filed under.
    pub fn uuid_of_issuer(&self, issuer: &str) -> (r: Option<&String>)
        requires
            self.wf(),
        ensures
            match r {
                Some(uuid) => self@.by_issuer.contains_key(issuer@) && uuid@
                    == self@.by_issuer[issuer@],
                None => !self@.by_issuer.contains_key(issuer@),
            },
    {
        self.uuid_by_issuer.get(&issuer.to_owned())
    }

    pub fn entry_by_issuer(&self, issuer: &str) -> (r: Option<&RoomDirectoryEntry>)
        requires
            self.wf(),
        ensures
            match r {
                Some(entry) => self@.of_issuer(issuer@) == Some(*entry),
                None => self@.of_issuer(issuer@) is None,
            },
    {
        match self.uuid_by_issuer.get(&issuer.to_owned()) {
            Some(uuid) => self.by_uuid.get(uuid),
            None => None,
        }
    }

    pub fn get_by_instance_id(&self, room_instance_id: RoomInstanceId) -> (r: Option<
        &RoomDefinition,
    >)
        requires
            self.wf(),
        ensures
            match r {
                Some(room) => self@.by_instance.contains_key(room_instance_id.0)
                    && self@.rooms.contains_key(self@.by_instance[room_instance_id.0]) && *room
                    == self@.rooms[self@.by_instance[room_instance_id.0]].room,
                None => !self@.by_instance.contains_key(room_instance_id.0)
                    || !self@.rooms.contains_key(self@.by_instance[room_instance_id.0]),
            },
    {
        match self.uuid_by_instance.get(&room_instance_id) {
            Some(uuid) => match self.by_uuid.get(uuid) {
                Some(entry) => Some(&entry.room),
                None => None,
            },
            None => None,
        }
    }

    /// Number of rooms.
    pub fn len(&self) -> (r: usize)
        requires
            self.wf(),
        ensures
            r == room_order(self@.rooms).len(),
    {
        proof {
            self.by_uuid.lemma_contents();
        }
        self.by_uuid.len()
    }

    /// UUIDs of all rooms, in order.
    pub fn room_ids(&self) -> (r: Vec<String>)
        requires
            self.wf(),
        ensures
            texts(r@) == room_order(self@.rooms),
            enumerates::<String>(texts(r@), self@.rooms.dom()),
    {
        let r = self.by_uuid.to_keys();
        proof {
            self.by_uuid.lemma_contents();
            assert(texts(r@) =~= self.by_uuid.ids());
        }
        r
    }

    /// Publishes a room under its UUID, its issuer and its instance.
    pub fn insert(&mut self, entry: RoomDirectoryEntry)
        requires
            old(self).wf(),
            entry.lifecycle@.consistent(),
        ensures
            final(self).wf(),
            final(self)@ == old(self)@.with_entry(entry),
            old(self)@.agrees() && old(self)@.admits(entry.room) ==> final(self)@.agrees(),
    {
        let ghost d = old(self)@;
        let uuid = entry.room.uuid.clone();
        self.uuid_by_issuer.insert(entry.room.issuer.clone(), uuid.clone());
        self.uuid_by_instance.insert(entry.room.instance_id, uuid.clone());
        self.by_uuid.insert(uuid, entry);
        proof {
            assert(self@.by_issuer =~= d.with_entry(entry).by_issuer);
            assert(self@.by_instance =~= d.with_entry(entry).by_instance);
        }
    }

    /// Whether this instance is the current room of the UUID.
    pub fn contains_current(&self, uuid: &str, instance: RoomInstanceId) -> (r: bool)
        requires
            self.wf(),
        ensures
            r == self@.current(uuid@, instance),
    {
        match self.entry(uuid) {
            Some(entry) => entry.room.instance_id == instance,
            None => false,
        }
    }

    /// Removes a room and its aliases, while this instance is the current one.
    pub fn remove_if_current(&mut self, uuid: &str, instance: RoomInstanceId) -> (r: bool)
        requires
            old(self).wf(),
        ensures
            final(self).wf(),
            r == old(self)@.current(uuid@, instance),
            final(self)@ == if r {
                old(self)@.without(uuid@)
            } else {
                old(self)@
            },
            old(self)@.agrees() ==> final(self)@.agrees(),
    {
        if !self.contains_current(uuid, instance) {
            return false;
        }
        let ghost d = old(self)@;
        match self.by_uuid.remove(&uuid.to_owned()) {
            None => {},
            Some(entry) => {
                let _ = self.uuid_by_issuer.remove(&entry.room.issuer);
                let _ = self.uuid_by_instance.remove(&entry.room.instance_id);
                proof {
                    assert(self@.by_issuer =~= d.without(uuid@).by_issuer);
                    assert(self@.by_instance =~= d.without(uuid@).by_instance);
                }
            },
        }
        true
    }

    /// The lifecycle of a current room.
    pub fn lifecycle_mut(&mut self, uuid: &str) -> (r: Option<&mut RoomLifecycle>)
        requires
            old(self).wf(),
        ensures
            match r {
                Some(lifecycle) => {
                    &&& old(self)@.rooms.contains_key(uuid@)
                    &&& *lifecycle == old(self)@.rooms[uuid@].lifecycle
                    &&& final(lifecycle)@.consistent() ==> final(self).wf()
                    &&& final(self)@ == old(self)@.with_lifecycle(uuid@, *final(lifecycle))
                },
                None => !old(self)@.rooms.contains_key(uuid@) && *final(self) == *old(self),
            },
    {
        let key = uuid.to_owned();
        match self.by_uuid.get_mut(&key) {
            Some(entry) => Some(&mut entry.lifecycle),
            None => None,
        }
    }
}

/// Texts of strings.
pub open spec fn texts(strings: Seq<String>) -> Seq<Seq<char>> {
    strings.map_values(|text: String| text@)
}

/// A stale removal leaves every other room alone: the issuer of the removed instance
/// keeps pointing at the room that took its place.
pub proof fn stale_removals_leave_newer_rooms(
    d: Directory,
    uuid: Seq<char>,
    stale: RoomInstanceId,
    issuer: Seq<char>,
)
    requires
        d.agrees(),
        d.of_issuer(issuer) matches Some(entry) && entry.room.instance_id != stale,
    ensures
        ({
            let after = if d.current(uuid, stale) {
                d.without(uuid)
            } else {
                d
            };
            after.of_issuer(issuer) == d.of_issuer(issuer)
        }),
{
}

/// An issuer has at most one current room, and a room it frees can be published anew.
pub proof fn removal_frees_the_issuer(d: Directory, uuid: Seq<char>)
    requires
        d.agrees(),
        d.rooms.contains_key(uuid),
    ensures
        d.of_issuer(d.rooms[uuid].room.issuer@) == Some(d.rooms[uuid]),
        d.without(uuid).of_issuer(d.rooms[uuid].room.issuer@) is None,
        d.without(uuid).agrees(),
        d.without(uuid).admits(d.rooms[uuid].room),
{
}

} // verus!
