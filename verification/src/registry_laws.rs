//! How long rooms live, and what the requests of their issuers get.

use vstd::prelude::*;

use crate::definition::{RoomConfig, RoomDefinition, RoomKey};
use crate::directory::{room_order, Directory, RoomDirectoryEntry};
use crate::factory::RoomFactory;
use crate::ids::RoomInstanceId;
use crate::lifecycle::{ExpiryReason, Lifecycle, RoomLifecyclePhase, RoomRemovalPolicy};
use crate::manager::{
    abandons, accepts, begins, begins_join, claims, concludes, current_rooms, finishes, gauges_of,
    is_row, lemma_reaped, reaped, refuses, retrieves, serves, CurrentRoomMutation, Registry,
    RoomGauge, RoomManagerJoinError, RoomManagerServeError, RoomUserAdmission,
    RuntimeRoomDirectorySnapshot, ServedRoom,
};
use crate::ord_map::lemma_sorted_lists;
use crate::source_model::Moment;
use crate::state::RoomJoinError;
use crate::transport::TransportSessionKey;

verus! {

/// A room that nobody joined lapses at the end of its reservation, and a room that
/// everybody left at the end of its grace, not a moment before. A room with users and one
/// that is being removed never lapse.
pub proof fn rooms_lapse_at_their_deadline(l: Lifecycle, now: Moment)
    ensures
        l.phase matches RoomLifecyclePhase::Reservation { expires_at } ==> {
            &&& l.claimed(now) == Some(ExpiryReason::ReservationLapsed) <==> l.leases == 0
                && expires_at.0 <= now.0
            &&& l.claimed(now) is None <==> l.leases > 0 || now.0 < expires_at.0
        },
        l.phase matches RoomLifecyclePhase::Grace { expires_at } ==> {
            &&& l.claimed(now) == Some(ExpiryReason::GraceElapsed) <==> l.leases == 0
                && expires_at.0 <= now.0
            &&& l.claimed(now) is None <==> l.leases > 0 || now.0 < expires_at.0
        },
        l.phase is Alive || l.phase is Closing ==> l.claimed(now) is None,
        l.claimed(now) is Some <==> l.after_claim(now).phase is Closing && !(l.phase is Closing),
{
}

/// A renewal gives a room that nobody is in a whole reservation from then on, whatever
/// deadline it had.
pub proof fn a_renewal_starts_a_whole_reservation(l: Lifecycle, now: Moment, later: Moment)
    requires
        l.leases == 0,
        l.phase is Reservation || l.phase is Grace,
        now.0 + l.ttl <= u128::MAX,
    ensures
        l.after_renewal(now).claimed(later) is Some <==> now.0 + l.ttl <= later.0,
        l.after_renewal(now).claimed(later) is Some ==> l.after_renewal(now).claimed(later)
            == Some(ExpiryReason::ReservationLapsed),
        l.after_renewal(now).admits() <==> l.admits(),
{
}

/// A room whose last user left waits out its grace: it lapses when the grace is over and
/// not before. Without a grace it is removed at once.
pub proof fn an_empty_room_waits_out_its_grace(l: Lifecycle, now: Moment, later: Moment)
    requires
        l.phase is Alive,
        l.leases == 1,
        l.pending is None,
        now.0 + l.grace <= u128::MAX,
    ensures
        ({
            let after = l.after_release(Some(RoomRemovalPolicy::AfterGrace), true, now);
            &&& l.removes(Some(RoomRemovalPolicy::AfterGrace), true) <==> l.grace == 0
            &&& l.grace > 0 ==> {
                &&& after.claimed(later) is Some <==> now.0 + l.grace <= later.0
                &&& after.claimed(later) is Some ==> after.claimed(later) == Some(
                    ExpiryReason::GraceElapsed,
                )
                &&& after.admits()
            }
            &&& l.grace == 0 ==> !after.admits()
        }),
{
}

/// A removal without grace removes a room with the last work on it, and a room that is not
/// empty is never removed, whatever was asked.
pub proof fn rooms_in_use_are_not_removed(
    l: Lifecycle,
    on_empty: Option<RoomRemovalPolicy>,
    now: Moment,
)
    requires
        l.consistent(),
        l.leases > 0,
    ensures
        l.removes(Some(RoomRemovalPolicy::Immediately), true) <==> l.leases == 1,
        !l.removes(on_empty, false),
        l.after_release(on_empty, false, now).phase == l.phase,
        l.leases == 1 ==> l.after_release(on_empty, false, now).pending is None,
        l.after_release(on_empty, false, now).leases == l.leases - 1,
{
}

/// Of two pieces of work the stronger removal prevails, whichever ends first, as long as
/// the room is empty in the end; and while a removal without grace waits no further work
/// begins.
pub proof fn the_stronger_removal_prevails(
    l: Lifecycle,
    first: Option<RoomRemovalPolicy>,
    second: Option<RoomRemovalPolicy>,
    now: Moment,
    later: Moment,
)
    requires
        l.phase is Alive,
        l.leases == 2,
        l.pending is None,
        l.grace > 0,
        now.0 + l.grace <= u128::MAX,
        later.0 + l.grace <= u128::MAX,
    ensures
        ({
            let middle = l.after_release(first, true, now);
            let after = middle.after_release(second, true, later);
            let at_once = first == Some(RoomRemovalPolicy::Immediately) || second == Some(
                RoomRemovalPolicy::Immediately,
            );
            &&& middle.phase is Alive && middle.leases == 1
            &&& middle.removes(second, true) <==> at_once
            &&& after.phase is Closing <==> at_once
            &&& after.phase is Grace <==> !at_once && (first is Some || second is Some)
            &&& after.phase is Alive <==> first is None && second is None
            &&& first == Some(RoomRemovalPolicy::Immediately) ==> !middle.admits()
            &&& first != Some(RoomRemovalPolicy::Immediately) ==> middle.admits()
        }),
{
}

/// Work begins on every room that is not being removed and has a lease to give, and it
/// takes that one lease and nothing else; dropping it gives the lease back.
pub proof fn work_takes_one_lease(l: Lifecycle)
    requires
        l.consistent(),
        !(l.phase is Closing),
        l.pending is None,
        l.leases < usize::MAX,
    ensures
        l.admits(),
        l.after_begin().leases == l.leases + 1,
        l.after_begin().phase == l.phase,
        l.after_begin().after_release(None, false, Moment(0)) == l,
        !(Lifecycle { phase: RoomLifecyclePhase::Closing, ..l }).admits(),
        !(Lifecycle { pending: Some(RoomRemovalPolicy::Immediately), ..l }).admits(),
        (Lifecycle { pending: Some(RoomRemovalPolicy::AfterGrace), ..l }).admits(),
{
}

/// A request is served with the issuer's room exactly where it names the same secret and
/// the same settings; else it is refused, and the room is left as it is. Asking again is
/// answered with the same room.
pub proof fn an_issuer_keeps_its_room(
    before: Registry,
    issuer: Seq<char>,
    key: RoomKey,
    config: RoomConfig,
    address: Option<&str>,
    now: Moment,
    middle: Registry,
    served: ServedRoom,
    key_again: RoomKey,
    config_again: RoomConfig,
    address_again: Option<&str>,
    later: Moment,
    after: Registry,
    r: Result<ServedRoom, RoomManagerServeError>,
)
    requires
        serves(before, issuer, key, config, address, now, middle, Ok(served)),
        serves(middle, issuer, key_again, config_again, address_again, later, after, r),
        before.directory.of_issuer(issuer) is None,
    ensures
        ({
            let same = key_again.secret() == key.secret() && config_again.web_rtc_enabled
                == config.web_rtc_enabled && match (
                config_again.recording_address,
                config.recording_address,
            ) {
                (Some(a), Some(b)) => a@ == b@,
                (None, None) => true,
                _ => false,
            };
            &&& r is Ok <==> same
            &&& r matches Ok(again) ==> again.uuid@ == served.uuid@ && again.instance_id
                == served.instance_id && again.context is None
            &&& !same ==> after == middle
            &&& after.directory.rooms.dom() == middle.directory.rooms.dom()
            &&& after.factory == middle.factory
        }),
{
    assert(after.directory.rooms.dom() =~= middle.directory.rooms.dom());
}

/// A new room is known by its UUID, its issuer and its instance, belongs to the request
/// that made it, and nobody is in it: it lapses one reservation later. All other rooms are
/// what they were, and its number was never given out before.
pub proof fn a_new_room_is_reserved(
    before: Registry,
    issuer: Seq<char>,
    key: RoomKey,
    config: RoomConfig,
    address: Option<&str>,
    now: Moment,
    after: Registry,
    served: ServedRoom,
    other: Seq<char>,
    later: Moment,
)
    requires
        serves(before, issuer, key, config, address, now, after, Ok(served)),
        before.directory.of_issuer(issuer) is None,
        now.0 + before.ttl <= u128::MAX,
    ensures
        ({
            let uuid = served.uuid@;
            let entry = after.directory.rooms[uuid];
            &&& after.directory.rooms.contains_key(uuid)
            &&& after.directory.of_issuer(issuer) == Some(entry)
            &&& after.directory.by_instance.contains_key(served.instance_id.0)
            &&& after.directory.by_instance[served.instance_id.0] == uuid
            &&& entry.room.issuer@ == issuer
            &&& entry.room.key == key
            &&& entry.room.config == config
            &&& entry.room.instance_id.0 == before.factory.next_room_instance_id
            &&& address matches Some(text) ==> entry.remote_address@ == text@
            &&& after.lifecycle(uuid).claimed(later) is Some <==> now.0 + before.ttl <= later.0
            &&& after.lifecycle(uuid).leases == 0 && after.lifecycle(uuid).pending is None
            &&& after.lifecycle(uuid).grace == before.grace
            &&& other != uuid ==> (after.directory.rooms.contains_key(other)
                <==> before.directory.rooms.contains_key(other))
            &&& other != uuid && before.directory.rooms.contains_key(other)
                ==> after.directory.rooms[other] == before.directory.rooms[other]
            &&& before.factory.next_room_instance_id < u64::MAX
                ==> after.factory.next_room_instance_id > served.instance_id.0
        }),
{
}

/// A reservation is found exactly where the issuer has a room. It is renewed where the
/// request agrees with the room; where it does not, it is refused and not renewed.
pub proof fn a_reservation_is_renewed_by_its_owner(
    before: Registry,
    issuer: Seq<char>,
    key: RoomKey,
    config: RoomConfig,
    now: Moment,
    after: Registry,
    r: Result<Option<ServedRoom>, RoomManagerServeError>,
    later: Moment,
)
    requires
        retrieves(before, issuer, key, config, now, after, r),
        now.0 + before.ttl <= u128::MAX,
        before.directory.agrees(),
        forall|uuid: Seq<char>| #[trigger]
            before.directory.rooms.contains_key(uuid) ==> before.lifecycle(uuid).ttl == before.ttl,
    ensures
        r == Ok::<Option<ServedRoom>, RoomManagerServeError>(None)
            <==> !before.directory.by_issuer.contains_key(issuer),
        r is Err ==> after == before,
        r matches Ok(Some(served)) ==> {
            let known = before.directory.rooms[served.uuid@];
            let life = after.lifecycle(served.uuid@);
            &&& before.directory.rooms.contains_key(served.uuid@)
            &&& known.room.issuer@ == issuer
            &&& known.room.key.secret() == key.secret()
            &&& known.room.config.web_rtc_enabled == config.web_rtc_enabled
            &&& served.instance_id == known.room.instance_id
            &&& known.lifecycle@.leases == 0 && (known.lifecycle@.phase is Reservation
                || known.lifecycle@.phase is Grace) ==> (life.claimed(later) is Some <==> now.0
                + before.ttl <= later.0)
            &&& known.lifecycle@.phase is Alive || known.lifecycle@.phase is Closing ==> life
                == known.lifecycle@
        },
{
}

/// A join begins exactly on a room that is there and not being removed. Accepting it keeps
/// the room from lapsing; ending it then, with nothing to remove, leaves the room with its
/// users and as many leases as before.
pub proof fn an_accepted_join_keeps_the_room(
    before: Registry,
    room_id: Seq<char>,
    begun: Registry,
    mutation: CurrentRoomMutation,
    joined: Registry,
    session: TransportSessionKey,
    now: Moment,
    after: Registry,
    admission: RoomUserAdmission,
    later: Moment,
    room_is_empty: bool,
)
    requires
        before.directory.agrees(),
        before.directory.rooms.contains_key(room_id) ==> before.lifecycle(room_id).consistent(),
        begins_join(before, room_id, begun, Ok(mutation)),
        accepts(begun, mutation, joined),
        concludes(joined, mutation, session, room_is_empty, now, after, admission),
        before.lifecycle(room_id).pending is None,
    ensures
        before.directory.rooms.contains_key(room_id),
        !(before.lifecycle(room_id).phase is Closing),
        begun.lifecycle(room_id).leases == before.lifecycle(room_id).leases + 1,
        begun.lifecycle(room_id).phase == before.lifecycle(room_id).phase,
        joined.lifecycle(room_id).phase is Alive,
        after.directory.rooms.contains_key(room_id),
        after.lifecycle(room_id).phase is Alive,
        after.lifecycle(room_id).leases == before.lifecycle(room_id).leases,
        after.lifecycle(room_id).claimed(later) is None,
        admission.room_id@ == room_id,
        admission.transport_session_key == session,
        admission.connection_id == session.connection,
{
}

/// A refused join leaves the registry as it was, and the refusal says why: the room was
/// full, or the router failed.
pub proof fn a_refused_join_changes_nothing(
    before: Registry,
    room_id: Seq<char>,
    begun: Registry,
    mutation: CurrentRoomMutation,
    refusal: RoomJoinError,
    room_is_empty: bool,
    now: Moment,
    after: Registry,
    r: RoomManagerJoinError,
)
    requires
        before.directory.rooms.contains_key(room_id) ==> before.lifecycle(room_id).consistent(),
        begins_join(before, room_id, begun, Ok(mutation)),
        refuses(begun, mutation, refusal, room_is_empty, now, after, r),
    ensures
        after.directory.rooms.dom() == before.directory.rooms.dom(),
        after.lifecycle(room_id) == before.lifecycle(room_id),
        after.directory.by_issuer == before.directory.by_issuer,
        after.directory.by_instance == before.directory.by_instance,
        r is RoomFull <==> refusal is RoomFull,
        r is RouterState <==> refusal is RouterState,
{
    let l = before.lifecycle(room_id);
    crate::manager::a_refused_join_leaves_no_trace(l, room_is_empty, now);
    assert(after.directory.rooms.dom() =~= before.directory.rooms.dom());
}

/// A join on a room that is not there, or is being removed, is answered that the room is
/// missing, and no other begin succeeds there either.
pub proof fn missing_rooms_are_not_joined(
    before: Registry,
    room_id: Seq<char>,
    after: Registry,
    r: Result<CurrentRoomMutation, RoomManagerJoinError>,
    begun: Registry,
    work: Option<CurrentRoomMutation>,
)
    requires
        begins_join(before, room_id, after, r),
        begins(before, room_id, begun, work),
    ensures
        !before.directory.rooms.contains_key(room_id) || before.lifecycle(room_id).phase is Closing
            ==> r == Err::<CurrentRoomMutation, _>(RoomManagerJoinError::MissingRoom) && after
            == before && work is None && begun == before,
        r is Ok <==> work is Some,
        r is Err ==> after == before,
        r matches Ok(mutation) ==> mutation.instance_id
            == before.directory.rooms[room_id].room.instance_id && mutation.room_id@ == room_id,
{
}

/// Work that leaves a room empty and asks for its removal takes the room away: its UUID,
/// its issuer and its instance are free again. Work on a room that was replaced meanwhile
/// removes nothing. No other room is touched either way.
pub proof fn removal_takes_one_room(
    before: Registry,
    mutation: CurrentRoomMutation,
    on_empty: Option<RoomRemovalPolicy>,
    room_is_empty: bool,
    now: Moment,
    after: Registry,
    r: bool,
    other: Seq<char>,
)
    requires
        before.directory.agrees(),
        finishes(before, mutation, on_empty, room_is_empty, now, after, r),
    ensures
        ({
            let uuid = mutation.room_id@;
            let known = before.directory.rooms[uuid];
            let current = before.directory.rooms.contains_key(uuid) && known.room.instance_id
                == mutation.instance_id && known.lifecycle@.leases > 0;
            &&& !current ==> !r && after == before
            &&& r ==> !after.directory.rooms.contains_key(uuid) && after.directory.of_issuer(
                known.room.issuer@,
            ) is None && !after.directory.by_instance.contains_key(mutation.instance_id.0)
            &&& current && room_is_empty && known.lifecycle@.leases == 1 && on_empty == Some(
                RoomRemovalPolicy::Immediately,
            ) ==> r
            &&& !room_is_empty ==> !r
            &&& !r ==> after.directory.rooms.dom() == before.directory.rooms.dom()
            &&& other != uuid ==> (after.directory.rooms.contains_key(other)
                <==> before.directory.rooms.contains_key(other))
            &&& other != uuid && before.directory.rooms.contains_key(other)
                ==> after.directory.rooms[other] == before.directory.rooms[other]
            &&& after.factory == before.factory
        }),
{
    assert(!r ==> after.directory.rooms.dom() =~= before.directory.rooms.dom());
}

/// Work that is dropped removes no room and gives back its lease.
pub proof fn dropped_work_removes_nothing(
    before: Registry,
    mutation: CurrentRoomMutation,
    after: Registry,
)
    requires
        abandons(before, mutation, after),
        before.directory.current(mutation.room_id@, mutation.instance_id),
        before.lifecycle(mutation.room_id@).leases > 0,
    ensures
        after.directory.rooms.dom() == before.directory.rooms.dom(),
        after.lifecycle(mutation.room_id@).leases == before.lifecycle(mutation.room_id@).leases - 1,
        after.lifecycle(mutation.room_id@).phase == before.lifecycle(mutation.room_id@).phase,
{
    assert(after.directory.rooms.dom() =~= before.directory.rooms.dom());
}

/// A pass over the rooms names those that lapsed, each with its reason, and no other.
pub proof fn lapsed_rooms_are_named(
    d: Directory,
    uuids: Seq<Seq<char>>,
    now: Moment,
    uuid: Seq<char>,
    reason: ExpiryReason,
)
    ensures
        claims(d, uuids, now).contains((uuid, reason)) <==> uuids.contains(uuid)
            && d.rooms[uuid].lifecycle@.claimed(now) == Some(reason),
        claims(d, uuids, now).len() <= uuids.len(),
    decreases uuids.len(),
{
    let named = claims(d, uuids, now);
    if uuids.len() > 0 {
        let fewer = uuids.drop_last();
        lapsed_rooms_are_named(d, fewer, now, uuid, reason);
        let before = claims(d, fewer, now);
        if uuids.contains(uuid) && uuids.last() != uuid {
            assert(fewer[uuids.index_of(uuid)] == uuid);
        }
        if fewer.contains(uuid) {
            assert(uuids[fewer.index_of(uuid)] == uuid);
        }
        if before.contains((uuid, reason)) {
            assert(named[before.index_of((uuid, reason))] == (uuid, reason));
        }
        if uuids.last() == uuid {
            assert(uuids[uuids.len() - 1] == uuid);
            if d.rooms[uuid].lifecycle@.claimed(now) == Some(reason) {
                assert(named[named.len() - 1] == (uuid, reason));
            }
        }
        if named.contains((uuid, reason)) && !before.contains((uuid, reason)) {
            let i = named.index_of((uuid, reason));
            if i < before.len() {
                assert(before[i] == (uuid, reason));
            }
        }
    }
}

/// Looking rooms up by their instances finds those that are current, and no other.
pub proof fn instances_find_their_rooms(
    d: Directory,
    instances: Seq<RoomInstanceId>,
    uuid: Seq<char>,
)
    requires
        d.agrees(),
    ensures
        current_rooms(d, instances).contains(uuid) <==> d.rooms.contains_key(uuid)
            && instances.contains(d.rooms[uuid].room.instance_id),
    decreases instances.len(),
{
    let found = current_rooms(d, instances);
    if instances.len() > 0 {
        let fewer = instances.drop_last();
        let before = current_rooms(d, fewer);
        instances_find_their_rooms(d, fewer, uuid);
        let last = instances.last();
        if before.contains(uuid) {
            assert(found[before.index_of(uuid)] == uuid);
            assert(instances[fewer.index_of(d.rooms[uuid].room.instance_id)]
                == d.rooms[uuid].room.instance_id);
        }
        if d.rooms.contains_key(uuid) {
            let own = d.rooms[uuid].room.instance_id;
            assert(d.by_instance.contains_key(own.0) && d.by_instance[own.0] == uuid);
            if instances.contains(own) && last != own {
                assert(fewer[instances.index_of(own)] == own);
            }
            if last == own {
                assert(found[found.len() - 1] == uuid);
                assert(instances[instances.len() - 1] == own);
            }
        }
        if found.contains(uuid) && !before.contains(uuid) {
            let i = found.index_of(uuid);
            if i < before.len() {
                assert(before[i] == uuid);
            }
            assert(d.by_instance.contains_key(last.0) && d.by_instance[last.0] == uuid);
            assert(d.rooms[uuid].room.instance_id.0 == last.0);
            assert(instances[instances.len() - 1] == last);
        }
    }
}

/// One more room adds itself to the gauges: its users, publications and subscriptions, and
/// one recording where it records.
pub proof fn gauges_add_up(rooms: Seq<RoomGauge>, room: RoomGauge)
    requires
        rooms.len() < usize::MAX,
        gauges_of(rooms).users + room.users <= usize::MAX,
        gauges_of(rooms).publications + room.publications <= usize::MAX,
        gauges_of(rooms).subscriptions + room.subscriptions <= usize::MAX,
        gauges_of(rooms).recording_rooms < usize::MAX,
    ensures
        ({
            let before = gauges_of(rooms);
            let after = gauges_of(rooms.push(room));
            &&& after.rooms == rooms.len() + 1
            &&& after.users == before.users + room.users
            &&& after.publications == before.publications + room.publications
            &&& after.subscriptions == before.subscriptions + room.subscriptions
            &&& after.recording_rooms == before.recording_rooms + if room.recording_state.recording
                == Some(true) {
                1int
            } else {
                0
            }
        }),
{
    assert(rooms.push(room).drop_last() =~= rooms);
}

/// A room offers what its settings enable. What needs a recording is offered only where one
/// can be kept, and only under its own flag.
pub proof fn rooms_offer_what_is_enabled(room: RoomDefinition)
    ensures
        room.offers().rtc <==> room.config.web_rtc_enabled,
        room.offers().transcription ==> room.feature_flags.transcription,
        room.offers().audio_recording ==> room.feature_flags.audio_recording,
        room.offers().video_recording ==> room.feature_flags.video_recording,
        room.offers().transcription || room.offers().audio_recording
            || room.offers().video_recording ==> room.config.recording_address is Some
            && room.records(),
        room.records() && room.feature_flags.transcription ==> room.offers().transcription,
        room.records() && room.feature_flags.audio_recording ==> room.offers().audio_recording,
        room.records() && room.feature_flags.video_recording ==> room.offers().video_recording,
        !crate::definition::keeps_recordings() ==> !room.records(),
{
}

/// Every room that is made has numbers of its own: it shares neither its instance nor its
/// router with one that was made before, as long as the counters have not run out.
pub proof fn rooms_are_numbered_apart(first: RoomFactory, second: RoomFactory)
    requires
        second.next_room_instance_id >= first.after_room().next_room_instance_id,
        second.next_router_id >= first.after_room().next_router_id,
        first.next_room_instance_id < u64::MAX,
        first.next_router_id < u64::MAX,
    ensures
        second.next_room_instance_id != first.next_room_instance_id,
        second.next_router_id != first.next_router_id,
        first.after_room().next_room_instance_id == first.next_room_instance_id + 1,
        first.after_room().next_router_id == first.next_router_id + 1,
        first.after_room().runtime_policy == first.runtime_policy,
{
}

/// A room that is entered in the directory is found under each of its names, and the
/// rooms of other issuers are found as before.
pub proof fn entered_rooms_are_found(d: Directory, entry: RoomDirectoryEntry, issuer: Seq<char>)
    requires
        d.agrees(),
        d.admits(entry.room),
    ensures
        d.with_entry(entry).rooms[entry.room.uuid@] == entry,
        d.with_entry(entry).of_issuer(entry.room.issuer@) == Some(entry),
        d.with_entry(entry).by_instance[entry.room.instance_id.0] == entry.room.uuid@,
        issuer != entry.room.issuer@ ==> d.with_entry(entry).of_issuer(issuer) == d.of_issuer(
            issuer,
        ),
        d.with_entry(entry).agrees(),
        d.with_entry(entry).without(entry.room.uuid@) == d,
{
    let after = d.with_entry(entry);
    assert(after.without(entry.room.uuid@).rooms =~= d.rooms);
    assert(after.without(entry.room.uuid@).by_issuer =~= d.by_issuer);
    assert(after.without(entry.room.uuid@).by_instance =~= d.by_instance);
}

/// A pass over the rooms removes those that lapsed and keeps all others as they are.
pub proof fn only_lapsed_rooms_are_removed(d: Directory, now: Moment, uuid: Seq<char>)
    requires
        d.agrees(),
        d.rooms.dom().finite(),
    ensures
        ({
            let after = reaped(d, room_order(d.rooms), now);
            &&& after.rooms.contains_key(uuid) <==> d.rooms.contains_key(uuid)
                && d.rooms[uuid].lifecycle@.claimed(now) is None
            &&& after.rooms.contains_key(uuid) ==> after.rooms[uuid] == d.rooms[uuid]
            &&& after.rooms.contains_key(uuid) ==> after.of_issuer(d.rooms[uuid].room.issuer@)
                == Some(d.rooms[uuid])
            &&& after.agrees()
        }),
{
    let order = room_order(d.rooms);
    lemma_sorted_lists::<String>(d.rooms.dom());
    assert forall|a: int, b: int|
        0 <= a < order.len() && 0 <= b < order.len() && a != b implies order[a] != order[b] by {
        if order[a] == order[b] {
            crate::ord_map::lemma_increasing_distinct::<String>(order, a, b);
        }
    }
    assert(order.no_duplicates());
    assert forall|a: int| 0 <= a < order.len() implies d.rooms.contains_key(
        #[trigger] order[a],
    ) by {
        assert(order.contains(order[a]));
    }
    assert(order.contains(uuid) <==> d.rooms.dom().contains(uuid));
    lemma_reaped(d, order, now);
}

/// A room is listed as it was entered.
pub proof fn rooms_are_listed_as_entered(
    row: RuntimeRoomDirectorySnapshot,
    entry: RoomDirectoryEntry,
)
    requires
        is_row(row, entry),
    ensures
        row.uuid@ == entry.room.uuid@,
        row.instance_id == entry.room.instance_id,
        row.create_date@ == entry.create_date@,
        row.remote_address@ == entry.remote_address@,
{
}

} // verus!
