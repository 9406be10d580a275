//! Creation of rooms that are new to the directory.
//!
//! A new room receives an instance and a primary router of its own. Its workers are
//! chosen when sessions arrive.

use vstd::prelude::*;

use crate::definition::{is_uuid, RoomConfig, RoomDefinition, RoomKey, RoomRuntimePolicy};
use crate::ids::{RoomInstanceId, RouterId};
use crate::placement::RoomRuntimeContext;

verus! {

/// A counter after one id was given out; the last id is given out for good.
pub open spec fn counted_up(counter: u64) -> u64 {
    if counter == u64::MAX {
        counter
    } else {
        (counter + 1) as u64
    }
}

/// Rules of new rooms and the counters that place them.
pub struct RoomFactory {
    pub runtime_policy: RoomRuntimePolicy,
    pub next_room_instance_id: u64,
    pub next_router_id: u64,
}

/// A room that is not published yet, and where it starts.
pub struct CreatedRoom {
    pub definition: RoomDefinition,
    pub context: RoomRuntimeContext,
}

impl RoomFactory {
    pub fn new(runtime_policy: RoomRuntimePolicy) -> (r: Self)
        ensures
            r == (RoomFactory { runtime_policy, next_room_instance_id: 0, next_router_id: 0 }),
    {
        RoomFactory { runtime_policy, next_room_instance_id: 0, next_router_id: 0 }
    }

    /// The factory after it placed a room.
    pub open spec fn after_room(self) -> Self {
        RoomFactory {
            next_room_instance_id: counted_up(self.next_room_instance_id),
            next_router_id: counted_up(self.next_router_id),
            ..self
        }
    }

    /// Reserves the instance and the primary router of one room.
    pub fn allocate_runtime_context(&mut self) -> (r: RoomRuntimeContext)
        ensures
            *final(self) == old(self).after_room(),
            r.instance_of() == RoomInstanceId(old(self).next_room_instance_id),
            r.router_of() == RouterId(old(self).next_router_id),
            r.placements_of() is None,
    {
        let instance = RoomInstanceId(self.next_room_instance_id);
        self.next_room_instance_id = self.next_room_instance_id.saturating_add(1);
        let router = RouterId(self.next_router_id);
        self.next_router_id = self.next_router_id.saturating_add(1);
        RoomRuntimeContext::new_unassigned(instance, router)
    }

    /// Reserves a router for a room that spills over.
    pub fn allocate_spillover_router(&mut self) -> (r: RouterId)
        ensures
            r == RouterId(old(self).next_router_id),
            *final(self) == (RoomFactory {
                next_router_id: counted_up(old(self).next_router_id),
                ..*old(self)
            }),
    {
        let router = RouterId(self.next_router_id);
        self.next_router_id = self.next_router_id.saturating_add(1);
        router
    }

    /// Creates a room that is not published yet.
    pub fn create(&mut self, issuer: &str, key: RoomKey, config: &RoomConfig) -> (r: CreatedRoom)
        ensures
            *final(self) == old(self).after_room(),
            is_uuid(r.definition.uuid@),
            r.definition.issuer@ == issuer@,
            r.definition.key == key,
            r.definition.config == *config,
            r.definition.instance_id == RoomInstanceId(old(self).next_room_instance_id),
            r.definition.room_worker_policy == old(self).runtime_policy.room_worker_policy,
            r.definition.feature_flags == old(self).runtime_policy.feature_flags,
            r.context.instance_of() == r.definition.instance_id,
            r.context.router_of() == RouterId(old(self).next_router_id),
            r.context.placements_of() is None,
    {
        let context = self.allocate_runtime_context();
        let definition = RoomDefinition::new(
            &context,
            &self.runtime_policy,
            issuer.to_owned(),
            key,
            config.clone(),
        );
        CreatedRoom { definition, context }
    }
}

/// Rooms and routers are numbered apart: what is given out later has a larger number,
/// as long as the counters have not run out.
pub proof fn allocation_is_monotonic(factory: RoomFactory)
    requires
        factory.next_room_instance_id < u64::MAX,
        factory.next_router_id < u64::MAX,
    ensures
        factory.after_room().next_room_instance_id > factory.next_room_instance_id,
        factory.after_room().next_router_id > factory.next_router_id,
{
}

} // verus!
