use std::cell::Cell;

use sfu_room::ids::{MediaWorkerId, RoomInstanceId, RouterId};
use sfu_room::placement::{
    choose_placement, choose_primary_worker, room_worker_start, worker_delay, worker_is_healthy,
    PlacementSnapshot, RoomRuntimeContext, RoomWorkerPolicy, RouterPlacement, RouterPlacements,
    RouterPlacementsError,
};

fn worker(raw: usize) -> MediaWorkerId {
    MediaWorkerId::from_raw(raw)
}

fn placement(router: u64, media_worker: usize) -> RouterPlacement {
    RouterPlacement { router: RouterId(router), media_worker: worker(media_worker) }
}

fn room_with(primary: RouterPlacement, spillover: Vec<RouterPlacement>) -> PlacementSnapshot {
    RoomRuntimeContext::new(RoomInstanceId(0), primary, spillover).snapshot()
}

fn unassigned_room() -> PlacementSnapshot {
    RoomRuntimeContext::new_unassigned(RoomInstanceId(0), RouterId(7)).snapshot()
}

fn policy(max_local_routers: usize, threshold_ms: u64) -> RoomWorkerPolicy {
    assert!(max_local_routers > 0);
    assert!(threshold_ms > 0);
    RoomWorkerPolicy::new(max_local_routers, threshold_ms)
}

fn place(
    room: &PlacementSnapshot,
    policy: RoomWorkerPolicy,
    delays_ms: &[Option<u64>],
    start_worker: usize,
) -> RouterPlacement {
    choose_placement(room, policy, &delays_ms.to_vec(), start_worker, || RouterId(8))
}

#[test]
fn first_join_uses_the_first_healthy_worker_in_room_order() {
    assert_eq!(
        place(&unassigned_room(), policy(2, 20), &[Some(20), Some(3), Some(1)], 0),
        placement(7, 1)
    );
    assert_eq!(
        place(&unassigned_room(), policy(2, 20), &[Some(1), Some(1), Some(1)], 2),
        placement(7, 2)
    );
}

#[test]
fn first_join_falls_back_to_the_least_delayed_worker() {
    assert_eq!(
        place(&unassigned_room(), policy(2, 20), &[Some(40), None, Some(25)], 0),
        placement(7, 2)
    );
}

#[test]
fn unknown_unused_worker_does_not_trigger_spillover() {
    let primary = placement(7, 0);
    assert_eq!(
        place(&room_with(primary, Vec::new()), policy(2, 20), &[Some(30), None], 0),
        primary
    );
}

#[test]
fn missed_heartbeat_spills_above_the_delay_threshold() {
    assert_eq!(
        place(
            &room_with(placement(7, 0), Vec::new()),
            policy(2, 1_000),
            &[None, Some(0)],
            0
        ),
        placement(8, 1)
    );
}

#[test]
fn least_delayed_healthy_assignment_absorbs_later_joins() {
    let spillover = placement(8, 1);
    assert_eq!(
        place(
            &room_with(placement(7, 0), vec![spillover]),
            policy(3, 20),
            &[Some(15), Some(2), Some(0)],
            0
        ),
        spillover
    );
}

#[test]
fn all_overloaded_workers_reuse_the_least_delayed_assignment() {
    let spillover = placement(8, 1);
    assert_eq!(
        place(
            &room_with(placement(7, 0), vec![spillover]),
            policy(3, 20),
            &[Some(40), Some(25), Some(30)],
            0
        ),
        spillover
    );
}

#[test]
fn single_router_policy_never_spills() {
    let primary = placement(7, 0);
    assert_eq!(
        place(
            &room_with(primary, Vec::new()),
            RoomWorkerPolicy::strict_single_router(),
            &[Some(40), Some(0)],
            0
        ),
        primary
    );
}

#[test]
fn spillover_router_allocation_is_lazy() {
    let allocations = Cell::new(0);
    let allocate = || {
        allocations.set(allocations.get() + 1);
        RouterId(8)
    };
    let primary = placement(7, 0);

    assert_eq!(
        choose_placement(
            &room_with(primary, Vec::new()),
            policy(2, 20),
            &vec![Some(0), Some(0)],
            0,
            allocate,
        ),
        primary
    );
    assert_eq!(
        choose_placement(
            &room_with(primary, Vec::new()),
            RoomWorkerPolicy::strict_single_router(),
            &vec![Some(20), Some(0)],
            0,
            allocate,
        ),
        primary
    );
    assert_eq!(
        choose_placement(
            &room_with(primary, vec![placement(9, 1)]),
            policy(2, 20),
            &vec![Some(20), Some(20)],
            0,
            allocate,
        ),
        primary
    );
    assert_eq!(allocations.get(), 0);

    assert_eq!(
        choose_placement(
            &room_with(primary, Vec::new()),
            policy(2, 20),
            &vec![Some(20), Some(0)],
            0,
            allocate,
        ),
        placement(8, 1)
    );
    assert_eq!(allocations.get(), 1);
}

#[test]
fn rooms_start_on_different_workers() {
    assert_eq!(room_worker_start(RoomInstanceId(7), 3), 1);
    assert_eq!(room_worker_start(RoomInstanceId(9), 3), 0);
    assert_eq!(room_worker_start(RoomInstanceId(7), 0), 0);
}

#[test]
fn workers_without_a_sample_are_unhealthy() {
    let delays = vec![Some(5), None];
    assert_eq!(worker_delay(&delays, worker(0)), 5);
    assert_eq!(worker_delay(&delays, worker(1)), u64::MAX);
    assert_eq!(worker_delay(&delays, worker(2)), u64::MAX);
    assert!(worker_is_healthy(&delays, worker(0), 6));
    assert!(!worker_is_healthy(&delays, worker(0), 5));
    assert!(!worker_is_healthy(&delays, worker(1), u64::MAX));
}

#[test]
fn the_primary_worker_is_found_round_the_end() {
    assert_eq!(choose_primary_worker(&vec![Some(1), Some(30), Some(40)], 20, 1), worker(0));
    assert_eq!(choose_primary_worker(&vec![], 20, 0), worker(0));
}

#[test]
fn spillover_stops_at_the_number_of_workers() {
    let room = room_with(placement(7, 0), vec![placement(9, 1)]);
    assert_eq!(place(&room, policy(5, 20), &[Some(25), Some(30)], 0), placement(7, 0));
}

#[test]
fn placements_name_a_primary() {
    assert!(matches!(
        RoomRuntimeContext::try_from_placements(RoomInstanceId(1), vec![]),
        Err(RouterPlacementsError::Empty)
    ));
    let context = RoomRuntimeContext::try_from_placements(
        RoomInstanceId(1),
        vec![placement(4, 2), placement(5, 3)],
    )
    .ok()
    .unwrap();
    assert_eq!(context.primary_router(), RouterId(4));
    assert_eq!(
        context.initial_router_placements().map(RouterPlacements::to_vec),
        Some(vec![placement(4, 2), placement(5, 3)])
    );
    let unassigned = RoomRuntimeContext::new_unassigned(RoomInstanceId(1), RouterId(6));
    assert_eq!(unassigned.primary_router(), RouterId(6));
    assert!(unassigned.initial_router_placements().is_none());
    assert_eq!(unassigned.snapshot().assigned, vec![]);
}

#[test]
fn the_strict_policy_has_one_router_and_the_least_threshold() {
    let policy = RoomWorkerPolicy::strict_single_router();
    assert_eq!(policy.max_local_routers(), 1);
    assert_eq!(policy.packet_loop_delay_threshold_ms(), 1);
}
