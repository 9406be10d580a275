//! Router and packet-worker placement for room admission.
//!
//! A room starts with assigned placements or with a primary router that has no
//! worker yet. Admission selects a packet worker by the delay of its packet loop,
//! and may add a router within the policy of the room.

use vstd::prelude::*;

use crate::ids::{MediaWorkerId, RoomInstanceId, RouterId};

verus! {

/// A router on a media worker.
#[derive(Debug, Clone, Copy, PartialEq, Eq, Structural)]
pub struct RouterPlacement {
    pub router: RouterId,
    pub media_worker: MediaWorkerId,
}

/// The placements of a room: a primary one and those it spilled over to.
#[derive(Debug, PartialEq, Eq)]
pub struct RouterPlacements {
    pub primary: RouterPlacement,
    pub spillover: Vec<RouterPlacement>,
}

/// Why placements cannot be used.
#[derive(Debug, Clone, Copy, PartialEq, Eq, Structural)]
pub enum RouterPlacementsError {
    Empty,
}

impl RouterPlacements {
    /// All placements, the primary one first.
    pub open spec fn all(&self) -> Seq<RouterPlacement> {
        seq![self.primary] + self.spillover@
    }

    pub fn new(primary: RouterPlacement, spillover: Vec<RouterPlacement>) -> (r: Self)
        ensures
            r.primary == primary,
            r.spillover == spillover,
    {
        RouterPlacements { primary, spillover }
    }

    pub fn try_from_vec(placements: Vec<RouterPlacement>) -> (r: Result<
        Self,
        RouterPlacementsError,
    >)
        ensures
            match r {
                Ok(routers) => placements@.len() > 0 && routers.all() == placements@,
                Err(error) => placements@.len() == 0 && error == RouterPlacementsError::Empty,
            },
    {
        if placements.len() == 0 {
            return Err(RouterPlacementsError::Empty);
        }
        let ghost all = placements@;
        let mut placements = placements;
        let primary = placements.remove(0);
        proof {
            assert(seq![primary] + placements@ =~= all);
        }
        Ok(RouterPlacements { primary, spillover: placements })
    }

    /// All placements, the primary one first.
    pub fn to_vec(&self) -> (r: Vec<RouterPlacement>)
        ensures
            r@ == self.all(),
    {
        let mut r: Vec<RouterPlacement> = Vec::new();
        r.push(self.primary);
        let mut i: usize = 0;
        while i < self.spillover.len()
            invariant
                i <= self.spillover@.len(),
                r@ == seq![self.primary] + self.spillover@.take(i as int),
            decreases self.spillover@.len() - i,
        {
            r.push(self.spillover[i]);
            proof {
                assert(r@ =~= seq![self.primary] + self.spillover@.take(i + 1));
            }
            i = i + 1;
        }
        proof {
            assert(self.spillover@.take(i as int) =~= self.spillover@);
        }
        r
    }
}

/// Where a room is placed when it starts.
#[derive(Debug, PartialEq, Eq)]
pub struct RoomRuntimeContext {
    instance: RoomInstanceId,
    primary_router: RouterId,
    initial_router_placements: Option<RouterPlacements>,
}

impl RoomRuntimeContext {
    pub closed spec fn instance_of(&self) -> RoomInstanceId {
        self.instance
    }

    pub closed spec fn router_of(&self) -> RouterId {
        self.primary_router
    }

    pub closed spec fn placements_of(&self) -> Option<RouterPlacements> {
        self.initial_router_placements
    }

    /// A room whose routers have workers.
    pub fn new(
        instance: RoomInstanceId,
        primary: RouterPlacement,
        spillover: Vec<RouterPlacement>,
    ) -> (r: Self)
        ensures
            r.instance_of() == instance,
            r.router_of() == primary.router,
            r.placements_of() == Some(RouterPlacements { primary, spillover }),
    {
        RoomRuntimeContext {
            instance,
            primary_router: primary.router,
            initial_router_placements: Some(RouterPlacements::new(primary, spillover)),
        }
    }

    /// A room whose worker is chosen when the first user joins.
    pub fn new_unassigned(instance: RoomInstanceId, primary_router: RouterId) -> (r: Self)
        ensures
            r.instance_of() == instance,
            r.router_of() == primary_router,
            r.placements_of() is None,
    {
        RoomRuntimeContext { instance, primary_router, initial_router_placements: None }
    }

    pub fn try_from_placements(instance: RoomInstanceId, placements: Vec<RouterPlacement>) -> (r:
        Result<Self, RouterPlacementsError>)
        ensures
            match r {
                Ok(context) => {
                    &&& placements@.len() > 0
                    &&& context.instance_of() == instance
                    &&& context.router_of() == placements@[0].router
                    &&& context.placements_of() matches Some(routers) && routers.all()
                        == placements@
                },
                Err(error) => placements@.len() == 0 && error == RouterPlacementsError::Empty,
            },
    {
        match RouterPlacements::try_from_vec(placements) {
            Err(error) => Err(error),
            Ok(routers) => {
                proof {
                    assert(routers.all()[0] == routers.primary);
                }
                Ok(
                    RoomRuntimeContext {
                        instance,
                        primary_router: routers.primary.router,
                        initial_router_placements: Some(routers),
                    },
                )
            },
        }
    }

    pub fn instance(&self) -> (r: RoomInstanceId)
        ensures
            r == self.instance_of(),
    {
        self.instance
    }

    pub fn primary_router(&self) -> (r: RouterId)
        ensures
            r == self.router_of(),
    {
        self.primary_router
    }

    pub fn initial_router_placements(&self) -> (r: Option<&RouterPlacements>)
        ensures
            match r {
                Some(placements) => self.placements_of() == Some(*placements),
                None => self.placements_of() is None,
            },
    {
        self.initial_router_placements.as_ref()
    }

    /// What admission sees of a room that starts here.
    pub fn snapshot(&self) -> (r: PlacementSnapshot)
        ensures
            r.primary == self.router_of(),
            r.assigned@ == match self.placements_of() {
                Some(placements) => placements.all(),
                None => Seq::<RouterPlacement>::empty(),
            },
    {
        PlacementSnapshot {
            primary: self.primary_router,
            assigned: match &self.initial_router_placements {
                Some(placements) => placements.to_vec(),
                None => Vec::new(),
            },
        }
    }
}

/// How a room may use the workers of the process.
#[derive(Debug, Clone, Copy, PartialEq, Eq, Structural)]
pub struct RoomWorkerPolicy {
    max_local_routers: usize,
    packet_loop_delay_threshold_ms: u64,
}

impl RoomWorkerPolicy {
    pub closed spec fn routers(self) -> usize {
        self.max_local_routers
    }

    pub closed spec fn threshold(self) -> u64 {
        self.packet_loop_delay_threshold_ms
    }

    pub fn new(max_local_routers: usize, packet_loop_delay_threshold_ms: u64) -> (r: Self)
        requires
            max_local_routers > 0,
            packet_loop_delay_threshold_ms > 0,
        ensures
            r.routers() == max_local_routers,
            r.threshold() == packet_loop_delay_threshold_ms,
    {
        RoomWorkerPolicy { max_local_routers, packet_loop_delay_threshold_ms }
    }

    /// One router, whatever its delay.
    pub fn strict_single_router() -> (r: Self)
        ensures
            r.routers() == 1,
            r.threshold() == 1,
    {
        RoomWorkerPolicy { max_local_routers: 1, packet_loop_delay_threshold_ms: 1 }
    }

    pub fn max_local_routers(self) -> (r: usize)
        ensures
            r == self.routers(),
    {
        self.max_local_routers
    }

    pub fn packet_loop_delay_threshold_ms(self) -> (r: u64)
        ensures
            r == self.threshold(),
    {
        self.packet_loop_delay_threshold_ms
    }
}

/// What admission sees of a room's placements.
#[derive(Debug, PartialEq, Eq)]
pub struct PlacementSnapshot {
    pub primary: RouterId,
    /// Placements in use, the primary one first.
    pub assigned: Vec<RouterPlacement>,
}

/// Delay of a worker; one without a sample has the worst.
pub open spec fn delay_of(delays_ms: Seq<Option<u64>>, worker: MediaWorkerId) -> u64 {
    if worker.0 < delays_ms.len() {
        match delays_ms[worker.0 as int] {
            Some(delay) => delay,
            None => u64::MAX,
        }
    } else {
        u64::MAX
    }
}

/// A worker is healthy below the threshold.
pub open spec fn healthy(
    delays_ms: Seq<Option<u64>>,
    worker: MediaWorkerId,
    threshold_ms: u64,
) -> bool {
    delay_of(delays_ms, worker) < threshold_ms
}

/// Number of workers; there is always one.
pub open spec fn worker_total(delays_ms: Seq<Option<u64>>) -> nat {
    if delays_ms.len() == 0 {
        1
    } else {
        delays_ms.len()
    }
}

/// The worker at an offset of the walk from `start` round all workers.
pub open spec fn worker_at(start: usize, offset: int, worker_count: nat) -> MediaWorkerId {
    let sum = start + offset;
    let wrapped = if sum > usize::MAX {
        sum - usize::MAX - 1
    } else {
        sum
    };
    MediaWorkerId((wrapped % worker_count as int) as usize)
}

/// The least index at which `ok` holds.
pub open spec fn is_first(n: nat, ok: spec_fn(int) -> bool, i: int) -> bool {
    0 <= i < n && ok(i) && forall|j: int| 0 <= j < i ==> !#[trigger] ok(j)
}

pub open spec fn first_index(n: nat, ok: spec_fn(int) -> bool) -> Option<int> {
    if exists|i: int| is_first(n, ok, i) {
        Some(choose|i: int| is_first(n, ok, i))
    } else {
        None
    }
}

proof fn lemma_first(n: nat, ok: spec_fn(int) -> bool, i: int)
    requires
        is_first(n, ok, i),
    ensures
        first_index(n, ok) == Some(i),
{
    let j = choose|j: int| is_first(n, ok, j);
    assert(is_first(n, ok, j));
    assert(ok(i) && ok(j));
}

proof fn lemma_no_first(n: nat, ok: spec_fn(int) -> bool)
    requires
        forall|i: int| 0 <= i < n ==> !#[trigger] ok(i),
    ensures
        first_index(n, ok) is None,
{
    if exists|i: int| is_first(n, ok, i) {
        let i = choose|i: int| is_first(n, ok, i);
        assert(ok(i));
    }
}

/// The first of the indexes with the least key.
pub open spec fn is_least(n: nat, key: spec_fn(int) -> u64, i: int) -> bool {
    &&& 0 <= i < n
    &&& forall|j: int| 0 <= j < n ==> key(i) <= #[trigger] key(j)
    &&& forall|j: int| 0 <= j < i ==> key(i) < #[trigger] key(j)
}

pub open spec fn least_index(n: nat, key: spec_fn(int) -> u64) -> int {
    choose|i: int| is_least(n, key, i)
}

proof fn lemma_least(n: nat, key: spec_fn(int) -> u64, i: int)
    requires
        is_least(n, key, i),
    ensures
        least_index(n, key) == i,
{
    let j = least_index(n, key);
    assert(is_least(n, key, j));
    assert(key(i) <= key(j) && key(j) <= key(i));
}

pub open spec fn healthy_on_walk(
    delays_ms: Seq<Option<u64>>,
    threshold_ms: u64,
    start: usize,
) -> spec_fn(int) -> bool {
    |offset: int|
        healthy(delays_ms, worker_at(start, offset, worker_total(delays_ms)), threshold_ms)
}

pub open spec fn delay_on_walk(delays_ms: Seq<Option<u64>>, start: usize) -> spec_fn(int) -> u64 {
    |offset: int| delay_of(delays_ms, worker_at(start, offset, worker_total(delays_ms)))
}

/// The first healthy worker on the walk, else the first of the least delayed ones.
pub open spec fn primary_worker(
    delays_ms: Seq<Option<u64>>,
    threshold_ms: u64,
    start: usize,
) -> MediaWorkerId {
    let n = worker_total(delays_ms);
    match first_index(n, healthy_on_walk(delays_ms, threshold_ms, start)) {
        Some(offset) => worker_at(start, offset, n),
        None => worker_at(start, least_index(n, delay_on_walk(delays_ms, start)), n),
    }
}

/// No placement of the room is on this worker.
pub open spec fn unused(assigned: Seq<RouterPlacement>, worker: MediaWorkerId) -> bool {
    forall|i: int| 0 <= i < assigned.len() ==> (#[trigger] assigned[i]).media_worker != worker
}

pub open spec fn spare_on_walk(
    assigned: Seq<RouterPlacement>,
    delays_ms: Seq<Option<u64>>,
    threshold_ms: u64,
    start: usize,
) -> spec_fn(int) -> bool {
    |offset: int|
        {
            let worker = worker_at(start, offset, worker_total(delays_ms));
            healthy(delays_ms, worker, threshold_ms) && unused(assigned, worker)
        }
}

pub open spec fn assigned_delay(assigned: Seq<RouterPlacement>, delays_ms: Seq<Option<u64>>) -> spec_fn(
    int,
) -> u64 {
    |i: int| delay_of(delays_ms, assigned[i].media_worker)
}

/// The first of the least delayed placements of the room.
pub open spec fn least_delayed(
    assigned: Seq<RouterPlacement>,
    delays_ms: Seq<Option<u64>>,
) -> RouterPlacement {
    assigned[least_index(assigned.len(), assigned_delay(assigned, delays_ms))]
}

/// The worker to spill over to: the first healthy worker on the walk that the room
/// does not use, where no placement of the room is healthy and it may have one more.
pub open spec fn spillover_worker(
    assigned: Seq<RouterPlacement>,
    policy: RoomWorkerPolicy,
    delays_ms: Seq<Option<u64>>,
    start: usize,
) -> Option<MediaWorkerId> {
    let n = worker_total(delays_ms);
    let overloaded = forall|i: int|
        0 <= i < assigned.len() ==> !healthy(
            delays_ms,
            (#[trigger] assigned[i]).media_worker,
            policy.threshold(),
        );
    if assigned.len() > 0 && policy.routers() != 1 && overloaded && assigned.len()
        < policy.routers() && assigned.len() < n {
        match first_index(n, spare_on_walk(assigned, delays_ms, policy.threshold(), start)) {
            Some(offset) => Some(worker_at(start, offset, n)),
            None => None,
        }
    } else {
        None
    }
}

/// The placement of a join that does not spill over.
pub open spec fn settled_placement(
    room: PlacementSnapshot,
    policy: RoomWorkerPolicy,
    delays_ms: Seq<Option<u64>>,
    start: usize,
) -> RouterPlacement {
    if room.assigned@.len() == 0 {
        RouterPlacement {
            router: room.primary,
            media_worker: primary_worker(
                delays_ms,
                policy.threshold(),
                (start as int % worker_total(delays_ms) as int) as usize,
            ),
        }
    } else if policy.routers() == 1 {
        room.assigned@[0]
    } else {
        least_delayed(room.assigned@, delays_ms)
    }
}

/// How a join is placed: on a router that is added where the room spills over, and on a
/// placement that the room has else.
pub open spec fn chooses<A: FnOnce() -> RouterId>(
    allocate: A,
    room: PlacementSnapshot,
    policy: RoomWorkerPolicy,
    delays_ms: Seq<Option<u64>>,
    start: usize,
    r: RouterPlacement,
) -> bool {
    match spillover_worker(room.assigned@, policy, delays_ms, start) {
        Some(worker) => r.media_worker == worker && allocate.ensures((), r.router),
        None => r == settled_placement(room, policy, delays_ms, start),
    }
}

pub fn worker_delay(delays_ms: &Vec<Option<u64>>, worker: MediaWorkerId) -> (r: u64)
    ensures
        r == delay_of(delays_ms@, worker),
{
    if worker.0 < delays_ms.len() {
        match delays_ms[worker.0] {
            Some(delay) => delay,
            None => u64::MAX,
        }
    } else {
        u64::MAX
    }
}

pub fn worker_is_healthy(
    delays_ms: &Vec<Option<u64>>,
    worker: MediaWorkerId,
    threshold_ms: u64,
) -> (r: bool)
    ensures
        r == healthy(delays_ms@, worker, threshold_ms),
{
    worker_delay(delays_ms, worker) < threshold_ms
}

fn count_workers(delays_ms: &Vec<Option<u64>>) -> (r: usize)
    ensures
        r == worker_total(delays_ms@),
        r > 0,
{
    if delays_ms.len() == 0 {
        1
    } else {
        delays_ms.len()
    }
}

fn cyclic_worker(start_worker: usize, offset: usize, worker_count: usize) -> (r: MediaWorkerId)
    requires
        worker_count > 0,
    ensures
        r == worker_at(start_worker, offset as int, worker_count as nat),
{
    MediaWorkerId(start_worker.wrapping_add(offset) % worker_count)
}

pub fn choose_primary_worker(
    delays_ms: &Vec<Option<u64>>,
    threshold_ms: u64,
    start_worker: usize,
) -> (r: MediaWorkerId)
    ensures
        r == primary_worker(delays_ms@, threshold_ms, start_worker),
{
    let worker_count: usize = count_workers(delays_ms);
    let ghost ok = healthy_on_walk(delays_ms@, threshold_ms, start_worker);
    let ghost key = delay_on_walk(delays_ms@, start_worker);
    let mut best: usize = 0;
    let mut offset: usize = 0;
    while offset < worker_count
        invariant
            worker_count == worker_total(delays_ms@),
            ok == healthy_on_walk(delays_ms@, threshold_ms, start_worker),
            key == delay_on_walk(delays_ms@, start_worker),
            offset <= worker_count,
            best < worker_count,
            forall|j: int| 0 <= j < offset ==> !#[trigger] ok(j),
            offset == 0 ==> best == 0,
            offset > 0 ==> is_least(offset as nat, key, best as int),
        decreases worker_count - offset,
    {
        let worker = cyclic_worker(start_worker, offset, worker_count);
        if worker_is_healthy(delays_ms, worker, threshold_ms) {
            proof {
                assert(ok(offset as int));
                lemma_first(worker_count as nat, ok, offset as int);
            }
            return worker;
        }
        proof {
            assert(!ok(offset as int));
        }
        let least = cyclic_worker(start_worker, best, worker_count);
        proof {
            assert(key(offset as int) == delay_of(delays_ms@, worker));
            assert(key(best as int) == delay_of(delays_ms@, least));
        }
        if worker_delay(delays_ms, worker) < worker_delay(delays_ms, least) {
            best = offset;
        }
        offset = offset + 1;
    }
    proof {
        lemma_no_first(worker_count as nat, ok);
        lemma_least(worker_count as nat, key, best as int);
    }
    cyclic_worker(start_worker, best, worker_count)
}

fn least_delayed_assignment(assigned: &Vec<RouterPlacement>, delays_ms: &Vec<Option<u64>>) -> (r:
    RouterPlacement)
    requires
        assigned@.len() > 0,
    ensures
        r == least_delayed(assigned@, delays_ms@),
        forall|i: int|
            0 <= i < assigned@.len() ==> delay_of(delays_ms@, r.media_worker) <= delay_of(
                delays_ms@,
                (#[trigger] assigned@[i]).media_worker,
            ),
        assigned@.contains(r),
{
    let ghost key = assigned_delay(assigned@, delays_ms@);
    let mut best: usize = 0;
    let mut i: usize = 1;
    while i < assigned.len()
        invariant
            key == assigned_delay(assigned@, delays_ms@),
            1 <= i <= assigned@.len(),
            is_least(i as nat, key, best as int),
        decreases assigned@.len() - i,
    {
        proof {
            assert(key(i as int) == delay_of(delays_ms@, assigned@[i as int].media_worker));
            assert(key(best as int) == delay_of(delays_ms@, assigned@[best as int].media_worker));
        }
        if worker_delay(delays_ms, assigned[i].media_worker) < worker_delay(
            delays_ms,
            assigned[best].media_worker,
        ) {
            best = i;
        }
        i = i + 1;
    }
    proof {
        lemma_least(assigned@.len(), key, best as int);
        assert forall|j: int| 0 <= j < assigned@.len() implies delay_of(
            delays_ms@,
            assigned@[best as int].media_worker,
        ) <= delay_of(delays_ms@, (#[trigger] assigned@[j]).media_worker) by {
            assert(key(best as int) <= key(j));
        }
    }
    assigned[best]
}

fn worker_is_unused(assigned: &Vec<RouterPlacement>, worker: MediaWorkerId) -> (r: bool)
    ensures
        r == unused(assigned@, worker),
{
    let mut i: usize = 0;
    while i < assigned.len()
        invariant
            i <= assigned@.len(),
            forall|j: int| 0 <= j < i ==> (#[trigger] assigned@[j]).media_worker != worker,
        decreases assigned@.len() - i,
    {
        if assigned[i].media_worker == worker {
            return false;
        }
        i = i + 1;
    }
    true
}

/// Chooses where a joining session is placed.
///
/// The first join goes to the first healthy worker of the room's walk. Later joins
/// go to the least delayed placement of the room. Where none of them is healthy the
/// room spills over to a healthy worker it does not use, as far as its policy lets
/// it; only then a router is allocated.
pub fn choose_placement<A: FnOnce() -> RouterId>(
    room: &PlacementSnapshot,
    policy: RoomWorkerPolicy,
    delays_ms: &Vec<Option<u64>>,
    start_worker: usize,
    allocate_spillover_router: A,
) -> (r: RouterPlacement)
    requires
        allocate_spillover_router.requires(()),
    ensures
        chooses(allocate_spillover_router, *room, policy, delays_ms@, start_worker, r),
{
    let worker_count: usize = count_workers(delays_ms);
    let threshold_ms: u64 = policy.packet_loop_delay_threshold_ms();
    let assigned = &room.assigned;
    if assigned.len() == 0 {
        return RouterPlacement {
            router: room.primary,
            media_worker: choose_primary_worker(
                delays_ms,
                threshold_ms,
                start_worker % worker_count,
            ),
        };
    }
    if policy.max_local_routers() == 1 {
        return assigned[0];
    }
    let best = least_delayed_assignment(assigned, delays_ms);
    if worker_is_healthy(delays_ms, best.media_worker, threshold_ms) {
        proof {
            let i = assigned@.index_of(best);
            assert(assigned@[i] == best);
        }
        return best;
    }
    if assigned.len() < policy.max_local_routers() && assigned.len() < worker_count {
        let ghost ok = spare_on_walk(assigned@, delays_ms@, threshold_ms, start_worker);
        let mut offset: usize = 0;
        while offset < worker_count
            invariant
                worker_count == worker_total(delays_ms@),
                ok == spare_on_walk(assigned@, delays_ms@, threshold_ms, start_worker),
                threshold_ms == policy.threshold(),
                assigned@ == room.assigned@,
                assigned@.len() > 0,
                policy.routers() != 1,
                assigned@.len() < policy.routers(),
                assigned@.len() < worker_count,
                forall|i: int|
                    0 <= i < assigned@.len() ==> !healthy(
                        delays_ms@,
                        (#[trigger] assigned@[i]).media_worker,
                        threshold_ms,
                    ),
                allocate_spillover_router.requires(()),
                offset <= worker_count,
                forall|j: int| 0 <= j < offset ==> !#[trigger] ok(j),
            decreases worker_count - offset,
        {
            let worker = cyclic_worker(start_worker, offset, worker_count);
            if worker_is_healthy(delays_ms, worker, threshold_ms) && worker_is_unused(
                assigned,
                worker,
            ) {
                proof {
                    assert(ok(offset as int));
                    lemma_first(worker_count as nat, ok, offset as int);
                }
                return RouterPlacement {
                    router: allocate_spillover_router(),
                    media_worker: worker,
                };
            }
            proof {
                assert(!ok(offset as int));
            }
            offset = offset + 1;
        }
        proof {
            lemma_no_first(worker_count as nat, ok);
        }
    }
    best
}

/// Where the walk of a room starts: rooms spread over the workers.
pub fn room_worker_start(room_instance_id: RoomInstanceId, worker_count: usize) -> (r: usize)
    ensures
        r == room_instance_id.0 as int % (if worker_count == 0 {
            1int
        } else {
            worker_count as int
        }),
{
    let count: usize = if worker_count == 0 {
        1
    } else {
        worker_count
    };
    (room_instance_id.0 % (count as u64)) as usize
}

/// A room with one router never spills over, and its later joins stay on it.
pub proof fn single_router_never_spills(
    room: PlacementSnapshot,
    policy: RoomWorkerPolicy,
    delays_ms: Seq<Option<u64>>,
    start: usize,
)
    requires
        policy.routers() == 1,
    ensures
        spillover_worker(room.assigned@, policy, delays_ms, start) is None,
        room.assigned@.len() > 0 ==> settled_placement(room, policy, delays_ms, start)
            == room.assigned@[0],
{
}

/// A room with a healthy placement does not spill over.
pub proof fn healthy_placements_absorb_joins(
    assigned: Seq<RouterPlacement>,
    policy: RoomWorkerPolicy,
    delays_ms: Seq<Option<u64>>,
    start: usize,
    i: int,
)
    requires
        0 <= i < assigned.len(),
        healthy(delays_ms, assigned[i].media_worker, policy.threshold()),
    ensures
        spillover_worker(assigned, policy, delays_ms, start) is None,
{
}

/// A room spills over only to a healthy worker that it does not use, and stays within
/// its policy and the workers there are.
pub proof fn spillover_is_bounded(
    assigned: Seq<RouterPlacement>,
    policy: RoomWorkerPolicy,
    delays_ms: Seq<Option<u64>>,
    start: usize,
)
    ensures
        spillover_worker(assigned, policy, delays_ms, start) matches Some(worker) ==> {
            &&& healthy(delays_ms, worker, policy.threshold())
            &&& unused(assigned, worker)
            &&& worker.0 < delays_ms.len()
            &&& assigned.len() + 1 <= policy.routers()
            &&& assigned.len() + 1 <= worker_total(delays_ms)
        },
{
    let n = worker_total(delays_ms);
    let ok = spare_on_walk(assigned, delays_ms, policy.threshold(), start);
    if spillover_worker(assigned, policy, delays_ms, start) is Some {
        let offset = choose|i: int| is_first(n, ok, i);
        assert(is_first(n, ok, offset));
        assert(ok(offset));
    }
}

/// A worker without a delay sample is never healthy.
pub proof fn unknown_workers_are_unhealthy(
    delays_ms: Seq<Option<u64>>,
    worker: MediaWorkerId,
    threshold_ms: u64,
)
    requires
        worker.0 >= delays_ms.len() || delays_ms[worker.0 as int] is None,
    ensures
        !healthy(delays_ms, worker, threshold_ms),
{
}

} // verus!
