//! Lifecycle leases of a room.
//!
//! A room is reserved until someone joins it, is alive while it is joined, and is held
//! for a grace period after it became empty. Accepted work holds a lease; a room is
//! removed by the last lease that finishes, or by a claim on an expired deadline while
//! no lease is out. A room that is closing accepts no more work.

use vstd::prelude::*;

use crate::source_model::Moment;

verus! {

/// What a room waits for.
#[derive(Debug, Clone, Copy, PartialEq, Eq, Structural)]
pub enum RoomLifecyclePhase {
    /// For its first user, until the deadline.
    Reservation { expires_at: Moment },
    /// For nothing: it was joined.
    Alive,
    /// For someone to come back, until the deadline.
    Grace { expires_at: Moment },
    /// For its removal.
    Closing,
}

/// Why an expired room was claimed.
#[derive(Debug, Clone, Copy, PartialEq, Eq, Structural)]
pub enum ExpiryReason {
    /// Nobody joined before the reservation lapsed.
    ReservationLapsed,
    /// Nobody came back before the grace ran out.
    GraceElapsed,
}

/// When an empty room is removed. An immediate removal is the stronger request.
#[derive(Debug, Clone, Copy, PartialEq, Eq, PartialOrd, Ord, Structural)]
pub enum RoomRemovalPolicy {
    AfterGrace,
    Immediately,
}

/// The stronger of two removal requests.
pub open spec fn stronger(
    a: Option<RoomRemovalPolicy>,
    b: Option<RoomRemovalPolicy>,
) -> Option<RoomRemovalPolicy> {
    if a == Some(RoomRemovalPolicy::Immediately) || b == Some(RoomRemovalPolicy::Immediately) {
        Some(RoomRemovalPolicy::Immediately)
    } else if a is Some || b is Some {
        Some(RoomRemovalPolicy::AfterGrace)
    } else {
        None
    }
}

fn stronger_policy(a: Option<RoomRemovalPolicy>, b: Option<RoomRemovalPolicy>) -> (r: Option<
    RoomRemovalPolicy,
>)
    ensures
        r == stronger(a, b),
{
    match (a, b) {
        (Some(RoomRemovalPolicy::Immediately), _) => Some(RoomRemovalPolicy::Immediately),
        (_, Some(RoomRemovalPolicy::Immediately)) => Some(RoomRemovalPolicy::Immediately),
        (None, None) => None,
        _ => Some(RoomRemovalPolicy::AfterGrace),
    }
}

/// A call on a lifecycle.
pub enum LifecycleStep {
    Begin,
    Finish { on_empty: Option<RoomRemovalPolicy>, removable: bool, now: Moment },
    /// A lease is dropped before its work finished.
    Abandon,
    ClearExpiration,
    Renew { now: Moment },
    Claim { now: Moment },
}

/// A lifecycle as mathematics.
#[verifier::ext_equal]
pub struct Lifecycle {
    /// Leases that are out.
    pub leases: usize,
    /// The removal that waits for the last lease.
    pub pending: Option<RoomRemovalPolicy>,
    /// Length of a reservation, in nanoseconds.
    pub ttl: u128,
    /// Length of the grace, in nanoseconds.
    pub grace: u128,
    pub phase: RoomLifecyclePhase,
}

impl Lifecycle {
    /// The room after it accepted work.
    pub open spec fn after_begin(self) -> Self {
        if self.admits() {
            Lifecycle { leases: (self.leases + 1) as usize, ..self }
        } else {
            self
        }
    }

    /// The room after its deadline was retired.
    pub open spec fn joined(self) -> Self {
        Lifecycle { phase: RoomLifecyclePhase::Alive, ..self }
    }

    /// The step can be taken: work is finished, dropped or counted as a join only under
    /// a lease that is out.
    pub open spec fn permits(self, step: LifecycleStep) -> bool {
        match step {
            LifecycleStep::Finish { .. } | LifecycleStep::Abandon
            | LifecycleStep::ClearExpiration => self.leases > 0,
            _ => true,
        }
    }

    pub open spec fn after_step(self, step: LifecycleStep) -> Self {
        match step {
            LifecycleStep::Begin => self.after_begin(),
            LifecycleStep::Finish { on_empty, removable, now } => self.after_release(
                on_empty,
                removable,
                now,
            ),
            LifecycleStep::Abandon => self.after_release(None, false, Moment(0)),
            LifecycleStep::ClearExpiration => self.joined(),
            LifecycleStep::Renew { now } => self.after_renewal(now),
            LifecycleStep::Claim { now } => self.after_claim(now),
        }
    }

    /// Whoever takes the step is told to remove the room.
    pub open spec fn wins(self, step: LifecycleStep) -> bool {
        match step {
            LifecycleStep::Finish { on_empty, removable, .. } => self.removes(on_empty, removable),
            LifecycleStep::Claim { now } => self.claimed(now) is Some,
            _ => false,
        }
    }

    /// A closing room has no leases, and only leases defer a removal.
    pub open spec fn consistent(self) -> bool {
        &&& self.leases > 0 ==> self.phase != RoomLifecyclePhase::Closing
        &&& self.pending is Some ==> self.leases > 0
    }

    /// Why the room may be claimed, if its deadline has passed.
    pub open spec fn due(self, now: Moment) -> Option<ExpiryReason> {
        match self.phase {
            RoomLifecyclePhase::Reservation { expires_at } => if expires_at.0 <= now.0 {
                Some(ExpiryReason::ReservationLapsed)
            } else {
                None
            },
            RoomLifecyclePhase::Grace { expires_at } => if expires_at.0 <= now.0 {
                Some(ExpiryReason::GraceElapsed)
            } else {
                None
            },
            _ => None,
        }
    }

    /// Why the room is claimed: its deadline has passed and no lease is out.
    pub open spec fn claimed(self, now: Moment) -> Option<ExpiryReason> {
        if self.leases == 0 {
            self.due(now)
        } else {
            None
        }
    }

    pub open spec fn after_claim(self, now: Moment) -> Self {
        if self.claimed(now) is Some {
            Lifecycle { phase: RoomLifecyclePhase::Closing, ..self }
        } else {
            self
        }
    }

    /// The room has a deadline.
    pub open spec fn expiring(self) -> bool {
        self.phase is Reservation || self.phase is Grace
    }

    pub open spec fn after_renewal(self, now: Moment) -> Self {
        if self.expiring() {
            Lifecycle {
                phase: RoomLifecyclePhase::Reservation {
                    expires_at: Moment((now.0 + self.ttl) as u128),
                },
                ..self
            }
        } else {
            self
        }
    }

    /// The room accepts work.
    pub open spec fn admits(self) -> bool {
        &&& self.phase != RoomLifecyclePhase::Closing
        &&& self.pending != Some(RoomRemovalPolicy::Immediately)
        &&& self.leases < usize::MAX
    }

    /// The removal that a lease asks for: the stronger of what is pending and what it
    /// asks itself. Without a grace period a removal is immediate.
    pub open spec fn removal(self, on_empty: Option<RoomRemovalPolicy>) -> Option<
        RoomRemovalPolicy,
    > {
        let policy = stronger(self.pending, on_empty);
        if policy == Some(RoomRemovalPolicy::AfterGrace) && self.grace == 0 {
            Some(RoomRemovalPolicy::Immediately)
        } else {
            policy
        }
    }

    /// The lease that is released is the last one.
    pub open spec fn last_lease(self) -> bool {
        self.leases <= 1
    }

    /// The released lease removes the room.
    pub open spec fn removes(self, on_empty: Option<RoomRemovalPolicy>, removable: bool) -> bool {
        self.last_lease() && removable && self.removal(on_empty) == Some(
            RoomRemovalPolicy::Immediately,
        )
    }

    /// The released lease starts the grace period.
    pub open spec fn starts_grace(self, on_empty: Option<RoomRemovalPolicy>, removable: bool) -> bool {
        &&& self.last_lease()
        &&& removable
        &&& self.removal(on_empty) == Some(RoomRemovalPolicy::AfterGrace)
        &&& self.phase == RoomLifecyclePhase::Alive
    }

    pub open spec fn after_release(
        self,
        on_empty: Option<RoomRemovalPolicy>,
        removable: bool,
        now: Moment,
    ) -> Self {
        if !self.last_lease() {
            Lifecycle {
                leases: (self.leases - 1) as usize,
                pending: if on_empty is Some && removable {
                    self.removal(on_empty)
                } else {
                    self.pending
                },
                ..self
            }
        } else {
            Lifecycle {
                leases: 0,
                pending: None,
                phase: if self.removes(on_empty, removable) {
                    RoomLifecyclePhase::Closing
                } else if self.starts_grace(on_empty, removable) {
                    RoomLifecyclePhase::Grace { expires_at: Moment((now.0 + self.grace) as u128) }
                } else {
                    self.phase
                },
                ..self
            }
        }
    }
}

/// Admission gate of one room.
#[derive(Debug, PartialEq, Eq)]
pub struct RoomLifecycle {
    active_mutations: usize,
    pending_removal: Option<RoomRemovalPolicy>,
    reservation_ttl: u128,
    departure_grace: u128,
    phase: RoomLifecyclePhase,
}

/// Permit for work that a room accepted. It is released once.
#[derive(Debug, PartialEq, Eq)]
#[must_use]
pub struct RoomLifecycleLease {
    finished: bool,
}

impl RoomLifecycleLease {
    /// The lease was not released yet.
    pub closed spec fn held(&self) -> bool {
        !self.finished
    }
}

impl RoomLifecycle {
    pub closed spec fn view(&self) -> Lifecycle {
        Lifecycle {
            leases: self.active_mutations,
            pending: self.pending_removal,
            ttl: self.reservation_ttl,
            grace: self.departure_grace,
            phase: self.phase,
        }
    }

    /// A room that is reserved from now on.
    pub fn new(reservation_ttl: u128, departure_grace: u128, now: Moment) -> (r: Self)
        requires
            now.0 + reservation_ttl <= u128::MAX,
        ensures
            r@.consistent(),
            r@ == (Lifecycle {
                leases: 0,
                pending: None,
                ttl: reservation_ttl,
                grace: departure_grace,
                phase: RoomLifecyclePhase::Reservation {
                    expires_at: Moment((now.0 + reservation_ttl) as u128),
                },
            }),
    {
        RoomLifecycle {
            active_mutations: 0,
            pending_removal: None,
            reservation_ttl,
            departure_grace,
            phase: RoomLifecyclePhase::Reservation { expires_at: Moment(now.0 + reservation_ttl) },
        }
    }

    /// Claims the removal of a room whose deadline has passed, while no lease is out.
    pub fn claim_expired_room(&mut self, now: Moment) -> (r: Option<ExpiryReason>)
        requires
            old(self)@.consistent(),
        ensures
            final(self)@.consistent(),
            r == old(self)@.claimed(now),
            final(self)@ == old(self)@.after_claim(now),
            r is None ==> *final(self) == *old(self),
    {
        let due = match self.phase {
            RoomLifecyclePhase::Reservation { expires_at } => if expires_at.0 <= now.0 {
                Some(ExpiryReason::ReservationLapsed)
            } else {
                None
            },
            RoomLifecyclePhase::Grace { expires_at } => if expires_at.0 <= now.0 {
                Some(ExpiryReason::GraceElapsed)
            } else {
                None
            },
            _ => None,
        };
        if self.active_mutations == 0 && due.is_some() {
            self.phase = RoomLifecyclePhase::Closing;
            return due;
        }
        None
    }

    /// Extends a reservation, and turns a grace period into a reservation.
    pub fn renew_reservation(&mut self, now: Moment)
        requires
            old(self)@.consistent(),
            old(self)@.expiring() ==> now.0 + old(self)@.ttl <= u128::MAX,
        ensures
            final(self)@.consistent(),
            final(self)@ == old(self)@.after_renewal(now),
    {
        match self.phase {
            RoomLifecyclePhase::Reservation { .. } | RoomLifecyclePhase::Grace { .. } => {
                self.phase = RoomLifecyclePhase::Reservation {
                    expires_at: Moment(now.0 + self.reservation_ttl),
                };
            },
            _ => {},
        }
    }

    /// Accepts work, unless the room is closing or an immediate removal is pending.
    pub fn begin(&mut self) -> (r: Option<RoomLifecycleLease>)
        requires
            old(self)@.consistent(),
        ensures
            final(self)@.consistent(),
            match r {
                Some(lease) => old(self)@.admits() && lease.held() && final(self)@
                    == old(self)@.after_begin(),
                None => !old(self)@.admits() && *final(self) == *old(self),
            },
    {
        if matches!(self.phase, RoomLifecyclePhase::Closing) || matches!(
            self.pending_removal,
            Some(RoomRemovalPolicy::Immediately)
        ) {
            return None;
        }
        match self.active_mutations.checked_add(1) {
            None => None,
            Some(next) => {
                self.active_mutations = next;
                Some(RoomLifecycleLease { finished: false })
            },
        }
    }

    /// Finishes the work of a lease. Returns whether the caller removes the room.
    pub fn finish(
        &mut self,
        lease: RoomLifecycleLease,
        on_empty: Option<RoomRemovalPolicy>,
        room_can_be_removed: bool,
        now: Moment,
    ) -> (r: bool)
        requires
            old(self)@.consistent(),
            lease.held() ==> old(self)@.leases > 0,
            old(self)@.starts_grace(on_empty, room_can_be_removed) ==> now.0 + old(self)@.grace
                <= u128::MAX,
        ensures
            final(self)@.consistent(),
            lease.held() ==> r == old(self)@.removes(on_empty, room_can_be_removed) && final(self)@
                == old(self)@.after_release(on_empty, room_can_be_removed, now),
            !lease.held() ==> !r && final(self)@ == old(self)@,
    {
        let mut lease = lease;
        self.release(&mut lease, on_empty, room_can_be_removed, now)
    }

    /// Releases a lease that was dropped before its work finished. It neither removes
    /// the room nor starts its grace period.
    pub fn abandon(&mut self, lease: RoomLifecycleLease)
        requires
            old(self)@.consistent(),
            lease.held() ==> old(self)@.leases > 0,
        ensures
            final(self)@.consistent(),
            lease.held() ==> final(self)@ == old(self)@.after_release(None, false, Moment(0)),
            !lease.held() ==> final(self)@ == old(self)@,
    {
        let mut lease = lease;
        let _ = self.release(&mut lease, None, false, Moment(0));
    }

    fn release(
        &mut self,
        lease: &mut RoomLifecycleLease,
        on_empty: Option<RoomRemovalPolicy>,
        room_can_be_removed: bool,
        now: Moment,
    ) -> (r: bool)
        requires
            old(self)@.consistent(),
            old(lease).held() ==> old(self)@.leases > 0,
            old(self)@.starts_grace(on_empty, room_can_be_removed) ==> now.0 + old(self)@.grace
                <= u128::MAX,
        ensures
            final(self)@.consistent(),
            !final(lease).held(),
            old(lease).held() ==> r == old(self)@.removes(on_empty, room_can_be_removed)
                && final(self)@ == old(self)@.after_release(on_empty, room_can_be_removed, now),
            !old(lease).held() ==> !r && final(self)@ == old(self)@,
    {
        if lease.finished {
            return false;
        }
        lease.finished = true;
        let removal_policy = match stronger_policy(self.pending_removal, on_empty) {
            Some(RoomRemovalPolicy::AfterGrace) => {
                if self.departure_grace == 0 {
                    Some(RoomRemovalPolicy::Immediately)
                } else {
                    Some(RoomRemovalPolicy::AfterGrace)
                }
            },
            policy => policy,
        };
        self.active_mutations = self.active_mutations.saturating_sub(1);
        if self.active_mutations > 0 {
            if on_empty.is_some() && room_can_be_removed {
                self.pending_removal = removal_policy;
            }
            return false;
        }
        self.pending_removal = None;
        if !room_can_be_removed {
            return false;
        }
        match removal_policy {
            Some(RoomRemovalPolicy::Immediately) => {
                self.phase = RoomLifecyclePhase::Closing;
                true
            },
            Some(RoomRemovalPolicy::AfterGrace) => {
                if matches!(self.phase, RoomLifecyclePhase::Alive) {
                    self.phase = RoomLifecyclePhase::Grace {
                        expires_at: Moment(now.0 + self.departure_grace),
                    };
                }
                false
            },
            None => false,
        }
    }

    /// Retires the deadline of a room that was joined, under the lease of the join.
    pub fn clear_expiration(&mut self, lease: &RoomLifecycleLease)
        requires
            old(self)@.consistent(),
            old(self)@.leases > 0,
            lease.held(),
        ensures
            final(self)@.consistent(),
            final(self)@ == old(self)@.joined(),
    {
        self.phase = RoomLifecyclePhase::Alive;
    }

    pub fn phase(&self) -> (r: RoomLifecyclePhase)
        ensures
            r == self@.phase,
    {
        self.phase
    }

    pub fn lease_count(&self) -> (r: usize)
        ensures
            r == self@.leases,
    {
        self.active_mutations
    }

    pub fn reservation_ttl(&self) -> (r: u128)
        ensures
            r == self@.ttl,
    {
        self.reservation_ttl
    }

    pub fn departure_grace(&self) -> (r: u128)
        ensures
            r == self@.grace,
    {
        self.departure_grace
    }

    pub fn has_reservation_deadline(&self) -> (r: bool)
        ensures
            r == (self@.phase is Reservation),
    {
        matches!(self.phase, RoomLifecyclePhase::Reservation { .. })
    }

    pub fn has_departure_grace(&self) -> (r: bool)
        ensures
            r == (self@.phase is Grace),
    {
        matches!(self.phase, RoomLifecyclePhase::Grace { .. })
    }

    /// Lets a grace period run out now. Returns whether there was one; none is started.
    pub fn expire_departure_grace(&mut self, now: Moment) -> (r: bool)
        requires
            old(self)@.consistent(),
        ensures
            final(self)@.consistent(),
            r == (old(self)@.phase is Grace),
            final(self)@ == if r {
                Lifecycle { phase: RoomLifecyclePhase::Grace { expires_at: now }, ..old(self)@ }
            } else {
                old(self)@
            },
    {
        if !self.has_departure_grace() {
            return false;
        }
        self.phase = RoomLifecyclePhase::Grace { expires_at: now };
        true
    }
}

/// The room after a sequence of calls.
pub open spec fn lived(l: Lifecycle, steps: Seq<LifecycleStep>) -> Lifecycle
    decreases steps.len(),
{
    if steps.len() == 0 {
        l
    } else {
        lived(l, steps.drop_last()).after_step(steps.last())
    }
}

/// Each call of the sequence can be made where it stands.
pub open spec fn permitted(l: Lifecycle, steps: Seq<LifecycleStep>) -> bool {
    forall|i: int|
        0 <= i < steps.len() ==> lived(l, steps.take(i)).permits(#[trigger] steps[i])
}

/// Number of calls that were told to remove the room.
pub open spec fn removals(l: Lifecycle, steps: Seq<LifecycleStep>) -> nat
    decreases steps.len(),
{
    if steps.len() == 0 {
        0
    } else {
        removals(l, steps.drop_last()) + if lived(l, steps.drop_last()).wins(steps.last()) {
            1nat
        } else {
            0
        }
    }
}

/// The first calls of a permitted sequence are permitted.
proof fn lemma_permitted_prefix(l: Lifecycle, steps: Seq<LifecycleStep>, n: int)
    requires
        permitted(l, steps),
        0 <= n <= steps.len(),
    ensures
        permitted(l, steps.take(n)),
{
    let first = steps.take(n);
    assert forall|i: int| 0 <= i < first.len() implies lived(l, first.take(i)).permits(
        #[trigger] first[i],
    ) by {
        assert(first.take(i) =~= steps.take(i));
        assert(first[i] == steps[i]);
    }
}

/// A permitted call keeps a room consistent. The call that wins the removal closes the
/// room, and a closed room stays closed and is won no more.
proof fn lemma_lifecycle_step(l: Lifecycle, step: LifecycleStep)
    requires
        l.consistent(),
        l.permits(step),
    ensures
        l.after_step(step).consistent(),
        l.wins(step) ==> l.after_step(step).phase == RoomLifecyclePhase::Closing,
        l.phase == RoomLifecyclePhase::Closing ==> l.after_step(step).phase
            == RoomLifecyclePhase::Closing && !l.wins(step),
{
}

/// Over any sequence of begins, finishes, dropped leases, joins, renewals and expiry
/// claims, at most one caller is told to remove the room. From then on the room is
/// closed: it accepts no more work.
#[verifier::spinoff_prover]
pub proof fn a_room_is_removed_at_most_once(l: Lifecycle, steps: Seq<LifecycleStep>)
    requires
        l.consistent(),
        permitted(l, steps),
    ensures
        lived(l, steps).consistent(),
        removals(l, steps) <= 1,
        removals(l, steps) == 1 ==> lived(l, steps).phase == RoomLifecyclePhase::Closing
            && !lived(l, steps).admits(),
        l.phase == RoomLifecyclePhase::Closing ==> removals(l, steps) == 0,
        l.phase == RoomLifecyclePhase::Closing ==> lived(l, steps).phase
            == RoomLifecyclePhase::Closing,
    decreases steps.len(),
{
    if steps.len() > 0 {
        let before = steps.drop_last();
        assert(steps.take(steps.len() - 1) =~= before);
        lemma_permitted_prefix(l, steps, steps.len() - 1);
        a_room_is_removed_at_most_once(l, before);
        assert(lived(l, before).permits(steps[steps.len() - 1]));
        lemma_lifecycle_step(lived(l, before), steps.last());
    }
}

/// A room is consistent after any permitted calls, and the next one is permitted there.
proof fn lemma_lived(l: Lifecycle, steps: Seq<LifecycleStep>, n: int)
    requires
        l.consistent(),
        permitted(l, steps),
        0 <= n < steps.len(),
    ensures
        lived(l, steps.take(n)).consistent(),
        lived(l, steps.take(n)).permits(steps[n]),
        lived(l, steps.take(n + 1)) == lived(l, steps.take(n)).after_step(steps[n]),
{
    lemma_permitted_prefix(l, steps, n);
    a_room_is_removed_at_most_once(l, steps.take(n));
    assert(steps.take(n + 1).drop_last() =~= steps.take(n));
    assert(steps.take(n + 1).last() == steps[n]);
}

/// Once a caller was told to remove the room, every later attempt to begin work is
/// refused and every later claim and finish wins nothing, whatever was called between.
#[verifier::spinoff_prover]
pub proof fn a_removed_room_stays_closed(l: Lifecycle, steps: Seq<LifecycleStep>, i: int, j: int)
    requires
        l.consistent(),
        permitted(l, steps),
        0 <= i < j <= steps.len(),
        lived(l, steps.take(i)).wins(steps[i]),
    ensures
        lived(l, steps.take(j)).phase == RoomLifecyclePhase::Closing,
        !lived(l, steps.take(j)).admits(),
        lived(l, steps.take(j)).after_begin() == lived(l, steps.take(j)),
        j < steps.len() ==> !lived(l, steps.take(j)).wins(steps[j]),
    decreases j,
{
    if i + 1 < j {
        a_removed_room_stays_closed(l, steps, i, j - 1);
    }
    lemma_lived(l, steps, j - 1);
    lemma_lifecycle_step(lived(l, steps.take(j - 1)), steps[j - 1]);
    if j < steps.len() {
        lemma_lived(l, steps, j);
        lemma_lifecycle_step(lived(l, steps.take(j)), steps[j]);
    }
}

/// An expired room is claimed once, and then is closed for good: no later claim wins,
/// no work is accepted and no renewal revives it.
pub proof fn a_claim_is_won_once_and_is_terminal(l: Lifecycle, now: Moment, later: Moment)
    requires
        l.consistent(),
        l.claimed(now) is Some,
    ensures
        ({
            let closed = l.after_claim(now);
            &&& closed.phase == RoomLifecyclePhase::Closing
            &&& closed.claimed(later) is None
            &&& closed.after_claim(later) == closed
            &&& closed.after_renewal(later) == closed
            &&& !closed.admits()
        }),
{
}

/// A room whose removal was won is closed for good: a later expiry claim wins nothing.
pub proof fn a_removal_is_won_once_and_is_terminal(
    l: Lifecycle,
    on_empty: Option<RoomRemovalPolicy>,
    now: Moment,
    later: Moment,
)
    requires
        l.consistent(),
        l.removes(on_empty, true),
    ensures
        ({
            let closed = l.after_release(on_empty, true, now);
            &&& closed.phase == RoomLifecyclePhase::Closing
            &&& closed.claimed(later) is None
            &&& closed.after_renewal(later) == closed
            &&& !closed.admits()
        }),
{
}

/// Work that asks for no removal leaves the deadline of a room alone, whether it leaves
/// the room empty or not.
pub proof fn work_without_removal_keeps_the_deadline(l: Lifecycle, removable: bool, now: Moment)
    requires
        l.consistent(),
        l.pending is None,
    ensures
        l.after_release(None, removable, now).phase == l.phase,
        !l.removes(None, removable),
{
}

/// A lease that is dropped removes nothing and starts no grace period, and as the last
/// one it voids the removal that waited for it.
pub proof fn a_dropped_lease_proves_nothing(l: Lifecycle, now: Moment)
    requires
        l.consistent(),
    ensures
        l.after_release(None, false, now).phase == l.phase,
        !l.removes(None, false),
        l.last_lease() ==> l.after_release(None, false, now).pending is None,
        !l.last_lease() ==> l.after_release(None, false, now).pending == l.pending,
{
}

/// Asking again for the removal of a room in its grace period does not extend it.
pub proof fn repeated_cleanup_keeps_the_grace(l: Lifecycle, removable: bool, now: Moment)
    requires
        l.consistent(),
        l.phase is Grace,
        l.removal(Some(RoomRemovalPolicy::AfterGrace)) != Some(RoomRemovalPolicy::Immediately),
    ensures
        l.after_release(Some(RoomRemovalPolicy::AfterGrace), removable, now).phase == l.phase,
{
}

/// Only the last lease to be released removes a room or starts its grace period.
pub proof fn removal_waits_for_the_last_lease(
    l: Lifecycle,
    on_empty: Option<RoomRemovalPolicy>,
    removable: bool,
    now: Moment,
)
    requires
        l.consistent(),
        l.leases > 1,
    ensures
        !l.removes(on_empty, removable),
        l.after_release(on_empty, removable, now).phase == l.phase,
{
}

/// A renewal gives a joined room no deadline.
pub proof fn renewal_does_not_rearm_a_joined_room(l: Lifecycle, now: Moment)
    requires
        l.phase == RoomLifecyclePhase::Alive,
    ensures
        l.after_renewal(now) == l,
{
}

/// No room with a lease out is claimed.
pub proof fn leases_hold_off_expiry(l: Lifecycle, now: Moment)
    requires
        l.leases > 0,
    ensures
        l.claimed(now) is None,
        l.after_claim(now) == l,
{
}

} // verus!
