//! Transport work of a room, in the order in which it is executed.

use vstd::prelude::*;

use crate::consumer_setup::{
    ConsumerRouteTarget, ConsumerSetupOrigin, PendingConsumerSetup,
};
use crate::ids::{PublishedSourceId, UserStreamId};
use crate::source_model::{Bitrate, ConsumerSourceSelection, MediaKind, SourceSelector};
use crate::transport::{
    ConsumerActivity, ProducerActivity, SourceActivityUpdate, SubscriptionKey,
    TransportConsumerRoute, TransportRelayRouteAction, TransportRelayRouteEffect,
    TransportSessionKey, TransportSourceActivityEffect, TransportSourceKey, TransportTeardown,
};

verus! {

/// Whether a receiver's committed route delivers now.
#[derive(Debug, PartialEq, Eq)]
pub struct ReceiverRouteActivity {
    pub target: ConsumerRouteTarget,
    pub active: bool,
}

impl Clone for ReceiverRouteActivity {
    fn clone(&self) -> (r: Self)
        ensures
            r == *self,
    {
        ReceiverRouteActivity { target: self.target.clone(), active: self.active }
    }
}

impl ReceiverRouteActivity {
    pub fn new(target: ConsumerRouteTarget, active: bool) -> (r: Self)
        ensures
            r == (ReceiverRouteActivity { target, active }),
    {
        ReceiverRouteActivity { target, active }
    }

    pub fn target(&self) -> (r: &ConsumerRouteTarget)
        ensures
            *r == self.target,
    {
        &self.target
    }

    pub fn active(&self) -> (r: bool)
        ensures
            r == self.active,
    {
        self.active
    }
}

/// Route work that a change of receivers or publications asks for.
#[derive(Debug)]
pub struct ReceiverRouteWork {
    pub activities: Vec<ReceiverRouteActivity>,
    pub setups: Vec<PendingConsumerSetup>,
    pub relays: Vec<TransportRelayRouteEffect>,
    pub teardown: Vec<TransportTeardown>,
}

impl ReceiverRouteWork {
    /// Setups and nothing else.
    pub fn of_setups(setups: Vec<PendingConsumerSetup>) -> (r: Self)
        ensures
            r.setups == setups,
            r.activities@ == Seq::<ReceiverRouteActivity>::empty(),
            r.relays@ == Seq::<TransportRelayRouteEffect>::empty(),
            r.teardown@ == Seq::<TransportTeardown>::empty(),
    {
        ReceiverRouteWork {
            activities: Vec::new(),
            setups,
            relays: Vec::new(),
            teardown: Vec::new(),
        }
    }
}

/// Relay work without the releases.
pub open spec fn kept_relays(relays: Seq<TransportRelayRouteEffect>) -> Seq<
    TransportRelayRouteEffect,
>
    decreases relays.len(),
{
    if relays.len() == 0 {
        seq![]
    } else {
        let before = kept_relays(relays.drop_last());
        if relays.last().action == TransportRelayRouteAction::Release {
            before
        } else {
            before.push(relays.last())
        }
    }
}

/// The releases among relay work, as teardown.
pub open spec fn relay_teardown(relays: Seq<TransportRelayRouteEffect>) -> Seq<TransportTeardown>
    decreases relays.len(),
{
    if relays.len() == 0 {
        seq![]
    } else {
        let before = relay_teardown(relays.drop_last());
        if relays.last().action == TransportRelayRouteAction::Release {
            before.push(
                TransportTeardown::ReleaseRelayRoute {
                    source: relays.last().source,
                    target_media_worker_id: relays.last().target_media_worker_id,
                },
            )
        } else {
            before
        }
    }
}

/// Splits relay work into what is applied now and what is torn down, each in the
/// order it had.
pub fn extract_relay_teardown(relays: Vec<TransportRelayRouteEffect>) -> (r: (
    Vec<TransportRelayRouteEffect>,
    Vec<TransportTeardown>,
))
    ensures
        r.0@ == kept_relays(relays@),
        r.1@ == relay_teardown(relays@),
{
    let mut kept: Vec<TransportRelayRouteEffect> = Vec::new();
    let mut teardown: Vec<TransportTeardown> = Vec::new();
    let ghost all = relays@;
    for effect in it: relays
        invariant
            it.seq() == all,
            kept@ == kept_relays(all.take(it.index() as int)),
            teardown@ == relay_teardown(all.take(it.index() as int)),
    {
        proof {
            let done = it.index() as int;
            assert(all.take(done + 1).drop_last() =~= all.take(done));
            assert(all.take(done + 1).last() == effect);
        }
        if effect.action == TransportRelayRouteAction::Release {
            teardown.push(
                TransportTeardown::ReleaseRelayRoute {
                    source: effect.source,
                    target_media_worker_id: effect.target_media_worker_id,
                },
            );
        } else {
            kept.push(effect);
        }
    }
    proof {
        assert(all.take(all.len() as int) =~= all);
    }
    (kept, teardown)
}

/// A change that source policy asks of one committed route.
#[derive(Debug, PartialEq, Eq)]
pub struct ConsumerPacketSelectionUpdate {
    pub key: SubscriptionKey,
    pub source_id: PublishedSourceId,
    pub route: TransportConsumerRoute,
    pub selection: ConsumerSourceSelection,
    pub request_keyframe: bool,
}

impl ConsumerPacketSelectionUpdate {
    pub fn route_active(&self) -> (r: bool)
        ensures
            r == self.selection.delivers(),
    {
        self.selection.delivery_active()
    }

    pub open spec fn control(self) -> ConsumerRouteControl {
        ConsumerRouteControl {
            route: self.route,
            activity: Some(ConsumerActivity::of(self.selection.delivers())),
            packet_gate: Some(self.selection.selector),
            request_keyframe: self.request_keyframe,
        }
    }

    pub fn route_control(&self) -> (r: ConsumerRouteControl)
        ensures
            r == self.control(),
    {
        ConsumerRouteControl {
            route: self.route.clone(),
            activity: Some(ConsumerActivity::from_active(self.selection.delivery_active())),
            packet_gate: Some(self.selection.selector),
            request_keyframe: self.request_keyframe,
        }
    }
}

/// What the transport does with one consumer route.
#[derive(Debug, PartialEq, Eq)]
pub struct ConsumerRouteControl {
    pub route: TransportConsumerRoute,
    pub activity: Option<ConsumerActivity>,
    pub packet_gate: Option<SourceSelector>,
    pub request_keyframe: bool,
}

/// Which parts of a route control the transport refused.
#[derive(Debug, Clone, Copy, PartialEq, Eq, Structural)]
pub struct ConsumerRouteControlOutcome {
    pub packet_gate_failed: bool,
    pub activity_failed: bool,
    pub keyframe_failed: bool,
}

/// What is left to do once a consumer route control was applied.
#[derive(Debug, PartialEq, Eq)]
pub enum ConsumerRouteFinish {
    Activity(ReceiverRouteActivity),
    Keyframe(ConsumerRouteTarget),
    SetupActivity(TransportConsumerRoute, bool),
    SourcePolicy(ConsumerPacketSelectionUpdate),
}

/// A refusal worth a report.
#[derive(Debug, Clone, Copy, PartialEq, Eq, Structural)]
pub enum RouteFailure {
    Activity,
    Keyframe,
    Selection,
}

impl ConsumerRouteFinish {
    /// The refusal that is reported. A keyframe is of no use to a route whose
    /// activity was refused.
    pub open spec fn failure(self, result: ConsumerRouteControlOutcome) -> Option<RouteFailure> {
        match self {
            ConsumerRouteFinish::Activity(_) | ConsumerRouteFinish::SetupActivity(..) => if
                result.activity_failed {
                Some(RouteFailure::Activity)
            } else if result.keyframe_failed {
                Some(RouteFailure::Keyframe)
            } else {
                None
            },
            ConsumerRouteFinish::Keyframe(_) => if result.keyframe_failed {
                Some(RouteFailure::Keyframe)
            } else {
                None
            },
            ConsumerRouteFinish::SourcePolicy(_) => if result.packet_gate_failed
                || result.activity_failed {
                Some(RouteFailure::Selection)
            } else if result.keyframe_failed {
                Some(RouteFailure::Keyframe)
            } else {
                None
            },
        }
    }

    /// The policy update that took effect: one whose gate and activity were applied.
    pub open spec fn accepted(self, result: ConsumerRouteControlOutcome) -> Seq<
        ConsumerPacketSelectionUpdate,
    > {
        match self {
            ConsumerRouteFinish::SourcePolicy(update) => if result.packet_gate_failed
                || result.activity_failed {
                seq![]
            } else {
                seq![update]
            },
            _ => seq![],
        }
    }

    /// Completes a route control: collects a policy update that took effect and
    /// returns the refusal to report.
    pub fn finish(
        self,
        result: ConsumerRouteControlOutcome,
        accepted_policy_updates: &mut Vec<ConsumerPacketSelectionUpdate>,
    ) -> (r: Option<RouteFailure>)
        ensures
            r == self.failure(result),
            final(accepted_policy_updates)@ == old(accepted_policy_updates)@ + self.accepted(
                result,
            ),
    {
        let ghost before = accepted_policy_updates@;
        let r = match self {
            ConsumerRouteFinish::Activity(_) | ConsumerRouteFinish::SetupActivity(..) => {
                if result.activity_failed {
                    Some(RouteFailure::Activity)
                } else if result.keyframe_failed {
                    Some(RouteFailure::Keyframe)
                } else {
                    None
                }
            },
            ConsumerRouteFinish::Keyframe(_) => {
                if result.keyframe_failed {
                    Some(RouteFailure::Keyframe)
                } else {
                    None
                }
            },
            ConsumerRouteFinish::SourcePolicy(update) => {
                if result.packet_gate_failed || result.activity_failed {
                    Some(RouteFailure::Selection)
                } else {
                    accepted_policy_updates.push(update);
                    if result.keyframe_failed {
                        Some(RouteFailure::Keyframe)
                    } else {
                        None
                    }
                }
            },
        };
        proof {
            assert(accepted_policy_updates@ =~= before + self.accepted(result));
        }
        r
    }
}

/// Policy updates that took effect, in the order of their completions.
pub open spec fn accepted_updates(
    outcomes: Seq<(ConsumerRouteFinish, ConsumerRouteControlOutcome)>,
) -> Seq<ConsumerPacketSelectionUpdate>
    decreases outcomes.len(),
{
    if outcomes.len() == 0 {
        seq![]
    } else {
        accepted_updates(outcomes.drop_last()) + outcomes.last().0.accepted(outcomes.last().1)
    }
}

/// Completes all consumer controls of a plan. Returns the policy updates that took
/// effect and the refusal of each completion.
pub fn finish_consumers(outcomes: Vec<(ConsumerRouteFinish, ConsumerRouteControlOutcome)>) -> (r: (
    Vec<ConsumerPacketSelectionUpdate>,
    Vec<Option<RouteFailure>>,
))
    ensures
        r.0@ == accepted_updates(outcomes@),
        r.1@ == outcomes@.map_values(
            |outcome: (ConsumerRouteFinish, ConsumerRouteControlOutcome)|
                outcome.0.failure(outcome.1),
        ),
{
    let mut accepted: Vec<ConsumerPacketSelectionUpdate> = Vec::new();
    let mut failures: Vec<Option<RouteFailure>> = Vec::new();
    let ghost all = outcomes@;
    for outcome in it: outcomes
        invariant
            it.seq() == all,
            accepted@ == accepted_updates(all.take(it.index() as int)),
            failures@.len() == it.index(),
            forall|j: int|
                0 <= j < it.index() ==> #[trigger] failures@[j] == all[j].0.failure(all[j].1),
    {
        proof {
            let done = it.index() as int;
            assert(all.take(done + 1).drop_last() =~= all.take(done));
            assert(all.take(done + 1).last() == outcome);
        }
        let (completion, result) = outcome;
        let failure = completion.finish(result, &mut accepted);
        failures.push(failure);
    }
    proof {
        assert(all.take(all.len() as int) =~= all);
        assert(failures@ =~= all.map_values(
            |outcome: (ConsumerRouteFinish, ConsumerRouteControlOutcome)|
                outcome.0.failure(outcome.1),
        ));
    }
    (accepted, failures)
}

/// What is reported once the activity of a publication was applied.
#[derive(Debug, PartialEq, Eq)]
pub struct ProducerRouteFinish {
    pub source: TransportSourceKey,
    pub stream_id: UserStreamId,
    pub activity: ProducerActivity,
}

/// Activity of one publication for the transport.
#[derive(Debug, PartialEq, Eq)]
pub struct ProducerControl {
    pub source: TransportSourceKey,
    pub update: SourceActivityUpdate,
    pub finish: ProducerRouteFinish,
}

/// One consumer control and its completion.
#[derive(Debug, PartialEq, Eq)]
pub struct ConsumerControl {
    pub control: ConsumerRouteControl,
    pub finish: ConsumerRouteFinish,
}

/// Bandwidth that a receiver is steered to.
#[derive(Debug, PartialEq, Eq)]
pub struct ReceiverBweTargetUpdate {
    pub session: TransportSessionKey,
    pub target: Bitrate,
}

/// Media control of a room, applied as one plan.
#[derive(Debug)]
#[must_use]
pub struct RoomRouteEffects {
    pub producers: Vec<ProducerControl>,
    pub consumers: Vec<ConsumerControl>,
    pub receiver_bwe_targets: Vec<ReceiverBweTargetUpdate>,
}

pub open spec fn producer_control(
    source: TransportSourceKey,
    stream_id: UserStreamId,
    update: SourceActivityUpdate,
) -> ProducerControl {
    ProducerControl {
        source,
        update,
        finish: ProducerRouteFinish { source, stream_id, activity: update.activity },
    }
}

/// The control that brings a receiver's route to its activity.
pub open spec fn activity_control(activity: ReceiverRouteActivity) -> ConsumerControl {
    ConsumerControl {
        control: ConsumerRouteControl {
            route: activity.target.transport_route,
            activity: Some(ConsumerActivity::of(activity.active)),
            packet_gate: None,
            request_keyframe: activity.active && activity.target.kind == MediaKind::Video,
        },
        finish: ConsumerRouteFinish::Activity(activity),
    }
}

/// The control that corrects the delivery of a declared route.
pub open spec fn correction_control(
    route: TransportConsumerRoute,
    kind: MediaKind,
    active: bool,
) -> ConsumerControl {
    ConsumerControl {
        control: ConsumerRouteControl {
            route,
            activity: Some(ConsumerActivity::of(active)),
            packet_gate: None,
            request_keyframe: active && kind == MediaKind::Video,
        },
        finish: ConsumerRouteFinish::SetupActivity(route, active),
    }
}

/// The control that asks for a keyframe and changes nothing.
pub open spec fn keyframe_control(target: ConsumerRouteTarget) -> ConsumerControl {
    ConsumerControl {
        control: ConsumerRouteControl {
            route: target.transport_route,
            activity: None,
            packet_gate: None,
            request_keyframe: true,
        },
        finish: ConsumerRouteFinish::Keyframe(target),
    }
}

impl RoomRouteEffects {
    pub fn new() -> (r: Self)
        ensures
            r.producers@ == Seq::<ProducerControl>::empty(),
            r.consumers@ == Seq::<ConsumerControl>::empty(),
            r.receiver_bwe_targets@ == Seq::<ReceiverBweTargetUpdate>::empty(),
    {
        RoomRouteEffects {
            producers: Vec::new(),
            consumers: Vec::new(),
            receiver_bwe_targets: Vec::new(),
        }
    }

    pub fn is_empty(&self) -> (r: bool)
        ensures
            r == (self.producers@.len() == 0 && self.consumers@.len() == 0
                && self.receiver_bwe_targets@.len() == 0),
    {
        self.producers.len() == 0 && self.consumers.len() == 0 && self.receiver_bwe_targets.len()
            == 0
    }

    pub fn producer_activity(
        &mut self,
        source: TransportSourceKey,
        stream_id: UserStreamId,
        update: SourceActivityUpdate,
    )
        ensures
            final(self).producers@ == old(self).producers@.push(
                producer_control(source, stream_id, update),
            ),
            final(self).consumers == old(self).consumers,
            final(self).receiver_bwe_targets == old(self).receiver_bwe_targets,
    {
        let finish = ProducerRouteFinish {
            source: source.clone(),
            stream_id,
            activity: update.activity,
        };
        self.producers.push(ProducerControl { source, update, finish });
    }

    pub fn receiver_activity(&mut self, activity: ReceiverRouteActivity)
        ensures
            final(self).consumers@ == old(self).consumers@.push(activity_control(activity)),
            final(self).producers == old(self).producers,
            final(self).receiver_bwe_targets == old(self).receiver_bwe_targets,
    {
        let control = ConsumerRouteControl {
            route: activity.target.transport_route.clone(),
            activity: Some(ConsumerActivity::from_active(activity.active)),
            packet_gate: None,
            request_keyframe: activity.target.request_keyframe_after_activity(activity.active),
        };
        self.consumers.push(
            ConsumerControl { control, finish: ConsumerRouteFinish::Activity(activity) },
        );
    }

    /// Corrects the delivery of a route that was declared with another one.
    pub fn setup_activity(&mut self, route: TransportConsumerRoute, kind: MediaKind, active: bool)
        ensures
            final(self).consumers@ == old(self).consumers@.push(
                correction_control(route, kind, active),
            ),
            final(self).producers == old(self).producers,
            final(self).receiver_bwe_targets == old(self).receiver_bwe_targets,
    {
        let control = ConsumerRouteControl {
            route: route.clone(),
            activity: Some(ConsumerActivity::from_active(active)),
            packet_gate: None,
            request_keyframe: active && kind == MediaKind::Video,
        };
        self.consumers.push(
            ConsumerControl { control, finish: ConsumerRouteFinish::SetupActivity(route, active) },
        );
    }

    pub fn keyframe(&mut self, target: ConsumerRouteTarget)
        ensures
            final(self).consumers@ == old(self).consumers@.push(keyframe_control(target)),
            final(self).producers == old(self).producers,
            final(self).receiver_bwe_targets == old(self).receiver_bwe_targets,
    {
        let control = ConsumerRouteControl {
            route: target.transport_route.clone(),
            activity: None,
            packet_gate: None,
            request_keyframe: true,
        };
        self.consumers.push(
            ConsumerControl { control, finish: ConsumerRouteFinish::Keyframe(target) },
        );
    }

    pub fn source_policy_update(&mut self, update: ConsumerPacketSelectionUpdate)
        ensures
            final(self).consumers@ == old(self).consumers@.push(
                ConsumerControl {
                    control: update.control(),
                    finish: ConsumerRouteFinish::SourcePolicy(update),
                },
            ),
            final(self).producers == old(self).producers,
            final(self).receiver_bwe_targets == old(self).receiver_bwe_targets,
    {
        let control = update.route_control();
        self.consumers.push(
            ConsumerControl { control, finish: ConsumerRouteFinish::SourcePolicy(update) },
        );
    }

    pub fn set_receiver_bwe_targets(&mut self, targets: Vec<ReceiverBweTargetUpdate>)
        ensures
            final(self).receiver_bwe_targets == targets,
            final(self).producers == old(self).producers,
            final(self).consumers == old(self).consumers,
    {
        self.receiver_bwe_targets = targets;
    }

    /// Adds the control of another plan behind that of this one.
    pub fn append(&mut self, other: Self)
        ensures
            final(self).producers@ == old(self).producers@ + other.producers@,
            final(self).consumers@ == old(self).consumers@ + other.consumers@,
            final(self).receiver_bwe_targets@ == old(self).receiver_bwe_targets@
                + other.receiver_bwe_targets@,
    {
        let mut other = other;
        self.producers.append(&mut other.producers);
        self.consumers.append(&mut other.consumers);
        self.receiver_bwe_targets.append(&mut other.receiver_bwe_targets);
    }
}

/// A setup to carry through, and what asked for it.
#[derive(Debug)]
pub struct ReceiverSetupTurn {
    pub setup: PendingConsumerSetup,
    pub origin: ConsumerSetupOrigin,
}

pub open spec fn setup_turns(
    setups: Seq<PendingConsumerSetup>,
    origin: ConsumerSetupOrigin,
) -> Seq<ReceiverSetupTurn> {
    setups.map_values(|setup: PendingConsumerSetup| ReceiverSetupTurn { setup, origin })
}

/// Transport work of a room: relays, then activity of remote sources, then media
/// control, then teardown, then setups.
#[derive(Debug)]
pub struct RoomTransportPlan {
    pub relays: Vec<TransportRelayRouteEffect>,
    pub remote_source_activity: Vec<TransportSourceActivityEffect>,
    pub route_control: RoomRouteEffects,
    pub teardown: Vec<TransportTeardown>,
    pub setup_turns: Vec<ReceiverSetupTurn>,
}

impl RoomTransportPlan {
    /// Nothing but relay work and teardown.
    pub open spec fn only(
        &self,
        relays: Seq<TransportRelayRouteEffect>,
        teardown: Seq<TransportTeardown>,
    ) -> bool {
        &&& self.relays@ == relays
        &&& self.teardown@ == teardown
        &&& self.remote_source_activity@ == Seq::<TransportSourceActivityEffect>::empty()
        &&& self.route_control.producers@ == Seq::<ProducerControl>::empty()
        &&& self.route_control.consumers@ == Seq::<ConsumerControl>::empty()
        &&& self.route_control.receiver_bwe_targets@ == Seq::<ReceiverBweTargetUpdate>::empty()
        &&& self.setup_turns@ == Seq::<ReceiverSetupTurn>::empty()
    }

    /// No work.
    pub fn new() -> (r: Self)
        ensures
            r.only(seq![], seq![]),
    {
        RoomTransportPlan {
            relays: Vec::new(),
            remote_source_activity: Vec::new(),
            route_control: RoomRouteEffects::new(),
            teardown: Vec::new(),
            setup_turns: Vec::new(),
        }
    }

    /// Relay releases are torn down before anything else that is.
    pub fn from_relays_and_teardown(
        relays: Vec<TransportRelayRouteEffect>,
        additional_teardown: Vec<TransportTeardown>,
    ) -> (r: Self)
        ensures
            r.only(kept_relays(relays@), relay_teardown(relays@) + additional_teardown@),
    {
        let (kept, teardown) = extract_relay_teardown(relays);
        let mut teardown = teardown;
        let mut more = additional_teardown;
        teardown.append(&mut more);
        RoomTransportPlan {
            relays: kept,
            remote_source_activity: Vec::new(),
            route_control: RoomRouteEffects::new(),
            teardown,
            setup_turns: Vec::new(),
        }
    }

    /// Adds the work of another plan, step by step.
    pub fn extend(&mut self, other: Self)
        ensures
            final(self).relays@ == old(self).relays@ + other.relays@,
            final(self).remote_source_activity@ == old(self).remote_source_activity@
                + other.remote_source_activity@,
            final(self).teardown@ == old(self).teardown@ + other.teardown@,
            final(self).setup_turns@ == old(self).setup_turns@ + other.setup_turns@,
            final(self).route_control.producers@ == old(self).route_control.producers@
                + other.route_control.producers@,
            final(self).route_control.consumers@ == old(self).route_control.consumers@
                + other.route_control.consumers@,
            final(self).route_control.receiver_bwe_targets@
                == old(self).route_control.receiver_bwe_targets@
                + other.route_control.receiver_bwe_targets@,
    {
        let mut other = other;
        self.relays.append(&mut other.relays);
        self.remote_source_activity.append(&mut other.remote_source_activity);
        self.teardown.append(&mut other.teardown);
        self.route_control.append(other.route_control);
        self.setup_turns.append(&mut other.setup_turns);
    }

    pub fn extend_teardown(&mut self, teardown: Vec<TransportTeardown>)
        ensures
            final(self).teardown@ == old(self).teardown@ + teardown@,
            final(self).relays == old(self).relays,
            final(self).remote_source_activity == old(self).remote_source_activity,
            final(self).route_control == old(self).route_control,
            final(self).setup_turns == old(self).setup_turns,
    {
        let mut teardown = teardown;
        self.teardown.append(&mut teardown);
    }

    pub fn push_producer(
        &mut self,
        source: TransportSourceKey,
        stream_id: UserStreamId,
        update: SourceActivityUpdate,
    )
        ensures
            final(self).route_control.producers@ == old(self).route_control.producers@.push(
                producer_control(source, stream_id, update),
            ),
            final(self).route_control.consumers == old(self).route_control.consumers,
            final(self).route_control.receiver_bwe_targets
                == old(self).route_control.receiver_bwe_targets,
            final(self).relays == old(self).relays,
            final(self).remote_source_activity == old(self).remote_source_activity,
            final(self).teardown == old(self).teardown,
            final(self).setup_turns == old(self).setup_turns,
    {
        self.route_control.producer_activity(source, stream_id, update);
    }

    pub fn extend_remote_source_activity(&mut self, effects: Vec<TransportSourceActivityEffect>)
        ensures
            final(self).remote_source_activity@ == old(self).remote_source_activity@ + effects@,
            final(self).relays == old(self).relays,
            final(self).route_control == old(self).route_control,
            final(self).teardown == old(self).teardown,
            final(self).setup_turns == old(self).setup_turns,
    {
        let mut effects = effects;
        self.remote_source_activity.append(&mut effects);
    }

    /// Adds the work of receivers. Relay releases go to teardown, before the
    /// teardown that the work itself asks for.
    pub fn push_receiver_work(&mut self, work: ReceiverRouteWork, origin: ConsumerSetupOrigin)
        ensures
            final(self).relays@ == old(self).relays@ + kept_relays(work.relays@),
            final(self).teardown@ == old(self).teardown@ + relay_teardown(work.relays@)
                + work.teardown@,
            final(self).route_control.consumers@ == old(self).route_control.consumers@
                + work.activities@.map_values(
                |activity: ReceiverRouteActivity| activity_control(activity),
            ),
            final(self).route_control.producers == old(self).route_control.producers,
            final(self).route_control.receiver_bwe_targets
                == old(self).route_control.receiver_bwe_targets,
            final(self).setup_turns@ == old(self).setup_turns@ + setup_turns(work.setups@, origin),
            final(self).remote_source_activity == old(self).remote_source_activity,
    {
        let ghost start = *self;
        let ReceiverRouteWork { activities, setups, relays, teardown } = work;
        let (mut kept, mut released) = extract_relay_teardown(relays);
        let mut teardown = teardown;
        self.teardown.append(&mut released);
        self.relays.append(&mut kept);
        self.teardown.append(&mut teardown);
        let ghost all = activities@;
        for activity in it: activities
            invariant
                it.seq() == all,
                self.route_control.consumers@ == start.route_control.consumers@ + all.take(
                    it.index() as int,
                ).map_values(|activity: ReceiverRouteActivity| activity_control(activity)),
                self.route_control.producers == start.route_control.producers,
                self.route_control.receiver_bwe_targets
                    == start.route_control.receiver_bwe_targets,
                self.setup_turns == start.setup_turns,
                self.remote_source_activity == start.remote_source_activity,
                self.relays@ == start.relays@ + kept_relays(work.relays@),
                self.teardown@ == start.teardown@ + relay_teardown(work.relays@) + work.teardown@,
        {
            self.route_control.receiver_activity(activity);
            proof {
                let done = it.index() as int;
                assert(self.route_control.consumers@ =~= start.route_control.consumers@ + all.take(
                    done + 1,
                ).map_values(|activity: ReceiverRouteActivity| activity_control(activity)));
            }
        }
        proof {
            assert(all.take(all.len() as int) =~= all);
        }
        let ghost controls = self.route_control;
        let ghost planned = setups@;
        for setup in it: setups
            invariant
                it.seq() == planned,
                self.setup_turns@ == start.setup_turns@ + setup_turns(
                    planned.take(it.index() as int),
                    origin,
                ),
                self.route_control == controls,
                self.remote_source_activity == start.remote_source_activity,
                self.relays@ == start.relays@ + kept_relays(work.relays@),
                self.teardown@ == start.teardown@ + relay_teardown(work.relays@) + work.teardown@,
        {
            self.setup_turns.push(ReceiverSetupTurn { setup, origin });
            proof {
                let done = it.index() as int;
                assert(self.setup_turns@ =~= start.setup_turns@ + setup_turns(
                    planned.take(done + 1),
                    origin,
                ));
            }
        }
        proof {
            assert(planned.take(planned.len() as int) =~= planned);
        }
    }
}

} // verus!
