//! In what order the effects of a change come, and what the transport is told.

use vstd::prelude::*;

use crate::consumer_setup::ConsumerRouteTarget;
use crate::effects::{
    follows_activity, follows_close, follows_disconnect, follows_intent, follows_join,
    follows_presence, follows_publish, follows_readiness, work_of, RoomEffectStep, RoomEffects,
    RoomEmission,
};
use crate::membership::DisconnectCommit;
use crate::outbound::MessageFanout;
use crate::publication::{ProducerActivityCommit, PublishCommit};
use crate::source_model::MediaKind;
use crate::state::{ConnectionCloseCommit, JoinCommit, PresenceCommit};
use crate::subscription::ReceiverRouteCommit;
use crate::transport::{
    ConsumerActivity, TransportConsumerRoute, TransportRelayRouteEffect, TransportTeardown,
};
use crate::transport_plan::{
    accepted_updates, activity_control, correction_control, keyframe_control, kept_relays,
    relay_teardown, ConsumerPacketSelectionUpdate, ConsumerRouteControlOutcome,
    ConsumerRouteFinish, ReceiverRouteActivity, RouteFailure,
};

verus! {

/// One step is done before another.
pub open spec fn precedes(
    steps: Seq<RoomEffectStep>,
    first: RoomEffectStep,
    second: RoomEffectStep,
) -> bool {
    exists|i: int, j: int|
        0 <= i < j < steps.len() && #[trigger] steps[i] == first && #[trigger] steps[j] == second
}

pub open spec fn sent(emission: RoomEmission) -> RoomEffectStep {
    RoomEffectStep::Emit(emission)
}

proof fn lemma_precedes(steps: Seq<RoomEffectStep>, i: int, j: int)
    requires
        0 <= i < j < steps.len(),
    ensures
        precedes(steps, steps[i], steps[j]),
{
}

/// The transport is worked on once, and source policy is re-evaluated once where it has to
/// be and never where it has not.
pub proof fn transport_and_policy_run_once(effects: RoomEffects, i: int, j: int)
    requires
        0 <= i < effects.steps().len(),
        0 <= j < effects.steps().len(),
    ensures
        effects.steps().contains(RoomEffectStep::Transport(effects.transport)),
        effects.steps().contains(RoomEffectStep::SourcePolicy) <==> effects.source_policy,
        effects.steps()[i] is Transport && effects.steps()[j] is Transport ==> i == j,
        effects.steps()[i] is SourcePolicy && effects.steps()[j] is SourcePolicy ==> i == j,
{
    let steps = effects.steps();
    let info = crate::effects::optional_emission(effects.output.user_info_before_policy);
    let policy: int = if effects.source_policy {
        1
    } else {
        0
    };
    if effects.policy_before_transport {
        assert(steps[info.len() + policy] == RoomEffectStep::Transport(effects.transport));
        if effects.source_policy {
            assert(steps[info.len() as int] is SourcePolicy);
        }
    } else {
        assert(steps[0] == RoomEffectStep::Transport(effects.transport));
        if effects.source_policy {
            assert(steps[1 + effects.output.before_policy().len() as int] is SourcePolicy);
        }
    }
}

spec fn early_len(effects: RoomEffects) -> int {
    crate::effects::optional_emission(effects.output.user_info_before_policy).len() as int
}

/// Where policy and transport stand among the steps.
spec fn policy_at(effects: RoomEffects) -> int {
    let early = early_len(effects);
    if effects.policy_before_transport {
        early
    } else {
        1 + effects.output.track_snapshots@.len() as int + early
    }
}

spec fn transport_at(effects: RoomEffects) -> int {
    if effects.policy_before_transport {
        early_len(effects) + 1
    } else {
        0
    }
}

/// Where the output that waits for policy begins.
spec fn late_at(effects: RoomEffects) -> int {
    2 + effects.output.track_snapshots@.len() as int + early_len(effects)
}

proof fn lemma_early(effects: RoomEffects, fanout: MessageFanout, k: int)
    requires
        effects.source_policy,
    ensures
        ({
            let steps = effects.steps();
            let tracks = effects.output.track_snapshots@;
            &&& policy_at(effects) < late_at(effects) <= steps.len()
            &&& transport_at(effects) < late_at(effects)
            &&& steps[policy_at(effects)] is SourcePolicy
            &&& steps[transport_at(effects)] == RoomEffectStep::Transport(effects.transport)
            &&& effects.output.user_info_before_policy == Some(fanout) ==> precedes(
                steps,
                sent(RoomEmission::Fanout(fanout)),
                RoomEffectStep::SourcePolicy,
            )
            &&& 0 <= k < tracks.len() ==> precedes(
                steps,
                RoomEffectStep::Transport(effects.transport),
                sent(RoomEmission::Tracks(tracks[k].0, tracks[k].1)),
            )
        }),
{
    let steps = effects.steps();
    let tracks = effects.output.track_snapshots@;
    let policy = policy_at(effects);
    let transport = transport_at(effects);
    assert(steps[policy] is SourcePolicy);
    assert(steps[transport] == RoomEffectStep::Transport(effects.transport));
    if effects.output.user_info_before_policy == Some(fanout) {
        let at: int = if effects.policy_before_transport {
            0
        } else {
            1 + tracks.len() as int
        };
        assert(steps[at] == sent(RoomEmission::Fanout(fanout)));
        lemma_precedes(steps, at, policy);
    }
    if 0 <= k < tracks.len() {
        let at: int = if effects.policy_before_transport {
            transport + 1 + k
        } else {
            1 + k
        };
        assert(steps[at] == sent(RoomEmission::Tracks(tracks[k].0, tracks[k].1)));
        lemma_precedes(steps, transport, at);
    }
}

proof fn lemma_late(effects: RoomEffects, i: int)
    requires
        effects.source_policy,
        0 <= i < effects.output.after_policy().len(),
    ensures
        precedes(
            effects.steps(),
            RoomEffectStep::SourcePolicy,
            sent(effects.output.after_policy()[i]),
        ),
        precedes(
            effects.steps(),
            RoomEffectStep::Transport(effects.transport),
            sent(effects.output.after_policy()[i]),
        ),
{
    let steps = effects.steps();
    let after = effects.output.after_policy();
    let at = late_at(effects) + i;
    lemma_early(effects, arbitrary(), 0);
    assert(steps.len() == late_at(effects) + after.len());
    assert(steps[at] == sent(after[i]));
    lemma_precedes(steps, policy_at(effects), at);
    lemma_precedes(steps, transport_at(effects), at);
}

/// What a publication announces of its publisher is sent before policy runs. Everything
/// that says what became of the room is sent after policy and after the transport: the
/// presence of a client, closes, and what the users who stay are told.
pub proof fn output_keeps_its_order(effects: RoomEffects, fanout: MessageFanout, k: int)
    requires
        effects.source_policy,
    ensures
        ({
            let steps = effects.steps();
            let policy = RoomEffectStep::SourcePolicy;
            let transport = RoomEffectStep::Transport(effects.transport);
            let output = effects.output;
            let closes = output.lifecycle.close_requests@;
            let tracks = output.lifecycle.track_snapshots@;
            let fanouts = output.lifecycle.fanouts@;
            &&& effects.policy_before_transport ==> precedes(steps, policy, transport)
            &&& !effects.policy_before_transport ==> precedes(steps, transport, policy)
            &&& output.user_info_before_policy == Some(fanout) ==> precedes(
                steps,
                sent(RoomEmission::Fanout(fanout)),
                policy,
            )
            &&& 0 <= k < output.track_snapshots@.len() ==> precedes(
                steps,
                transport,
                sent(
                    RoomEmission::Tracks(
                        output.track_snapshots@[k].0,
                        output.track_snapshots@[k].1,
                    ),
                ),
            )
            &&& output.user_info == Some(fanout) ==> {
                &&& precedes(steps, policy, sent(RoomEmission::Fanout(fanout)))
                &&& precedes(steps, transport, sent(RoomEmission::Fanout(fanout)))
            }
            &&& 0 <= k < closes.len() ==> {
                &&& precedes(
                    steps,
                    policy,
                    sent(RoomEmission::Close(closes[k].sender, closes[k].reason)),
                )
                &&& precedes(
                    steps,
                    transport,
                    sent(RoomEmission::Close(closes[k].sender, closes[k].reason)),
                )
            }
            &&& 0 <= k < tracks.len() ==> {
                &&& precedes(steps, policy, sent(RoomEmission::Tracks(tracks[k].0, tracks[k].1)))
                &&& precedes(steps, transport, sent(RoomEmission::Tracks(tracks[k].0, tracks[k].1)))
            }
            &&& 0 <= k < fanouts.len() ==> {
                &&& precedes(steps, policy, sent(RoomEmission::Fanout(fanouts[k])))
                &&& precedes(steps, transport, sent(RoomEmission::Fanout(fanouts[k])))
            }
        }),
{
    let steps = effects.steps();
    let output = effects.output;
    let after = output.after_policy();
    let info = crate::effects::optional_emission(output.user_info).len() as int;
    let closes = output.lifecycle.close_requests@;
    let tracks = output.lifecycle.track_snapshots@;
    let fanouts = output.lifecycle.fanouts@;
    lemma_early(effects, fanout, k);
    if effects.policy_before_transport {
        lemma_precedes(steps, policy_at(effects), transport_at(effects));
    } else {
        lemma_precedes(steps, transport_at(effects), policy_at(effects));
    }
    if output.user_info == Some(fanout) {
        assert(after[0] == RoomEmission::Fanout(fanout));
        lemma_late(effects, 0);
    }
    if 0 <= k < closes.len() {
        assert(after[info + k] == RoomEmission::Close(closes[k].sender, closes[k].reason));
        lemma_late(effects, info + k);
    }
    if 0 <= k < tracks.len() {
        let at = info + closes.len() + k;
        assert(after[at] == RoomEmission::Tracks(tracks[k].0, tracks[k].1));
        lemma_late(effects, at);
    }
    if 0 <= k < fanouts.len() {
        let at = info + closes.len() + tracks.len() + k;
        assert(after[at] == RoomEmission::Fanout(fanouts[k]));
        lemma_late(effects, at);
    }
}

/// A publication that is resumed passes policy before the transport forwards it; one that
/// is paused is stopped before policy runs again. Either way the transport is told once,
/// of this publication and this revision, and every receiver's tracks go out after that.
pub proof fn a_resumed_publication_passes_policy_first(
    commit: ProducerActivityCommit,
    effects: RoomEffects,
    k: int,
)
    requires
        follows_activity(commit, effects),
    ensures
        ({
            let steps = effects.steps();
            let work = work_of(effects.transport);
            let policy = RoomEffectStep::SourcePolicy;
            let transport = RoomEffectStep::Transport(effects.transport);
            &&& commit.update.activity is Active ==> precedes(steps, policy, transport)
            &&& commit.update.activity is Inactive ==> precedes(steps, transport, policy)
            &&& commit.presence matches Some(presence) ==> precedes(
                steps,
                sent(RoomEmission::Fanout(presence.fanout)),
                policy,
            )
            &&& 0 <= k < commit.track_snapshots@.len() ==> precedes(
                steps,
                transport,
                sent(
                    RoomEmission::Tracks(
                        commit.track_snapshots@[k].0,
                        commit.track_snapshots@[k].1,
                    ),
                ),
            )
            &&& work.producers.len() == 1
            &&& work.producers[0].source == commit.source
            &&& work.producers[0].update == commit.update
            &&& work.producers[0].finish.stream_id == commit.stream_id
            &&& work.producers[0].finish.activity == commit.update.activity
            &&& work.remote_source_activity == commit.remote_activity_effects@
            &&& work.consumers.len() == 0 && work.setups.len() == 0 && work.teardown.len() == 0
                && work.relays.len() == 0
        }),
{
    output_keeps_its_order(effects, commit.presence->0.fanout, k);
}

/// Policy runs after every change but the removal of what a replaced connection left, and
/// there nothing is sent either.
pub proof fn changes_are_followed_by_policy(
    joined: JoinCommit,
    closed: ConnectionCloseCommit,
    disconnected: DisconnectCommit,
    present: PresenceCommit,
    published: PublishCommit,
    switched: ProducerActivityCommit,
    routed: ReceiverRouteCommit,
    effects: RoomEffects,
)
    requires
        follows_join(joined, effects) || follows_close(closed, effects) || follows_disconnect(
            disconnected,
            effects,
        ) || follows_presence(present, effects) || follows_publish(published, effects)
            || follows_activity(switched, effects) || follows_intent(routed, effects)
            || follows_readiness(routed, effects),
    ensures
        effects.steps().contains(RoomEffectStep::SourcePolicy) || (follows_close(closed, effects)
            && closed is StalePlacement && effects.steps().len() == 1),
{
    transport_and_policy_run_once(effects, 0, 0);
}

/// A session is torn down after everything else of the connection that is closed.
pub proof fn sessions_are_torn_down_last(
    closed: ConnectionCloseCommit,
    disconnected: DisconnectCommit,
    effects: RoomEffects,
    k: int,
)
    ensures
        follows_close(closed, effects) ==> {
            let teardown = work_of(effects.transport).teardown;
            match closed {
                ConnectionCloseCommit::Current {
                    session_teardown,
                    effects: told,
                    transport_plan,
                    ..
                } => {
                    &&& teardown.last() == session_teardown
                    &&& teardown.len() == transport_plan.teardown@.len() + 1
                    &&& 0 <= k < transport_plan.teardown@.len() ==> teardown[k]
                        == transport_plan.teardown@[k]
                    &&& 0 <= k < told.fanouts@.len() ==> precedes(
                        effects.steps(),
                        RoomEffectStep::Transport(effects.transport),
                        sent(RoomEmission::Fanout(told.fanouts@[k])),
                    )
                },
                ConnectionCloseCommit::StalePlacement { session_teardown, .. } => {
                    &&& teardown.len() == 1
                    &&& teardown[0] == session_teardown
                },
            }
        },
        follows_disconnect(disconnected, effects) ==> {
            let teardown = work_of(effects.transport).teardown;
            let planned = disconnected.transport_plan.teardown@;
            let sessions = disconnected.session_teardowns@;
            let closes = disconnected.effects.close_requests@;
            &&& teardown.len() == planned.len() + sessions.len()
            &&& 0 <= k < planned.len() ==> teardown[k] == planned[k]
            &&& 0 <= k < sessions.len() ==> teardown[planned.len() + k] == sessions[k]
            &&& 0 <= k < closes.len() ==> precedes(
                effects.steps(),
                RoomEffectStep::Transport(effects.transport),
                sent(RoomEmission::Close(closes[k].sender, closes[k].reason)),
            )
        },
{
    if follows_disconnect(disconnected, effects) {
        output_keeps_its_order(effects, disconnected.effects.fanouts@[k], k);
    }
    if follows_close(closed, effects) && closed is Current {
        output_keeps_its_order(effects, effects.output.lifecycle.fanouts@[k], k);
    }
}

/// A join is told to those who were there after the transport let the newcomer in and
/// policy ran.
pub proof fn a_join_is_told_last(commit: JoinCommit, effects: RoomEffects, k: int)
    requires
        follows_join(commit, effects),
        0 <= k < commit.effects.fanouts@.len(),
    ensures
        effects.transport == commit.transport_plan,
        precedes(
            effects.steps(),
            RoomEffectStep::Transport(commit.transport_plan),
            sent(RoomEmission::Fanout(commit.effects.fanouts@[k])),
        ),
        precedes(
            effects.steps(),
            RoomEffectStep::SourcePolicy,
            sent(RoomEmission::Fanout(commit.effects.fanouts@[k])),
        ),
{
    output_keeps_its_order(effects, commit.effects.fanouts@[k], k);
}

/// A presence update reaches the others after policy, once, and the transport not at all.
pub proof fn presence_is_told_after_policy(commit: PresenceCommit, effects: RoomEffects)
    requires
        follows_presence(commit, effects),
    ensures
        effects.steps().len() == 3,
        precedes(
            effects.steps(),
            RoomEffectStep::SourcePolicy,
            sent(RoomEmission::Fanout(commit.fanout)),
        ),
        work_of(effects.transport).teardown.len() == 0,
        work_of(effects.transport).setups.len() == 0,
        work_of(effects.transport).consumers.len() == 0,
        work_of(effects.transport).producers.len() == 0,
{
    let steps = effects.steps();
    assert(steps[2] == sent(RoomEmission::Fanout(commit.fanout)));
    lemma_precedes(steps, 1, 2);
}

/// What receivers ask for is carried out for the reason it was asked: a setup of a new
/// publication as such, one of an intent as such, and one of a receiver that became ready
/// as such. Each setup is carried through once, in its order.
pub proof fn setups_keep_their_reason(
    published: PublishCommit,
    routed: ReceiverRouteCommit,
    effects: RoomEffects,
    k: int,
)
    ensures
        follows_publish(published, effects) ==> {
            let turns = work_of(effects.transport).setups;
            let setups = published.receiver_route_work.setups@;
            &&& turns.len() == setups.len()
            &&& 0 <= k < setups.len() ==> turns[k].setup == setups[k] && turns[k].origin is Publish
        },
        follows_intent(routed, effects) ==> {
            let turns = work_of(effects.transport).setups;
            &&& turns.len() == routed.work.setups@.len()
            &&& 0 <= k < turns.len() ==> turns[k].setup == routed.work.setups@[k]
                && turns[k].origin is Subscribe
        },
        follows_readiness(routed, effects) ==> {
            let turns = work_of(effects.transport).setups;
            &&& turns.len() == routed.work.setups@.len()
            &&& 0 <= k < turns.len() ==> turns[k].setup == routed.work.setups@[k]
                && turns[k].origin is Readiness
        },
{
}

/// What an intent or a readiness makes of routes is controlled, one control for each, and
/// the relays they no longer need are released with the rest of the teardown.
pub proof fn receivers_are_served(routed: ReceiverRouteCommit, effects: RoomEffects, k: int)
    requires
        follows_intent(routed, effects) || follows_readiness(routed, effects),
    ensures
        ({
            let work = work_of(effects.transport);
            let activities = routed.work.activities@;
            &&& work.consumers.len() == activities.len()
            &&& 0 <= k < activities.len() ==> {
                let control = work.consumers[k].control;
                &&& control.route == activities[k].target.transport_route
                &&& control.activity is Some
                &&& control.activity->0 is Active <==> activities[k].active
                &&& control.request_keyframe <==> activities[k].active
                    && activities[k].target.kind is Video
            }
            &&& work.relays.len() + work.teardown.len() == routed.work.relays@.len()
                + routed.work.teardown@.len()
            &&& 0 <= k < routed.work.teardown@.len() ==> work.teardown.contains(
                routed.work.teardown@[k],
            )
            &&& 0 <= k < routed.work.relays@.len() ==> {
                let relay = routed.work.relays@[k];
                if relay.action is Release {
                    work.teardown.contains(
                        TransportTeardown::ReleaseRelayRoute {
                            source: relay.source,
                            target_media_worker_id: relay.target_media_worker_id,
                        },
                    )
                } else {
                    work.relays.contains(relay)
                }
            }
        }),
{
    let work = work_of(effects.transport);
    let relays = routed.work.relays@;
    relay_releases_wait_for_teardown(relays, k);
    let released = relay_teardown(relays);
    if 0 <= k < routed.work.teardown@.len() {
        assert(work.teardown[released.len() + k] == routed.work.teardown@[k]);
    }
    if 0 <= k < relays.len() && relays[k].action is Release {
        let release = TransportTeardown::ReleaseRelayRoute {
            source: relays[k].source,
            target_media_worker_id: relays[k].target_media_worker_id,
        };
        let i = released.index_of(release);
        assert(work.teardown[i] == release);
    }
}

/// Relay work is done at once but for releases: each of those is one piece of teardown.
/// Nothing is lost and nothing is added.
pub proof fn relay_releases_wait_for_teardown(relays: Seq<TransportRelayRouteEffect>, i: int)
    ensures
        kept_relays(relays).len() + relay_teardown(relays).len() == relays.len(),
        0 <= i < relays.len() ==> if relays[i].action is Release {
            relay_teardown(relays).contains(
                TransportTeardown::ReleaseRelayRoute {
                    source: relays[i].source,
                    target_media_worker_id: relays[i].target_media_worker_id,
                },
            )
        } else {
            kept_relays(relays).contains(relays[i])
        },
        0 <= i < kept_relays(relays).len() ==> !(kept_relays(relays)[i].action is Release)
            && relays.contains(kept_relays(relays)[i]),
    decreases relays.len(),
{
    if relays.len() > 0 {
        let fewer = relays.drop_last();
        relay_releases_wait_for_teardown(fewer, i);
        let kept = kept_relays(fewer);
        let released = relay_teardown(fewer);
        let last = relays.last();
        if last.action is Release {
            assert(relay_teardown(relays)[released.len() as int] is ReleaseRelayRoute);
        } else {
            assert(kept_relays(relays)[kept.len() as int] == last);
        }
        if 0 <= i < fewer.len() {
            assert(fewer[i] == relays[i]);
            if relays[i].action is Release {
                let release = TransportTeardown::ReleaseRelayRoute {
                    source: relays[i].source,
                    target_media_worker_id: relays[i].target_media_worker_id,
                };
                let j = released.index_of(release);
                assert(relay_teardown(relays)[j] == release);
            } else {
                let j = kept.index_of(relays[i]);
                assert(kept_relays(relays)[j] == relays[i]);
            }
        }
        if 0 <= i < kept_relays(relays).len() {
            if i < kept.len() {
                let j = fewer.index_of(kept[i]);
                assert(relays[j] == kept_relays(relays)[i]);
            } else {
                assert(relays[relays.len() - 1] == last);
            }
        }
    }
}

/// Relay work keeps its order.
pub proof fn relay_work_keeps_its_order(
    first: Seq<TransportRelayRouteEffect>,
    second: Seq<TransportRelayRouteEffect>,
)
    ensures
        kept_relays(first + second) == kept_relays(first) + kept_relays(second),
        relay_teardown(first + second) == relay_teardown(first) + relay_teardown(second),
    decreases second.len(),
{
    if second.len() == 0 {
        assert(first + second =~= first);
    } else {
        assert((first + second).drop_last() =~= first + second.drop_last());
        relay_work_keeps_its_order(first, second.drop_last());
        assert(kept_relays(first + second) =~= kept_relays(first) + kept_relays(second));
        assert(relay_teardown(first + second) =~= relay_teardown(first) + relay_teardown(second));
    }
}

/// A route that starts to deliver asks for a keyframe exactly where it carries video, and
/// one that stops asks for none. A request for a keyframe alone leaves the activity of its
/// route as it is.
pub proof fn keyframes_are_asked_of_starting_videos(
    activity: ReceiverRouteActivity,
    route: TransportConsumerRoute,
    kind: MediaKind,
    active: bool,
    target: ConsumerRouteTarget,
)
    ensures
        ({
            let control = activity_control(activity).control;
            &&& control.route == activity.target.transport_route
            &&& control.activity == Some(ConsumerActivity::Active) <==> activity.active
            &&& control.activity == Some(ConsumerActivity::Inactive) <==> !activity.active
            &&& control.packet_gate is None
            &&& control.request_keyframe <==> activity.active && activity.target.kind is Video
            &&& activity_control(activity).finish == ConsumerRouteFinish::Activity(activity)
        }),
        ({
            let control = correction_control(route, kind, active).control;
            &&& control.route == route
            &&& control.activity == Some(ConsumerActivity::Active) <==> active
            &&& control.activity == Some(ConsumerActivity::Inactive) <==> !active
            &&& control.packet_gate is None
            &&& control.request_keyframe <==> active && kind is Video
        }),
        ({
            let control = keyframe_control(target).control;
            &&& control.route == target.transport_route
            &&& control.activity is None
            &&& control.packet_gate is None
            &&& control.request_keyframe
        }),
{
}

/// A policy update opens its route exactly where the receiver wants the source and nothing
/// withholds it, and lets through the packets that were selected.
pub proof fn policy_updates_open_what_delivers(update: ConsumerPacketSelectionUpdate)
    ensures
        update.control().route == update.route,
        update.control().activity == Some(ConsumerActivity::Active) <==> update.selection.active
            && update.selection.policy_pause_reason is None,
        update.control().activity is Some,
        update.control().packet_gate == Some(update.selection.selector),
        update.control().request_keyframe == update.request_keyframe,
{
}

/// A policy update takes effect exactly where neither its gate nor its activity was
/// refused; a keyframe that was refused does not undo it.
pub proof fn refused_updates_take_no_effect(
    update: ConsumerPacketSelectionUpdate,
    other: ConsumerRouteFinish,
    result: ConsumerRouteControlOutcome,
)
    ensures
        ({
            let finish = ConsumerRouteFinish::SourcePolicy(update);
            &&& finish.accepted(result).contains(update) <==> !result.packet_gate_failed
                && !result.activity_failed
            &&& finish.accepted(result).len() == 0 <==> finish.failure(result) == Some(
                RouteFailure::Selection,
            )
            &&& finish.failure(result) is None <==> !result.packet_gate_failed
                && !result.activity_failed && !result.keyframe_failed
        }),
        !(other is SourcePolicy) ==> other.accepted(result).len() == 0,
{
    let finish = ConsumerRouteFinish::SourcePolicy(update);
    if !result.packet_gate_failed && !result.activity_failed {
        assert(finish.accepted(result)[0] == update);
    }
}

/// Of a route's refusals the activity is reported before the keyframe, which is of no use
/// without it; and nothing is reported where nothing was refused.
pub proof fn refusals_are_reported(
    finish: ConsumerRouteFinish,
    result: ConsumerRouteControlOutcome,
)
    requires
        !(finish is SourcePolicy),
    ensures
        finish.failure(result) == Some(RouteFailure::Keyframe) <==> result.keyframe_failed && (
        finish is Keyframe || !result.activity_failed),
        finish.failure(result) == Some(RouteFailure::Activity) <==> result.activity_failed && !(
        finish is Keyframe),
        finish.failure(result) != Some(RouteFailure::Selection),
{
}

/// The updates that took effect are those of the completions, each once and in their order.
pub proof fn accepted_updates_keep_their_order(
    first: Seq<(ConsumerRouteFinish, ConsumerRouteControlOutcome)>,
    update: ConsumerPacketSelectionUpdate,
    result: ConsumerRouteControlOutcome,
)
    ensures
        accepted_updates(first.push((ConsumerRouteFinish::SourcePolicy(update), result)))
            == if result.packet_gate_failed || result.activity_failed {
            accepted_updates(first)
        } else {
            accepted_updates(first).push(update)
        },
{
    let all = first.push((ConsumerRouteFinish::SourcePolicy(update), result));
    assert(all.drop_last() =~= first);
    assert(accepted_updates(all) =~= if result.packet_gate_failed || result.activity_failed {
        accepted_updates(first)
    } else {
        accepted_updates(first).push(update)
    });
}

} // verus!
