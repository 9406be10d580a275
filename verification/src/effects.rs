//! What follows a committed change of a room.
//!
//! A change is committed while nothing else touches the room. Its transport work, its
//! output and the re-evaluation of source policy follow, in an order that every batch of
//! effects keeps: transport, then what has to be sent before policy, then policy, then
//! the rest of the output. A publication that becomes active runs its policy first.

use vstd::prelude::*;

use crate::consumer_setup::ConsumerSetupOrigin;
use crate::ids::OutboundLane;
use crate::membership::DisconnectCommit;
use crate::outbound::{MessageFanout, UserCloseReason, VersionedRemoteTrackSnapshot};
use crate::publication::{ProducerActivityCommit, PublishCommit};
use crate::state::{
    CloseRequest, ConnectionCloseCommit, JoinCommit, LifecycleEffects, PresenceCommit,
    UserJoinedFanout,
};
use crate::subscription::ReceiverRouteCommit;
use crate::transport::{
    ProducerActivity, TransportRelayRouteEffect, TransportSourceActivityEffect, TransportTeardown,
};
use crate::transport_plan::{
    activity_control, kept_relays, producer_control, relay_teardown, setup_turns, ConsumerControl,
    ProducerControl, ReceiverBweTargetUpdate, ReceiverRouteActivity, ReceiverRouteWork,
    ReceiverSetupTurn, RoomTransportPlan,
};

verus! {

/// Where the effects of a change go: to a transport or to none, with or without route
/// work.
pub struct RoomEffectContext<'a, T> {
    media_transport: Option<&'a T>,
    route_effects: bool,
    joined_fanout: UserJoinedFanout,
}

impl<'a, T> RoomEffectContext<'a, T> {
    /// The transport that policy works on.
    pub closed spec fn policy_target(self) -> Option<&'a T> {
        self.media_transport
    }

    /// The transport that route work is done on.
    pub closed spec fn route_target(self) -> Option<&'a T> {
        if self.route_effects {
            self.media_transport
        } else {
            None
        }
    }

    pub closed spec fn announces(self) -> UserJoinedFanout {
        self.joined_fanout
    }

    /// All effects.
    pub fn runtime(media_transport: &'a T) -> (r: Self)
        ensures
            r.policy_target() == Some(media_transport),
            r.route_target() == Some(media_transport),
            r.announces() == UserJoinedFanout::Emit,
    {
        RoomEffectContext {
            media_transport: Some(media_transport),
            route_effects: true,
            joined_fanout: UserJoinedFanout::Emit,
        }
    }

    /// No route work, and no announcement of users that join.
    pub fn state_only(media_transport: Option<&'a T>) -> (r: Self)
        ensures
            r.policy_target() == media_transport,
            r.route_target() is None,
            r.announces() == UserJoinedFanout::Suppress,
    {
        RoomEffectContext {
            media_transport,
            route_effects: false,
            joined_fanout: UserJoinedFanout::Suppress,
        }
    }

    pub fn user_joined_fanout(&self) -> (r: UserJoinedFanout)
        ensures
            r == self.announces(),
    {
        self.joined_fanout
    }

    pub fn media_transport(&self) -> (r: Option<&'a T>)
        ensures
            r == self.policy_target(),
    {
        self.media_transport
    }

    pub fn route_transport(&self) -> (r: Option<&'a T>)
        ensures
            r == self.route_target(),
    {
        if self.route_effects {
            self.media_transport
        } else {
            None
        }
    }
}

/// Transport work as mathematics.
#[verifier::ext_equal]
pub struct TransportWork {
    pub relays: Seq<TransportRelayRouteEffect>,
    pub remote_source_activity: Seq<TransportSourceActivityEffect>,
    pub producers: Seq<ProducerControl>,
    pub consumers: Seq<ConsumerControl>,
    pub receiver_bwe_targets: Seq<ReceiverBweTargetUpdate>,
    pub teardown: Seq<TransportTeardown>,
    pub setups: Seq<ReceiverSetupTurn>,
}

impl TransportWork {
    pub open spec fn nothing() -> Self {
        TransportWork {
            relays: seq![],
            remote_source_activity: seq![],
            producers: seq![],
            consumers: seq![],
            receiver_bwe_targets: seq![],
            teardown: seq![],
            setups: seq![],
        }
    }

    /// What receivers ask for.
    pub open spec fn of_receivers(work: ReceiverRouteWork, origin: ConsumerSetupOrigin) -> Self {
        TransportWork {
            relays: kept_relays(work.relays@),
            consumers: work.activities@.map_values(
                |activity: ReceiverRouteActivity| activity_control(activity),
            ),
            teardown: relay_teardown(work.relays@) + work.teardown@,
            setups: setup_turns(work.setups@, origin),
            ..Self::nothing()
        }
    }
}

/// The work of a plan.
pub open spec fn work_of(plan: RoomTransportPlan) -> TransportWork {
    TransportWork {
        relays: plan.relays@,
        remote_source_activity: plan.remote_source_activity@,
        producers: plan.route_control.producers@,
        consumers: plan.route_control.consumers@,
        receiver_bwe_targets: plan.route_control.receiver_bwe_targets@,
        teardown: plan.teardown@,
        setups: plan.setup_turns@,
    }
}

/// One thing to send.
#[derive(Debug)]
pub enum RoomEmission {
    Tracks(OutboundLane, VersionedRemoteTrackSnapshot),
    Fanout(MessageFanout),
    Close(OutboundLane, UserCloseReason),
}

/// Output of a change.
#[derive(Debug)]
pub struct RoomOutputPlan {
    pub track_snapshots: Vec<(OutboundLane, VersionedRemoteTrackSnapshot)>,
    pub user_info_before_policy: Option<MessageFanout>,
    pub user_info: Option<MessageFanout>,
    pub lifecycle: LifecycleEffects,
}

/// Track snapshots, each to its lane.
pub open spec fn track_emissions(
    snapshots: Seq<(OutboundLane, VersionedRemoteTrackSnapshot)>,
) -> Seq<RoomEmission> {
    snapshots.map_values(
        |tracks: (OutboundLane, VersionedRemoteTrackSnapshot)|
            RoomEmission::Tracks(tracks.0, tracks.1),
    )
}

/// Closes, each on its lane.
pub open spec fn close_emissions(requests: Seq<CloseRequest>) -> Seq<RoomEmission> {
    requests.map_values(
        |request: CloseRequest| RoomEmission::Close(request.sender, request.reason),
    )
}

pub open spec fn fanout_emissions(fanouts: Seq<MessageFanout>) -> Seq<RoomEmission> {
    fanouts.map_values(|fanout: MessageFanout| RoomEmission::Fanout(fanout))
}

pub open spec fn optional_emission(fanout: Option<MessageFanout>) -> Seq<RoomEmission> {
    match fanout {
        Some(fanout) => seq![RoomEmission::Fanout(fanout)],
        None => seq![],
    }
}

fn no_lifecycle_effects() -> (r: LifecycleEffects)
    ensures
        r.close_requests@ == Seq::<CloseRequest>::empty(),
        r.track_snapshots@ == Seq::<(OutboundLane, VersionedRemoteTrackSnapshot)>::empty(),
        r.fanouts@ == Seq::<MessageFanout>::empty(),
{
    LifecycleEffects {
        close_requests: Vec::new(),
        track_snapshots: Vec::new(),
        fanouts: Vec::new(),
    }
}

fn push_tracks(
    emissions: &mut Vec<RoomEmission>,
    snapshots: Vec<(OutboundLane, VersionedRemoteTrackSnapshot)>,
)
    ensures
        final(emissions)@ == old(emissions)@ + track_emissions(snapshots@),
{
    let ghost start = emissions@;
    let ghost all = snapshots@;
    proof {
        assert(emissions@ =~= start + track_emissions(all.take(0)));
    }
    for tracks in it: snapshots
        invariant
            it.seq() == all,
            emissions@ == start + track_emissions(all.take(it.index() as int)),
    {
        let ghost i = it.index() as int;
        emissions.push(RoomEmission::Tracks(tracks.0, tracks.1));
        proof {
            assert(emissions@ =~= start + track_emissions(all.take(i + 1)));
        }
    }
    proof {
        assert(all.take(all.len() as int) =~= all);
    }
}

impl RoomOutputPlan {
    /// Sent before policy.
    pub open spec fn before_policy(self) -> Seq<RoomEmission> {
        track_emissions(self.track_snapshots@) + optional_emission(self.user_info_before_policy)
    }

    /// Sent after policy.
    pub open spec fn after_policy(self) -> Seq<RoomEmission> {
        optional_emission(self.user_info) + close_emissions(self.lifecycle.close_requests@)
            + track_emissions(self.lifecycle.track_snapshots@) + fanout_emissions(
            self.lifecycle.fanouts@,
        )
    }

    /// There is nothing to send.
    pub open spec fn silent(self) -> bool {
        &&& self.track_snapshots@ == Seq::<(OutboundLane, VersionedRemoteTrackSnapshot)>::empty()
        &&& self.user_info_before_policy is None
        &&& self.user_info is None
        &&& self.lifecycle.close_requests@ == Seq::<CloseRequest>::empty()
        &&& self.lifecycle.track_snapshots@ == Seq::<
            (OutboundLane, VersionedRemoteTrackSnapshot),
        >::empty()
        &&& self.lifecycle.fanouts@ == Seq::<MessageFanout>::empty()
    }

    pub fn new() -> (r: Self)
        ensures
            r.silent(),
    {
        RoomOutputPlan {
            track_snapshots: Vec::new(),
            user_info_before_policy: None,
            user_info: None,
            lifecycle: no_lifecycle_effects(),
        }
    }

    /// Takes what has to be sent before policy. Nothing is taken twice.
    pub fn emit_before_policy(&mut self) -> (r: Vec<RoomEmission>)
        ensures
            r@ == old(self).before_policy(),
            final(self).before_policy() == Seq::<RoomEmission>::empty(),
            final(self).after_policy() == old(self).after_policy(),
    {
        let mut emissions: Vec<RoomEmission> = Vec::new();
        let mut snapshots: Vec<(OutboundLane, VersionedRemoteTrackSnapshot)> = Vec::new();
        snapshots.append(&mut self.track_snapshots);
        push_tracks(&mut emissions, snapshots);
        if let Some(fanout) = self.emit_user_info_before_policy() {
            emissions.push(RoomEmission::Fanout(fanout));
        }
        proof {
            assert(emissions@ =~= old(self).before_policy());
            assert(self.before_policy() =~= Seq::<RoomEmission>::empty());
        }
        emissions
    }

    /// Takes the presence that has to be sent before policy.
    pub fn emit_user_info_before_policy(&mut self) -> (r: Option<MessageFanout>)
        ensures
            r == old(self).user_info_before_policy,
            *final(self) == (RoomOutputPlan { user_info_before_policy: None, ..*old(self) }),
    {
        self.user_info_before_policy.take()
    }

    /// What is sent after policy.
    pub fn emit_after_policy(self) -> (r: Vec<RoomEmission>)
        ensures
            r@ == self.after_policy(),
    {
        let mut emissions: Vec<RoomEmission> = Vec::new();
        if let Some(fanout) = self.user_info {
            emissions.push(RoomEmission::Fanout(fanout));
        }
        let ghost start = emissions@;
        let ghost requests = self.lifecycle.close_requests@;
        proof {
            assert(start =~= optional_emission(self.user_info));
            assert(emissions@ =~= start + close_emissions(requests.take(0)));
        }
        for request in it: self.lifecycle.close_requests
            invariant
                it.seq() == requests,
                emissions@ == start + close_emissions(requests.take(it.index() as int)),
        {
            let ghost i = it.index() as int;
            emissions.push(RoomEmission::Close(request.sender, request.reason));
            proof {
                assert(emissions@ =~= start + close_emissions(requests.take(i + 1)));
            }
        }
        proof {
            assert(requests.take(requests.len() as int) =~= requests);
        }
        push_tracks(&mut emissions, self.lifecycle.track_snapshots);
        let ghost closed = emissions@;
        let ghost fanouts = self.lifecycle.fanouts@;
        proof {
            assert(emissions@ =~= closed + fanout_emissions(fanouts.take(0)));
        }
        for fanout in it: self.lifecycle.fanouts
            invariant
                it.seq() == fanouts,
                emissions@ == closed + fanout_emissions(fanouts.take(it.index() as int)),
        {
            let ghost i = it.index() as int;
            emissions.push(RoomEmission::Fanout(fanout));
            proof {
                assert(emissions@ =~= closed + fanout_emissions(fanouts.take(i + 1)));
            }
        }
        proof {
            assert(fanouts.take(fanouts.len() as int) =~= fanouts);
            assert(emissions@ =~= self.after_policy());
        }
        emissions
    }
}

/// One step of carrying out the effects of a change.
#[derive(Debug)]
pub enum RoomEffectStep {
    /// Do the transport work, on the transport that route work is done on.
    Transport(RoomTransportPlan),
    Emit(RoomEmission),
    /// Re-evaluate source policy.
    SourcePolicy,
}

pub open spec fn emission_steps(emissions: Seq<RoomEmission>) -> Seq<RoomEffectStep> {
    emissions.map_values(|emission: RoomEmission| RoomEffectStep::Emit(emission))
}

fn push_emissions(steps: &mut Vec<RoomEffectStep>, emissions: Vec<RoomEmission>)
    ensures
        final(steps)@ == old(steps)@ + emission_steps(emissions@),
{
    let ghost start = steps@;
    let ghost all = emissions@;
    proof {
        assert(steps@ =~= start + emission_steps(all.take(0)));
    }
    for emission in it: emissions
        invariant
            it.seq() == all,
            steps@ == start + emission_steps(all.take(it.index() as int)),
    {
        let ghost i = it.index() as int;
        steps.push(RoomEffectStep::Emit(emission));
        proof {
            assert(steps@ =~= start + emission_steps(all.take(i + 1)));
        }
    }
    proof {
        assert(all.take(all.len() as int) =~= all);
    }
}

/// Effects of a committed change.
#[derive(Debug)]
#[must_use]
pub struct RoomEffects {
    pub policy_before_transport: bool,
    pub transport: RoomTransportPlan,
    pub output: RoomOutputPlan,
    /// Source policy has to be re-evaluated.
    pub source_policy: bool,
}

pub open spec fn policy_steps(requested: bool) -> Seq<RoomEffectStep> {
    if requested {
        seq![RoomEffectStep::SourcePolicy]
    } else {
        seq![]
    }
}

impl RoomEffects {
    /// The steps of the effects, in their order. Policy is re-evaluated once.
    pub open spec fn steps(self) -> Seq<RoomEffectStep> {
        if self.policy_before_transport {
            emission_steps(optional_emission(self.output.user_info_before_policy))
                + policy_steps(self.source_policy) + seq![
                RoomEffectStep::Transport(self.transport),
            ] + emission_steps(track_emissions(self.output.track_snapshots@)) + emission_steps(
                self.output.after_policy(),
            )
        } else {
            seq![RoomEffectStep::Transport(self.transport)] + emission_steps(
                self.output.before_policy(),
            ) + policy_steps(self.source_policy) + emission_steps(self.output.after_policy())
        }
    }

    fn new() -> (r: Self)
        ensures
            !r.policy_before_transport,
            work_of(r.transport) == TransportWork::nothing(),
            r.output.silent(),
            !r.source_policy,
    {
        RoomEffects {
            policy_before_transport: false,
            transport: RoomTransportPlan::new(),
            output: RoomOutputPlan::new(),
            source_policy: false,
        }
    }

    /// A join: its output goes out after policy.
    pub fn from_join(commit: JoinCommit) -> (r: Self)
        ensures
            follows_join(commit, r),
    {
        let mut batch = Self::new();
        batch.transport = commit.transport_plan;
        batch.source_policy = true;
        batch.output.lifecycle = commit.effects;
        proof {
            assert(batch.output.before_policy() =~= Seq::<RoomEmission>::empty());
        }
        batch
    }

    /// A close: the session is torn down after everything else that is. What is left of
    /// a replaced connection is torn down and nothing else happens.
    pub fn from_connection_close(commit: ConnectionCloseCommit) -> (r: Self)
        ensures
            follows_close(commit, r),
    {
        let mut batch = Self::new();
        match commit {
            ConnectionCloseCommit::Current { session_teardown, effects, transport_plan, .. } => {
                batch.transport = transport_plan;
                batch.output.lifecycle = effects;
                batch.source_policy = true;
                let mut teardown: Vec<TransportTeardown> = Vec::new();
                teardown.push(session_teardown);
                batch.transport.extend_teardown(teardown);
                proof {
                    assert(batch.transport.teardown@ =~= transport_plan.teardown@.push(
                        session_teardown,
                    ));
                    assert(batch.output.before_policy() =~= Seq::<RoomEmission>::empty());
                }
            },
            ConnectionCloseCommit::StalePlacement { session_teardown, .. } => {
                let mut teardown: Vec<TransportTeardown> = Vec::new();
                teardown.push(session_teardown);
                batch.transport.extend_teardown(teardown);
                proof {
                    assert(batch.transport.teardown@ =~= seq![session_teardown]);
                }
            },
        }
        batch
    }

    /// A disconnection of users: their sessions are torn down after everything else.
    pub fn from_disconnect(commit: DisconnectCommit) -> (r: Self)
        ensures
            follows_disconnect(commit, r),
    {
        let mut batch = Self::new();
        batch.transport = commit.transport_plan;
        batch.source_policy = true;
        batch.output.lifecycle = commit.effects;
        batch.transport.extend_teardown(commit.session_teardowns);
        proof {
            assert(batch.output.before_policy() =~= Seq::<RoomEmission>::empty());
        }
        batch
    }

    /// A presence update: it is announced after policy.
    pub fn from_presence(commit: PresenceCommit) -> (r: Self)
        ensures
            follows_presence(commit, r),
    {
        let mut batch = Self::new();
        batch.output.user_info = Some(commit.fanout);
        batch.source_policy = true;
        proof {
            assert(batch.output.before_policy() =~= Seq::<RoomEmission>::empty());
            assert(batch.output.after_policy() =~= seq![RoomEmission::Fanout(commit.fanout)]);
        }
        batch
    }

    /// A publication: its presence is announced before policy.
    pub fn from_publish(commit: PublishCommit) -> (r: Self)
        ensures
            follows_publish(commit, r),
    {
        let mut batch = Self::from_receiver_route(
            commit.receiver_route_work,
            ConsumerSetupOrigin::Publish,
        );
        batch.output.user_info_before_policy = match commit.presence {
            Some(presence) => Some(presence.fanout),
            None => None,
        };
        batch.source_policy = true;
        proof {
            assert(batch.output.before_policy() =~= optional_emission(
                presence_fanout(commit.presence),
            ));
            assert(batch.output.after_policy() =~= Seq::<RoomEmission>::empty());
        }
        batch
    }

    /// A change of activity. Where the publication becomes active, policy comes before
    /// transport.
    pub fn from_publication_activity(commit: ProducerActivityCommit) -> (r: Self)
        ensures
            follows_activity(commit, r),
    {
        let ProducerActivityCommit {
            source,
            stream_id,
            update,
            remote_activity_effects,
            track_snapshots,
            presence,
        } = commit;
        let mut batch = Self::new();
        batch.policy_before_transport = update.activity.is_active();
        batch.transport.extend_remote_source_activity(remote_activity_effects);
        batch.transport.push_producer(source, stream_id, update);
        batch.output.track_snapshots = track_snapshots;
        batch.output.user_info_before_policy = match presence {
            Some(presence) => Some(presence.fanout),
            None => None,
        };
        batch.source_policy = true;
        proof {
            assert(work_of(batch.transport).remote_source_activity
                =~= commit.remote_activity_effects@);
            assert(work_of(batch.transport).producers =~= seq![
                producer_control(commit.source, commit.stream_id, commit.update),
            ]);
            assert(batch.output.after_policy() =~= Seq::<RoomEmission>::empty());
        }
        batch
    }

    /// A change of receiver intent.
    pub fn from_receiver_intent(commit: ReceiverRouteCommit) -> (r: Self)
        ensures
            follows_intent(commit, r),
    {
        let mut batch = Self::from_receiver_route(commit.work, ConsumerSetupOrigin::Subscribe);
        batch.source_policy = true;
        batch
    }

    /// A receiver that became ready: its tracks are sent before policy.
    pub fn from_consumer_readiness(commit: ReceiverRouteCommit) -> (r: Self)
        ensures
            follows_readiness(commit, r),
    {
        let mut batch = Self::from_receiver_route(commit.work, ConsumerSetupOrigin::Readiness);
        batch.output.track_snapshots = commit.track_snapshots;
        batch.source_policy = true;
        proof {
            assert(batch.output.before_policy() =~= track_emissions(commit.track_snapshots@));
            assert(batch.output.after_policy() =~= Seq::<RoomEmission>::empty());
        }
        batch
    }

    fn from_receiver_route(work: ReceiverRouteWork, origin: ConsumerSetupOrigin) -> (r: Self)
        ensures
            !r.policy_before_transport,
            work_of(r.transport) == TransportWork::of_receivers(work, origin),
            r.output.silent(),
            !r.source_policy,
    {
        let mut batch = Self::new();
        batch.transport.push_receiver_work(work, origin);
        proof {
            assert(work_of(batch.transport) =~= TransportWork::of_receivers(work, origin));
        }
        batch
    }

    /// The steps of the effects, in their order.
    pub fn into_steps(self) -> (r: Vec<RoomEffectStep>)
        ensures
            r@ == self.steps(),
    {
        let mut steps: Vec<RoomEffectStep> = Vec::new();
        let mut output = self.output;
        let ghost planned = output;
        let mut source_policy = self.source_policy;
        if self.policy_before_transport {
            if let Some(fanout) = output.emit_user_info_before_policy() {
                steps.push(RoomEffectStep::Emit(RoomEmission::Fanout(fanout)));
            }
            proof {
                assert(steps@ =~= emission_steps(
                    optional_emission(planned.user_info_before_policy),
                ));
            }
            if source_policy {
                steps.push(RoomEffectStep::SourcePolicy);
            }
            source_policy = false;
        }
        steps.push(RoomEffectStep::Transport(self.transport));
        let ghost early = steps@;
        push_emissions(&mut steps, output.emit_before_policy());
        if source_policy {
            steps.push(RoomEffectStep::SourcePolicy);
        }
        let ghost middle = steps@;
        push_emissions(&mut steps, output.emit_after_policy());
        proof {
            if self.policy_before_transport {
                assert(early =~= emission_steps(optional_emission(planned.user_info_before_policy))
                    + policy_steps(self.source_policy) + seq![
                    RoomEffectStep::Transport(self.transport),
                ]);
                assert(middle =~= early + emission_steps(
                    track_emissions(planned.track_snapshots@),
                ));
            } else {
                assert(middle =~= early + emission_steps(planned.before_policy()) + policy_steps(
                    self.source_policy,
                ));
            }
            assert(steps@ =~= self.steps());
        }
        steps
    }
}

/// The announcement of a presence update.
pub open spec fn presence_fanout(presence: Option<PresenceCommit>) -> Option<MessageFanout> {
    match presence {
        Some(presence) => Some(presence.fanout),
        None => None,
    }
}

/// What follows a join.
pub open spec fn follows_join(commit: JoinCommit, r: RoomEffects) -> bool {
    &&& !r.policy_before_transport
    &&& r.transport == commit.transport_plan
    &&& r.output.lifecycle == commit.effects
    &&& r.output.before_policy() == Seq::<RoomEmission>::empty()
    &&& r.output.user_info is None
    &&& r.source_policy
}

/// What follows a close.
pub open spec fn follows_close(commit: ConnectionCloseCommit, r: RoomEffects) -> bool {
    &&& !r.policy_before_transport
    &&& match commit {
        ConnectionCloseCommit::Current { session_teardown, effects, transport_plan, .. } => {
            &&& work_of(r.transport) == (TransportWork {
                teardown: transport_plan.teardown@.push(session_teardown),
                ..work_of(transport_plan)
            })
            &&& r.output.lifecycle == effects
            &&& r.output.before_policy() == Seq::<RoomEmission>::empty()
            &&& r.output.user_info is None
            &&& r.source_policy
        },
        ConnectionCloseCommit::StalePlacement { session_teardown, .. } => {
            &&& work_of(r.transport) == (TransportWork {
                teardown: seq![session_teardown],
                ..TransportWork::nothing()
            })
            &&& r.output.silent()
            &&& !r.source_policy
        },
    }
}

/// What follows a disconnection of users.
pub open spec fn follows_disconnect(commit: DisconnectCommit, r: RoomEffects) -> bool {
    &&& !r.policy_before_transport
    &&& work_of(r.transport) == (TransportWork {
        teardown: commit.transport_plan.teardown@ + commit.session_teardowns@,
        ..work_of(commit.transport_plan)
    })
    &&& r.output.lifecycle == commit.effects
    &&& r.output.before_policy() == Seq::<RoomEmission>::empty()
    &&& r.output.user_info is None
    &&& r.source_policy
}

/// What follows a presence update.
pub open spec fn follows_presence(commit: PresenceCommit, r: RoomEffects) -> bool {
    &&& !r.policy_before_transport
    &&& work_of(r.transport) == TransportWork::nothing()
    &&& r.output.before_policy() == Seq::<RoomEmission>::empty()
    &&& r.output.after_policy() == seq![RoomEmission::Fanout(commit.fanout)]
    &&& r.source_policy
}

/// What follows a publication.
pub open spec fn follows_publish(commit: PublishCommit, r: RoomEffects) -> bool {
    &&& !r.policy_before_transport
    &&& work_of(r.transport) == TransportWork::of_receivers(
        commit.receiver_route_work,
        ConsumerSetupOrigin::Publish,
    )
    &&& r.output.before_policy() == optional_emission(presence_fanout(commit.presence))
    &&& r.output.after_policy() == Seq::<RoomEmission>::empty()
    &&& r.source_policy
}

/// What follows a change of activity.
pub open spec fn follows_activity(commit: ProducerActivityCommit, r: RoomEffects) -> bool {
    &&& r.policy_before_transport == (commit.update.activity == ProducerActivity::Active)
    &&& work_of(r.transport) == (TransportWork {
        remote_source_activity: commit.remote_activity_effects@,
        producers: seq![producer_control(commit.source, commit.stream_id, commit.update)],
        ..TransportWork::nothing()
    })
    &&& r.output.track_snapshots == commit.track_snapshots
    &&& r.output.user_info_before_policy == presence_fanout(commit.presence)
    &&& r.output.after_policy() == Seq::<RoomEmission>::empty()
    &&& r.source_policy
}

/// What follows a change of receiver intent.
pub open spec fn follows_intent(commit: ReceiverRouteCommit, r: RoomEffects) -> bool {
    &&& !r.policy_before_transport
    &&& work_of(r.transport) == TransportWork::of_receivers(
        commit.work,
        ConsumerSetupOrigin::Subscribe,
    )
    &&& r.output.silent()
    &&& r.source_policy
}

/// What follows a receiver that became ready.
pub open spec fn follows_readiness(commit: ReceiverRouteCommit, r: RoomEffects) -> bool {
    &&& !r.policy_before_transport
    &&& work_of(r.transport) == TransportWork::of_receivers(
        commit.work,
        ConsumerSetupOrigin::Readiness,
    )
    &&& r.output.before_policy() == track_emissions(commit.track_snapshots@)
    &&& r.output.after_policy() == Seq::<RoomEmission>::empty()
    &&& r.source_policy
}

/// A publication that becomes active is announced and let through by policy before the
/// transport starts to forward it; every other change reaches the transport first.
pub proof fn policy_precedes_transport_only_for_activation(effects: RoomEffects)
    requires
        effects.source_policy,
    ensures
        effects.policy_before_transport ==> ({
            let early = optional_emission(effects.output.user_info_before_policy).len() as int;
            effects.steps()[early] is SourcePolicy && effects.steps()[early + 1]
                == RoomEffectStep::Transport(effects.transport)
        }),
        !effects.policy_before_transport ==> effects.steps()[0] == RoomEffectStep::Transport(
            effects.transport,
        ),
{
}

} // verus!
