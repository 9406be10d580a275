//! Receiver intent and the routes that realize it.
//!
//! Missing routes are planned in the order of their admission rank. What a receiver
//! gets at first follows its intent, the limit on its video downloads and whether it
//! is deaf. A declared route is committed under the state of the room at that time.

use vstd::prelude::*;

use crate::consumer_setup::{
    CommittedConsumerSetup, ConsumerRouteTarget, ConsumerSetupOrigin, ConsumerSetupOutcome,
    ConsumerSetupTarget, DeclaredConsumerSetup, PendingConsumerSetup,
};
use crate::ids::{
    ConnectionId, ConsumerId, OutboundLane, PublishedSourceId, RoutedConsumerId,
    RoutedProducerId, TransportMediaId, UserId, UserIdentity, UserStreamId,
};
use crate::key_index::{ids_of, in_order, lemma_in_order, lists};
use crate::ord_map::OrdMap;
use crate::order::OrdKey;
use crate::outbound::VersionedRemoteTrackSnapshot;
use crate::route_graph::{
    after_release, attached_to, attachment, declined_keys, lemma_pick, live, picks, receiver_keys,
    record, release_effects, released_shares, routes_of, waits_for_setup, ConsumerRealization,
    Graph,
};
use crate::source_model::{
    ConsumerSourceSelection, MediaCapabilities, MediaKind, PolicyPauseReason,
    PublishedSourceDescriptor, RtpStream, SourceRoomPolicySelector, SourceRoutePriority,
    SourceSubscriptionIntent, VideoLayoutIntent,
};
use crate::sources::{source_order, PublishedSource};
use crate::state::{is_snapshot, lists_users, with_track_revisions, RoomState, State};
use crate::topology::{
    considered, correction, intent_acts, intent_relays, media_removals, receiver_targets,
    released_setup_relays, route_activity, setup_relays, targets_for, with_intent, with_receivers,
    with_released_setup, with_setup, with_targets, ConsumerActivityCommit, Topology,
};
use crate::transport::{
    ConsumerActivity, ProducerActivity, SourceActivityUpdate, SubscriptionIdentity, SubscriptionKey,
    TransportConsumerRoute, TransportRelayRouteEffect, TransportSessionKey,
    TransportSourceActivityEffect, TransportTeardown,
};
use crate::transport_plan::{ReceiverRouteActivity, ReceiverRouteWork};

verus! {

/// Whether a receiver's route delivers, for inspection.
#[derive(Debug, Clone, Copy, PartialEq, Eq, Structural)]
pub enum ConsumerRouteState {
    Absent,
    Inactive,
    Active,
}

/// Which routes are planned.
pub enum ReceiverRouteScope<'a> {
    /// One publication, for everyone.
    Source(PublishedSourceId),
    /// Every publication, for one connection.
    Receiver(&'a UserId, ConnectionId),
    /// Every publication of one user, for one connection.
    SourceUser(&'a UserId, ConnectionId, &'a UserId),
}

/// Rank in which a route is admitted, the least first.
#[derive(Debug, Clone, Copy, PartialEq, Eq, Structural)]
pub struct VideoAdmissionRank {
    pub priority: SourceRoutePriority,
    pub source_id: PublishedSourceId,
}

impl VideoAdmissionRank {
    pub open spec fn precedes(self, other: Self) -> bool {
        self.priority.position() < other.priority.position() || (self.priority == other.priority
            && self.source_id.0 < other.source_id.0)
    }

    fn comes_before(&self, other: &Self) -> (r: bool)
        ensures
            r == self.precedes(*other),
    {
        let own: u8 = self.priority.rank();
        let theirs: u8 = other.priority.rank();
        own < theirs || (own == theirs && self.source_id.0 < other.source_id.0)
    }
}

/// The layout role that a receiver's intent gives a source.
pub open spec fn layout_role(
    intent: Option<VideoLayoutIntent>,
    default: SourceRoomPolicySelector,
) -> SourceRoomPolicySelector {
    match intent {
        Some(VideoLayoutIntent::Pinned) => SourceRoomPolicySelector::Pinned,
        Some(VideoLayoutIntent::Featured) => SourceRoomPolicySelector::Featured,
        Some(VideoLayoutIntent::Visible) => SourceRoomPolicySelector::VisibleThumbnail,
        Some(VideoLayoutIntent::Hidden) => SourceRoomPolicySelector::Hidden,
        None => default,
    }
}

/// Whether the user is deaf on this connection.
pub open spec fn deafened(st: State, user: UserIdentity, connection: ConnectionId) -> bool {
    st.current(user, connection) && st.users[user].deaf()
}

/// Subscriptions of a receiver that claim a video download: a setup or a route of an
/// active video that is delivered.
pub open spec fn video_keys(t: Topology, user: UserIdentity) -> Set<SubscriptionIdentity> {
    Set::new(
        |k: SubscriptionIdentity|
            k.receiver == user && record(t.graph.subscriptions, k).realizing() && {
                let current = attachment(t.graph.subscriptions, k)->0;
                let source = t.sources[current.source_id.0];
                source.descriptor.media_kind == MediaKind::Video && source.active
                    && current.selection.delivers()
            },
    )
}

/// What the receiver's intent asks for, or the selection that is attached.
pub open spec fn asked_selection(t: Topology, target: ConsumerSetupTarget) -> ConsumerSourceSelection {
    let k = target.subscription();
    if attached_to(t.graph.subscriptions, k, target.source_id) {
        attachment(t.graph.subscriptions, k)->0.selection
    } else {
        ConsumerSourceSelection::opened(record(t.graph.subscriptions, k).intent.wants())
    }
}

/// A video over the receiver's limit is withheld.
pub open spec fn limited_selection(
    st: State,
    target: ConsumerSetupTarget,
    source_active: bool,
    selection: ConsumerSourceSelection,
) -> ConsumerSourceSelection {
    if target.kind == MediaKind::Video && source_active && selection.delivers() && in_order(
        video_keys(st.topology, target.session.user.id()),
    ).len() >= st.max_video_downloads {
        selection.with_pause(PolicyPauseReason::VideoDownloadLimit)
    } else {
        selection
    }
}

/// Audio for a deaf receiver is withheld.
pub open spec fn heard_selection(
    st: State,
    target: ConsumerSetupTarget,
    selection: ConsumerSourceSelection,
) -> ConsumerSourceSelection {
    if target.kind == MediaKind::Audio && selection.delivers() && deafened(
        st,
        target.session.user.id(),
        target.session.connection,
    ) {
        selection.with_pause(PolicyPauseReason::ReceiverDeafened)
    } else {
        selection
    }
}

/// The selection under which a route is set up.
pub open spec fn initial_selection(
    st: State,
    target: ConsumerSetupTarget,
    source_active: bool,
) -> ConsumerSourceSelection {
    heard_selection(
        st,
        target,
        limited_selection(st, target, source_active, asked_selection(st.topology, target)),
    )
}

/// Admission rank of a setup: audio goes first, video by its layout role.
pub open spec fn rank_of(st: State, target: ConsumerSetupTarget) -> VideoAdmissionRank {
    let t = st.topology;
    let priority = if target.kind != MediaKind::Video {
        SourceRoutePriority::PinnedOrFeatured
    } else if !t.sources.contains_key(target.source_id.0) {
        SourceRoutePriority::HiddenOrOverflow
    } else {
        let descriptor = t.sources[target.source_id.0].descriptor;
        let k = SubscriptionIdentity {
            receiver: target.session.user.id(),
            publisher: descriptor.owner.id(),
            stream: descriptor.stream_id.id(),
        };
        layout_role(
            record(t.graph.subscriptions, k).intent.layout,
            descriptor.policy.layout,
        ).route_priority()
    };
    VideoAdmissionRank { priority, source_id: target.source_id }
}

/// Puts a setup behind all that do not rank after it.
pub open spec fn insert_ranked(
    st: State,
    ranked: Seq<ConsumerSetupTarget>,
    target: ConsumerSetupTarget,
) -> Seq<ConsumerSetupTarget>
    decreases ranked.len(),
{
    if ranked.len() == 0 {
        seq![target]
    } else if rank_of(st, target).precedes(rank_of(st, ranked.last())) {
        insert_ranked(st, ranked.drop_last(), target).push(ranked.last())
    } else {
        ranked.push(target)
    }
}

/// Setups in the order of their ranks; setups of one rank keep their order.
pub open spec fn by_rank(st: State, targets: Seq<ConsumerSetupTarget>) -> Seq<ConsumerSetupTarget>
    decreases targets.len(),
{
    if targets.len() == 0 {
        seq![]
    } else {
        insert_ranked(st, by_rank(st, targets.drop_last()), targets.last())
    }
}

/// The receiver is ready on this connection and the publication is the one meant.
pub open spec fn ready(st: State, target: ConsumerSetupTarget) -> bool {
    &&& st.current(target.session.user.id(), target.session.connection)
    &&& st.users[target.session.user.id()].capabilities is Some
    &&& st.topology.sources.contains_key(target.source_id.0)
    &&& target.identifies(st.topology.sources[target.source_id.0])
}

/// The selection under which a ready setup is planned.
pub open spec fn planned_selection(st: State, target: ConsumerSetupTarget) -> ConsumerSourceSelection {
    initial_selection(st, target, st.topology.sources[target.source_id.0].active)
}

/// The setup is reserved, given what negotiation came to.
pub open spec fn reserves(
    st: State,
    target: ConsumerSetupTarget,
    answer: Option<RtpStream>,
) -> bool {
    ready(st, target) && answer is Some && waits_for_setup(
        st.topology.graph.subscriptions,
        target.subscription(),
        target.source_id,
    )
}

/// The state after planning one setup.
pub open spec fn planned(st: State, target: ConsumerSetupTarget, answer: Option<RtpStream>) -> State {
    if ready(st, target) && answer is Some {
        State {
            next_consumer: (st.next_consumer + 1) as u64,
            topology: if reserves(st, target, answer) {
                Topology {
                    graph: with_setup(st.topology.graph, target, planned_selection(st, target)),
                    ..st.topology
                }
            } else {
                st.topology
            },
            ..st
        }
    } else {
        st
    }
}

/// The reserved setup.
pub open spec fn is_reserved(
    st: State,
    target: ConsumerSetupTarget,
    rtp: RtpStream,
    setup: PendingConsumerSetup,
) -> bool {
    let selection = planned_selection(st, target);
    &&& setup.target == target
    &&& setup.consumer == ConsumerId(st.next_consumer)
    &&& setup.sender == st.users[target.session.user.id()].sender
    &&& setup.rtp == rtp
    &&& setup.reservation.key_id() == target.subscription()
    &&& setup.reservation.source() == target.source_id
    &&& setup.reservation.number() == st.topology.graph.reservations + 1
    &&& setup.reservation.activity() == ConsumerActivity::of(selection.delivers())
    &&& setup.relays@ == setup_relays(st.topology.graph, target, selection)
}

/// The state after planning setups one after the other.
pub open spec fn all_planned(
    st: State,
    targets: Seq<ConsumerSetupTarget>,
    answers: Seq<Option<RtpStream>>,
) -> State
    decreases targets.len(),
{
    if targets.len() == 0 {
        st
    } else {
        planned(
            all_planned(st, targets.drop_last(), answers.drop_last()),
            targets.last(),
            answers.last(),
        )
    }
}

/// The setups that were reserved, in order.
pub open spec fn are_reserved(
    st: State,
    targets: Seq<ConsumerSetupTarget>,
    answers: Seq<Option<RtpStream>>,
    setups: Seq<PendingConsumerSetup>,
) -> bool
    decreases targets.len(),
{
    if targets.len() == 0 {
        setups.len() == 0
    } else {
        let before = all_planned(st, targets.drop_last(), answers.drop_last());
        if reserves(before, targets.last(), answers.last()) {
            &&& setups.len() > 0
            &&& is_reserved(before, targets.last(), answers.last()->0, setups.last())
            &&& are_reserved(st, targets.drop_last(), answers.drop_last(), setups.drop_last())
        } else {
            are_reserved(st, targets.drop_last(), answers.drop_last(), setups)
        }
    }
}

/// Negotiation was asked about every ready setup.
pub open spec fn negotiated<N: Fn(&RtpStream, &MediaCapabilities) -> Option<RtpStream>>(
    negotiate: N,
    st: State,
    targets: Seq<ConsumerSetupTarget>,
    answers: Seq<Option<RtpStream>>,
) -> bool {
    &&& answers.len() == targets.len()
    &&& forall|i: int|
        0 <= i < targets.len() ==> #[trigger] answers_about(
            negotiate,
            all_planned(st, targets.take(i), answers.take(i)),
            targets[i],
            answers[i],
        )
}

pub open spec fn answers_about<N: Fn(&RtpStream, &MediaCapabilities) -> Option<RtpStream>>(
    negotiate: N,
    st: State,
    target: ConsumerSetupTarget,
    answer: Option<RtpStream>,
) -> bool {
    ready(st, target) ==> negotiate.ensures(
        (
            &st.topology.sources[target.source_id.0].rtp,
            &st.users[target.session.user.id()].capabilities->0,
        ),
        answer,
    )
}

/// Planning these targets took the room from `st` to `after` with these setups.
pub open spec fn plans<N: Fn(&RtpStream, &MediaCapabilities) -> Option<RtpStream>>(
    negotiate: N,
    st: State,
    targets: Seq<ConsumerSetupTarget>,
    after: State,
    setups: Seq<PendingConsumerSetup>,
) -> bool {
    exists|answers: Seq<Option<RtpStream>>|
        #![trigger negotiated(negotiate, st, by_rank(st, targets), answers)]
        negotiated(negotiate, st, by_rank(st, targets), answers) && after == all_planned(
            st,
            by_rank(st, targets),
            answers,
        ) && are_reserved(st, by_rank(st, targets), answers, setups)
}

/// The counters have room for `n` more setups.
pub open spec fn has_room(st: State, n: nat) -> bool {
    &&& st.next_consumer + n <= u64::MAX
    &&& st.topology.graph.reservations + n <= u64::MAX
}

proof fn lemma_ranked_len(st: State, targets: Seq<ConsumerSetupTarget>)
    ensures
        by_rank(st, targets).len() == targets.len(),
    decreases targets.len(),
{
    if targets.len() > 0 {
        lemma_ranked_len(st, targets.drop_last());
        lemma_insert_len(st, by_rank(st, targets.drop_last()), targets.last());
    }
}

proof fn lemma_insert_len(
    st: State,
    ranked: Seq<ConsumerSetupTarget>,
    target: ConsumerSetupTarget,
)
    ensures
        insert_ranked(st, ranked, target).len() == ranked.len() + 1,
    decreases ranked.len(),
{
    if ranked.len() > 0 {
        lemma_insert_len(st, ranked.drop_last(), target);
    }
}

impl RoomState {
    /// Video downloads that a receiver claims: delivered routes and setups of active
    /// videos.
    pub fn active_video_count(&self, consumer_user_id: &UserId) -> (r: usize)
        requires
            self.wf(),
        ensures
            r == in_order(video_keys(self@.topology, consumer_user_id.id())).len(),
    {
        let keys = self.topology.receiver_subscriptions(consumer_user_id);
        let ghost ids = ids_of(keys@);
        let ghost t = self@.topology;
        let ghost members = video_keys(t, consumer_user_id.id());
        let ghost mut picked = Seq::<SubscriptionIdentity>::empty();
        let mut total: usize = 0;
        let mut i: usize = 0;
        while i < keys.len()
            invariant
                self.wf(),
                t == self@.topology,
                i <= keys@.len(),
                ids == ids_of(keys@),
                lists(ids, receiver_keys(t.graph.subscriptions, consumer_user_id.id())),
                members == video_keys(t, consumer_user_id.id()),
                total == picked.len(),
                total <= i,
                picks(picked, ids, i as int, members),
            decreases keys@.len() - i,
        {
            let claims = match self.topology.current(&keys[i]) {
                None => false,
                Some(current) => match &current.realization {
                    ConsumerRealization::Absent => false,
                    _ => match self.topology.published_source(current.source_id) {
                        None => false,
                        Some(source) => source.descriptor.media_kind == MediaKind::Video
                            && source.active && current.selection.delivery_active(),
                    },
                },
            };
            proof {
                lemma_pick(picked, ids, i as int, members);
                assert(ids.contains(ids[i as int]));
                assert(claims <==> members.contains(ids[i as int]));
                if claims {
                    picked = picked.push(ids[i as int]);
                }
            }
            if claims {
                total = total + 1;
            }
            i = i + 1;
        }
        proof {
            assert forall|k: SubscriptionIdentity| #[trigger] picked.contains(k)
                <==> members.contains(k) by {
                if members.contains(k) {
                    assert(t.graph.subscriptions.contains_key(k));
                    assert(ids.contains(k));
                    assert(ids[ids.index_of(k)] == k);
                }
            }
            lemma_in_order(picked, members);
        }
        total
    }

    /// The selection under which a route is set up.
    pub fn setup_selection(&self, target: &ConsumerSetupTarget, source_active: bool) -> (r:
        ConsumerSourceSelection)
        requires
            self.wf(),
        ensures
            r == initial_selection(self@, *target, source_active),
    {
        let key = target.subscription_key();
        let selection = match self.topology.consumer_source_selection(&key, target.source_id) {
            Some(selection) => selection,
            None => ConsumerSourceSelection::open(
                self.topology.subscription_intent(&key).active_or_default(),
            ),
        };
        let selection = self.apply_initial_video_download_cap(target, source_active, selection);
        self.apply_initial_receiver_deafened(target, selection)
    }

    fn apply_initial_receiver_deafened(
        &self,
        target: &ConsumerSetupTarget,
        selection: ConsumerSourceSelection,
    ) -> (r: ConsumerSourceSelection)
        requires
            self.wf(),
        ensures
            r == heard_selection(self@, *target, selection),
    {
        let mut selection = selection;
        let deaf = match self.user_for_connection(
            &target.session.user,
            target.session.connection,
        ) {
            Some(user) => user.is_deaf(),
            None => false,
        };
        if target.kind == MediaKind::Audio && selection.delivery_active() && deaf {
            selection.set_policy_pause_reason(Some(PolicyPauseReason::ReceiverDeafened));
        }
        selection
    }

    fn apply_initial_video_download_cap(
        &self,
        target: &ConsumerSetupTarget,
        source_active: bool,
        selection: ConsumerSourceSelection,
    ) -> (r: ConsumerSourceSelection)
        requires
            self.wf(),
        ensures
            r == limited_selection(self@, *target, source_active, selection),
    {
        let mut selection = selection;
        if target.kind == MediaKind::Video && source_active && selection.delivery_active()
            && self.active_video_count(&target.session.user) >= self.max_video_downloads {
            selection.set_policy_pause_reason(Some(PolicyPauseReason::VideoDownloadLimit));
        }
        selection
    }

    /// Where the layout of a receiver places a source.
    pub fn receiver_video_layout_role(
        &self,
        receiver: &UserId,
        source: &PublishedSourceDescriptor,
    ) -> (r: SourceRoomPolicySelector)
        requires
            self.wf(),
        ensures
            r == layout_role(
                record(
                    self@.topology.graph.subscriptions,
                    SubscriptionIdentity {
                        receiver: receiver.id(),
                        publisher: source.owner.id(),
                        stream: source.stream_id.id(),
                    },
                ).intent.layout,
                source.policy.layout,
            ),
    {
        let key = SubscriptionKey::new(receiver, &source.owner, &source.stream_id);
        match self.topology.subscription_intent(&key).layout() {
            Some(VideoLayoutIntent::Pinned) => SourceRoomPolicySelector::Pinned,
            Some(VideoLayoutIntent::Featured) => SourceRoomPolicySelector::Featured,
            Some(VideoLayoutIntent::Visible) => SourceRoomPolicySelector::VisibleThumbnail,
            Some(VideoLayoutIntent::Hidden) => SourceRoomPolicySelector::Hidden,
            None => source.policy.layout,
        }
    }

    /// Admission rank of a setup.
    pub fn setup_rank(&self, target: &ConsumerSetupTarget) -> (r: VideoAdmissionRank)
        requires
            self.wf(),
        ensures
            r == rank_of(self@, *target),
    {
        let priority = if target.kind != MediaKind::Video {
            SourceRoutePriority::PinnedOrFeatured
        } else {
            match self.topology.source_descriptor(target.source_id) {
                None => SourceRoutePriority::HiddenOrOverflow,
                Some(source) => self.receiver_video_layout_role(
                    &target.session.user,
                    source,
                ).priority(),
            }
        };
        VideoAdmissionRank { priority, source_id: target.source_id }
    }

    /// Sorts setups by their ranks.
    fn rank_targets(&self, targets: Vec<ConsumerSetupTarget>) -> (r: Vec<ConsumerSetupTarget>)
        requires
            self.wf(),
        ensures
            r@ == by_rank(self@, targets@),
    {
        let ghost all = targets@;
        let ghost st = self@;
        let mut ranked: Vec<ConsumerSetupTarget> = Vec::new();
        proof {
            assert(all.take(0) =~= Seq::<ConsumerSetupTarget>::empty());
        }
        for target in it: targets
            invariant
                it.seq() == all,
                self.wf(),
                st == self@,
                ranked@ == by_rank(st, all.take(it.index() as int)),
        {
            let ghost done = it.index() as int;
            proof {
                assert(all.take(done + 1).drop_last() =~= all.take(done));
                assert(all.take(done + 1).last() == target);
            }
            let rank = self.setup_rank(&target);
            let ghost sorted = ranked@;
            let mut at: usize = ranked.len();
            proof {
                assert(sorted.take(at as int) =~= sorted);
                assert(sorted.skip(at as int) =~= Seq::<ConsumerSetupTarget>::empty());
                assert(insert_ranked(st, sorted, target) =~= insert_ranked(
                    st,
                    sorted.take(at as int),
                    target,
                ) + sorted.skip(at as int));
            }
            while at > 0 && rank.comes_before(&self.setup_rank(&ranked[at - 1]))
                invariant
                    self.wf(),
                    st == self@,
                    rank == rank_of(st, target),
                    sorted == ranked@,
                    at <= sorted.len(),
                    insert_ranked(st, sorted, target) == insert_ranked(
                        st,
                        sorted.take(at as int),
                        target,
                    ) + sorted.skip(at as int),
                decreases at,
            {
                proof {
                    let some = sorted.take(at as int);
                    assert(some.drop_last() =~= sorted.take(at - 1));
                    assert(some.last() == sorted[at - 1]);
                    assert(sorted.skip(at - 1) =~= seq![sorted[at - 1]] + sorted.skip(at as int));
                    assert(insert_ranked(st, sorted.take(at - 1), target).push(sorted[at - 1])
                        + sorted.skip(at as int) =~= insert_ranked(
                        st,
                        sorted.take(at - 1),
                        target,
                    ) + sorted.skip(at - 1));
                }
                at = at - 1;
            }
            ranked.insert(at, target);
            proof {
                let some = sorted.take(at as int);
                if at > 0 {
                    assert(some.last() == sorted[at - 1]);
                }
                assert(insert_ranked(st, some, target) =~= some.push(target));
                assert(ranked@ =~= some.push(target) + sorted.skip(at as int));
            }
        }
        proof {
            assert(all.take(all.len() as int) =~= all);
        }
        ranked
    }

    /// Reserves one setup, if its receiver is ready and negotiation succeeds.
    fn plan_consumer<N: Fn(&RtpStream, &MediaCapabilities) -> Option<RtpStream>>(
        &mut self,
        target: ConsumerSetupTarget,
        negotiate: &N,
    ) -> (r: (Option<PendingConsumerSetup>, Ghost<Option<RtpStream>>))
        requires
            old(self).wf(),
            has_room(old(self)@, 1),
            forall|rtp: &RtpStream, caps: &MediaCapabilities| negotiate.requires((rtp, caps)),
        ensures
            final(self).wf(),
            answers_about(*negotiate, old(self)@, target, r.1@),
            final(self)@ == planned(old(self)@, target, r.1@),
            match r.0 {
                None => !reserves(old(self)@, target, r.1@),
                Some(setup) => reserves(old(self)@, target, r.1@) && is_reserved(
                    old(self)@,
                    target,
                    r.1@->0,
                    setup,
                ),
            },
    {
        let ghost st = old(self)@;
        let sender = match self.user_for_connection(
            &target.session.user,
            target.session.connection,
        ) {
            None => {
                return (None, Ghost(None));
            },
            Some(user) => user.sender,
        };
        let (selection, answer) = {
            let caps = match self.users.get(&target.session.user) {
                None => {
                    return (None, Ghost(None));
                },
                Some(user) => match &user.capabilities {
                    None => {
                        return (None, Ghost(None));
                    },
                    Some(caps) => caps,
                },
            };
            let source = match self.topology.published_source(target.source_id) {
                None => {
                    return (None, Ghost(None));
                },
                Some(source) => source,
            };
            if !target.matches_identity(source) {
                return (None, Ghost(None));
            }
            (self.setup_selection(&target, source.active), negotiate(&source.rtp, caps))
        };
        let ghost known = answer;
        let rtp = match answer {
            None => {
                return (None, Ghost(None));
            },
            Some(rtp) => rtp,
        };
        let consumer = ConsumerId(self.next_consumer_id);
        self.next_consumer_id = self.next_consumer_id + 1;
        let setup = self.topology.reserve_consumer_setup(target, consumer, selection, sender, rtp);
        proof {
            assert(self@ =~= planned(st, target, known));
        }
        (setup, Ghost(known))
    }

    /// Reserves setups in the order of their ranks.
    fn plan_consumers<N: Fn(&RtpStream, &MediaCapabilities) -> Option<RtpStream>>(
        &mut self,
        targets: Vec<ConsumerSetupTarget>,
        negotiate: &N,
    ) -> (r: Vec<PendingConsumerSetup>)
        requires
            old(self).wf(),
            has_room(old(self)@, targets@.len()),
            forall|rtp: &RtpStream, caps: &MediaCapabilities| negotiate.requires((rtp, caps)),
        ensures
            final(self).wf(),
            plans(*negotiate, old(self)@, targets@, final(self)@, r@),
    {
        let ghost st = old(self)@;
        let ghost given = targets@;
        let ranked = self.rank_targets(targets);
        let ghost all = ranked@;
        proof {
            lemma_ranked_len(st, given);
        }
        let ghost mut answers = Seq::<Option<RtpStream>>::empty();
        let mut setups: Vec<PendingConsumerSetup> = Vec::new();
        proof {
            assert(all.take(0) =~= Seq::<ConsumerSetupTarget>::empty());
        }
        for target in it: ranked
            invariant
                it.seq() == all,
                all == by_rank(st, given),
                all.len() == given.len(),
                self.wf(),
                has_room(st, given.len()),
                st.next_consumer <= self@.next_consumer <= st.next_consumer + it.index(),
                st.topology.graph.reservations <= self@.topology.graph.reservations
                    <= st.topology.graph.reservations + it.index(),
                forall|rtp: &RtpStream, caps: &MediaCapabilities| negotiate.requires((rtp, caps)),
                negotiated(*negotiate, st, all.take(it.index() as int), answers),
                self@ == all_planned(st, all.take(it.index() as int), answers),
                are_reserved(st, all.take(it.index() as int), answers, setups@),
        {
            let ghost done = it.index() as int;
            let (setup, answer) = self.plan_consumer(target, negotiate);
            proof {
                let some = all.take(done);
                let more = all.take(done + 1);
                let told = answers.push(answer@);
                assert(more.drop_last() =~= some);
                assert(more.last() == target);
                assert(told.drop_last() =~= answers);
                assert forall|i: int| 0 <= i < more.len() implies #[trigger] answers_about(
                    *negotiate,
                    all_planned(st, more.take(i), told.take(i)),
                    more[i],
                    told[i],
                ) by {
                    if i < done {
                        assert(more.take(i) =~= some.take(i));
                        assert(told.take(i) =~= answers.take(i));
                        assert(answers_about(
                            *negotiate,
                            all_planned(st, some.take(i), answers.take(i)),
                            some[i],
                            answers[i],
                        ));
                    } else {
                        assert(more.take(i) =~= some);
                        assert(told.take(i) =~= answers);
                    }
                }
                answers = told;
            }
            match setup {
                None => {},
                Some(setup) => {
                    let ghost earlier = setups@;
                    setups.push(setup);
                    proof {
                        assert(setups@.drop_last() =~= earlier);
                    }
                },
            }
        }
        proof {
            assert(all.take(all.len() as int) =~= all);
        }
        setups
    }

    /// Reserves the routes that are missing in a scope.
    pub fn plan_missing_receiver_routes<
        N: Fn(&RtpStream, &MediaCapabilities) -> Option<RtpStream>,
    >(&mut self, scope: ReceiverRouteScope<'_>, negotiate: &N) -> (r: ReceiverRouteWork)
        requires
            old(self).wf(),
            has_room(old(self)@, scope_size(old(self)@, scope)),
            forall|rtp: &RtpStream, caps: &MediaCapabilities| negotiate.requires((rtp, caps)),
        ensures
            final(self).wf(),
            plans_scope(*negotiate, old(self)@, scope, final(self)@, r.setups@),
            r.activities@ == Seq::<ReceiverRouteActivity>::empty(),
            r.relays@ == Seq::<TransportRelayRouteEffect>::empty(),
            r.teardown@ == Seq::<TransportTeardown>::empty(),
    {
        let ghost st = old(self)@;
        let targets = match scope {
            ReceiverRouteScope::Source(source_id) => {
                let receivers = self.transport_user_entries();
                let targets = self.topology.missing_consumer_targets_for_source(
                    source_id,
                    &receivers,
                );
                proof {
                    lemma_receiver_targets(st.topology, source_id.0, receivers@);
                    if st.topology.sources.contains_key(source_id.0) {
                        assert(attaches_scope(st, scope, self@, targets@));
                    }
                }
                targets
            },
            ReceiverRouteScope::Receiver(user, connection) => {
                proof {
                    lemma_targets_len(st, *user, connection, None);
                }
                self.topology.missing_consumer_targets(user, connection, None)
            },
            ReceiverRouteScope::SourceUser(user, connection, source_user) => {
                proof {
                    lemma_targets_len(st, *user, connection, Some(source_user.id()));
                }
                self.topology.missing_consumer_targets(user, connection, Some(source_user))
            },
        };
        proof {
            assert(attaches_scope(st, scope, self@, targets@));
            assert(self@.placed());
        }
        let ghost attached = self@;
        let ghost wanted = targets@;
        let setups = self.plan_consumers(targets, negotiate);
        proof {
            assert(plans(*negotiate, attached, wanted, self@, setups@));
        }
        ReceiverRouteWork::of_setups(setups)
    }

    /// What a receiver route does now, for inspection.
    pub fn consumer_route_state(
        &self,
        consumer_user_id: &UserId,
        producer_user_id: &UserId,
        stream_id: &UserStreamId,
    ) -> (r: Option<ConsumerRouteState>)
        requires
            self.wf(),
        ensures
            r == route_state(
                self@,
                SubscriptionIdentity {
                    receiver: consumer_user_id.id(),
                    publisher: producer_user_id.id(),
                    stream: stream_id.id(),
                },
            ),
    {
        if !self.users.contains_key(consumer_user_id) {
            return None;
        }
        let key = SubscriptionKey::new(consumer_user_id, producer_user_id, stream_id);
        match self.topology.committed_consumer_route_for_key(&key) {
            None => Some(ConsumerRouteState::Absent),
            Some(route) => {
                if route.source.active && route.selection.delivery_active() {
                    Some(ConsumerRouteState::Active)
                } else {
                    Some(ConsumerRouteState::Inactive)
                }
            },
        }
    }

    /// Releases a setup that was not declared.
    pub fn release_pending_consumer_setup(&mut self, setup: PendingConsumerSetup) -> (r: Vec<
        TransportRelayRouteEffect,
    >)
        requires
            old(self).wf(),
        ensures
            final(self).wf(),
            final(self)@ == (State {
                topology: with_released_setup(old(self)@.topology, setup),
                ..old(self)@
            }),
            r@ == released_setup_relays(old(self)@.topology, setup),
    {
        self.topology.release_consumer_setup(setup)
    }

    /// Commits a declared route under the state that the room has now.
    ///
    /// The route is released where the receiver or the publication changed during
    /// the declaration, and where the router rejects the consumer.
    pub fn commit_declared_consumer_setup<
        F: FnOnce(&UserId, ConsumerId, RoutedProducerId) -> Option<RoutedConsumerId>,
    >(
        &mut self,
        setup: DeclaredConsumerSetup,
        origin: ConsumerSetupOrigin,
        accept: F,
    ) -> (r: ConsumerSetupOutcome)
        requires
            old(self).wf(),
            accept.requires(
                (
                    &setup.pending.target.session.user,
                    setup.pending.consumer,
                    setup.pending.target.routed,
                ),
            ),
        ensures
            final(self).wf(),
            ({
                let st = old(self)@;
                let target = setup.pending.target;
                if !ready(st, target) {
                    &&& final(self)@ == (State {
                        topology: with_released_setup(st.topology, setup.pending),
                        ..st
                    })
                    &&& r matches ConsumerSetupOutcome::Released(route, relays) && route
                        == setup.route && relays@ == released_setup_relays(
                        st.topology,
                        setup.pending,
                    )
                } else if !live(st.topology.graph.subscriptions, setup.pending.reservation) {
                    &&& final(self)@ == st
                    &&& r matches ConsumerSetupOutcome::Released(route, relays) && route
                        == setup.route && relays@ == Seq::<TransportRelayRouteEffect>::empty()
                } else {
                    exists|answer: Option<RoutedConsumerId>|
                        #![trigger accept.ensures(
                            (&target.session.user, setup.pending.consumer, target.routed),
                            answer,
                        )]
                        accept.ensures(
                            (&target.session.user, setup.pending.consumer, target.routed),
                            answer,
                        ) && commit_outcome(
                            st,
                            setup,
                            origin,
                            answer,
                            final(self)@,
                            r,
                        )
                }
            }),
    {
        let ghost st = old(self)@;
        let known = {
            let target = &setup.pending.target;
            let capable = match self.user_for_connection(
                &target.session.user,
                target.session.connection,
            ) {
                Some(user) => user.capabilities.is_some(),
                None => false,
            };
            if !capable {
                None
            } else {
                match self.topology.published_source(target.source_id) {
                    Some(source) => if target.matches_identity(source) {
                        Some((source.active, source.activity_revision))
                    } else {
                        None
                    },
                    None => None,
                }
            }
        };
        let (source_active, revision) = match known {
            None => {
                proof {
                    assert(!ready(st, setup.pending.target));
                }
                let DeclaredConsumerSetup { pending, route, mid: _ } = setup;
                let relays = self.topology.release_consumer_setup(pending);
                return ConsumerSetupOutcome::Released(route, relays);
            },
            Some(known) => known,
        };
        proof {
            assert(ready(st, setup.pending.target));
        }
        let selection = self.setup_selection(&setup.pending.target, source_active);
        let delivery_active = selection.delivery_active();
        match self.topology.commit_consumer_setup(setup, selection, accept) {
            Err((route, relays)) => ConsumerSetupOutcome::Released(route, relays),
            Ok(commit) => {
                let CommittedConsumerSetup { target, route, sender, transport_activity_update } =
                    commit;
                let source_worker = route.source.session.worker;
                let consumer_worker = route.consumer_session.worker;
                let remote_source_activity = if source_worker != consumer_worker {
                    Some(
                        TransportSourceActivityEffect {
                            source: route.source.clone(),
                            target_media_worker_id: consumer_worker,
                            update: SourceActivityUpdate::new(
                                ProducerActivity::from_active(source_active),
                                revision,
                            ),
                        },
                    )
                } else {
                    None
                };
                let track_snapshot = self.remote_track_snapshot_for_user(
                    &target.session.user,
                    true,
                );
                let corrected = match transport_activity_update {
                    Some(active) => active,
                    None => false,
                };
                let readiness_keyframe = if origin == ConsumerSetupOrigin::Readiness
                    && delivery_active && !corrected && target.kind == MediaKind::Video {
                    Some(target.route_target(route.clone()))
                } else {
                    None
                };
                ConsumerSetupOutcome::Committed {
                    target,
                    route,
                    sender,
                    track_snapshot,
                    remote_source_activity,
                    transport_activity_update,
                    readiness_keyframe,
                }
            },
        }
    }

    /// Merges a receiver's intent for streams of one user, and plans the routes that
    /// it lacks. A connection that is not current asks for nothing.
    pub fn apply_receiver_intent<N: Fn(&RtpStream, &MediaCapabilities) -> Option<RtpStream>>(
        &mut self,
        user_id: &UserId,
        connection_id: ConnectionId,
        target_user_id: &UserId,
        intents: &OrdMap<UserStreamId, SourceSubscriptionIntent>,
        negotiate: &N,
    ) -> (r: Option<ReceiverRouteCommit>)
        requires
            old(self).wf(),
            intents.wf(),
            has_room(old(self)@, source_order(old(self)@.topology.sources).len()),
            forall|rtp: &RtpStream, caps: &MediaCapabilities| negotiate.requires((rtp, caps)),
        ensures
            final(self).wf(),
            match r {
                None => !old(self)@.current(user_id.id(), connection_id) && final(self)@
                    == old(self)@,
                Some(commit) => {
                    &&& old(self)@.current(user_id.id(), connection_id)
                    &&& changes_intent(
                        *negotiate,
                        old(self)@,
                        *user_id,
                        connection_id,
                        *target_user_id,
                        intent_entries(*intents),
                        final(self)@,
                        commit.work,
                    )
                    &&& commit.track_snapshots@.len() == 0
                    &&& commit.dropped_consumers@.len() == 0
                },
            },
    {
        if self.user_for_connection(user_id, connection_id).is_none() {
            return None;
        }
        let work = self.plan_receiver_intent_change(
            user_id,
            connection_id,
            target_user_id,
            intents,
            negotiate,
        );
        Some(
            ReceiverRouteCommit {
                work,
                track_snapshots: Vec::new(),
                dropped_consumers: Vec::new(),
            },
        )
    }

    fn plan_receiver_intent_change<N: Fn(&RtpStream, &MediaCapabilities) -> Option<RtpStream>>(
        &mut self,
        user_id: &UserId,
        connection_id: ConnectionId,
        target_user_id: &UserId,
        intents: &OrdMap<UserStreamId, SourceSubscriptionIntent>,
        negotiate: &N,
    ) -> (r: ReceiverRouteWork)
        requires
            old(self).wf(),
            intents.wf(),
            has_room(old(self)@, source_order(old(self)@.topology.sources).len()),
            forall|rtp: &RtpStream, caps: &MediaCapabilities| negotiate.requires((rtp, caps)),
        ensures
            final(self).wf(),
            changes_intent(
                *negotiate,
                old(self)@,
                *user_id,
                connection_id,
                *target_user_id,
                intent_entries(*intents),
                final(self)@,
                r,
            ),
    {
        let ghost st = old(self)@;
        let deaf = match self.user_for_connection(user_id, connection_id) {
            Some(user) => user.is_deaf(),
            None => false,
        };
        let mut activities: Vec<ReceiverRouteActivity> = Vec::new();
        let mut relays: Vec<TransportRelayRouteEffect> = Vec::new();
        let ghost entries = intent_entries(*intents);
        let mut i: usize = 0;
        let count: usize = intents.len();
        proof {
            intents.lemma_contents();
            assert(entries.take(0) =~= Seq::<(UserStreamId, SourceSubscriptionIntent)>::empty());
        }
        while i < count
            invariant
                intents.wf(),
                entries == intent_entries(*intents),
                count == intents.ids().len(),
                count == entries.len(),
                i <= count,
                deaf == deafened(st, user_id.id(), connection_id),
                self.wf(),
                self@ == (State {
                    topology: intents_applied(
                        st.topology,
                        *user_id,
                        connection_id,
                        *target_user_id,
                        entries.take(i as int),
                        deaf,
                    ),
                    ..st
                }),
                self@.topology.sources == st.topology.sources,
                self@.topology.graph.reservations == st.topology.graph.reservations,
                activities@ == intents_activities(
                    st.topology,
                    *user_id,
                    connection_id,
                    *target_user_id,
                    entries.take(i as int),
                    deaf,
                ),
                relays@ == intents_relays(
                    st.topology,
                    *user_id,
                    connection_id,
                    *target_user_id,
                    entries.take(i as int),
                    deaf,
                ),
            decreases count - i,
        {
            let stream = intents.key(i);
            let intent = *intents.value(i);
            proof {
                assert(entries.take(i + 1).drop_last() =~= entries.take(i as int));
                assert(entries.take(i + 1).last() == (*stream, intent));
            }
            let key = SubscriptionKey::new(user_id, target_user_id, stream);
            match self.topology.apply_subscription_intent(&key, connection_id, intent, deaf) {
                None => {
                    proof {
                        assert(relays@ =~= relays@ + Seq::<TransportRelayRouteEffect>::empty());
                        assert(activities@ =~= activities@ + Seq::<ReceiverRouteActivity>::empty());
                    }
                },
                Some(commit) => {
                    let ConsumerActivityCommit { update, relay_effects } = commit;
                    let mut relay_effects = relay_effects;
                    relays.append(&mut relay_effects);
                    let ghost earlier = activities@;
                    match update {
                        None => {
                            proof {
                                assert(activities@ =~= earlier + Seq::<
                                    ReceiverRouteActivity,
                                >::empty());
                            }
                        },
                        Some(activity) => {
                            activities.push(activity);
                            proof {
                                assert(activities@ =~= earlier + seq![activity]);
                            }
                        },
                    }
                },
            }
            proof {
                assert(key == key_for(*user_id, *target_user_id, *stream));
                assert(self@.placed());
            }
            i = i + 1;
        }
        proof {
            assert(entries.take(count as int) =~= entries);
        }
        let work = self.plan_missing_receiver_routes(
            ReceiverRouteScope::SourceUser(user_id, connection_id, target_user_id),
            negotiate,
        );
        let ReceiverRouteWork { activities: _, setups, relays: _, teardown } = work;
        ReceiverRouteWork { activities, setups, relays, teardown }
    }

    /// Plans the routes of a receiver that has negotiated, and then drops the ones
    /// that its client declined: the answer cannot create them again at once.
    pub fn refresh_consumer_readiness<N: Fn(&RtpStream, &MediaCapabilities) -> Option<RtpStream>>(
        &mut self,
        user_id: &UserId,
        connection_id: ConnectionId,
        declined_consumers: &Vec<TransportMediaId>,
        negotiate: &N,
    ) -> (r: Option<ReceiverRouteCommit>)
        requires
            old(self).wf(),
            has_room(old(self)@, source_order(old(self)@.topology.sources).len()),
            forall|rtp: &RtpStream, caps: &MediaCapabilities| negotiate.requires((rtp, caps)),
        ensures
            final(self).wf(),
            match r {
                None => !negotiated_user(old(self)@, user_id.id(), connection_id) && final(self)@
                    == old(self)@,
                Some(commit) => {
                    &&& negotiated_user(old(self)@, user_id.id(), connection_id)
                    &&& exists|planned: State|
                        #![trigger declined_tracks(
                            planned,
                            old(self)@.topology.session(*user_id, connection_id)->0,
                            declined_consumers@,
                        )]
                        plans_scope(
                            *negotiate,
                            old(self)@,
                            ReceiverRouteScope::Receiver(user_id, connection_id),
                            planned,
                            commit.work.setups@,
                        ) && declines(
                            planned,
                            old(self)@.topology.session(*user_id, connection_id)->0,
                            declined_consumers@,
                            old(self)@.users[user_id.id()].sender,
                            final(self)@,
                            commit,
                        )
                },
            },
    {
        let sender = match self.user_for_connection(user_id, connection_id) {
            None => {
                return None;
            },
            Some(user) => {
                if user.capabilities.is_none() {
                    return None;
                }
                user.sender
            },
        };
        let session = self.topology.transport_user_key(user_id, connection_id);
        let work = self.plan_missing_receiver_routes(
            ReceiverRouteScope::Receiver(user_id, connection_id),
            negotiate,
        );
        let ghost planned = self@;
        let ReceiverRouteWork { activities, setups, relays: _, teardown: _ } = work;
        let (relays, teardown, dropped_consumers) = self.topology.detach_declined_consumers(
            &session,
            declined_consumers,
        );
        let detached = teardown.len() > 0;
        proof {
            assert(self@.placed());
        }
        let mut track_snapshots: Vec<(OutboundLane, VersionedRemoteTrackSnapshot)> = Vec::new();
        if detached {
            let snapshot = self.remote_track_snapshot_for_user(user_id, false);
            track_snapshots.push((sender, snapshot));
        }
        let commit = ReceiverRouteCommit {
            work: ReceiverRouteWork { activities, setups, relays, teardown },
            track_snapshots,
            dropped_consumers,
        };
        proof {
            assert(declines(planned, session, declined_consumers@, sender, self@, commit));
        }
        Some(commit)
    }

    /// Plans every route that a receiver lacks: none before it has negotiated.
    pub fn plan_missing_consumers<N: Fn(&RtpStream, &MediaCapabilities) -> Option<RtpStream>>(
        &mut self,
        user_id: &UserId,
        connection_id: ConnectionId,
        negotiate: &N,
    ) -> (r: Option<Vec<PendingConsumerSetup>>)
        requires
            old(self).wf(),
            has_room(old(self)@, source_order(old(self)@.topology.sources).len()),
            forall|rtp: &RtpStream, caps: &MediaCapabilities| negotiate.requires((rtp, caps)),
        ensures
            final(self).wf(),
            match r {
                None => !old(self)@.current(user_id.id(), connection_id) && final(self)@
                    == old(self)@,
                Some(setups) => {
                    &&& old(self)@.current(user_id.id(), connection_id)
                    &&& if negotiated_user(old(self)@, user_id.id(), connection_id) {
                        plans_scope(
                            *negotiate,
                            old(self)@,
                            ReceiverRouteScope::Receiver(user_id, connection_id),
                            final(self)@,
                            setups@,
                        )
                    } else {
                        setups@.len() == 0 && final(self)@ == old(self)@
                    }
                },
            },
    {
        let capable = match self.user_for_connection(user_id, connection_id) {
            None => {
                return None;
            },
            Some(user) => user.capabilities.is_some(),
        };
        if !capable {
            return Some(Vec::new());
        }
        let work = self.plan_missing_receiver_routes(
            ReceiverRouteScope::Receiver(user_id, connection_id),
            negotiate,
        );
        Some(work.setups)
    }
}

/// Route work and output of a change of a receiver.
#[derive(Debug)]
pub struct ReceiverRouteCommit {
    pub work: ReceiverRouteWork,
    pub track_snapshots: Vec<(OutboundLane, VersionedRemoteTrackSnapshot)>,
    /// Consumers that the router has to drop.
    pub dropped_consumers: Vec<RoutedConsumerId>,
}

/// The user is connected by this connection and has negotiated.
pub open spec fn negotiated_user(st: State, user: UserIdentity, connection: ConnectionId) -> bool {
    st.current(user, connection) && st.users[user].capabilities is Some
}

/// Streams and what is asked of each, in order.
pub open spec fn intent_entries(intents: OrdMap<UserStreamId, SourceSubscriptionIntent>) -> Seq<
    (UserStreamId, SourceSubscriptionIntent),
> {
    Seq::new(
        intents.ids().len(),
        |i: int| (intents.key_at(i), intents@[intents.ids()[i]]),
    )
}

pub open spec fn key_for(user: UserId, publisher: UserId, stream: UserStreamId) -> SubscriptionKey {
    SubscriptionKey { receiver: user, publisher, stream }
}

/// The topology after these intents, one after the other.
pub open spec fn intents_applied(
    t: Topology,
    user: UserId,
    connection: ConnectionId,
    publisher: UserId,
    entries: Seq<(UserStreamId, SourceSubscriptionIntent)>,
    deaf: bool,
) -> Topology
    decreases entries.len(),
{
    if entries.len() == 0 {
        t
    } else {
        with_intent(
            intents_applied(t, user, connection, publisher, entries.drop_last(), deaf),
            key_for(user, publisher, entries.last().0).id(),
            connection,
            entries.last().1,
            deaf,
        )
    }
}

/// Relay work of these intents.
pub open spec fn intents_relays(
    t: Topology,
    user: UserId,
    connection: ConnectionId,
    publisher: UserId,
    entries: Seq<(UserStreamId, SourceSubscriptionIntent)>,
    deaf: bool,
) -> Seq<TransportRelayRouteEffect>
    decreases entries.len(),
{
    if entries.len() == 0 {
        seq![]
    } else {
        let before = intents_applied(t, user, connection, publisher, entries.drop_last(), deaf);
        let k = key_for(user, publisher, entries.last().0).id();
        let intent = entries.last().1;
        intents_relays(t, user, connection, publisher, entries.drop_last(), deaf)
            + if intent_acts(before, k, connection, intent) {
            intent_relays(before, k, intent)
        } else {
            seq![]
        }
    }
}

/// Route activity that these intents ask for.
pub open spec fn intents_activities(
    t: Topology,
    user: UserId,
    connection: ConnectionId,
    publisher: UserId,
    entries: Seq<(UserStreamId, SourceSubscriptionIntent)>,
    deaf: bool,
) -> Seq<ReceiverRouteActivity>
    decreases entries.len(),
{
    if entries.len() == 0 {
        seq![]
    } else {
        let before = intents_applied(t, user, connection, publisher, entries.drop_last(), deaf);
        let after = intents_applied(t, user, connection, publisher, entries, deaf);
        let key = key_for(user, publisher, entries.last().0);
        intents_activities(t, user, connection, publisher, entries.drop_last(), deaf)
            + if intent_acts(before, key.id(), connection, entries.last().1) {
            match route_activity(after, key) {
                Some(activity) => seq![activity],
                None => seq![],
            }
        } else {
            seq![]
        }
    }
}

/// Merging these intents and planning what is missing took the room to `after`.
pub open spec fn changes_intent<N: Fn(&RtpStream, &MediaCapabilities) -> Option<RtpStream>>(
    negotiate: N,
    st: State,
    user: UserId,
    connection: ConnectionId,
    publisher: UserId,
    entries: Seq<(UserStreamId, SourceSubscriptionIntent)>,
    after: State,
    work: ReceiverRouteWork,
) -> bool {
    let t = st.topology;
    let deaf = deafened(st, user.id(), connection);
    let merged = State {
        topology: intents_applied(t, user, connection, publisher, entries, deaf),
        ..st
    };
    &&& work.activities@ == intents_activities(t, user, connection, publisher, entries, deaf)
    &&& work.relays@ == intents_relays(t, user, connection, publisher, entries, deaf)
    &&& work.teardown@ == Seq::<TransportTeardown>::empty()
    &&& plans_scope(
        negotiate,
        merged,
        ReceiverRouteScope::SourceUser(&user, connection, &publisher),
        after,
        work.setups@,
    )
}

/// Routes of a session that its client declined.
pub open spec fn declined_tracks(
    st: State,
    session: TransportSessionKey,
    declined: Seq<TransportMediaId>,
) -> Seq<TransportConsumerRoute> {
    routes_of(
        st.topology.graph.subscriptions,
        in_order(declined_keys(st.topology.graph.subscriptions, session, declined)),
    )
}

/// Dropping the declined routes took the room to `after`: a client that loses a track
/// is sent its tracks, without a negotiation.
pub open spec fn declines(
    st: State,
    session: TransportSessionKey,
    declined: Seq<TransportMediaId>,
    sender: OutboundLane,
    after: State,
    commit: ReceiverRouteCommit,
) -> bool {
    let t = st.topology;
    let members = declined_keys(t.graph.subscriptions, session, declined);
    let keys = in_order(members);
    let lost = declined_tracks(st, session, declined);
    let detached = State {
        topology: Topology {
            graph: Graph {
                subscriptions: crate::route_graph::unrealized(t.graph.subscriptions, members),
                relays: crate::route_graph::relays_without(t.graph, keys),
                ..t.graph
            },
            ..t
        }.advanced(
            if lost.len() == 0 {
                0
            } else {
                1
            },
        ),
        ..st
    };
    &&& commit.work.relays@ == released_shares(t.graph, keys)
    &&& commit.work.teardown@ == media_removals(seq![], lost)
    &&& commit.work.activities@ == Seq::<ReceiverRouteActivity>::empty()
    &&& commit.dropped_consumers@ == crate::route_graph::consumers_of(t.graph.subscriptions, keys)
    &&& if lost.len() == 0 {
        after == detached && commit.track_snapshots@.len() == 0
    } else {
        &&& after == with_track_revisions(detached, 1)
        &&& commit.track_snapshots@.len() == 1
        &&& commit.track_snapshots@[0].0 == sender
        &&& is_snapshot(
            commit.track_snapshots@[0].1,
            detached.topology,
            session.user.id(),
            false,
            after.track_revision,
        )
    }
}

/// Number of setups that a scope can ask for.
pub open spec fn scope_size(st: State, scope: ReceiverRouteScope<'_>) -> nat {
    match scope {
        ReceiverRouteScope::Source(_) => crate::state::user_order(st.users).len(),
        _ => source_order(st.topology.sources).len(),
    }
}

/// Attaching what is missing in a scope took the room to `after`, with these targets.
pub open spec fn attaches_scope(
    st: State,
    scope: ReceiverRouteScope<'_>,
    after: State,
    targets: Seq<ConsumerSetupTarget>,
) -> bool {
    let t = st.topology;
    match scope {
        ReceiverRouteScope::Source(id) => if t.sources.contains_key(id.0) {
            exists|receivers: Seq<(UserId, ConnectionId)>| #[trigger]
                lists_users(st.users, receivers) && after == (State {
                    topology: with_receivers(t, id.0, receivers),
                    ..st
                }) && targets == receiver_targets(t, id.0, receivers)
        } else {
            after == st && targets == Seq::<ConsumerSetupTarget>::empty()
        },
        ReceiverRouteScope::Receiver(user, connection) => attaches_receiver(
            st,
            *user,
            connection,
            None,
            after,
            targets,
        ),
        ReceiverRouteScope::SourceUser(user, connection, owner) => attaches_receiver(
            st,
            *user,
            connection,
            Some(owner.id()),
            after,
            targets,
        ),
    }
}

pub open spec fn attaches_receiver(
    st: State,
    user: UserId,
    connection: ConnectionId,
    owner: Option<UserIdentity>,
    after: State,
    targets: Seq<ConsumerSetupTarget>,
) -> bool {
    let t = st.topology;
    match t.session(user, connection) {
        None => after == st && targets == Seq::<ConsumerSetupTarget>::empty(),
        Some(session) => {
            let ids = considered(t.sources, owner);
            after == (State { topology: with_targets(t, session, ids), ..st }) && targets
                == targets_for(t, session, ids)
        },
    }
}

/// Planning what is missing in a scope took the room to `after`, with these setups.
pub open spec fn plans_scope<N: Fn(&RtpStream, &MediaCapabilities) -> Option<RtpStream>>(
    negotiate: N,
    st: State,
    scope: ReceiverRouteScope<'_>,
    after: State,
    setups: Seq<PendingConsumerSetup>,
) -> bool {
    exists|attached: State, targets: Seq<ConsumerSetupTarget>| #[trigger]
        attaches_scope(st, scope, attached, targets) && plans(
            negotiate,
            attached,
            targets,
            after,
            setups,
        )
}

proof fn lemma_targets_len(
    st: State,
    user: UserId,
    connection: ConnectionId,
    owner: Option<UserIdentity>,
)
    ensures
        st.topology.session(user, connection) matches Some(session) ==> targets_for(
            st.topology,
            session,
            considered(st.topology.sources, owner),
        ).len() <= source_order(st.topology.sources).len() && with_targets(
            st.topology,
            session,
            considered(st.topology.sources, owner),
        ).graph.reservations == st.topology.graph.reservations && with_targets(
            st.topology,
            session,
            considered(st.topology.sources, owner),
        ).placements == st.topology.placements,
{
    if let Some(session) = st.topology.session(user, connection) {
        crate::topology::lemma_targets(
            st.topology,
            session,
            considered(st.topology.sources, owner),
        );
        crate::topology::lemma_picked_len(
            st.topology.sources,
            source_order(st.topology.sources),
            owner,
        );
    }
}

proof fn lemma_receiver_targets(t: Topology, id: u64, receivers: Seq<(UserId, ConnectionId)>)
    ensures
        receiver_targets(t, id, receivers).len() <= receivers.len(),
        with_receivers(t, id, receivers).graph.reservations == t.graph.reservations,
        with_receivers(t, id, receivers).placements == t.placements,
    decreases receivers.len(),
{
    if receivers.len() > 0 {
        lemma_receiver_targets(t, id, receivers.drop_last());
    }
}

/// State of a receiver's route: nothing for a user that is not connected.
pub open spec fn route_state(st: State, k: SubscriptionIdentity) -> Option<ConsumerRouteState> {
    let s = record(st.topology.graph.subscriptions, k);
    if !st.users.contains_key(k.receiver) {
        None
    } else if !s.routed() {
        Some(ConsumerRouteState::Absent)
    } else if st.topology.sources[s.current->0.source_id.0].active
        && s.current->0.selection.delivers() {
        Some(ConsumerRouteState::Active)
    } else {
        Some(ConsumerRouteState::Inactive)
    }
}

/// What a worker that does not host the publication is told when a route is committed.
pub open spec fn remote_activity(
    source: PublishedSource,
    route: TransportConsumerRoute,
) -> Option<TransportSourceActivityEffect> {
    if route.source.session.worker != route.consumer_session.worker {
        Some(
            TransportSourceActivityEffect {
                source: route.source,
                target_media_worker_id: route.consumer_session.worker,
                update: SourceActivityUpdate {
                    activity: ProducerActivity::of(source.active),
                    revision: source.activity_revision,
                },
            },
        )
    } else {
        None
    }
}

/// A delivered video of a receiver that became ready needs a keyframe, unless the
/// correction of its delivery asks for one.
pub open spec fn needs_keyframe(
    setup: DeclaredConsumerSetup,
    origin: ConsumerSetupOrigin,
    selection: ConsumerSourceSelection,
) -> bool {
    &&& origin == ConsumerSetupOrigin::Readiness
    &&& selection.delivers()
    &&& correction(setup.pending, selection) != Some(true)
    &&& setup.pending.target.kind == MediaKind::Video
}

/// What the router's answer makes of a declared setup that is ready and awaited.
pub open spec fn commit_outcome(
    st: State,
    setup: DeclaredConsumerSetup,
    origin: ConsumerSetupOrigin,
    answer: Option<RoutedConsumerId>,
    after: State,
    r: ConsumerSetupOutcome,
) -> bool {
    let t = st.topology;
    let target = setup.pending.target;
    let k = setup.pending.reservation.key_id();
    let source = t.sources[target.source_id.0];
    let selection = planned_selection(st, target);
    match answer {
        None => {
            &&& after == (State {
                topology: Topology { graph: after_release(t.graph, k), ..t },
                ..st
            })
            &&& r matches ConsumerSetupOutcome::Released(route, relays) && route == setup.route
                && relays@ == release_effects(t.graph, k)
        },
        Some(routed) => {
            &&& exists|mid: String|
                #![trigger mid@]
                mid@ == crate::topology::setup_mid(setup) && after == with_track_revisions(
                    State {
                        topology: Topology {
                            graph: crate::route_graph::after_commit(
                                t.graph,
                                k,
                                setup.route,
                                mid,
                                selection,
                                routed,
                            ),
                            ..t
                        }.advanced(1),
                        ..st
                    },
                    1,
                )
            &&& r matches ConsumerSetupOutcome::Committed {
                target: committed,
                route,
                sender,
                track_snapshot,
                remote_source_activity,
                transport_activity_update,
                readiness_keyframe,
            } && {
                &&& committed == target
                &&& route == setup.route
                &&& sender == setup.pending.sender
                &&& is_snapshot(
                    track_snapshot,
                    after.topology,
                    target.session.user.id(),
                    true,
                    after.track_revision,
                )
                &&& remote_source_activity == remote_activity(source, route)
                &&& transport_activity_update == correction(setup.pending, selection)
                &&& readiness_keyframe == if needs_keyframe(setup, origin, selection) {
                    Some(
                        ConsumerRouteTarget {
                            transport_route: route,
                            stream_id: target.stream,
                            kind: target.kind,
                        },
                    )
                } else {
                    None
                }
            }
        },
    }
}

} // verus!
