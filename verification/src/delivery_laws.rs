//! What receivers get of the publications of others.
//!
//! A receiver gets what it asked for, in the order of its layout, within its limit and
//! never audio while it is deaf. Each law speaks of what was asked and of what came of it.

use vstd::prelude::*;

use crate::consumer_setup::{
    ConsumerRouteTarget, ConsumerSetupOrigin, ConsumerSetupOutcome, ConsumerSetupTarget,
    DeclaredConsumerSetup,
};
use crate::ids::{ConnectionId, RoutedConsumerId, UserId, UserIdentity, UserStreamId};
use crate::key_index::in_order;
use crate::ord_map::lemma_sorted_lists;
use crate::order::OrdKey;
use crate::outbound::RemoteTrackProjection;
use crate::room_laws::{lemma_video_keys, setups_go_by_rank};
use crate::route_graph::{attachment, receiver_keys, record};
use crate::source_model::{
    MediaKind, PolicyPauseReason, RtpStream, SourceRoomPolicySelector, SourceSubscriptionIntent,
    VideoLayoutIntent,
};
use crate::sources::{lemma_published_as, publishes};
use crate::state::{receiver_tracks, tracks_of, State};
use crate::subscription::{
    all_planned, by_rank, changes_intent, commit_outcome, initial_selection, intents_activities,
    intents_applied, key_for, planned, rank_of, ready, route_state, video_keys,
    ConsumerRouteState,
};
use crate::topology::{intent_acts, route_activity, with_intent, Topology};
use crate::transport::{
    ConsumerActivity, OwnerStream, ProducerActivity, RelayRouteActivity, SubscriptionIdentity,
    SubscriptionKey,
};
use crate::transport_plan::ReceiverRouteWork;

verus! {

/// What the receiver of a setup asked of the layout of its source.
pub open spec fn layout_wish(st: State, target: ConsumerSetupTarget) -> Option<VideoLayoutIntent> {
    let source = st.topology.sources[target.source_id.0].descriptor;
    record(
        st.topology.graph.subscriptions,
        SubscriptionIdentity {
            receiver: target.session.user.id(),
            publisher: source.owner.id(),
            stream: source.stream_id.id(),
        },
    ).intent.layout
}

/// Where the source goes in the layouts of receivers that asked for nothing.
pub open spec fn default_layout(st: State, target: ConsumerSetupTarget) -> SourceRoomPolicySelector {
    st.topology.sources[target.source_id.0].descriptor.policy.layout
}

/// The receiver pinned or featured the video, or left one where it is by default.
pub open spec fn stands_out(st: State, target: ConsumerSetupTarget) -> bool {
    let wish = layout_wish(st, target);
    ||| wish == Some(VideoLayoutIntent::Pinned)
    ||| wish == Some(VideoLayoutIntent::Featured)
    ||| wish is None && (default_layout(st, target) == SourceRoomPolicySelector::Pinned
        || default_layout(st, target) == SourceRoomPolicySelector::Featured)
}

/// The receiver hid the video, or left one that is out of sight by default.
pub open spec fn tucked_away(st: State, target: ConsumerSetupTarget) -> bool {
    let wish = layout_wish(st, target);
    ||| wish == Some(VideoLayoutIntent::Hidden)
    ||| wish is None && (default_layout(st, target) == SourceRoomPolicySelector::Hidden
        || default_layout(st, target) == SourceRoomPolicySelector::Overflow)
}

/// The receiver wants to see the video, or left a thumbnail as it is.
pub open spec fn plainly_visible(st: State, target: ConsumerSetupTarget) -> bool {
    let wish = layout_wish(st, target);
    ||| wish == Some(VideoLayoutIntent::Visible)
    ||| wish is None && default_layout(st, target) == SourceRoomPolicySelector::VisibleThumbnail
}

/// The receiver left the video where it is by default, and that is here.
pub open spec fn left_at(
    st: State,
    target: ConsumerSetupTarget,
    layout: SourceRoomPolicySelector,
) -> bool {
    layout_wish(st, target) is None && default_layout(st, target) == layout
}

/// The setup is of a video that is published.
pub open spec fn of_video(st: State, target: ConsumerSetupTarget) -> bool {
    target.kind == MediaKind::Video && st.topology.sources.contains_key(target.source_id.0)
}

/// A setup that ranks before another is planned before it.
proof fn lemma_planned_before(st: State, targets: Seq<ConsumerSetupTarget>, i: int, j: int)
    requires
        0 <= i < by_rank(st, targets).len(),
        0 <= j < by_rank(st, targets).len(),
        rank_of(st, by_rank(st, targets)[i]).precedes(rank_of(st, by_rank(st, targets)[j])),
    ensures
        i < j,
{
    setups_go_by_rank(st, targets);
}

/// Videos are planned by the layout of their receiver. What it pinned or featured goes
/// first and what it hid goes last; between them goes readable detail, then the active
/// speaker, then what is plainly visible. A wish overrides the default, and among videos
/// of one place the older one goes first.
pub proof fn videos_are_planned_by_layout(
    st: State,
    targets: Seq<ConsumerSetupTarget>,
    i: int,
    j: int,
)
    requires
        0 <= i < by_rank(st, targets).len(),
        0 <= j < by_rank(st, targets).len(),
        of_video(st, by_rank(st, targets)[i]),
        of_video(st, by_rank(st, targets)[j]),
    ensures
        ({
            let a = by_rank(st, targets)[i];
            let b = by_rank(st, targets)[j];
            let older = a.source_id.0 < b.source_id.0;
            let detail = SourceRoomPolicySelector::ReadableDetail;
            let speaker = SourceRoomPolicySelector::ActiveSpeaker;
            &&& stands_out(st, a) && !stands_out(st, b) ==> i < j
            &&& !tucked_away(st, a) && tucked_away(st, b) ==> i < j
            &&& left_at(st, a, detail) && left_at(st, b, speaker) ==> i < j
            &&& left_at(st, a, detail) && plainly_visible(st, b) ==> i < j
            &&& left_at(st, a, speaker) && plainly_visible(st, b) ==> i < j
            &&& older && stands_out(st, a) && stands_out(st, b) ==> i < j
            &&& older && tucked_away(st, a) && tucked_away(st, b) ==> i < j
            &&& older && plainly_visible(st, a) && plainly_visible(st, b) ==> i < j
            &&& older && left_at(st, a, detail) && left_at(st, b, detail) ==> i < j
            &&& older && left_at(st, a, speaker) && left_at(st, b, speaker) ==> i < j
        }),
{
    let order = by_rank(st, targets);
    if rank_of(st, order[i]).precedes(rank_of(st, order[j])) {
        lemma_planned_before(st, targets, i, j);
    }
}

/// Audio is planned before every video that its receiver did not pin or feature, and
/// among audio the older goes first.
pub proof fn audio_is_planned_first(
    st: State,
    targets: Seq<ConsumerSetupTarget>,
    i: int,
    j: int,
)
    requires
        0 <= i < by_rank(st, targets).len(),
        0 <= j < by_rank(st, targets).len(),
        by_rank(st, targets)[i].kind == MediaKind::Audio,
    ensures
        ({
            let a = by_rank(st, targets)[i];
            let b = by_rank(st, targets)[j];
            &&& of_video(st, b) && !stands_out(st, b) ==> i < j
            &&& b.kind == MediaKind::Audio && a.source_id.0 < b.source_id.0 ==> i < j
        }),
{
    let order = by_rank(st, targets);
    if rank_of(st, order[i]).precedes(rank_of(st, order[j])) {
        lemma_planned_before(st, targets, i, j);
    }
}

/// What a receiver gets under a subscription: it asked for the source and nothing holds
/// it back.
pub open spec fn gets(st: State, k: SubscriptionIdentity) -> bool {
    attachment(st.topology.graph.subscriptions, k) matches Some(current)
        && current.selection.active && current.selection.policy_pause_reason is None
}

/// The setup is of an active video that its receiver asked for, and nothing is set up for
/// it yet.
pub open spec fn asks_for_video(st: State, target: ConsumerSetupTarget) -> bool {
    &&& ready(st, target)
    &&& target.kind == MediaKind::Video
    &&& st.topology.sources[target.source_id.0].active
    &&& gets(st, target.subscription())
    &&& attachment(st.topology.graph.subscriptions, target.subscription())->0.source_id
        == target.source_id
    &&& attachment(
        st.topology.graph.subscriptions,
        target.subscription(),
    )->0.realization is Absent
}

/// No two of the setups realize one subscription.
pub open spec fn apart(order: Seq<ConsumerSetupTarget>) -> bool {
    forall|a: int, b: int|
        0 <= a < b < order.len() ==> (#[trigger] order[a]).subscription() != (
        #[trigger] order[b]).subscription()
}

/// The room after the first `n` setups were planned.
spec fn midway(
    st: State,
    order: Seq<ConsumerSetupTarget>,
    answers: Seq<Option<RtpStream>>,
    n: int,
) -> State {
    all_planned(st, order.take(n), answers.take(n))
}

proof fn lemma_midway(
    st: State,
    order: Seq<ConsumerSetupTarget>,
    answers: Seq<Option<RtpStream>>,
    n: int,
)
    requires
        order.len() == answers.len(),
        0 <= n < order.len(),
    ensures
        midway(st, order, answers, n + 1) == planned(
            midway(st, order, answers, n),
            order[n],
            answers[n],
        ),
{
    assert(order.take(n + 1).drop_last() =~= order.take(n));
    assert(answers.take(n + 1).drop_last() =~= answers.take(n));
    assert(order.take(n + 1).last() == order[n]);
    assert(answers.take(n + 1).last() == answers[n]);
}

/// Planning setups leaves other subscriptions alone, and a receiver has no fewer
/// downloads than before.
proof fn lemma_between(
    st: State,
    order: Seq<ConsumerSetupTarget>,
    answers: Seq<Option<RtpStream>>,
    m: int,
    n: int,
    k: SubscriptionIdentity,
    user: UserIdentity,
)
    requires
        order.len() == answers.len(),
        0 <= m <= n <= order.len(),
        st.topology.graph.subscriptions.dom().finite(),
    ensures
        ({
            let before = midway(st, order, answers, m);
            let after = midway(st, order, answers, n);
            &&& after.users == before.users
            &&& after.max_video_downloads == before.max_video_downloads
            &&& after.topology.sources == before.topology.sources
            &&& after.topology.graph.subscriptions.dom().finite()
            &&& before.topology.graph.subscriptions.dom().finite()
            &&& video_keys(before.topology, user).subset_of(video_keys(after.topology, user))
            &&& (forall|x: int| m <= x < n ==> (#[trigger] order[x]).subscription() != k)
                ==> record(after.topology.graph.subscriptions, k) == record(
                before.topology.graph.subscriptions,
                k,
            )
        }),
    decreases n,
{
    if n == 0 {
        assert(order.take(0) =~= Seq::<ConsumerSetupTarget>::empty());
    } else if m == n {
        lemma_between(st, order, answers, 0, n - 1, k, user);
        lemma_midway(st, order, answers, n - 1);
        lemma_one_more(midway(st, order, answers, n - 1), order[n - 1], answers[n - 1], k, user);
    } else {
        lemma_between(st, order, answers, m, n - 1, k, user);
        lemma_midway(st, order, answers, n - 1);
        lemma_one_more(midway(st, order, answers, n - 1), order[n - 1], answers[n - 1], k, user);
    }
}

proof fn lemma_one_more(
    st: State,
    target: ConsumerSetupTarget,
    answer: Option<RtpStream>,
    k: SubscriptionIdentity,
    user: UserIdentity,
)
    requires
        st.topology.graph.subscriptions.dom().finite(),
    ensures
        ({
            let after = planned(st, target, answer);
            &&& after.users == st.users
            &&& after.max_video_downloads == st.max_video_downloads
            &&& after.topology.sources == st.topology.sources
            &&& after.topology.graph.subscriptions.dom().finite()
            &&& video_keys(st.topology, user).subset_of(video_keys(after.topology, user))
            &&& target.subscription() != k ==> record(after.topology.graph.subscriptions, k)
                == record(st.topology.graph.subscriptions, k)
        }),
{
    let after = planned(st, target, answer);
    assert forall|l: SubscriptionIdentity| video_keys(st.topology, user).contains(
        l,
    ) implies video_keys(after.topology, user).contains(l) by {
        if l != target.subscription() {
            assert(record(after.topology.graph.subscriptions, l) == record(
                st.topology.graph.subscriptions,
                l,
            ));
        }
    }
}

/// Planning a setup of a video that was asked for gives the video to its receiver, or
/// withholds it because the receiver has as many downloads as it may.
proof fn lemma_video_planned(
    st: State,
    order: Seq<ConsumerSetupTarget>,
    answers: Seq<Option<RtpStream>>,
    i: int,
)
    requires
        st.topology.graph.subscriptions.dom().finite(),
        order.len() == answers.len(),
        apart(order),
        0 <= i < order.len(),
        answers[i] is Some,
        asks_for_video(st, order[i]),
    ensures
        ({
            let k = order[i].subscription();
            let user = order[i].session.user.id();
            let turn = midway(st, order, answers, i);
            let after = all_planned(st, order, answers);
            &&& gets(after, k) <==> video_keys(turn.topology, user).len() < st.max_video_downloads
            &&& !gets(after, k) ==> attachment(
                after.topology.graph.subscriptions,
                k,
            )->0.selection.policy_pause_reason == Some(PolicyPauseReason::VideoDownloadLimit)
            &&& attachment(after.topology.graph.subscriptions, k)->0.selection.active
        }),
{
    let k = order[i].subscription();
    let user = order[i].session.user.id();
    let turn = midway(st, order, answers, i);
    assert(order.take(0) =~= Seq::<ConsumerSetupTarget>::empty());
    assert(midway(st, order, answers, 0) == st);
    lemma_between(st, order, answers, 0, i, k, user);
    assert(record(turn.topology.graph.subscriptions, k) == record(
        st.topology.graph.subscriptions,
        k,
    ));
    lemma_midway(st, order, answers, i);
    lemma_between(st, order, answers, i + 1, order.len() as int, k, user);
    assert(order.take(order.len() as int) =~= order);
    assert(answers.take(order.len() as int) =~= answers);
    lemma_video_keys(turn, user);
    assert forall|x: int| i + 1 <= x < order.len() implies (#[trigger] order[x]).subscription()
        != k by {
        assert(order[i].subscription() != order[x].subscription());
    }
}

/// A video is never withheld for the sake of one that is planned after it: where the
/// later one is given to their receiver, so is the earlier one. What is withheld is
/// withheld by the limit, and stays asked for.
pub proof fn no_later_video_is_preferred(
    st: State,
    order: Seq<ConsumerSetupTarget>,
    answers: Seq<Option<RtpStream>>,
    i: int,
    j: int,
)
    requires
        st.topology.graph.subscriptions.dom().finite(),
        order.len() == answers.len(),
        apart(order),
        0 <= i < j < order.len(),
        answers[i] is Some,
        answers[j] is Some,
        asks_for_video(st, order[i]),
        asks_for_video(st, order[j]),
        order[i].session.user.id() == order[j].session.user.id(),
    ensures
        ({
            let after = all_planned(st, order, answers);
            let subs = after.topology.graph.subscriptions;
            let k = order[i].subscription();
            &&& gets(after, order[j].subscription()) ==> gets(after, k)
            &&& !gets(after, k) ==> attachment(subs, k)->0.selection.policy_pause_reason == Some(
                PolicyPauseReason::VideoDownloadLimit,
            )
            &&& attachment(subs, k)->0.selection.active
        }),
{
    let user = order[i].session.user.id();
    lemma_video_planned(st, order, answers, i);
    lemma_video_planned(st, order, answers, j);
    lemma_between(st, order, answers, i, j, order[i].subscription(), user);
    let earlier = midway(st, order, answers, i);
    let later = midway(st, order, answers, j);
    lemma_video_keys(later, user);
    vstd::set_lib::lemma_len_subset(
        video_keys(earlier.topology, user),
        video_keys(later.topology, user),
    );
}

/// A receiver that may download some video gets the one that it pinned or featured
/// rather than one that it did not, and rather none than one that it hid.
pub proof fn a_pinned_video_is_served_first(
    st: State,
    targets: Seq<ConsumerSetupTarget>,
    answers: Seq<Option<RtpStream>>,
    i: int,
    j: int,
)
    requires
        st.topology.graph.subscriptions.dom().finite(),
        by_rank(st, targets).len() == answers.len(),
        apart(by_rank(st, targets)),
        0 <= i < answers.len(),
        0 <= j < answers.len(),
        answers[i] is Some,
        answers[j] is Some,
        asks_for_video(st, by_rank(st, targets)[i]),
        asks_for_video(st, by_rank(st, targets)[j]),
        by_rank(st, targets)[i].session.user.id() == by_rank(st, targets)[j].session.user.id(),
        (stands_out(st, by_rank(st, targets)[i]) && !stands_out(st, by_rank(st, targets)[j])) || (
        !tucked_away(st, by_rank(st, targets)[i]) && tucked_away(st, by_rank(st, targets)[j])),
    ensures
        ({
            let after = all_planned(st, by_rank(st, targets), answers);
            gets(after, by_rank(st, targets)[j].subscription()) ==> gets(
                after,
                by_rank(st, targets)[i].subscription(),
            )
        }),
{
    videos_are_planned_by_layout(st, targets, i, j);
    no_later_video_is_preferred(st, by_rank(st, targets), answers, i, j);
}

/// A video that is asked for is given where the receiver has a download left when its turn
/// comes, so a limit is used up before anything is withheld.
pub proof fn a_limit_is_used_up_first(
    st: State,
    target: ConsumerSetupTarget,
    rtp: RtpStream,
)
    requires
        st.topology.graph.subscriptions.dom().finite(),
        asks_for_video(st, target),
        video_keys(st.topology, target.session.user.id()).len() < st.max_video_downloads,
    ensures
        gets(planned(st, target, Some(rtp)), target.subscription()),
{
    lemma_video_keys(st, target.session.user.id());
}

/// A download is an active video with a setup or a route that its receiver asked for and
/// that nothing holds back, and only that.
pub proof fn downloads_are_delivered_videos(st: State, k: SubscriptionIdentity)
    ensures
        video_keys(st.topology, k.receiver).contains(k) <==> (gets(st, k) && !(attachment(
            st.topology.graph.subscriptions,
            k,
        )->0.realization is Absent) && st.topology.sources[attachment(
            st.topology.graph.subscriptions,
            k,
        )->0.source_id.0].active && st.topology.sources[attachment(
            st.topology.graph.subscriptions,
            k,
        )->0.source_id.0].descriptor.media_kind == MediaKind::Video),
        forall|other: UserIdentity| other != k.receiver ==> !(#[trigger] video_keys(
            st.topology,
            other,
        )).contains(k),
{
}

/// The receiver of a setup said on its current connection that it is deaf.
pub open spec fn said_deaf(st: State, target: ConsumerSetupTarget) -> bool {
    let user = target.session.user.id();
    &&& st.users.contains_key(user)
    &&& st.users[user].connection_id == target.session.connection
    &&& st.users[user].info.is_deaf == Some(true)
}

/// Deafness withholds audio and nothing else. What a deaf receiver asked for stays asked
/// for; a receiver that hears gets the audio it asked for, and a paused video is paused
/// for the limit alone.
pub proof fn deafness_withholds_audio_alone(
    st: State,
    target: ConsumerSetupTarget,
    source_active: bool,
)
    requires
        attachment(st.topology.graph.subscriptions, target.subscription()) is None || attachment(
            st.topology.graph.subscriptions,
            target.subscription(),
        )->0.source_id == target.source_id,
    ensures
        ({
            let chosen = initial_selection(st, target, source_active);
            let asked = match attachment(
                st.topology.graph.subscriptions,
                target.subscription(),
            ) {
                Some(current) => current.selection.active,
                None => record(
                    st.topology.graph.subscriptions,
                    target.subscription(),
                ).intent.active != Some(false),
            };
            let held = match attachment(st.topology.graph.subscriptions, target.subscription()) {
                Some(current) => current.selection.policy_pause_reason,
                None => None,
            };
            &&& chosen.active == asked
            &&& held is Some ==> chosen.policy_pause_reason == held
            &&& target.kind == MediaKind::Audio && asked && held is None
                ==> chosen.policy_pause_reason == if said_deaf(st, target) {
                Some(PolicyPauseReason::ReceiverDeafened)
            } else {
                None
            }
            &&& target.kind == MediaKind::Video && chosen.policy_pause_reason != held
                ==> chosen.policy_pause_reason == Some(PolicyPauseReason::VideoDownloadLimit)
                && source_active && asked
        }),
{
}

/// A committed setup tells its transport what the receiver gets now: the activity that
/// was declared, or its correction, is whether the route is given to the receiver, and a
/// correction is asked for only where it changes something.
pub proof fn a_commit_settles_the_activity(
    st: State,
    setup: DeclaredConsumerSetup,
    origin: ConsumerSetupOrigin,
    routed: RoutedConsumerId,
    after: State,
    r: ConsumerSetupOutcome,
)
    requires
        commit_outcome(st, setup, origin, Some(routed), after, r),
    ensures
        r matches ConsumerSetupOutcome::Committed { transport_activity_update, .. } && {
            let given = gets(after, setup.pending.reservation.key_id());
            let declared = setup.pending.reservation.activity() == ConsumerActivity::Active;
            transport_activity_update == if declared == given {
                None
            } else {
                Some(given)
            }
        },
{
}

/// A video that is given to a receiver that became ready gets exactly one keyframe: with
/// the correction of its activity, or by a request of its own for that route. No other
/// commit asks for one, least of all one of audio.
pub proof fn a_ready_video_gets_one_keyframe(
    st: State,
    setup: DeclaredConsumerSetup,
    origin: ConsumerSetupOrigin,
    routed: RoutedConsumerId,
    after: State,
    r: ConsumerSetupOutcome,
)
    requires
        commit_outcome(st, setup, origin, Some(routed), after, r),
    ensures
        r matches ConsumerSetupOutcome::Committed {
            transport_activity_update,
            readiness_keyframe,
            ..
        } && {
            let target = setup.pending.target;
            &&& target.kind == MediaKind::Audio ==> readiness_keyframe is None
            &&& origin != ConsumerSetupOrigin::Readiness ==> readiness_keyframe is None
            &&& !gets(after, setup.pending.reservation.key_id()) ==> readiness_keyframe is None
            &&& target.kind == MediaKind::Video && origin == ConsumerSetupOrigin::Readiness
                && gets(after, setup.pending.reservation.key_id()) ==> (
            transport_activity_update == Some(true) <==> readiness_keyframe is None)
            &&& readiness_keyframe matches Some(keyframe) ==> keyframe == (ConsumerRouteTarget {
                transport_route: setup.route,
                stream_id: target.stream,
                kind: MediaKind::Video,
            })
        },
{
}

/// A commit realizes the subscription that was reserved and leaves every other one as it
/// was. The receiver is told its tracks, the new one among them, and asked to negotiate;
/// the worker of a receiver elsewhere is told whether the source is active, and no other.
pub proof fn a_commit_reaches_its_receiver(
    st: State,
    setup: DeclaredConsumerSetup,
    origin: ConsumerSetupOrigin,
    routed: RoutedConsumerId,
    after: State,
    r: ConsumerSetupOutcome,
    other: SubscriptionIdentity,
)
    requires
        commit_outcome(st, setup, origin, Some(routed), after, r),
    ensures
        ({
            let k = setup.pending.reservation.key_id();
            let now = record(after.topology.graph.subscriptions, k);
            &&& now.current matches Some(current) && current.realization matches
                crate::route_graph::ConsumerRealization::Committed(committed) && committed.route
                == setup.route && committed.routed == routed
            &&& now.intent == record(st.topology.graph.subscriptions, k).intent
            &&& other != k ==> record(after.topology.graph.subscriptions, other) == record(
                st.topology.graph.subscriptions,
                other,
            )
            &&& after.topology.sources == st.topology.sources
            &&& after.users == st.users
        }),
        r matches ConsumerSetupOutcome::Committed {
            target,
            route,
            sender,
            track_snapshot,
            remote_source_activity,
            ..
        } && {
            let source = st.topology.sources[setup.pending.target.source_id.0];
            &&& target == setup.pending.target && route == setup.route && sender
                == setup.pending.sender
            &&& track_snapshot.snapshot.requires_negotiation
            &&& track_snapshot.revision == after.track_revision
            &&& track_snapshot.snapshot.tracks@ == receiver_tracks(
                after.topology,
                setup.pending.target.session.user.id(),
            )
            &&& remote_source_activity is Some <==> setup.route.source.session.worker
                != setup.route.consumer_session.worker
            &&& remote_source_activity matches Some(effect) ==> effect.source == setup.route.source
                && effect.target_media_worker_id == setup.route.consumer_session.worker
                && effect.update.revision == source.activity_revision && effect.update.activity
                == if source.active {
                ProducerActivity::Active
            } else {
                ProducerActivity::Inactive
            }
        },
{
}

/// The track of a committed subscription.
pub open spec fn shows(t: Topology, k: SubscriptionIdentity, track: RemoteTrackProjection) -> bool {
    attachment(t.graph.subscriptions, k) matches Some(current) && current.realization matches
        crate::route_graph::ConsumerRealization::Committed(committed) && {
        let source = t.sources[current.source_id.0];
        &&& track.consumer_mid == committed.mid
        &&& track.user_id == source.descriptor.owner
        &&& track.stream_id == source.descriptor.stream_id
        &&& track.producer_active == source.active
    }
}

/// A route is committed for the subscription.
pub open spec fn committed(t: Topology, k: SubscriptionIdentity) -> bool {
    attachment(t.graph.subscriptions, k) matches Some(current) && current.realization is Committed
}

proof fn lemma_tracks(t: Topology, keys: Seq<SubscriptionIdentity>)
    ensures
        tracks_of(t, keys).len() <= keys.len(),
        forall|i: int|
            0 <= i < tracks_of(t, keys).len() ==> exists|j: int|
                0 <= j < keys.len() && shows(
                    t,
                    #[trigger] keys[j],
                    #[trigger] tracks_of(t, keys)[i],
                ),
        forall|j: int|
            0 <= j < keys.len() && committed(t, #[trigger] keys[j]) ==> exists|i: int|
                0 <= i < tracks_of(t, keys).len() && shows(
                    t,
                    keys[j],
                    #[trigger] tracks_of(t, keys)[i],
                ),
    decreases keys.len(),
{
    if keys.len() > 0 {
        let fewer = keys.drop_last();
        let some = tracks_of(t, fewer);
        let all = tracks_of(t, keys);
        lemma_tracks(t, fewer);
        assert forall|i: int| 0 <= i < all.len() implies exists|j: int|
            0 <= j < keys.len() && shows(t, #[trigger] keys[j], #[trigger] all[i]) by {
            if i < some.len() {
                let j = choose|j: int|
                    0 <= j < fewer.len() && shows(t, #[trigger] fewer[j], some[i]);
                assert(shows(t, keys[j], all[i]));
            } else {
                assert(shows(t, keys[keys.len() - 1], all[i]));
            }
        }
        assert forall|j: int| 0 <= j < keys.len() && committed(t, #[trigger] keys[j]) implies exists|
            i: int,
        |
            0 <= i < all.len() && shows(t, keys[j], #[trigger] all[i]) by {
            if j < fewer.len() {
                assert(committed(t, fewer[j]));
                let i = choose|i: int|
                    0 <= i < some.len() && shows(t, fewer[j], #[trigger] some[i]);
                assert(shows(t, keys[j], all[i]));
            } else {
                assert(shows(t, keys[j], all[all.len() - 1]));
            }
        }
    }
}

/// A receiver is shown a track for every route that is committed for it, and no other:
/// each says whose it is, under which MID it comes and whether its publisher is active.
pub proof fn tracks_are_the_committed_routes(
    t: Topology,
    user: UserIdentity,
    k: SubscriptionIdentity,
    i: int,
)
    requires
        t.graph.subscriptions.dom().finite(),
    ensures
        k.receiver == user && committed(t, k) ==> exists|j: int|
            0 <= j < receiver_tracks(t, user).len() && shows(
                t,
                k,
                #[trigger] receiver_tracks(t, user)[j],
            ),
        0 <= i < receiver_tracks(t, user).len() ==> exists|l: SubscriptionIdentity|
            l.receiver == user && #[trigger] shows(t, l, receiver_tracks(t, user)[i]),
{
    let members = receiver_keys(t.graph.subscriptions, user);
    assert(members.subset_of(t.graph.subscriptions.dom()));
    vstd::set_lib::lemma_len_subset(members, t.graph.subscriptions.dom());
    lemma_sorted_lists::<SubscriptionKey>(members);
    let keys = in_order(members);
    lemma_tracks(t, keys);
    if k.receiver == user && committed(t, k) {
        assert(members.contains(k));
        assert(keys.contains(k));
        assert(committed(t, keys[keys.index_of(k)]));
    }
    if 0 <= i < receiver_tracks(t, user).len() {
        let j = choose|j: int|
            0 <= j < keys.len() && shows(t, #[trigger] keys[j], receiver_tracks(t, user)[i]);
        assert(keys.contains(keys[j]));
        assert(members.contains(keys[j]));
        assert(shows(t, keys[j], receiver_tracks(t, user)[i]));
    }
}

/// What an intent update does to an attached publication that it acts on: the receiver
/// asks for it or no longer does, and nothing is lifted that held it back. Audio that a
/// deaf receiver asks for is withheld, and nothing else is withheld by an update.
pub proof fn an_intent_update_sets_what_is_asked(
    t: Topology,
    k: SubscriptionIdentity,
    connection: ConnectionId,
    intent: SourceSubscriptionIntent,
    deaf: bool,
)
    requires
        t.consistent(),
        intent_acts(t, k, connection, intent),
    ensures
        ({
            let before = attachment(t.graph.subscriptions, k);
            let now = attachment(
                with_intent(t, k, connection, intent, deaf).graph.subscriptions,
                k,
            );
            let audio = t.sources[before->0.source_id.0].descriptor.media_kind == MediaKind::Audio;
            &&& before is Some && now is Some
            &&& now->0.source_id == before->0.source_id
            &&& Some(now->0.selection.active) == intent.active
            &&& now->0.selection.policy_pause_reason == if deaf && audio && intent.active == Some(
                true,
            ) {
                Some(PolicyPauseReason::ReceiverDeafened)
            } else {
                before->0.selection.policy_pause_reason
            }
            &&& now->0.selection.selector == before->0.selection.selector
            &&& record(
                with_intent(t, k, connection, intent, deaf).graph.subscriptions,
                k,
            ).share() matches Some(share) ==> (share.activity == RelayRouteActivity::Active
                <==> intent.active == Some(true))
        }),
{
    let stream = OwnerStream { owner: k.publisher, stream: k.stream };
    let current = attachment(t.graph.subscriptions, k);
    let known = crate::topology::intent_known(t, k, intent);
    assert(attachment(known.graph.subscriptions, k) is Some);
    assert(current is Some);
    assert(publishes(t.sources, current->0.source_id.0, stream));
    lemma_published_as(t.sources, current->0.source_id.0, stream);
}

/// An update remembers what it asks for, keeps what it does not speak of, and touches
/// neither another subscription nor a publication.
pub proof fn an_intent_update_is_remembered(
    t: Topology,
    k: SubscriptionIdentity,
    connection: ConnectionId,
    intent: SourceSubscriptionIntent,
    deaf: bool,
    other: SubscriptionIdentity,
)
    ensures
        ({
            let before = record(t.graph.subscriptions, k).intent;
            let after = with_intent(t, k, connection, intent, deaf);
            let now = record(after.graph.subscriptions, k).intent;
            &&& intent.active is Some ==> now.active == intent.active
            &&& intent.active is None ==> now.active == before.active
            &&& intent.layout is Some ==> now.layout == intent.layout
            &&& intent.layout is None ==> now.layout == before.layout
            &&& other != k ==> record(after.graph.subscriptions, other) == record(
                t.graph.subscriptions,
                other,
            )
            &&& after.sources == t.sources
            &&& after.placements == t.placements
        }),
{
}

/// An update acts on a publication of the named user's stream that is attached for the
/// receiver, but not on a route of another connection, and only where it speaks of
/// activity.
pub proof fn intent_acts_on_own_routes(
    t: Topology,
    k: SubscriptionIdentity,
    connection: ConnectionId,
    intent: SourceSubscriptionIntent,
)
    requires
        t.consistent(),
    ensures
        intent_acts(t, k, connection, intent) <==> (intent.active is Some && (attachment(
            t.graph.subscriptions,
            k,
        ) matches Some(current) && (current.realization matches
            crate::route_graph::ConsumerRealization::Committed(committed)
            ==> committed.route.consumer_session.connection == connection))),
{
    let stream = OwnerStream { owner: k.publisher, stream: k.stream };
    let current = attachment(t.graph.subscriptions, k);
    if current is Some {
        assert(publishes(t.sources, current->0.source_id.0, stream));
        lemma_published_as(t.sources, current->0.source_id.0, stream);
    }
    let known = crate::topology::intent_known(t, k, intent);
    assert(attachment(known.graph.subscriptions, k) is Some <==> current is Some);
}

proof fn lemma_intent_keeps_consistent(
    t: Topology,
    k: SubscriptionIdentity,
    connection: ConnectionId,
    intent: SourceSubscriptionIntent,
    deaf: bool,
)
    requires
        intact(t),
    ensures
        intact(with_intent(t, k, connection, intent, deaf)),
        with_intent(t, k, connection, intent, deaf).sources == t.sources,
{
    let after = with_intent(t, k, connection, intent, deaf);
    assert forall|l: SubscriptionIdentity|
        (#[trigger] attachment(after.graph.subscriptions, l)) is Some implies publishes(
        after.sources,
        attachment(after.graph.subscriptions, l)->0.source_id.0,
        OwnerStream { owner: l.publisher, stream: l.stream },
    ) by {
        if l != k {
            assert(record(after.graph.subscriptions, l) == record(t.graph.subscriptions, l));
        }
        assert(attachment(t.graph.subscriptions, l) is Some);
    }
}

/// Publications are filed by their streams, and what is attached is the publication of its
/// stream.
pub open spec fn intact(t: Topology) -> bool {
    &&& crate::sources::sources_agree(t.sources)
    &&& forall|l: SubscriptionIdentity|
        (#[trigger] attachment(t.graph.subscriptions, l)) matches Some(current) ==> publishes(
            t.sources,
            current.source_id.0,
            OwnerStream { owner: l.publisher, stream: l.stream },
        )
}

proof fn lemma_activity_of_update(
    t: Topology,
    key: SubscriptionKey,
    connection: ConnectionId,
    intent: SourceSubscriptionIntent,
    deaf: bool,
)
    requires
        intact(t),
        intent_acts(t, key.id(), connection, intent),
    ensures
        route_activity(with_intent(t, key.id(), connection, intent, deaf), key) matches Some(
            activity,
        ) ==> {
            &&& deaf && activity.target.kind == MediaKind::Audio ==> !activity.active
            &&& intent.active == Some(false) ==> !activity.active
        },
{
    let k = key.id();
    let stream = OwnerStream { owner: k.publisher, stream: k.stream };
    let known = crate::topology::intent_known(t, k, intent);
    let current = attachment(t.graph.subscriptions, k);
    assert(attachment(known.graph.subscriptions, k) is Some);
    assert(current is Some);
    assert(publishes(t.sources, current->0.source_id.0, stream));
    lemma_published_as(t.sources, current->0.source_id.0, stream);
}

proof fn lemma_activities(
    t: Topology,
    user: UserId,
    connection: ConnectionId,
    publisher: UserId,
    entries: Seq<(UserStreamId, SourceSubscriptionIntent)>,
    deaf: bool,
    i: int,
)
    requires
        intact(t),
    ensures
        intact(intents_applied(t, user, connection, publisher, entries, deaf)),
        ({
            let activities = intents_activities(t, user, connection, publisher, entries, deaf);
            0 <= i < activities.len() && deaf && activities[i].target.kind == MediaKind::Audio
                ==> !activities[i].active
        }),
    decreases entries.len(),
{
    if entries.len() > 0 {
        let fewer = entries.drop_last();
        lemma_activities(t, user, connection, publisher, fewer, deaf, i);
        let before = intents_applied(t, user, connection, publisher, fewer, deaf);
        let key = key_for(user, publisher, entries.last().0);
        let intent = entries.last().1;
        lemma_intent_keeps_consistent(before, key.id(), connection, intent, deaf);
        if intent_acts(before, key.id(), connection, intent) {
            assert(intent != SourceSubscriptionIntent::nothing());
            lemma_activity_of_update(before, key, connection, intent, deaf);
        }
    }
}

/// No change of intent makes a route of audio active for a receiver that is deaf.
pub proof fn the_deaf_resume_no_audio<
    N: Fn(&RtpStream, &crate::source_model::MediaCapabilities) -> Option<RtpStream>,
>(
    negotiate: N,
    st: State,
    user: UserId,
    connection: ConnectionId,
    publisher: UserId,
    entries: Seq<(UserStreamId, SourceSubscriptionIntent)>,
    after: State,
    work: ReceiverRouteWork,
    i: int,
)
    requires
        st.topology.consistent(),
        changes_intent(negotiate, st, user, connection, publisher, entries, after, work),
        st.users.contains_key(user.id()),
        st.users[user.id()].connection_id == connection,
        st.users[user.id()].info.is_deaf == Some(true),
        0 <= i < work.activities@.len(),
        work.activities@[i].target.kind == MediaKind::Audio,
    ensures
        !work.activities@[i].active,
{
    lemma_activities(st.topology, user, connection, publisher, entries, true, i);
}

/// The activity that a route is brought to is whether its receiver gets it.
pub proof fn routes_follow_what_is_given(st: State, key: SubscriptionKey)
    ensures
        route_activity(st.topology, key) is Some <==> committed(st.topology, key.id()),
        route_activity(st.topology, key) matches Some(activity) ==> {
            &&& activity.active <==> gets(st, key.id())
            &&& activity.target.stream_id == key.stream
            &&& activity.target.kind == st.topology.sources[attachment(
                st.topology.graph.subscriptions,
                key.id(),
            )->0.source_id.0].descriptor.media_kind
        },
        route_state(st, key.id()) == Some(ConsumerRouteState::Active) <==> (st.users.contains_key(
            key.id().receiver,
        ) && committed(st.topology, key.id()) && gets(st, key.id())
            && st.topology.sources[attachment(
            st.topology.graph.subscriptions,
            key.id(),
        )->0.source_id.0].active),
{
}

} // verus!
