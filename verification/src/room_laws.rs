//! What holds of a room across joins, departures, publications and subscriptions.

use vstd::prelude::*;

use crate::consumer_setup::ConsumerSetupTarget;
use crate::ids::{ConnectionId, MediaWorkerId, OutboundLane, PublishedSourceId, UserId, UserIdentity};
use crate::key_index::in_order;
use crate::membership::{departed, joined, refused};
use crate::ord_map::lemma_sorted_lists;
use crate::order::OrdKey;
use crate::route_graph::{attached_keys, attached_to, attachment, record, Graph};
use crate::source_model::{ConsumerSourceSelection, MediaKind, RtpStream, UserInfo};
use crate::sources::{publishes, PublishedSource};
use crate::state::{
    lanes_without, later_revision, user_order, with_presence, RoomState, State, Users,
};
use crate::subscription::{
    all_planned, by_rank, deafened, initial_selection, insert_ranked, planned, planned_selection,
    rank_of, reserves, video_keys,
};
use crate::topology::{attachments_agree, owned_order, without_sources, Topology};
use crate::transport::{OwnerStream, SubscriptionIdentity};

verus! {

/// What a room keeps up through every operation: publications, subscriptions and
/// placements agree, and there are finitely many of each.
pub open spec fn valid(st: State) -> bool {
    &&& st.topology.consistent()
    &&& st.placed()
    &&& st.users.dom().finite()
    &&& st.topology.sources.dom().finite()
    &&& st.topology.graph.subscriptions.dom().finite()
}

/// What is attached to a subscription is the publication of its stream, and there are
/// finitely many publications.
pub open spec fn settled(st: State) -> bool {
    &&& attachments_agree(st.topology.graph.subscriptions, st.topology.sources)
    &&& st.topology.sources.dom().finite()
}

impl RoomState {
    /// A well-formed room is valid.
    pub proof fn lemma_valid(&self)
        requires
            self.wf(),
        ensures
            valid(self@),
    {
        self.users.lemma_contents();
        self.topology.lemma_consistent();
    }
}

/// A join that is not refused never takes the room over its capacity.
pub proof fn capacity_is_never_exceeded(
    st: State,
    user: UserIdentity,
    sender: OutboundLane,
    worker: MediaWorkerId,
)
    requires
        valid(st),
        user_order(st.users).len() <= st.max_users,
        !refused(st, user),
    ensures
        user_order(joined(st, user, sender, worker).users).len() <= st.max_users,
        joined(st, user, sender, worker).max_users == st.max_users,
{
    let after = joined(st, user, sender, worker);
    lemma_sorted_lists::<UserId>(st.users.dom());
    assert(after.users.dom() =~= st.users.dom().insert(user));
    lemma_sorted_lists::<UserId>(after.users.dom());
}

/// A user that connects again is never refused and takes no further place.
pub proof fn reconnecting_takes_no_place(
    st: State,
    user: UserIdentity,
    sender: OutboundLane,
    worker: MediaWorkerId,
)
    requires
        st.users.contains_key(user),
    ensures
        !refused(st, user),
        user_order(joined(st, user, sender, worker).users) == user_order(st.users),
{
    assert(joined(st, user, sender, worker).users.dom() =~= st.users.dom());
}

/// Taking publications out detaches what was attached to them and nothing else, and
/// keeps all intent.
proof fn lemma_without_sources(g: Graph, ids: Seq<u64>, k: SubscriptionIdentity)
    ensures
        ({
            let before = record(g.subscriptions, k);
            let after = record(without_sources(g, ids).subscriptions, k);
            &&& after.intent == before.intent
            &&& before.current is Some && ids.contains(before.current->0.source_id.0)
                ==> after.current is None
            &&& !(before.current is Some && ids.contains(before.current->0.source_id.0))
                ==> after.current == before.current
        }),
    decreases ids.len(),
{
    if ids.len() > 0 {
        let earlier = ids.drop_last();
        lemma_without_sources(g, earlier, k);
        let middle = without_sources(g, earlier).subscriptions;
        let last = PublishedSourceId(ids.last());
        assert(attached_keys(middle, last).contains(k) <==> attached_to(middle, k, last));
        assert forall|id: u64| ids.contains(id) <==> (earlier.contains(id) || id == ids.last()) by {
            if ids.contains(id) {
                let i = ids.index_of(id);
                if i < earlier.len() {
                    assert(earlier[i] == id);
                }
            }
            if earlier.contains(id) {
                let i = earlier.index_of(id);
                assert(ids[i] == id);
            }
            if id == ids.last() {
                assert(ids[ids.len() - 1] == id);
            }
        }
    }
}

/// The publications of a user are those that are listed as its own.
proof fn lemma_owned(t: Topology, user: UserIdentity, id: u64)
    requires
        t.sources.dom().finite(),
    ensures
        owned_order(t.sources, user).contains(id) <==> t.sources.contains_key(id)
            && t.sources[id].descriptor.owner.id() == user,
{
    let owned = crate::sources::owned_ids(t.sources, user);
    assert(owned.subset_of(t.sources.dom()));
    vstd::set_lib::lemma_len_subset(owned, t.sources.dom());
    lemma_sorted_lists::<PublishedSourceId>(owned);
    assert(owned_order(t.sources, user).contains(id) <==> owned.contains(id));
}

/// A user that leaves takes everything with it: no publication of its own is left,
/// nobody stays attached to one, it keeps no subscription and no placement. What others
/// asked of its streams is remembered.
pub proof fn a_departed_user_leaves_nothing_behind(
    st: State,
    user: UserIdentity,
    id: u64,
    k: SubscriptionIdentity,
)
    requires
        settled(st),
    ensures
        ({
            let after = departed(st, user);
            let subs = after.topology.graph.subscriptions;
            &&& !after.users.contains_key(user)
            &&& !after.topology.placements.contains_key(user)
            &&& after.topology.sources.contains_key(id)
                ==> after.topology.sources[id].descriptor.owner.id() != user
            &&& k.receiver == user ==> !subs.contains_key(k)
            &&& k.publisher == user ==> attachment(subs, k) is None
            &&& k.receiver != user ==> record(subs, k).intent == record(
                st.topology.graph.subscriptions,
                k,
            ).intent
        }),
{
    let t = st.topology;
    let ids = owned_order(t.sources, user);
    lemma_owned(t, user, id);
    lemma_without_sources(t.graph, ids, k);
    let current = attachment(t.graph.subscriptions, k);
    if current is Some {
        assert(publishes(
            t.sources,
            current->0.source_id.0,
            OwnerStream { owner: k.publisher, stream: k.stream },
        ));
        lemma_owned(t, user, current->0.source_id.0);
    }
}

/// A departure leaves alone what does not concern the user: the publications of others
/// and the subscriptions among others are what they were.
pub proof fn a_departure_leaves_others_alone(
    st: State,
    user: UserIdentity,
    other: UserIdentity,
    id: u64,
    k: SubscriptionIdentity,
)
    requires
        settled(st),
        other != user,
    ensures
        ({
            let after = departed(st, user);
            &&& after.users.contains_key(other) <==> st.users.contains_key(other)
            &&& st.users.contains_key(other) ==> after.users[other] == st.users[other]
            &&& after.topology.placements.contains_key(other)
                <==> st.topology.placements.contains_key(other)
            &&& st.topology.placements.contains_key(other)
                ==> after.topology.placements[other] == st.topology.placements[other]
            &&& st.topology.sources.contains_key(id)
                && st.topology.sources[id].descriptor.owner.id() != user
                ==> after.topology.sources.contains_key(id) && after.topology.sources[id]
                == st.topology.sources[id]
            &&& k.receiver != user && k.publisher != user ==> record(
                after.topology.graph.subscriptions,
                k,
            ) == record(st.topology.graph.subscriptions, k)
        }),
{
    let t = st.topology;
    let ids = owned_order(t.sources, user);
    lemma_owned(t, user, id);
    lemma_without_sources(t.graph, ids, k);
    let current = attachment(t.graph.subscriptions, k);
    if current is Some {
        assert(publishes(
            t.sources,
            current->0.source_id.0,
            OwnerStream { owner: k.publisher, stream: k.stream },
        ));
        lemma_owned(t, user, current->0.source_id.0);
    }
}

/// A connection that is replaced leaves its intent to the new one and nothing else: its
/// publications are gone, nobody stays attached to one, and what it was attached to
/// waits to be set up again as its intent wants it.
pub proof fn a_replaced_connection_leaves_its_intent(
    st: State,
    user: UserIdentity,
    sender: OutboundLane,
    worker: MediaWorkerId,
    id: u64,
    k: SubscriptionIdentity,
)
    requires
        valid(st),
        st.users.contains_key(user),
    ensures
        ({
            let after = joined(st, user, sender, worker);
            let before = record(st.topology.graph.subscriptions, k);
            let now = record(after.topology.graph.subscriptions, k);
            &&& after.users[user].connection_id == ConnectionId(st.next_connection)
            &&& after.users[user].sender == sender
            &&& after.users[user].info == UserInfo::nothing()
            &&& after.users[user].capabilities is None
            &&& after.topology.sources.contains_key(id)
                ==> after.topology.sources[id].descriptor.owner.id() != user
            &&& now.intent == before.intent
            &&& k.publisher == user ==> now.current is None
            &&& k.receiver == user && now.current is Some ==> now.current->0.realization is Absent
                && now.current->0.selection == ConsumerSourceSelection::opened(now.intent.wants())
            &&& k.receiver != user && k.publisher != user ==> now == before
        }),
{
    let connection = ConnectionId(st.next_connection);
    let t = Topology {
        placements: st.topology.placements.insert(
            user,
            crate::topology::SessionPlacement { connection, worker },
        ),
        ..st.topology
    };
    let ids = owned_order(t.sources, user);
    lemma_owned(t, user, id);
    lemma_without_sources(t.graph, ids, k);
    let current = attachment(t.graph.subscriptions, k);
    if current is Some {
        assert(publishes(
            t.sources,
            current->0.source_id.0,
            OwnerStream { owner: k.publisher, stream: k.stream },
        ));
        lemma_owned(t, user, current->0.source_id.0);
    }
}

/// Nobody is attached to a publication of its own, and what is attached to a
/// subscription is the publication of its stream.
pub proof fn nobody_receives_itself(st: State, k: SubscriptionIdentity)
    requires
        valid(st),
        attachment(st.topology.graph.subscriptions, k) is Some,
    ensures
        k.receiver != k.publisher,
        publishes(
            st.topology.sources,
            attachment(st.topology.graph.subscriptions, k)->0.source_id.0,
            OwnerStream { owner: k.publisher, stream: k.stream },
        ),
{
}

/// A stream is published at most once.
pub proof fn a_stream_is_published_once(st: State, a: u64, b: u64)
    requires
        valid(st),
        st.topology.sources.contains_key(a),
        st.topology.sources.contains_key(b),
        st.topology.sources[a].stream() == st.topology.sources[b].stream(),
    ensures
        a == b,
{
}

/// A client's report of itself never changes what its publications say of its camera
/// and its screen.
pub proof fn clients_do_not_report_their_media(
    st: State,
    user: UserIdentity,
    connection: ConnectionId,
    info: UserInfo,
)
    requires
        st.users.contains_key(user),
    ensures
        ({
            let after = with_presence(st, user, connection, info.self_reported());
            &&& after.users[user].info.is_camera_on == st.users[user].info.is_camera_on
            &&& after.users[user].info.is_screen_sharing_on
                == st.users[user].info.is_screen_sharing_on
        }),
{
}

/// A connection that was replaced can no longer change the presence of its user.
pub proof fn stale_presence_changes_nothing(
    st: State,
    user: UserIdentity,
    stale: ConnectionId,
    info: UserInfo,
)
    requires
        !st.current(user, stale),
    ensures
        with_presence(st, user, stale, info) == st,
{
}

/// Later track snapshots have later revisions, until the revisions run out.
pub proof fn track_revisions_grow(revision: u64, n: nat)
    requires
        revision + n <= u64::MAX,
        n > 0,
    ensures
        later_revision(revision, n) > revision,
{
}

/// A fanout goes to everyone but the excluded user, and to nobody else.
pub proof fn fanouts_skip_only_the_excluded(
    users: Users,
    order: Seq<UserIdentity>,
    excluded: Option<UserIdentity>,
    lane: OutboundLane,
)
    ensures
        lanes_without(users, order, excluded).contains(lane) <==> exists|i: int|
            0 <= i < order.len() && excluded != Some(#[trigger] order[i])
                && users[order[i]].sender == lane,
    decreases order.len(),
{
    if order.len() > 0 {
        let earlier = order.drop_last();
        fanouts_skip_only_the_excluded(users, earlier, excluded, lane);
        let before = lanes_without(users, earlier, excluded);
        let lanes = lanes_without(users, order, excluded);
        if lanes.contains(lane) {
            let j = lanes.index_of(lane);
            if j < before.len() {
                assert(before[j] == lane);
                assert(before.contains(lane));
                let i = choose|i: int|
                    0 <= i < earlier.len() && excluded != Some(#[trigger] earlier[i])
                        && users[earlier[i]].sender == lane;
                assert(order[i] == earlier[i]);
            } else {
                assert(order[order.len() - 1] == order.last());
            }
        }
        if exists|i: int|
            0 <= i < order.len() && excluded != Some(#[trigger] order[i])
                && users[order[i]].sender == lane {
            let i = choose|i: int|
                0 <= i < order.len() && excluded != Some(#[trigger] order[i])
                    && users[order[i]].sender == lane;
            if i < earlier.len() {
                assert(earlier[i] == order[i]);
                assert(before.contains(lane));
                let j = before.index_of(lane);
                assert(lanes[j] == lane);
            } else {
                assert(lanes[lanes.len() - 1] == lane);
            }
        }
    }
}

/// No setup ranks before one that comes earlier.
pub open spec fn ranked(st: State, targets: Seq<ConsumerSetupTarget>) -> bool {
    forall|i: int, j: int|
        0 <= i < j < targets.len() ==> !rank_of(st, #[trigger] targets[j]).precedes(
            rank_of(st, #[trigger] targets[i]),
        )
}

proof fn lemma_insert_ranked(
    st: State,
    targets: Seq<ConsumerSetupTarget>,
    target: ConsumerSetupTarget,
)
    requires
        ranked(st, targets),
    ensures
        ranked(st, insert_ranked(st, targets, target)),
        insert_ranked(st, targets, target).to_multiset() == targets.to_multiset().insert(target),
    decreases targets.len(),
{
    broadcast use vstd::seq_lib::group_to_multiset_ensures;

    let more = insert_ranked(st, targets, target);
    if targets.len() == 0 {
        assert(targets.push(target) =~= seq![target]);
    } else if rank_of(st, target).precedes(rank_of(st, targets.last())) {
        let earlier = targets.drop_last();
        lemma_insert_ranked(st, earlier, target);
        let before = insert_ranked(st, earlier, target);
        assert(earlier.push(targets.last()) =~= targets);
        assert forall|i: int, j: int| 0 <= i < j < more.len() implies !rank_of(
            st,
            #[trigger] more[j],
        ).precedes(rank_of(st, #[trigger] more[i])) by {
            if j == more.len() - 1 {
                let member = before[i];
                assert(before.to_multiset().contains(member));
                if member != target {
                    assert(earlier.to_multiset().contains(member));
                    assert(earlier.contains(member));
                    let at = earlier.index_of(member);
                    assert(targets[at] == member);
                    assert(targets[targets.len() - 1] == targets.last());
                }
            } else {
                assert(more[i] == before[i] && more[j] == before[j]);
            }
        }
        assert(more.to_multiset() =~= targets.to_multiset().insert(target));
    } else {
        assert forall|i: int, j: int| 0 <= i < j < more.len() implies !rank_of(
            st,
            #[trigger] more[j],
        ).precedes(rank_of(st, #[trigger] more[i])) by {
            if j == more.len() - 1 && i < targets.len() - 1 {
                assert(!rank_of(st, targets[targets.len() - 1]).precedes(rank_of(st, targets[i])));
            }
        }
    }
}

/// Setups are planned in the order of their ranks: audio before video, video by layout
/// priority and then by age. None is added and none is lost.
pub proof fn setups_go_by_rank(st: State, targets: Seq<ConsumerSetupTarget>)
    ensures
        ranked(st, by_rank(st, targets)),
        by_rank(st, targets).to_multiset() == targets.to_multiset(),
    decreases targets.len(),
{
    broadcast use vstd::seq_lib::group_to_multiset_ensures;

    if targets.len() > 0 {
        let earlier = targets.drop_last();
        setups_go_by_rank(st, earlier);
        lemma_insert_ranked(st, by_rank(st, earlier), targets.last());
        assert(earlier.push(targets.last()) =~= targets);
    }
}

/// The videos that a receiver downloads or is about to.
pub open spec fn downloads(st: State, user: UserIdentity) -> nat {
    in_order(video_keys(st.topology, user)).len()
}

/// Downloads can be counted.
pub proof fn lemma_video_keys(st: State, user: UserIdentity)
    requires
        st.topology.graph.subscriptions.dom().finite(),
    ensures
        video_keys(st.topology, user).finite(),
        downloads(st, user) == video_keys(st.topology, user).len(),
{
    let keys = video_keys(st.topology, user);
    let all = st.topology.graph.subscriptions.dom();
    assert(keys.subset_of(all));
    vstd::set_lib::lemma_len_subset(keys, all);
    lemma_sorted_lists::<crate::transport::SubscriptionKey>(keys);
}

/// Planning a setup never admits a video over the limit of its receiver: a receiver has
/// no more downloads than before, or no more than the limit.
pub proof fn planning_keeps_the_download_limit(
    st: State,
    target: ConsumerSetupTarget,
    answer: Option<RtpStream>,
    user: UserIdentity,
)
    requires
        st.topology.graph.subscriptions.dom().finite(),
    ensures
        downloads(planned(st, target, answer), user) <= downloads(st, user) || downloads(
            planned(st, target, answer),
            user,
        ) <= st.max_video_downloads,
        planned(st, target, answer).topology.graph.subscriptions.dom().finite(),
        planned(st, target, answer).max_video_downloads == st.max_video_downloads,
{
    let after = planned(st, target, answer);
    let k = target.subscription();
    if reserves(st, target, answer) {
        assert(after.topology.graph.subscriptions.dom() =~= st.topology.graph.subscriptions.dom());
    }
    lemma_video_keys(st, user);
    lemma_video_keys(after, user);
    let before = video_keys(st.topology, user);
    let now = video_keys(after.topology, user);
    if reserves(st, target, answer) {
        let selection = planned_selection(st, target);
        assert forall|l: SubscriptionIdentity| l != k implies (#[trigger] now.contains(l)
            <==> before.contains(l)) by {
            assert(record(after.topology.graph.subscriptions, l) == record(
                st.topology.graph.subscriptions,
                l,
            ));
        }
        assert(!before.contains(k));
        assert(attachment(after.topology.graph.subscriptions, k)->0.selection == selection);
        if now.contains(k) {
            assert(now =~= before.insert(k));
            assert(target.kind == MediaKind::Video);
            assert(downloads(st, user) < st.max_video_downloads);
        } else {
            assert(now =~= before);
        }
    } else {
        assert(after.topology == st.topology);
    }
}

/// However many setups are planned, no receiver is taken over its limit by them.
pub proof fn no_plan_exceeds_the_download_limit(
    st: State,
    targets: Seq<ConsumerSetupTarget>,
    answers: Seq<Option<RtpStream>>,
    user: UserIdentity,
)
    requires
        st.topology.graph.subscriptions.dom().finite(),
        targets.len() == answers.len(),
    ensures
        downloads(all_planned(st, targets, answers), user) <= downloads(st, user) || downloads(
            all_planned(st, targets, answers),
            user,
        ) <= st.max_video_downloads,
        all_planned(st, targets, answers).topology.graph.subscriptions.dom().finite(),
        all_planned(st, targets, answers).max_video_downloads == st.max_video_downloads,
    decreases targets.len(),
{
    if targets.len() > 0 {
        no_plan_exceeds_the_download_limit(st, targets.drop_last(), answers.drop_last(), user);
        planning_keeps_the_download_limit(
            all_planned(st, targets.drop_last(), answers.drop_last()),
            targets.last(),
            answers.last(),
            user,
        );
    }
}

/// No audio is delivered to a receiver that is deaf.
pub proof fn the_deaf_are_sent_no_audio(
    st: State,
    target: ConsumerSetupTarget,
    source_active: bool,
)
    requires
        target.kind == MediaKind::Audio,
        deafened(st, target.session.user.id(), target.session.connection),
    ensures
        !initial_selection(st, target, source_active).delivers(),
{
}

/// A change of a publication's activity is announced under a later revision, until the
/// revisions run out: what was announced before can be told from what comes after.
pub proof fn activity_revisions_advance(source: PublishedSource, active: bool)
    requires
        source.activity_revision.0 < u64::MAX,
    ensures
        source.switched(active).activity_revision.0 > source.activity_revision.0,
        source.switched(active).active == active,
{
}

} // verus!
