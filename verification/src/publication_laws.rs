//! What publications are, who learns of them and how they are counted.

use vstd::prelude::*;

use crate::consumer_setup::ConsumerSetupTarget;
use crate::delivery_laws::committed;
use crate::ids::{
    ConnectionId, MediaWorkerId, PublishedSourceId, RoutedProducerId, TransportMediaId, UserId,
    UserIdentity,
};
use crate::ord_map::{lemma_sorted_lists, sorted};
use crate::order::OrdKey;
use crate::outbound::RoomEventMessage;
use crate::producer::{
    describes, format_of_media, format_of_type, layer_rank, layer_role, negotiated_format,
    ValidatedPublish,
};
use crate::publication::{
    changes_activity, commits_presence, plans_publish, publishable, publishes_to,
    ProducerActivityCommit, ProducerActivityRejection, PublishCommit, PublishIntentPlan,
};
use crate::room_laws::valid;
use crate::route_graph::{attachment, record, ConsumerRealization};
use crate::source_model::{
    Bitrate, MediaCapabilities, MediaFormat, PublishedSourceDescriptor, RtpBinding, RtpStream,
    SessionUploadEncoding, SourceEncodingDescriptor, SourcePublishIntent, UploadLayerPolicyRole,
    UserInfo,
};
use crate::sources::{lemma_published_as, publishes, sources_agree, Sources};
use crate::state::{PresenceCommit, State};
use crate::topology::{
    active_publishers, counts_users, publication_outcome, publishes_actively, switched_topology,
    with_receivers, with_targets, PublicationCommitError, RouterError, Topology,
};
use crate::transport::{
    OwnerStream, ProducerActivity, RelayIdentity, SourceActivityRevision, SubscriptionIdentity,
    TransportSessionKey,
};

verus! {

/// The user has a publication of the stream that is not paused.
pub open spec fn on_air(sources: Sources, stream: Seq<char>, user: UserIdentity, id: u64) -> bool {
    &&& sources.contains_key(id)
    &&& sources[id].active
    &&& sources[id].descriptor.owner.id() == user
    &&& sources[id].descriptor.stream_id.id() == stream
}

/// A stream is counted for those who have a publication of it that is not paused, and for
/// nobody else.
pub proof fn paused_publications_are_not_counted(
    sources: Sources,
    stream: Seq<char>,
    user: UserIdentity,
)
    ensures
        active_publishers(sources, stream).contains(user) <==> exists|id: u64| #[trigger]
            on_air(sources, stream, user, id),
        publishes_actively(sources, stream, user) <==> exists|id: u64| #[trigger]
            on_air(sources, stream, user, id),
{
    if publishes_actively(sources, stream, user) {
        let id = choose|id: u64| crate::topology::active_source(sources, id, stream, user);
        assert(on_air(sources, stream, user, id));
    }
    if exists|id: u64| #[trigger] on_air(sources, stream, user, id) {
        let id = choose|id: u64| #[trigger] on_air(sources, stream, user, id);
        assert(crate::topology::active_source(sources, id, stream, user));
    }
}

/// There are no more publishers than publications.
proof fn lemma_publishers_finite(sources: Sources, stream: Seq<char>)
    requires
        sources.dom().finite(),
    ensures
        active_publishers(sources, stream).finite(),
        sorted::<UserId>(active_publishers(sources, stream)).len() == active_publishers(
            sources,
            stream,
        ).len(),
{
    let owner = |id: u64| sources[id].descriptor.owner.id();
    let owners = sources.dom().map(owner);
    sources.dom().lemma_map_finite(owner);
    let publishers = active_publishers(sources, stream);
    assert forall|user: UserIdentity| publishers.contains(user) implies owners.contains(user) by {
        let id = choose|id: u64| crate::topology::active_source(sources, id, stream, user);
        assert(sources.dom().contains(id) && owner(id) == user);
    }
    vstd::set_lib::lemma_len_subset(publishers, owners);
    lemma_sorted_lists::<UserId>(publishers);
}

/// How many users the counts give for a stream.
pub open spec fn counted_for(counts: Map<Seq<char>, u64>, stream: Seq<char>) -> int {
    if counts.contains_key(stream) {
        counts[stream] as int
    } else {
        0
    }
}

/// A stream that has no publication but paused ones has no entry in the counts, and a
/// stream that somebody has on air is counted at least once.
pub proof fn paused_streams_have_no_entry(
    sources: Sources,
    counts: Map<Seq<char>, u64>,
    stream: Seq<char>,
)
    requires
        sources.dom().finite(),
        counts_users(sources, counts),
    ensures
        counts.contains_key(stream) <==> exists|user: UserIdentity, id: u64| #[trigger]
            on_air(sources, stream, user, id),
        counts.contains_key(stream) <==> counted_for(counts, stream) > 0,
{
    lemma_publishers_finite(sources, stream);
    let publishers = active_publishers(sources, stream);
    if counts.contains_key(stream) {
        let user = choose|user: UserIdentity| publishes_actively(sources, stream, user);
        paused_publications_are_not_counted(sources, stream, user);
        let id = choose|id: u64| #[trigger] on_air(sources, stream, user, id);
        assert(on_air(sources, stream, user, id));
        assert(publishers.contains(user));
        vstd::set_lib::lemma_len_subset(set![user], publishers);
        assert(set![user].len() == 1);
    }
    if exists|user: UserIdentity, id: u64| #[trigger] on_air(sources, stream, user, id) {
        let (user, id) = choose|user: UserIdentity, id: u64| #[trigger]
            on_air(sources, stream, user, id);
        paused_publications_are_not_counted(sources, stream, user);
        assert(publishes_actively(sources, stream, user));
    }
}

/// Pausing a publication takes its owner out of the count of the stream, and resuming it
/// takes the owner back in. The counts of other streams stay as they are.
pub proof fn pausing_takes_its_owner_out_of_the_count(
    t: Topology,
    id: PublishedSourceId,
    active: bool,
    before: Map<Seq<char>, u64>,
    after: Map<Seq<char>, u64>,
    stream: Seq<char>,
)
    requires
        sources_agree(t.sources),
        t.sources.dom().finite(),
        t.sources.contains_key(id.0),
        t.sources[id.0].active != active,
        counts_users(t.sources, before),
        counts_users(switched_topology(t, id, active).sources, after),
    ensures
        counted_for(after, stream) - counted_for(before, stream) == if stream
            != t.sources[id.0].descriptor.stream_id.id() {
            0int
        } else if active {
            1
        } else {
            -1
        },
{
    let now = switched_topology(t, id, active).sources;
    assert(now.dom() =~= t.sources.dom());
    lemma_switched_count(t, id, stream);
    paused_streams_have_no_entry(t.sources, before, stream);
    paused_streams_have_no_entry(now, after, stream);
    lemma_no_publishers(t.sources, before, stream);
    lemma_no_publishers(now, after, stream);
}

proof fn lemma_no_publishers(sources: Sources, counts: Map<Seq<char>, u64>, stream: Seq<char>)
    requires
        sources.dom().finite(),
        counts_users(sources, counts),
    ensures
        counted_for(counts, stream) == sorted::<UserId>(active_publishers(sources, stream)).len(),
{
    lemma_publishers_finite(sources, stream);
    if !counts.contains_key(stream) {
        assert(active_publishers(sources, stream) =~= Set::<UserIdentity>::empty());
    }
}

proof fn lemma_switched_count(t: Topology, id: PublishedSourceId, stream: Seq<char>)
    requires
        sources_agree(t.sources),
        t.sources.dom().finite(),
        t.sources.contains_key(id.0),
    ensures
        ({
            let own = t.sources[id.0].descriptor.stream_id.id();
            let paused = switched_topology(t, id, false).sources;
            let resumed = switched_topology(t, id, true).sources;
            let count = sorted::<UserId>(active_publishers(t.sources, stream)).len();
            &&& stream == own && t.sources[id.0].active ==> sorted::<UserId>(
                active_publishers(paused, stream),
            ).len() == count - 1
            &&& stream == own && !t.sources[id.0].active ==> sorted::<UserId>(
                active_publishers(resumed, stream),
            ).len() == count + 1
            &&& stream != own ==> sorted::<UserId>(active_publishers(paused, stream)).len()
                == count && sorted::<UserId>(active_publishers(resumed, stream)).len() == count
        }),
{
    let own = t.sources[id.0].descriptor.stream_id.id();
    let owner = t.sources[id.0].descriptor.owner.id();
    let paused = switched_topology(t, id, false).sources;
    let resumed = switched_topology(t, id, true).sources;
    assert(paused.dom() =~= t.sources.dom());
    assert(resumed.dom() =~= t.sources.dom());
    lemma_publishers_finite(t.sources, stream);
    lemma_publishers_finite(paused, stream);
    lemma_publishers_finite(resumed, stream);
    let before = active_publishers(t.sources, stream);
    assert forall|user: UserIdentity| true implies ({
        &&& active_publishers(paused, stream).contains(user) <==> before.contains(user) && !(stream
            == own && user == owner)
        &&& active_publishers(resumed, stream).contains(user) <==> before.contains(user) || (stream
            == own && user == owner)
    }) by {
        paused_publications_are_not_counted(t.sources, stream, user);
        paused_publications_are_not_counted(paused, stream, user);
        paused_publications_are_not_counted(resumed, stream, user);
        if exists|other: u64| #[trigger] on_air(t.sources, stream, user, other) {
            let other = choose|other: u64| #[trigger] on_air(t.sources, stream, user, other);
            if other != id.0 {
                assert(on_air(paused, stream, user, other));
                assert(on_air(resumed, stream, user, other));
                if stream == own && user == owner {
                    assert(t.sources[other].stream() == t.sources[id.0].stream());
                }
            } else {
                assert(on_air(resumed, stream, user, other));
            }
        }
        if exists|other: u64| #[trigger] on_air(paused, stream, user, other) {
            let other = choose|other: u64| #[trigger] on_air(paused, stream, user, other);
            assert(other != id.0);
            assert(on_air(t.sources, stream, user, other));
            if stream == own && user == owner {
                assert(t.sources[other].stream() == t.sources[id.0].stream());
            }
        }
        if exists|other: u64| #[trigger] on_air(resumed, stream, user, other) {
            let other = choose|other: u64| #[trigger] on_air(resumed, stream, user, other);
            if other != id.0 {
                assert(on_air(t.sources, stream, user, other));
            }
        }
        if stream == own && user == owner {
            assert(on_air(resumed, stream, user, id.0));
        }
    }
    if stream == own {
        if t.sources[id.0].active {
            assert(on_air(t.sources, stream, owner, id.0));
            paused_publications_are_not_counted(t.sources, stream, owner);
            assert(active_publishers(paused, stream) =~= before.remove(owner));
        } else {
            assert(!before.contains(owner)) by {
                paused_publications_are_not_counted(t.sources, stream, owner);
                if exists|other: u64| #[trigger] on_air(t.sources, stream, owner, other) {
                    let other = choose|other: u64| #[trigger]
                        on_air(t.sources, stream, owner, other);
                    assert(t.sources[other].stream() == t.sources[id.0].stream());
                }
            }
            assert(active_publishers(resumed, stream) =~= before.insert(owner));
        }
    } else {
        assert(active_publishers(paused, stream) =~= before);
        assert(active_publishers(resumed, stream) =~= before);
    }
}

/// The publication is the user's stream on this connection.
pub open spec fn published_here(
    sources: Sources,
    user: UserIdentity,
    connection: ConnectionId,
    stream: Seq<char>,
    id: u64,
) -> bool {
    &&& sources.contains_key(id)
    &&& sources[id].descriptor.owner.id() == user
    &&& sources[id].descriptor.stream_id.id() == stream
    &&& sources[id].transport.session.connection == connection
}

proof fn lemma_published_here(
    sources: Sources,
    user: UserIdentity,
    connection: ConnectionId,
    stream: Seq<char>,
)
    requires
        sources_agree(sources),
    ensures
        ({
            let found = crate::topology::source_of_connection(sources, user, connection, stream);
            &&& forall|id: u64| #[trigger]
                published_here(sources, user, connection, stream, id) <==> found == Some(
                    PublishedSourceId(id),
                )
        }),
{
    let found = crate::topology::source_of_connection(sources, user, connection, stream);
    let wanted = OwnerStream { owner: user, stream };
    assert forall|id: u64| #[trigger] published_here(
        sources,
        user,
        connection,
        stream,
        id,
    ) <==> found == Some(PublishedSourceId(id)) by {
        if published_here(sources, user, connection, stream, id) {
            assert(publishes(sources, id, wanted));
            lemma_published_as(sources, id, wanted);
        }
        if found == Some(PublishedSourceId(id)) {
            let other = choose|id: u64| publishes(sources, id, wanted);
            assert(publishes(sources, other, wanted));
        }
    }
}

/// A change of activity reaches exactly the publication of the stream that this connection
/// made. It is missing where there is none, and changes nothing where it is as asked.
/// Else it is as asked from now on, one revision later, and nothing else of it and no
/// other publication changes; the transport is told so.
pub proof fn activity_changes_one_publication(
    st: State,
    user: UserIdentity,
    connection: ConnectionId,
    stream: crate::ids::UserStreamId,
    active: bool,
    presence: Option<UserInfo>,
    after: State,
    r: Result<ProducerActivityCommit, ProducerActivityRejection>,
    id: u64,
    other: u64,
)
    requires
        sources_agree(st.topology.sources),
        changes_activity(st, user, connection, stream, active, presence, after, r),
    ensures
        r == Err::<ProducerActivityCommit, _>(ProducerActivityRejection::MissingPublication) <==> !(
        exists|id: u64| #[trigger]
            published_here(st.topology.sources, user, connection, stream.id(), id)),
        r is Err ==> after == st,
        published_here(st.topology.sources, user, connection, stream.id(), id) ==> {
            let before = st.topology.sources[id];
            let now = after.topology.sources[id];
            &&& r is Ok <==> before.active != active
            &&& after.topology.sources.dom() == st.topology.sources.dom()
            &&& other != id && st.topology.sources.contains_key(other)
                ==> after.topology.sources[other] == st.topology.sources[other]
            &&& now.active == active
            &&& now.descriptor == before.descriptor
            &&& now.transport == before.transport
            &&& now.rtp == before.rtp
            &&& r matches Ok(commit) ==> {
                &&& commit.source == before.transport
                &&& commit.stream_id == stream
                &&& commit.update.activity == if active {
                    ProducerActivity::Active
                } else {
                    ProducerActivity::Inactive
                }
                &&& commit.update.revision == now.activity_revision
                &&& before.activity_revision.0 < u64::MAX ==> now.activity_revision.0
                    == before.activity_revision.0 + 1
            }
        },
{
    lemma_published_here(st.topology.sources, user, connection, stream.id());
    let found = crate::topology::source_of_connection(
        st.topology.sources,
        user,
        connection,
        stream.id(),
    );
    if found is Some {
        assert(published_here(
            st.topology.sources,
            user,
            connection,
            stream.id(),
            (found->0).0,
        ));
    }
    if published_here(st.topology.sources, user, connection, stream.id(), id) {
        assert(found == Some(PublishedSourceId(id)));
        if r is Ok {
            assert(after.topology.sources.dom() =~= st.topology.sources.dom());
        }
    }
}

/// Every worker that a publication is relayed to is told of its activity, once, and no
/// other worker is.
pub proof fn relayed_workers_learn_of_activity(
    st: State,
    user: UserIdentity,
    connection: ConnectionId,
    stream: crate::ids::UserStreamId,
    active: bool,
    presence: Option<UserInfo>,
    after: State,
    commit: ProducerActivityCommit,
    worker: MediaWorkerId,
)
    requires
        changes_activity(st, user, connection, stream, active, presence, after, Ok(commit)),
    ensures
        st.topology.graph.relays.contains_key(
            RelayIdentity { source: commit.source.id(), target_worker: worker },
        ) <==> exists|i: int|
            0 <= i < commit.remote_activity_effects@.len() && (
            #[trigger] commit.remote_activity_effects@[i]).target_media_worker_id == worker,
        forall|i: int|
            0 <= i < commit.remote_activity_effects@.len() ==> (
            #[trigger] commit.remote_activity_effects@[i]).update == commit.update
                && commit.remote_activity_effects@[i].source == commit.source,
        forall|i: int, j: int|
            0 <= i < j < commit.remote_activity_effects@.len() ==> (
            #[trigger] commit.remote_activity_effects@[i]).target_media_worker_id.0 < (
            #[trigger] commit.remote_activity_effects@[j]).target_media_worker_id.0,
{
    let effects = commit.remote_activity_effects@;
    let relays = st.topology.graph.relays;
    let workers = choose|workers: Seq<MediaWorkerId>|
        #![trigger crate::relay::relayed_to(relays, commit.source.id(), workers)]
        crate::relay::relayed_to(relays, commit.source.id(), workers) && effects
            == crate::topology::activity_announcements(commit.source, commit.update, workers);
    assert(crate::relay::relayed_to(relays, commit.source.id(), workers));
    if workers.contains(worker) {
        let i = workers.index_of(worker);
        assert(effects[i].target_media_worker_id == worker);
    }
    if exists|i: int| 0 <= i < effects.len() && (#[trigger] effects[i]).target_media_worker_id
        == worker {
        let i = choose|i: int|
            0 <= i < effects.len() && (#[trigger] effects[i]).target_media_worker_id == worker;
        assert(workers[i] == worker);
    }
}

/// Everyone who has a committed route of the publication and is there is sent its tracks
/// anew, without a negotiation.
pub proof fn receivers_learn_of_activity(
    st: State,
    user: UserIdentity,
    connection: ConnectionId,
    stream: crate::ids::UserStreamId,
    active: bool,
    presence: Option<UserInfo>,
    after: State,
    commit: ProducerActivityCommit,
    k: SubscriptionIdentity,
)
    requires
        valid(st),
        changes_activity(st, user, connection, stream, active, presence, after, Ok(commit)),
        committed(st.topology, k),
        k.publisher == user,
        k.stream == stream.id(),
        st.users.contains_key(k.receiver),
    ensures
        exists|i: int|
            0 <= i < commit.track_snapshots@.len() && (#[trigger] commit.track_snapshots@[i]).0
                == st.users[k.receiver].sender
                && !commit.track_snapshots@[i].1.snapshot.requires_negotiation,
{
    let t = st.topology;
    let id = crate::topology::source_of_connection(t.sources, user, connection, stream.id())->0;
    let current = attachment(t.graph.subscriptions, k)->0;
    let wanted = OwnerStream { owner: user, stream: stream.id() };
    assert(attachment(t.graph.subscriptions, k) is Some);
    assert(publishes(t.sources, current.source_id.0, wanted));
    lemma_published_as(t.sources, current.source_id.0, wanted);
    assert(current.source_id == id);
    let known = crate::publication::with_activity(st, id, active, user, connection, presence);
    let subs = known.topology.graph.subscriptions;
    assert(record(subs, k).routed());
    assert(crate::topology::receives(subs, id.0, k.receiver));
    let members = crate::topology::receivers_of(subs, id.0);
    let receiver = |l: SubscriptionIdentity| l.receiver;
    let all = t.graph.subscriptions.dom().map(receiver);
    t.graph.subscriptions.dom().lemma_map_finite(receiver);
    assert forall|who: UserIdentity| members.contains(who) implies all.contains(who) by {
        let l = choose|l: SubscriptionIdentity|
            crate::route_graph::attached_to(subs, l, PublishedSourceId(id.0)) && #[trigger] record(
                subs,
                l,
            ).routed() && l.receiver == who;
        assert(subs.contains_key(l));
        assert(t.graph.subscriptions.dom().contains(l) && receiver(l) == who);
    }
    vstd::set_lib::lemma_len_subset(members, all);
    lemma_sorted_lists::<UserId>(members);
    let order = crate::publication::receiver_order(known.topology, id);
    assert(order.contains(k.receiver) <==> members.contains(k.receiver));
    let told = crate::state::connected(known.users, order);
    lemma_still_connected(known.users, order, k.receiver);
    let i = told.index_of(k.receiver);
    assert(crate::state::is_sent(commit.track_snapshots@[i], known, told[i], false, i));
    assert(known.users[k.receiver].sender == st.users[k.receiver].sender);
    assert(commit.track_snapshots@[i].0 == st.users[k.receiver].sender);
}

proof fn lemma_still_connected(
    users: crate::state::Users,
    ids: Seq<UserIdentity>,
    user: UserIdentity,
)
    requires
        ids.contains(user),
        users.contains_key(user),
    ensures
        crate::state::connected(users, ids).contains(user),
    decreases ids.len(),
{
    let all = crate::state::connected(users, ids);
    if ids.last() == user {
        assert(all[all.len() - 1] == user);
    } else {
        let fewer = ids.drop_last();
        let i = ids.index_of(user);
        assert(fewer[i] == user);
        lemma_still_connected(users, fewer, user);
        let before = crate::state::connected(users, fewer);
        assert(all[before.index_of(user)] == user);
    }
}

/// Pausing a publication leaves no upgrade waiting on a route of it; neither pausing nor
/// resuming changes what anyone asked for or gets set up.
pub proof fn activity_leaves_subscriptions_alone(
    t: Topology,
    id: PublishedSourceId,
    active: bool,
    k: SubscriptionIdentity,
)
    requires
        t.sources.contains_key(id.0),
    ensures
        ({
            let before = record(t.graph.subscriptions, k);
            let now = record(switched_topology(t, id, active).graph.subscriptions, k);
            &&& now.intent == before.intent
            &&& now.current is Some <==> before.current is Some
            &&& before.current is Some ==> {
                &&& now.current->0.source_id == before.current->0.source_id
                &&& now.current->0.selection == before.current->0.selection
                &&& now.current->0.realization is Committed
                    <==> before.current->0.realization is Committed
                &&& before.current->0.source_id == id && !active ==> (
                now.current->0.realization matches ConsumerRealization::Committed(route)
                    ==> route.pending_upgrade is None)
                &&& active || before.current->0.source_id != id ==> now == before
            }
        }),
{
}

/// A publication may be committed exactly while its publisher is there on the connection
/// that negotiated it, has negotiated, and publishes nothing else under the stream.
pub proof fn a_stream_is_committed_while_it_is_free(st: State, publish: ValidatedPublish)
    ensures
        ({
            let user = publish.session_key.user.id();
            publishable(st, publish) <==> {
                &&& st.users.contains_key(user)
                &&& st.users[user].connection_id == publish.session_key.connection
                &&& st.users[user].capabilities is Some
                &&& forall|id: u64| #[trigger]
                    st.topology.sources.contains_key(id) ==> !(
                    st.topology.sources[id].descriptor.owner.id() == user
                        && st.topology.sources[id].descriptor.stream_id.id()
                        == publish.stream_id.id())
            }
        }),
{
    let user = publish.session_key.user.id();
    let wanted = OwnerStream { owner: user, stream: publish.stream_id.id() };
    let sources = st.topology.sources;
    if exists|id: u64| publishes(sources, id, wanted) {
        let id = choose|id: u64| publishes(sources, id, wanted);
        assert(sources.contains_key(id));
    }
    assert forall|id: u64| #[trigger] sources.contains_key(id) && sources[id].descriptor.owner.id()
        == user && sources[id].descriptor.stream_id.id() == publish.stream_id.id() implies
        publishes(sources, id, wanted) by {
    }
}

/// A committed publication is there under a number of its own, active, with the media and
/// the session that were negotiated for it. A router that refuses leaves none, and no
/// other publication changes either way.
pub proof fn a_committed_publication_is_on_air(
    t: Topology,
    publish: ValidatedPublish,
    rtp: RtpStream,
    media: TransportMediaId,
    descriptor: PublishedSourceDescriptor,
    answer: Result<RoutedProducerId, RouterError>,
    after: Topology,
    r: Result<PublishedSourceId, PublicationCommitError>,
    other: u64,
)
    requires
        publication_outcome(t, publish, rtp, media, descriptor, answer, after, r),
        t.next_source < u64::MAX,
        t.consistent(),
    ensures
        r is Ok <==> answer is Ok,
        r matches Ok(id) ==> {
            &&& !t.sources.contains_key(id.0)
            &&& after.sources.contains_key(id.0)
            &&& after.sources[id.0].active
            &&& after.sources[id.0].activity_revision == SourceActivityRevision(0)
            &&& after.sources[id.0].descriptor == descriptor
            &&& after.sources[id.0].transport.session == publish.session_key
            &&& after.sources[id.0].transport.media == media
            &&& after.sources[id.0].rtp == rtp
            &&& Ok::<_, RouterError>(after.sources[id.0].routed) == answer
            &&& other != id.0 ==> (after.sources.contains_key(other) <==> t.sources.contains_key(
                other,
            ))
        },
        t.sources.contains_key(other) ==> after.sources.contains_key(other) && after.sources[other]
            == t.sources[other],
        r is Err ==> after.sources == t.sources,
        after.graph == t.graph,
        after.placements == t.placements,
        after.next_source == t.next_source + 1,
{
}

/// A request to publish is staged only for a connection that is there and has negotiated,
/// and only where the stream is not published by it already and nothing else is being
/// negotiated; while it is, the request waits. A stream that is published is never staged
/// again, it is resumed. A connection that was replaced is not heard.
pub proof fn requests_to_publish_are_staged_once(
    st: State,
    user: UserId,
    connection: ConnectionId,
    intent: SourcePublishIntent,
    can_stage: bool,
    after: State,
    r: PublishIntentPlan,
)
    requires
        sources_agree(st.topology.sources),
        plans_publish(st, user, connection, intent, can_stage, after, r),
    ensures
        ({
            let there = st.users.contains_key(user.id()) && st.users[user.id()].connection_id
                == connection;
            let published = exists|id: u64| #[trigger]
                published_here(
                    st.topology.sources,
                    user.id(),
                    connection,
                    intent.stream_id.id(),
                    id,
                );
            &&& r is Queue <==> there && !published && !can_stage
            &&& r is Stage <==> there && !published && can_stage
                && st.users[user.id()].capabilities is Some
            &&& r is Activate <==> there && exists|id: u64| #[trigger]
                published_here(
                    st.topology.sources,
                    user.id(),
                    connection,
                    intent.stream_id.id(),
                    id,
                ) && !st.topology.sources[id].active
            &&& !(r is Activate) ==> after == st
            &&& r matches PublishIntentPlan::Stage(publish) ==> {
                &&& publish.session_key.user == user
                &&& publish.session_key.connection == connection
                &&& publish.stream_id == intent.stream_id
                &&& publish.media_kind == intent.media_kind
                &&& publish.policy == intent.policy
                &&& publish.presence == intent.presence
            }
        }),
{
    lemma_published_here(st.topology.sources, user.id(), connection, intent.stream_id.id());
    let found = crate::topology::source_of_connection(
        st.topology.sources,
        user.id(),
        connection,
        intent.stream_id.id(),
    );
    if found is Some {
        assert(published_here(
            st.topology.sources,
            user.id(),
            connection,
            intent.stream_id.id(),
            (found->0).0,
        ));
    }
}

proof fn lemma_targets_attached(
    t: Topology,
    session: TransportSessionKey,
    ids: Seq<u64>,
    k: SubscriptionIdentity,
)
    requires
        forall|i: int| 0 <= i < ids.len() ==> t.sources.contains_key(#[trigger] ids[i]),
    ensures
        ({
            let after = with_targets(t, session, ids);
            let now = attachment(after.graph.subscriptions, k);
            &&& after.sources == t.sources
            &&& record(after.graph.subscriptions, k).intent == record(
                t.graph.subscriptions,
                k,
            ).intent
            &&& attachment(t.graph.subscriptions, k) is Some ==> now == attachment(
                t.graph.subscriptions,
                k,
            )
            &&& k.receiver != session.user.id() ==> now == attachment(t.graph.subscriptions, k)
            &&& forall|i: int|
                0 <= i < ids.len() && t.sources[#[trigger] ids[i]].descriptor.owner.id()
                    != session.user.id() && k == ConsumerSetupTarget::of(
                    session,
                    t.sources[ids[i]],
                ).subscription() ==> now is Some
            &&& now is Some && attachment(t.graph.subscriptions, k) is None ==> {
                &&& now->0.realization is Absent
                &&& now->0.selection.active == (record(
                    t.graph.subscriptions,
                    k,
                ).intent.active != Some(false))
                &&& now->0.selection.policy_pause_reason is None
            }
        }),
    decreases ids.len(),
{
    if ids.len() > 0 {
        let fewer = ids.drop_last();
        assert forall|i: int| 0 <= i < fewer.len() implies t.sources.contains_key(
            #[trigger] fewer[i],
        ) by {
            assert(ids[i] == fewer[i]);
        }
        lemma_targets_attached(t, session, fewer, k);
        let before = with_targets(t, session, fewer);
        let after = with_targets(t, session, ids);
        assert(t.sources.contains_key(ids[ids.len() - 1]));
        assert forall|i: int|
            0 <= i < ids.len() && t.sources[#[trigger] ids[i]].descriptor.owner.id()
                != session.user.id() && k == ConsumerSetupTarget::of(
                session,
                t.sources[ids[i]],
            ).subscription() implies attachment(after.graph.subscriptions, k) is Some by {
            if i < fewer.len() {
                assert(fewer[i] == ids[i]);
                assert(attachment(before.graph.subscriptions, k) is Some);
            }
        }
    }
}

/// A receiver is attached to every publication of others that it is to be set up for, as
/// it asked for it: what it said nothing of it wants. What was attached before stays as
/// it was, and no other receiver is touched.
pub proof fn receivers_are_attached_as_they_asked(
    t: Topology,
    session: TransportSessionKey,
    ids: Seq<u64>,
    i: int,
    k: SubscriptionIdentity,
)
    requires
        forall|i: int| 0 <= i < ids.len() ==> t.sources.contains_key(#[trigger] ids[i]),
        0 <= i < ids.len(),
    ensures
        ({
            let after = with_targets(t, session, ids);
            let source = t.sources[ids[i]];
            let own = SubscriptionIdentity {
                receiver: session.user.id(),
                publisher: source.transport.session.user.id(),
                stream: source.descriptor.stream_id.id(),
            };
            let now = attachment(after.graph.subscriptions, own);
            &&& source.descriptor.owner.id() != session.user.id() ==> now is Some
            &&& now is Some && attachment(t.graph.subscriptions, own) is None ==> {
                &&& now->0.realization is Absent
                &&& now->0.selection.active == (record(
                    t.graph.subscriptions,
                    own,
                ).intent.active != Some(false))
                &&& now->0.selection.policy_pause_reason is None
            }
            &&& attachment(t.graph.subscriptions, k) is Some || k.receiver != session.user.id()
                ==> attachment(after.graph.subscriptions, k) == attachment(
                t.graph.subscriptions,
                k,
            )
            &&& record(after.graph.subscriptions, k).intent == record(
                t.graph.subscriptions,
                k,
            ).intent
        }),
{
    let source = t.sources[ids[i]];
    let own = SubscriptionIdentity {
        receiver: session.user.id(),
        publisher: source.transport.session.user.id(),
        stream: source.descriptor.stream_id.id(),
    };
    assert(own == ConsumerSetupTarget::of(session, source).subscription());
    lemma_targets_attached(t, session, ids, own);
    lemma_targets_attached(t, session, ids, k);
}

/// A new publication is attached for everyone else who is placed, and never for its own
/// publisher.
pub proof fn a_publication_is_offered_to_everyone_else(
    t: Topology,
    id: u64,
    receivers: Seq<(UserId, ConnectionId)>,
    i: int,
)
    requires
        t.sources.contains_key(id),
        0 <= i < receivers.len(),
        t.placements.contains_key(receivers[i].0.id()),
        t.placements[receivers[i].0.id()].connection == receivers[i].1,
    ensures
        ({
            let k = SubscriptionIdentity {
                receiver: receivers[i].0.id(),
                publisher: t.sources[id].transport.session.user.id(),
                stream: t.sources[id].descriptor.stream_id.id(),
            };
            let after = with_receivers(t, id, receivers);
            &&& t.sources[id].descriptor.owner.id() != receivers[i].0.id() ==> attachment(
                after.graph.subscriptions,
                k,
            ) is Some
            &&& forall|l: SubscriptionIdentity|
                l.receiver == t.sources[id].descriptor.owner.id() ==> #[trigger] attachment(
                    after.graph.subscriptions,
                    l,
                ) == attachment(t.graph.subscriptions, l)
            &&& after.sources == t.sources && after.placements == t.placements
        }),
    decreases receivers.len(),
{
    let fewer = receivers.drop_last();
    lemma_offered(t, id, fewer);
    lemma_offered(t, id, receivers);
    if i < fewer.len() {
        a_publication_is_offered_to_everyone_else(t, id, fewer, i);
    }
}

proof fn lemma_offered(t: Topology, id: u64, receivers: Seq<(UserId, ConnectionId)>)
    requires
        t.sources.contains_key(id),
    ensures
        ({
            let after = with_receivers(t, id, receivers);
            &&& after.sources == t.sources && after.placements == t.placements
            &&& after.instance == t.instance
            &&& forall|l: SubscriptionIdentity|
                l.receiver == t.sources[id].descriptor.owner.id() ==> #[trigger] attachment(
                    after.graph.subscriptions,
                    l,
                ) == attachment(t.graph.subscriptions, l)
        }),
    decreases receivers.len(),
{
    if receivers.len() > 0 {
        let before = with_receivers(t, id, receivers.drop_last());
        let after = with_receivers(t, id, receivers);
        lemma_offered(t, id, receivers.drop_last());
        assert forall|l: SubscriptionIdentity|
            l.receiver == t.sources[id].descriptor.owner.id() implies #[trigger] attachment(
            after.graph.subscriptions,
            l,
        ) == attachment(t.graph.subscriptions, l) by {
            assert(attachment(before.graph.subscriptions, l) == attachment(
                t.graph.subscriptions,
                l,
            ));
        }
    }
}

/// Of several layers the last one is featured, and it alone; of more than two the first
/// one is the degraded thumbnail, and it alone. A layer that stands alone is a thumbnail.
pub proof fn layers_are_ranked_from_degraded_to_featured(rank: int, layer_count: nat)
    requires
        0 <= rank < layer_count,
    ensures
        layer_role(rank, layer_count) == UploadLayerPolicyRole::Featured <==> layer_count >= 2
            && rank == layer_count - 1,
        layer_role(rank, layer_count) == UploadLayerPolicyRole::DegradedThumbnail <==> layer_count
            >= 3 && rank == 0,
        layer_count == 1 ==> layer_role(rank, layer_count) == UploadLayerPolicyRole::Thumbnail,
{
}

proof fn lemma_format_of_type(formats: Seq<MediaFormat>, payload_type: u8)
    ensures
        format_of_type(formats, payload_type) is None ==> forall|i: int|
            0 <= i < formats.len() ==> (#[trigger] formats[i]).payload_type != payload_type,
        format_of_type(formats, payload_type) matches Some(format) ==> exists|i: int|
            0 <= i < formats.len() && #[trigger] formats[i] == format && format.payload_type
                == payload_type && forall|j: int|
                0 <= j < i ==> (#[trigger] formats[j]).payload_type != payload_type,
    decreases formats.len(),
{
    if formats.len() > 0 && formats[0].payload_type != payload_type {
        let rest = formats.drop_first();
        lemma_format_of_type(rest, payload_type);
        if format_of_type(rest, payload_type) is Some {
            let format = format_of_type(rest, payload_type)->0;
            let i = choose|i: int|
                0 <= i < rest.len() && #[trigger] rest[i] == format && format.payload_type
                    == payload_type && forall|j: int|
                    0 <= j < i ==> (#[trigger] rest[j]).payload_type != payload_type;
            assert(formats[i + 1] == format);
            assert forall|j: int| 0 <= j < i + 1 implies (#[trigger] formats[j]).payload_type
                != payload_type by {
                if j > 0 {
                    assert(rest[j - 1] == formats[j]);
                }
            }
        } else {
            assert forall|i: int| 0 <= i < formats.len() implies (
            #[trigger] formats[i]).payload_type != payload_type by {
                if i > 0 {
                    assert(rest[i - 1] == formats[i]);
                }
            }
        }
    } else if formats.len() > 0 {
        assert(formats[0].payload_type == payload_type);
    }
}

proof fn lemma_format_of_media(formats: Seq<MediaFormat>)
    ensures
        format_of_media(formats) is None ==> forall|i: int|
            0 <= i < formats.len() ==> (#[trigger] formats[i]).retransmission,
        format_of_media(formats) matches Some(format) ==> exists|i: int|
            0 <= i < formats.len() && #[trigger] formats[i] == format && !format.retransmission
                && forall|j: int| 0 <= j < i ==> (#[trigger] formats[j]).retransmission,
    decreases formats.len(),
{
    if formats.len() > 0 && formats[0].retransmission {
        let rest = formats.drop_first();
        lemma_format_of_media(rest);
        if format_of_media(rest) is Some {
            let format = format_of_media(rest)->0;
            let i = choose|i: int|
                0 <= i < rest.len() && #[trigger] rest[i] == format && !format.retransmission
                    && forall|j: int| 0 <= j < i ==> (#[trigger] rest[j]).retransmission;
            assert(formats[i + 1] == format);
            assert forall|j: int| 0 <= j < i + 1 implies (
            #[trigger] formats[j]).retransmission by {
                if j > 0 {
                    assert(rest[j - 1] == formats[j]);
                }
            }
        } else {
            assert forall|i: int| 0 <= i < formats.len() implies (
            #[trigger] formats[i]).retransmission by {
                if i > 0 {
                    assert(rest[i - 1] == formats[i]);
                }
            }
        }
    } else if formats.len() > 0 {
        assert(!formats[0].retransmission);
    }
}

/// An encoding has one of the negotiated formats, where there is any: one of its payload
/// type if there is one, else one that carries media itself if there is one, and the first
/// of those that will do.
pub proof fn encodings_have_a_format_that_will_do(
    formats: Seq<MediaFormat>,
    payload_type: Option<u8>,
    i: int,
)
    requires
        0 <= i < formats.len(),
    ensures
        negotiated_format(formats, payload_type) matches Some(format) && exists|n: int|
            0 <= n < formats.len() && #[trigger] formats[n] == format && {
                let typed = |f: MediaFormat| Some(f.payload_type) == payload_type;
                &&& typed(formats[i]) ==> typed(format) && n <= i
                &&& !typed(format) && !formats[i].retransmission ==> !format.retransmission && n
                    <= i
            },
{
    lemma_format_of_media(formats);
    if payload_type is Some {
        lemma_format_of_type(formats, payload_type->0);
    }
    let format = negotiated_format(formats, payload_type)->0;
    if payload_type is Some && format_of_type(formats, payload_type->0) is Some {
        let n = choose|n: int|
            0 <= n < formats.len() && #[trigger] formats[n] == format && format.payload_type
                == payload_type->0 && forall|j: int|
                0 <= j < n ==> (#[trigger] formats[j]).payload_type != payload_type->0;
        assert(formats[n] == format);
    } else if format_of_media(formats) is Some {
        let n = choose|n: int|
            0 <= n < formats.len() && #[trigger] formats[n] == format && !format.retransmission
                && forall|j: int| 0 <= j < n ==> (#[trigger] formats[j]).retransmission;
        assert(formats[n] == format);
    } else {
        assert(formats[0] == format);
    }
}

/// An encoding is that of its binding. Its limits are those of the first layer that was
/// announced under its RID, but a bitrate of its own goes before the layer's; without such
/// a layer it has no other limits and no role.
pub proof fn encodings_follow_their_layers(
    encoding: SourceEncodingDescriptor,
    binding: RtpBinding,
    encoding_id: int,
    source_id: PublishedSourceId,
    layers: Seq<SessionUploadEncoding>,
    formats: Seq<MediaFormat>,
    i: int,
)
    requires
        describes(encoding, binding, encoding_id, source_id, layers, formats),
    ensures
        encoding.rid == binding.rid,
        encoding.primary_ssrc == binding.ssrc,
        encoding.repair_ssrc is None,
        encoding.source_id == source_id,
        encoding.encoding_id.0 == encoding_id,
        binding.max_bitrate matches Some(bps) ==> encoding.max_bitrate == Some(Bitrate(bps)),
        0 <= i < layers.len() && binding.rid is Some && layers[i].rid@ == binding.rid->0@ && (
        forall|j: int| 0 <= j < i ==> (#[trigger] layers[j]).rid@ != binding.rid->0@) ==> {
            &&& binding.max_bitrate is None ==> encoding.max_bitrate == layers[i].max_bitrate
            &&& encoding.resolution_scale == layers[i].resolution_scale
            &&& encoding.max_framerate == layers[i].max_framerate
            &&& encoding.policy_role is Some
            &&& encoding.policy_role == Some(UploadLayerPolicyRole::Featured) <==> layers.len()
                >= 2 && i == layers.len() - 1
        },
        (binding.rid is None || forall|j: int|
            0 <= j < layers.len() ==> (#[trigger] layers[j]).rid@ != binding.rid->0@) ==> {
            &&& binding.max_bitrate is None ==> encoding.max_bitrate is None
            &&& encoding.resolution_scale is None
            &&& encoding.max_framerate is None
            &&& encoding.policy_role is None
        },
{
    if 0 <= i < layers.len() && binding.rid is Some && layers[i].rid@ == binding.rid->0@ && (
    forall|j: int| 0 <= j < i ==> (#[trigger] layers[j]).rid@ != binding.rid->0@) {
        assert(crate::producer::first_layer(layers, binding.rid, i));
        let other = choose|i: int| crate::producer::first_layer(layers, binding.rid, i);
        assert(crate::producer::first_layer(layers, binding.rid, other));
        if other < i {
            assert(layers[other].rid@ != binding.rid->0@);
        }
        if i < other {
            assert(layers[i].rid@ != binding.rid->0@);
        }
        layers_are_ranked_from_degraded_to_featured(i, layers.len());
    }
    if binding.rid is None || forall|j: int|
        0 <= j < layers.len() ==> (#[trigger] layers[j]).rid@ != binding.rid->0@ {
        assert(layer_rank(layers, binding.rid) is None);
    }
}

/// A publication that the router refuses is not there: nobody is told, nobody is set up for
/// it, and no subscription changes. One that it accepts is on air, under the number it was
/// given, for its publisher and nobody else, and its presence is announced where there is
/// one.
pub proof fn publications_follow_the_router<
    N: Fn(&RtpStream, &MediaCapabilities) -> Option<RtpStream>,
>(
    negotiate: N,
    st: State,
    publish: ValidatedPublish,
    rtp: RtpStream,
    media: TransportMediaId,
    descriptor: PublishedSourceDescriptor,
    answer: Result<RoutedProducerId, RouterError>,
    after: State,
    r: Option<PublishCommit>,
)
    requires
        publishes_to(negotiate, st, publish, rtp, media, descriptor, answer, after, r),
        st.topology.next_source < u64::MAX,
        st.topology.consistent(),
    ensures
        r is Some <==> answer is Ok,
        r is None ==> after.topology.sources == st.topology.sources && after.topology.graph
            == st.topology.graph && after.users == st.users,
        r matches Some(commit) ==> {
            &&& commit.source_id.0 == st.topology.next_source
            &&& commit.receiver_route_work.activities@.len() == 0
            &&& commit.receiver_route_work.teardown@.len() == 0
            &&& commit.presence is Some ==> publish.presence is Some
            &&& publish.presence is None ==> commit.presence is None
        },
{
}

/// A presence that comes with a publication is announced exactly where there is one and the
/// publisher is still there on its connection; everyone is then told what is known of it.
pub proof fn presence_is_announced_for_those_present(
    before: State,
    after: State,
    user: UserIdentity,
    connection: ConnectionId,
    presence: Option<UserInfo>,
    commit: Option<PresenceCommit>,
    other: UserIdentity,
)
    requires
        commits_presence(before, after, user, connection, presence, commit),
        after.users.dom().finite(),
    ensures
        commit is Some <==> presence is Some && before.users.contains_key(user)
            && before.users[user].connection_id == connection,
        commit matches Some(told) ==> {
            &&& told.fanout.message matches RoomEventMessage::UserInfoChanged(snapshot)
                && snapshot@.contains_key(user) && snapshot@[user] == after.users[user].info
            &&& after.users.contains_key(other) ==> told.fanout.recipients@.contains(
                after.users[other].sender,
            )
        },
{
    crate::admission_laws::fanouts_reach_everyone_else(after, None, other);
}

} // verus!
