//! Publications of a room.
//!
//! Publications are walked in the order of their ids. A user publishes a stream
//! at most once.

use vstd::prelude::*;

use crate::ids::{
    same, PublishedSourceId, RoutedProducerId, SourceEncodingId, TransportMediaId, UserId,
    UserIdentity, UserStreamId,
};
use crate::ord_map::{enumerates, increasing, sorted, OrdMap};
use crate::order::OrdKey;
use crate::source_model::{
    ActiveSpeakerSourceRole, PublishedSourceDescriptor, RtpStream,
};
use crate::transport::{
    OwnerStream, SourceActivityRevision, SourceKey, TransportSourceKey,
};

verus! {

/// A committed publication.
#[derive(Debug)]
pub struct PublishedSource {
    pub descriptor: PublishedSourceDescriptor,
    pub transport: TransportSourceKey,
    pub rtp: RtpStream,
    pub routed: RoutedProducerId,
    pub active: bool,
    pub activity_revision: SourceActivityRevision,
}

impl PublishedSource {
    /// The stream that the publication carries.
    pub open spec fn stream(self) -> OwnerStream {
        OwnerStream { owner: self.descriptor.owner.id(), stream: self.descriptor.stream_id.id() }
    }

    /// The same publication with another activity, one revision later.
    pub open spec fn switched(self, active: bool) -> Self {
        PublishedSource {
            active,
            activity_revision: self.activity_revision.following(),
            ..self
        }
    }
}

/// Publications by id.
pub type Sources = Map<u64, PublishedSource>;

/// Every publication is filed under its id, and no stream is published twice.
pub open spec fn sources_agree(sources: Sources) -> bool {
    &&& forall|id: u64| #[trigger]
        sources.contains_key(id) ==> sources[id].descriptor.source_id.0 == id
    &&& forall|a: u64, b: u64| #[trigger]
        sources.contains_key(a) && #[trigger] sources.contains_key(b) && sources[a].stream()
            == sources[b].stream() ==> a == b
}

/// The publication of a stream.
pub open spec fn publishes(sources: Sources, id: u64, stream: OwnerStream) -> bool {
    sources.contains_key(id) && sources[id].stream() == stream
}

/// The id under which a stream is published.
pub open spec fn published_as(sources: Sources, stream: OwnerStream) -> Option<u64> {
    if exists|id: u64| publishes(sources, id, stream) {
        Some(choose|id: u64| publishes(sources, id, stream))
    } else {
        None
    }
}

/// A stream is published under one id.
pub proof fn lemma_published_as(sources: Sources, id: u64, stream: OwnerStream)
    requires
        sources_agree(sources),
        publishes(sources, id, stream),
    ensures
        published_as(sources, stream) == Some(id),
{
    let other = choose|id: u64| publishes(sources, id, stream);
    assert(publishes(sources, other, stream));
}

/// A stream that no publication carries has no id.
pub proof fn lemma_unpublished(sources: Sources, stream: OwnerStream)
    requires
        unpublished(sources, stream),
    ensures
        published_as(sources, stream) is None,
{
    if exists|id: u64| publishes(sources, id, stream) {
        let id = choose|id: u64| publishes(sources, id, stream);
        assert(sources.contains_key(id));
    }
}

/// No publication carries the stream.
pub open spec fn unpublished(sources: Sources, stream: OwnerStream) -> bool {
    forall|id: u64| #[trigger] sources.contains_key(id) ==> sources[id].stream() != stream
}

/// Publications of a user.
pub open spec fn owned_ids(sources: Sources, owner: UserIdentity) -> Set<u64> {
    Set::new(|id: u64| sources.contains_key(id) && sources[id].descriptor.owner.id() == owner)
}

/// Ids of publications, in order.
pub open spec fn source_order(sources: Sources) -> Seq<u64> {
    sorted::<PublishedSourceId>(sources.dom())
}

/// Publications of a room and the counters that name new ones.
pub struct PublishedSources {
    sources: OrdMap<PublishedSourceId, PublishedSource>,
    by_stream: OrdMap<SourceKey, PublishedSourceId>,
    next_source_id: u64,
    next_encoding_id: u64,
}

impl PublishedSources {
    pub closed spec fn view(&self) -> Sources {
        self.sources@
    }

    /// The next publication id.
    pub closed spec fn upcoming(&self) -> u64 {
        self.next_source_id
    }

    /// The next encoding id.
    pub closed spec fn upcoming_encoding(&self) -> u64 {
        self.next_encoding_id
    }

    pub closed spec fn wf(&self) -> bool {
        &&& self.sources.wf()
        &&& self.by_stream.wf()
        &&& sources_agree(self.sources@)
        &&& forall|id: u64| #[trigger] self.sources@.contains_key(id) ==> id < self.next_source_id
        &&& forall|id: u64| #[trigger]
            self.sources@.contains_key(id) ==> self.by_stream@.contains_key(
                self.sources@[id].stream(),
            ) && self.by_stream@[self.sources@[id].stream()].0 == id
        &&& forall|stream: OwnerStream| #[trigger]
            self.by_stream@.contains_key(stream) ==> publishes(
                self.sources@,
                self.by_stream@[stream].0,
                stream,
            )
    }

    /// A well-formed set of publications agrees, and ids to come are free.
    pub proof fn lemma_agree(&self)
        requires
            self.wf(),
        ensures
            sources_agree(self@),
            forall|id: u64| #[trigger] self@.contains_key(id) ==> id < self.upcoming(),
    {
    }

    /// The walk visits every publication.
    pub proof fn lemma_order(&self)
        requires
            self.wf(),
        ensures
            enumerates::<PublishedSourceId>(source_order(self@), self@.dom()),
            forall|id: u64| #[trigger]
                self@.contains_key(id) <==> source_order(self@).contains(id),
            self@.dom().finite(),
    {
        self.sources.lemma_contents();
    }

    pub fn new() -> (r: Self)
        ensures
            r.wf(),
            r@ == Map::<u64, PublishedSource>::empty(),
            r.upcoming() == 1,
            r.upcoming_encoding() == 1,
    {
        PublishedSources {
            sources: OrdMap::new(),
            by_stream: OrdMap::new(),
            next_source_id: 1,
            next_encoding_id: 1,
        }
    }

    pub fn allocate_id(&mut self) -> (r: PublishedSourceId)
        requires
            old(self).wf(),
            old(self).upcoming() < u64::MAX,
        ensures
            final(self).wf(),
            r.0 == old(self).upcoming(),
            final(self)@ == old(self)@,
            final(self).upcoming() == old(self).upcoming() + 1,
            final(self).upcoming_encoding() == old(self).upcoming_encoding(),
    {
        let id: u64 = self.next_source_id;
        self.next_source_id = id + 1;
        PublishedSourceId(id)
    }

    pub fn allocate_encoding_id(&mut self) -> (r: SourceEncodingId)
        requires
            old(self).wf(),
            old(self).upcoming_encoding() < u64::MAX,
        ensures
            final(self).wf(),
            r.0 == old(self).upcoming_encoding(),
            final(self)@ == old(self)@,
            final(self).upcoming() == old(self).upcoming(),
            final(self).upcoming_encoding() == old(self).upcoming_encoding() + 1,
    {
        let id: u64 = self.next_encoding_id;
        self.next_encoding_id = id + 1;
        SourceEncodingId(id)
    }

    /// Whether the counters have room for a publication with these encodings.
    pub fn can_allocate(&self, encodings: usize) -> (r: bool)
        requires
            self.wf(),
        ensures
            r == (self.upcoming() < u64::MAX && self.upcoming_encoding() + encodings <= u64::MAX),
    {
        self.next_source_id < u64::MAX && encodings as u128 <= (u64::MAX - self.next_encoding_id)
            as u128
    }

    pub fn insert(&mut self, source: PublishedSource)
        requires
            old(self).wf(),
            source.descriptor.source_id.0 < old(self).upcoming(),
            !old(self)@.contains_key(source.descriptor.source_id.0),
            unpublished(old(self)@, source.stream()),
        ensures
            final(self).wf(),
            final(self)@ == old(self)@.insert(source.descriptor.source_id.0, source),
            final(self).upcoming() == old(self).upcoming(),
            final(self).upcoming_encoding() == old(self).upcoming_encoding(),
    {
        let id = source.descriptor.source_id;
        let key = SourceKey::new(&source.descriptor.owner, &source.descriptor.stream_id);
        let ghost before = *self;
        proof {
            assert(key.id() == source.stream());
            assert(!self.by_stream@.contains_key(key.id()));
        }
        self.by_stream.insert(key, id);
        self.sources.insert(id, source);
        proof {
            assert forall|stream: OwnerStream| #[trigger]
                self.by_stream@.contains_key(stream) implies publishes(
                self.sources@,
                self.by_stream@[stream].0,
                stream,
            ) by {
                if stream != source.stream() {
                    assert(before.by_stream@.contains_key(stream));
                }
            }
        }
    }

    pub fn remove(&mut self, id: PublishedSourceId) -> (r: Option<PublishedSource>)
        requires
            old(self).wf(),
        ensures
            final(self).wf(),
            final(self)@ == old(self)@.remove(id.0),
            final(self).upcoming() == old(self).upcoming(),
            final(self).upcoming_encoding() == old(self).upcoming_encoding(),
            match r {
                Some(source) => old(self)@.contains_key(id.0) && source == old(self)@[id.0],
                None => !old(self)@.contains_key(id.0),
            },
    {
        let ghost before = *self;
        match self.sources.remove(&id) {
            None => None,
            Some(source) => {
                let key = SourceKey::new(&source.descriptor.owner, &source.descriptor.stream_id);
                let _ = self.by_stream.remove(&key);
                proof {
                    assert(key.id() == source.stream());
                    assert forall|stream: OwnerStream| #[trigger]
                        self.by_stream@.contains_key(stream) implies publishes(
                        self.sources@,
                        self.by_stream@[stream].0,
                        stream,
                    ) by {
                        assert(before.by_stream@.contains_key(stream));
                    }
                }
                Some(source)
            },
        }
    }

    pub fn source(&self, id: PublishedSourceId) -> (r: Option<&PublishedSource>)
        requires
            self.wf(),
        ensures
            match r {
                Some(source) => self@.contains_key(id.0) && *source == self@[id.0],
                None => !self@.contains_key(id.0),
            },
    {
        self.sources.get(&id)
    }

    /// Sets the activity of a publication and advances its revision.
    pub fn switch(&mut self, id: PublishedSourceId, active: bool)
        requires
            old(self).wf(),
            old(self)@.contains_key(id.0),
        ensures
            final(self).wf(),
            final(self)@ == old(self)@.insert(id.0, old(self)@[id.0].switched(active)),
            final(self).upcoming() == old(self).upcoming(),
            final(self).upcoming_encoding() == old(self).upcoming_encoding(),
    {
        let ghost before = *self;
        match self.sources.get_mut(&id) {
            None => {},
            Some(source) => {
                source.active = active;
                source.activity_revision = source.activity_revision.next();
            },
        }
        proof {
            assert(self.sources@[id.0].stream() == before.sources@[id.0].stream());
            assert forall|a: u64| #[trigger] self.sources@.contains_key(a) implies self.sources@[a].stream()
                == before.sources@[a].stream() by {}
            assert forall|stream: OwnerStream| #[trigger]
                self.by_stream@.contains_key(stream) implies publishes(
                self.sources@,
                self.by_stream@[stream].0,
                stream,
            ) by {
                assert(before.by_stream@.contains_key(stream));
            }
        }
    }

    pub fn id_for_owner_stream(&self, owner: &UserId, stream: &UserStreamId) -> (r: Option<
        PublishedSourceId,
    >)
        requires
            self.wf(),
        ensures
            match r {
                Some(id) => publishes(
                    self@,
                    id.0,
                    OwnerStream { owner: owner.id(), stream: stream.id() },
                ),
                None => unpublished(self@, OwnerStream { owner: owner.id(), stream: stream.id() }),
            },
            published_as(self@, OwnerStream { owner: owner.id(), stream: stream.id() }) == match r {
                Some(id) => Some(id.0),
                None => None,
            },
    {
        let key = SourceKey::new(owner, stream);
        match self.by_stream.get(&key) {
            Some(id) => {
                proof {
                    lemma_published_as(self@, id.0, key.id());
                }
                Some(*id)
            },
            None => {
                proof {
                    lemma_unpublished(self@, key.id());
                }
                None
            },
        }
    }

    /// Number of publications.
    pub fn publication_count(&self) -> (r: usize)
        requires
            self.wf(),
        ensures
            r == source_order(self@).len(),
    {
        proof {
            self.sources.lemma_contents();
        }
        self.sources.len()
    }

    /// The publication at a position of the walk in id order.
    pub fn at(&self, i: usize) -> (r: &PublishedSource)
        requires
            self.wf(),
            i < source_order(self@).len(),
        ensures
            self@.contains_key(source_order(self@)[i as int]),
            *r == self@[source_order(self@)[i as int]],
            r.descriptor.source_id.0 == source_order(self@)[i as int],
    {
        proof {
            self.sources.lemma_contents();
        }
        self.sources.value(i)
    }

    /// The first publication, in id order, that uses the transport medium.
    pub fn source_for_transport(&self, media: TransportMediaId) -> (r: Option<&PublishedSource>)
        requires
            self.wf(),
        ensures
            match r {
                Some(source) => first_with_media(self@, media, source.descriptor.source_id.0)
                    && *source == self@[source.descriptor.source_id.0],
                None => forall|id: u64| #[trigger]
                    self@.contains_key(id) ==> self@[id].transport.media != media,
            },
    {
        let mut i: usize = 0;
        let count: usize = self.sources.len();
        let ghost ids = self.sources.ids();
        while i < count
            invariant
                self.wf(),
                ids == self.sources.ids(),
                count == ids.len(),
                i <= count,
                forall|j: int|
                    0 <= j < i ==> self@[#[trigger] ids[j]].transport.media != media,
            decreases count - i,
        {
            let source = self.sources.value(i);
            if source.transport.media == media {
                proof {
                    self.sources.lemma_contents();
                    let found = ids[i as int];
                    assert(source.descriptor.source_id.0 == found);
                    assert forall|id: u64| #[trigger]
                        self@.contains_key(id) && id < found implies self@[id].transport.media
                        != media by {
                        let j = ids.index_of(id);
                        assert(ids[j] == id);
                        if j > i {
                            assert(PublishedSourceId::before(ids[i as int], ids[j]));
                        }
                    }
                }
                return Some(source);
            }
            i = i + 1;
        }
        proof {
            self.sources.lemma_contents();
            assert forall|id: u64| #[trigger] self@.contains_key(id) implies self@[id].transport.media
                != media by {
                let j = ids.index_of(id);
                assert(ids[j] == id);
            }
        }
        None
    }

    /// Publications of a user, in id order.
    pub fn ids_for_owner(&self, owner: &UserId) -> (r: Vec<PublishedSourceId>)
        requires
            self.wf(),
        ensures
            raw_ids(r@) == sorted::<PublishedSourceId>(owned_ids(self@, owner.id())),
            enumerates::<PublishedSourceId>(raw_ids(r@), owned_ids(self@, owner.id())),
    {
        let mut r: Vec<PublishedSourceId> = Vec::new();
        let mut i: usize = 0;
        let count: usize = self.sources.len();
        let ghost ids = self.sources.ids();
        let ghost members = owned_ids(self@, owner.id());
        proof {
            self.sources.lemma_contents();
        }
        while i < count
            invariant
                self.wf(),
                ids == self.sources.ids(),
                increasing::<PublishedSourceId>(ids),
                members == owned_ids(self@, owner.id()),
                count == ids.len(),
                i <= count,
                increasing::<PublishedSourceId>(raw_ids(r@)),
                forall|a: int|
                    0 <= a < r@.len() ==> members.contains((#[trigger] r@[a]).0) && exists|j: int|
                        0 <= j < i && #[trigger] ids[j] == r@[a].0,
                forall|j: int|
                    0 <= j < i && members.contains(#[trigger] ids[j]) ==> raw_ids(r@).contains(
                        ids[j],
                    ),
            decreases count - i,
        {
            let source = self.sources.value(i);
            let ghost before = r@;
            if same(&source.descriptor.owner, owner) {
                proof {
                    assert forall|a: int| 0 <= a < r@.len() implies (#[trigger] r@[a]).0
                        < ids[i as int] by {
                        let j = choose|j: int| 0 <= j < i && #[trigger] ids[j] == r@[a].0;
                        assert(PublishedSourceId::before(ids[j], ids[i as int]));
                    }
                }
                r.push(source.descriptor.source_id);
                proof {
                    assert(raw_ids(r@) =~= raw_ids(before).push(ids[i as int]));
                    assert(raw_ids(r@)[before.len() as int] == ids[i as int]);
                }
            }
            proof {
                assert forall|j: int|
                    0 <= j < i + 1 && members.contains(#[trigger] ids[j]) implies raw_ids(
                    r@,
                ).contains(ids[j]) by {
                    if j < i {
                        let a = raw_ids(before).index_of(ids[j]);
                        assert(raw_ids(r@)[a] == ids[j]);
                    }
                }
                assert forall|a: int| 0 <= a < r@.len() implies members.contains(
                    (#[trigger] r@[a]).0,
                ) && exists|j: int| 0 <= j < i + 1 && #[trigger] ids[j] == r@[a].0 by {
                    if a < before.len() {
                        assert(r@[a] == before[a]);
                    } else {
                        assert(ids[i as int] == r@[a].0);
                    }
                }
            }
            i = i + 1;
        }
        proof {
            self.sources.lemma_contents();
            assert forall|id: u64| #[trigger] raw_ids(r@).contains(id) <==> members.contains(
                id,
            ) by {
                if raw_ids(r@).contains(id) {
                    let a = raw_ids(r@).index_of(id);
                    assert(members.contains(r@[a].0));
                }
                if members.contains(id) {
                    assert(ids[ids.index_of(id)] == id);
                }
            }
            crate::ord_map::lemma_sorted::<PublishedSourceId>(raw_ids(r@), members);
        }
        r
    }

    /// Whether the owner has an active source that is promoted with this group.
    pub fn owner_has_promotable_source_in_group(&self, owner: &UserId, group: u32) -> (r: bool)
        requires
            self.wf(),
        ensures
            r == exists|id: u64| #[trigger]
                self@.contains_key(id) && promotable(self@[id], owner.id(), group),
    {
        let mut i: usize = 0;
        let count: usize = self.sources.len();
        let ghost ids = self.sources.ids();
        while i < count
            invariant
                self.wf(),
                ids == self.sources.ids(),
                count == ids.len(),
                i <= count,
                forall|j: int|
                    0 <= j < i ==> !promotable(self@[#[trigger] ids[j]], owner.id(), group),
            decreases count - i,
        {
            let source = self.sources.value(i);
            let speaks = match &source.descriptor.policy.active_speaker {
                Some(policy) => policy.group == group && policy.role
                    == ActiveSpeakerSourceRole::Promotable,
                None => false,
            };
            if source.active && speaks && same(&source.descriptor.owner, owner) {
                proof {
                    self.sources.lemma_contents();
                    assert(self@.contains_key(ids[i as int]));
                }
                return true;
            }
            i = i + 1;
        }
        proof {
            self.sources.lemma_contents();
            assert forall|id: u64| #[trigger] self@.contains_key(id) implies !promotable(
                self@[id],
                owner.id(),
                group,
            ) by {
                assert(ids[ids.index_of(id)] == id);
            }
        }
        false
    }
}

/// Ids as numbers.
pub open spec fn raw_ids(ids: Seq<PublishedSourceId>) -> Seq<u64> {
    ids.map_values(|id: PublishedSourceId| id.0)
}

/// The publication with the least id among those that use the medium.
pub open spec fn first_with_media(sources: Sources, media: TransportMediaId, id: u64) -> bool {
    &&& sources.contains_key(id)
    &&& sources[id].transport.media == media
    &&& forall|other: u64| #[trigger]
        sources.contains_key(other) && other < id ==> sources[other].transport.media != media
}

/// An active source of the owner that is promoted while the group detects speech.
pub open spec fn promotable(source: PublishedSource, owner: UserIdentity, group: u32) -> bool {
    &&& source.active
    &&& source.descriptor.owner.id() == owner
    &&& match source.descriptor.policy.active_speaker {
        Some(policy) => policy.group == group && policy.role
            == ActiveSpeakerSourceRole::Promotable,
        None => false,
    }
}

} // verus!
