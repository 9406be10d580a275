//! Descriptors of new publications.
//!
//! Every negotiated encoding becomes one encoding of the publication. Where the
//! client announced an upload layer under its RID, the layer fills in what was not
//! negotiated and gives the encoding its role.

use vstd::prelude::*;

use crate::ids::{PublishedSourceId, SourceEncodingId, UserStreamId};
use crate::source_model::{
    clone_text, Bitrate, MediaFormat, MediaKind, PublishedSourceDescriptor, RtpBinding, RtpStream,
    SessionUploadEncoding, SourceEncodingDescriptor, SourcePolicy, UploadLayerPolicyRole,
    UserInfo,
};
use crate::sources::PublishedSources;
use crate::transport::TransportSessionKey;

verus! {

/// A publication that may be negotiated for a session.
#[derive(Debug, PartialEq, Eq)]
pub struct ValidatedPublish {
    pub session_key: TransportSessionKey,
    pub stream_id: UserStreamId,
    pub media_kind: MediaKind,
    pub policy: SourcePolicy,
    pub presence: Option<UserInfo>,
}

impl Clone for ValidatedPublish {
    fn clone(&self) -> (r: Self)
        ensures
            r == *self,
    {
        ValidatedPublish {
            session_key: self.session_key.clone(),
            stream_id: self.stream_id.clone(),
            media_kind: self.media_kind,
            policy: self.policy,
            presence: self.presence,
        }
    }
}

/// The first announced layer with this RID.
pub open spec fn first_layer(
    layers: Seq<SessionUploadEncoding>,
    rid: Option<String>,
    i: int,
) -> bool {
    &&& rid is Some
    &&& 0 <= i < layers.len()
    &&& layers[i].rid@ == rid->0@
    &&& forall|j: int| 0 <= j < i ==> (#[trigger] layers[j]).rid@ != rid->0@
}

/// Rank of the layer announced under a RID.
pub open spec fn layer_rank(layers: Seq<SessionUploadEncoding>, rid: Option<String>) -> Option<
    int,
> {
    if exists|i: int| first_layer(layers, rid, i) {
        Some(choose|i: int| first_layer(layers, rid, i))
    } else {
        None
    }
}

proof fn lemma_layer_rank(layers: Seq<SessionUploadEncoding>, rid: Option<String>, i: int)
    requires
        first_layer(layers, rid, i),
    ensures
        layer_rank(layers, rid) == Some(i),
{
    let other = choose|i: int| first_layer(layers, rid, i);
    assert(first_layer(layers, rid, other));
    if other < i {
        assert(layers[other].rid@ != rid->0@);
    }
    if i < other {
        assert(layers[i].rid@ != rid->0@);
    }
}

/// Rank of the first announced layer with this RID, if there is one.
pub fn upload_profile_for_rid(
    upload_encodings: &Vec<SessionUploadEncoding>,
    rid: &Option<String>,
) -> (r: Option<usize>)
    ensures
        match r {
            Some(rank) => layer_rank(upload_encodings@, *rid) == Some(rank as int) && rank
                < upload_encodings@.len(),
            None => layer_rank(upload_encodings@, *rid) is None,
        },
{
    match rid {
        None => None,
        Some(wanted) => {
            let mut i: usize = 0;
            while i < upload_encodings.len()
                invariant
                    i <= upload_encodings@.len(),
                    *rid == Some(*wanted),
                    forall|j: int|
                        0 <= j < i ==> (#[trigger] upload_encodings@[j]).rid@ != wanted@,
                decreases upload_encodings@.len() - i,
            {
                if upload_encodings[i].rid == *wanted {
                    proof {
                        assert(first_layer(upload_encodings@, *rid, i as int));
                        lemma_layer_rank(upload_encodings@, *rid, i as int);
                    }
                    return Some(i);
                }
                i = i + 1;
            }
            None
        },
    }
}

/// Role of a layer by its rank: the last of several is featured, the first of more
/// than two is a degraded thumbnail, and every other one is a thumbnail.
pub open spec fn layer_role(rank: int, layer_count: nat) -> UploadLayerPolicyRole {
    if layer_count > 1 && rank + 1 == layer_count {
        UploadLayerPolicyRole::Featured
    } else if rank == 0 && layer_count > 2 {
        UploadLayerPolicyRole::DegradedThumbnail
    } else {
        UploadLayerPolicyRole::Thumbnail
    }
}

pub fn upload_layer_policy_role_for_rank(rank: usize, layer_count: usize) -> (r:
    UploadLayerPolicyRole)
    ensures
        r == layer_role(rank as int, layer_count as nat),
{
    if layer_count > 1 && rank == layer_count - 1 {
        UploadLayerPolicyRole::Featured
    } else if rank == 0 && layer_count > 2 {
        UploadLayerPolicyRole::DegradedThumbnail
    } else {
        UploadLayerPolicyRole::Thumbnail
    }
}

/// The first format with this payload type.
pub open spec fn format_of_type(formats: Seq<MediaFormat>, payload_type: u8) -> Option<MediaFormat>
    decreases formats.len(),
{
    if formats.len() == 0 {
        None
    } else if formats[0].payload_type == payload_type {
        Some(formats[0])
    } else {
        format_of_type(formats.drop_first(), payload_type)
    }
}

/// The first format that carries media itself.
pub open spec fn format_of_media(formats: Seq<MediaFormat>) -> Option<MediaFormat>
    decreases formats.len(),
{
    if formats.len() == 0 {
        None
    } else if !formats[0].retransmission {
        Some(formats[0])
    } else {
        format_of_media(formats.drop_first())
    }
}

/// The format of an encoding: that of its payload type, else the first that carries
/// media itself, else the first.
pub open spec fn negotiated_format(formats: Seq<MediaFormat>, payload_type: Option<u8>) -> Option<
    MediaFormat,
> {
    if payload_type is Some && format_of_type(formats, payload_type->0) is Some {
        format_of_type(formats, payload_type->0)
    } else if format_of_media(formats) is Some {
        format_of_media(formats)
    } else if formats.len() > 0 {
        Some(formats[0])
    } else {
        None
    }
}

pub fn negotiated_format_for_binding(parameters: &RtpStream, payload_type: Option<u8>) -> (r:
    Option<MediaFormat>)
    ensures
        r == negotiated_format(parameters.formats@, payload_type),
{
    let formats = &parameters.formats;
    let ghost all = formats@;
    if let Some(wanted) = payload_type {
        let mut i: usize = 0;
        proof {
            assert(all.skip(0) =~= all);
        }
        while i < formats.len()
            invariant
                i <= formats@.len(),
                all == formats@,
                all == parameters.formats@,
                payload_type == Some(wanted),
                format_of_type(all, wanted) == format_of_type(all.skip(i as int), wanted),
            decreases formats@.len() - i,
        {
            proof {
                assert(all.skip(i as int).drop_first() =~= all.skip(i + 1));
            }
            if formats[i].payload_type == wanted {
                return Some(formats[i].clone());
            }
            i = i + 1;
        }
    }
    let mut i: usize = 0;
    proof {
        assert(all.skip(0) =~= all);
    }
    while i < formats.len()
        invariant
            i <= formats@.len(),
            all == formats@,
            all == parameters.formats@,
            payload_type is Some ==> format_of_type(all, payload_type->0) is None,
            format_of_media(all) == format_of_media(all.skip(i as int)),
        decreases formats@.len() - i,
    {
        proof {
            assert(all.skip(i as int).drop_first() =~= all.skip(i + 1));
        }
        if !formats[i].retransmission {
            return Some(formats[i].clone());
        }
        i = i + 1;
    }
    if formats.len() > 0 {
        Some(formats[0].clone())
    } else {
        None
    }
}

/// Whether an encoding describes this binding.
pub open spec fn describes(
    encoding: SourceEncodingDescriptor,
    binding: RtpBinding,
    encoding_id: int,
    source_id: PublishedSourceId,
    layers: Seq<SessionUploadEncoding>,
    formats: Seq<MediaFormat>,
) -> bool {
    let rank = layer_rank(layers, binding.rid);
    &&& encoding.encoding_id.0 == encoding_id
    &&& encoding.source_id == source_id
    &&& encoding.rid == binding.rid
    &&& encoding.primary_ssrc == binding.ssrc
    &&& encoding.repair_ssrc is None
    &&& encoding.max_bitrate == match (binding.max_bitrate, rank) {
        (Some(bps), _) => Some(Bitrate(bps)),
        (None, Some(rank)) => layers[rank].max_bitrate,
        (None, None) => None,
    }
    &&& encoding.resolution_scale == match rank {
        Some(rank) => layers[rank].resolution_scale,
        None => None,
    }
    &&& encoding.max_framerate == match rank {
        Some(rank) => layers[rank].max_framerate,
        None => None,
    }
    &&& encoding.policy_role == match rank {
        Some(rank) => Some(layer_role(rank, layers.len())),
        None => None,
    }
    &&& encoding.negotiated_format == negotiated_format(formats, binding.payload_type)
}

/// Whether a descriptor is that of this publication.
pub open spec fn describes_publication(
    descriptor: PublishedSourceDescriptor,
    publish: ValidatedPublish,
    rtp: RtpStream,
    layers: Seq<SessionUploadEncoding>,
    source_id: u64,
    first_encoding: u64,
) -> bool {
    &&& descriptor.source_id.0 == source_id
    &&& descriptor.owner == publish.session_key.user
    &&& descriptor.stream_id == publish.stream_id
    &&& descriptor.media_kind == publish.media_kind
    &&& descriptor.policy == publish.policy
    &&& descriptor.mid == rtp.mid
    &&& descriptor.encodings@.len() == rtp.bindings@.len()
    &&& forall|i: int|
        0 <= i < rtp.bindings@.len() ==> describes(
            #[trigger] descriptor.encodings@[i],
            rtp.bindings@[i],
            first_encoding + i,
            descriptor.source_id,
            layers,
            rtp.formats@,
        )
}

fn describe_encoding(
    encoding_id: SourceEncodingId,
    source_id: PublishedSourceId,
    binding: &RtpBinding,
    rtp: &RtpStream,
    upload_encodings: &Vec<SessionUploadEncoding>,
) -> (r: SourceEncodingDescriptor)
    ensures
        describes(
            r,
            *binding,
            encoding_id.0 as int,
            source_id,
            upload_encodings@,
            rtp.formats@,
        ),
{
    let profile = upload_profile_for_rid(upload_encodings, &binding.rid);
    SourceEncodingDescriptor {
        encoding_id,
        source_id,
        rid: clone_text(&binding.rid),
        primary_ssrc: binding.ssrc,
        repair_ssrc: None,
        max_bitrate: match binding.max_bitrate {
            Some(bps) => Some(Bitrate(bps)),
            None => match profile {
                Some(rank) => upload_encodings[rank].max_bitrate,
                None => None,
            },
        },
        resolution_scale: match profile {
            Some(rank) => upload_encodings[rank].resolution_scale,
            None => None,
        },
        max_framerate: match profile {
            Some(rank) => upload_encodings[rank].max_framerate,
            None => None,
        },
        policy_role: match profile {
            Some(rank) => Some(upload_layer_policy_role_for_rank(rank, upload_encodings.len())),
            None => None,
        },
        negotiated_format: negotiated_format_for_binding(rtp, binding.payload_type),
    }
}

/// Describes a negotiated publication under fresh ids.
pub fn allocate_source_descriptor(
    sources: &mut PublishedSources,
    publish: &ValidatedPublish,
    consumable_rtp_parameters: &RtpStream,
    upload_encodings: &Vec<SessionUploadEncoding>,
) -> (r: PublishedSourceDescriptor)
    requires
        old(sources).wf(),
        old(sources).upcoming() < u64::MAX,
        old(sources).upcoming_encoding() + consumable_rtp_parameters.bindings@.len() <= u64::MAX,
    ensures
        final(sources).wf(),
        final(sources)@ == old(sources)@,
        final(sources).upcoming() == old(sources).upcoming() + 1,
        final(sources).upcoming_encoding() == old(sources).upcoming_encoding()
            + consumable_rtp_parameters.bindings@.len(),
        describes_publication(
            r,
            *publish,
            *consumable_rtp_parameters,
            upload_encodings@,
            old(sources).upcoming(),
            old(sources).upcoming_encoding(),
        ),
{
    let ghost first = sources.upcoming_encoding();
    let ghost start = *sources;
    let source_id = sources.allocate_id();
    let rtp = consumable_rtp_parameters;
    let mut encodings: Vec<SourceEncodingDescriptor> = Vec::new();
    let mut i: usize = 0;
    while i < rtp.bindings.len()
        invariant
            i <= rtp.bindings@.len(),
            sources.wf(),
            sources@ == start@,
            sources.upcoming() == start.upcoming() + 1,
            sources.upcoming_encoding() == first + i,
            first + rtp.bindings@.len() <= u64::MAX,
            encodings@.len() == i,
            forall|j: int|
                0 <= j < i ==> describes(
                    #[trigger] encodings@[j],
                    rtp.bindings@[j],
                    first + j,
                    source_id,
                    upload_encodings@,
                    rtp.formats@,
                ),
        decreases rtp.bindings@.len() - i,
    {
        let encoding_id = sources.allocate_encoding_id();
        let encoding = describe_encoding(
            encoding_id,
            source_id,
            &rtp.bindings[i],
            rtp,
            upload_encodings,
        );
        encodings.push(encoding);
        i = i + 1;
    }
    PublishedSourceDescriptor {
        source_id,
        owner: publish.session_key.user.clone(),
        stream_id: publish.stream_id.clone(),
        media_kind: publish.media_kind,
        policy: publish.policy,
        mid: clone_text(&rtp.mid),
        encodings,
    }
}

} // verus!
