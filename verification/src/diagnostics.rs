//! What diagnostics show of a room.
//!
//! Projections combine facts of a room with snapshots of its transport. Both were taken
//! at different times: a view is not an atomic picture.

use vstd::prelude::*;
use vstd::std_specs::convert::FromSpecImpl;
use crate::ids::{SourceEncodingId, TransportMediaId};
use crate::ord_map::OrdMap;
use crate::order::OrdKey;
use crate::route_graph::PendingUpgrade;
use crate::source_model::{
    clone_text, Bitrate, ConsumerSourceSelection, MediaKind, Moment, PolicyPauseReason,
    PublishedSourceDescriptor, SourceEncodingDescriptor, SourceRoomPolicySelector,
    SourceRoutePriority, SourceSelector, UploadLayerPolicyRole,
};
use crate::transport::{SessionIdentity, TransportSessionKey};

verus! {

/// The kind of a medium.
#[derive(Debug, Clone, Copy, PartialEq, Eq, Structural)]
pub enum DiagnosticsMediaKind {
    Audio,
    Video,
}

impl From<MediaKind> for DiagnosticsMediaKind {
    fn from(value: MediaKind) -> (r: Self) {
        match value {
            MediaKind::Audio => DiagnosticsMediaKind::Audio,
            MediaKind::Video => DiagnosticsMediaKind::Video,
        }
    }
}

impl FromSpecImpl<MediaKind> for DiagnosticsMediaKind {
    open spec fn obeys_from_spec() -> bool {
        true
    }

    open spec fn from_spec(value: MediaKind) -> Self {
        match value {
            MediaKind::Audio => DiagnosticsMediaKind::Audio,
            MediaKind::Video => DiagnosticsMediaKind::Video,
        }
    }
}

/// Why policy withholds a source.
#[derive(Debug, Clone, Copy, PartialEq, Eq, Structural)]
pub enum DiagnosticsPolicyPauseReason {
    BudgetPressure,
    HiddenTile,
    OverflowTile,
    MissingUsableLayer,
    AudioSpeakerLimit,
    ReceiverDeafened,
    VideoDownloadLimit,
    SourceBitrateLimit,
}

impl From<PolicyPauseReason> for DiagnosticsPolicyPauseReason {
    fn from(value: PolicyPauseReason) -> (r: Self) {
        match value {
            PolicyPauseReason::BudgetPressure => DiagnosticsPolicyPauseReason::BudgetPressure,
            PolicyPauseReason::HiddenTile => DiagnosticsPolicyPauseReason::HiddenTile,
            PolicyPauseReason::OverflowTile => DiagnosticsPolicyPauseReason::OverflowTile,
            PolicyPauseReason::MissingUsableLayer => DiagnosticsPolicyPauseReason::MissingUsableLayer,
            PolicyPauseReason::AudioSpeakerLimit => DiagnosticsPolicyPauseReason::AudioSpeakerLimit,
            PolicyPauseReason::ReceiverDeafened => DiagnosticsPolicyPauseReason::ReceiverDeafened,
            PolicyPauseReason::VideoDownloadLimit => DiagnosticsPolicyPauseReason::VideoDownloadLimit,
            PolicyPauseReason::SourceBitrateLimit => DiagnosticsPolicyPauseReason::SourceBitrateLimit,
        }
    }
}

impl FromSpecImpl<PolicyPauseReason> for DiagnosticsPolicyPauseReason {
    open spec fn obeys_from_spec() -> bool {
        true
    }

    open spec fn from_spec(value: PolicyPauseReason) -> Self {
        match value {
            PolicyPauseReason::BudgetPressure => DiagnosticsPolicyPauseReason::BudgetPressure,
            PolicyPauseReason::HiddenTile => DiagnosticsPolicyPauseReason::HiddenTile,
            PolicyPauseReason::OverflowTile => DiagnosticsPolicyPauseReason::OverflowTile,
            PolicyPauseReason::MissingUsableLayer => DiagnosticsPolicyPauseReason::MissingUsableLayer,
            PolicyPauseReason::AudioSpeakerLimit => DiagnosticsPolicyPauseReason::AudioSpeakerLimit,
            PolicyPauseReason::ReceiverDeafened => DiagnosticsPolicyPauseReason::ReceiverDeafened,
            PolicyPauseReason::VideoDownloadLimit => DiagnosticsPolicyPauseReason::VideoDownloadLimit,
            PolicyPauseReason::SourceBitrateLimit => DiagnosticsPolicyPauseReason::SourceBitrateLimit,
        }
    }
}

/// Where a layout places a source.
#[derive(Debug, Clone, Copy, PartialEq, Eq, Structural)]
pub enum DiagnosticsVideoLayoutRole {
    Pinned,
    Featured,
    ReadableDetail,
    ActiveSpeaker,
    VisibleThumbnail,
    Hidden,
    Overflow,
}

impl From<SourceRoomPolicySelector> for DiagnosticsVideoLayoutRole {
    fn from(value: SourceRoomPolicySelector) -> (r: Self) {
        match value {
            SourceRoomPolicySelector::Pinned => DiagnosticsVideoLayoutRole::Pinned,
            SourceRoomPolicySelector::Featured => DiagnosticsVideoLayoutRole::Featured,
            SourceRoomPolicySelector::ReadableDetail => DiagnosticsVideoLayoutRole::ReadableDetail,
            SourceRoomPolicySelector::ActiveSpeaker => DiagnosticsVideoLayoutRole::ActiveSpeaker,
            SourceRoomPolicySelector::VisibleThumbnail => DiagnosticsVideoLayoutRole::VisibleThumbnail,
            SourceRoomPolicySelector::Hidden => DiagnosticsVideoLayoutRole::Hidden,
            SourceRoomPolicySelector::Overflow => DiagnosticsVideoLayoutRole::Overflow,
        }
    }
}

impl FromSpecImpl<SourceRoomPolicySelector> for DiagnosticsVideoLayoutRole {
    open spec fn obeys_from_spec() -> bool {
        true
    }

    open spec fn from_spec(value: SourceRoomPolicySelector) -> Self {
        match value {
            SourceRoomPolicySelector::Pinned => DiagnosticsVideoLayoutRole::Pinned,
            SourceRoomPolicySelector::Featured => DiagnosticsVideoLayoutRole::Featured,
            SourceRoomPolicySelector::ReadableDetail => DiagnosticsVideoLayoutRole::ReadableDetail,
            SourceRoomPolicySelector::ActiveSpeaker => DiagnosticsVideoLayoutRole::ActiveSpeaker,
            SourceRoomPolicySelector::VisibleThumbnail => DiagnosticsVideoLayoutRole::VisibleThumbnail,
            SourceRoomPolicySelector::Hidden => DiagnosticsVideoLayoutRole::Hidden,
            SourceRoomPolicySelector::Overflow => DiagnosticsVideoLayoutRole::Overflow,
        }
    }
}

/// Admission priority of a video route.
#[derive(Debug, Clone, Copy, PartialEq, Eq, Structural)]
pub enum DiagnosticsVideoRoutePriority {
    PinnedOrFeatured,
    ReadableDetail,
    ActiveSpeaker,
    VisibleThumbnail,
    HiddenOrOverflow,
}

impl From<SourceRoutePriority> for DiagnosticsVideoRoutePriority {
    fn from(value: SourceRoutePriority) -> (r: Self) {
        match value {
            SourceRoutePriority::PinnedOrFeatured => DiagnosticsVideoRoutePriority::PinnedOrFeatured,
            SourceRoutePriority::ReadableDetail => DiagnosticsVideoRoutePriority::ReadableDetail,
            SourceRoutePriority::ActiveSpeaker => DiagnosticsVideoRoutePriority::ActiveSpeaker,
            SourceRoutePriority::VisibleThumbnail => DiagnosticsVideoRoutePriority::VisibleThumbnail,
            SourceRoutePriority::HiddenOrOverflow => DiagnosticsVideoRoutePriority::HiddenOrOverflow,
        }
    }
}

impl FromSpecImpl<SourceRoutePriority> for DiagnosticsVideoRoutePriority {
    open spec fn obeys_from_spec() -> bool {
        true
    }

    open spec fn from_spec(value: SourceRoutePriority) -> Self {
        match value {
            SourceRoutePriority::PinnedOrFeatured => DiagnosticsVideoRoutePriority::PinnedOrFeatured,
            SourceRoutePriority::ReadableDetail => DiagnosticsVideoRoutePriority::ReadableDetail,
            SourceRoutePriority::ActiveSpeaker => DiagnosticsVideoRoutePriority::ActiveSpeaker,
            SourceRoutePriority::VisibleThumbnail => DiagnosticsVideoRoutePriority::VisibleThumbnail,
            SourceRoutePriority::HiddenOrOverflow => DiagnosticsVideoRoutePriority::HiddenOrOverflow,
        }
    }
}

/// Whether a source speaks. As the transport reports it.
#[derive(Debug, Clone, Copy, PartialEq, Eq, Structural)]
pub enum ActiveSpeakerActivityState {
    Active,
    Idle,
    Blocked,
    RecentlyExpired,
}

/// Whether a source speaks.
#[derive(Debug, Clone, Copy, PartialEq, Eq, Structural)]
pub enum DiagnosticsActiveSpeakerState {
    Active,
    Idle,
    Blocked,
    RecentlyExpired,
}

impl From<ActiveSpeakerActivityState> for DiagnosticsActiveSpeakerState {
    fn from(value: ActiveSpeakerActivityState) -> (r: Self) {
        match value {
            ActiveSpeakerActivityState::Active => DiagnosticsActiveSpeakerState::Active,
            ActiveSpeakerActivityState::Idle => DiagnosticsActiveSpeakerState::Idle,
            ActiveSpeakerActivityState::Blocked => DiagnosticsActiveSpeakerState::Blocked,
            ActiveSpeakerActivityState::RecentlyExpired => DiagnosticsActiveSpeakerState::RecentlyExpired,
        }
    }
}

impl FromSpecImpl<ActiveSpeakerActivityState> for DiagnosticsActiveSpeakerState {
    open spec fn obeys_from_spec() -> bool {
        true
    }

    open spec fn from_spec(value: ActiveSpeakerActivityState) -> Self {
        match value {
            ActiveSpeakerActivityState::Active => DiagnosticsActiveSpeakerState::Active,
            ActiveSpeakerActivityState::Idle => DiagnosticsActiveSpeakerState::Idle,
            ActiveSpeakerActivityState::Blocked => DiagnosticsActiveSpeakerState::Blocked,
            ActiveSpeakerActivityState::RecentlyExpired => DiagnosticsActiveSpeakerState::RecentlyExpired,
        }
    }
}

/// What decided whether a source speaks. As the transport reports it.
#[derive(Debug, Clone, Copy, PartialEq, Eq, Structural)]
pub enum ActiveSpeakerActivityReason {
    Vad,
    AudioLevel,
    AudioLevelWarmup,
    VadFalse,
    LowNoise,
    BelowSpeechThreshold,
    MissingAudioMetadata,
    Expired,
    NoMetadata,
}

/// What decided whether a source speaks.
#[derive(Debug, Clone, Copy, PartialEq, Eq, Structural)]
pub enum DiagnosticsActiveSpeakerReason {
    Vad,
    AudioLevel,
    AudioLevelWarmup,
    VadFalse,
    LowNoise,
    BelowSpeechThreshold,
    MissingAudioMetadata,
    Expired,
    NoMetadata,
}

impl From<ActiveSpeakerActivityReason> for DiagnosticsActiveSpeakerReason {
    fn from(value: ActiveSpeakerActivityReason) -> (r: Self) {
        match value {
            ActiveSpeakerActivityReason::Vad => DiagnosticsActiveSpeakerReason::Vad,
            ActiveSpeakerActivityReason::AudioLevel => DiagnosticsActiveSpeakerReason::AudioLevel,
            ActiveSpeakerActivityReason::AudioLevelWarmup => DiagnosticsActiveSpeakerReason::AudioLevelWarmup,
            ActiveSpeakerActivityReason::VadFalse => DiagnosticsActiveSpeakerReason::VadFalse,
            ActiveSpeakerActivityReason::LowNoise => DiagnosticsActiveSpeakerReason::LowNoise,
            ActiveSpeakerActivityReason::BelowSpeechThreshold => DiagnosticsActiveSpeakerReason::BelowSpeechThreshold,
            ActiveSpeakerActivityReason::MissingAudioMetadata => DiagnosticsActiveSpeakerReason::MissingAudioMetadata,
            ActiveSpeakerActivityReason::Expired => DiagnosticsActiveSpeakerReason::Expired,
            ActiveSpeakerActivityReason::NoMetadata => DiagnosticsActiveSpeakerReason::NoMetadata,
        }
    }
}

impl FromSpecImpl<ActiveSpeakerActivityReason> for DiagnosticsActiveSpeakerReason {
    open spec fn obeys_from_spec() -> bool {
        true
    }

    open spec fn from_spec(value: ActiveSpeakerActivityReason) -> Self {
        match value {
            ActiveSpeakerActivityReason::Vad => DiagnosticsActiveSpeakerReason::Vad,
            ActiveSpeakerActivityReason::AudioLevel => DiagnosticsActiveSpeakerReason::AudioLevel,
            ActiveSpeakerActivityReason::AudioLevelWarmup => DiagnosticsActiveSpeakerReason::AudioLevelWarmup,
            ActiveSpeakerActivityReason::VadFalse => DiagnosticsActiveSpeakerReason::VadFalse,
            ActiveSpeakerActivityReason::LowNoise => DiagnosticsActiveSpeakerReason::LowNoise,
            ActiveSpeakerActivityReason::BelowSpeechThreshold => DiagnosticsActiveSpeakerReason::BelowSpeechThreshold,
            ActiveSpeakerActivityReason::MissingAudioMetadata => DiagnosticsActiveSpeakerReason::MissingAudioMetadata,
            ActiveSpeakerActivityReason::Expired => DiagnosticsActiveSpeakerReason::Expired,
            ActiveSpeakerActivityReason::NoMetadata => DiagnosticsActiveSpeakerReason::NoMetadata,
        }
    }
}

/// Whole milliseconds of a span in nanoseconds; what does not fit is the largest number.
pub open spec fn millis(nanos: u128) -> u64 {
    if nanos / 1_000_000 > u64::MAX {
        u64::MAX
    } else {
        (nanos / 1_000_000) as u64
    }
}

pub fn duration_millis(nanos: u128) -> (r: u64)
    ensures
        r == millis(nanos),
{
    let whole: u128 = nanos / 1_000_000;
    if whole > u64::MAX as u128 {
        u64::MAX
    } else {
        whole as u64
    }
}

/// Nanoseconds until a deadline; none once it has passed.
pub open spec fn remaining(deadline: Moment, now: Moment) -> u128 {
    if deadline.0 > now.0 {
        (deadline.0 - now.0) as u128
    } else {
        0
    }
}

pub fn time_until(deadline: Moment, now: Moment) -> (r: u128)
    ensures
        r == remaining(deadline, now),
{
    deadline.0.saturating_sub(now.0)
}

/// The sum of a tally that stops at the largest number.
pub open spec fn capped(sum: int) -> u64 {
    if sum > u64::MAX {
        u64::MAX
    } else {
        sum as u64
    }
}

/// Whether the transport of a session is connected.
#[derive(Debug, Clone, Copy, PartialEq, Eq, Structural)]
pub enum TransportSessionHealth {
    Connected,
    Disconnected,
}

/// Health of the sessions that the transport knows.
pub type TransportHealthSnapshot = OrdMap<TransportSessionKey, TransportSessionHealth>;

/// Health of a session; nothing where the transport does not know it.
pub open spec fn health_of(
    health: Map<SessionIdentity, TransportSessionHealth>,
    key: SessionIdentity,
) -> Option<TransportSessionHealth> {
    if health.contains_key(key) {
        Some(health[key])
    } else {
        None
    }
}

pub fn session_health(health: &TransportHealthSnapshot, key: &TransportSessionKey) -> (r: Option<
    TransportSessionHealth,
>)
    requires
        health.wf(),
    ensures
        r == health_of(health@, key.id()),
{
    match health.get(key) {
        Some(known) => Some(*known),
        None => None,
    }
}

/// Number of the listed sessions with this health.
pub open spec fn with_health(
    keys: Seq<TransportSessionKey>,
    health: Map<SessionIdentity, TransportSessionHealth>,
    wanted: Option<TransportSessionHealth>,
) -> nat
    decreases keys.len(),
{
    if keys.len() == 0 {
        0
    } else {
        let before = with_health(keys.drop_last(), health, wanted);
        if health_of(health, keys.last().id()) == wanted {
            before + 1
        } else {
            before
        }
    }
}

/// Sessions of a room by their health.
#[derive(Debug, Clone, Copy, PartialEq, Eq, Structural)]
pub struct DiagnosticsTransportCounts {
    pub connected: usize,
    pub disconnected: usize,
    pub unknown: usize,
    pub total: usize,
}

/// Counts sessions by their health.
pub fn count_health(keys: &Vec<TransportSessionKey>, health: &TransportHealthSnapshot) -> (r:
    DiagnosticsTransportCounts)
    requires
        health.wf(),
    ensures
        r.connected == with_health(keys@, health@, Some(TransportSessionHealth::Connected)),
        r.disconnected == with_health(keys@, health@, Some(TransportSessionHealth::Disconnected)),
        r.unknown == with_health(keys@, health@, None),
        r.total == keys@.len(),
        r.connected + r.disconnected + r.unknown == r.total,
{
    let mut counts = DiagnosticsTransportCounts {
        connected: 0,
        disconnected: 0,
        unknown: 0,
        total: keys.len(),
    };
    let mut i: usize = 0;
    proof {
        assert(keys@.take(0) =~= Seq::<TransportSessionKey>::empty());
    }
    while i < keys.len()
        invariant
            health.wf(),
            i <= keys@.len(),
            counts.total == keys@.len(),
            counts.connected + counts.disconnected + counts.unknown == i,
            counts.connected == with_health(
                keys@.take(i as int),
                health@,
                Some(TransportSessionHealth::Connected),
            ),
            counts.disconnected == with_health(
                keys@.take(i as int),
                health@,
                Some(TransportSessionHealth::Disconnected),
            ),
            counts.unknown == with_health(keys@.take(i as int), health@, None),
        decreases keys@.len() - i,
    {
        proof {
            assert(keys@.take(i + 1).drop_last() =~= keys@.take(i as int));
            assert(keys@.take(i + 1).last() == keys@[i as int]);
        }
        match session_health(health, &keys[i]) {
            Some(TransportSessionHealth::Connected) => {
                counts.connected = counts.connected + 1;
            },
            Some(TransportSessionHealth::Disconnected) => {
                counts.disconnected = counts.disconnected + 1;
            },
            None => {
                counts.unknown = counts.unknown + 1;
            },
        }
        i = i + 1;
    }
    proof {
        assert(keys@.take(i as int) =~= keys@);
    }
    counts
}

/// Incoming bitrates that the transport measured.
pub struct TransportBitrateSnapshot {
    pub total: Bitrate,
    pub per_media: OrdMap<TransportMediaId, Bitrate>,
}

/// Incoming bits per second of a medium; zero where none were measured.
pub open spec fn bps(per_media: Map<u64, Bitrate>, media: u64) -> u64 {
    if per_media.contains_key(media) {
        per_media[media].0
    } else {
        0
    }
}

pub fn media_bitrate(per_media: &OrdMap<TransportMediaId, Bitrate>, media: u64) -> (r: u64)
    requires
        per_media.wf(),
    ensures
        r == bps(per_media@, media),
{
    match per_media.get(&TransportMediaId(media)) {
        Some(bitrate) => bitrate.as_bps(),
        None => 0,
    }
}

/// A publication of a user.
#[derive(Debug, PartialEq, Eq)]
pub struct DiagnosticsPublication {
    pub active: bool,
    pub encoding_ids: Vec<u64>,
    pub media_kind: DiagnosticsMediaKind,
    pub source_id: u64,
    pub stream_id: String,
    pub transport_media_id: Option<u64>,
}

/// Incoming bitrates of a user.
pub struct DiagnosticsIncomingBitrate {
    pub total: u64,
    pub by_stream_bps: OrdMap<String, u64>,
}

/// Incoming bits per second of a publication.
pub open spec fn publication_bps(
    publication: DiagnosticsPublication,
    per_media: Map<u64, Bitrate>,
) -> u64 {
    match publication.transport_media_id {
        Some(media) => bps(per_media, media),
        None => 0,
    }
}

/// Incoming bits per second of the publications of a stream, or of all.
pub open spec fn publications_bps(
    publications: Seq<DiagnosticsPublication>,
    per_media: Map<u64, Bitrate>,
    stream: Option<Seq<char>>,
) -> nat
    decreases publications.len(),
{
    if publications.len() == 0 {
        0
    } else {
        let before = publications_bps(publications.drop_last(), per_media, stream);
        if stream is None || stream == Some(publications.last().stream_id@) {
            before + publication_bps(publications.last(), per_media) as nat
        } else {
            before
        }
    }
}

/// One of the publications carries the stream.
pub open spec fn carries(publications: Seq<DiagnosticsPublication>, stream: Seq<char>) -> bool {
    exists|i: int|
        0 <= i < publications.len() && (#[trigger] publications[i]).stream_id@ == stream
}

/// Adds up the incoming bitrates of publications, in all and by stream.
pub fn incoming_bitrate(
    publications: &Vec<DiagnosticsPublication>,
    per_media: &OrdMap<TransportMediaId, Bitrate>,
) -> (r: DiagnosticsIncomingBitrate)
    requires
        per_media.wf(),
    ensures
        r.by_stream_bps.wf(),
        r.total == capped(publications_bps(publications@, per_media@, None) as int),
        forall|stream: Seq<char>| #[trigger]
            r.by_stream_bps@.contains_key(stream) <==> carries(publications@, stream),
        forall|stream: Seq<char>| #[trigger]
            r.by_stream_bps@.contains_key(stream) ==> r.by_stream_bps@[stream] == capped(
                publications_bps(publications@, per_media@, Some(stream)) as int,
            ),
{
    let mut total: u64 = 0;
    let mut by_stream_bps: OrdMap<String, u64> = OrdMap::new();
    let mut i: usize = 0;
    proof {
        assert(publications@.take(0) =~= Seq::<DiagnosticsPublication>::empty());
    }
    while i < publications.len()
        invariant
            per_media.wf(),
            i <= publications@.len(),
            by_stream_bps.wf(),
            total == capped(publications_bps(publications@.take(i as int), per_media@, None) as int),
            forall|stream: Seq<char>| #[trigger]
                by_stream_bps@.contains_key(stream) <==> carries(
                    publications@.take(i as int),
                    stream,
                ),
            forall|stream: Seq<char>|
                (#[trigger] publications_bps(publications@.take(i as int), per_media@, Some(stream)))
                    == 0 || by_stream_bps@.contains_key(stream),
            forall|stream: Seq<char>| #[trigger]
                by_stream_bps@.contains_key(stream) ==> by_stream_bps@[stream] == capped(
                    publications_bps(publications@.take(i as int), per_media@, Some(stream)) as int,
                ),
        decreases publications@.len() - i,
    {
        let ghost earlier = publications@.take(i as int);
        let ghost done = publications@.take(i + 1);
        let ghost before = by_stream_bps@;
        let publication = &publications[i];
        proof {
            assert(done.drop_last() =~= earlier);
            assert(done.last() == *publication);
        }
        let bitrate: u64 = match publication.transport_media_id {
            Some(media) => media_bitrate(per_media, media),
            None => 0,
        };
        total = total.saturating_add(bitrate);
        let known: u64 = match by_stream_bps.get(&publication.stream_id) {
            Some(known) => *known,
            None => 0,
        };
        by_stream_bps.insert(publication.stream_id.clone(), known.saturating_add(bitrate));
        proof {
            let own = publication.stream_id@;
            assert(publications_bps(earlier, per_media@, Some(own)) == 0 || before.contains_key(own));
            assert forall|stream: Seq<char>| #[trigger]
                by_stream_bps@.contains_key(stream) <==> carries(done, stream) by {
                if carries(done, stream) {
                    let j = choose|j: int|
                        0 <= j < done.len() && (#[trigger] done[j]).stream_id@ == stream;
                    if j < i {
                        assert(earlier[j].stream_id@ == stream);
                        assert(carries(earlier, stream));
                    }
                }
                if by_stream_bps@.contains_key(stream) {
                    if stream == own {
                        assert(done[i as int].stream_id@ == stream);
                    } else {
                        assert(before.contains_key(stream));
                        let j = choose|j: int|
                            0 <= j < earlier.len() && (#[trigger] earlier[j]).stream_id@ == stream;
                        assert(done[j].stream_id@ == stream);
                    }
                }
            }
            assert forall|stream: Seq<char>|
                (#[trigger] publications_bps(done, per_media@, Some(stream))) == 0
                    || by_stream_bps@.contains_key(stream) by {
                if stream != own {
                    assert(publications_bps(done, per_media@, Some(stream)) == publications_bps(
                        earlier,
                        per_media@,
                        Some(stream),
                    ));
                }
            }
        }
        i = i + 1;
    }
    proof {
        assert(publications@.take(i as int) =~= publications@);
    }
    DiagnosticsIncomingBitrate { total, by_stream_bps }
}

/// Quality that the transport sampled.
#[derive(Debug, Clone, Copy, PartialEq, Eq, Structural)]
pub struct TransportQualitySample {
    pub sample_count: u64,
    pub latest_bwe_bps: Option<u64>,
    pub rtt_ms: Option<u64>,
    pub ingress_loss_ppm: Option<u32>,
    pub egress_loss_ppm: Option<u32>,
    pub egress_jitter_rtp_timestamp_units: Option<u32>,
}

impl TransportQualitySample {
    /// Nothing was sampled.
    pub open spec fn nothing() -> Self {
        TransportQualitySample {
            sample_count: 0,
            latest_bwe_bps: None,
            rtt_ms: None,
            ingress_loss_ppm: None,
            egress_loss_ppm: None,
            egress_jitter_rtp_timestamp_units: None,
        }
    }
}

impl Default for TransportQualitySample {
    fn default() -> (r: Self)
        ensures
            r == Self::nothing(),
    {
        TransportQualitySample {
            sample_count: 0,
            latest_bwe_bps: None,
            rtt_ms: None,
            ingress_loss_ppm: None,
            egress_loss_ppm: None,
            egress_jitter_rtp_timestamp_units: None,
        }
    }
}

/// Sampled quality by session.
pub type TransportQualitySnapshot = OrdMap<TransportSessionKey, TransportQualitySample>;

/// Quality of a user's transport.
pub struct DiagnosticsQualitySummary {
    pub current_incoming_bitrate: DiagnosticsIncomingBitrate,
    pub sampled_metrics_available: bool,
    pub latest_bwe_bps: Option<u64>,
    pub rtt_ms: Option<u64>,
    pub ingress_loss_ppm: Option<u32>,
    pub egress_loss_ppm: Option<u32>,
    pub egress_jitter_rtp_timestamp_units: Option<u32>,
    pub sample_count: u64,
}

/// What a sample says of the quality; nothing was sampled where there is none.
pub open spec fn summarized_quality(
    current_incoming_bitrate: DiagnosticsIncomingBitrate,
    quality: Option<TransportQualitySample>,
) -> DiagnosticsQualitySummary {
    let sample = match quality {
        Some(sample) => sample,
        None => TransportQualitySample::nothing(),
    };
    DiagnosticsQualitySummary {
        current_incoming_bitrate,
        sampled_metrics_available: sample.sample_count > 0,
        latest_bwe_bps: sample.latest_bwe_bps,
        rtt_ms: sample.rtt_ms,
        ingress_loss_ppm: sample.ingress_loss_ppm,
        egress_loss_ppm: sample.egress_loss_ppm,
        egress_jitter_rtp_timestamp_units: sample.egress_jitter_rtp_timestamp_units,
        sample_count: sample.sample_count,
    }
}

pub fn quality_summary(
    current_incoming_bitrate: DiagnosticsIncomingBitrate,
    quality: Option<TransportQualitySample>,
) -> (r: DiagnosticsQualitySummary)
    ensures
        r == summarized_quality(current_incoming_bitrate, quality),
{
    let quality = match quality {
        Some(sample) => sample,
        None => TransportQualitySample::default(),
    };
    DiagnosticsQualitySummary {
        current_incoming_bitrate,
        sampled_metrics_available: quality.sample_count > 0,
        latest_bwe_bps: quality.latest_bwe_bps,
        rtt_ms: quality.rtt_ms,
        ingress_loss_ppm: quality.ingress_loss_ppm,
        egress_loss_ppm: quality.egress_loss_ppm,
        egress_jitter_rtp_timestamp_units: quality.egress_jitter_rtp_timestamp_units,
        sample_count: quality.sample_count,
    }
}

/// How a route chooses among encodings.
#[derive(Debug, Clone, Copy, PartialEq, Eq, Structural)]
pub enum DiagnosticsSourceSelector {
    Open,
    Encoding,
}

/// Why a route chooses as it does.
#[derive(Debug, Clone, Copy, PartialEq, Eq, Structural)]
pub enum DiagnosticsSourceSelectionReason {
    Open,
    ReceiverAdaptation,
}

/// A better encoding that has to stay possible for a while.
#[derive(Debug, Clone, Copy, PartialEq, Eq, Structural)]
pub struct DiagnosticsPendingUpgrade {
    pub selector: DiagnosticsSourceSelector,
    pub encoding_id: Option<u64>,
    pub remaining_ms: u64,
}

/// What a route delivers of a source.
#[derive(Debug, PartialEq, Eq)]
pub struct DiagnosticsSourceSelection {
    pub active: bool,
    pub active_video_route_count: usize,
    pub latest_receiver_bandwidth_estimate_bps: Option<u64>,
    pub policy_allows_delivery: bool,
    pub policy_pause_reason: Option<DiagnosticsPolicyPauseReason>,
    pub pending_upgrade: Option<DiagnosticsPendingUpgrade>,
    pub selection_reason: DiagnosticsSourceSelectionReason,
    pub selector: DiagnosticsSourceSelector,
    pub selected_estimated_bitrate_bps: Option<u64>,
    pub selected_video_bitrate_bps: u64,
    pub selected_video_budget_bps: Option<u64>,
    pub selected_encoding_id: Option<u64>,
    pub selected_rid: Option<String>,
}

/// Bits per second of an optional bitrate.
pub open spec fn optional_bps(bitrate: Option<Bitrate>) -> Option<u64> {
    match bitrate {
        Some(bitrate) => Some(bitrate.0),
        None => None,
    }
}

pub fn bps_of(bitrate: Option<Bitrate>) -> (r: Option<u64>)
    ensures
        r == optional_bps(bitrate),
{
    match bitrate {
        Some(bitrate) => Some(bitrate.as_bps()),
        None => None,
    }
}

/// Number of an optional encoding.
pub open spec fn optional_encoding(id: Option<SourceEncodingId>) -> Option<u64> {
    match id {
        Some(id) => Some(id.0),
        None => None,
    }
}

fn encoding_number(id: Option<SourceEncodingId>) -> (r: Option<u64>)
    ensures
        r == optional_encoding(id),
{
    match id {
        Some(id) => Some(id.0),
        None => None,
    }
}

pub open spec fn selector_kind(selector: SourceSelector) -> DiagnosticsSourceSelector {
    match selector {
        SourceSelector::Open => DiagnosticsSourceSelector::Open,
        SourceSelector::Encoding(_) => DiagnosticsSourceSelector::Encoding,
    }
}

fn kind_of_selector(selector: SourceSelector) -> (r: DiagnosticsSourceSelector)
    ensures
        r == selector_kind(selector),
{
    match selector {
        SourceSelector::Open => DiagnosticsSourceSelector::Open,
        SourceSelector::Encoding(_) => DiagnosticsSourceSelector::Encoding,
    }
}

/// The first of the encodings with this id.
pub open spec fn first_encoding(
    encodings: Seq<SourceEncodingDescriptor>,
    id: SourceEncodingId,
) -> Option<SourceEncodingDescriptor>
    decreases encodings.len(),
{
    if encodings.len() == 0 {
        None
    } else {
        match first_encoding(encodings.drop_last(), id) {
            Some(encoding) => Some(encoding),
            None => if encodings.last().encoding_id == id {
                Some(encodings.last())
            } else {
                None
            },
        }
    }
}

fn find_encoding(encodings: &Vec<SourceEncodingDescriptor>, id: SourceEncodingId) -> (r: Option<
    &SourceEncodingDescriptor,
>)
    ensures
        match r {
            Some(encoding) => first_encoding(encodings@, id) == Some(*encoding),
            None => first_encoding(encodings@, id) is None,
        },
{
    let mut found: Option<&SourceEncodingDescriptor> = None;
    let mut i: usize = 0;
    proof {
        assert(encodings@.take(0) =~= Seq::<SourceEncodingDescriptor>::empty());
    }
    while i < encodings.len()
        invariant
            i <= encodings@.len(),
            match found {
                Some(encoding) => first_encoding(encodings@.take(i as int), id) == Some(*encoding),
                None => first_encoding(encodings@.take(i as int), id) is None,
            },
        decreases encodings@.len() - i,
    {
        proof {
            assert(encodings@.take(i + 1).drop_last() =~= encodings@.take(i as int));
            assert(encodings@.take(i + 1).last() == encodings@[i as int]);
        }
        if found.is_none() && encodings[i].encoding_id == id {
            found = Some(&encodings[i]);
        }
        i = i + 1;
    }
    proof {
        assert(encodings@.take(i as int) =~= encodings@);
    }
    found
}

/// The encoding that a selection names, among those of the source.
pub open spec fn selected_encoding(
    source: PublishedSourceDescriptor,
    selector: SourceSelector,
) -> Option<SourceEncodingDescriptor> {
    match selector.encoding() {
        Some(id) => first_encoding(source.encodings@, id),
        None => None,
    }
}

/// What a selection delivers of a source.
pub open spec fn shown_selection(
    source: PublishedSourceDescriptor,
    selection: ConsumerSourceSelection,
    pending_upgrade: Option<PendingUpgrade>,
    now: Moment,
) -> DiagnosticsSourceSelection {
    let selected = selected_encoding(source, selection.selector);
    DiagnosticsSourceSelection {
        active: selection.active,
        active_video_route_count: selection.budget.active_video_route_count,
        latest_receiver_bandwidth_estimate_bps: optional_bps(
            selection.budget.latest_receiver_bandwidth,
        ),
        policy_allows_delivery: selection.policy_pause_reason is None,
        policy_pause_reason: match selection.policy_pause_reason {
            Some(reason) => Some(vstd::std_specs::convert::FromSpec::from_spec(reason)),
            None => None,
        },
        pending_upgrade: match pending_upgrade {
            Some(pending) => Some(
                DiagnosticsPendingUpgrade {
                    selector: selector_kind(pending.selector),
                    encoding_id: optional_encoding(pending.selector.encoding()),
                    remaining_ms: millis(remaining(pending.deadline, now)),
                },
            ),
            None => None,
        },
        selection_reason: match selection.selector {
            SourceSelector::Open => DiagnosticsSourceSelectionReason::Open,
            SourceSelector::Encoding(_) => DiagnosticsSourceSelectionReason::ReceiverAdaptation,
        },
        selector: selector_kind(selection.selector),
        selected_estimated_bitrate_bps: match selected {
            Some(encoding) => optional_bps(encoding.max_bitrate),
            None => None,
        },
        selected_video_bitrate_bps: selection.budget.selected_video_bitrate.0,
        selected_video_budget_bps: optional_bps(selection.budget.selected_video_budget),
        selected_encoding_id: optional_encoding(selection.selector.encoding()),
        selected_rid: match selected {
            Some(encoding) => encoding.rid,
            None => None,
        },
    }
}

pub fn selection(
    source: &PublishedSourceDescriptor,
    chosen: ConsumerSourceSelection,
    pending_upgrade: Option<PendingUpgrade>,
    now: Moment,
) -> (r: DiagnosticsSourceSelection)
    ensures
        r == shown_selection(*source, chosen, pending_upgrade, now),
{
    let selected_encoding_id = chosen.selector().selected_encoding();
    let budget = chosen.budget();
    let selected = match selected_encoding_id {
        Some(id) => find_encoding(&source.encodings, id),
        None => None,
    };
    let selection_reason = match chosen.selector() {
        SourceSelector::Open => DiagnosticsSourceSelectionReason::Open,
        SourceSelector::Encoding(_) => DiagnosticsSourceSelectionReason::ReceiverAdaptation,
    };
    DiagnosticsSourceSelection {
        active: chosen.active(),
        active_video_route_count: budget.active_video_route_count,
        latest_receiver_bandwidth_estimate_bps: bps_of(budget.latest_receiver_bandwidth),
        policy_allows_delivery: chosen.policy_allows_delivery(),
        policy_pause_reason: match chosen.policy_pause_reason() {
            Some(reason) => Some(DiagnosticsPolicyPauseReason::from(reason)),
            None => None,
        },
        pending_upgrade: match pending_upgrade {
            Some(pending) => Some(
                DiagnosticsPendingUpgrade {
                    selector: kind_of_selector(pending.selector),
                    encoding_id: encoding_number(pending.selector.selected_encoding()),
                    remaining_ms: duration_millis(time_until(pending.deadline, now)),
                },
            ),
            None => None,
        },
        selection_reason,
        selector: kind_of_selector(chosen.selector()),
        selected_estimated_bitrate_bps: match selected {
            Some(encoding) => bps_of(encoding.max_bitrate),
            None => None,
        },
        selected_video_bitrate_bps: budget.selected_video_bitrate.as_bps(),
        selected_video_budget_bps: bps_of(budget.selected_video_budget),
        selected_encoding_id: encoding_number(selected_encoding_id),
        selected_rid: match selected {
            Some(encoding) => clone_text(&encoding.rid),
            None => None,
        },
    }
}

/// Packets of one encoding, as the transport saw them. Ages are in nanoseconds.
#[derive(Debug, PartialEq, Eq)]
pub struct TransportRidActivity {
    pub rid: String,
    pub last_packet_age: u128,
    pub last_keyframe_age: Option<u128>,
}

/// Packets of one source, as the transport saw them. Ages are in nanoseconds.
#[derive(Debug, PartialEq, Eq)]
pub struct TransportSourceActivity {
    pub transport_media_id: TransportMediaId,
    pub last_packet_age: u128,
    pub last_keyframe_age: Option<u128>,
    pub rids: Vec<TransportRidActivity>,
}

/// Active-speaker detection of one source, as the transport saw it.
#[derive(Debug, Clone, Copy, PartialEq, Eq, Structural)]
pub struct ActiveSpeakerSourceDiagnostic {
    pub transport_media_id: TransportMediaId,
    pub state: ActiveSpeakerActivityState,
    pub reason: ActiveSpeakerActivityReason,
    pub last_audio_level_dbov: Option<i8>,
    pub confidence_observations: u32,
    /// Nanoseconds for which the speaker is still held.
    pub hold_remaining: Option<u128>,
}

/// Sources as the transport saw them. A later entry of a medium replaces an earlier one.
pub struct TransportSourceDiagnosticsSnapshot {
    pub activity: Vec<TransportSourceActivity>,
    pub active_speaker_diagnostics: Vec<ActiveSpeakerSourceDiagnostic>,
}

/// The last entry of a medium.
pub open spec fn last_activity(
    activity: Seq<TransportSourceActivity>,
    media: TransportMediaId,
) -> Option<TransportSourceActivity>
    decreases activity.len(),
{
    if activity.len() == 0 {
        None
    } else if activity.last().transport_media_id == media {
        Some(activity.last())
    } else {
        last_activity(activity.drop_last(), media)
    }
}

pub fn find_activity(activity: &Vec<TransportSourceActivity>, media: TransportMediaId) -> (r: Option<
    &TransportSourceActivity,
>)
    ensures
        match r {
            Some(found) => last_activity(activity@, media) == Some(*found),
            None => last_activity(activity@, media) is None,
        },
{
    let mut i: usize = activity.len();
    proof {
        assert(activity@.take(i as int) =~= activity@);
    }
    while i > 0
        invariant
            i <= activity@.len(),
            last_activity(activity@, media) == last_activity(activity@.take(i as int), media),
        decreases i,
    {
        proof {
            assert(activity@.take(i as int).drop_last() =~= activity@.take(i - 1));
            assert(activity@.take(i as int).last() == activity@[i - 1]);
        }
        i = i - 1;
        if activity[i].transport_media_id == media {
            return Some(&activity[i]);
        }
    }
    None
}

/// The last entry of a medium.
pub open spec fn last_speaker(
    diagnostics: Seq<ActiveSpeakerSourceDiagnostic>,
    media: TransportMediaId,
) -> Option<ActiveSpeakerSourceDiagnostic>
    decreases diagnostics.len(),
{
    if diagnostics.len() == 0 {
        None
    } else if diagnostics.last().transport_media_id == media {
        Some(diagnostics.last())
    } else {
        last_speaker(diagnostics.drop_last(), media)
    }
}

fn find_speaker(
    diagnostics: &Vec<ActiveSpeakerSourceDiagnostic>,
    media: TransportMediaId,
) -> (r: Option<ActiveSpeakerSourceDiagnostic>)
    ensures
        r == last_speaker(diagnostics@, media),
{
    let mut i: usize = diagnostics.len();
    proof {
        assert(diagnostics@.take(i as int) =~= diagnostics@);
    }
    while i > 0
        invariant
            i <= diagnostics@.len(),
            last_speaker(diagnostics@, media) == last_speaker(diagnostics@.take(i as int), media),
        decreases i,
    {
        proof {
            assert(diagnostics@.take(i as int).drop_last() =~= diagnostics@.take(i - 1));
            assert(diagnostics@.take(i as int).last() == diagnostics@[i - 1]);
        }
        i = i - 1;
        if diagnostics[i].transport_media_id == media {
            return Some(diagnostics[i]);
        }
    }
    None
}

/// The first entry of an encoding.
pub open spec fn first_rid(rids: Seq<TransportRidActivity>, rid: Seq<char>) -> Option<
    TransportRidActivity,
>
    decreases rids.len(),
{
    if rids.len() == 0 {
        None
    } else {
        match first_rid(rids.drop_last(), rid) {
            Some(found) => Some(found),
            None => if rids.last().rid@ == rid {
                Some(rids.last())
            } else {
                None
            },
        }
    }
}

/// Packets of one encoding of a source.
pub open spec fn activity_of_rid(
    activity: Option<TransportSourceActivity>,
    rid: Option<String>,
) -> Option<TransportRidActivity> {
    match (activity, rid) {
        (Some(activity), Some(rid)) => first_rid(activity.rids@, rid@),
        _ => None,
    }
}

pub fn rid_activity<'a>(activity: Option<&'a TransportSourceActivity>, rid: &Option<String>) -> (r:
    Option<&'a TransportRidActivity>)
    ensures
        match r {
            Some(found) => activity is Some && activity_of_rid(Some(*activity->0), *rid) == Some(
                *found,
            ),
            None => activity is None || activity_of_rid(Some(*activity->0), *rid) is None,
        },
{
    match (activity, rid) {
        (Some(activity), Some(rid)) => {
            let mut found: Option<&TransportRidActivity> = None;
            let mut i: usize = 0;
            proof {
                assert(activity.rids@.take(0) =~= Seq::<TransportRidActivity>::empty());
            }
            while i < activity.rids.len()
                invariant
                    i <= activity.rids@.len(),
                    match found {
                        Some(entry) => first_rid(activity.rids@.take(i as int), rid@) == Some(
                            *entry,
                        ),
                        None => first_rid(activity.rids@.take(i as int), rid@) is None,
                    },
                decreases activity.rids@.len() - i,
            {
                proof {
                    assert(activity.rids@.take(i + 1).drop_last() =~= activity.rids@.take(
                        i as int,
                    ));
                    assert(activity.rids@.take(i + 1).last() == activity.rids@[i as int]);
                }
                if found.is_none() && activity.rids[i].rid == *rid {
                    found = Some(&activity.rids[i]);
                }
                i = i + 1;
            }
            proof {
                assert(activity.rids@.take(i as int) =~= activity.rids@);
            }
            found
        },
        _ => None,
    }
}

/// One encoding of a source.
#[derive(Debug, PartialEq, Eq)]
pub struct DiagnosticsSourceEncoding {
    pub codec: Option<String>,
    pub encoding_id: u64,
    pub max_bitrate_bps: Option<u64>,
    pub resolution_scale: Option<u16>,
    pub max_framerate: Option<u16>,
    pub policy_role: Option<UploadLayerPolicyRole>,
    pub payload_type: Option<u8>,
    pub primary_ssrc: Option<u32>,
    pub repair_ssrc: Option<u32>,
    pub rid: Option<String>,
    pub last_packet_age_ms: Option<u64>,
    pub last_keyframe_age_ms: Option<u64>,
}

/// Milliseconds of an optional span.
pub open spec fn optional_millis(nanos: Option<u128>) -> Option<u64> {
    match nanos {
        Some(nanos) => Some(millis(nanos)),
        None => None,
    }
}

pub fn millis_of(nanos: Option<u128>) -> (r: Option<u64>)
    ensures
        r == optional_millis(nanos),
{
    match nanos {
        Some(nanos) => Some(duration_millis(nanos)),
        None => None,
    }
}

/// How an encoding is shown, given the packets of its source.
pub open spec fn shown_encoding(
    encoding: SourceEncodingDescriptor,
    activity: Option<TransportSourceActivity>,
) -> DiagnosticsSourceEncoding {
    let packets = activity_of_rid(activity, encoding.rid);
    DiagnosticsSourceEncoding {
        codec: match encoding.negotiated_format {
            Some(format) => Some(format.codec),
            None => None,
        },
        encoding_id: encoding.encoding_id.0,
        max_bitrate_bps: optional_bps(encoding.max_bitrate),
        resolution_scale: encoding.resolution_scale,
        max_framerate: encoding.max_framerate,
        policy_role: encoding.policy_role,
        payload_type: match encoding.negotiated_format {
            Some(format) => Some(format.payload_type),
            None => None,
        },
        primary_ssrc: encoding.primary_ssrc,
        repair_ssrc: encoding.repair_ssrc,
        rid: encoding.rid,
        last_packet_age_ms: match packets {
            Some(packets) => Some(millis(packets.last_packet_age)),
            None => None,
        },
        last_keyframe_age_ms: match packets {
            Some(packets) => optional_millis(packets.last_keyframe_age),
            None => None,
        },
    }
}

/// The referenced value.
pub open spec fn referenced(activity: Option<&TransportSourceActivity>) -> Option<
    TransportSourceActivity,
> {
    match activity {
        Some(activity) => Some(*activity),
        None => None,
    }
}

pub fn source_encoding(
    encoding: &SourceEncodingDescriptor,
    activity: Option<&TransportSourceActivity>,
) -> (r: DiagnosticsSourceEncoding)
    ensures
        r == shown_encoding(*encoding, referenced(activity)),
{
    let packets = rid_activity(activity, &encoding.rid);
    DiagnosticsSourceEncoding {
        codec: match &encoding.negotiated_format {
            Some(format) => Some(format.codec.clone()),
            None => None,
        },
        encoding_id: encoding.encoding_id.0,
        max_bitrate_bps: bps_of(encoding.max_bitrate),
        resolution_scale: encoding.resolution_scale,
        max_framerate: encoding.max_framerate,
        policy_role: encoding.policy_role,
        payload_type: match &encoding.negotiated_format {
            Some(format) => Some(format.payload_type),
            None => None,
        },
        primary_ssrc: encoding.primary_ssrc,
        repair_ssrc: encoding.repair_ssrc,
        rid: clone_text(&encoding.rid),
        last_packet_age_ms: match packets {
            Some(packets) => Some(duration_millis(packets.last_packet_age)),
            None => None,
        },
        last_keyframe_age_ms: match packets {
            Some(packets) => millis_of(packets.last_keyframe_age),
            None => None,
        },
    }
}

/// Active-speaker detection of a source.
#[derive(Debug, Clone, Copy, PartialEq, Eq, Structural)]
pub struct DiagnosticsActiveSpeaker {
    pub state: DiagnosticsActiveSpeakerState,
    pub reason: DiagnosticsActiveSpeakerReason,
    pub last_audio_level_dbov: Option<i8>,
    pub confidence_observations: u32,
    pub hold_remaining_ms: Option<u64>,
}

impl DiagnosticsActiveSpeaker {
    /// A source of which the transport saw nothing.
    pub open spec fn unseen() -> Self {
        DiagnosticsActiveSpeaker {
            state: DiagnosticsActiveSpeakerState::Idle,
            reason: DiagnosticsActiveSpeakerReason::NoMetadata,
            last_audio_level_dbov: None,
            confidence_observations: 0,
            hold_remaining_ms: None,
        }
    }

    pub fn idle() -> (r: Self)
        ensures
            r == Self::unseen(),
    {
        DiagnosticsActiveSpeaker {
            state: DiagnosticsActiveSpeakerState::Idle,
            reason: DiagnosticsActiveSpeakerReason::NoMetadata,
            last_audio_level_dbov: None,
            confidence_observations: 0,
            hold_remaining_ms: None,
        }
    }
}

/// How a detection is shown.
pub open spec fn shown_speaker(diagnostic: ActiveSpeakerSourceDiagnostic) -> DiagnosticsActiveSpeaker {
    DiagnosticsActiveSpeaker {
        state: vstd::std_specs::convert::FromSpec::from_spec(diagnostic.state),
        reason: vstd::std_specs::convert::FromSpec::from_spec(diagnostic.reason),
        last_audio_level_dbov: diagnostic.last_audio_level_dbov,
        confidence_observations: diagnostic.confidence_observations,
        hold_remaining_ms: optional_millis(diagnostic.hold_remaining),
    }
}

pub fn active_speaker_snapshot(diagnostic: ActiveSpeakerSourceDiagnostic) -> (r:
    DiagnosticsActiveSpeaker)
    ensures
        r == shown_speaker(diagnostic),
{
    DiagnosticsActiveSpeaker {
        state: DiagnosticsActiveSpeakerState::from(diagnostic.state),
        reason: DiagnosticsActiveSpeakerReason::from(diagnostic.reason),
        last_audio_level_dbov: diagnostic.last_audio_level_dbov,
        confidence_observations: diagnostic.confidence_observations,
        hold_remaining_ms: millis_of(diagnostic.hold_remaining),
    }
}

/// Detection of a source: audio sources have one, even where the transport saw nothing.
pub open spec fn speaker_of(
    kind: MediaKind,
    media: TransportMediaId,
    diagnostics: Seq<ActiveSpeakerSourceDiagnostic>,
) -> Option<DiagnosticsActiveSpeaker> {
    if kind == MediaKind::Audio {
        Some(
            match last_speaker(diagnostics, media) {
                Some(diagnostic) => shown_speaker(diagnostic),
                None => DiagnosticsActiveSpeaker::unseen(),
            },
        )
    } else {
        None
    }
}

pub fn active_speaker(
    source: &PublishedSourceDescriptor,
    media_id: TransportMediaId,
    diagnostics: &Vec<ActiveSpeakerSourceDiagnostic>,
) -> (r: Option<DiagnosticsActiveSpeaker>)
    ensures
        r == speaker_of(source.media_kind, media_id, diagnostics@),
{
    if source.media_kind != MediaKind::Audio {
        return None;
    }
    Some(
        match find_speaker(diagnostics, media_id) {
            Some(diagnostic) => active_speaker_snapshot(diagnostic),
            None => DiagnosticsActiveSpeaker::idle(),
        },
    )
}

} // verus!
