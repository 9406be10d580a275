//! Publications, their encodings, and what receivers ask of them.

use vstd::prelude::*;

use crate::ids::{PublishedSourceId, SourceEncodingId, UserId, UserStreamId};

verus! {

/// Kind of a medium.
#[derive(Debug, Clone, Copy, PartialEq, Eq, Structural)]
pub enum MediaKind {
    Audio,
    Video,
}

/// A bit rate in bits per second.
#[derive(Debug, Clone, Copy, PartialEq, Eq, PartialOrd, Ord, Structural)]
pub struct Bitrate(pub u64);

impl Bitrate {
    pub fn from_bps(bps: u64) -> (r: Self)
        ensures
            r == Bitrate(bps),
    {
        Bitrate(bps)
    }

    /// A rate given in thousands of bits per second, at most the largest rate.
    pub fn from_kbps(kbps: u64) -> (r: Self)
        ensures
            kbps * 1000 <= u64::MAX ==> r.0 == kbps * 1000,
            kbps * 1000 > u64::MAX ==> r.0 == u64::MAX,
    {
        match kbps.checked_mul(1000) {
            Some(bps) => Bitrate(bps),
            None => Bitrate(u64::MAX),
        }
    }

    pub fn as_bps(self) -> (r: u64)
        ensures
            r == self.0,
    {
        self.0
    }
}

/// A point of a monotonic clock, in nanoseconds since the clock's origin.
#[derive(Debug, Clone, Copy, PartialEq, Eq, PartialOrd, Ord, Structural)]
pub struct Moment(pub u128);

/// How a receiver asks to show a video source.
#[derive(Debug, Clone, Copy, PartialEq, Eq, Structural)]
pub enum VideoLayoutIntent {
    Pinned,
    Featured,
    Visible,
    Hidden,
}

/// Sparse receiver intent: an absent field leaves what was asked before.
#[derive(Debug, Clone, Copy, PartialEq, Eq)]
pub struct SourceSubscriptionIntent {
    pub active: Option<bool>,
    pub layout: Option<VideoLayoutIntent>,
}

impl SourceSubscriptionIntent {
    pub open spec fn nothing() -> Self {
        SourceSubscriptionIntent { active: None, layout: None }
    }

    /// Fields of `update` where it has them, and those of `self` elsewhere.
    pub open spec fn merged(self, update: Self) -> Self {
        SourceSubscriptionIntent {
            active: if update.active is Some {
                update.active
            } else {
                self.active
            },
            layout: if update.layout is Some {
                update.layout
            } else {
                self.layout
            },
        }
    }

    /// Receivers want a source unless they said otherwise.
    pub open spec fn wants(self) -> bool {
        match self.active {
            Some(active) => active,
            None => true,
        }
    }

    pub fn new(active: Option<bool>, layout: Option<VideoLayoutIntent>) -> (r: Self)
        ensures
            r == (SourceSubscriptionIntent { active, layout }),
    {
        SourceSubscriptionIntent { active, layout }
    }

    pub fn is_empty(&self) -> (r: bool)
        ensures
            r == (*self == Self::nothing()),
    {
        self.active.is_none() && self.layout.is_none()
    }

    pub fn active(&self) -> (r: Option<bool>)
        ensures
            r == self.active,
    {
        self.active
    }

    pub fn layout(&self) -> (r: Option<VideoLayoutIntent>)
        ensures
            r == self.layout,
    {
        self.layout
    }

    pub fn active_or_default(&self) -> (r: bool)
        ensures
            r == self.wants(),
    {
        match self.active {
            Some(active) => active,
            None => true,
        }
    }

    pub fn merge(&mut self, update: Self)
        ensures
            *final(self) == old(self).merged(update),
    {
        if update.active.is_some() {
            self.active = update.active;
        }
        if update.layout.is_some() {
            self.layout = update.layout;
        }
    }
}

impl Default for SourceSubscriptionIntent {
    fn default() -> (r: Self)
        ensures
            r == Self::nothing(),
    {
        SourceSubscriptionIntent { active: None, layout: None }
    }
}

/// Which packets of a source reach a receiver.
#[derive(Debug, Clone, Copy, PartialEq, Eq, Structural)]
pub enum SourceSelector {
    /// Every encoding.
    Open,
    /// One encoding.
    Encoding(SourceEncodingId),
}

impl SourceSelector {
    pub open spec fn encoding(self) -> Option<SourceEncodingId> {
        match self {
            SourceSelector::Open => None,
            SourceSelector::Encoding(id) => Some(id),
        }
    }

    pub fn selected_encoding(self) -> (r: Option<SourceEncodingId>)
        ensures
            r == self.encoding(),
    {
        match self {
            SourceSelector::Open => None,
            SourceSelector::Encoding(id) => Some(id),
        }
    }
}

/// Why policy withholds a source that a receiver wants.
#[derive(Debug, Clone, Copy, PartialEq, Eq, Structural)]
pub enum PolicyPauseReason {
    BudgetPressure,
    HiddenTile,
    OverflowTile,
    MissingUsableLayer,
    AudioSpeakerLimit,
    ReceiverDeafened,
    VideoDownloadLimit,
    SourceBitrateLimit,
}

/// What the video budget of a receiver looked like at its last evaluation.
#[derive(Debug, Clone, Copy, PartialEq, Eq)]
pub struct ReceiverVideoBudgetDiagnostics {
    pub latest_receiver_bandwidth: Option<Bitrate>,
    pub selected_video_budget: Option<Bitrate>,
    pub active_video_route_count: usize,
    pub selected_video_bitrate: Bitrate,
}

impl ReceiverVideoBudgetDiagnostics {
    pub open spec fn unknown() -> Self {
        ReceiverVideoBudgetDiagnostics {
            latest_receiver_bandwidth: None,
            selected_video_budget: None,
            active_video_route_count: 0,
            selected_video_bitrate: Bitrate(0),
        }
    }

    pub fn new(
        latest_receiver_bandwidth: Option<Bitrate>,
        selected_video_budget: Option<Bitrate>,
        active_video_route_count: usize,
        selected_video_bitrate: Bitrate,
    ) -> (r: Self)
        ensures
            r == (ReceiverVideoBudgetDiagnostics {
                latest_receiver_bandwidth,
                selected_video_budget,
                active_video_route_count,
                selected_video_bitrate,
            }),
    {
        ReceiverVideoBudgetDiagnostics {
            latest_receiver_bandwidth,
            selected_video_budget,
            active_video_route_count,
            selected_video_bitrate,
        }
    }
}

impl Default for ReceiverVideoBudgetDiagnostics {
    fn default() -> (r: Self)
        ensures
            r == Self::unknown(),
    {
        ReceiverVideoBudgetDiagnostics {
            latest_receiver_bandwidth: None,
            selected_video_budget: None,
            active_video_route_count: 0,
            selected_video_bitrate: Bitrate(0),
        }
    }
}

/// A receiver's intent for an attached source, and what policy makes of it.
#[derive(Debug, Clone, Copy, PartialEq, Eq)]
pub struct ConsumerSourceSelection {
    pub active: bool,
    pub selector: SourceSelector,
    pub policy_pause_reason: Option<PolicyPauseReason>,
    pub budget: ReceiverVideoBudgetDiagnostics,
}

impl ConsumerSourceSelection {
    /// Every encoding, no policy pause.
    pub open spec fn opened(active: bool) -> Self {
        ConsumerSourceSelection {
            active,
            selector: SourceSelector::Open,
            policy_pause_reason: None,
            budget: ReceiverVideoBudgetDiagnostics::unknown(),
        }
    }

    /// The receiver wants the source and policy lets it through.
    pub open spec fn delivers(self) -> bool {
        self.active && self.policy_pause_reason is None
    }

    pub open spec fn with_active(self, active: bool) -> Self {
        ConsumerSourceSelection { active, ..self }
    }

    pub open spec fn with_pause(self, reason: PolicyPauseReason) -> Self {
        ConsumerSourceSelection { policy_pause_reason: Some(reason), ..self }
    }

    pub fn open(active: bool) -> (r: Self)
        ensures
            r == Self::opened(active),
    {
        ConsumerSourceSelection {
            active,
            selector: SourceSelector::Open,
            policy_pause_reason: None,
            budget: ReceiverVideoBudgetDiagnostics::default(),
        }
    }

    pub fn active(&self) -> (r: bool)
        ensures
            r == self.active,
    {
        self.active
    }

    pub fn selector(&self) -> (r: SourceSelector)
        ensures
            r == self.selector,
    {
        self.selector
    }

    pub fn policy_pause_reason(&self) -> (r: Option<PolicyPauseReason>)
        ensures
            r == self.policy_pause_reason,
    {
        self.policy_pause_reason
    }

    pub fn policy_allows_delivery(&self) -> (r: bool)
        ensures
            r == (self.policy_pause_reason is None),
    {
        self.policy_pause_reason.is_none()
    }

    pub fn delivery_active(&self) -> (r: bool)
        ensures
            r == self.delivers(),
    {
        self.active && self.policy_pause_reason.is_none()
    }

    pub fn budget(&self) -> (r: ReceiverVideoBudgetDiagnostics)
        ensures
            r == self.budget,
    {
        self.budget
    }

    pub fn set_active(&mut self, active: bool)
        ensures
            *final(self) == old(self).with_active(active),
    {
        self.active = active;
    }

    pub fn set_selector(&mut self, selector: SourceSelector)
        ensures
            *final(self) == (ConsumerSourceSelection { selector, ..*old(self) }),
    {
        self.selector = selector;
    }

    pub fn set_policy_pause_reason(&mut self, reason: Option<PolicyPauseReason>)
        ensures
            *final(self) == (ConsumerSourceSelection {
                policy_pause_reason: reason,
                ..*old(self)
            }),
    {
        self.policy_pause_reason = reason;
    }

    pub fn set_budget(&mut self, budget: ReceiverVideoBudgetDiagnostics)
        ensures
            *final(self) == (ConsumerSourceSelection { budget, ..*old(self) }),
    {
        self.budget = budget;
    }
}

/// Where the layout of a receiver places a video source.
#[derive(Debug, Clone, Copy, PartialEq, Eq, Structural)]
pub enum SourceRoomPolicySelector {
    Pinned,
    Featured,
    ReadableDetail,
    ActiveSpeaker,
    VisibleThumbnail,
    Hidden,
    Overflow,
}

/// Admission priority of a video route, the most important first.
#[derive(Debug, Clone, Copy, PartialEq, Eq, PartialOrd, Ord, Structural)]
pub enum SourceRoutePriority {
    PinnedOrFeatured,
    ReadableDetail,
    ActiveSpeaker,
    VisibleThumbnail,
    HiddenOrOverflow,
}

impl SourceRoutePriority {
    /// Position in the order of priorities.
    pub open spec fn position(self) -> nat {
        match self {
            SourceRoutePriority::PinnedOrFeatured => 0,
            SourceRoutePriority::ReadableDetail => 1,
            SourceRoutePriority::ActiveSpeaker => 2,
            SourceRoutePriority::VisibleThumbnail => 3,
            SourceRoutePriority::HiddenOrOverflow => 4,
        }
    }

    pub fn rank(self) -> (r: u8)
        ensures
            r == self.position(),
    {
        match self {
            SourceRoutePriority::PinnedOrFeatured => 0,
            SourceRoutePriority::ReadableDetail => 1,
            SourceRoutePriority::ActiveSpeaker => 2,
            SourceRoutePriority::VisibleThumbnail => 3,
            SourceRoutePriority::HiddenOrOverflow => 4,
        }
    }
}

impl SourceRoomPolicySelector {
    pub open spec fn route_priority(self) -> SourceRoutePriority {
        match self {
            SourceRoomPolicySelector::Pinned => SourceRoutePriority::PinnedOrFeatured,
            SourceRoomPolicySelector::Featured => SourceRoutePriority::PinnedOrFeatured,
            SourceRoomPolicySelector::ReadableDetail => SourceRoutePriority::ReadableDetail,
            SourceRoomPolicySelector::ActiveSpeaker => SourceRoutePriority::ActiveSpeaker,
            SourceRoomPolicySelector::VisibleThumbnail => SourceRoutePriority::VisibleThumbnail,
            SourceRoomPolicySelector::Hidden => SourceRoutePriority::HiddenOrOverflow,
            SourceRoomPolicySelector::Overflow => SourceRoutePriority::HiddenOrOverflow,
        }
    }

    pub fn priority(self) -> (r: SourceRoutePriority)
        ensures
            r == self.route_priority(),
    {
        match self {
            SourceRoomPolicySelector::Pinned => SourceRoutePriority::PinnedOrFeatured,
            SourceRoomPolicySelector::Featured => SourceRoutePriority::PinnedOrFeatured,
            SourceRoomPolicySelector::ReadableDetail => SourceRoutePriority::ReadableDetail,
            SourceRoomPolicySelector::ActiveSpeaker => SourceRoutePriority::ActiveSpeaker,
            SourceRoomPolicySelector::VisibleThumbnail => SourceRoutePriority::VisibleThumbnail,
            SourceRoomPolicySelector::Hidden => SourceRoutePriority::HiddenOrOverflow,
            SourceRoomPolicySelector::Overflow => SourceRoutePriority::HiddenOrOverflow,
        }
    }
}

/// Part a source plays in active-speaker detection.
#[derive(Debug, Clone, Copy, PartialEq, Eq, Structural)]
pub enum ActiveSpeakerSourceRole {
    /// Its audio level decides who speaks.
    Detector,
    /// It is promoted while its owner speaks.
    Promotable,
}

/// Active-speaker membership of a source.
#[derive(Debug, Clone, Copy, PartialEq, Eq, Structural)]
pub struct ActiveSpeakerPolicy {
    pub role: ActiveSpeakerSourceRole,
    pub group: u32,
}

/// Room policy of a source.
#[derive(Debug, Clone, Copy, PartialEq, Eq)]
pub struct SourcePolicy {
    /// Layout role while the receiver asks for none.
    pub layout: SourceRoomPolicySelector,
    pub active_speaker: Option<ActiveSpeakerPolicy>,
    pub video_bitrate_cap: Option<Bitrate>,
}

/// Role of an upload layer.
#[derive(Debug, Clone, Copy, PartialEq, Eq, Structural)]
pub enum UploadLayerPolicyRole {
    Featured,
    Thumbnail,
    DegradedThumbnail,
}

/// A negotiated RTP format.
#[derive(Debug, PartialEq, Eq)]
pub struct MediaFormat {
    pub payload_type: u8,
    pub codec: String,
    /// Carries retransmissions of another format.
    pub retransmission: bool,
}

impl Clone for MediaFormat {
    fn clone(&self) -> (r: Self)
        ensures
            r == *self,
    {
        MediaFormat {
            payload_type: self.payload_type,
            codec: self.codec.clone(),
            retransmission: self.retransmission,
        }
    }
}

/// Clones optional text.
pub fn clone_text(text: &Option<String>) -> (r: Option<String>)
    ensures
        r == *text,
{
    match text {
        Some(value) => Some(value.clone()),
        None => None,
    }
}

/// One encoding of a negotiated RTP stream.
#[derive(Debug, PartialEq, Eq)]
pub struct RtpBinding {
    pub rid: Option<String>,
    pub ssrc: Option<u32>,
    pub max_bitrate: Option<u64>,
    pub payload_type: Option<u8>,
}

/// A negotiated RTP stream.
#[derive(Debug, PartialEq, Eq)]
pub struct RtpStream {
    pub mid: Option<String>,
    pub bindings: Vec<RtpBinding>,
    pub formats: Vec<MediaFormat>,
}

/// RTP formats that an endpoint accepts.
#[derive(Debug, PartialEq, Eq)]
pub struct MediaCapabilities {
    pub formats: Vec<MediaFormat>,
}

/// One layer that a client announced for upload.
#[derive(Debug, PartialEq, Eq)]
pub struct SessionUploadEncoding {
    pub rid: String,
    pub max_bitrate: Option<Bitrate>,
    pub resolution_scale: Option<u16>,
    pub max_framerate: Option<u16>,
}

/// One encoding of a publication.
#[derive(Debug, PartialEq, Eq)]
pub struct SourceEncodingDescriptor {
    pub encoding_id: SourceEncodingId,
    pub source_id: PublishedSourceId,
    pub rid: Option<String>,
    pub primary_ssrc: Option<u32>,
    pub repair_ssrc: Option<u32>,
    pub max_bitrate: Option<Bitrate>,
    pub resolution_scale: Option<u16>,
    pub max_framerate: Option<u16>,
    pub policy_role: Option<UploadLayerPolicyRole>,
    pub negotiated_format: Option<MediaFormat>,
}

/// A publication as receivers and diagnostics know it.
#[derive(Debug, PartialEq, Eq)]
pub struct PublishedSourceDescriptor {
    pub source_id: PublishedSourceId,
    pub owner: UserId,
    pub stream_id: UserStreamId,
    pub media_kind: MediaKind,
    pub policy: SourcePolicy,
    pub mid: Option<String>,
    pub encodings: Vec<SourceEncodingDescriptor>,
}

/// A request to publish a stream.
#[derive(Debug, PartialEq, Eq)]
pub struct SourcePublishIntent {
    pub stream_id: UserStreamId,
    pub media_kind: MediaKind,
    pub policy: SourcePolicy,
    pub presence: Option<UserInfo>,
}

/// Presence of a user. In an update an absent field leaves what is known.
#[derive(Debug, Clone, Copy, PartialEq, Eq)]
pub struct UserInfo {
    pub is_raising_hand: Option<bool>,
    pub is_self_muted: Option<bool>,
    pub is_deaf: Option<bool>,
    pub is_camera_on: Option<bool>,
    pub is_screen_sharing_on: Option<bool>,
    pub is_featured: Option<bool>,
}

impl UserInfo {
    pub open spec fn nothing() -> Self {
        UserInfo {
            is_raising_hand: None,
            is_self_muted: None,
            is_deaf: None,
            is_camera_on: None,
            is_screen_sharing_on: None,
            is_featured: None,
        }
    }

    pub open spec fn merged(self, update: Self) -> Self {
        UserInfo {
            is_raising_hand: newer(self.is_raising_hand, update.is_raising_hand),
            is_self_muted: newer(self.is_self_muted, update.is_self_muted),
            is_deaf: newer(self.is_deaf, update.is_deaf),
            is_camera_on: newer(self.is_camera_on, update.is_camera_on),
            is_screen_sharing_on: newer(self.is_screen_sharing_on, update.is_screen_sharing_on),
            is_featured: newer(self.is_featured, update.is_featured),
        }
    }

    /// What a client may say of itself: publications decide on camera and screen.
    pub open spec fn self_reported(self) -> Self {
        UserInfo { is_camera_on: None, is_screen_sharing_on: None, ..self }
    }

    pub fn merge(self, update: Self) -> (r: Self)
        ensures
            r == self.merged(update),
    {
        UserInfo {
            is_raising_hand: newer_flag(self.is_raising_hand, update.is_raising_hand),
            is_self_muted: newer_flag(self.is_self_muted, update.is_self_muted),
            is_deaf: newer_flag(self.is_deaf, update.is_deaf),
            is_camera_on: newer_flag(self.is_camera_on, update.is_camera_on),
            is_screen_sharing_on: newer_flag(
                self.is_screen_sharing_on,
                update.is_screen_sharing_on,
            ),
            is_featured: newer_flag(self.is_featured, update.is_featured),
        }
    }

    pub fn without_publication_flags(self) -> (r: Self)
        ensures
            r == self.self_reported(),
    {
        UserInfo { is_camera_on: None, is_screen_sharing_on: None, ..self }
    }
}

impl Default for UserInfo {
    fn default() -> (r: Self)
        ensures
            r == Self::nothing(),
    {
        UserInfo {
            is_raising_hand: None,
            is_self_muted: None,
            is_deaf: None,
            is_camera_on: None,
            is_screen_sharing_on: None,
            is_featured: None,
        }
    }
}

/// The flag of an update, or the known one where the update has none.
pub open spec fn newer(known: Option<bool>, update: Option<bool>) -> Option<bool> {
    if update is Some {
        update
    } else {
        known
    }
}

fn newer_flag(known: Option<bool>, update: Option<bool>) -> (r: Option<bool>)
    ensures
        r == newer(known, update),
{
    if update.is_some() {
        update
    } else {
        known
    }
}

} // verus!
