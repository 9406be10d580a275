//! Identity and configuration of a room.
//!
//! A room is known to clients by its issuer, its UUID and its key, and to the process
//! by its instance. What is fixed for the lifetime of a room stands here.

use vstd::prelude::*;

use crate::ids::RoomInstanceId;
use crate::placement::{RoomRuntimeContext, RoomWorkerPolicy};
use crate::source_model::MediaCapabilities;

verus! {

/// How many users a room admits at once.
#[derive(Debug, Clone, Copy, PartialEq, Eq, Structural)]
pub struct RoomAdmissionPolicy {
    pub max_sessions: usize,
}

impl RoomAdmissionPolicy {
    pub fn new(max_sessions: usize) -> (r: Self)
        ensures
            r == (RoomAdmissionPolicy { max_sessions }),
    {
        RoomAdmissionPolicy { max_sessions }
    }
}

/// Features that the runtime offers.
#[derive(Debug, Clone, Copy, PartialEq, Eq, Structural)]
pub struct RuntimeFeatureFlags {
    pub transcription: bool,
    pub audio_recording: bool,
    pub video_recording: bool,
}

/// Limits on the media of a room.
#[derive(Debug, Clone, Copy, PartialEq, Eq, Structural)]
pub struct RoomMediaLimits {
    pub max_audio_speakers: usize,
    pub max_video_downloads_per_receiver: usize,
}

/// Knobs of receiver video adaptation.
#[derive(Debug, Clone, Copy, PartialEq, Eq, Structural)]
pub struct VideoAdaptationTuning {
    /// How long a better encoding has to stay possible, in nanoseconds.
    pub upgrade_hold: u128,
}

/// Rules that are fixed for the lifetime of a room.
#[derive(Debug, PartialEq, Eq)]
pub struct RoomRuntimePolicy {
    pub admission_policy: RoomAdmissionPolicy,
    pub feature_flags: RuntimeFeatureFlags,
    pub router_rtp_capabilities: MediaCapabilities,
    pub room_worker_policy: RoomWorkerPolicy,
    pub media_limits: RoomMediaLimits,
    pub video_adaptation_tuning: VideoAdaptationTuning,
}

impl RoomRuntimePolicy {
    /// A policy with one router per room.
    pub fn new(
        admission_policy: RoomAdmissionPolicy,
        feature_flags: RuntimeFeatureFlags,
        router_rtp_capabilities: MediaCapabilities,
        media_limits: RoomMediaLimits,
        video_adaptation_tuning: VideoAdaptationTuning,
    ) -> (r: Self)
        ensures
            r.admission_policy == admission_policy,
            r.feature_flags == feature_flags,
            r.router_rtp_capabilities == router_rtp_capabilities,
            r.room_worker_policy.routers() == 1,
            r.room_worker_policy.threshold() == 1,
            r.media_limits == media_limits,
            r.video_adaptation_tuning == video_adaptation_tuning,
    {
        RoomRuntimePolicy {
            admission_policy,
            feature_flags,
            router_rtp_capabilities,
            room_worker_policy: RoomWorkerPolicy::strict_single_router(),
            media_limits,
            video_adaptation_tuning,
        }
    }

    pub fn with_room_worker_policy(self, room_worker_policy: RoomWorkerPolicy) -> (r: Self)
        ensures
            r == (RoomRuntimePolicy { room_worker_policy, ..self }),
    {
        let mut policy = self;
        policy.room_worker_policy = room_worker_policy;
        policy
    }

    pub fn with_media_limits(self, media_limits: RoomMediaLimits) -> (r: Self)
        ensures
            r == (RoomRuntimePolicy { media_limits, ..self }),
    {
        let mut policy = self;
        policy.media_limits = media_limits;
        policy
    }

    pub fn with_video_adaptation_tuning(
        self,
        video_adaptation_tuning: VideoAdaptationTuning,
    ) -> (r: Self)
        ensures
            r == (RoomRuntimePolicy { video_adaptation_tuning, ..self }),
    {
        let mut policy = self;
        policy.video_adaptation_tuning = video_adaptation_tuning;
        policy
    }
}

/// What a room is created with.
#[derive(Debug, PartialEq, Eq)]
pub struct RoomConfig {
    pub web_rtc_enabled: bool,
    pub recording_address: Option<String>,
}

impl Default for RoomConfig {
    fn default() -> (r: Self)
        ensures
            r.web_rtc_enabled,
            r.recording_address is None,
    {
        RoomConfig { web_rtc_enabled: true, recording_address: None }
    }
}

impl Clone for RoomConfig {
    fn clone(&self) -> (r: Self)
        ensures
            r == *self,
    {
        RoomConfig {
            web_rtc_enabled: self.web_rtc_enabled,
            recording_address: crate::source_model::clone_text(&self.recording_address),
        }
    }
}

/// Text of an optional string.
pub open spec fn optional_text(text: Option<String>) -> Option<Seq<char>> {
    match text {
        Some(text) => Some(text@),
        None => None,
    }
}

impl RoomConfig {
    /// Both ask for the same room.
    pub open spec fn agrees(&self, other: RoomConfig) -> bool {
        self.web_rtc_enabled == other.web_rtc_enabled && optional_text(self.recording_address)
            == optional_text(other.recording_address)
    }

    pub fn same_as(&self, other: &Self) -> (r: bool)
        ensures
            r == self.agrees(*other),
    {
        self.web_rtc_enabled == other.web_rtc_enabled && match (
            &self.recording_address,
            &other.recording_address,
        ) {
            (Some(own), Some(theirs)) => *own == *theirs,
            (None, None) => true,
            _ => false,
        }
    }
}

/// Features that a room offers its clients.
#[derive(Debug, Clone, Copy, PartialEq, Eq, Structural)]
pub struct AvailableFeatures {
    pub rtc: bool,
    pub transcription: bool,
    pub audio_recording: bool,
    pub video_recording: bool,
}

/// The key that a room was reserved with. It has no textual form.
#[derive(Clone)]
pub struct RoomKey(String);

impl RoomKey {
    pub closed spec fn secret(&self) -> Seq<char> {
        self.0@
    }

    pub fn new(secret: String) -> (r: Self)
        ensures
            r.secret() == secret@,
    {
        RoomKey(secret)
    }

    pub fn as_str(&self) -> (r: &str)
        ensures
            r@ == self.secret(),
    {
        self.0.as_str()
    }

    pub fn same_as(&self, other: &Self) -> (r: bool)
        ensures
            r == (self.secret() == other.secret()),
    {
        self.0 == other.0
    }
}

/// The text is a hyphenated random UUID.
pub open spec fn is_uuid(text: Seq<char>) -> bool {
    &&& text.len() == 36
    &&& text[14] == '4'
    &&& forall|i: int|
        0 <= i < 36 ==> if i == 8 || i == 13 || i == 18 || i == 23 {
            #[trigger] text[i] == '-'
        } else {
            ('0' <= text[i] && text[i] <= '9') || ('a' <= text[i] && text[i] <= 'f')
        }
}

/// `uuid::Uuid::new_v4` in its textual form.
///
/// Every call draws another UUID. Its text has 36 characters: lower-case hexadecimal
/// digits in groups of 8, 4, 4, 4 and 12 with hyphens between them, the third group
/// starting with the version. It panics where the system has no randomness to give,
/// which no argument decides.
#[verifier::external_body]
fn draw_uuid() -> (r: String)
    ensures
        is_uuid(r@),
{
    uuid::Uuid::new_v4().to_string()
}

/// Whether recordings are kept. Recording is offered only where an accepted recording
/// ends in the promised file.
pub open spec fn keeps_recordings() -> bool {
    false
}

fn persistent_recording_backend_available() -> (r: bool)
    ensures
        r == keeps_recordings(),
{
    false
}

/// What is fixed for the lifetime of a room.
#[derive(Clone)]
pub struct RoomDefinition {
    pub instance_id: RoomInstanceId,
    pub room_worker_policy: RoomWorkerPolicy,
    pub uuid: String,
    pub issuer: String,
    pub key: RoomKey,
    pub config: RoomConfig,
    pub feature_flags: RuntimeFeatureFlags,
}

impl RoomDefinition {
    /// The request asks for this room.
    pub open spec fn reserved_by(&self, key: RoomKey, config: RoomConfig) -> bool {
        self.key.secret() == key.secret() && self.config.agrees(config)
    }

    /// Recording needs an address and a place to keep recordings.
    pub open spec fn records(&self) -> bool {
        self.config.recording_address is Some && keeps_recordings()
    }

    /// The features that the room has.
    pub open spec fn offers(&self) -> AvailableFeatures {
        AvailableFeatures {
            rtc: self.config.web_rtc_enabled,
            transcription: self.records() && self.feature_flags.transcription,
            audio_recording: self.records() && self.feature_flags.audio_recording,
            video_recording: self.records() && self.feature_flags.video_recording,
        }
    }

    /// A room with a given UUID.
    pub fn with_uuid(
        runtime_context: &RoomRuntimeContext,
        runtime_policy: &RoomRuntimePolicy,
        uuid: String,
        issuer: String,
        key: RoomKey,
        config: RoomConfig,
    ) -> (r: Self)
        ensures
            r == (RoomDefinition {
                instance_id: runtime_context.instance_of(),
                room_worker_policy: runtime_policy.room_worker_policy,
                uuid,
                issuer,
                key,
                config,
                feature_flags: runtime_policy.feature_flags,
            }),
    {
        RoomDefinition {
            instance_id: runtime_context.instance(),
            room_worker_policy: runtime_policy.room_worker_policy,
            uuid,
            issuer,
            key,
            config,
            feature_flags: runtime_policy.feature_flags,
        }
    }

    /// A room with a UUID of its own.
    pub fn new(
        runtime_context: &RoomRuntimeContext,
        runtime_policy: &RoomRuntimePolicy,
        issuer: String,
        key: RoomKey,
        config: RoomConfig,
    ) -> (r: Self)
        ensures
            is_uuid(r.uuid@),
            r == (RoomDefinition {
                instance_id: runtime_context.instance_of(),
                room_worker_policy: runtime_policy.room_worker_policy,
                uuid: r.uuid,
                issuer,
                key,
                config,
                feature_flags: runtime_policy.feature_flags,
            }),
    {
        Self::with_uuid(runtime_context, runtime_policy, draw_uuid(), issuer, key, config)
    }

    pub fn matches_reservation(&self, key: &RoomKey, config: &RoomConfig) -> (r: bool)
        ensures
            r == self.reserved_by(*key, *config),
    {
        self.key.same_as(key) && self.config.same_as(config)
    }

    pub fn recording_available(&self) -> (r: bool)
        ensures
            r == self.records(),
    {
        if self.config.recording_address.is_none() {
            return false;
        }
        persistent_recording_backend_available()
    }

    pub fn available_features(&self) -> (r: AvailableFeatures)
        ensures
            r == self.offers(),
    {
        let recording_available = self.recording_available();
        AvailableFeatures {
            rtc: self.config.web_rtc_enabled,
            transcription: recording_available && self.feature_flags.transcription,
            audio_recording: recording_available && self.feature_flags.audio_recording,
            video_recording: recording_available && self.feature_flags.video_recording,
        }
    }

    pub fn uuid(&self) -> (r: &str)
        ensures
            r@ == self.uuid@,
    {
        self.uuid.as_str()
    }

    pub fn issuer(&self) -> (r: &str)
        ensures
            r@ == self.issuer@,
    {
        self.issuer.as_str()
    }

    pub fn key(&self) -> (r: &RoomKey)
        ensures
            *r == self.key,
    {
        &self.key
    }

    pub fn web_rtc_enabled(&self) -> (r: bool)
        ensures
            r == self.config.web_rtc_enabled,
    {
        self.config.web_rtc_enabled
    }

    pub fn instance_id(&self) -> (r: RoomInstanceId)
        ensures
            r == self.instance_id,
    {
        self.instance_id
    }

    pub fn room_worker_policy(&self) -> (r: RoomWorkerPolicy)
        ensures
            r == self.room_worker_policy,
    {
        self.room_worker_policy
    }
}

} // verus!
