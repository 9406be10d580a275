use sfu_room::definition::{
    RoomAdmissionPolicy, RoomConfig, RoomDefinition, RoomKey, RoomMediaLimits, RoomRuntimePolicy,
    RuntimeFeatureFlags, VideoAdaptationTuning,
};
use sfu_room::factory::RoomFactory;
use sfu_room::ids::{
    decimal_text, same, ConsumerId, RoomInstanceId, RouterId, UserId, UserStreamId,
};
use sfu_room::ord_map::OrdMap;
use sfu_room::order::{order_text, order_u64, Order};
use sfu_room::placement::{RoomRuntimeContext, RoomWorkerPolicy};
use sfu_room::producer::{upload_layer_policy_role_for_rank, upload_profile_for_rid};
use sfu_room::source_model::{
    Bitrate, MediaCapabilities, SessionUploadEncoding, SourceSubscriptionIntent,
    UploadLayerPolicyRole, UserInfo, VideoLayoutIntent,
};

fn policy(feature_flags: RuntimeFeatureFlags) -> RoomRuntimePolicy {
    RoomRuntimePolicy::new(
        RoomAdmissionPolicy::new(3),
        feature_flags,
        MediaCapabilities { formats: vec![] },
        RoomMediaLimits { max_audio_speakers: 4, max_video_downloads_per_receiver: 16 },
        VideoAdaptationTuning { upgrade_hold: 0 },
    )
}

const ALL_FEATURES: RuntimeFeatureFlags =
    RuntimeFeatureFlags { transcription: true, audio_recording: true, video_recording: true };

fn definition(config: RoomConfig) -> RoomDefinition {
    RoomDefinition::new(
        &RoomRuntimeContext::new_unassigned(RoomInstanceId(4), RouterId(2)),
        &policy(ALL_FEATURES),
        String::from("issuer"),
        RoomKey::new(String::from("secret")),
        config,
    )
}

#[test]
fn consumers_are_named_by_number() {
    assert_eq!(ConsumerId(0).to_text(), "consumer-0");
    assert_eq!(ConsumerId(u64::MAX).to_text(), "consumer-18446744073709551615");
    assert_eq!(decimal_text(1_090), "1090");
}

#[test]
fn texts_are_ordered_by_their_bytes() {
    assert_eq!(order_text("b", "a"), Order::After);
    assert_eq!(order_text("a", "ab"), Order::Before);
    assert_eq!(order_text("\u{e9}", "z"), Order::After);
    assert_eq!(order_text("same", "same"), Order::Same);
    assert_eq!(order_u64(1, 2), Order::Before);
    assert!(same(&UserId::String(String::from("x")), &UserId::String(String::from("x"))));
    assert!(!same(&UserId::String(String::from("1")), &UserId::Integer(1)));
}

#[test]
fn maps_walk_in_order() {
    let mut map = OrdMap::new();
    for name in ["screen", "audio", "camera"] {
        map.insert(UserStreamId::new(name), name.len());
    }
    let names: Vec<String> = map.to_keys().into_iter().map(|key| key.0).collect();
    assert_eq!(names, vec!["audio", "camera", "screen"]);
    assert_eq!(map.get(&UserStreamId::new("camera")), Some(&6));
    assert_eq!(map.remove(&UserStreamId::new("audio")), Some(5));
    assert_eq!(map.remove(&UserStreamId::new("audio")), None);
    if let Some(value) = map.get_mut(&UserStreamId::new("screen")) {
        *value = 99;
    }
    assert_eq!(map.value(1), &99);
    map.insert(UserStreamId::new("screen"), 1);
    assert_eq!(map.len(), 2);
    assert_eq!(map.key(1).as_str(), "screen");
    assert!(!map.contains_key(&UserStreamId::new("audio")));
}

#[test]
fn rooms_draw_uuids_of_their_own() {
    let room = definition(RoomConfig::default());
    let other = definition(RoomConfig::default());
    assert_ne!(room.uuid(), other.uuid());
    assert_eq!(room.uuid().len(), 36);
    assert_eq!(room.uuid().as_bytes()[14], b'4');
    assert_eq!(room.uuid().matches('-').count(), 4);
    assert_eq!(room.issuer(), "issuer");
    assert_eq!(room.instance_id(), RoomInstanceId(4));
    assert_eq!(room.room_worker_policy(), RoomWorkerPolicy::strict_single_router());
}

#[test]
fn reservations_match_by_key_and_configuration() {
    let room = definition(RoomConfig::default());
    let secret = RoomKey::new(String::from("secret"));
    assert!(room.matches_reservation(&secret, &RoomConfig::default()));
    assert!(!room
        .matches_reservation(&RoomKey::new(String::from("other")), &RoomConfig::default()));
    assert!(!room.matches_reservation(
        &secret,
        &RoomConfig { web_rtc_enabled: false, recording_address: None }
    ));
    assert_eq!(secret.as_str(), "secret");
}

#[test]
fn recording_is_not_offered_without_a_place_to_keep_it() {
    let room = definition(RoomConfig {
        web_rtc_enabled: true,
        recording_address: Some(String::from("rec")),
    });
    assert!(!room.recording_available());
    let features = room.available_features();
    assert!(features.rtc);
    assert!(!features.transcription && !features.audio_recording && !features.video_recording);
}

#[test]
fn factories_number_rooms_and_routers_apart() {
    let mut factory = RoomFactory::new(policy(ALL_FEATURES));
    let first = factory.allocate_runtime_context();
    assert_eq!(factory.allocate_spillover_router(), RouterId(1));
    let second = factory
        .create("issuer", RoomKey::new(String::from("key")), &RoomConfig::default());
    assert_eq!((first.instance(), first.primary_router()), (RoomInstanceId(0), RouterId(0)));
    assert_eq!(second.definition.instance_id(), RoomInstanceId(1));
    assert_eq!(second.context.primary_router(), RouterId(2));
}

#[test]
fn policies_are_built_step_by_step() {
    let limits = RoomMediaLimits { max_audio_speakers: 1, max_video_downloads_per_receiver: 2 };
    let built = policy(ALL_FEATURES)
        .with_room_worker_policy(RoomWorkerPolicy::new(3, 25))
        .with_media_limits(limits)
        .with_video_adaptation_tuning(VideoAdaptationTuning { upgrade_hold: 8 });
    assert_eq!(built.room_worker_policy.max_local_routers(), 3);
    assert_eq!(built.room_worker_policy.packet_loop_delay_threshold_ms(), 25);
    assert_eq!(built.media_limits, limits);
    assert_eq!(built.video_adaptation_tuning.upgrade_hold, 8);
}

#[test]
fn intents_merge_field_by_field() {
    let mut intent = SourceSubscriptionIntent::new(Some(false), None);
    assert!(!intent.active_or_default());
    intent.merge(SourceSubscriptionIntent::new(None, Some(VideoLayoutIntent::Pinned)));
    assert_eq!(intent.active(), Some(false));
    assert_eq!(intent.layout(), Some(VideoLayoutIntent::Pinned));
    assert!(SourceSubscriptionIntent::default().is_empty());
    assert!(SourceSubscriptionIntent::default().active_or_default());
}

#[test]
fn reports_of_a_client_leave_out_its_media() {
    let report = UserInfo {
        is_camera_on: Some(true),
        is_screen_sharing_on: Some(true),
        is_deaf: Some(true),
        ..UserInfo::default()
    }
    .without_publication_flags();
    assert_eq!((report.is_camera_on, report.is_screen_sharing_on), (None, None));
    assert_eq!(report.is_deaf, Some(true));
}

#[test]
fn bitrates_do_not_wrap() {
    assert_eq!(Bitrate::from_kbps(150).as_bps(), 150_000);
    assert_eq!(Bitrate::from_kbps(u64::MAX).as_bps(), u64::MAX);
}

#[test]
fn layers_have_roles_by_rank() {
    for (rank, layers, role) in [
        (0, 1, UploadLayerPolicyRole::Thumbnail),
        (0, 2, UploadLayerPolicyRole::Thumbnail),
        (1, 2, UploadLayerPolicyRole::Featured),
        (0, 3, UploadLayerPolicyRole::DegradedThumbnail),
        (1, 3, UploadLayerPolicyRole::Thumbnail),
        (2, 3, UploadLayerPolicyRole::Featured),
    ] {
        assert_eq!(upload_layer_policy_role_for_rank(rank, layers), role);
    }
    let layer = |rid: &str| SessionUploadEncoding {
        rid: rid.to_owned(),
        max_bitrate: None,
        resolution_scale: Some(1),
        max_framerate: None,
    };
    let encodings = vec![layer("lo"), layer("hi"), layer("hi")];
    assert_eq!(upload_profile_for_rid(&encodings, &Some(String::from("hi"))), Some(1));
    assert_eq!(upload_profile_for_rid(&encodings, &Some(String::from("mid"))), None);
    assert_eq!(upload_profile_for_rid(&encodings, &None), None);
}
