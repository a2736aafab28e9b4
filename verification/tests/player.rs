use yta_rs::player_response::{
    AdaptiveFormat, InitialPlayerResponse, LiveStreamability, LiveStreamabilityRenderer,
    MainAppWebResponseContext, Microformat, PlayabilityStatus, PlayerMicroformatRenderer,
    PlayerResponseError, ResponseContext, Status, StreamingData, Thumbnail, ThumbnailURL,
    VideoDetails, LiveBroadcastDetails, get_ipr_str,
};

fn base_ipr() -> InitialPlayerResponse {
    InitialPlayerResponse {
        response_context: ResponseContext {
            main_app_web_response_context: MainAppWebResponseContext { logged_out: true },
        },
        playability_status: PlayabilityStatus {
            status: Status::Playable,
            reason: None,
            live_streamability: Some(LiveStreamability {
                live_streamability_renderer: LiveStreamabilityRenderer {
                    video_id: String::from("abc123"),
                    poll_delay_ms: 5000,
                    offline_slate: None,
                },
            }),
        },
        streaming_data: Some(StreamingData {
            expires_in_seconds: 21540,
            adaptive_formats: vec![
                AdaptiveFormat {
                    itag: 140,
                    url: String::from("http://example.test/a"),
                    mime_type: String::from("audio/mp4"),
                    bitrate: 128000,
                    target_duration_sec: Some(5),
                },
                AdaptiveFormat {
                    itag: 299,
                    url: String::from("http://example.test/v"),
                    mime_type: String::from("video/mp4"),
                    bitrate: 5000000,
                    target_duration_sec: Some(5),
                },
            ],
            dash_manifest_url: Some(String::from("http://example.test/manifest.mpd")),
        }),
        video_details: Some(VideoDetails {
            video_id: String::from("abc123"),
            title: String::from("live show"),
            length_seconds: 0,
            is_live: true,
            channel_id: String::from("chan"),
            is_owner_viewing: false,
            short_description: String::from("desc"),
            allow_ratings: true,
            view_count: 42,
            author: String::from("author"),
            is_live_content: true,
        }),
        microformat: Some(Microformat {
            player_microformat_renderer: PlayerMicroformatRenderer {
                thumbnail: Thumbnail {
                    thumbnails: vec![
                        ThumbnailURL { url: String::from("http://example.test/t0.jpg") },
                        ThumbnailURL { url: String::from("http://example.test/t1.jpg") },
                    ],
                },
                owner_profile_url: String::from("http://example.test/chan"),
                publish_date: String::from("2024-02-15"),
                live_broadcast_details: Some(LiveBroadcastDetails {
                    is_live_now: true,
                    start_timestamp: String::from("2024-02-15T08:15:00Z"),
                }),
                upload_date: String::from("2024-02-15"),
            },
        }),
    }
}

#[test]
fn ipr_str() {
    let test_str = r#"<script>var ytInitialPlayerResponse = {"response": "test"};</script>"#;
    let result = get_ipr_str(test_str).expect("Could not find IPR");
    assert_eq!(result, r#"{"response": "test"}"#);

    let test_str = r#"<script>var ytInitialPlayerResponse = {"#;
    assert!(get_ipr_str(test_str).is_none());

    let test_str = r#"<script>var ytInitialPlayerResponse = "#;
    assert!(get_ipr_str(test_str).is_none());

    let test_str = r#"<script>var ytInitialPlayerResponse ="#;
    assert!(get_ipr_str(test_str).is_none());
}

#[test]
fn usable_when_live() {
    assert!(base_ipr().is_usable());
}

#[test]
fn not_usable_without_video_details() {
    let mut ipr = base_ipr();
    ipr.video_details = None;
    assert!(!ipr.is_usable());
}

#[test]
fn not_usable_with_empty_video_id() {
    let mut ipr = base_ipr();
    ipr.video_details.as_mut().unwrap().video_id = String::new();
    assert!(!ipr.is_usable());
}

#[test]
fn not_usable_without_streamability() {
    let mut ipr = base_ipr();
    ipr.playability_status.live_streamability = None;
    assert!(!ipr.is_usable());
}

#[test]
fn not_usable_when_offline() {
    let mut ipr = base_ipr();
    ipr.playability_status.status = Status::LiveStreamOffline;
    assert!(!ipr.is_usable());
}

#[test]
fn not_usable_without_broadcast_details() {
    let mut ipr = base_ipr();
    ipr.microformat
        .as_mut()
        .unwrap()
        .player_microformat_renderer
        .live_broadcast_details = None;
    assert!(!ipr.is_usable());
}

#[test]
fn not_usable_when_not_live_now() {
    let mut ipr = base_ipr();
    ipr.microformat
        .as_mut()
        .unwrap()
        .player_microformat_renderer
        .live_broadcast_details
        .as_mut()
        .unwrap()
        .is_live_now = false;
    assert!(!ipr.is_usable());
}

#[test]
fn target_duration_reads_first_format() {
    assert_eq!(base_ipr().target_duration(), Some(5));
    let mut ipr = base_ipr();
    ipr.streaming_data = None;
    assert_eq!(ipr.target_duration(), None);
}

#[test]
fn adaptive_formats_keyed_by_itag() {
    let m = base_ipr().get_adaptive_formats().expect("formats expected");
    assert_eq!(m.len(), 2);
    assert_eq!(m.get(&140).map(String::as_str), Some("http://example.test/a"));
    assert_eq!(m.get(&299).map(String::as_str), Some("http://example.test/v"));
}

#[test]
fn adaptive_formats_later_duplicate_wins() {
    let mut ipr = base_ipr();
    let sd = ipr.streaming_data.as_mut().unwrap();
    let mut dup = sd.adaptive_formats[0].clone();
    dup.url = String::from("http://example.test/a2");
    sd.adaptive_formats.push(dup);
    let m = ipr.get_adaptive_formats().expect("formats expected");
    assert_eq!(m.get(&140).map(String::as_str), Some("http://example.test/a2"));
}

#[test]
fn thumbnail_url_takes_last() {
    assert_eq!(
        base_ipr().thumbnail_url().as_deref(),
        Some("http://example.test/t1.jpg")
    );
    let mut ipr = base_ipr();
    ipr.microformat = None;
    assert!(ipr.thumbnail_url().is_none());
}

#[test]
fn dash_manifest_url_present_and_missing() {
    let ipr = base_ipr();
    assert_eq!(
        ipr.dash_manifest_url().ok().map(String::as_str),
        Some("http://example.test/manifest.mpd")
    );
    let mut ipr = base_ipr();
    ipr.streaming_data.as_mut().unwrap().dash_manifest_url = None;
    assert!(matches!(
        ipr.dash_manifest_url(),
        Err(PlayerResponseError::NoDashManifestURL)
    ));
}
