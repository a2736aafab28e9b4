use yta_rs::dash::{Manifest, Representation};
use yta_rs::hls::{replace_extension, file_name, IndexPlaylist, LivePlaylist};

fn audio_rep() -> Representation {
    Representation {
        id: 1,
        codecs: String::from("mp4a.40.2"),
        bandwidth: 128000,
        base_url: String::from("http://example.test/a/"),
        width: None,
        height: None,
        frame_rate: None,
    }
}

fn video_rep() -> Representation {
    Representation {
        id: 2,
        codecs: String::from("avc1.64002a"),
        bandwidth: 5000000,
        base_url: String::from("http://example.test/v/"),
        width: Some(1920),
        height: Some(1080),
        frame_rate: Some(30),
    }
}

fn manifest() -> Manifest {
    Manifest {
        segment_duration: 5000,
        latest_segment_number: 2,
        representations: vec![audio_rep(), video_rep()],
    }
}

#[test]
fn replace_extension_cases() {
    assert_eq!(replace_extension("index.m3u8", "f1.m3u8"), "index.f1.m3u8");
    assert_eq!(replace_extension("dir/index.m3u8", "f2.m3u8"), "dir/index.f2.m3u8");
    assert_eq!(replace_extension("noext", "m3u8"), "noext.m3u8");
    assert_eq!(replace_extension(".hidden", "m3u8"), ".hidden.m3u8");
    assert_eq!(replace_extension("a.b/c", "x"), "a.b/c.x");
    assert_eq!(replace_extension("file.tar", ""), "file");
}

#[test]
fn file_name_cases() {
    assert_eq!(file_name("dir/sub/index.m3u8"), "index.m3u8");
    assert_eq!(file_name("index.m3u8"), "index.m3u8");
}

#[test]
fn live_playlist_header_and_entries() {
    let mut p = LivePlaylist::new(5000);
    assert_eq!(
        p.content,
        "#EXTM3U\n#EXT-X-TARGETDURATION:5\n#EXT-X-MEDIA-SEQUENCE:0\n#EXT-X-VERSION:3\n"
    );
    let line = p.add_segment("seq_0.a1.mp4", 5000);
    assert_eq!(line, "#EXTINF:5.0,\nseq_0.a1.mp4\n");
    let before = p.content.clone();
    let line2 = p.add_segment("seq_1.a1.mp4", 5000);
    assert_eq!(p.content, format!("{}{}", before, line2));
    let end = p.finish();
    assert_eq!(end, "#EXT-X-ENDLIST\n");
    assert!(p.content.ends_with("#EXT-X-ENDLIST\n"));
}

#[test]
fn fractional_durations_are_rendered() {
    let p = LivePlaylist::new(5500);
    assert_eq!(
        p.content,
        "#EXTM3U\n#EXT-X-TARGETDURATION:5.5\n#EXT-X-MEDIA-SEQUENCE:0\n#EXT-X-VERSION:3\n"
    );
    let mut p = LivePlaylist::new(5040);
    assert!(p.content.contains("#EXT-X-TARGETDURATION:5.04\n"));
    let line = p.add_segment("s.mp4", 5040);
    assert_eq!(line, "#EXTINF:5.0,\ns.mp4\n");
    let mut p = LivePlaylist::new(5250);
    let line = p.add_segment("s.mp4", 5250);
    assert_eq!(line, "#EXTINF:5.3,\ns.mp4\n");
}

#[test]
fn index_playlist_master_text() {
    let m = manifest();
    let idx = IndexPlaylist::new("index.m3u8", &m, &audio_rep(), &video_rep());
    assert_eq!(idx.path_playlist_audio, "index.f1.m3u8");
    assert_eq!(idx.path_playlist_video, "index.f2.m3u8");
    assert_eq!(
        idx.master_content,
        "#EXTM3U\n#EXT-X-MEDIA:TYPE=AUDIO,GROUP-ID=\"f1\",DEFAULT=YES,AUTOSELECT=YES,URI=\"index.f1.m3u8\"\n#EXT-X-STREAM-INF:BANDWIDTH=5000000,CODECS=\"avc1.64002a\",AUDIO=\"f1\"\nindex.f2.m3u8\n"
    );
    assert_eq!(idx.playlist_audio.duration_ms, 5000);
    assert_eq!(idx.playlist_video.duration_ms, 5000);
}

#[test]
fn index_playlist_appends_to_both_tracks() {
    let m = manifest();
    let mut idx = IndexPlaylist::new("index.m3u8", &m, &audio_rep(), &video_rep());
    let (la, lv) = idx.add_segment("seq_0.a1.mp4", "seq_0.v2.mp4", 5000);
    assert_eq!(la, "#EXTINF:5.0,\nseq_0.a1.mp4\n");
    assert_eq!(lv, "#EXTINF:5.0,\nseq_0.v2.mp4\n");
    let (ea, ev) = idx.finish();
    assert_eq!(ea, "#EXT-X-ENDLIST\n");
    assert_eq!(ev, "#EXT-X-ENDLIST\n");
    assert!(idx.playlist_audio.content.ends_with("seq_0.a1.mp4\n#EXT-X-ENDLIST\n"));
    assert!(idx.playlist_video.content.ends_with("seq_0.v2.mp4\n#EXT-X-ENDLIST\n"));
}
