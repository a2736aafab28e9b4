use yta_rs::dash::Representation;
use yta_rs::hls::IndexPlaylist;
use yta_rs::reorder::{FetchResult, ReorderBuffer};
use yta_rs::stats::DownloadStatistics;
use yta_rs::util::segment_file_names;
use yta_rs::worker::{select_audio, select_video, SequenceDiscoverer, WorkerError};

fn rep(id: i64, bandwidth: i64, height: Option<i64>) -> Representation {
    Representation {
        id,
        codecs: String::from("c"),
        bandwidth,
        base_url: String::from("http://example.test/"),
        width: height.map(|h| h * 16 / 9),
        height,
        frame_rate: height.map(|_| 30),
    }
}

fn done(index: i64, audio_id: i64, video_id: i64, bytes: u64) -> FetchResult {
    let (a, v) = segment_file_names(index, audio_id, video_id);
    FetchResult::Done { fname_audio: a, fname_video: v, bytes }
}

#[test]
fn drain_order_is_admission_order_not_completion_order() {
    let mut buf = ReorderBuffer::new(3);
    buf.enqueue(0);
    buf.enqueue(1);
    buf.enqueue(2);
    assert!(!buf.has_room());

    // Completions arrive in the order 2, 0, 1.
    assert!(buf.complete(2, done(2, 1, 2, 30)));
    assert!(buf.pop_ready().is_none());
    assert!(buf.complete(0, done(0, 1, 2, 10)));
    let first = buf.pop_ready().expect("head is complete");
    assert_eq!(first.0, 0);
    assert!(buf.pop_ready().is_none());
    assert!(buf.complete(1, done(1, 1, 2, 20)));
    let second = buf.pop_ready().expect("head is complete");
    assert_eq!(second.0, 1);
    let third = buf.pop_ready().expect("head is complete");
    assert_eq!(third.0, 2);
    assert!(buf.pop_ready().is_none());
    assert_eq!(buf.in_flight(), 0);
}

#[test]
fn unknown_or_repeated_completions_are_refused() {
    let mut buf = ReorderBuffer::new(2);
    buf.enqueue(0);
    assert!(!buf.complete(5, done(5, 1, 2, 0)));
    assert!(buf.complete(0, done(0, 1, 2, 0)));
    assert!(!buf.complete(0, done(0, 1, 2, 0)));
}

#[test]
fn failed_segment_leaves_a_gap_not_a_crash() {
    let mut buf = ReorderBuffer::new(2);
    buf.enqueue(0);
    buf.enqueue(1);
    assert!(buf.complete(
        0,
        FetchResult::Failed(yta_rs::util::DownloadError::IoError(String::from("boom")))
    ));
    assert!(buf.complete(1, done(1, 1, 2, 7)));
    let head = buf.pop_ready().expect("head is complete");
    assert!(matches!(head.1, FetchResult::Failed(_)));
    let next = buf.pop_ready().expect("next is complete");
    assert_eq!(next.0, 1);
}

#[test]
fn selection_takes_highest_bandwidth_per_class() {
    let reps = vec![
        rep(10, 5, None),
        rep(11, 9, None),
        rep(20, 20, Some(720)),
        rep(21, 50, Some(1080)),
    ];
    let a = select_audio(&reps).expect("audio expected");
    assert_eq!(reps[a].bandwidth, 9);
    assert_eq!(reps[a].id, 11);
    let v = select_video(&reps).expect("video expected");
    assert_eq!(reps[v].bandwidth, 50);
    assert_eq!(reps[v].id, 21);
}

#[test]
fn selection_fails_without_a_class() {
    let only_video = vec![rep(20, 20, Some(720))];
    assert!(matches!(
        select_audio(&only_video),
        Err(WorkerError::MissingRepresentation(s)) if s == "audio"
    ));
    let only_audio = vec![rep(10, 5, None)];
    assert!(matches!(
        select_video(&only_audio),
        Err(WorkerError::MissingRepresentation(s)) if s == "video"
    ));
}

#[test]
fn selection_ties_take_the_last() {
    let reps = vec![rep(1, 9, None), rep(2, 9, None)];
    let a = select_audio(&reps).expect("audio expected");
    assert_eq!(reps[a].id, 2);
}

#[test]
fn end_to_end_three_segments_in_order() {
    // Manifest declares indices 0, 1 and 2; two downloads run at once and
    // finish out of order; the playlist and the counters still see 0, 1, 2.
    let audio = rep(1, 128000, None);
    let video = rep(2, 5_000_000, Some(1080));
    let manifest = yta_rs::dash::Manifest {
        segment_duration: 5000,
        latest_segment_number: 2,
        representations: vec![audio.clone(), video.clone()],
    };

    let mut discoverer = SequenceDiscoverer::new(0);
    let mut pending = discoverer.observe_manifest(manifest.latest_segment_number, 0);
    assert_eq!(pending, vec![0, 1, 2]);
    pending.reverse();

    let mut stats = DownloadStatistics::new();
    stats.record_discovered(3);

    let mut playlist = IndexPlaylist::new("index.m3u8", &manifest, &audio, &video);
    let mut buf = ReorderBuffer::new(2);

    // Admit 0 and 1; 1 finishes first and waits its turn.
    buf.enqueue(pending.pop().unwrap());
    buf.enqueue(pending.pop().unwrap());
    assert!(buf.complete(1, done(1, audio.id, video.id, 200)));
    assert!(buf.pop_ready().is_none());
    assert!(buf.complete(0, done(0, audio.id, video.id, 100)));

    let mut drained: Vec<i64> = Vec::new();
    while let Some((idx, result)) = buf.pop_ready() {
        if let FetchResult::Done { fname_audio, fname_video, bytes } = result {
            playlist.add_segment(&fname_audio, &fname_video, manifest.segment_duration);
            stats.record_segment(bytes);
        }
        drained.push(idx);
        if buf.has_room() && !pending.is_empty() {
            buf.enqueue(pending.pop().unwrap());
            assert!(buf.complete(2, done(2, audio.id, video.id, 300)));
        }
    }
    assert_eq!(drained, vec![0, 1, 2]);
    assert_eq!(stats.segments_downloaded, 3);
    assert_eq!(stats.segments_total, 3);
    assert_eq!(stats.bytes_downloaded, 600);

    playlist.finish();
    assert_eq!(
        playlist.playlist_audio.content,
        "#EXTM3U\n#EXT-X-TARGETDURATION:5\n#EXT-X-MEDIA-SEQUENCE:0\n#EXT-X-VERSION:3\n#EXTINF:5.0,\nseq_0.a1.mp4\n#EXTINF:5.0,\nseq_1.a1.mp4\n#EXTINF:5.0,\nseq_2.a1.mp4\n#EXT-X-ENDLIST\n"
    );
    assert_eq!(
        playlist.playlist_video.content,
        "#EXTM3U\n#EXT-X-TARGETDURATION:5\n#EXT-X-MEDIA-SEQUENCE:0\n#EXT-X-VERSION:3\n#EXTINF:5.0,\nseq_0.v2.mp4\n#EXTINF:5.0,\nseq_1.v2.mp4\n#EXTINF:5.0,\nseq_2.v2.mp4\n#EXT-X-ENDLIST\n"
    );
}
