//! The player description a watch page embeds: typed records and the
//! decisions read off them.
//!
//! The JSON wire form of these records is decoded by a collaborator outside
//! this crate; here stand the records as plain values — timestamps as epoch
//! seconds, durations as whole seconds — with the logic that reads them:
//! locating the embedded description in page text, the liveness predicate,
//! and the lookups the downloader needs.

use std::collections::HashMap;
use vstd::prelude::*;
use vstd::string::{StringExecFns, StrSliceExecFns};
use crate::dash::DashError;
use crate::strops::{spec_find_from, find_sub_from};
use crate::util::DownloadError;

verus! {

broadcast use vstd::std_specs::hash::group_hash_axioms;

#[derive(Clone, Debug)]
pub struct InitialPlayerResponse {
    pub response_context: ResponseContext,
    pub playability_status: PlayabilityStatus,
    pub streaming_data: Option<StreamingData>,
    pub video_details: Option<VideoDetails>,
    pub microformat: Option<Microformat>,
}

#[derive(Clone, Debug)]
pub struct ResponseContext {
    pub main_app_web_response_context: MainAppWebResponseContext,
}

#[derive(Clone, Debug)]
pub struct MainAppWebResponseContext {
    pub logged_out: bool,
}

#[derive(Clone, Debug)]
pub struct PlayabilityStatus {
    pub status: Status,
    pub reason: Option<String>,
    pub live_streamability: Option<LiveStreamability>,
}

/// The playability verdict of the player description.
#[derive(Clone, Copy, Debug, PartialEq, Eq, Structural)]
pub enum Status {
    Playable,
    LiveStreamOffline,
    Unplayable,
    LoginRequired,
    Error,
}

#[derive(Clone, Debug)]
pub struct LiveStreamability {
    pub live_streamability_renderer: LiveStreamabilityRenderer,
}

#[derive(Clone, Debug)]
pub struct LiveStreamabilityRenderer {
    pub video_id: String,
    pub poll_delay_ms: i64,
    pub offline_slate: Option<OfflineSlate>,
}

#[derive(Clone, Debug)]
pub struct OfflineSlate {
    pub live_stream_offline_slate_renderer: LiveStreamOfflineSlateRenderer,
}

#[derive(Clone, Debug)]
pub struct LiveStreamOfflineSlateRenderer {
    /// The scheduled start, as seconds since the Unix epoch.
    pub scheduled_start_time: i64,
}

#[derive(Clone, Debug)]
pub struct StreamingData {
    pub expires_in_seconds: i64,
    pub adaptive_formats: Vec<AdaptiveFormat>,
    pub dash_manifest_url: Option<String>,
}

#[derive(Clone, Debug)]
pub struct AdaptiveFormat {
    pub itag: i64,
    pub url: String,
    pub mime_type: String,
    pub bitrate: i64,
    /// The per-segment duration in whole seconds, when declared.
    pub target_duration_sec: Option<u64>,
}

#[derive(Clone, Debug)]
pub struct VideoDetails {
    pub video_id: String,
    pub title: String,
    pub length_seconds: i64,
    pub is_live: bool,
    pub channel_id: String,
    pub is_owner_viewing: bool,
    pub short_description: String,
    pub allow_ratings: bool,
    pub view_count: i64,
    pub author: String,
    pub is_live_content: bool,
}

#[derive(Clone, Debug)]
pub struct Microformat {
    pub player_microformat_renderer: PlayerMicroformatRenderer,
}

#[derive(Clone, Debug)]
pub struct PlayerMicroformatRenderer {
    pub thumbnail: Thumbnail,
    pub owner_profile_url: String,
    pub publish_date: String,
    pub live_broadcast_details: Option<LiveBroadcastDetails>,
    pub upload_date: String,
}

#[derive(Clone, Debug)]
pub struct Thumbnail {
    pub thumbnails: Vec<ThumbnailURL>,
}

#[derive(Clone, Debug)]
pub struct ThumbnailURL {
    pub url: String,
}

#[derive(Clone, Debug)]
pub struct LiveBroadcastDetails {
    pub is_live_now: bool,
    pub start_timestamp: String,
}

/// What can go wrong obtaining and reading a player description.
#[derive(Debug)]
pub enum PlayerResponseError {
    /// The page text holds no embedded player description.
    NoInitialPlayerResponse,
    /// The embedded description could not be decoded; the message is the
    /// decoder's.
    ParseInitialPlayerResponse(String),
    /// The description names no manifest address.
    NoDashManifestURL,
    /// Fetching the manifest failed.
    DownloadDashManifestError(DownloadError),
    /// The fetched manifest could not be parsed.
    ParseDashManifestError(DashError),
}

/// The address of the adaptive format carrying tag `k`, the last such format
/// winning, as a map built by insertion in order would have it.
pub open spec fn spec_itag_lookup(afs: Seq<AdaptiveFormat>, k: i64) -> Option<Seq<char>>
    decreases afs.len(),
{
    if afs.len() == 0 {
        None
    } else if afs.last().itag == k {
        Some(afs.last().url@)
    } else {
        spec_itag_lookup(afs.drop_last(), k)
    }
}

// ---------------------------------------------------------------------------
// Locating the embedded player description
// ---------------------------------------------------------------------------
/// The object text between the opening brace after the player-response
/// marker and the next `};`, brace included — exactly the slice the decoder
/// is handed, `None` when the page holds no such object.
pub open spec fn spec_ipr_str(html: Seq<char>) -> Option<Seq<char>> {
    let pat = "var ytInitialPlayerResponse ="@;
    match spec_find_from(html, pat, 0) {
        None => None,
        Some(p) => {
            let idx_ipr = p + pat.len();
            match spec_find_from(html, "{"@, idx_ipr) {
                None => None,
                Some(idx_start) => match spec_find_from(html, "};"@, idx_start) {
                    None => None,
                    Some(e) => {
                        let idx_end = e + 1;
                        if idx_start >= idx_end || idx_start >= html.len() || idx_end
                            >= html.len() {
                            None
                        } else {
                            Some(html.subrange(idx_start, idx_end))
                        }
                    },
                },
            }
        },
    }
}

/// Extracts the embedded player-description object from page text.
pub fn get_ipr_str(html: &str) -> (r: Option<String>)
    ensures
        match r {
            Some(s) => spec_ipr_str(html@) == Some(s@),
            None => spec_ipr_str(html@) is None,
        },
{
    let n = html.unicode_len();
    let pat = "var ytInitialPlayerResponse =";
    let p = match find_sub_from(html, pat, 0) {
        Some(p) => p,
        None => {
            return None;
        },
    };
    proof {
        crate::strops::lemma_find_from_sound(html@, pat@, 0, p as int);
    }
    let idx_ipr = p + pat.unicode_len();
    let idx_start = match find_sub_from(html, "{", idx_ipr) {
        Some(s) => s,
        None => {
            return None;
        },
    };
    let idx_end_marker = match find_sub_from(html, "};", idx_start) {
        Some(e) => e,
        None => {
            return None;
        },
    };
    proof {
        crate::strops::lemma_find_from_sound(html@, "};"@, idx_start as int, idx_end_marker as int);
        reveal_strlit("};");
    }
    let idx_end = idx_end_marker + 1;
    if idx_start >= idx_end || idx_start >= n || idx_end >= n {
        return None;
    }
    let found = html.substring_char(idx_start, idx_end);
    Some(String::from_str(found))
}

impl InitialPlayerResponse {
    /// Whether the stream is live and fetchable: the details name a video,
    /// the live-streamability block names one too, playability allows playback, and
    /// the broadcast details say it is live now.
    pub open spec fn spec_is_usable(&self) -> bool {
        &&& match self.video_details {
            Some(v) => v.video_id@.len() > 0,
            None => false,
        }
        &&& match self.playability_status.live_streamability {
            Some(ls) => ls.live_streamability_renderer.video_id@.len() > 0,
            None => false,
        }
        &&& self.playability_status.status == Status::Playable
        &&& match self.microformat {
            Some(mf) => match mf.player_microformat_renderer.live_broadcast_details {
                Some(lbd) => lbd.is_live_now,
                None => false,
            },
            None => false,
        }
    }

    /// The liveness/usability verdict over this description.
    pub fn is_usable(&self) -> (r: bool)
        ensures
            r == self.spec_is_usable(),
    {
        let has_video = match &self.video_details {
            Some(v) => v.video_id.as_str().unicode_len() > 0,
            None => false,
        };
        let has_streamability = match &self.playability_status.live_streamability {
            Some(ls) => ls.live_streamability_renderer.video_id.as_str().unicode_len() > 0,
            None => false,
        };
        let is_live_now = match &self.microformat {
            Some(mf) => match &mf.player_microformat_renderer.live_broadcast_details {
                Some(lbd) => lbd.is_live_now,
                None => false,
            },
            None => false,
        };
        has_video && has_streamability && self.playability_status.status == Status::Playable
            && is_live_now
    }

    /// The declared per-segment duration of the first adaptive format.
    pub fn target_duration(&self) -> (r: Option<u64>)
        ensures
            r == match self.streaming_data {
                Some(sd) => if sd.adaptive_formats@.len() > 0 {
                    sd.adaptive_formats@[0].target_duration_sec
                } else {
                    None
                },
                None => None,
            },
    {
        match &self.streaming_data {
            Some(sd) => {
                if sd.adaptive_formats.len() > 0 {
                    sd.adaptive_formats[0].target_duration_sec
                } else {
                    None
                }
            },
            None => None,
        }
    }

    /// The adaptive formats keyed by their `itag`; on a duplicate tag the
    /// later format wins.  `None` without streaming data.
    pub fn get_adaptive_formats(&self) -> (r: Option<HashMap<i64, String>>)
        ensures
            match r {
                Some(m) => {
                    &&& self.streaming_data is Some
                    &&& forall|k: i64|
                        #[trigger] m@.contains_key(k) <==> spec_itag_lookup(
                            self.streaming_data.unwrap().adaptive_formats@,
                            k,
                        ) is Some
                    &&& forall|k: i64|
                        m@.contains_key(k) ==> Some((#[trigger] m@[k])@) == spec_itag_lookup(
                            self.streaming_data.unwrap().adaptive_formats@,
                            k,
                        )
                },
                None => self.streaming_data is None,
            },
    {
        let sd = match &self.streaming_data {
            Some(sd) => sd,
            None => {
                return None;
            },
        };
        let n = sd.adaptive_formats.len();
        let mut m: HashMap<i64, String> = HashMap::new();
        let mut i: usize = 0;
        while i < n
            invariant
                0 <= i <= n,
                self.streaming_data == Some(*sd),
                n == sd.adaptive_formats@.len(),
                forall|k: i64|
                    #[trigger] m@.contains_key(k) <==> spec_itag_lookup(
                        sd.adaptive_formats@.take(i as int),
                        k,
                    ) is Some,
                forall|k: i64|
                    m@.contains_key(k) ==> Some((#[trigger] m@[k])@) == spec_itag_lookup(
                        sd.adaptive_formats@.take(i as int),
                        k,
                    ),
            decreases n - i,
        {
            let af = &sd.adaptive_formats[i];
            m.insert(af.itag, af.url.clone());
            proof {
                assert(sd.adaptive_formats@.take(i as int + 1).drop_last() =~= sd.adaptive_formats@.take(
                    i as int,
                ));
                assert(sd.adaptive_formats@.take(i as int + 1).last() == sd.adaptive_formats@[i as int]);
            }
            i = i + 1;
        }
        proof {
            assert(sd.adaptive_formats@.take(n as int) =~= sd.adaptive_formats@);
        }
        Some(m)
    }

    /// The address of the highest-resolution thumbnail, when one is listed.
    pub fn thumbnail_url(&self) -> (r: Option<String>)
        ensures
            match r {
                Some(u) => {
                    &&& self.microformat is Some
                    &&& self.microformat.unwrap().player_microformat_renderer.thumbnail.thumbnails@.len()
                        > 0
                    &&& u@
                        == self.microformat.unwrap().player_microformat_renderer.thumbnail.thumbnails@.last().url@
                },
                None => match self.microformat {
                    Some(mf) => mf.player_microformat_renderer.thumbnail.thumbnails@.len() == 0,
                    None => true,
                },
            },
    {
        match &self.microformat {
            Some(mf) => {
                let ts = &mf.player_microformat_renderer.thumbnail.thumbnails;
                let n = ts.len();
                if n == 0 {
                    None
                } else {
                    Some(ts[n - 1].url.clone())
                }
            },
            None => None,
        }
    }

    /// The manifest address the description declares, or the error the run
    /// surfaces when it declares none.
    pub fn dash_manifest_url(&self) -> (r: Result<&String, PlayerResponseError>)
        ensures
            match r {
                Ok(u) => {
                    &&& self.streaming_data is Some
                    &&& self.streaming_data.unwrap().dash_manifest_url is Some
                    &&& u@ == self.streaming_data.unwrap().dash_manifest_url.unwrap()@
                },
                Err(e) => {
                    &&& e is NoDashManifestURL
                    &&& (self.streaming_data is None
                        || self.streaming_data.unwrap().dash_manifest_url is None)
                },
            },
    {
        match &self.streaming_data {
            Some(sd) => match &sd.dash_manifest_url {
                Some(u) => Ok(u),
                None => Err(PlayerResponseError::NoDashManifestURL),
            },
            None => Err(PlayerResponseError::NoDashManifestURL),
        }
    }
}

} // verus!
