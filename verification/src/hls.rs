//! The locally written playback index: a master playlist naming one audio
//! and one video track, and one live media playlist per track.
//!
//! Each playlist value carries the full text written so far; every mutation
//! returns exactly the text to append, so the files on disk only ever grow —
//! a concurrently reading player sees a valid, still-growing index, and
//! `finish` turns it into a final, non-growing one.  File handles live with
//! the caller; nothing here re-sorts: entries appear in the order they are
//! appended, which the scheduler's drain discipline fixes.

use vstd::prelude::*;
use vstd::string::{StringExecFns, StrSliceExecFns};
use crate::dash::{Manifest, Representation};
use crate::numstr::{spec_u64_string, spec_i64_string, spec_digit_char, u64_to_string, i64_to_string, digit_str};

verus! {

// ---------------------------------------------------------------------------
// Path helpers
// ---------------------------------------------------------------------------
/// The position of the last occurrence of `c` in `s`, `-1` when absent.
pub open spec fn spec_last_index_of(s: Seq<char>, c: char) -> int
    decreases s.len(),
{
    if s.len() == 0 {
        -1
    } else if s.last() == c {
        s.len() - 1
    } else {
        spec_last_index_of(s.drop_last(), c)
    }
}

proof fn lemma_last_index_of_props(s: Seq<char>, c: char)
    ensures
        ({
            let i = spec_last_index_of(s, c);
            &&& -1 <= i < s.len()
            &&& i >= 0 ==> s[i] == c
            &&& forall|j: int| i < j < s.len() ==> s[j] != c
        }),
    decreases s.len(),
{
    if s.len() > 0 && s.last() != c {
        lemma_last_index_of_props(s.drop_last(), c);
        let i = spec_last_index_of(s, c);
        assert forall|j: int| i < j < s.len() implies s[j] != c by {
            if j < s.len() - 1 {
                assert(s.drop_last()[j] == s[j]);
                assert(s.drop_last()[j] != c);
            } else {
                assert(s[j] == s.last());
            }
        }
    }
}

proof fn lemma_last_index_of_at(s: Seq<char>, c: char, i: int)
    requires
        0 <= i < s.len(),
        s[i] == c,
        forall|j: int| i < j < s.len() ==> s[j] != c,
    ensures
        spec_last_index_of(s, c) == i,
    decreases s.len(),
{
    if s.last() == c {
        assert(i == s.len() - 1);
    } else {
        assert(i < s.len() - 1);
        assert(forall|j: int|
            0 <= j < s.len() - 1 ==> #[trigger] s.drop_last()[j] == s[j]);
        lemma_last_index_of_at(s.drop_last(), c, i);
    }
}

proof fn lemma_last_index_of_none(s: Seq<char>, c: char)
    requires
        forall|j: int| 0 <= j < s.len() ==> s[j] != c,
    ensures
        spec_last_index_of(s, c) == -1,
    decreases s.len(),
{
    if s.len() > 0 {
        assert(forall|j: int|
            0 <= j < s.len() - 1 ==> #[trigger] s.drop_last()[j] == s[j]);
        lemma_last_index_of_none(s.drop_last(), c);
    }
}

/// The position of the last occurrence of `c`, as the caller's bound.
fn last_index_of(s: &str, c: char) -> (r: Option<usize>)
    ensures
        match r {
            Some(i) => spec_last_index_of(s@, c) == i as int,
            None => spec_last_index_of(s@, c) == -1,
        },
{
    let n = s.unicode_len();
    let mut k: usize = n;
    while k > 0
        invariant
            0 <= k <= n,
            n == s@.len(),
            forall|j: int| k <= j < n ==> s@[j] != c,
        decreases k,
    {
        let ch = s.get_char(k - 1);
        if ch == c {
            proof {
                lemma_last_index_of_at(s@, c, k as int - 1);
            }
            return Some(k - 1);
        }
        k = k - 1;
    }
    proof {
        lemma_last_index_of_none(s@, c);
    }
    None
}

/// The file with its extension (the part after the last dot of its final
/// component, a leading dot not counting) replaced by `ext`; a file without
/// one gains it.  An empty `ext` leaves the bare stem.
pub open spec fn spec_replace_extension(f: Seq<char>, ext: Seq<char>) -> Seq<char> {
    let name_start = spec_last_index_of(f, '/') + 1;
    let dot = spec_last_index_of(f, '.');
    let stem = if dot > name_start {
        f.take(dot)
    } else {
        f
    };
    if ext.len() == 0 {
        stem
    } else {
        stem + seq!['.'] + ext
    }
}

/// Replaces the extension of a file path, as the playlist naming scheme
/// needs it: `index.m3u8` with extension `f1.m3u8` becomes `index.f1.m3u8`.
pub fn replace_extension(fname: &str, ext: &str) -> (r: String)
    ensures
        r@ == spec_replace_extension(fname@, ext@),
{
    let n = fname.unicode_len();
    let slash = last_index_of(fname, '/');
    let dot = last_index_of(fname, '.');
    proof {
        lemma_last_index_of_props(fname@, '/');
        lemma_last_index_of_props(fname@, '.');
    }
    let name_start: usize = match slash {
        Some(i) => i + 1,
        None => 0,
    };
    let stem: &str = match dot {
        Some(d) => {
            if d > name_start {
                fname.substring_char(0, d)
            } else {
                fname
            }
        },
        None => fname,
    };
    if ext.unicode_len() == 0 {
        String::from_str(stem)
    } else {
        let r = String::from_str(stem).concat(".").concat(ext);
        proof {
            reveal_strlit(".");
            assert(r@ =~= spec_replace_extension(fname@, ext@));
        }
        r
    }
}

/// The final component of a path: everything after the last slash.
pub open spec fn spec_file_name(f: Seq<char>) -> Seq<char> {
    f.skip(spec_last_index_of(f, '/') + 1)
}

/// Extracts the final component of a path.
pub fn file_name(fname: &str) -> (r: String)
    ensures
        r@ == spec_file_name(fname@),
{
    let n = fname.unicode_len();
    let start: usize = match last_index_of(fname, '/') {
        Some(i) => {
            proof {
                lemma_last_index_of_props(fname@, '/');
            }
            i + 1
        },
        None => 0,
    };
    let r = String::from_str(fname.substring_char(start, n));
    proof {
        assert(r@ =~= spec_file_name(fname@));
    }
    r
}

// ---------------------------------------------------------------------------
// Rendering durations
// ---------------------------------------------------------------------------
/// A millisecond duration as whole seconds, with the millisecond fraction —
/// trailing zeros dropped — when there is one: `5`, `5.5`, `5.04`.
pub open spec fn spec_target_duration_string(ms: int) -> Seq<char> {
    let r = ms % 1000;
    if r == 0 {
        spec_u64_string(ms / 1000)
    } else {
        spec_u64_string(ms / 1000) + seq!['.'] + spec_ms_fraction(r)
    }
}

/// The fraction digits of a millisecond remainder in `1..=999`.
pub open spec fn spec_ms_fraction(r: int) -> Seq<char> {
    let d2 = spec_digit_char(r / 100);
    let d1 = spec_digit_char((r / 10) % 10);
    let d0 = spec_digit_char(r % 10);
    if r % 10 != 0 {
        seq![d2, d1, d0]
    } else if (r / 10) % 10 != 0 {
        seq![d2, d1]
    } else {
        seq![d2]
    }
}

/// A millisecond duration in seconds with one decimal, rounded half-up:
/// `5000` becomes `5.0`.
pub open spec fn spec_tenths_string(ms: int) -> Seq<char> {
    let t = (ms + 50) / 100;
    spec_u64_string(t / 10) + seq!['.', spec_digit_char(t % 10)]
}

fn target_duration_string(ms: u64) -> (r: String)
    ensures
        r@ == spec_target_duration_string(ms as int),
{
    let whole = u64_to_string(ms / 1000);
    let rem = ms % 1000;
    if rem == 0 {
        whole
    } else {
        let mut r = whole.concat(".");
        proof {
            reveal_strlit(".");
        }
        let r = if rem % 10 != 0 {
            r.concat(digit_str(rem / 100)).concat(digit_str((rem / 10) % 10)).concat(
                digit_str(rem % 10),
            )
        } else if (rem / 10) % 10 != 0 {
            r.concat(digit_str(rem / 100)).concat(digit_str((rem / 10) % 10))
        } else {
            r.concat(digit_str(rem / 100))
        };
        proof {
            assert(r@ =~= spec_target_duration_string(ms as int));
        }
        r
    }
}

fn tenths_string(ms: u64) -> (r: String)
    ensures
        r@ == spec_tenths_string(ms as int),
{
    let t = (ms / 100).checked_add(if ms % 100 >= 50 {
        1
    } else {
        0
    }).unwrap_or(u64::MAX);
    proof {
        assert(ms as int / 100 + (if ms as int % 100 >= 50 {
            1int
        } else {
            0int
        }) == (ms as int + 50) / 100);
    }
    let r = u64_to_string(t / 10).concat(".").concat(digit_str(t % 10));
    proof {
        reveal_strlit(".");
        assert(r@ =~= spec_tenths_string(ms as int));
    }
    r
}

// ---------------------------------------------------------------------------
// Live media playlist
// ---------------------------------------------------------------------------
/// The header a live media playlist opens with.
pub open spec fn spec_live_header(dur_ms: int) -> Seq<char> {
    "#EXTM3U\n#EXT-X-TARGETDURATION:"@ + spec_target_duration_string(dur_ms)
        + "\n#EXT-X-MEDIA-SEQUENCE:0\n#EXT-X-VERSION:3\n"@
}

/// One entry: the duration line and the artifact reference.
pub open spec fn spec_entry_line(dur_ms: int, fname: Seq<char>) -> Seq<char> {
    "#EXTINF:"@ + spec_tenths_string(dur_ms) + ",\n"@ + fname + "\n"@
}

/// The end-of-stream marker that finalizes a live playlist.
pub open spec fn spec_endlist_line() -> Seq<char> {
    "#EXT-X-ENDLIST\n"@
}

/// The entry lines for a sequence of entries, each a duration with its
/// artifact reference.
pub open spec fn spec_entries_text(entries: Seq<(int, Seq<char>)>) -> Seq<char>
    decreases entries.len(),
{
    if entries.len() == 0 {
        Seq::empty()
    } else {
        spec_entries_text(entries.drop_last()) + spec_entry_line(
            entries.last().0,
            entries.last().1,
        )
    }
}

/// The whole document for a playlist state.
pub open spec fn spec_live_doc(
    dur_ms: int,
    entries: Seq<(int, Seq<char>)>,
    finished: bool,
) -> Seq<char> {
    spec_live_header(dur_ms) + spec_entries_text(entries) + if finished {
        spec_endlist_line()
    } else {
        Seq::empty()
    }
}

/// One track's live playlist: the target duration its header declares, the
/// full text written so far, and the entries appended, in order.
pub struct LivePlaylist {
    pub duration_ms: u64,
    pub content: String,
    pub finished: bool,
    pub entries: Ghost<Seq<(int, Seq<char>)>>,
}

impl LivePlaylist {
    /// The text is exactly the document its entry history dictates.
    pub open spec fn wf(&self) -> bool {
        self.content@ == spec_live_doc(self.duration_ms as int, self.entries@, self.finished)
    }

    /// A fresh live playlist: the header alone, no entries, still growing.
    /// The caller creates the file and writes `content` to it.
    pub fn new(duration_ms: u64) -> (r: LivePlaylist)
        ensures
            r.wf(),
            r.duration_ms == duration_ms,
            r.entries@ =~= Seq::<(int, Seq<char>)>::empty(),
            !r.finished,
            r.content@ == spec_live_header(duration_ms as int),
    {
        let content = String::from_str("#EXTM3U\n#EXT-X-TARGETDURATION:").concat(
            target_duration_string(duration_ms).as_str(),
        ).concat("\n#EXT-X-MEDIA-SEQUENCE:0\n#EXT-X-VERSION:3\n");
        let r = LivePlaylist {
            duration_ms,
            content,
            finished: false,
            entries: Ghost(Seq::empty()),
        };
        proof {
            assert(r.content@ =~= spec_live_header(duration_ms as int));
            assert(spec_entries_text(r.entries@) =~= Seq::<char>::empty());
            assert(r.content@ =~= spec_live_doc(duration_ms as int, r.entries@, false));
        }
        r
    }

    /// Appends one entry and returns exactly the line to write — the caller
    /// appends it to the file and flushes, so a concurrent reader catches up
    /// without waiting for the run to end.  The text only ever grows.
    pub fn add_segment(&mut self, fname: &str, duration_ms: u64) -> (line: String)
        requires
            old(self).wf(),
            !old(self).finished,
        ensures
            final(self).wf(),
            final(self).duration_ms == old(self).duration_ms,
            !final(self).finished,
            final(self).entries@ == old(self).entries@.push((duration_ms as int, fname@)),
            line@ == spec_entry_line(duration_ms as int, fname@),
            final(self).content@ == old(self).content@ + line@,
    {
        let line = String::from_str("#EXTINF:").concat(
            tenths_string(duration_ms).as_str(),
        ).concat(",\n").concat(fname).concat("\n");
        proof {
            assert(line@ =~= spec_entry_line(duration_ms as int, fname@));
        }
        self.content.append(line.as_str());
        proof {
            self.entries@ = self.entries@.push((duration_ms as int, fname@));
            assert(self.entries@.drop_last() =~= old(self).entries@);
            assert(self.content@ =~= spec_live_doc(
                self.duration_ms as int,
                self.entries@,
                false,
            ));
        }
        line
    }

    /// Appends the end-of-stream marker, converting the live playlist into a
    /// finalized, non-growing one, and returns the marker to write.
    pub fn finish(&mut self) -> (line: String)
        requires
            old(self).wf(),
            !old(self).finished,
        ensures
            final(self).wf(),
            final(self).duration_ms == old(self).duration_ms,
            final(self).finished,
            final(self).entries@ == old(self).entries@,
            line@ == spec_endlist_line(),
            final(self).content@ == old(self).content@ + line@,
    {
        let line = String::from_str("#EXT-X-ENDLIST\n");
        self.content.append(line.as_str());
        self.finished = true;
        proof {
            assert(self.content@ =~= spec_live_doc(
                self.duration_ms as int,
                self.entries@,
                true,
            ));
        }
        line
    }
}

// ---------------------------------------------------------------------------
// Master playlist with its two tracks
// ---------------------------------------------------------------------------
/// The variant-playlist extension for a representation: `f<id>.m3u8`.
pub open spec fn spec_variant_ext(id: int) -> Seq<char> {
    "f"@ + spec_i64_string(id) + ".m3u8"@
}

/// The master playlist text: the audio track as an alternate rendition, the
/// video track as the one variant stream, each referred to by file name.
pub open spec fn spec_master_header(
    audio_id: int,
    audio_uri: Seq<char>,
    video_bandwidth: int,
    video_codecs: Seq<char>,
    video_uri: Seq<char>,
) -> Seq<char> {
    "#EXTM3U\n#EXT-X-MEDIA:TYPE=AUDIO,GROUP-ID=\"f"@ + spec_i64_string(audio_id)
        + "\",DEFAULT=YES,AUTOSELECT=YES,URI=\""@ + audio_uri
        + "\"\n#EXT-X-STREAM-INF:BANDWIDTH="@ + spec_i64_string(video_bandwidth) + ",CODECS=\""@
        + video_codecs + "\",AUDIO=\"f"@ + spec_i64_string(audio_id) + "\"\n"@ + video_uri + "\n"@
}

/// The playback index: a master playlist plus one live playlist per track.
/// The caller writes `master_content` to the index file once, creates the
/// two track files at the derived paths, and mirrors every append.
pub struct IndexPlaylist {
    pub playlist_audio: LivePlaylist,
    pub playlist_video: LivePlaylist,
    pub master_content: String,
    pub path_playlist_audio: String,
    pub path_playlist_video: String,
}

impl IndexPlaylist {
    /// Both track playlists are well-formed.
    pub open spec fn wf(&self) -> bool {
        &&& self.playlist_audio.wf()
        &&& self.playlist_video.wf()
    }

    /// Builds the index for one run: the master text naming both tracks and
    /// two empty live playlists, their paths derived from the index path and
    /// the representation identifiers.
    pub fn new(fname: &str, manifest: &Manifest, audio: &Representation, video: &Representation)
        -> (r: IndexPlaylist)
        ensures
            r.wf(),
            r.path_playlist_audio@ == spec_replace_extension(
                fname@,
                spec_variant_ext(audio.id as int),
            ),
            r.path_playlist_video@ == spec_replace_extension(
                fname@,
                spec_variant_ext(video.id as int),
            ),
            r.master_content@ == spec_master_header(
                audio.id as int,
                spec_file_name(r.path_playlist_audio@),
                video.bandwidth as int,
                video.codecs@,
                spec_file_name(r.path_playlist_video@),
            ),
            r.playlist_audio.duration_ms == manifest.segment_duration,
            r.playlist_video.duration_ms == manifest.segment_duration,
            r.playlist_audio.entries@ =~= Seq::<(int, Seq<char>)>::empty(),
            r.playlist_video.entries@ =~= Seq::<(int, Seq<char>)>::empty(),
            !r.playlist_audio.finished,
            !r.playlist_video.finished,
    {
        let ext_audio = String::from_str("f").concat(i64_to_string(audio.id).as_str()).concat(
            ".m3u8",
        );
        let ext_video = String::from_str("f").concat(i64_to_string(video.id).as_str()).concat(
            ".m3u8",
        );
        proof {
            assert(ext_audio@ =~= spec_variant_ext(audio.id as int));
            assert(ext_video@ =~= spec_variant_ext(video.id as int));
        }
        let path_playlist_audio = replace_extension(fname, ext_audio.as_str());
        let path_playlist_video = replace_extension(fname, ext_video.as_str());
        let fname_playlist_audio = file_name(path_playlist_audio.as_str());
        let fname_playlist_video = file_name(path_playlist_video.as_str());

        let master_content = String::from_str("#EXTM3U\n#EXT-X-MEDIA:TYPE=AUDIO,GROUP-ID=\"f")
            .concat(i64_to_string(audio.id).as_str()).concat(
            "\",DEFAULT=YES,AUTOSELECT=YES,URI=\"",
        ).concat(fname_playlist_audio.as_str()).concat("\"\n#EXT-X-STREAM-INF:BANDWIDTH=").concat(
            i64_to_string(video.bandwidth).as_str(),
        ).concat(",CODECS=\"").concat(video.codecs.as_str()).concat("\",AUDIO=\"f").concat(
            i64_to_string(audio.id).as_str(),
        ).concat("\"\n").concat(fname_playlist_video.as_str()).concat("\n");
        proof {
            assert(master_content@ =~= spec_master_header(
                audio.id as int,
                spec_file_name(path_playlist_audio@),
                video.bandwidth as int,
                video.codecs@,
                spec_file_name(path_playlist_video@),
            ));
        }

        let playlist_audio = LivePlaylist::new(manifest.segment_duration);
        let playlist_video = LivePlaylist::new(manifest.segment_duration);
        IndexPlaylist {
            playlist_audio,
            playlist_video,
            master_content,
            path_playlist_audio,
            path_playlist_video,
        }
    }

    /// Appends one drained segment to both tracks, in the order handed in,
    /// and returns the audio and video lines to write.
    pub fn add_segment(
        &mut self,
        fname_audio: &str,
        fname_video: &str,
        duration_ms: u64,
    ) -> (lines: (String, String))
        requires
            old(self).wf(),
            !old(self).playlist_audio.finished,
            !old(self).playlist_video.finished,
        ensures
            final(self).wf(),
            final(self).playlist_audio.entries@ == old(self).playlist_audio.entries@.push(
                (duration_ms as int, fname_audio@),
            ),
            final(self).playlist_video.entries@ == old(self).playlist_video.entries@.push(
                (duration_ms as int, fname_video@),
            ),
            !final(self).playlist_audio.finished,
            !final(self).playlist_video.finished,
            final(self).playlist_audio.duration_ms == old(self).playlist_audio.duration_ms,
            final(self).playlist_video.duration_ms == old(self).playlist_video.duration_ms,
            lines.0@ == spec_entry_line(duration_ms as int, fname_audio@),
            lines.1@ == spec_entry_line(duration_ms as int, fname_video@),
            final(self).playlist_audio.content@ == old(self).playlist_audio.content@ + lines.0@,
            final(self).playlist_video.content@ == old(self).playlist_video.content@ + lines.1@,
            final(self).master_content == old(self).master_content,
            final(self).path_playlist_audio == old(self).path_playlist_audio,
            final(self).path_playlist_video == old(self).path_playlist_video,
    {
        let line_audio = self.playlist_audio.add_segment(fname_audio, duration_ms);
        let line_video = self.playlist_video.add_segment(fname_video, duration_ms);
        (line_audio, line_video)
    }

    /// Finalizes both tracks and returns the markers to write.
    pub fn finish(&mut self) -> (lines: (String, String))
        requires
            old(self).wf(),
            !old(self).playlist_audio.finished,
            !old(self).playlist_video.finished,
        ensures
            final(self).wf(),
            final(self).playlist_audio.finished,
            final(self).playlist_video.finished,
            final(self).playlist_audio.entries@ == old(self).playlist_audio.entries@,
            final(self).playlist_video.entries@ == old(self).playlist_video.entries@,
            lines.0@ == spec_endlist_line(),
            lines.1@ == spec_endlist_line(),
            final(self).playlist_audio.content@ == old(self).playlist_audio.content@ + lines.0@,
            final(self).playlist_video.content@ == old(self).playlist_video.content@ + lines.1@,
            final(self).master_content == old(self).master_content,
    {
        let line_audio = self.playlist_audio.finish();
        let line_video = self.playlist_video.finish();
        (line_audio, line_video)
    }
}

} // verus!
