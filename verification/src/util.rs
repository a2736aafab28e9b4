//! Per-segment download support: deterministic artifact naming, the
//! idempotent-and-atomic materialization discipline, and byte-count
//! rendering for the progress display.
//!
//! The HTTP transport itself is a collaborator outside this crate; the
//! functions here fix every decision it must follow: which file names to use,
//! when a fetch may be skipped, and that a download writes a temporary file
//! that is promoted to the final name in one atomic step.

use vstd::prelude::*;
use vstd::string::*;
use crate::numstr::{spec_u64_string, spec_i64_string, spec_digit_char, u64_to_string, i64_to_string, digit_str};

verus! {

/// Failure of the HTTP transport collaborator, carried as rendered messages.
#[derive(Debug)]
pub enum DownloadError {
    ReqwestError(String),
    ReqwestMiddlewareError(String),
    IoError(String),
}

// ---------------------------------------------------------------------------
// Artifact naming
// ---------------------------------------------------------------------------
/// Audio artifact name for one segment index and representation.
pub open spec fn spec_audio_segment_name(seq_num: int, audio_id: int) -> Seq<char> {
    "seq_"@ + spec_i64_string(seq_num) + ".a"@ + spec_i64_string(audio_id) + ".mp4"@
}

/// Video artifact name for one segment index and representation.
pub open spec fn spec_video_segment_name(seq_num: int, video_id: int) -> Seq<char> {
    "seq_"@ + spec_i64_string(seq_num) + ".v"@ + spec_i64_string(video_id) + ".mp4"@
}

/// The audio and video file names for one segment, determined by the segment
/// index and the two representation identifiers alone.
pub fn segment_file_names(seq_num: i64, audio_id: i64, video_id: i64) -> (r: (String, String))
    ensures
        r.0@ == spec_audio_segment_name(seq_num as int, audio_id as int),
        r.1@ == spec_video_segment_name(seq_num as int, video_id as int),
{
    let audio = String::from_str("seq_").concat(i64_to_string(seq_num).as_str()).concat(
        ".a",
    ).concat(i64_to_string(audio_id).as_str()).concat(".mp4");
    let video = String::from_str("seq_").concat(i64_to_string(seq_num).as_str()).concat(
        ".v",
    ).concat(i64_to_string(video_id).as_str()).concat(".mp4");
    proof {
        assert(audio@ =~= spec_audio_segment_name(seq_num as int, audio_id as int));
        assert(video@ =~= spec_video_segment_name(seq_num as int, video_id as int));
    }
    (audio, video)
}

/// The temporary name a download writes to before its atomic promotion.
pub fn temp_path(path: &str) -> (r: String)
    ensures
        r@ == path@ + ".tmp"@,
{
    String::from_str(path).concat(".tmp")
}

// ---------------------------------------------------------------------------
// Fetch plan: idempotence
// ---------------------------------------------------------------------------
/// What a fetch does for one artifact.
pub enum FetchPlan {
    /// The destination file already exists: no network call, zero new bytes.
    AlreadyPresent,
    /// Download to the temporary path, then promote atomically.
    Download,
}

/// The fetch decision for one artifact: a present destination is never
/// downloaded again, an absent one always is.
pub fn plan_fetch(destination_exists: bool) -> (r: FetchPlan)
    ensures
        r is AlreadyPresent <==> destination_exists,
        r is Download <==> !destination_exists,
{
    if destination_exists {
        FetchPlan::AlreadyPresent
    } else {
        FetchPlan::Download
    }
}

// ---------------------------------------------------------------------------
// Disk model: atomic materialization
// ---------------------------------------------------------------------------
/// The on-disk state of one artifact: whether its final file and its
/// temporary file exist.
pub struct DiskState {
    pub final_present: bool,
    pub temp_present: bool,
}

/// One step of a download against the disk.
pub enum FetchOp {
    /// Create (or truncate) the temporary file.
    CreateTemp,
    /// Append one chunk from the network to the temporary file.
    WriteTempChunk,
    /// Atomically rename the temporary file to the final name.
    PromoteTemp,
}

/// The disk after one step.
pub open spec fn spec_apply_op(s: DiskState, op: FetchOp) -> DiskState {
    match op {
        FetchOp::CreateTemp => DiskState { final_present: s.final_present, temp_present: true },
        FetchOp::WriteTempChunk => s,
        FetchOp::PromoteTemp => DiskState { final_present: true, temp_present: false },
    }
}

/// The disk after a sequence of steps.
pub open spec fn spec_apply_ops(s: DiskState, ops: Seq<FetchOp>) -> DiskState
    decreases ops.len(),
{
    if ops.len() == 0 {
        s
    } else {
        spec_apply_ops(spec_apply_op(s, ops[0]), ops.skip(1))
    }
}

/// The steps of one download with `chunks` network chunks: create the
/// temporary file, write every chunk to it, promote it atomically.
pub open spec fn spec_download_ops(chunks: nat) -> Seq<FetchOp> {
    seq![FetchOp::CreateTemp] + Seq::new(chunks, |i: int| FetchOp::WriteTempChunk) + seq![
        FetchOp::PromoteTemp
    ]
}

/// The steps a fetch performs: none at all when the final artifact is already
/// present, one full download otherwise.
pub open spec fn spec_fetch_ops(s: DiskState, chunks: nat) -> Seq<FetchOp> {
    if s.final_present {
        Seq::<FetchOp>::empty()
    } else {
        spec_download_ops(chunks)
    }
}

proof fn lemma_apply_ops_single(s: DiskState, op: FetchOp)
    ensures
        spec_apply_ops(s, seq![op]) == spec_apply_op(s, op),
{
    assert(seq![op].skip(1) =~= Seq::<FetchOp>::empty());
    assert(spec_apply_ops(spec_apply_op(s, op), Seq::<FetchOp>::empty()) == spec_apply_op(s, op));
}

proof fn lemma_apply_ops_concat(s: DiskState, a: Seq<FetchOp>, b: Seq<FetchOp>)
    ensures
        spec_apply_ops(s, a + b) == spec_apply_ops(spec_apply_ops(s, a), b),
    decreases a.len(),
{
    if a.len() == 0 {
        assert(a + b =~= b);
        assert(spec_apply_ops(s, a) == s);
    } else {
        assert((a + b)[0] == a[0]);
        assert((a + b).skip(1) =~= a.skip(1) + b);
        lemma_apply_ops_concat(spec_apply_op(s, a[0]), a.skip(1), b);
    }
}

proof fn lemma_chunks_preserve(s: DiskState, chunks: nat)
    ensures
        spec_apply_ops(s, Seq::new(chunks, |i: int| FetchOp::WriteTempChunk)) == s,
    decreases chunks,
{
    let ops = Seq::new(chunks, |i: int| FetchOp::WriteTempChunk);
    if chunks > 0 {
        lemma_chunks_preserve(s, (chunks - 1) as nat);
        assert(ops.skip(1) =~= Seq::new((chunks - 1) as nat, |i: int| FetchOp::WriteTempChunk));
        assert(spec_apply_op(s, ops[0]) == s);
    }
}

/// A completed download leaves the final artifact present and the temporary
/// file gone.
pub proof fn lemma_download_completes(s: DiskState, chunks: nat)
    ensures
        spec_apply_ops(s, spec_download_ops(chunks)).final_present,
        !spec_apply_ops(s, spec_download_ops(chunks)).temp_present,
{
    let created = spec_apply_op(s, FetchOp::CreateTemp);
    let written = spec_apply_ops(created, Seq::new(chunks, |i: int| FetchOp::WriteTempChunk));
    lemma_apply_ops_concat(
        s,
        seq![FetchOp::CreateTemp],
        Seq::new(chunks, |i: int| FetchOp::WriteTempChunk) + seq![FetchOp::PromoteTemp],
    );
    assert(spec_download_ops(chunks) =~= seq![FetchOp::CreateTemp] + (Seq::new(
        chunks,
        |i: int| FetchOp::WriteTempChunk,
    ) + seq![FetchOp::PromoteTemp]));
    lemma_apply_ops_concat(
        created,
        Seq::new(chunks, |i: int| FetchOp::WriteTempChunk),
        seq![FetchOp::PromoteTemp],
    );
    lemma_chunks_preserve(created, chunks);
    lemma_apply_ops_single(s, FetchOp::CreateTemp);
    lemma_apply_ops_single(written, FetchOp::PromoteTemp);
}

/// Idempotence of the fetch: after one fetch has run to completion, a second
/// fetch of the same artifact performs no operation at all — no network call
/// and no disk write — because the final file is already present.
pub proof fn lemma_fetch_idempotent(s: DiskState, chunks_first: nat, chunks_second: nat)
    ensures
        spec_apply_ops(s, spec_fetch_ops(s, chunks_first)).final_present,
        spec_fetch_ops(spec_apply_ops(s, spec_fetch_ops(s, chunks_first)), chunks_second)
            =~= Seq::<FetchOp>::empty(),
{
    if s.final_present {
        assert(spec_fetch_ops(s, chunks_first) =~= Seq::<FetchOp>::empty());
    } else {
        lemma_download_completes(s, chunks_first);
    }
}

/// Atomicity of the fetch: however a download is interrupted, the final
/// artifact file never exists before the one atomic promotion step — every
/// proper prefix of the download leaves at most a temporary file behind.
pub proof fn lemma_fetch_atomic(s: DiskState, chunks: nat, k: int)
    requires
        !s.final_present,
        0 <= k < spec_download_ops(chunks).len(),
    ensures
        !spec_apply_ops(s, spec_download_ops(chunks).take(k)).final_present,
    decreases k,
{
    let ops = spec_download_ops(chunks);
    if k == 0 {
        assert(ops.take(0).len() == 0);
    } else {
        lemma_fetch_atomic(s, chunks, k - 1);
        let prefix = ops.take(k - 1);
        let prev = spec_apply_ops(s, prefix);
        lemma_apply_ops_concat(s, prefix, seq![ops[k - 1]]);
        assert(ops.take(k) =~= prefix + seq![ops[k - 1]]);
        assert(ops[k - 1] != FetchOp::PromoteTemp);
        lemma_apply_ops_single(prev, ops[k - 1]);
    }
}

// ---------------------------------------------------------------------------
// Byte-count rendering
// ---------------------------------------------------------------------------
/// The divisor under which a byte count is displayed: the largest binary unit
/// the count strictly exceeds.
pub open spec fn spec_byte_scale(b: int) -> int {
    if b > 0x100_0000_0000 {
        0x100_0000_0000
    } else if b > 0x4000_0000 {
        0x4000_0000
    } else if b > 0x10_0000 {
        0x10_0000
    } else if b > 1024 {
        1024
    } else {
        1
    }
}

/// The unit suffix that goes with `spec_byte_scale`.
pub open spec fn spec_byte_suffix(b: int) -> Seq<char> {
    if b > 0x100_0000_0000 {
        "TiB"@
    } else if b > 0x4000_0000 {
        "GiB"@
    } else if b > 0x10_0000 {
        "MiB"@
    } else if b > 1024 {
        "KiB"@
    } else {
        "B"@
    }
}

/// The scaled byte count in hundredths of a unit, rounded half-up.
pub open spec fn spec_byte_hundredths(b: int) -> int {
    (200 * b + spec_byte_scale(b)) / (2 * spec_byte_scale(b))
}

/// A scaled count rendered with two decimals: `12.34`.
pub open spec fn spec_hundredths_string(h: int) -> Seq<char> {
    spec_u64_string(h / 100) + seq!['.', spec_digit_char((h / 10) % 10), spec_digit_char(h % 10)]
}

/// The human-readable rendering of a byte count: the count scaled into the
/// largest binary unit it exceeds, with two decimals and the unit suffix.
pub open spec fn spec_format_bytes(b: int) -> Seq<char> {
    spec_hundredths_string(spec_byte_hundredths(b)) + seq![' '] + spec_byte_suffix(b)
}

fn hundredths_string(h: u64) -> (r: String)
    ensures
        r@ == spec_hundredths_string(h as int),
{
    let whole = u64_to_string(h / 100);
    let d1 = digit_str((h / 10) % 10);
    let d0 = digit_str(h % 10);
    let r = whole.concat(".").concat(d1).concat(d0);
    proof {
        reveal_strlit(".");
        assert(r@ =~= spec_hundredths_string(h as int));
    }
    r
}

/// Renders a byte count for the progress line, scaled into binary units with
/// two decimals, for example `1.50 KiB`.
pub fn format_bytes(bytes: u64) -> (r: String)
    ensures
        r@ == spec_format_bytes(bytes as int),
{
    let b = bytes as u128;
    let (h, suffix): (u64, &'static str) = if bytes > 0x100_0000_0000 {
        let wide = (200u128 * b + 0x100_0000_0000u128) / 0x200_0000_0000u128;
        (wide as u64, "TiB")
    } else if bytes > 0x4000_0000 {
        let wide = (200u128 * b + 0x4000_0000u128) / 0x8000_0000u128;
        (wide as u64, "GiB")
    } else if bytes > 0x10_0000 {
        let wide = (200u128 * b + 0x10_0000u128) / 0x20_0000u128;
        (wide as u64, "MiB")
    } else if bytes > 1024 {
        let wide = (200u128 * b + 1024u128) / 2048u128;
        (wide as u64, "KiB")
    } else {
        let wide = (200u128 * b + 1u128) / 2u128;
        (wide as u64, "B")
    };
    proof {
        assert(h as int == spec_byte_hundredths(bytes as int));
        assert(suffix@ == spec_byte_suffix(bytes as int));
    }
    let r = hundredths_string(h).concat(" ").concat(suffix);
    proof {
        reveal_strlit(" ");
        assert(r@ =~= spec_format_bytes(bytes as int));
    }
    r
}

} // verus!
