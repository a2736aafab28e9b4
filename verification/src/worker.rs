//! The run's decision core: retry scheduling, representation selection, and
//! the discovery of newly published segment indices.
//!
//! The async loops that poll the manifest and drive downloads live outside
//! this crate; every decision they take — what to retry and when, which
//! representations to fetch, which indices to emit, when a stream counts as
//! ended or stalled — is a verified function here.

use vstd::prelude::*;
use vstd::string::StringExecFns;
use crate::dash::Representation;
use crate::player_response::PlayerResponseError;
use crate::util::DownloadError;

verus! {

/// A failure that ends the whole run.
#[derive(Debug)]
pub enum WorkerError {
    /// The player description could not be refreshed or read.
    InitialPlayerResponseError(PlayerResponseError),
    /// The manifest offers no representation of the needed class.
    MissingRepresentation(String),
    /// A local file could not be written; playlist integrity is gone.
    IoError(String),
    /// A download failed.
    DownloadError(DownloadError),
    /// The page names no thumbnail.
    NoThumbnail,
}

// ---------------------------------------------------------------------------
// Retry policy
// ---------------------------------------------------------------------------
/// The delay before the retry numbered `attempt` (counted from zero): the
/// base delay multiplied by itself per attempt, saturating at `u64::MAX`
/// milliseconds.
pub open spec fn spec_backoff_ms(base_ms: int, attempt: nat) -> int
    decreases attempt,
{
    if attempt == 0 {
        base_ms
    } else {
        let grown = spec_backoff_ms(base_ms, (attempt - 1) as nat) * base_ms;
        if grown > u64::MAX {
            u64::MAX as int
        } else {
            grown
        }
    }
}

/// Backoff schedule for transiently failing operations: a bounded number of
/// retries with exponentially growing delay; the caller adds jitter.
pub struct RetryPolicy {
    pub base_ms: u64,
    pub max_retries: u64,
}

impl RetryPolicy {
    /// The schedule used for manifest refreshes: five retries from a 200 ms
    /// base.
    pub fn standard() -> (r: RetryPolicy)
        ensures
            r.base_ms == 200,
            r.max_retries == 5,
    {
        RetryPolicy { base_ms: 200, max_retries: 5 }
    }

    /// Whether another retry is allowed after `attempts_made` failures.
    /// Exhausting the bound surfaces the underlying error to the caller.
    pub fn should_retry(&self, attempts_made: u64) -> (r: bool)
        ensures
            r <==> attempts_made < self.max_retries,
    {
        attempts_made < self.max_retries
    }

    /// The full (un-jittered) delay before retry `attempt`.
    pub fn delay_ms(&self, attempt: u64) -> (r: u64)
        ensures
            r as int == spec_backoff_ms(self.base_ms as int, attempt as nat),
    {
        let mut current: u64 = self.base_ms;
        let mut k: u64 = 0;
        while k < attempt
            invariant
                0 <= k <= attempt,
                current as int == spec_backoff_ms(self.base_ms as int, k as nat),
            decreases attempt - k,
        {
            current = match current.checked_mul(self.base_ms) {
                Some(v) => v,
                None => u64::MAX,
            };
            k = k + 1;
        }
        current
    }

    /// Scales a delay by a jitter fraction given in millionths, rounding
    /// down: the randomized share of the delay actually slept.
    pub fn apply_jitter(delay_ms: u64, jitter_millionths: u64) -> (r: u64)
        requires
            jitter_millionths <= 1_000_000,
        ensures
            r as int == delay_ms as int * jitter_millionths as int / 1_000_000,
    {
        proof {
            assert(delay_ms as int * jitter_millionths as int <= u64::MAX as int * 1_000_000)
                by (nonlinear_arith)
                requires
                    delay_ms <= u64::MAX,
                    jitter_millionths <= 1_000_000,
            ;
            assert(delay_ms as int * jitter_millionths as int / 1_000_000 <= u64::MAX)
                by (nonlinear_arith)
                requires
                    delay_ms as int * jitter_millionths as int <= u64::MAX as int * 1_000_000,
                    delay_ms as int * jitter_millionths as int >= 0,
            ;
        }
        let wide: u128 = (delay_ms as u128) * (jitter_millionths as u128) / 1_000_000u128;
        wide as u64
    }
}

// ---------------------------------------------------------------------------
// Representation selection
// ---------------------------------------------------------------------------
/// Position `i` holds the selected audio representation: it carries no
/// resolution, no other resolution-free representation has higher bandwidth,
/// and among equal-bandwidth candidates it is the last.
pub open spec fn spec_selected_audio(reps: Seq<Representation>, i: int) -> bool {
    &&& 0 <= i < reps.len()
    &&& reps[i].height is None
    &&& forall|j: int|
        0 <= j < reps.len() && (#[trigger] reps[j]).height is None ==> reps[j].bandwidth
            <= reps[i].bandwidth
    &&& forall|j: int|
        i < j < reps.len() && (#[trigger] reps[j]).height is None ==> reps[j].bandwidth
            < reps[i].bandwidth
}

/// Position `i` holds the selected video representation, the same rule over
/// the representations that do carry a resolution.
pub open spec fn spec_selected_video(reps: Seq<Representation>, i: int) -> bool {
    &&& 0 <= i < reps.len()
    &&& reps[i].height is Some
    &&& forall|j: int|
        0 <= j < reps.len() && (#[trigger] reps[j]).height is Some ==> reps[j].bandwidth
            <= reps[i].bandwidth
    &&& forall|j: int|
        i < j < reps.len() && (#[trigger] reps[j]).height is Some ==> reps[j].bandwidth
            < reps[i].bandwidth
}

/// Picks the highest-bandwidth representation without a resolution — the
/// audio track.  Fails when the manifest offers none.
pub fn select_audio(reps: &Vec<Representation>) -> (r: Result<usize, WorkerError>)
    ensures
        match r {
            Ok(i) => spec_selected_audio(reps@, i as int),
            Err(e) => {
                &&& (e matches WorkerError::MissingRepresentation(s) && s@ == "audio"@)
                &&& forall|j: int|
                    0 <= j < reps@.len() ==> !((#[trigger] reps@[j]).height is None)
            },
        },
{
    let n = reps.len();
    let mut best: Option<usize> = None;
    let mut i: usize = 0;
    while i < n
        invariant
            0 <= i <= n,
            n == reps@.len(),
            match best {
                Some(b) => {
                    &&& 0 <= b < i
                    &&& reps@[b as int].height is None
                    &&& forall|j: int|
                        0 <= j < i && (#[trigger] reps@[j]).height is None ==> reps@[j].bandwidth
                            <= reps@[b as int].bandwidth
                    &&& forall|j: int|
                        b < j < i && (#[trigger] reps@[j]).height is None ==> reps@[j].bandwidth
                            < reps@[b as int].bandwidth
                },
                None => forall|j: int| 0 <= j < i ==> !((#[trigger] reps@[j]).height is None),
            },
        decreases n - i,
    {
        if reps[i].height.is_none() {
            match best {
                Some(b) => {
                    if reps[i].bandwidth >= reps[b].bandwidth {
                        best = Some(i);
                    }
                },
                None => {
                    best = Some(i);
                },
            }
        }
        i = i + 1;
    }
    match best {
        Some(b) => Ok(b),
        None => Err(WorkerError::MissingRepresentation(String::from_str("audio"))),
    }
}

/// Picks the highest-bandwidth representation with a resolution — the video
/// track.  Fails when the manifest offers none.
pub fn select_video(reps: &Vec<Representation>) -> (r: Result<usize, WorkerError>)
    ensures
        match r {
            Ok(i) => spec_selected_video(reps@, i as int),
            Err(e) => {
                &&& (e matches WorkerError::MissingRepresentation(s) && s@ == "video"@)
                &&& forall|j: int|
                    0 <= j < reps@.len() ==> !((#[trigger] reps@[j]).height is Some)
            },
        },
{
    let n = reps.len();
    let mut best: Option<usize> = None;
    let mut i: usize = 0;
    while i < n
        invariant
            0 <= i <= n,
            n == reps@.len(),
            match best {
                Some(b) => {
                    &&& 0 <= b < i
                    &&& reps@[b as int].height is Some
                    &&& forall|j: int|
                        0 <= j < i && (#[trigger] reps@[j]).height is Some ==> reps@[j].bandwidth
                            <= reps@[b as int].bandwidth
                    &&& forall|j: int|
                        b < j < i && (#[trigger] reps@[j]).height is Some ==> reps@[j].bandwidth
                            < reps@[b as int].bandwidth
                },
                None => forall|j: int| 0 <= j < i ==> !((#[trigger] reps@[j]).height is Some),
            },
        decreases n - i,
    {
        if reps[i].height.is_some() {
            match best {
                Some(b) => {
                    if reps[i].bandwidth >= reps[b].bandwidth {
                        best = Some(i);
                    }
                },
                None => {
                    best = Some(i);
                },
            }
        }
        i = i + 1;
    }
    match best {
        Some(b) => Ok(b),
        None => Err(WorkerError::MissingRepresentation(String::from_str("video"))),
    }
}

// ---------------------------------------------------------------------------
// Sequence discovery
// ---------------------------------------------------------------------------
/// How long the discoverer waits without a new segment before it declares
/// the stream stalled, in milliseconds.
pub const IDLE_TIMEOUT_MS: u64 = 30_000;

/// The integers of `[lo, hi)` in ascending order.
pub open spec fn spec_range(lo: int, hi: int) -> Seq<i64> {
    if hi <= lo {
        Seq::empty()
    } else {
        Seq::new((hi - lo) as nat, |k: int| (lo + k) as i64)
    }
}

/// What one manifest observation emits: every index the manifest now
/// declares beyond what was already emitted, in ascending order.
pub open spec fn spec_emissions(last: int, latest: int) -> Seq<i64> {
    if latest > last {
        spec_range(last + 1, latest + 1)
    } else {
        Seq::empty()
    }
}

/// The highest emitted index after one observation.
pub open spec fn spec_next_last(last: int, latest: int) -> int {
    if latest > last {
        latest
    } else {
        last
    }
}

/// Polls the manifest collaborator and turns its snapshots into a strictly
/// increasing stream of segment indices, watching for the stream's end.
pub struct SequenceDiscoverer {
    /// The highest index emitted so far; `-1` before any emission.
    pub last_emitted: i64,
    /// When the discoverer last made progress (an emission, or its start).
    pub last_progress_ms: u64,
}

/// What the polling loop does next.
#[derive(Debug, PartialEq, Eq, Structural)]
pub enum PollDecision {
    /// Sleep one cadence tick and refresh the manifest again.
    KeepPolling,
    /// The stream reports it is no longer live: stop normally.
    StreamEnded,
    /// Nothing new for the whole idle window: treat the stream as over.
    Stalled,
}

impl SequenceDiscoverer {
    /// A fresh discoverer that has emitted nothing.
    pub fn new(now_ms: u64) -> (r: SequenceDiscoverer)
        ensures
            r.last_emitted == -1,
            r.last_progress_ms == now_ms,
    {
        SequenceDiscoverer { last_emitted: -1, last_progress_ms: now_ms }
    }

    /// Applies one manifest snapshot: emits exactly the indices in
    /// `(last_emitted, latest]`, in ascending order, and notes the progress
    /// time when anything was emitted.
    pub fn observe_manifest(&mut self, latest: i64, now_ms: u64) -> (emitted: Vec<i64>)
        ensures
            emitted@ == spec_emissions(old(self).last_emitted as int, latest as int),
            final(self).last_emitted as int == spec_next_last(
                old(self).last_emitted as int,
                latest as int,
            ),
            final(self).last_progress_ms == if latest > old(self).last_emitted {
                now_ms
            } else {
                old(self).last_progress_ms
            },
    {
        let mut emitted: Vec<i64> = Vec::new();
        if latest > self.last_emitted {
            let ghost last0 = self.last_emitted as int;
            let mut next: i64 = self.last_emitted;
            while next < latest
                invariant
                    last0 <= next <= latest,
                    latest > last0,
                    emitted@ =~= spec_range(last0 + 1, next as int + 1),
                decreases latest - next,
            {
                next = next + 1;
                emitted.push(next);
                proof {
                    assert(emitted@ =~= spec_range(last0 + 1, next as int + 1));
                }
            }
            self.last_emitted = latest;
            self.last_progress_ms = now_ms;
            proof {
                assert(emitted@ =~= spec_emissions(last0, latest as int));
            }
        } else {
            proof {
                assert(emitted@ =~= spec_emissions(self.last_emitted as int, latest as int));
            }
        }
        emitted
    }

    /// The stop rule checked after each observation: an unusable stream ends
    /// the run normally; a stream that has made no progress for the whole
    /// idle window — and not a moment less — counts as stalled; otherwise
    /// the loop sleeps and polls again.
    pub fn next_decision(&self, usable: bool, now_ms: u64) -> (d: PollDecision)
        requires
            now_ms >= self.last_progress_ms,
        ensures
            d is StreamEnded <==> !usable,
            d is Stalled <==> usable && now_ms - self.last_progress_ms >= IDLE_TIMEOUT_MS,
            d is KeepPolling <==> usable && now_ms - self.last_progress_ms < IDLE_TIMEOUT_MS,
    {
        if !usable {
            PollDecision::StreamEnded
        } else if now_ms - self.last_progress_ms >= IDLE_TIMEOUT_MS {
            PollDecision::Stalled
        } else {
            PollDecision::KeepPolling
        }
    }
}

// ---------------------------------------------------------------------------
// The discovery emission law
// ---------------------------------------------------------------------------
/// Everything a discoverer starting at `last` emits over a run of manifest
/// snapshots, in order.
pub open spec fn spec_run_discovery(last: int, latests: Seq<i64>) -> Seq<i64>
    decreases latests.len(),
{
    if latests.len() == 0 {
        Seq::empty()
    } else {
        spec_emissions(last, latests[0] as int) + spec_run_discovery(
            spec_next_last(last, latests[0] as int),
            latests.skip(1),
        )
    }
}

/// The highest emitted index after such a run.
pub open spec fn spec_run_final(last: int, latests: Seq<i64>) -> int
    decreases latests.len(),
{
    if latests.len() == 0 {
        last
    } else {
        spec_run_final(spec_next_last(last, latests[0] as int), latests.skip(1))
    }
}

proof fn lemma_range_concat(lo: int, mid: int, hi: int)
    requires
        lo <= mid <= hi,
    ensures
        spec_range(lo, mid) + spec_range(mid, hi) == spec_range(lo, hi),
{
    assert(spec_range(lo, mid) + spec_range(mid, hi) =~= spec_range(lo, hi));
}

proof fn lemma_run_discovery_range(last: int, latests: Seq<i64>)
    requires
        -1 <= last,
        forall|i: int, j: int| 0 <= i <= j < latests.len() ==> latests[i] <= latests[j],
    ensures
        last <= spec_run_final(last, latests),
        last <= i64::MAX ==> spec_run_final(last, latests) <= i64::MAX,
        spec_run_discovery(last, latests) == spec_range(
            last + 1,
            spec_run_final(last, latests) + 1,
        ),
    decreases latests.len(),
{
    if latests.len() == 0 {
        assert(spec_run_discovery(last, latests) =~= spec_range(last + 1, last + 1));
    } else {
        let l0 = latests[0] as int;
        let next = spec_next_last(last, l0);
        assert(forall|i: int, j: int|
            0 <= i <= j < latests.skip(1).len() ==> latests.skip(1)[i] <= latests.skip(1)[j]);
        lemma_run_discovery_range(next, latests.skip(1));
        let fin = spec_run_final(next, latests.skip(1));
        if l0 > last {
            lemma_range_concat(last + 1, l0 + 1, fin + 1);
        } else {
            assert(spec_emissions(last, l0) =~= Seq::<i64>::empty());
            assert(Seq::<i64>::empty() + spec_run_discovery(next, latests.skip(1))
                =~= spec_run_discovery(next, latests.skip(1)));
        }
    }
}

/// The discovery emission law: over any run of manifest snapshots whose
/// `latest` indices never decrease, a fresh discoverer emits exactly the
/// integers from `0` through the final `latest`, each exactly once, in
/// strictly increasing order — no gaps, no duplicates.
pub proof fn lemma_discovery_emits_exact_range(latests: Seq<i64>)
    requires
        forall|i: int, j: int| 0 <= i <= j < latests.len() ==> latests[i] <= latests[j],
    ensures
        spec_run_discovery(-1, latests) == spec_range(0, spec_run_final(-1, latests) + 1),
        crate::reorder::spec_strictly_increasing(spec_run_discovery(-1, latests)),
        forall|v: int|
            0 <= v <= spec_run_final(-1, latests) ==> (#[trigger] spec_range(
                0,
                spec_run_final(-1, latests) + 1,
            )[v]) == v,
{
    lemma_run_discovery_range(-1, latests);
    let fin = spec_run_final(-1, latests);
    assert forall|i: int, j: int|
        #![trigger spec_run_discovery(-1, latests)[i], spec_run_discovery(-1, latests)[j]]
        0 <= i < j < spec_run_discovery(-1, latests).len() implies spec_run_discovery(
        -1,
        latests,
    )[i] < spec_run_discovery(-1, latests)[j] by {
        assert(0 <= i <= i64::MAX && 0 <= j <= i64::MAX);
        assert(spec_range(0, fin + 1)[i] == (i as i64));
        assert(spec_range(0, fin + 1)[j] == (j as i64));
    }
}

} // verus!
