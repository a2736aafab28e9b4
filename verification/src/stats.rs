//! Shared progress counters for one archiving run.
//!
//! Two concurrently running components feed these counters: the discoverer
//! raises the segment total, the scheduler records drained downloads.  The
//! counters only ever grow; the caller serializes access to them.

use vstd::prelude::*;
use vstd::string::*;
use crate::numstr::{spec_u64_string, u64_to_string};
use crate::util::spec_format_bytes;
use crate::util::format_bytes;

verus! {

pub struct DownloadStatistics {
    pub bytes_downloaded: u64,
    pub segments_downloaded: u64,
    pub segments_total: u64,
}

/// The one-line progress report for a counter state.
pub open spec fn spec_progress_line(downloaded: int, total: int, bytes: int) -> Seq<char> {
    "Downloaded "@ + spec_u64_string(downloaded) + " of "@ + spec_u64_string(total)
        + " segments ("@ + spec_format_bytes(bytes) + ")"@
}

impl DownloadStatistics {
    /// A fresh run starts with nothing discovered and nothing downloaded.
    pub fn new() -> (r: DownloadStatistics)
        ensures
            r.bytes_downloaded == 0,
            r.segments_downloaded == 0,
            r.segments_total == 0,
    {
        DownloadStatistics { bytes_downloaded: 0, segments_downloaded: 0, segments_total: 0 }
    }

    /// The discoverer reports how many segments are known to exist.  The total
    /// never decreases, even against a stale report.
    pub fn record_discovered(&mut self, total: u64)
        ensures
            final(self).segments_total == if total >= old(self).segments_total {
                total as int
            } else {
                old(self).segments_total as int
            },
            final(self).segments_total >= old(self).segments_total,
            final(self).segments_downloaded == old(self).segments_downloaded,
            final(self).bytes_downloaded == old(self).bytes_downloaded,
    {
        if total >= self.segments_total {
            self.segments_total = total;
        }
    }

    /// The scheduler reports one drained segment and its downloaded bytes.
    /// Both counters grow monotonically and saturate instead of wrapping.
    pub fn record_segment(&mut self, bytes: u64)
        ensures
            final(self).segments_downloaded == if old(self).segments_downloaded == u64::MAX {
                u64::MAX as int
            } else {
                old(self).segments_downloaded + 1
            },
            final(self).bytes_downloaded == if old(self).bytes_downloaded + bytes <= u64::MAX {
                old(self).bytes_downloaded + bytes
            } else {
                u64::MAX as int
            },
            final(self).segments_downloaded >= old(self).segments_downloaded,
            final(self).bytes_downloaded >= old(self).bytes_downloaded,
            final(self).segments_total == old(self).segments_total,
    {
        self.segments_downloaded = self.segments_downloaded.saturating_add(1);
        self.bytes_downloaded = self.bytes_downloaded.saturating_add(bytes);
    }

    /// Renders the progress line; the caller overwrites the terminal line with
    /// it after every counter change.
    pub fn progress_line(&self) -> (r: String)
        ensures
            r@ == spec_progress_line(
                self.segments_downloaded as int,
                self.segments_total as int,
                self.bytes_downloaded as int,
            ),
    {
        let r = String::from_str("Downloaded ").concat(
            u64_to_string(self.segments_downloaded).as_str(),
        ).concat(" of ").concat(u64_to_string(self.segments_total).as_str()).concat(
            " segments (",
        ).concat(format_bytes(self.bytes_downloaded).as_str()).concat(")");
        proof {
            assert(r@ =~= spec_progress_line(
                self.segments_downloaded as int,
                self.segments_total as int,
                self.bytes_downloaded as int,
            ));
        }
        r
    }
}

} // verus!
