//! Counters of the work done by one write-back or reclaim.

use vstd::prelude::*;

verus! {

/// Counts the work completed by a write-back or reclaim operation.
#[derive(Debug, Clone, Copy, PartialEq, Eq, Structural)]
pub struct IoStats {
    /// Number of base pages processed.
    pub pages: usize,
    /// Number of contiguous page runs processed.
    pub runs: usize,
    /// Number of mapped bytes processed.
    pub bytes: usize,
}

impl IoStats {
    /// The counters of an operation that has done nothing yet.
    pub open spec fn zero() -> IoStats {
        IoStats { pages: 0, runs: 0, bytes: 0 }
    }

    /// The counters after one more run of `pages` pages and `bytes` bytes.
    pub open spec fn plus_run(self, pages: int, bytes: int) -> IoStats {
        IoStats {
            pages: (self.pages + pages) as usize,
            runs: (self.runs + 1) as usize,
            bytes: (self.bytes + bytes) as usize,
        }
    }

    /// Counts one more run of `pages` pages and `bytes` bytes.
    pub fn count_run(&mut self, pages: usize, bytes: usize)
        requires
            old(self).pages + pages <= usize::MAX,
            old(self).runs + 1 <= usize::MAX,
            old(self).bytes + bytes <= usize::MAX,
        ensures
            final(self).pages == old(self).pages + pages,
            final(self).runs == old(self).runs + 1,
            final(self).bytes == old(self).bytes + bytes,
            *final(self) == old(self).plus_run(pages as int, bytes as int),
    {
        self.pages = self.pages + pages;
        self.runs = self.runs + 1;
        self.bytes = self.bytes + bytes;
    }
}

impl IoStats {
    /// Returns the bytes in whole mebibytes.
    pub fn mebibytes(&self) -> (mib: usize)
        ensures
            mib == self.bytes / 1048576,
    {
        self.bytes / 1048576
    }
}

impl Default for IoStats {
    fn default() -> (stats: IoStats)
        ensures
            stats == IoStats::zero(),
    {
        IoStats { pages: 0, runs: 0, bytes: 0 }
    }
}

} // verus!
