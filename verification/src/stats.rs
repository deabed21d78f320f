//! The counters of a run.

use vstd::prelude::*;

verus! {

/// The number of bytes in one megabyte, as the summary counts them.
pub const BYTES_PER_MEGABYTE: usize = 1_048_576;

/// The number of pages between two periodic reports.
pub const REPORT_INTERVAL: usize = 10;

/// The four counters as they stood at one moment.
#[derive(Clone, Copy, Debug, PartialEq, Eq, Structural)]
pub struct StatsSnapshot {
    pub pages_scraped: usize,
    pub files_downloaded: usize,
    pub bytes_downloaded: usize,
    pub errors: usize,
}

/// `count` after `by` more events; it stays at the largest value once there.
pub open spec fn advanced(count: usize, by: usize) -> usize {
    if count + by <= usize::MAX {
        (count + by) as usize
    } else {
        usize::MAX
    }
}

/// No counter of `later` is below the same counter of `earlier`.
pub open spec fn not_below(later: StatsSnapshot, earlier: StatsSnapshot) -> bool {
    &&& later.pages_scraped >= earlier.pages_scraped
    &&& later.files_downloaded >= earlier.files_downloaded
    &&& later.bytes_downloaded >= earlier.bytes_downloaded
    &&& later.errors >= earlier.errors
}

/// Counts pages visited, files downloaded, bytes transferred and errors.
///
/// The counters are independent of each other and never go down.
pub struct ScrapingStats {
    pages_scraped: usize,
    files_downloaded: usize,
    bytes_downloaded: usize,
    errors: usize,
}

impl View for ScrapingStats {
    type V = StatsSnapshot;

    closed spec fn view(&self) -> StatsSnapshot {
        StatsSnapshot {
            pages_scraped: self.pages_scraped,
            files_downloaded: self.files_downloaded,
            bytes_downloaded: self.bytes_downloaded,
            errors: self.errors,
        }
    }
}

impl Default for ScrapingStats {
    fn default() -> (stats: Self)
        ensures
            stats@ == (StatsSnapshot {
                pages_scraped: 0,
                files_downloaded: 0,
                bytes_downloaded: 0,
                errors: 0,
            }),
    {
        ScrapingStats { pages_scraped: 0, files_downloaded: 0, bytes_downloaded: 0, errors: 0 }
    }
}

impl ScrapingStats {
    /// Counters that all stand at zero.
    pub fn new() -> (stats: Self)
        ensures
            stats@ == (StatsSnapshot {
                pages_scraped: 0,
                files_downloaded: 0,
                bytes_downloaded: 0,
                errors: 0,
            }),
    {
        ScrapingStats { pages_scraped: 0, files_downloaded: 0, bytes_downloaded: 0, errors: 0 }
    }

    /// Counts one visited page.
    pub fn increment_pages(&mut self)
        ensures
            final(self)@ == (StatsSnapshot {
                pages_scraped: advanced(old(self)@.pages_scraped, 1),
                ..old(self)@
            }),
            not_below(final(self)@, old(self)@),
    {
        self.pages_scraped = self.pages_scraped.saturating_add(1);
    }

    /// Counts one downloaded file.
    pub fn increment_files(&mut self)
        ensures
            final(self)@ == (StatsSnapshot {
                files_downloaded: advanced(old(self)@.files_downloaded, 1),
                ..old(self)@
            }),
            not_below(final(self)@, old(self)@),
    {
        self.files_downloaded = self.files_downloaded.saturating_add(1);
    }

    /// Counts `bytes` transferred bytes.
    pub fn add_bytes(&mut self, bytes: usize)
        ensures
            final(self)@ == (StatsSnapshot {
                bytes_downloaded: advanced(old(self)@.bytes_downloaded, bytes),
                ..old(self)@
            }),
            not_below(final(self)@, old(self)@),
    {
        self.bytes_downloaded = self.bytes_downloaded.saturating_add(bytes);
    }

    /// Counts one error.
    pub fn increment_errors(&mut self)
        ensures
            final(self)@ == (StatsSnapshot {
                errors: advanced(old(self)@.errors, 1),
                ..old(self)@
            }),
            not_below(final(self)@, old(self)@),
    {
        self.errors = self.errors.saturating_add(1);
    }

    /// The counters as they stand now.
    pub fn snapshot(&self) -> (now: StatsSnapshot)
        ensures
            now == self@,
    {
        StatsSnapshot {
            pages_scraped: self.pages_scraped,
            files_downloaded: self.files_downloaded,
            bytes_downloaded: self.bytes_downloaded,
            errors: self.errors,
        }
    }

    /// Whether a periodic report is due: after every tenth page.
    pub fn report_due(&self) -> (due: bool)
        ensures
            due == (self@.pages_scraped % REPORT_INTERVAL == 0),
    {
        self.pages_scraped % REPORT_INTERVAL == 0
    }
}

impl StatsSnapshot {
    /// The transferred bytes in whole megabytes, rounded down.
    pub fn megabytes_downloaded(&self) -> (megabytes: usize)
        ensures
            megabytes == self.bytes_downloaded / BYTES_PER_MEGABYTE,
    {
        self.bytes_downloaded / BYTES_PER_MEGABYTE
    }
}

/// A counter never goes down, and goes up by what was counted while there is room.
pub proof fn lemma_advanced_is_monotonic(count: usize, by: usize)
    ensures
        advanced(count, by) >= count,
        count + by <= usize::MAX ==> advanced(count, by) == count + by,
        advanced(count, 0) == count,
{
}

} // verus!
