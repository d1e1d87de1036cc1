//! Counters of one run.
use vstd::prelude::*;
use crate::resolver::Decision;

verus! {

/// What a run has done so far.
#[derive(Debug, Clone, Copy, PartialEq, Eq, Structural)]
pub struct Statistics {
    /// Files found under the search roots and decided on.
    pub found: u64,
    /// Files whose fingerprint was in the index.
    pub matched_existing: u64,
    /// Files that were not copied.
    pub skipped: u64,
    /// Files copied as the better version of an archived file.
    pub copied_as_higher_quality: u64,
    /// Files copied because the archive had no such file.
    pub copied_as_new: u64,
}

impl Statistics {
    /// All counters at zero.
    pub open spec fn spec_new() -> Statistics {
        Statistics {
            found: 0,
            matched_existing: 0,
            skipped: 0,
            copied_as_higher_quality: 0,
            copied_as_new: 0,
        }
    }

    /// Every found file has exactly one decision, and the matched files are
    /// those that were skipped or copied as the better version.
    pub open spec fn wf(self) -> bool {
        &&& self.found == self.skipped + self.copied_as_higher_quality + self.copied_as_new
        &&& self.matched_existing == self.skipped + self.copied_as_higher_quality
    }

    /// The counters after one more file with `decision`.
    pub open spec fn spec_record(self, decision: Decision) -> Statistics
        recommends
            self.wf(),
            self.found < u64::MAX,
    {
        match decision {
            Decision::Skip => Statistics {
                found: (self.found + 1) as u64,
                matched_existing: (self.matched_existing + 1) as u64,
                skipped: (self.skipped + 1) as u64,
                ..self
            },
            Decision::CopyAsHigherQuality => Statistics {
                found: (self.found + 1) as u64,
                matched_existing: (self.matched_existing + 1) as u64,
                copied_as_higher_quality: (self.copied_as_higher_quality + 1) as u64,
                ..self
            },
            Decision::CopyAsNew => Statistics {
                found: (self.found + 1) as u64,
                copied_as_new: (self.copied_as_new + 1) as u64,
                ..self
            },
        }
    }

    /// The number of files copied, for either reason.
    pub open spec fn spec_copied(self) -> int {
        self.copied_as_higher_quality + self.copied_as_new
    }

    /// All counters at zero.
    pub fn new() -> (stats: Statistics)
        ensures
            stats == Statistics::spec_new(),
            stats.wf(),
    {
        Statistics {
            found: 0,
            matched_existing: 0,
            skipped: 0,
            copied_as_higher_quality: 0,
            copied_as_new: 0,
        }
    }

    /// Counts one more file with `decision`.
    pub fn record(&mut self, decision: Decision)
        requires
            old(self).wf(),
            old(self).found < u64::MAX,
        ensures
            *final(self) == old(self).spec_record(decision),
            final(self).wf(),
            final(self).found == old(self).found + 1,
    {
        self.found = self.found + 1;
        match decision {
            Decision::Skip => {
                self.matched_existing = self.matched_existing + 1;
                self.skipped = self.skipped + 1;
            },
            Decision::CopyAsHigherQuality => {
                self.matched_existing = self.matched_existing + 1;
                self.copied_as_higher_quality = self.copied_as_higher_quality + 1;
            },
            Decision::CopyAsNew => {
                self.copied_as_new = self.copied_as_new + 1;
            },
        }
    }

    /// The number of files copied, for either reason.
    pub fn copied(&self) -> (count: u64)
        requires
            self.wf(),
        ensures
            count == self.spec_copied(),
    {
        self.copied_as_higher_quality + self.copied_as_new
    }
}

} // verus!
