//! The decision whether a newly found file is copied.
use vstd::prelude::*;
use crate::index::{spec_insert, ExistingIndex, MediaFile};

verus! {

/// What happens to a newly found file.
#[derive(Debug, Clone, Copy, PartialEq, Eq, Structural)]
pub enum Decision {
    /// The archive holds the file already, in the same or a better quality.
    Skip,
    /// The archive holds smaller files of this name and moment only; the
    /// file is copied beside them, and nothing is removed.
    CopyAsHigherQuality,
    /// The archive holds no file of this name and moment.
    CopyAsNew,
}

/// Whether one of `files` is at least `size` bytes long.
pub open spec fn covered(files: Seq<MediaFile>, size: u64) -> bool {
    exists|i: int| 0 <= i < files.len() && size <= (#[trigger] files[i]).size
}

/// The decision for a file of `size` bytes, given the archived files that
/// share its fingerprint (`None` where the index has no such fingerprint).
///
/// Size stands in for quality: a larger file of the same name and moment is
/// taken to be the better copy.
pub open spec fn spec_decide(matched: Option<Seq<MediaFile>>, size: u64) -> Decision {
    match matched {
        None => Decision::CopyAsNew,
        Some(files) => if covered(files, size) {
            Decision::Skip
        } else {
            Decision::CopyAsHigherQuality
        },
    }
}

/// The files of `index` under `key`.
pub open spec fn spec_lookup(index: Map<u64, Seq<MediaFile>>, key: u64) -> Option<Seq<MediaFile>> {
    if index.contains_key(key) {
        Some(index[key])
    } else {
        None
    }
}

/// The decision for a file with fingerprint `key` and `size` bytes.
pub open spec fn spec_resolve(index: Map<u64, Seq<MediaFile>>, key: u64, size: u64) -> Decision {
    spec_decide(spec_lookup(index, key), size)
}

/// Decides on a file of `size` bytes, given the archived files that share
/// its fingerprint.
pub fn decide(matched: Option<&Vec<MediaFile>>, size: u64) -> (decision: Decision)
    ensures
        decision == spec_decide(
            match matched {
                Some(files) => Some(files@),
                None => None,
            },
            size,
        ),
{
    match matched {
        None => Decision::CopyAsNew,
        Some(files) => {
            let mut i: usize = 0;
            while i < files.len()
                invariant
                    matched == Some(files),
                    i <= files@.len(),
                    forall|j: int| 0 <= j < i ==> (#[trigger] files@[j]).size < size,
                decreases files@.len() - i,
            {
                if size <= files[i].size {
                    assert(size <= files@[i as int].size);
                    return Decision::Skip;
                }
                i += 1;
            }
            Decision::CopyAsHigherQuality
        },
    }
}

impl ExistingIndex {
    /// Decides on a file with fingerprint `key` and `size` bytes: a copy as
    /// new where the index has no such fingerprint, a skip where one of the
    /// files under it is as large or larger, a copy as the better version
    /// where the file is larger than all of them.
    pub fn resolve(&self, key: u64, size: u64) -> (decision: Decision)
        ensures
            decision == spec_resolve(self@, key, size),
            decision == Decision::CopyAsNew <==> !self@.contains_key(key),
            decision == Decision::Skip <==> self@.contains_key(key) && covered(self@[key], size),
    {
        decide(self.lookup(key), size)
    }
}

/// A file whose fingerprint the index does not hold is copied as new.
pub proof fn lemma_unmatched_is_copied_as_new(index: Map<u64, Seq<MediaFile>>, key: u64, size: u64)
    requires
        !index.contains_key(key),
    ensures
        spec_resolve(index, key, size) == Decision::CopyAsNew,
{
}

/// A file is skipped when an indexed file of its fingerprint has exactly its
/// size.
pub proof fn lemma_same_size_is_skipped(
    index: Map<u64, Seq<MediaFile>>,
    key: u64,
    size: u64,
    i: int,
)
    requires
        index.contains_key(key),
        0 <= i < index[key].len(),
        index[key][i].size == size,
    ensures
        spec_resolve(index, key, size) == Decision::Skip,
{
}

/// A file is skipped when it is no larger than an indexed file of its
/// fingerprint.
pub proof fn lemma_not_larger_is_skipped(
    index: Map<u64, Seq<MediaFile>>,
    key: u64,
    size: u64,
    i: int,
)
    requires
        index.contains_key(key),
        0 <= i < index[key].len(),
        size <= index[key][i].size,
    ensures
        spec_resolve(index, key, size) == Decision::Skip,
{
}

/// A file that is larger than every indexed file of its fingerprint is
/// copied as the better version.
pub proof fn lemma_larger_is_copied_as_higher_quality(
    index: Map<u64, Seq<MediaFile>>,
    key: u64,
    size: u64,
)
    requires
        index.contains_key(key),
        forall|i: int| 0 <= i < index[key].len() ==> (#[trigger] index[key][i]).size < size,
    ensures
        spec_resolve(index, key, size) == Decision::CopyAsHigherQuality,
{
}

/// Every file gets exactly one of the three decisions, and which one is
/// fixed by the index, the fingerprint and the size.
pub proof fn lemma_decision_cases(index: Map<u64, Seq<MediaFile>>, key: u64, size: u64)
    ensures
        spec_resolve(index, key, size) == Decision::CopyAsNew <==> !index.contains_key(key),
        spec_resolve(index, key, size) == Decision::Skip <==> index.contains_key(key) && covered(
            index[key],
            size,
        ),
        spec_resolve(index, key, size) == Decision::CopyAsHigherQuality <==> index.contains_key(key)
            && !covered(index[key], size),
{
}

/// A file that was skipped stays skipped when more files are indexed.
pub proof fn lemma_skip_survives_insert(
    index: Map<u64, Seq<MediaFile>>,
    added: MediaFile,
    key: u64,
    size: u64,
)
    requires
        spec_resolve(index, key, size) == Decision::Skip,
    ensures
        spec_resolve(spec_insert(index, added), key, size) == Decision::Skip,
{
    let i = choose|i: int| 0 <= i < index[key].len() && size <= (#[trigger] index[key][i]).size;
    let after = spec_insert(index, added);
    if key == added.spec_key() {
        assert(after[key][i] == index[key][i]);
    } else {
        assert(after[key] == index[key]);
    }
    assert(size <= after[key][i].size);
}

/// A file that has been indexed is skipped when it is found again.
pub proof fn lemma_indexed_is_skipped(index: Map<u64, Seq<MediaFile>>, file: MediaFile)
    ensures
        spec_resolve(spec_insert(index, file), file.spec_key(), file.size) == Decision::Skip,
{
    let after = spec_insert(index, file);
    let key = file.spec_key();
    let last = after[key].len() - 1;
    assert(after[key][last] == file);
}

} // verus!
