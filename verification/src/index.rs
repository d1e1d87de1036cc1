//! The index of the files that are already archived.
use vstd::prelude::*;
use vstd::string::*;
use std::collections::HashMap;
use crate::capture::CaptureTime;
use crate::fingerprint::{fingerprint, spec_fingerprint};

verus! {

/// What the crawl, the metadata lookup and the size query report of one
/// file: its location and name, its capture time if the file carries one,
/// and its size if it could be read.
#[derive(Debug)]
pub struct FoundFile {
    /// Full path of the file.
    pub path: String,
    /// Name of the file, without its directories.
    pub name: String,
    /// Capture time from the file's metadata, if it has any.
    pub created: Option<CaptureTime>,
    /// Size in bytes, or `None` if it could not be read.
    pub size: Option<u64>,
}

/// One file known to the archive.
#[derive(Debug)]
pub struct MediaFile {
    /// Full path of the file.
    pub path: String,
    /// Name of the file, without its directories.
    pub name: String,
    /// Capture time; the zero value where the file carries none.
    pub created: CaptureTime,
    /// Size in bytes.
    pub size: u64,
}

impl Clone for FoundFile {
    fn clone(&self) -> (copy: FoundFile)
        ensures
            copy == *self,
    {
        FoundFile {
            path: self.path.clone(),
            name: self.name.clone(),
            created: self.created,
            size: self.size,
        }
    }
}

impl Clone for MediaFile {
    fn clone(&self) -> (copy: MediaFile)
        ensures
            copy == *self,
    {
        MediaFile {
            path: self.path.clone(),
            name: self.name.clone(),
            created: self.created,
            size: self.size,
        }
    }
}

impl FoundFile {
    /// The capture time that the file is filed under: its own, or the zero
    /// value.
    pub open spec fn spec_created(self) -> CaptureTime {
        match self.created {
            Some(t) => t,
            None => CaptureTime::spec_zero(),
        }
    }

    /// The fingerprint of the file.
    pub open spec fn spec_key(self) -> u64 {
        spec_fingerprint(self.name@, self.spec_created())
    }

    /// The capture time that the file is filed under: its own, or the zero
    /// value where it has none.
    pub fn created_or_zero(&self) -> (time: CaptureTime)
        ensures
            time == self.spec_created(),
    {
        CaptureTime::or_zero(self.created)
    }

    /// The fingerprint of the file.
    pub fn key(&self) -> (key: u64)
        ensures
            key == self.spec_key(),
    {
        let created = self.created_or_zero();
        fingerprint(self.name.as_str(), &created)
    }
}

impl MediaFile {
    /// The fingerprint of the file.
    pub open spec fn spec_key(self) -> u64 {
        spec_fingerprint(self.name@, self.created)
    }

    /// The descriptor of a found file, or `None` where its size is unknown.
    pub open spec fn spec_from_found(found: FoundFile) -> Option<MediaFile> {
        match found.size {
            Some(size) => Some(
                MediaFile {
                    path: found.path,
                    name: found.name,
                    created: found.spec_created(),
                    size,
                },
            ),
            None => None,
        }
    }

    /// The fingerprint of the file.
    pub fn key(&self) -> (key: u64)
        ensures
            key == self.spec_key(),
    {
        fingerprint(self.name.as_str(), &self.created)
    }

    /// Describes a found file. A missing capture time becomes the zero
    /// value; a file whose size could not be read has no descriptor.
    pub fn try_from_found(found: &FoundFile) -> (file: Option<MediaFile>)
        ensures
            file == MediaFile::spec_from_found(*found),
    {
        match found.size {
            Some(size) => Some(
                MediaFile {
                    path: found.path.clone(),
                    name: found.name.clone(),
                    created: found.created_or_zero(),
                    size,
                },
            ),
            None => None,
        }
    }
}

/// An index with `file` added: appended to the files of its fingerprint.
pub open spec fn spec_insert(index: Map<u64, Seq<MediaFile>>, file: MediaFile) -> Map<
    u64,
    Seq<MediaFile>,
> {
    let key = file.spec_key();
    if index.contains_key(key) {
        index.insert(key, index[key].push(file))
    } else {
        index.insert(key, seq![file])
    }
}

/// The index of `files`, inserted in their order.
pub open spec fn spec_index_of(files: Seq<MediaFile>) -> Map<u64, Seq<MediaFile>>
    decreases files.len(),
{
    if files.len() == 0 {
        Map::empty()
    } else {
        spec_insert(spec_index_of(files.drop_last()), files.last())
    }
}

/// The index of the found files whose size is known, inserted in their
/// order; the others are left out.
pub open spec fn spec_index_of_found(found: Seq<FoundFile>) -> Map<u64, Seq<MediaFile>>
    decreases found.len(),
{
    if found.len() == 0 {
        Map::empty()
    } else {
        let before = spec_index_of_found(found.drop_last());
        match MediaFile::spec_from_found(found.last()) {
            Some(file) => spec_insert(before, file),
            None => before,
        }
    }
}

/// Whether every fingerprint of `index` has at least one file, and every
/// file stands under its own fingerprint.
pub open spec fn index_wf(index: Map<u64, Seq<MediaFile>>) -> bool {
    forall|key: u64| #[trigger]
        index.contains_key(key) ==> index[key].len() > 0 && forall|i: int|
            0 <= i < index[key].len() ==> (#[trigger] index[key][i]).spec_key() == key
}

/// Insertion keeps an index well-formed.
pub proof fn lemma_insert_wf(index: Map<u64, Seq<MediaFile>>, file: MediaFile)
    requires
        index_wf(index),
    ensures
        index_wf(spec_insert(index, file)),
{
    let after = spec_insert(index, file);
    assert forall|key: u64| #[trigger] after.contains_key(key) implies after[key].len() > 0
        && forall|i: int|
        0 <= i < after[key].len() ==> (#[trigger] after[key][i]).spec_key() == key by {
        if key != file.spec_key() {
            assert(index.contains_key(key));
        } else if index.contains_key(key) {
        }
    }
}

/// The files already archived, by fingerprint.
///
/// Files that share a fingerprint are all kept, in the order of their
/// insertion: a later file never replaces an earlier one.
pub struct ExistingIndex {
    buckets: HashMap<u64, Vec<MediaFile>>,
}

impl View for ExistingIndex {
    type V = Map<u64, Seq<MediaFile>>;

    closed spec fn view(&self) -> Map<u64, Seq<MediaFile>> {
        Map::new(|key: u64| self.buckets@.contains_key(key), |key: u64| self.buckets@[key]@)
    }
}

impl ExistingIndex {
    /// Whether the index is well-formed.
    pub open spec fn wf(&self) -> bool {
        index_wf(self@)
    }

    /// The empty index.
    pub fn new() -> (index: ExistingIndex)
        ensures
            index@ == Map::<u64, Seq<MediaFile>>::empty(),
            index.wf(),
    {
        let index = ExistingIndex { buckets: HashMap::new() };
        assert(index@ =~= Map::<u64, Seq<MediaFile>>::empty());
        index
    }

    /// Adds `file` under its fingerprint, behind the files that are there.
    pub fn insert(&mut self, file: MediaFile)
        ensures
            final(self)@ == spec_insert(old(self)@, file),
            old(self).wf() ==> final(self).wf(),
    {
        let key: u64 = file.key();
        let mut bucket: Vec<MediaFile> = match self.buckets.remove(&key) {
            Some(present) => present,
            None => Vec::new(),
        };
        bucket.push(file);
        self.buckets.insert(key, bucket);
        assert(self@ =~= spec_insert(old(self)@, file));
        proof {
            if old(self).wf() {
                lemma_insert_wf(old(self)@, file);
            }
        }
    }

    /// The files indexed under `key`, if there are any.
    pub fn lookup(&self, key: u64) -> (matched: Option<&Vec<MediaFile>>)
        ensures
            matched is Some <==> self@.contains_key(key),
            matched matches Some(files) ==> files@ == self@[key],
    {
        self.buckets.get(&key)
    }

    /// Tells whether a file is indexed under `key`.
    pub fn contains(&self, key: u64) -> (found: bool)
        ensures
            found == self@.contains_key(key),
    {
        self.buckets.contains_key(&key)
    }

    /// The number of fingerprints in the index.
    pub fn len(&self) -> (count: usize)
        ensures
            count == self@.dom().len(),
    {
        assert(self@.dom() =~= self.buckets@.dom());
        self.buckets.len()
    }

    /// Indexes `files` in their order.
    pub fn from_files(files: &[MediaFile]) -> (index: ExistingIndex)
        ensures
            index@ == spec_index_of(files@),
            index.wf(),
    {
        let mut index = ExistingIndex::new();
        let mut i: usize = 0;
        while i < files.len()
            invariant
                i <= files@.len(),
                index@ == spec_index_of(files@.take(i as int)),
                index.wf(),
            decreases files@.len() - i,
        {
            assert(files@.take(i + 1).drop_last() =~= files@.take(i as int));
            index.insert(files[i].clone());
            i += 1;
        }
        assert(files@.take(i as int) =~= files@);
        index
    }

    /// Indexes what was found under the archive's roots. A file whose size
    /// could not be read is left out; the others are indexed in their order.
    pub fn from_found(found: &[FoundFile]) -> (index: ExistingIndex)
        ensures
            index@ == spec_index_of_found(found@),
            index.wf(),
    {
        let mut index = ExistingIndex::new();
        let mut i: usize = 0;
        while i < found.len()
            invariant
                i <= found@.len(),
                index@ == spec_index_of_found(found@.take(i as int)),
                index.wf(),
            decreases found@.len() - i,
        {
            assert(found@.take(i + 1).drop_last() =~= found@.take(i as int));
            match MediaFile::try_from_found(&found[i]) {
                Some(file) => {
                    index.insert(file);
                },
                None => {},
            }
            i += 1;
        }
        assert(found@.take(i as int) =~= found@);
        index
    }
}

} // verus!
