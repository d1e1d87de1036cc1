//! One run over the newly found files: what is copied, and where to.
use vstd::prelude::*;
use vstd::string::*;
use crate::error::SyncError;
use crate::index::{spec_index_of_found, ExistingIndex, FoundFile, MediaFile};
use crate::resolver::{
    lemma_indexed_is_skipped,
    lemma_skip_survives_insert,
    spec_decide,
    spec_resolve,
    Decision,
};
use crate::stats::Statistics;

verus! {

/// A copy that is to be made: the file at `source` goes into the date
/// directory `directory` below the target root, under the name `file_name`.
#[derive(Debug)]
pub struct CopyTask {
    /// Full path of the file to copy.
    pub source: String,
    /// Name of the date directory below the target root.
    pub directory: String,
    /// Name of the copy, which is the name of the source file.
    pub file_name: String,
    /// Why the file is copied.
    pub reason: Decision,
}

/// What a whole run asks for, and its counters.
#[derive(Debug)]
pub struct SyncPlan {
    /// The copies to make, in the order in which the files were found.
    pub tasks: Vec<CopyTask>,
    /// The counters of the run.
    pub stats: Statistics,
}

/// The decision for a found file, or `None` where the file matches the index
/// and its size is unknown. The size of a file that matches nothing is not
/// looked at.
pub open spec fn spec_outcome(index: Map<u64, Seq<MediaFile>>, found: FoundFile) -> Option<Decision> {
    let key = found.spec_key();
    if !index.contains_key(key) {
        Some(Decision::CopyAsNew)
    } else {
        match found.size {
            Some(size) => Some(spec_decide(Some(index[key]), size)),
            None => None,
        }
    }
}

/// Whether `task` copies `found`, for the reason `decision`, into the
/// directory of its capture date and under its own name.
pub open spec fn task_matches(task: CopyTask, found: FoundFile, decision: Decision) -> bool {
    &&& task.source@ == found.path@
    &&& task.directory@ == found.spec_created().spec_date_dir_name()
    &&& task.file_name@ == found.name@
    &&& task.reason == decision
}

/// Whether every file of `found` gets a decision.
pub open spec fn all_decided(index: Map<u64, Seq<MediaFile>>, found: Seq<FoundFile>) -> bool {
    forall|i: int| 0 <= i < found.len() ==> spec_outcome(index, #[trigger] found[i]) is Some
}

/// The positions in `found` of the files that are copied, in rising order.
pub open spec fn spec_copy_positions(index: Map<u64, Seq<MediaFile>>, found: Seq<FoundFile>) -> Seq<
    int,
>
    decreases found.len(),
{
    if found.len() == 0 {
        Seq::empty()
    } else {
        let before = spec_copy_positions(index, found.drop_last());
        match spec_outcome(index, found.last()) {
            Some(Decision::Skip) => before,
            Some(_) => before.push(found.len() - 1),
            None => before,
        }
    }
}

/// Whether the task at place `j` of `tasks` is the copy of the `j`-th file
/// of `found` that is not skipped.
pub open spec fn task_matches_at(
    index: Map<u64, Seq<MediaFile>>,
    found: Seq<FoundFile>,
    tasks: Seq<CopyTask>,
    j: int,
) -> bool {
    let at = spec_copy_positions(index, found)[j];
    &&& 0 <= at < found.len()
    &&& spec_outcome(index, found[at]) is Some
    &&& task_matches(tasks[j], found[at], spec_outcome(index, found[at])->0)
}

/// Whether `tasks` lists, in order, one matching copy for each file of
/// `found` that is not skipped.
pub open spec fn tasks_match(
    index: Map<u64, Seq<MediaFile>>,
    found: Seq<FoundFile>,
    tasks: Seq<CopyTask>,
) -> bool {
    &&& tasks.len() == spec_copy_positions(index, found).len()
    &&& forall|j: int| 0 <= j < tasks.len() ==> #[trigger] task_matches_at(index, found, tasks, j)
}

/// The counters after a run over `found`, every file of which gets a
/// decision.
pub open spec fn spec_run_stats(index: Map<u64, Seq<MediaFile>>, found: Seq<FoundFile>) -> Statistics
    decreases found.len(),
{
    if found.len() == 0 {
        Statistics::spec_new()
    } else {
        let before = spec_run_stats(index, found.drop_last());
        match spec_outcome(index, found.last()) {
            Some(decision) => before.spec_record(decision),
            None => before,
        }
    }
}

/// The counters of a run are consistent and count every file once.
pub proof fn lemma_run_stats(index: Map<u64, Seq<MediaFile>>, found: Seq<FoundFile>)
    requires
        all_decided(index, found),
        found.len() <= u64::MAX,
    ensures
        spec_run_stats(index, found).wf(),
        spec_run_stats(index, found).found == found.len(),
        spec_run_stats(index, found).spec_copied() == spec_copy_positions(index, found).len(),
    decreases found.len(),
{
    if found.len() > 0 {
        let rest = found.drop_last();
        assert forall|i: int| 0 <= i < rest.len() implies spec_outcome(
            index,
            #[trigger] rest[i],
        ) is Some by {
            assert(rest[i] == found[i]);
        }
        lemma_run_stats(index, rest);
        assert(spec_outcome(index, found[found.len() - 1]) is Some);
    }
}

/// A list of copies that matches a run stays matching when the run goes on
/// by one file: unchanged where the file is skipped, longer by the file's
/// copy where it is not.
proof fn lemma_plan_grows(
    index: Map<u64, Seq<MediaFile>>,
    found: Seq<FoundFile>,
    before: Seq<CopyTask>,
    after: Seq<CopyTask>,
)
    requires
        found.len() > 0,
        tasks_match(index, found.drop_last(), before),
        spec_outcome(index, found.last()) is Some,
        spec_outcome(index, found.last()) == Some(Decision::Skip) ==> after == before,
        spec_outcome(index, found.last()) != Some(Decision::Skip) ==> after.len() == before.len() + 1
            && after.drop_last() == before && task_matches(
            after.last(),
            found.last(),
            spec_outcome(index, found.last())->0,
        ),
    ensures
        tasks_match(index, found, after),
{
    let rest = found.drop_last();
    let positions_before = spec_copy_positions(index, rest);
    let positions = spec_copy_positions(index, found);
    if spec_outcome(index, found.last()) == Some(Decision::Skip) {
        assert(positions == positions_before);
    } else {
        assert(positions == positions_before.push(found.len() - 1));
    }
    assert(after.len() == positions.len());
    assert forall|j: int| 0 <= j < after.len() implies #[trigger] task_matches_at(
        index,
        found,
        after,
        j,
    ) by {
        if j < before.len() {
            assert(task_matches_at(index, rest, before, j));
            assert(after[j] == before[j]) by {
                if after != before {
                    assert(after.drop_last()[j] == after[j]);
                }
            }
            assert(positions[j] == positions_before[j]);
            let at = positions_before[j];
            assert(0 <= at < rest.len());
            assert(rest[at] == found[at]);
        } else {
            assert(positions[j] == found.len() - 1);
            assert(after[j] == after.last());
        }
    }
}

/// Decides on one found file, counts it, and says which copy it asks for.
///
/// A file that matches nothing in the index is copied as new, whatever is
/// known of its size. A file that matches and whose size is unknown ends the
/// run with an error, and is not counted. Otherwise the sizes decide. A copy
/// goes into the directory of the file's capture date, under its own name.
pub fn sync_step(index: &ExistingIndex, stats: &mut Statistics, found: &FoundFile) -> (result: Result<
    Option<CopyTask>,
    SyncError,
>)
    requires
        old(stats).wf(),
        old(stats).found < u64::MAX,
    ensures
        final(stats).wf(),
        match spec_outcome(index@, *found) {
            None => *final(stats) == *old(stats) && (result matches Err(
                SyncError::ResolutionIo(path),
            ) && path@ == found.path@),
            Some(decision) => *final(stats) == old(stats).spec_record(decision) && match result {
                Ok(Some(task)) => decision != Decision::Skip && task_matches(task, *found, decision),
                Ok(None) => decision == Decision::Skip,
                Err(_) => false,
            },
        },
{
    let key: u64 = found.key();
    let decision = if !index.contains(key) {
        Decision::CopyAsNew
    } else {
        match found.size {
            Some(size) => index.resolve(key, size),
            None => {
                return Err(SyncError::ResolutionIo(found.path.clone()));
            },
        }
    };
    stats.record(decision);
    match decision {
        Decision::Skip => Ok(None),
        _ => {
            let created = found.created_or_zero();
            Ok(
                Some(
                    CopyTask {
                        source: found.path.clone(),
                        directory: created.date_dir_name(),
                        file_name: found.name.clone(),
                        reason: decision,
                    },
                ),
            )
        },
    }
}

/// Plans a whole run over the newly found files, in their order.
///
/// The run succeeds exactly when every file gets a decision; it then lists
/// one copy for each file that is not skipped, and the counters. Otherwise
/// it fails at the first file that matches the index while its size is
/// unknown, and names that file's path.
pub fn sync_media_files(index: &ExistingIndex, found: &[FoundFile]) -> (result: Result<
    SyncPlan,
    SyncError,
>)
    ensures
        result is Ok <==> all_decided(index@, found@),
        result matches Ok(plan) ==> {
            &&& plan.stats == spec_run_stats(index@, found@)
            &&& plan.stats.wf()
            &&& plan.stats.found == found@.len()
            &&& plan.stats.spec_copied() == plan.tasks@.len()
            &&& tasks_match(index@, found@, plan.tasks@)
        },
        result matches Err(e) ==> exists|i: int|
            {
                &&& 0 <= i < found@.len()
                &&& all_decided(index@, found@.take(i))
                &&& spec_outcome(index@, #[trigger] found@[i]) is None
                &&& e matches SyncError::ResolutionIo(path) && path@ == found@[i].path@
            },
{
    let mut tasks: Vec<CopyTask> = Vec::new();
    let mut stats = Statistics::new();
    let mut i: usize = 0;
    while i < found.len()
        invariant
            i <= found@.len(),
            all_decided(index@, found@.take(i as int)),
            stats == spec_run_stats(index@, found@.take(i as int)),
            stats.wf(),
            stats.found == i,
            tasks_match(index@, found@.take(i as int), tasks@),
        decreases found@.len() - i,
    {
        let ghost done = found@.take(i as int);
        let ghost next = found@.take(i + 1);
        assert(next.drop_last() =~= done);
        assert(next.last() == found@[i as int]);
        let ghost tasks_before = tasks@;
        match sync_step(index, &mut stats, &found[i]) {
            Err(e) => {
                assert(spec_outcome(index@, found@[i as int]) is None);
                return Err(e);
            },
            Ok(Some(task)) => {
                tasks.push(task);
                assert(tasks@.drop_last() =~= tasks_before);
            },
            Ok(None) => {},
        }
        proof {
            assert forall|k: int| 0 <= k < next.len() implies spec_outcome(
                index@,
                #[trigger] next[k],
            ) is Some by {
                if k < i {
                    assert(done[k] == next[k]);
                }
            }
            lemma_plan_grows(index@, next, tasks_before, tasks@);
        }
        i += 1;
    }
    assert(found@.take(i as int) =~= found@);
    proof {
        lemma_run_stats(index@, found@);
    }
    Ok(SyncPlan { tasks, stats })
}

/// A found file is skipped when the archive was indexed from a list that
/// holds a file of the same name, capture instant and size.
pub proof fn lemma_archived_is_skipped(archive: Seq<FoundFile>, i: int, found: FoundFile)
    requires
        0 <= i < archive.len(),
        archive[i].size is Some,
        found.size == archive[i].size,
        found.spec_key() == archive[i].spec_key(),
    ensures
        spec_outcome(spec_index_of_found(archive), found) == Some(Decision::Skip),
    decreases archive.len(),
{
    let size = found.size->0;
    let key = found.spec_key();
    let rest = archive.drop_last();
    let before = spec_index_of_found(rest);
    if i == archive.len() - 1 {
        let file = MediaFile::spec_from_found(archive.last())->0;
        lemma_indexed_is_skipped(before, file);
    } else {
        assert(rest[i] == archive[i]);
        lemma_archived_is_skipped(rest, i, found);
        match MediaFile::spec_from_found(archive.last()) {
            Some(file) => {
                assert(spec_resolve(before, key, size) == Decision::Skip);
                lemma_skip_survives_insert(before, file, key, size);
            },
            None => {},
        }
    }
}

/// A run over files that are all skipped copies nothing and counts every
/// file as found, matched and skipped.
pub proof fn lemma_all_skipped_run(index: Map<u64, Seq<MediaFile>>, found: Seq<FoundFile>)
    requires
        forall|i: int|
            0 <= i < found.len() ==> spec_outcome(index, #[trigger] found[i]) == Some(Decision::Skip),
        found.len() <= u64::MAX,
    ensures
        all_decided(index, found),
        spec_copy_positions(index, found).len() == 0,
        spec_run_stats(index, found) == (Statistics {
            found: found.len() as u64,
            matched_existing: found.len() as u64,
            skipped: found.len() as u64,
            copied_as_higher_quality: 0,
            copied_as_new: 0,
        }),
    decreases found.len(),
{
    if found.len() > 0 {
        let rest = found.drop_last();
        assert forall|i: int| 0 <= i < rest.len() implies spec_outcome(index, #[trigger] rest[i])
            == Some(Decision::Skip) by {
            assert(rest[i] == found[i]);
        }
        lemma_all_skipped_run(index, rest);
        assert(spec_outcome(index, found[found.len() - 1]) == Some(Decision::Skip));
    }
}

/// Running again over an archive that holds every file copies nothing: when
/// the index was built from the very files that are found, each with a
/// known size, every one of them is skipped.
pub proof fn lemma_rerun_copies_nothing(archive: Seq<FoundFile>)
    requires
        forall|i: int| 0 <= i < archive.len() ==> (#[trigger] archive[i]).size is Some,
        archive.len() <= u64::MAX,
    ensures
        all_decided(spec_index_of_found(archive), archive),
        spec_copy_positions(spec_index_of_found(archive), archive).len() == 0,
        spec_run_stats(spec_index_of_found(archive), archive).skipped == archive.len(),
        spec_run_stats(spec_index_of_found(archive), archive).found == archive.len(),
        spec_run_stats(spec_index_of_found(archive), archive).spec_copied() == 0,
{
    let index = spec_index_of_found(archive);
    assert forall|i: int| 0 <= i < archive.len() implies spec_outcome(index, #[trigger] archive[i])
        == Some(Decision::Skip) by {
        lemma_archived_is_skipped(archive, i, archive[i]);
    }
    lemma_all_skipped_run(index, archive);
}

} // verus!
