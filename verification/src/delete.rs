//! Deleting the marked files.
//!
//! A file is deleted only if it is listed, lies in the scope of the session, is
//! a regular file, and has not changed since the scan.

use vstd::prelude::*;

use crate::assoc::Key;
use crate::path::{path_within, paths_of, MediaPath, PathNames};
use crate::queue::all_removed;
use crate::state::{entries_of, lists_path, AppState, EntryView, MediaEntry, StateView};

verus! {

/// What was found at a path just before its deletion.
#[derive(Debug)]
pub struct FileProbe {
    /// The path without symbolic links, or why it could not be resolved.
    pub canonical: Result<MediaPath, String>,
    /// What is at the path, or why it could not be read.
    pub metadata: Result<FileFacts, String>,
}

/// What a path names, symbolic links not followed.
#[derive(Debug, Clone, Copy, PartialEq, Eq, Structural)]
pub struct FileFacts {
    pub is_symlink: bool,
    pub is_file: bool,
    pub len: u64,
    /// Nanoseconds since the Unix epoch.
    pub modified: Option<i128>,
}

/// The contents of a [`FileProbe`].
pub struct ProbeView {
    pub canonical: Result<PathNames, Seq<char>>,
    pub metadata: Result<FileFacts, Seq<char>>,
}

impl View for FileProbe {
    type V = ProbeView;

    open spec fn view(&self) -> ProbeView {
        ProbeView {
            canonical: match self.canonical {
                Ok(path) => Ok(path@),
                Err(error) => Err(error@),
            },
            metadata: match self.metadata {
                Ok(facts) => Ok(facts),
                Err(error) => Err(error@),
            },
        }
    }
}

/// What became of one marked file.
#[derive(Debug)]
pub struct FileOutcome {
    pub probe: FileProbe,
    /// Why the removal failed; nothing where it succeeded or was not tried.
    pub removal_error: Option<String>,
}

/// The contents of a [`FileOutcome`].
pub struct OutcomeView {
    pub probe: ProbeView,
    pub removal_error: Option<Seq<char>>,
}

impl View for FileOutcome {
    type V = OutcomeView;

    open spec fn view(&self) -> OutcomeView {
        OutcomeView {
            probe: self.probe@,
            removal_error: crate::text::text_of(self.removal_error),
        }
    }
}

/// The contents of a list of outcomes.
pub open spec fn outcomes_of(outcomes: Seq<FileOutcome>) -> Seq<OutcomeView> {
    Seq::new(outcomes.len(), |i: int| outcomes[i]@)
}

/// The result of a deletion.
#[derive(Debug)]
pub struct DeleteReport {
    pub deleted: Vec<MediaPath>,
    pub failed: Vec<(MediaPath, String)>,
    pub dry_run: bool,
}

/// The contents of a [`DeleteReport`].
#[verifier::ext_equal]
pub struct ReportView {
    pub deleted: Seq<PathNames>,
    pub failed: Seq<(PathNames, Seq<char>)>,
    pub dry_run: bool,
}

impl View for DeleteReport {
    type V = ReportView;

    open spec fn view(&self) -> ReportView {
        ReportView {
            deleted: paths_of(self.deleted@),
            failed: failures_of(self.failed@),
            dry_run: self.dry_run,
        }
    }
}

/// The contents of a list of failures.
pub open spec fn failures_of(failed: Seq<(MediaPath, String)>) -> Seq<(PathNames, Seq<char>)> {
    Seq::new(failed.len(), |i: int| (failed[i].0@, failed[i].1@))
}

/// Whether the last entry with a path is at an index.
pub open spec fn last_at(entries: Seq<EntryView>, path: PathNames, index: int) -> bool {
    &&& 0 <= index < entries.len()
    &&& entries[index].path == path
    &&& forall|i: int| index < i < entries.len() ==> (#[trigger] entries[i]).path != path
}

/// The last entry with a path.
pub open spec fn discovered(entries: Seq<EntryView>, path: PathNames) -> Option<EntryView> {
    if exists|index: int| last_at(entries, path, index) {
        Some(entries[choose|index: int| last_at(entries, path, index)])
    } else {
        None
    }
}

/// Whether a resolved path lies in the scope of the session: among the
/// explicitly selected files where there are such, else in the directory.
pub open spec fn in_scope(state: StateView, canonical: PathNames) -> bool {
    match state.selected_files {
        Some(files) => files.contains(canonical),
        None => path_within(canonical, state.directory),
    }
}

/// Why an entry must not be deleted, given what was found at its path.
pub open spec fn refusal(state: StateView, entry: EntryView, probe: ProbeView) -> Option<
    Seq<char>,
> {
    match probe.canonical {
        Err(error) => Some("cannot canonicalize path: "@ + error),
        Ok(canonical) => if !in_scope(state, canonical) {
            Some("path is outside selected directory"@)
        } else {
            match probe.metadata {
                Err(error) => Some("cannot read metadata: "@ + error),
                Ok(facts) => if facts.is_symlink {
                    Some("refusing to delete symlink"@)
                } else if !facts.is_file {
                    Some("refusing to delete non-file"@)
                } else if facts.len != entry.file_len {
                    Some("file size changed since scan"@)
                } else if entry.modified is Some && facts.modified is Some && entry.modified
                    != facts.modified {
                    Some("modified time changed since scan"@)
                } else {
                    None
                },
            }
        },
    }
}

/// Why the file at a path must not be deleted.
pub open spec fn path_refusal(state: StateView, path: PathNames, probe: ProbeView) -> Option<
    Seq<char>,
> {
    match discovered(state.entries, path) {
        Some(entry) => refusal(state, entry, probe),
        None => Some("not discovered in current scan"@),
    }
}

/// Why a marked file was not deleted: it must not be, or its removal failed.
pub open spec fn failure(
    state: StateView,
    path: PathNames,
    outcome: OutcomeView,
    dry_run: bool,
) -> Option<Seq<char>> {
    match path_refusal(state, path, outcome.probe) {
        Some(reason) => Some(reason),
        None => if dry_run {
            None
        } else {
            outcome.removal_error
        },
    }
}

/// The report on the first `count` marked files.
pub open spec fn report_on(
    state: StateView,
    outcomes: Seq<OutcomeView>,
    dry_run: bool,
    count: nat,
) -> ReportView
    decreases count,
{
    if count == 0 {
        ReportView { deleted: Seq::empty(), failed: Seq::empty(), dry_run }
    } else {
        let front = report_on(state, outcomes, dry_run, (count - 1) as nat);
        let path = state.delete_queue[count - 1];
        match failure(state, path, outcomes[count - 1], dry_run) {
            Some(reason) => ReportView { failed: front.failed.push((path, reason)), ..front },
            None => ReportView { deleted: front.deleted.push(path), ..front },
        }
    }
}

/// The state after files were deleted: their marks and entries are gone.
pub open spec fn without_deleted(state: StateView, deleted: Seq<PathNames>) -> StateView {
    (StateView {
        delete_queue: all_removed(state.delete_queue, deleted),
        entries: state.entries.filter(|entry: EntryView| !deleted.contains(entry.path)),
        ..state
    }).index_clamped().next_generation()
}

/// The state after a deletion; a dry run leaves it as it is.
#[verifier::opaque]
pub open spec fn after_deletion(state: StateView, report: ReportView) -> StateView {
    if report.dry_run {
        state
    } else {
        without_deleted(state, report.deleted)
    }
}

/// The last entry with a path.
pub fn find_discovered<'a>(entries: &'a Vec<MediaEntry>, path: &MediaPath) -> (entry: Option<
    &'a MediaEntry,
>)
    ensures
        match entry {
            Some(entry) => discovered(entries_of(entries@), path@) == Some(entry@),
            None => discovered(entries_of(entries@), path@) is None,
        },
{
    let ghost all = entries_of(entries@);
    let mut index: usize = entries.len();
    while index > 0
        invariant
            all == entries_of(entries@),
            index <= all.len(),
            forall|i: int| index <= i < all.len() ==> (#[trigger] all[i]).path != path@,
        decreases index,
    {
        index -= 1;
        assert(all[index as int] == entries@[index as int]@);
        if entries[index].path.same(path) {
            proof {
                assert(last_at(all, path@, index as int));
                let found = choose|found: int| last_at(all, path@, found);
                if found < index {
                    assert(all[index as int].path != path@);
                }
                if index < found {
                    assert(all[found].path != path@);
                }
            }
            return Some(&entries[index]);
        }
    }
    None
}

/// Checks that an entry may be deleted, given what was found at its path.
fn safety_check(state: &AppState, entry: &MediaEntry, probe: &FileProbe) -> (result: Result<
    (),
    String,
>)
    ensures
        match result {
            Ok(()) => refusal(state@, entry@, probe@) is None,
            Err(reason) => refusal(state@, entry@, probe@) == Some(reason@),
        },
{
    let canonical = match &probe.canonical {
        Ok(path) => path,
        Err(error) => {
            return Err(crate::text::joined("cannot canonicalize path: ", error.as_str()));
        },
    };
    let inside = match &state.selected_files {
        Some(files) => files.contains(canonical),
        None => canonical.starts_with(&state.directory),
    };
    if !inside {
        return Err("path is outside selected directory".to_owned());
    }
    let facts = match &probe.metadata {
        Ok(facts) => *facts,
        Err(error) => {
            return Err(crate::text::joined("cannot read metadata: ", error.as_str()));
        },
    };
    if facts.is_symlink {
        return Err("refusing to delete symlink".to_owned());
    }
    if !facts.is_file {
        return Err("refusing to delete non-file".to_owned());
    }
    if facts.len != entry.file_len {
        return Err("file size changed since scan".to_owned());
    }
    match (entry.modified, facts.modified) {
        (Some(scanned), Some(current)) => {
            if scanned != current {
                return Err("modified time changed since scan".to_owned());
            }
        },
        _ => {},
    }
    Ok(())
}

/// Checks that the file at a path may be deleted, given what was found there.
pub fn check_deletion(state: &AppState, path: &MediaPath, probe: &FileProbe) -> (result: Result<
    (),
    String,
>)
    ensures
        match result {
            Ok(()) => path_refusal(state@, path@, probe@) is None,
            Err(reason) => path_refusal(state@, path@, probe@) == Some(reason@),
        },
{
    match find_discovered(&state.entries, path) {
        Some(entry) => safety_check(state, entry, probe),
        None => Err("not discovered in current scan".to_owned()),
    }
}

/// Whether the file at a path is to be removed now: it may be, and this is no dry run.
pub open spec fn to_be_removed(
    state: StateView,
    path: PathNames,
    probe: ProbeView,
    dry_run: bool,
) -> bool {
    !dry_run && path_refusal(state, path, probe) is None
}

/// Whether the file at a path is to be removed now.
pub fn removal_due(state: &AppState, path: &MediaPath, probe: &FileProbe, dry_run: bool) -> (due:
    bool)
    ensures
        due == to_be_removed(state@, path@, probe@, dry_run),
{
    !dry_run && check_deletion(state, path, probe).is_ok()
}

/// Reports what became of the marked files, and drops the deleted ones from the
/// state. There is one outcome for each marked file, in the order of the marks;
/// a removal is tried only where [`check_deletion`] allows it, and never in a
/// dry run.
pub fn delete_queued(state: &mut AppState, dry_run: bool, outcomes: &Vec<FileOutcome>) -> (report:
    DeleteReport)
    requires
        outcomes@.len() == old(state)@.delete_queue.len(),
    ensures
        report@ == report_on(
            old(state)@,
            outcomes_of(outcomes@),
            dry_run,
            old(state)@.delete_queue.len(),
        ),
        final(state)@ == after_deletion(old(state)@, report@),
{
    proof {
        reveal(after_deletion);
    }
    let mut deleted: Vec<MediaPath> = Vec::new();
    let mut failed: Vec<(MediaPath, String)> = Vec::new();
    let ghost view = state@;
    let ghost all = outcomes_of(outcomes@);
    let mut index: usize = 0;
    assert(paths_of(deleted@) =~= Seq::empty());
    assert(failures_of(failed@) =~= Seq::empty());
    while index < outcomes.len()
        invariant
            view == state@,
            all == outcomes_of(outcomes@),
            all.len() == view.delete_queue.len(),
            index <= all.len(),
            (ReportView { deleted: paths_of(deleted@), failed: failures_of(failed@), dry_run })
                == report_on(view, all, dry_run, index as nat),
        decreases all.len() - index,
    {
        let path = state.delete_queue.get(index);
        let outcome = &outcomes[index];
        assert(all[index as int] == outcome@);
        let ghost old_deleted = paths_of(deleted@);
        let ghost old_failed = failures_of(failed@);
        match check_deletion(state, &path, &outcome.probe) {
            Err(reason) => {
                failed.push((path, reason));
                assert(failures_of(failed@) =~= old_failed.push((path@, reason@)));
            },
            Ok(()) => {
                let error = if dry_run {
                    None
                } else {
                    crate::text::text_copy(&outcome.removal_error)
                };
                match error {
                    Some(reason) => {
                        failed.push((path, reason));
                        assert(failures_of(failed@) =~= old_failed.push((path@, reason@)));
                    },
                    None => {
                        deleted.push(path);
                        assert(paths_of(deleted@) =~= old_deleted.push(path@));
                    },
                }
            },
        }
        index += 1;
    }
    if !dry_run {
        state.delete_queue.remove_all(&deleted);
        remove_entries(&mut state.entries, &deleted);
        state.clamp_current_index();
        state.bump_generation();
    }
    DeleteReport { deleted, failed, dry_run }
}

impl AppState {
    /// Takes the answer to the question whether to delete the marked files, with
    /// what became of each.
    pub fn finish_deletion(&mut self, dry_run: bool, outcomes: &Vec<FileOutcome>) -> (report:
        DeleteReport)
        requires
            outcomes@.len() == old(self)@.delete_queue.len(),
        ensures
            report@ == deletion_report(old(self)@, outcomes_of(outcomes@), dry_run),
            final(self)@ == after_deletion(old(self)@.answered(), report@),
    {
        proof {
            reveal(deletion_report);
        }
        self.confirm_delete = false;
        assert(self@ == old(self)@.answered());
        delete_queued(self, dry_run, outcomes)
    }
}

impl StateView {
    /// The state that does not ask about a deletion any more.
    pub open spec fn answered(self) -> StateView {
        StateView { confirm_delete: false, ..self }
    }
}

/// The report on all marked files.
#[verifier::opaque]
pub open spec fn deletion_report(
    state: StateView,
    outcomes: Seq<OutcomeView>,
    dry_run: bool,
) -> ReportView {
    report_on(state.answered(), outcomes, dry_run, state.delete_queue.len())
}

/// Keeps the entries whose paths are not in a list.
fn remove_entries(entries: &mut Vec<MediaEntry>, gone: &Vec<MediaPath>)
    ensures
        entries_of(final(entries)@) == entries_of(old(entries)@).filter(
            |entry: EntryView| !paths_of(gone@).contains(entry.path),
        ),
{
    let ghost all = entries_of(entries@);
    let ghost keep = |entry: EntryView| !paths_of(gone@).contains(entry.path);
    let ghost mut done: int = 0;
    let mut index: usize = 0;
    proof {
        reveal(Seq::filter);
        assert(all.take(0).filter(keep) + all.skip(0) =~= all);
    }
    while index < entries.len()
        invariant
            keep == |entry: EntryView| !paths_of(gone@).contains(entry.path),
            0 <= done <= all.len(),
            index == all.take(done).filter(keep).len(),
            entries_of(entries@) == all.take(done).filter(keep) + all.skip(done),
        decreases all.len() - done,
    {
        let ghost kept = all.take(done).filter(keep);
        let ghost before = entries_of(entries@);
        proof {
            assert(before.len() == entries@.len());
            assert(before[index as int] == all.skip(done)[0]);
            assert(all.take(done + 1).drop_last() =~= all.take(done));
            assert(all.take(done + 1).last() == all[done]);
            reveal(Seq::filter);
        }
        if crate::path::has_path(gone, &entries[index].path) {
            entries.remove(index);
            assert(entries_of(entries@) =~= before.remove(index as int));
            assert(entries_of(entries@) =~= kept + all.skip(done + 1));
        } else {
            index += 1;
            assert(before =~= kept.push(all[done]) + all.skip(done + 1));
        }
        proof {
            done = done + 1;
        }
    }
    assert(entries_of(entries@).len() == entries@.len());
    assert(all.take(done) =~= all);
    assert(entries_of(entries@) =~= all.filter(keep));
}

/// Every marked file is reported once, as deleted or as failed.
pub proof fn law_every_mark_is_reported(
    state: StateView,
    outcomes: Seq<OutcomeView>,
    dry_run: bool,
    count: nat,
)
    ensures
        report_on(state, outcomes, dry_run, count).deleted.len() + report_on(
            state,
            outcomes,
            dry_run,
            count,
        ).failed.len() == count,
        report_on(state, outcomes, dry_run, count).dry_run == dry_run,
    decreases count,
{
    if count > 0 {
        law_every_mark_is_reported(state, outcomes, dry_run, (count - 1) as nat);
    }
}

/// A file is reported as deleted only if it was marked, is listed, lies in the scope
/// of the session, is a regular file and no symbolic link, has the size and time of
/// the scan, and was removed, unless it was a dry run.
pub proof fn law_deleted_files_are_safe(
    state: StateView,
    outcomes: Seq<OutcomeView>,
    dry_run: bool,
    count: nat,
    path: PathNames,
) -> (mark: int)
    requires
        count <= state.delete_queue.len(),
        count <= outcomes.len(),
        report_on(state, outcomes, dry_run, count).deleted.contains(path),
    ensures
        0 <= mark < count,
        state.delete_queue[mark] == path,
        path_refusal(state, path, outcomes[mark].probe) is None,
        !dry_run ==> outcomes[mark].removal_error is None,
        discovered(state.entries, path) matches Some(entry) && entry.path == path && (
        outcomes[mark].probe.canonical matches Ok(canonical) && in_scope(state, canonical)) && (
        outcomes[mark].probe.metadata matches Ok(facts) && facts.is_file && !facts.is_symlink
            && facts.len == entry.file_len && (entry.modified is Some && facts.modified is Some
            ==> entry.modified == facts.modified)),
    decreases count,
{
    let front = report_on(state, outcomes, dry_run, (count - 1) as nat);
    let all = report_on(state, outcomes, dry_run, count);
    let at = all.deleted.index_of(path);
    if at < front.deleted.len() {
        assert(front.deleted[at] == path);
        law_deleted_files_are_safe(state, outcomes, dry_run, (count - 1) as nat, path)
    } else {
        let mark = count - 1;
        assert(state.delete_queue[mark] == path);
        let entry = discovered(state.entries, path).unwrap();
        let index = choose|index: int| last_at(state.entries, path, index);
        assert(last_at(state.entries, path, index));
        mark
    }
}

/// A dry run changes nothing.
pub proof fn law_dry_run_changes_nothing(state: StateView, report: ReportView)
    requires
        report.dry_run,
    ensures
        after_deletion(state, report) == state,
{
    reveal(after_deletion);
}

/// After a deletion the deleted files are neither listed nor marked, and all other
/// files are as they were.
pub proof fn law_deletion_removes_deleted_alone(
    state: StateView,
    deleted: Seq<PathNames>,
    path: PathNames,
)
    requires
        state.delete_queue.no_duplicates(),
    ensures
        without_deleted(state, deleted).delete_queue.contains(path)
            <==> state.delete_queue.contains(path) && !deleted.contains(path),
        lists_path(without_deleted(state, deleted).entries, path) <==> lists_path(
            state.entries,
            path,
        ) && !deleted.contains(path),
        without_deleted(state, deleted).delete_queue.no_duplicates(),
{
    lemma_all_removed(state.delete_queue, deleted);
    let keep = |entry: EntryView| !deleted.contains(entry.path);
    let left = state.entries.filter(keep);
    crate::assoc::lemma_filter(state.entries, keep);
    if lists_path(left, path) {
        let i = choose|i: int| 0 <= i < left.len() && (#[trigger] left[i]).path == path;
        assert(left.contains(left[i]));
        let j = state.entries.index_of(left[i]);
        assert(state.entries[j].path == path);
    }
    if lists_path(state.entries, path) && !deleted.contains(path) {
        let i = choose|i: int|
            0 <= i < state.entries.len() && (#[trigger] state.entries[i]).path == path;
        assert(left.contains(state.entries[i]));
        let j = left.index_of(state.entries[i]);
        assert(left[j].path == path);
    }
}

/// Removing paths removes those alone.
pub proof fn lemma_all_removed(paths: Seq<PathNames>, gone: Seq<PathNames>)
    requires
        paths.no_duplicates(),
    ensures
        all_removed(paths, gone).no_duplicates(),
        forall|path: PathNames| #[trigger]
            all_removed(paths, gone).contains(path) <==> paths.contains(path)
                && !gone.contains(path),
    decreases gone.len(),
{
    if gone.len() > 0 {
        let front = gone.drop_last();
        lemma_all_removed(paths, front);
        crate::queue::lemma_removed_distinct(all_removed(paths, front), gone.last());
        assert forall|path: PathNames| #[trigger]
            all_removed(paths, gone).contains(path) <==> paths.contains(path)
                && !gone.contains(path) by {
            if gone.contains(path) {
                let i = gone.index_of(path);
                if i < front.len() {
                    assert(front[i] == path);
                }
            }
            if front.contains(path) {
                let i = front.index_of(path);
                assert(gone[i] == path);
            }
            assert(gone[gone.len() - 1] == gone.last());
        }
    }
}

/// A deletion keeps the selection within the list and the marks on listed files.
pub proof fn law_deletion_keeps_state_sound(state: StateView, report: ReportView)
    requires
        state.sound(),
    ensures
        after_deletion(state, report).sound(),
{
    reveal(after_deletion);
    if !report.dry_run {
        let left = without_deleted(state, report.deleted);
        lemma_all_removed(state.delete_queue, report.deleted);
        crate::assoc::lemma_filter(
            state.entries,
            |entry: EntryView| !report.deleted.contains(entry.path),
        );
        assert forall|path: PathNames| #[trigger]
            left.delete_queue.contains(path) implies lists_path(left.entries, path) by {
            law_deletion_removes_deleted_alone(state, report.deleted, path);
        }
    }
}

/// Whether a file may be deleted, in terms of what was scanned and what is found: its
/// entry is the last one with its path; its resolved path is one of the selected files,
/// or lies in the directory of the session at any depth where none were selected; it is a
/// regular file and no symbolic link; its size is that of the scan, and so is its
/// modification time, where both are known.
pub open spec fn deletable(
    state: StateView,
    path: PathNames,
    probe: ProbeView,
    index: int,
    canonical: PathNames,
    facts: FileFacts,
) -> bool {
    &&& 0 <= index < state.entries.len()
    &&& state.entries[index].path == path
    &&& forall|k: int| index < k < state.entries.len() ==> (#[trigger] state.entries[k]).path
        != path
    &&& probe.canonical == Ok::<PathNames, Seq<char>>(canonical)
    &&& match state.selected_files {
        Some(files) => exists|k: int| 0 <= k < files.len() && #[trigger] files[k] == canonical,
        None => {
            &&& state.directory.len() <= canonical.len()
            &&& forall|k: int|
                0 <= k < state.directory.len() ==> #[trigger] canonical[k] == state.directory[k]
        },
    }
    &&& probe.metadata == Ok::<FileFacts, Seq<char>>(facts)
    &&& facts.is_file
    &&& !facts.is_symlink
    &&& facts.len == state.entries[index].file_len
    &&& facts.modified is None || state.entries[index].modified is None || facts.modified
        == state.entries[index].modified
}

/// The deletion of a file is refused exactly where it is not safe.
pub proof fn law_safe_files_may_be_deleted(state: StateView, path: PathNames, probe: ProbeView)
    ensures
        path_refusal(state, path, probe) is None <==> exists|
            index: int,
            canonical: PathNames,
            facts: FileFacts,
        | #[trigger]
            deletable(state, path, probe, index, canonical, facts),
{
    if path_refusal(state, path, probe) is None {
        let index = choose|index: int| last_at(state.entries, path, index);
        assert(last_at(state.entries, path, index));
        let canonical = probe.canonical->Ok_0;
        let facts = probe.metadata->Ok_0;
        assert(in_scope(state, canonical));
        match state.selected_files {
            Some(files) => {
                let k = files.index_of(canonical);
                assert(files[k] == canonical);
            },
            None => {},
        }
        assert(deletable(state, path, probe, index, canonical, facts));
    }
    if exists|index: int, canonical: PathNames, facts: FileFacts| #[trigger]
        deletable(state, path, probe, index, canonical, facts) {
        let (index, canonical, facts) = choose|
            index: int,
            canonical: PathNames,
            facts: FileFacts,
        | #[trigger]
            deletable(state, path, probe, index, canonical, facts);
        assert(last_at(state.entries, path, index));
        let found = choose|found: int| last_at(state.entries, path, found);
        assert(last_at(state.entries, path, found));
        if found < index {
            assert(state.entries[index].path != path);
        }
        if index < found {
            assert(state.entries[found].path != path);
        }
        match state.selected_files {
            Some(files) => {
                assert(files.contains(canonical));
            },
            None => {
                assert(state.directory =~= canonical.subrange(
                    0,
                    state.directory.len() as int,
                ));
                assert(in_scope(state, canonical));
            },
        }
    }
}

/// Every marked file that may be deleted is reported as deleted, where its removal gave no
/// error or it is a dry run; and every other one is reported as failed, with the error of
/// its removal where it was tried.
pub proof fn law_safe_marks_are_deleted(
    state: StateView,
    outcomes: Seq<OutcomeView>,
    dry_run: bool,
    count: nat,
    mark: int,
)
    requires
        count <= state.delete_queue.len(),
        count <= outcomes.len(),
        0 <= mark < count,
        state.delete_queue.no_duplicates(),
    ensures
        ({
            let report = report_on(state, outcomes, dry_run, count);
            let path = state.delete_queue[mark];
            let safe = exists|index: int, canonical: PathNames, facts: FileFacts| #[trigger]
                deletable(state, path, outcomes[mark].probe, index, canonical, facts);
            &&& report.deleted.contains(path) <==> safe && (dry_run
                || outcomes[mark].removal_error is None)
            &&& safe && !dry_run ==> (outcomes[mark].removal_error matches Some(error)
                ==> report.failed.contains((path, error)))
            &&& !report.deleted.contains(path) ==> exists|reason: Seq<char>| #[trigger]
                report.failed.contains((path, reason))
        }),
{
    let report = report_on(state, outcomes, dry_run, count);
    let path = state.delete_queue[mark];
    law_safe_files_may_be_deleted(state, path, outcomes[mark].probe);
    lemma_mark_reported(state, outcomes, dry_run, count, mark);
    if report.deleted.contains(path) {
        let at = law_deleted_files_are_safe(state, outcomes, dry_run, count, path);
        assert(at == mark);
    }
    match failure(state, path, outcomes[mark], dry_run) {
        Some(reason) => {
            assert(report.failed.contains((path, reason)));
        },
        None => {},
    }
}

proof fn lemma_mark_reported(
    state: StateView,
    outcomes: Seq<OutcomeView>,
    dry_run: bool,
    count: nat,
    mark: int,
)
    requires
        0 <= mark < count,
    ensures
        match failure(state, state.delete_queue[mark], outcomes[mark], dry_run) {
            Some(reason) => report_on(state, outcomes, dry_run, count).failed.contains(
                (state.delete_queue[mark], reason),
            ),
            None => report_on(state, outcomes, dry_run, count).deleted.contains(
                state.delete_queue[mark],
            ),
        },
    decreases count,
{
    let front = report_on(state, outcomes, dry_run, (count - 1) as nat);
    let all = report_on(state, outcomes, dry_run, count);
    let path = state.delete_queue[mark];
    if mark == count - 1 {
        match failure(state, path, outcomes[mark], dry_run) {
            Some(reason) => {
                assert(all.failed[all.failed.len() - 1] == (path, reason));
            },
            None => {
                assert(all.deleted[all.deleted.len() - 1] == path);
            },
        }
    } else {
        lemma_mark_reported(state, outcomes, dry_run, (count - 1) as nat, mark);
        match failure(state, path, outcomes[mark], dry_run) {
            Some(reason) => {
                let k = front.failed.index_of((path, reason));
                assert(all.failed[k] == (path, reason));
            },
            None => {
                let k = front.deleted.index_of(path);
                assert(all.deleted[k] == path);
            },
        }
    }
}

/// Why a file is not deleted is said by the first thing that is wrong with it.
pub proof fn law_refusals_say_why(state: StateView, path: PathNames, probe: ProbeView, index: int)
    requires
        0 <= index < state.entries.len(),
        state.entries[index].path == path,
        forall|k: int| index < k < state.entries.len() ==> (#[trigger] state.entries[k]).path
            != path,
    ensures
        probe.canonical matches Err(error) ==> path_refusal(state, path, probe) == Some(
            "cannot canonicalize path: "@ + error,
        ),
        probe.canonical matches Ok(canonical) ==> {
            let inside = match state.selected_files {
                Some(files) => files.contains(canonical),
                None => state.directory.len() <= canonical.len() && canonical.take(
                    state.directory.len() as int,
                ) == state.directory,
            };
            &&& !inside ==> path_refusal(state, path, probe) == Some(
                "path is outside selected directory"@,
            )
            &&& inside ==> match probe.metadata {
                Err(error) => path_refusal(state, path, probe) == Some(
                    "cannot read metadata: "@ + error,
                ),
                Ok(facts) => {
                    &&& facts.is_symlink ==> path_refusal(state, path, probe) == Some(
                        "refusing to delete symlink"@,
                    )
                    &&& !facts.is_symlink && !facts.is_file ==> path_refusal(state, path, probe)
                        == Some("refusing to delete non-file"@)
                    &&& !facts.is_symlink && facts.is_file && facts.len
                        != state.entries[index].file_len ==> path_refusal(state, path, probe)
                        == Some("file size changed since scan"@)
                },
            }
        },
{
    assert(last_at(state.entries, path, index));
    let found = choose|found: int| last_at(state.entries, path, found);
    assert(last_at(state.entries, path, found));
    if found < index {
        assert(state.entries[index].path != path);
    }
    if index < found {
        assert(state.entries[found].path != path);
    }
    if let Ok(canonical) = probe.canonical {
        if state.directory.len() <= canonical.len() {
            assert(canonical.take(state.directory.len() as int) =~= canonical.subrange(
                0,
                state.directory.len() as int,
            ));
        }
    }
}

/// A file that no entry has the path of is not deleted.
pub proof fn law_unlisted_files_are_not_deleted(
    state: StateView,
    path: PathNames,
    probe: ProbeView,
)
    requires
        forall|k: int| 0 <= k < state.entries.len() ==> (#[trigger] state.entries[k]).path != path,
    ensures
        path_refusal(state, path, probe) == Some("not discovered in current scan"@),
{
    if exists|index: int| last_at(state.entries, path, index) {
        let index = choose|index: int| last_at(state.entries, path, index);
        assert(last_at(state.entries, path, index));
        assert(state.entries[index].path != path);
    }
}

/// After a deletion that was no dry run, the entries that are left are the ones whose
/// files were not deleted, in their order; the directory, the selected files, the order
/// and the view stay as they were.
pub proof fn law_deletion_keeps_the_rest(
    state: StateView,
    report: ReportView,
    i: int,
    j: int,
)
    requires
        !report.dry_run,
        0 <= i < j < after_deletion(state, report).entries.len(),
    ensures
        ({
            let after = after_deletion(state, report);
            &&& exists|a: int, b: int|
                {
                    &&& 0 <= a < b < state.entries.len()
                    &&& #[trigger] state.entries[a] == after.entries[i]
                    &&& #[trigger] state.entries[b] == after.entries[j]
                }
            &&& after.directory == state.directory
            &&& after.selected_files == state.selected_files
            &&& after.sort_mode == state.sort_mode
            &&& after.mode == state.mode
            &&& after.recursive == state.recursive
        }),
{
    reveal(after_deletion);
    let keep = |entry: EntryView| !report.deleted.contains(entry.path);
    lemma_filter_order(state.entries, keep, i, j);
}

proof fn lemma_filter_order<A>(items: Seq<A>, keep: spec_fn(A) -> bool, i: int, j: int)
    requires
        0 <= i < j < items.filter(keep).len(),
    ensures
        exists|a: int, b: int|
            {
                &&& 0 <= a < b < items.len()
                &&& #[trigger] items[a] == items.filter(keep)[i]
                &&& #[trigger] items[b] == items.filter(keep)[j]
            },
    decreases items.len(),
{
    reveal(Seq::filter);
    let front = items.drop_last();
    let left = front.filter(keep);
    if j < left.len() {
        lemma_filter_order(front, keep, i, j);
        let (a, b) = choose|a: int, b: int|
            {
                &&& 0 <= a < b < front.len()
                &&& #[trigger] front[a] == left[i]
                &&& #[trigger] front[b] == left[j]
            };
        assert(items[a] == front[a]);
        assert(items[b] == front[b]);
    } else {
        crate::assoc::lemma_filter(front, keep);
        assert(left.contains(left[i]));
        let a = front.index_of(left[i]);
        assert(items[a] == left[i]);
        let b = items.len() - 1;
        assert(items[b] == items.filter(keep)[j]);
    }
}

/// A dry run removes nothing, whatever is found; any other deletion removes a file exactly
/// where that is safe.
pub proof fn law_dry_runs_remove_nothing(state: StateView, path: PathNames, probe: ProbeView)
    ensures
        !to_be_removed(state, path, probe, true),
        to_be_removed(state, path, probe, false) <==> exists|
            index: int,
            canonical: PathNames,
            facts: FileFacts,
        | #[trigger]
            deletable(state, path, probe, index, canonical, facts),
{
    law_safe_files_may_be_deleted(state, path, probe);
}

} // verus!
