//! Bringing the listed media up to date while the viewer runs.
//!
//! Scans run on a worker thread outside. Here are the requests that it takes and
//! the results that it leaves, and the reconciliation of a scan with the entries
//! known before.

use vstd::prelude::*;

use crate::assoc::{set_with, KeySet};
use crate::browser::BrowserEntry;
use crate::delete::{discovered, find_discovered, lemma_all_removed};
use crate::gui::launch::scope_of;
use crate::numbers::{least, most};
use crate::path::{paths_copy, paths_of, MediaPath, PathNames};
use crate::queue::all_removed;
use crate::scanner::ScanOptions;
use crate::sorter::{sort_entries, sorted_entries};
use crate::state::{
    entries_of, law_new_entries_keep_selection, lists_path, AppState, EntryView, MediaEntry,
    SortMode, StateView,
};
use crate::text::{str_of, texts_copy, texts_of};

verus! {

/// The files that a refresh of the media list looks at.
#[derive(Debug, PartialEq, Eq)]
pub enum MediaRefreshScope {
    Directory(ScanOptions),
    SelectedFiles { files: Vec<MediaPath>, extensions: Vec<String> },
}

impl Clone for MediaRefreshScope {
    fn clone(&self) -> (copy: Self)
        ensures
            scope_of(copy) == scope_of(*self),
    {
        match self {
            MediaRefreshScope::Directory(options) => MediaRefreshScope::Directory(options.clone()),
            MediaRefreshScope::SelectedFiles { files, extensions } => {
                MediaRefreshScope::SelectedFiles {
                    files: paths_copy(files),
                    extensions: texts_copy(extensions),
                }
            },
        }
    }
}

/// The directory that a refresh of the browser looks at.
#[derive(Debug, PartialEq, Eq)]
pub struct BrowserRefreshScope {
    pub directory: MediaPath,
    pub include_hidden: bool,
    pub extensions: Vec<String>,
    pub sort_mode: SortMode,
}

impl Clone for BrowserRefreshScope {
    fn clone(&self) -> (copy: Self)
        ensures
            copy.directory@ == self.directory@,
            copy.include_hidden == self.include_hidden,
            texts_of(copy.extensions@) == texts_of(self.extensions@),
            copy.sort_mode == self.sort_mode,
    {
        BrowserRefreshScope {
            directory: self.directory.clone(),
            include_hidden: self.include_hidden,
            extensions: texts_copy(&self.extensions),
            sort_mode: self.sort_mode,
        }
    }
}

/// A finished refresh.
#[derive(Debug)]
#[allow(inconsistent_fields)]
pub enum RefreshResult {
    Media {
        generation: u64,
        scope: MediaRefreshScope,
        sort_mode: SortMode,
        result: Result<MediaRefreshOutput, String>,
    },
    Browser {
        generation: u64,
        scope: BrowserRefreshScope,
        result: Result<Vec<BrowserEntry>, String>,
    },
}

/// The media list after a refresh, and how it differs from the one before.
#[derive(Debug)]
pub struct MediaRefreshOutput {
    pub entries: Vec<MediaEntry>,
    pub unchanged_paths: KeySet<MediaPath>,
    pub invalidated_paths: KeySet<MediaPath>,
    pub added: usize,
    pub removed: usize,
    pub updated: usize,
}

impl MediaRefreshOutput {
    /// Whether the list differs from the one before.
    pub open spec fn differs(self) -> bool {
        self.added > 0 || self.removed > 0 || self.updated > 0
    }

    pub fn changed(&self) -> (changed: bool)
        ensures
            changed == self.differs(),
    {
        self.added > 0 || self.removed > 0 || self.updated > 0
    }
}

/// A request to refresh the media list.
#[derive(Debug)]
pub struct MediaRequest {
    pub generation: u64,
    pub epoch: u64,
    pub scope: MediaRefreshScope,
    pub previous_entries: Vec<MediaEntry>,
    pub sort_mode: SortMode,
    pub locale: Option<String>,
}

/// A request to refresh the browser.
#[derive(Debug)]
pub struct BrowserRequest {
    pub generation: u64,
    pub epoch: u64,
    pub scope: BrowserRefreshScope,
}

/// The requests that the worker has not taken yet; at most the newest of each.
#[derive(Debug)]
pub struct PendingRefreshes {
    pub media: Option<MediaRequest>,
    pub browser: Option<BrowserRequest>,
}

/// The results that the window has not taken yet; at most the newest of each.
#[derive(Debug)]
pub struct PendingResults {
    pub media: Option<RefreshResult>,
    pub browser: Option<RefreshResult>,
}

/// Whether two entries are the same file, unchanged between two scans.
pub open spec fn same_file(left: EntryView, right: EntryView) -> bool {
    left.file_len == right.file_len && left.modified == right.modified && left.media_kind
        == right.media_kind
}

fn same_scanned_file(left: &MediaEntry, right: &MediaEntry) -> (same: bool)
    ensures
        same == same_file(left@, right@),
{
    let same_time = match (left.modified, right.modified) {
        (Some(a), Some(b)) => a == b,
        (None, None) => true,
        _ => false,
    };
    left.file_len == right.file_len && same_time && left.media_kind == right.media_kind
}

/// The paths among the first `count` known entries that a scan did not find any
/// more.
pub open spec fn lost_paths(old: Seq<EntryView>, fresh: Seq<EntryView>, count: nat) -> Seq<
    PathNames,
>
    decreases count,
{
    if count == 0 {
        Seq::empty()
    } else {
        let front = lost_paths(old, fresh, (count - 1) as nat);
        if lists_path(fresh, old[count - 1].path) {
            front
        } else {
            set_with(front, old[count - 1].path)
        }
    }
}

/// The largest discovery number among the first `count` entries.
pub open spec fn last_order(entries: Seq<EntryView>, count: nat) -> int
    decreases count,
{
    if count == 0 {
        -1
    } else {
        most(
            last_order(entries, (count - 1) as nat),
            entries[count - 1].discovered_order as int,
        )
    }
}

/// The number after another discovery number, which never wraps around.
pub open spec fn order_after(order: int) -> usize {
    least(order + 1, usize::MAX as int) as usize
}

/// The result of reconciling scanned entries with known ones.
pub struct Reconciled {
    pub entries: Seq<EntryView>,
    pub unchanged: Seq<PathNames>,
    pub invalidated: Seq<PathNames>,
    pub added: nat,
    pub updated: nat,
    pub next_order: usize,
}

/// Reconciles one more scanned entry. A file that did not change keeps all that is
/// known of it; one that changed keeps its discovery number; a new one gets the
/// next.
pub open spec fn reconcile_one(
    old: Seq<EntryView>,
    front: Reconciled,
    entry: EntryView,
) -> Reconciled {
    match discovered(old, entry.path) {
        Some(previous) => if same_file(previous, entry) {
            Reconciled {
                entries: front.entries.push(previous),
                unchanged: set_with(front.unchanged, entry.path),
                ..front
            }
        } else {
            Reconciled {
                entries: front.entries.push(
                    EntryView { discovered_order: previous.discovered_order, ..entry },
                ),
                invalidated: set_with(front.invalidated, entry.path),
                updated: front.updated + 1,
                ..front
            }
        },
        None => Reconciled {
            entries: front.entries.push(
                EntryView { discovered_order: front.next_order, ..entry },
            ),
            added: front.added + 1,
            next_order: order_after(front.next_order as int),
            ..front
        },
    }
}

/// Reconciles the first `count` scanned entries with the known ones.
pub open spec fn reconciled(old: Seq<EntryView>, fresh: Seq<EntryView>, count: nat) -> Reconciled
    decreases count,
{
    if count == 0 {
        Reconciled {
            entries: Seq::empty(),
            unchanged: Seq::empty(),
            invalidated: lost_paths(old, fresh, old.len()),
            added: 0,
            updated: 0,
            next_order: order_after(last_order(old, old.len())),
        }
    } else {
        reconcile_one(old, reconciled(old, fresh, (count - 1) as nat), fresh[count - 1])
    }
}

/// Whether an output is the reconciliation of a scan with the known entries, its
/// list not sorted yet.
pub open spec fn reconciles(
    output: MediaRefreshOutput,
    old: Seq<EntryView>,
    fresh: Seq<EntryView>,
) -> bool {
    let all = reconciled(old, fresh, fresh.len());
    &&& entries_of(output.entries@) == all.entries
    &&& output.unchanged_paths@ == all.unchanged
    &&& output.invalidated_paths@ == all.invalidated
    &&& output.added == all.added
    &&& output.removed == lost_paths(old, fresh, old.len()).len()
    &&& output.updated == all.updated
}

/// Whether a task is never cancelled.
pub open spec fn never<F: Fn() -> bool>(cancelled: F) -> bool {
    forall|answer: bool| call_ensures(cancelled, (), answer) ==> !answer
}

/// Whether a task may be cancelled.
pub open spec fn possible<F: Fn() -> bool>(cancelled: F) -> bool {
    call_ensures(cancelled, (), true)
}

/// Whether a task is cancelled from the start.
pub open spec fn certain<F: Fn() -> bool>(cancelled: F) -> bool {
    forall|answer: bool| call_ensures(cancelled, (), answer) ==> answer
}

/// The paths of the known entries that a scan did not find any more.
fn find_lost<F: Fn() -> bool>(
    old: &Vec<MediaEntry>,
    fresh: &Vec<MediaEntry>,
    cancelled: &F,
) -> (lost: Option<KeySet<MediaPath>>)
    requires
        call_requires(*cancelled, ()),
    ensures
        match lost {
            Some(lost) => lost@ == lost_paths(
                entries_of(old@),
                entries_of(fresh@),
                old@.len(),
            ),
            None => possible(*cancelled),
        },
        certain(*cancelled) && old@.len() > 0 ==> lost is None,
{
    let mut lost: KeySet<MediaPath> = KeySet::new();
    let ghost known = entries_of(old@);
    let mut index: usize = 0;
    while index < old.len()
        invariant
            call_requires(*cancelled, ()),
            known == entries_of(old@),
            index <= known.len(),
            lost@ == lost_paths(known, entries_of(fresh@), index as nat),
            certain(*cancelled) ==> index == 0,
        decreases known.len() - index,
    {
        if cancelled() {
            return None;
        }
        let path = &old[index].path;
        assert(known[index as int].path == path@);
        if !crate::queue::entry_named(fresh, &path.names) {
            lost.insert(path.clone());
        }
        index += 1;
    }
    Some(lost)
}

/// The discovery number after those of the known entries.
fn next_discovery(old: &Vec<MediaEntry>) -> (order: usize)
    ensures
        order == order_after(last_order(entries_of(old@), old@.len())),
{
    let mut order: usize = 0;
    let mut index: usize = 0;
    let ghost known = entries_of(old@);
    while index < old.len()
        invariant
            known == entries_of(old@),
            index <= known.len(),
            order == order_after(last_order(known, index as nat)),
            last_order(known, index as nat) >= -1,
        decreases known.len() - index,
    {
        assert(known[index as int].discovered_order == old@[index as int].discovered_order);
        let next: usize = old[index].discovered_order.saturating_add(1);
        if next > order {
            order = next;
        }
        index += 1;
    }
    order
}

/// Reconciles scanned entries with the known ones; nothing comes of it where it
/// is cancelled.
pub fn reconcile_media_cancellable<F: Fn() -> bool>(
    old: &Vec<MediaEntry>,
    fresh: Vec<MediaEntry>,
    cancelled: &F,
) -> (output: Option<MediaRefreshOutput>)
    requires
        call_requires(*cancelled, ()),
    ensures
        match output {
            Some(output) => reconciles(output, entries_of(old@), entries_of(fresh@)),
            None => possible(*cancelled),
        },
        never(*cancelled) ==> output is Some,
        certain(*cancelled) ==> output is None,
{
    if cancelled() {
        return None;
    }
    let ghost known = entries_of(old@);
    let ghost scan = entries_of(fresh@);
    let lost = match find_lost(old, &fresh, cancelled) {
        Some(lost) => lost,
        None => {
            return None;
        },
    };
    let removed: usize = lost.len();
    let mut output = MediaRefreshOutput {
        entries: Vec::new(),
        unchanged_paths: KeySet::new(),
        invalidated_paths: lost,
        added: 0,
        removed,
        updated: 0,
    };
    let mut next_order: usize = next_discovery(old);
    let mut index: usize = 0;
    assert(entries_of(output.entries@) =~= Seq::empty());
    while index < fresh.len()
        invariant
            call_requires(*cancelled, ()),
            known == entries_of(old@),
            scan == entries_of(fresh@),
            index <= scan.len(),
            output.removed == lost_paths(known, scan, known.len()).len(),
            output.added + output.updated <= index,
            (Reconciled {
                entries: entries_of(output.entries@),
                unchanged: output.unchanged_paths@,
                invalidated: output.invalidated_paths@,
                added: output.added as nat,
                updated: output.updated as nat,
                next_order,
            }) == reconciled(known, scan, index as nat),
        decreases scan.len() - index,
    {
        if cancelled() {
            return None;
        }
        let entry = &fresh[index];
        assert(scan[index as int] == entry@);
        let ghost before = entries_of(output.entries@);
        match find_discovered(old, &entry.path) {
            Some(previous) => if same_scanned_file(previous, entry) {
                output.unchanged_paths.insert(entry.path.clone());
                let kept = previous.clone();
                output.entries.push(kept);
                assert(entries_of(output.entries@) =~= before.push(kept@));
            } else {
                output.invalidated_paths.insert(entry.path.clone());
                output.updated += 1;
                let mut changed = entry.clone();
                changed.discovered_order = previous.discovered_order;
                output.entries.push(changed);
                assert(entries_of(output.entries@) =~= before.push(changed@));
            },
            None => {
                let mut added = entry.clone();
                added.discovered_order = next_order;
                next_order = next_order.saturating_add(1);
                output.added += 1;
                output.entries.push(added);
                assert(entries_of(output.entries@) =~= before.push(added@));
            },
        }
        index += 1;
    }
    Some(output)
}

/// Whether an output is the finished reconciliation of a scan with the known
/// entries: its list is sorted where it differs from the one before.
pub open spec fn refreshes(
    output: MediaRefreshOutput,
    old: Seq<EntryView>,
    fresh: Seq<EntryView>,
    sort_mode: SortMode,
    locale: Option<Seq<char>>,
) -> bool {
    let all = reconciled(old, fresh, fresh.len());
    &&& output.unchanged_paths@ == all.unchanged
    &&& output.invalidated_paths@ == all.invalidated
    &&& output.added == all.added
    &&& output.removed == lost_paths(old, fresh, old.len()).len()
    &&& output.updated == all.updated
    &&& if output.differs() {
        sorted_entries(all.entries, entries_of(output.entries@), sort_mode, locale)
    } else {
        entries_of(output.entries@) == all.entries
    }
}

/// Sorts the list of a reconciliation, where it differs from the one before.
pub fn finish_media_refresh(
    output: &mut MediaRefreshOutput,
    sort_mode: SortMode,
    locale: Option<&str>,
)
    ensures
        *final(output) == (MediaRefreshOutput {
            entries: final(output).entries,
            ..*old(output)
        }),
        if old(output).differs() {
            sorted_entries(
                entries_of(old(output).entries@),
                entries_of(final(output).entries@),
                sort_mode,
                str_of(locale),
            )
        } else {
            *final(output) == *old(output)
        },
{
    if output.changed() {
        sort_entries(&mut output.entries, sort_mode, locale);
    }
}

/// Reconciles scanned entries with the known ones and sorts the list where it
/// changed; nothing comes of it where it is cancelled.
pub fn prepare_media_refresh_cancellable<F: Fn() -> bool>(
    old: Vec<MediaEntry>,
    fresh: Vec<MediaEntry>,
    sort_mode: SortMode,
    locale: Option<&str>,
    cancelled: &F,
) -> (output: Option<MediaRefreshOutput>)
    requires
        call_requires(*cancelled, ()),
    ensures
        match output {
            Some(output) => refreshes(
                output,
                entries_of(old@),
                entries_of(fresh@),
                sort_mode,
                str_of(locale),
            ),
            None => possible(*cancelled),
        },
        never(*cancelled) ==> output is Some,
        certain(*cancelled) ==> output is None,
{
    let mut output = match reconcile_media_cancellable(&old, fresh, cancelled) {
        Some(output) => output,
        None => {
            return None;
        },
    };
    if cancelled() {
        return None;
    }
    finish_media_refresh(&mut output, sort_mode, locale);
    if cancelled() {
        return None;
    }
    Some(output)
}

/// Reconciles scanned entries with the known ones and sorts the list where it
/// changed.
pub fn prepare_media_refresh(
    old: Vec<MediaEntry>,
    fresh: Vec<MediaEntry>,
    sort_mode: SortMode,
    locale: Option<&str>,
) -> (output: MediaRefreshOutput)
    ensures
        refreshes(output, entries_of(old@), entries_of(fresh@), sort_mode, str_of(locale)),
{
    let cancelled = || -> (answer: bool)
        ensures
            !answer,
        { false };
    match prepare_media_refresh_cancellable(old, fresh, sort_mode, locale, &cancelled) {
        Some(output) => output,
        None => MediaRefreshOutput {
            entries: Vec::new(),
            unchanged_paths: KeySet::new(),
            invalidated_paths: KeySet::new(),
            added: 0,
            removed: 0,
            updated: 0,
        },
    }
}

/// The number after another epoch.
pub open spec fn epoch_after(epoch: u64) -> u64 {
    if epoch == u64::MAX {
        0
    } else {
        (epoch + 1) as u64
    }
}

/// What the window and the refresh worker share.
#[derive(Debug)]
pub struct RefreshService {
    pub pending: PendingRefreshes,
    pub results: PendingResults,
    /// Whether a result was left since the window last looked.
    pub result_ready: bool,
    /// Counts the requests for the media list; earlier ones are cancelled.
    pub media_epoch: u64,
    /// Counts the requests for the browser; earlier ones are cancelled.
    pub browser_epoch: u64,
    /// Whether all requests are cancelled for now.
    pub suspended: bool,
}

/// The media results of a list of results, and the browser results behind them.
pub open spec fn drained(results: PendingResults) -> Seq<RefreshResult> {
    (match results.media {
        Some(result) => seq![result],
        None => Seq::empty(),
    }) + (match results.browser {
        Some(result) => seq![result],
        None => Seq::empty(),
    })
}

impl RefreshService {
    /// Whether the end of the work on a request for the media list leaves a result:
    /// it is the newest request, nothing is suspended, and something came of it.
    pub open spec fn publishes_media(
        self,
        epoch: u64,
        outcome: Result<Option<MediaRefreshOutput>, String>,
    ) -> bool {
        !self.suspended && self.media_epoch == epoch && !(outcome == Ok::<
            Option<MediaRefreshOutput>,
            String,
        >(None))
    }

    /// Whether the end of the work on a request for the browser leaves a result.
    pub open spec fn publishes_browser(
        self,
        epoch: u64,
        outcome: Result<Option<Vec<BrowserEntry>>, String>,
    ) -> bool {
        !self.suspended && self.browser_epoch == epoch && !(outcome == Ok::<
            Option<Vec<BrowserEntry>>,
            String,
        >(None))
    }

    /// The service after a refresh of the media list was asked for, in place of any
    /// earlier request.
    pub open spec fn media_requested(
        self,
        generation: u64,
        scope: MediaRefreshScope,
        previous_entries: Vec<MediaEntry>,
        sort_mode: SortMode,
        locale: Option<String>,
    ) -> RefreshService {
        RefreshService {
            media_epoch: epoch_after(self.media_epoch),
            pending: PendingRefreshes {
                media: Some(
                    MediaRequest {
                        generation,
                        epoch: epoch_after(self.media_epoch),
                        scope,
                        previous_entries,
                        sort_mode,
                        locale,
                    },
                ),
                browser: self.pending.browser,
            },
            ..self
        }
    }

    /// The service after a refresh of the browser was asked for, in place of any earlier
    /// request.
    pub open spec fn browser_requested(
        self,
        generation: u64,
        scope: BrowserRefreshScope,
    ) -> RefreshService {
        RefreshService {
            browser_epoch: epoch_after(self.browser_epoch),
            pending: PendingRefreshes {
                media: self.pending.media,
                browser: Some(
                    BrowserRequest { generation, epoch: epoch_after(self.browser_epoch), scope },
                ),
            },
            ..self
        }
    }

    /// The service after a result was left, in place of an earlier one of its kind.
    pub open spec fn published(self, result: RefreshResult) -> RefreshService {
        RefreshService {
            results: match result {
                RefreshResult::Media { .. } => PendingResults {
                    media: Some(result),
                    browser: self.results.browser,
                },
                RefreshResult::Browser { .. } => PendingResults {
                    media: self.results.media,
                    browser: Some(result),
                },
            },
            result_ready: true,
            ..self
        }
    }

    /// The service after the requests made so far were cancelled.
    pub open spec fn all_cancelled(self) -> RefreshService {
        RefreshService {
            media_epoch: epoch_after(self.media_epoch),
            browser_epoch: epoch_after(self.browser_epoch),
            ..self
        }
    }

    /// The service before the first request.
    pub fn new() -> (service: RefreshService)
        ensures
            service == (RefreshService {
                pending: PendingRefreshes { media: None, browser: None },
                results: PendingResults { media: None, browser: None },
                result_ready: false,
                media_epoch: 0,
                browser_epoch: 0,
                suspended: false,
            }),
    {
        RefreshService {
            pending: PendingRefreshes { media: None, browser: None },
            results: PendingResults { media: None, browser: None },
            result_ready: false,
            media_epoch: 0,
            browser_epoch: 0,
            suspended: false,
        }
    }

    /// Cancels or resumes all requests.
    pub fn set_suspended(&mut self, suspended: bool)
        ensures
            *final(self) == (RefreshService { suspended, ..*old(self) }),
    {
        self.suspended = suspended;
    }

    /// Asks for a refresh of the media list, in place of any earlier request.
    pub fn request_media(
        &mut self,
        generation: u64,
        scope: MediaRefreshScope,
        previous_entries: Vec<MediaEntry>,
        sort_mode: SortMode,
        locale: Option<String>,
    )
        ensures
            *final(self) == old(self).media_requested(
                generation,
                scope,
                previous_entries,
                sort_mode,
                locale,
            ),
    {
        self.media_epoch = self.media_epoch.wrapping_add(1);
        self.pending.media =
        Some(
            MediaRequest {
                generation,
                epoch: self.media_epoch,
                scope,
                previous_entries,
                sort_mode,
                locale,
            },
        );
    }

    /// Asks for a refresh of the browser, in place of any earlier request.
    pub fn request_browser(&mut self, generation: u64, scope: BrowserRefreshScope)
        ensures
            *final(self) == old(self).browser_requested(generation, scope),
    {
        self.browser_epoch = self.browser_epoch.wrapping_add(1);
        self.pending.browser =
        Some(BrowserRequest { generation, epoch: self.browser_epoch, scope });
    }

    /// Takes the requests, for the worker to serve.
    pub fn take_requests(&mut self) -> (pending: PendingRefreshes)
        ensures
            pending == old(self).pending,
            *final(self) == (RefreshService {
                pending: PendingRefreshes { media: None, browser: None },
                ..*old(self)
            }),
    {
        PendingRefreshes { media: self.pending.media.take(), browser: self.pending.browser.take() }
    }

    /// Whether a request for the media list need not be served any more.
    pub fn media_cancelled(&self, epoch: u64) -> (cancelled: bool)
        ensures
            cancelled == (self.suspended || self.media_epoch != epoch),
    {
        self.suspended || self.media_epoch != epoch
    }

    /// Whether a request for the browser need not be served any more.
    pub fn browser_cancelled(&self, epoch: u64) -> (cancelled: bool)
        ensures
            cancelled == (self.suspended || self.browser_epoch != epoch),
    {
        self.suspended || self.browser_epoch != epoch
    }

    /// Leaves a result for the window, in place of an earlier one of its kind.
    pub fn publish_result(&mut self, result: RefreshResult)
        ensures
            *final(self) == old(self).published(result),
    {
        let is_media = match &result {
            RefreshResult::Media { .. } => true,
            RefreshResult::Browser { .. } => false,
        };
        if is_media {
            self.results.media = Some(result);
        } else {
            self.results.browser = Some(result);
        }
        self.result_ready = true;
    }

    /// Ends the work on a request for the media list: leaves its result, unless it
    /// was cancelled before or while it was served. Reports whether it did.
    pub fn conclude_media(
        &mut self,
        generation: u64,
        epoch: u64,
        scope: MediaRefreshScope,
        sort_mode: SortMode,
        outcome: Result<Option<MediaRefreshOutput>, String>,
    ) -> (published: bool)
        ensures
            published == old(self).publishes_media(epoch, outcome),
            *final(self) == if published {
                old(self).published(
                    RefreshResult::Media {
                        generation,
                        scope,
                        sort_mode,
                        result: match outcome {
                            Ok(output) => Ok(output.unwrap()),
                            Err(error) => Err(error),
                        },
                    },
                )
            } else {
                *old(self)
            },
    {
        if self.media_cancelled(epoch) {
            return false;
        }
        let result = match outcome {
            Ok(Some(output)) => Ok(output),
            Ok(None) => {
                return false;
            },
            Err(error) => Err(error),
        };
        self.publish_result(RefreshResult::Media { generation, scope, sort_mode, result });
        true
    }

    /// Ends the work on a request for the browser, as [`Self::conclude_media`]
    /// does for the media list.
    pub fn conclude_browser(
        &mut self,
        generation: u64,
        epoch: u64,
        scope: BrowserRefreshScope,
        outcome: Result<Option<Vec<BrowserEntry>>, String>,
    ) -> (published: bool)
        ensures
            published == old(self).publishes_browser(epoch, outcome),
            *final(self) == if published {
                old(self).published(
                    RefreshResult::Browser {
                        generation,
                        scope,
                        result: match outcome {
                            Ok(entries) => Ok(entries.unwrap()),
                            Err(error) => Err(error),
                        },
                    },
                )
            } else {
                *old(self)
            },
    {
        if self.browser_cancelled(epoch) {
            return false;
        }
        let result = match outcome {
            Ok(Some(entries)) => Ok(entries),
            Ok(None) => {
                return false;
            },
            Err(error) => Err(error),
        };
        self.publish_result(RefreshResult::Browser { generation, scope, result });
        true
    }

    /// Takes the results, the media list in front of the browser; none where
    /// nothing was left since the last time.
    pub fn drain(&mut self) -> (results: Vec<RefreshResult>)
        ensures
            !old(self).result_ready ==> results@ == Seq::<RefreshResult>::empty() && *final(self)
                == *old(self),
            old(self).result_ready ==> results@ == drained(old(self).results) && *final(self)
                == (RefreshService {
                results: PendingResults { media: None, browser: None },
                result_ready: false,
                ..*old(self)
            }),
    {
        let mut results: Vec<RefreshResult> = Vec::new();
        if !self.result_ready {
            return results;
        }
        self.result_ready = false;
        match self.results.media.take() {
            Some(result) => {
                results.push(result);
            },
            None => {},
        }
        match self.results.browser.take() {
            Some(result) => {
                results.push(result);
            },
            None => {},
        }
        assert(results@ =~= drained(old(self).results));
        results
    }

    /// Cancels the requests made so far.
    pub fn cancel_all(&mut self)
        ensures
            *final(self) == old(self).all_cancelled(),
    {
        self.media_epoch = self.media_epoch.wrapping_add(1);
        self.browser_epoch = self.browser_epoch.wrapping_add(1);
    }
}

/// The epoch after a number of requests.
pub open spec fn epoch_later(epoch: u64, count: nat) -> u64
    decreases count,
{
    if count == 0 {
        epoch
    } else {
        epoch_after(epoch_later(epoch, (count - 1) as nat))
    }
}

proof fn lemma_epoch_later(epoch: u64, count: nat)
    ensures
        epoch_later(epoch, count) == (epoch + count) % 0x1_0000_0000_0000_0000,
    decreases count,
{
    if count > 0 {
        lemma_epoch_later(epoch, (count - 1) as nat);
    }
}

/// A request leaves no result once others of its kind were made, or all were
/// cancelled, after it: `count` times, before the numbers come round again. Nor does
/// any request leave one while the service is suspended.
pub proof fn law_superseded_requests_leave_no_result(
    service: RefreshService,
    epoch: u64,
    count: nat,
    media: Result<Option<MediaRefreshOutput>, String>,
    browser: Result<Option<Vec<BrowserEntry>>, String>,
)
    requires
        1 <= count <= u64::MAX,
    ensures
        service.media_epoch == epoch_later(epoch, count) ==> !service.publishes_media(
            epoch,
            media,
        ),
        service.browser_epoch == epoch_later(epoch, count) ==> !service.publishes_browser(
            epoch,
            browser,
        ),
        service.suspended ==> !service.publishes_media(epoch, media)
            && !service.publishes_browser(epoch, browser),
{
    lemma_epoch_later(epoch, count);
}

impl StateView {
    /// The state after a refresh that found a list of entries: the marks of files
    /// that changed or disappeared are taken off.
    #[verifier::opaque]
    pub open spec fn refreshed(
        self,
        entries: Seq<EntryView>,
        changed: Seq<PathNames>,
    ) -> StateView {
        (StateView {
            delete_queue: all_removed(self.delete_queue, changed),
            ..self
        }).with_entries(entries, self.current_path())
    }
}

impl AppState {
    /// Takes the entries of a refresh, keeping the selection on its file. A marked
    /// file that changed or disappeared is unmarked.
    pub fn take_refresh(&mut self, output: MediaRefreshOutput)
        ensures
            final(self)@ == old(self)@.refreshed(
                entries_of(output.entries@),
                output.invalidated_paths@,
            ),
    {
        proof {
            reveal(StateView::refreshed);
        }
        let previous = self.current_path();
        assert(paths_of(output.invalidated_paths.keys@) =~= output.invalidated_paths@);
        self.delete_queue.remove_all(&output.invalidated_paths.keys);
        self.set_entries_preserving_current(output.entries, previous);
    }
}

/// A refresh takes over every scanned file, in the order of the scan, and counts at
/// most each of them once, as added or as updated.
pub proof fn law_refresh_lists_every_scanned_file(
    old: Seq<EntryView>,
    fresh: Seq<EntryView>,
    count: nat,
    i: int,
)
    requires
        count <= fresh.len(),
        0 <= i < count,
    ensures
        reconciled(old, fresh, count).entries.len() == count,
        reconciled(old, fresh, count).added + reconciled(old, fresh, count).updated <= count,
        reconciled(old, fresh, count).entries[i].path == fresh[i].path,
    decreases count,
{
    lemma_reconciled_len(old, fresh, (count - 1) as nat);
    if i < count - 1 {
        law_refresh_lists_every_scanned_file(old, fresh, (count - 1) as nat, i);
    } else {
        lemma_discovered_path(old, fresh[i].path);
    }
}

proof fn lemma_reconciled_len(old: Seq<EntryView>, fresh: Seq<EntryView>, count: nat)
    ensures
        reconciled(old, fresh, count).entries.len() == count,
        reconciled(old, fresh, count).added + reconciled(old, fresh, count).updated <= count,
    decreases count,
{
    if count > 0 {
        lemma_reconciled_len(old, fresh, (count - 1) as nat);
    }
}

proof fn lemma_discovered_path(entries: Seq<EntryView>, path: PathNames)
    ensures
        discovered(entries, path) matches Some(entry) ==> entry.path == path,
{
    if exists|index: int| crate::delete::last_at(entries, path, index) {
        let index = choose|index: int| crate::delete::last_at(entries, path, index);
        assert(crate::delete::last_at(entries, path, index));
    }
}

/// A refresh keeps all that is known of a file that did not change, and the
/// discovery number of one that did.
pub proof fn law_refresh_keeps_what_is_known(
    old: Seq<EntryView>,
    fresh: Seq<EntryView>,
    count: nat,
    i: int,
)
    requires
        count <= fresh.len(),
        0 <= i < count,
    ensures
        discovered(old, fresh[i].path) matches Some(previous) ==> {
            let entry = reconciled(old, fresh, count).entries[i];
            if same_file(previous, fresh[i]) {
                entry == previous
            } else {
                entry == (EntryView { discovered_order: previous.discovered_order, ..fresh[i] })
            }
        },
    decreases count,
{
    lemma_reconciled_len(old, fresh, (count - 1) as nat);
    if i < count - 1 {
        law_refresh_keeps_what_is_known(old, fresh, (count - 1) as nat, i);
    }
}

proof fn lemma_order_grows(old: Seq<EntryView>, fresh: Seq<EntryView>, count: nat)
    ensures
        reconciled(old, fresh, count).next_order >= order_after(last_order(old, old.len())),
    decreases count,
{
    if count > 0 {
        lemma_order_grows(old, fresh, (count - 1) as nat);
    }
}

proof fn lemma_last_order(entries: Seq<EntryView>, count: nat, i: int)
    requires
        0 <= i < count <= entries.len(),
    ensures
        entries[i].discovered_order <= last_order(entries, count),
    decreases count,
{
    if i < count - 1 {
        lemma_last_order(entries, (count - 1) as nat, i);
    }
}

/// A new file gets a discovery number behind those of all known files, as long as
/// numbers last.
pub proof fn law_new_files_come_last(
    old: Seq<EntryView>,
    fresh: Seq<EntryView>,
    count: nat,
    i: int,
    known: int,
)
    requires
        count <= fresh.len(),
        0 <= i < count,
        discovered(old, fresh[i].path) is None,
        0 <= known < old.len(),
        last_order(old, old.len()) < usize::MAX,
    ensures
        reconciled(old, fresh, count).entries[i].discovered_order > old[known].discovered_order,
    decreases count,
{
    lemma_reconciled_len(old, fresh, (count - 1) as nat);
    if i < count - 1 {
        law_new_files_come_last(old, fresh, (count - 1) as nat, i, known);
    } else {
        lemma_order_grows(old, fresh, (count - 1) as nat);
        lemma_last_order(old, old.len(), known);
    }
}

/// A scan that finds the known files as they were changes nothing.
pub proof fn law_same_scan_changes_nothing(old: Seq<EntryView>, fresh: Seq<EntryView>, count: nat)
    requires
        count <= fresh.len(),
        forall|i: int|
            0 <= i < fresh.len() ==> (discovered(old, (#[trigger] fresh[i]).path) matches Some(
                previous,
            ) && same_file(previous, fresh[i])),
        forall|i: int| 0 <= i < old.len() ==> lists_path(fresh, (#[trigger] old[i]).path),
    ensures
        reconciled(old, fresh, count).added == 0,
        reconciled(old, fresh, count).updated == 0,
        reconciled(old, fresh, count).invalidated.len() == 0,
        lost_paths(old, fresh, old.len()).len() == 0,
    decreases count,
{
    lemma_nothing_lost(old, fresh, old.len());
    if count > 0 {
        law_same_scan_changes_nothing(old, fresh, (count - 1) as nat);
        assert(discovered(old, fresh[count - 1].path) matches Some(previous) && same_file(
            previous,
            fresh[count - 1],
        ));
    }
}

proof fn lemma_nothing_lost(old: Seq<EntryView>, fresh: Seq<EntryView>, count: nat)
    requires
        count <= old.len(),
        forall|i: int| 0 <= i < old.len() ==> lists_path(fresh, (#[trigger] old[i]).path),
    ensures
        lost_paths(old, fresh, count).len() == 0,
    decreases count,
{
    if count > 0 {
        lemma_nothing_lost(old, fresh, (count - 1) as nat);
        assert(lists_path(fresh, old[count - 1].path));
    }
}

/// Whether a file of a scan differs from what is known of it.
pub open spec fn file_differs(old: Seq<EntryView>, entry: EntryView) -> bool {
    match discovered(old, entry.path) {
        Some(previous) => !same_file(previous, entry),
        None => false,
    }
}

/// Whether one of the first `count` files of a scan has a path and differs from what
/// is known of it.
pub open spec fn differs_among(
    old: Seq<EntryView>,
    fresh: Seq<EntryView>,
    count: nat,
    path: PathNames,
) -> bool {
    exists|i: int|
        0 <= i < count && (#[trigger] fresh[i]).path == path && file_differs(old, fresh[i])
}

/// A refresh invalidates the files that disappeared and those that changed, and no
/// others.
pub proof fn law_changed_files_are_invalidated(
    old: Seq<EntryView>,
    fresh: Seq<EntryView>,
    count: nat,
    path: PathNames,
)
    requires
        count <= fresh.len(),
    ensures
        reconciled(old, fresh, count).invalidated.contains(path) <==> (lists_path(old, path)
            && !lists_path(fresh, path)) || differs_among(old, fresh, count, path),
    decreases count,
{
    if count == 0 {
        lemma_lost(old, fresh, old.len(), path);
        if lists_path(old, path) {
            let i = choose|i: int| 0 <= i < old.len() && (#[trigger] old[i]).path == path;
            assert(0 <= i < old.len() && old[i].path == path);
        }
    } else {
        law_changed_files_are_invalidated(old, fresh, (count - 1) as nat, path);
        let front = reconciled(old, fresh, (count - 1) as nat).invalidated;
        let last = fresh[count - 1];
        crate::assoc::law_set_membership(front, last.path, path);
        if differs_among(old, fresh, (count - 1) as nat, path) {
            let i = choose|i: int|
                0 <= i < count - 1 && (#[trigger] fresh[i]).path == path && file_differs(
                    old,
                    fresh[i],
                );
            assert(fresh[i].path == path);
        }
        if differs_among(old, fresh, count, path) {
            let i = choose|i: int|
                0 <= i < count && (#[trigger] fresh[i]).path == path && file_differs(
                    old,
                    fresh[i],
                );
            if i < count - 1 {
                assert(differs_among(old, fresh, (count - 1) as nat, path));
            }
        }
        if last.path == path && file_differs(old, last) {
            assert(differs_among(old, fresh, count, path));
        }
    }
}

proof fn lemma_lost(old: Seq<EntryView>, fresh: Seq<EntryView>, count: nat, path: PathNames)
    requires
        count <= old.len(),
    ensures
        lost_paths(old, fresh, count).contains(path) <==> !lists_path(fresh, path) && exists|
            i: int,
        |
            0 <= i < count && (#[trigger] old[i]).path == path,
    decreases count,
{
    if count > 0 {
        lemma_lost(old, fresh, (count - 1) as nat, path);
        let front = lost_paths(old, fresh, (count - 1) as nat);
        crate::assoc::law_set_membership(front, old[count - 1].path, path);
        assert(old[count - 1].path == old[count - 1].path);
    }
}

/// After a refresh those files are marked that were marked before, are still listed
/// and did not change; the selection stays on its file where that is still listed.
pub proof fn law_refresh_unmarks_changed_files(
    state: StateView,
    entries: Seq<EntryView>,
    changed: Seq<PathNames>,
    path: PathNames,
)
    requires
        state.sound(),
        entries.len() <= usize::MAX,
    ensures
        state.refreshed(entries, changed).sound(),
        state.refreshed(entries, changed).entries == entries,
        state.refreshed(entries, changed).delete_queue.contains(path)
            <==> state.delete_queue.contains(path) && !changed.contains(path) && lists_path(
            entries,
            path,
        ),
        state.current_path() matches Some(current) ==> lists_path(entries, current)
            ==> state.refreshed(entries, changed).current_path() == Some(current),
{
    reveal(StateView::refreshed);
    lemma_all_removed(state.delete_queue, changed);
    law_new_entries_keep_selection(
        StateView { delete_queue: all_removed(state.delete_queue, changed), ..state },
        entries,
        state.current_path(),
    );
}

/// Whether an entry is the last of a list that has its path.
pub open spec fn known_last(old: Seq<EntryView>, i: int) -> bool {
    &&& 0 <= i < old.len()
    &&& forall|k: int| i < k < old.len() ==> (#[trigger] old[k]).path != old[i].path
}

/// Whether an entry is the only one of a list that has its path.
pub open spec fn listed_once(entries: Seq<EntryView>, j: int) -> bool {
    &&& 0 <= j < entries.len()
    &&& forall|k: int|
        0 <= k < entries.len() && k != j ==> (#[trigger] entries[k]).path != entries[j].path
}

proof fn lemma_known_is_discovered(old: Seq<EntryView>, i: int)
    requires
        known_last(old, i),
    ensures
        discovered(old, old[i].path) == Some(old[i]),
{
    let path = old[i].path;
    assert(crate::delete::last_at(old, path, i));
    let index = choose|index: int| crate::delete::last_at(old, path, index);
    assert(crate::delete::last_at(old, path, index));
    if index < i {
        assert(old[i].path != path);
    }
    if i < index {
        assert(old[index].path != path);
    }
}

proof fn lemma_reconciled_grows(
    old: Seq<EntryView>,
    fresh: Seq<EntryView>,
    less: nat,
    more: nat,
)
    requires
        less <= more,
    ensures
        reconciled(old, fresh, less).updated <= reconciled(old, fresh, more).updated,
        reconciled(old, fresh, less).added <= reconciled(old, fresh, more).added,
        forall|path: PathNames| #[trigger]
            reconciled(old, fresh, less).invalidated.contains(path) ==> reconciled(
                old,
                fresh,
                more,
            ).invalidated.contains(path),
        forall|path: PathNames| #[trigger]
            reconciled(old, fresh, less).unchanged.contains(path) ==> reconciled(
                old,
                fresh,
                more,
            ).unchanged.contains(path),
    decreases more,
{
    if less < more {
        let last = (more - 1) as nat;
        lemma_reconciled_grows(old, fresh, less, last);
        let front = reconciled(old, fresh, last);
        let path = fresh[more - 1].path;
        assert forall|other: PathNames| #[trigger]
            reconciled(old, fresh, less).invalidated.contains(other) implies reconciled(
            old,
            fresh,
            more,
        ).invalidated.contains(other) by {
            crate::assoc::law_set_membership(front.invalidated, path, other);
        }
        assert forall|other: PathNames| #[trigger]
            reconciled(old, fresh, less).unchanged.contains(other) implies reconciled(
            old,
            fresh,
            more,
        ).unchanged.contains(other) by {
            crate::assoc::law_set_membership(front.unchanged, path, other);
        }
    }
}

/// Only paths that a scan found among its first files are unchanged.
proof fn lemma_unchanged_is_scanned(
    old: Seq<EntryView>,
    fresh: Seq<EntryView>,
    count: nat,
    path: PathNames,
)
    requires
        count <= fresh.len(),
        reconciled(old, fresh, count).unchanged.contains(path),
    ensures
        exists|k: int|
            0 <= k < count && (#[trigger] fresh[k]).path == path && discovered(old, path) is Some
                && same_file(discovered(old, path).unwrap(), fresh[k]),
    decreases count,
{
    if count > 0 {
        let front = reconciled(old, fresh, (count - 1) as nat);
        let last = fresh[count - 1];
        crate::assoc::law_set_membership(front.unchanged, last.path, path);
        if front.unchanged.contains(path) {
            lemma_unchanged_is_scanned(old, fresh, (count - 1) as nat, path);
        } else {
            assert(fresh[count - 1].path == path);
        }
    }
}

/// A known file whose size, modification time or kind of media is another one in a scan
/// counts as updated: it is invalidated and not unchanged, and its entry is the scanned
/// one but for its discovery number. A known file with the same size, time and kind is
/// unchanged and not invalidated, and its entry stays as it is known.
pub proof fn law_changed_size_time_or_kind_is_an_update(
    output: MediaRefreshOutput,
    old: Seq<EntryView>,
    fresh: Seq<EntryView>,
    sort_mode: SortMode,
    locale: Option<Seq<char>>,
    i: int,
    j: int,
)
    requires
        refreshes(output, old, fresh, sort_mode, locale),
        known_last(old, i),
        listed_once(fresh, j),
        old[i].path == fresh[j].path,
    ensures
        old[i].file_len != fresh[j].file_len || old[i].modified != fresh[j].modified
            || old[i].media_kind != fresh[j].media_kind ==> {
            &&& output.invalidated_paths@.contains(fresh[j].path)
            &&& !output.unchanged_paths@.contains(fresh[j].path)
            &&& output.updated >= 1
            &&& exists|k: int|
                {
                    &&& 0 <= k < output.entries@.len()
                    &&& entries_of(output.entries@)[k] == (EntryView {
                        discovered_order: old[i].discovered_order,
                        ..fresh[j]
                    })
                }
        },
        old[i].file_len == fresh[j].file_len && old[i].modified == fresh[j].modified
            && old[i].media_kind == fresh[j].media_kind ==> {
            &&& output.unchanged_paths@.contains(fresh[j].path)
            &&& !output.invalidated_paths@.contains(fresh[j].path)
            &&& exists|k: int|
                0 <= k < output.entries@.len() && entries_of(output.entries@)[k] == old[i]
        },
{
    let all = reconciled(old, fresh, fresh.len());
    let path = fresh[j].path;
    lemma_known_is_discovered(old, i);
    lemma_reconciled_grows(old, fresh, (j + 1) as nat, fresh.len());
    lemma_reconciled_len(old, fresh, fresh.len());
    law_refresh_keeps_what_is_known(old, fresh, fresh.len(), j);
    law_changed_files_are_invalidated(old, fresh, fresh.len(), path);
    let front = reconciled(old, fresh, j as nat);
    crate::assoc::law_set_membership(front.unchanged, path, path);
    crate::assoc::law_set_membership(front.invalidated, path, path);
    assert(fresh[j].path == path);
    assert(lists_path(fresh, path));
    let next = reconciled(old, fresh, (j + 1) as nat);
    assert(next == reconcile_one(old, front, fresh[j]));
    if same_file(old[i], fresh[j]) {
        assert(next.unchanged.contains(path));
    }
    let wanted = if same_file(old[i], fresh[j]) {
        old[i]
    } else {
        EntryView { discovered_order: old[i].discovered_order, ..fresh[j] }
    };
    assert(all.entries[j] == wanted);
    lemma_sorted_has(output, all.entries, sort_mode, locale, wanted, j);
    if all.unchanged.contains(path) {
        lemma_unchanged_is_scanned(old, fresh, fresh.len(), path);
    }
    if differs_among(old, fresh, fresh.len(), path) {
        let k = choose|k: int|
            0 <= k < fresh.len() && (#[trigger] fresh[k]).path == path && file_differs(
                old,
                fresh[k],
            );
        assert(fresh[k].path == path);
        assert(k == j);
    }
}

proof fn lemma_sorted_has(
    output: MediaRefreshOutput,
    entries: Seq<EntryView>,
    sort_mode: SortMode,
    locale: Option<Seq<char>>,
    wanted: EntryView,
    j: int,
)
    requires
        0 <= j < entries.len(),
        entries[j] == wanted,
        if output.differs() {
            sorted_entries(entries, entries_of(output.entries@), sort_mode, locale)
        } else {
            entries_of(output.entries@) == entries
        },
    ensures
        exists|k: int| 0 <= k < output.entries@.len() && entries_of(output.entries@)[k] == wanted,
{
    let list = entries_of(output.entries@);
    assert(entries.contains(wanted));
    if output.differs() {
        crate::order::law_sort_keeps_every_item(
            entries,
            list,
            crate::sorter::entry_before(sort_mode, locale),
            wanted,
        );
    }
    let k = list.index_of(wanted);
    assert(list[k] == wanted);
    assert(0 <= k < output.entries@.len());
}

/// A file that is not scanned any more is invalidated, not unchanged and not listed, and
/// counts as removed.
pub proof fn law_disappeared_files_leave_the_list(
    output: MediaRefreshOutput,
    old: Seq<EntryView>,
    fresh: Seq<EntryView>,
    sort_mode: SortMode,
    locale: Option<Seq<char>>,
    i: int,
)
    requires
        refreshes(output, old, fresh, sort_mode, locale),
        0 <= i < old.len(),
        forall|k: int| 0 <= k < fresh.len() ==> (#[trigger] fresh[k]).path != old[i].path,
    ensures
        output.invalidated_paths@.contains(old[i].path),
        !output.unchanged_paths@.contains(old[i].path),
        output.removed >= 1,
        forall|k: int|
            0 <= k < output.entries@.len() ==> (#[trigger] entries_of(output.entries@)[k]).path
                != old[i].path,
{
    let all = reconciled(old, fresh, fresh.len());
    let path = old[i].path;
    law_changed_files_are_invalidated(old, fresh, fresh.len(), path);
    assert(old[i].path == path);
    assert(lists_path(old, path));
    assert(!lists_path(fresh, path));
    lemma_lost(old, fresh, old.len(), path);
    let lost = lost_paths(old, fresh, old.len());
    assert(lost.contains(path));
    if all.unchanged.contains(path) {
        lemma_unchanged_is_scanned(old, fresh, fresh.len(), path);
    }
    let list = entries_of(output.entries@);
    assert forall|k: int| 0 <= k < list.len() implies (#[trigger] list[k]).path != path by {
        lemma_listed_is_scanned(output, old, fresh, sort_mode, locale, k);
        let j = choose|j: int|
            0 <= j < fresh.len() && (#[trigger] fresh[j]).path == list[k].path;
        assert(fresh[j].path != path);
    }
}

/// Every entry of a refreshed list has the path of a scanned file.
proof fn lemma_listed_is_scanned(
    output: MediaRefreshOutput,
    old: Seq<EntryView>,
    fresh: Seq<EntryView>,
    sort_mode: SortMode,
    locale: Option<Seq<char>>,
    k: int,
)
    requires
        refreshes(output, old, fresh, sort_mode, locale),
        0 <= k < output.entries@.len(),
    ensures
        exists|j: int|
            0 <= j < fresh.len() && (#[trigger] fresh[j]).path == entries_of(
                output.entries@,
            )[k].path,
        output.entries@.len() == fresh.len(),
{
    let all = reconciled(old, fresh, fresh.len());
    let list = entries_of(output.entries@);
    lemma_reconciled_len(old, fresh, fresh.len());
    if output.differs() {
        crate::order::law_sort_keeps_every_item(
            all.entries,
            list,
            crate::sorter::entry_before(sort_mode, locale),
            list[k],
        );
    }
    assert(list.contains(list[k]));
    let j = all.entries.index_of(list[k]);
    assert(all.entries[j] == list[k]);
    law_refresh_lists_every_scanned_file(old, fresh, fresh.len(), j);
    assert(fresh[j].path == list[k].path);
}

/// A file that is not known yet is listed with what the scan says of it, counts as added,
/// and is neither unchanged nor invalidated.
pub proof fn law_new_files_are_added(
    output: MediaRefreshOutput,
    old: Seq<EntryView>,
    fresh: Seq<EntryView>,
    sort_mode: SortMode,
    locale: Option<Seq<char>>,
    j: int,
)
    requires
        refreshes(output, old, fresh, sort_mode, locale),
        0 <= j < fresh.len(),
        forall|k: int| 0 <= k < old.len() ==> (#[trigger] old[k]).path != fresh[j].path,
    ensures
        output.added >= 1,
        !output.unchanged_paths@.contains(fresh[j].path),
        !output.invalidated_paths@.contains(fresh[j].path),
        exists|k: int|
            {
                &&& 0 <= k < output.entries@.len()
                &&& entries_of(output.entries@)[k] == (EntryView {
                    discovered_order: entries_of(output.entries@)[k].discovered_order,
                    ..fresh[j]
                })
            },
{
    let all = reconciled(old, fresh, fresh.len());
    let path = fresh[j].path;
    assert(discovered(old, path) is None) by {
        if exists|index: int| crate::delete::last_at(old, path, index) {
            let index = choose|index: int| crate::delete::last_at(old, path, index);
            assert(crate::delete::last_at(old, path, index));
            assert(old[index].path != path);
        }
    }
    lemma_reconciled_grows(old, fresh, (j + 1) as nat, fresh.len());
    lemma_reconciled_len(old, fresh, fresh.len());
    law_changed_files_are_invalidated(old, fresh, fresh.len(), path);
    if differs_among(old, fresh, fresh.len(), path) {
        let k = choose|k: int|
            0 <= k < fresh.len() && (#[trigger] fresh[k]).path == path && file_differs(
                old,
                fresh[k],
            );
        assert(fresh[k].path == path);
    }
    if all.unchanged.contains(path) {
        lemma_unchanged_is_scanned(old, fresh, fresh.len(), path);
    }
    lemma_new_entry(old, fresh, fresh.len(), j);
    let wanted = all.entries[j];
    lemma_sorted_has(output, all.entries, sort_mode, locale, wanted, j);
    let k = choose|k: int|
        0 <= k < output.entries@.len() && entries_of(output.entries@)[k] == wanted;
    assert(entries_of(output.entries@)[k] == (EntryView {
        discovered_order: entries_of(output.entries@)[k].discovered_order,
        ..fresh[j]
    }));
}

proof fn lemma_new_entry(old: Seq<EntryView>, fresh: Seq<EntryView>, count: nat, j: int)
    requires
        0 <= j < count <= fresh.len(),
        discovered(old, fresh[j].path) is None,
    ensures
        ({
            let entry = reconciled(old, fresh, count).entries[j];
            entry == (EntryView { discovered_order: entry.discovered_order, ..fresh[j] })
        }),
    decreases count,
{
    lemma_reconciled_len(old, fresh, (count - 1) as nat);
    if j < count - 1 {
        lemma_new_entry(old, fresh, (count - 1) as nat, j);
    }
}

/// How many of the first `count` scanned files are known with another size, time or kind.
pub open spec fn count_changed(old: Seq<EntryView>, fresh: Seq<EntryView>, count: nat) -> nat
    decreases count,
{
    if count == 0 {
        0
    } else {
        count_changed(old, fresh, (count - 1) as nat) + if exists|i: int|
            {
                &&& #[trigger] known_last(old, i)
                &&& old[i].path == fresh[count - 1].path
                &&& old[i].file_len != fresh[count - 1].file_len || old[i].modified
                    != fresh[count - 1].modified || old[i].media_kind
                    != fresh[count - 1].media_kind
            } {
            1nat
        } else {
            0nat
        }
    }
}

/// How many of the first `count` scanned files are not known.
pub open spec fn count_new(old: Seq<EntryView>, fresh: Seq<EntryView>, count: nat) -> nat
    decreases count,
{
    if count == 0 {
        0
    } else {
        count_new(old, fresh, (count - 1) as nat) + if forall|k: int|
            0 <= k < old.len() ==> (#[trigger] old[k]).path != fresh[count - 1].path {
            1nat
        } else {
            0nat
        }
    }
}

/// A refresh counts as updated the files whose size, time or kind changed, and as added
/// those that were not known; and it lists as many files as were scanned.
pub proof fn law_refresh_counts_what_happened(
    output: MediaRefreshOutput,
    old: Seq<EntryView>,
    fresh: Seq<EntryView>,
    sort_mode: SortMode,
    locale: Option<Seq<char>>,
)
    requires
        refreshes(output, old, fresh, sort_mode, locale),
    ensures
        output.updated == count_changed(old, fresh, fresh.len()),
        output.added == count_new(old, fresh, fresh.len()),
        output.removed == 0 <==> forall|i: int|
            0 <= i < old.len() ==> exists|j: int|
                0 <= j < fresh.len() && #[trigger] fresh[j].path == (#[trigger] old[i]).path,
        output.entries@.len() == fresh.len(),
{
    lemma_reconciled_counts(old, fresh, fresh.len());
    lemma_reconciled_len(old, fresh, fresh.len());
    let all = reconciled(old, fresh, fresh.len());
    let list = entries_of(output.entries@);
    if output.differs() && fresh.len() > 0 {
        crate::order::law_sort_keeps_every_item(
            all.entries,
            list,
            crate::sorter::entry_before(sort_mode, locale),
            all.entries[0],
        );
    } else if output.differs() {
        crate::order::law_sort_keeps_every_item(
            all.entries,
            list,
            crate::sorter::entry_before(sort_mode, locale),
            fresh[0],
        );
    }
    assert(list.len() == output.entries@.len());
    let lost = lost_paths(old, fresh, old.len());
    if output.removed == 0 {
        assert forall|i: int| 0 <= i < old.len() implies exists|j: int|
            0 <= j < fresh.len() && #[trigger] fresh[j].path == (#[trigger] old[i]).path by {
            lemma_lost(old, fresh, old.len(), old[i].path);
            if !lists_path(fresh, old[i].path) {
                assert(old[i].path == old[i].path);
                assert(lost.contains(old[i].path));
            }
        }
    }
    if forall|i: int|
        0 <= i < old.len() ==> exists|j: int|
            0 <= j < fresh.len() && #[trigger] fresh[j].path == (#[trigger] old[i]).path {
        assert forall|i: int| 0 <= i < old.len() implies lists_path(
            fresh,
            (#[trigger] old[i]).path,
        ) by {}
        lemma_nothing_lost(old, fresh, old.len());
    }
}

proof fn lemma_reconciled_counts(old: Seq<EntryView>, fresh: Seq<EntryView>, count: nat)
    requires
        count <= fresh.len(),
    ensures
        reconciled(old, fresh, count).updated == count_changed(old, fresh, count),
        reconciled(old, fresh, count).added == count_new(old, fresh, count),
    decreases count,
{
    if count > 0 {
        lemma_reconciled_counts(old, fresh, (count - 1) as nat);
        let last = fresh[count - 1];
        match discovered(old, last.path) {
            Some(previous) => {
                let index = choose|index: int| crate::delete::last_at(old, last.path, index);
                assert(crate::delete::last_at(old, last.path, index));
                assert(known_last(old, index));
                assert(old[index] == previous);
                assert forall|i: int| #[trigger]
                    known_last(old, i) && old[i].path == last.path implies i == index by {
                    if i < index {
                        assert(old[index].path != old[i].path);
                    }
                    if index < i {
                        assert(old[i].path != last.path);
                    }
                }
            },
            None => {
                assert forall|k: int| 0 <= k < old.len() implies (#[trigger] old[k]).path
                    != last.path by {
                    if old[k].path == last.path {
                        lemma_some_last(old, last.path, k);
                    }
                }
            },
        }
    }
}

proof fn lemma_some_last(old: Seq<EntryView>, path: PathNames, k: int)
    requires
        0 <= k < old.len(),
        old[k].path == path,
    ensures
        exists|index: int| crate::delete::last_at(old, path, index),
    decreases old.len() - k,
{
    if exists|later: int| k < later < old.len() && (#[trigger] old[later]).path == path {
        let later = choose|later: int|
            k < later < old.len() && (#[trigger] old[later]).path == path;
        lemma_some_last(old, path, later);
    } else {
        assert(crate::delete::last_at(old, path, k));
    }
}

/// A mark is taken off by a refresh where the size, time or kind of its file changed or
/// the file disappeared, and stays where it did not.
pub proof fn law_refresh_keeps_marks_of_unchanged_files(
    state: StateView,
    output: MediaRefreshOutput,
    fresh: Seq<EntryView>,
    sort_mode: SortMode,
    locale: Option<Seq<char>>,
    i: int,
    j: int,
)
    requires
        state.sound(),
        fresh.len() <= usize::MAX,
        refreshes(output, state.entries, fresh, sort_mode, locale),
        known_last(state.entries, i),
        state.delete_queue.contains(state.entries[i].path),
    ensures
        ({
            let after = state.refreshed(entries_of(output.entries@), output.invalidated_paths@);
            let known = state.entries[i];
            &&& listed_once(fresh, j) && known.path == fresh[j].path ==> (
            after.delete_queue.contains(known.path) <==> known.file_len == fresh[j].file_len
                && known.modified == fresh[j].modified && known.media_kind == fresh[j].media_kind)
            &&& (forall|k: int| 0 <= k < fresh.len() ==> (#[trigger] fresh[k]).path != known.path)
                ==> !after.delete_queue.contains(known.path)
        }),
{
    let known = state.entries[i];
    let list = entries_of(output.entries@);
    law_refresh_counts_what_happened(output, state.entries, fresh, sort_mode, locale);
    law_refresh_unmarks_changed_files(state, list, output.invalidated_paths@, known.path);
    if listed_once(fresh, j) && known.path == fresh[j].path {
        law_changed_size_time_or_kind_is_an_update(
            output,
            state.entries,
            fresh,
            sort_mode,
            locale,
            i,
            j,
        );
        if known.file_len == fresh[j].file_len && known.modified == fresh[j].modified
            && known.media_kind == fresh[j].media_kind {
            let k = choose|k: int|
                0 <= k < output.entries@.len() && entries_of(output.entries@)[k] == known;
            assert(list[k].path == known.path);
        }
    }
    if forall|k: int| 0 <= k < fresh.len() ==> (#[trigger] fresh[k]).path != known.path {
        law_disappeared_files_leave_the_list(
            output,
            state.entries,
            fresh,
            sort_mode,
            locale,
            i,
        );
    }
}

/// The newest request for the media list waits with what was asked, and what comes of it is
/// left unless the service is suspended; the request before it leaves nothing any more.
/// Requests for the browser are not affected.
pub proof fn law_the_newest_media_request_counts(
    service: RefreshService,
    generation: u64,
    scope: MediaRefreshScope,
    previous_entries: Vec<MediaEntry>,
    sort_mode: SortMode,
    locale: Option<String>,
    output: MediaRefreshOutput,
    error: String,
)
    ensures
        ({
            let asked = service.media_requested(
                generation,
                scope,
                previous_entries,
                sort_mode,
                locale,
            );
            &&& asked.pending.media matches Some(request) && {
                &&& request.generation == generation && request.scope == scope
                &&& request.previous_entries == previous_entries
                &&& request.sort_mode == sort_mode && request.locale == locale
                &&& asked.publishes_media(request.epoch, Ok(Some(output))) == !service.suspended
                &&& asked.publishes_media(request.epoch, Err(error)) == !service.suspended
                &&& !asked.publishes_media(request.epoch, Ok(None))
                &&& !asked.all_cancelled().publishes_media(request.epoch, Ok(Some(output)))
                &&& !asked.all_cancelled().publishes_media(request.epoch, Err(error))
            }
            &&& !asked.publishes_media(service.media_epoch, Ok(Some(output)))
            &&& asked.pending.browser == service.pending.browser
            &&& asked.browser_epoch == service.browser_epoch
            &&& asked.results == service.results
            &&& asked.result_ready == service.result_ready
        }),
{
}

/// The newest request for the browser waits with what was asked, and what comes of it is
/// left unless the service is suspended; the request before it leaves nothing any more.
/// Requests for the media list are not affected.
pub proof fn law_the_newest_browser_request_counts(
    service: RefreshService,
    generation: u64,
    scope: BrowserRefreshScope,
    entries: Vec<BrowserEntry>,
    error: String,
)
    ensures
        ({
            let asked = service.browser_requested(generation, scope);
            &&& asked.pending.browser matches Some(request) && {
                &&& request.generation == generation && request.scope == scope
                &&& asked.publishes_browser(request.epoch, Ok(Some(entries)))
                    == !service.suspended
                &&& asked.publishes_browser(request.epoch, Err(error)) == !service.suspended
                &&& !asked.publishes_browser(request.epoch, Ok(None))
                &&& !asked.all_cancelled().publishes_browser(request.epoch, Ok(Some(entries)))
                &&& !asked.all_cancelled().publishes_browser(request.epoch, Err(error))
            }
            &&& !asked.publishes_browser(service.browser_epoch, Ok(Some(entries)))
            &&& asked.pending.media == service.pending.media
            &&& asked.media_epoch == service.media_epoch
            &&& asked.results == service.results
        }),
{
}

/// What was left last of each kind is what the window takes, the media list first.
pub proof fn law_last_results_are_taken(
    service: RefreshService,
    media: RefreshResult,
    browser: RefreshResult,
)
    requires
        media is Media,
        browser is Browser,
    ensures
        service.published(media).published(browser).result_ready,
        drained(service.published(media).published(browser).results) == seq![media, browser],
        drained(service.published(browser).published(media).results) == seq![media, browser],
        service.results.browser is None ==> drained(service.published(media).results) == seq![
            media,
        ],
        service.results.media is None ==> drained(service.published(browser).results) == seq![
            browser,
        ],
        service.published(media).pending == service.pending,
        service.published(browser).pending == service.pending,
        service.published(media).media_epoch == service.media_epoch,
        service.published(browser).browser_epoch == service.browser_epoch,
{
    assert(drained(service.published(media).published(browser).results) =~= seq![media, browser]);
    assert(drained(service.published(browser).published(media).results) =~= seq![media, browser]);
    if service.results.browser is None {
        assert(drained(service.published(media).results) =~= seq![media]);
    }
    if service.results.media is None {
        assert(drained(service.published(browser).results) =~= seq![browser]);
    }
}

} // verus!
