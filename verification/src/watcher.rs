//! Which files changed while the viewer runs, and when they have been written.
//!
//! Notifications of the file system come from outside. A changed file is reported
//! once it has been closed by its writer, or, where that is not reported, once its
//! size and time stay the same.

use vstd::prelude::*;

use crate::assoc::{
    lemma_filter, map_get, map_with, map_without, set_with, set_without, Key, KeyMap, KeySet,
};
use crate::gui::launch::{scope_of, ScopeView};
use crate::path::{parent_of, path_within, paths_copy, paths_of, MediaPath, PathNames};
use crate::refresh::MediaRefreshScope;
use crate::text::{texts_copy, texts_of};

verus! {

/// A directory that is watched.
#[derive(Debug, PartialEq, Eq, Hash)]
pub struct WatchPath {
    pub path: MediaPath,
    pub recursive: bool,
}

/// The contents of a [`WatchPath`].
pub struct WatchView {
    pub path: PathNames,
    pub recursive: bool,
}

impl View for WatchPath {
    type V = WatchView;

    open spec fn view(&self) -> WatchView {
        WatchView { path: self.path@, recursive: self.recursive }
    }
}

impl Key for WatchPath {
    fn same(&self, other: &WatchPath) -> (same: bool) {
        self.recursive == other.recursive && self.path.same(&other.path)
    }
}

impl Clone for WatchPath {
    fn clone(&self) -> (copy: Self)
        ensures
            copy@ == self@,
    {
        WatchPath { path: self.path.clone(), recursive: self.recursive }
    }
}

impl WatchPath {
    pub fn new(path: MediaPath, recursive: bool) -> (watch: WatchPath)
        ensures
            watch@ == (WatchView { path: path@, recursive }),
    {
        WatchPath { path, recursive }
    }
}

/// The contents of a list of watched directories.
pub open spec fn watches_of(watches: Seq<WatchPath>) -> Seq<WatchView> {
    Seq::new(watches.len(), |i: int| watches[i]@)
}

/// Whether a directory is watched with its subdirectories.
pub open spec fn watched_deeply(watches: Seq<WatchView>, path: PathNames) -> bool {
    watches.contains(WatchView { path, recursive: true })
}

/// A list of watched directories with one more, in place of any with its path;
/// watched with its subdirectories where one of them was.
pub open spec fn watch_added(watches: Seq<WatchView>, watch: WatchView) -> Seq<WatchView> {
    watches.filter(|other: WatchView| other.path != watch.path).push(
        WatchView {
            path: watch.path,
            recursive: watch.recursive || watched_deeply(watches, watch.path),
        },
    )
}

/// The first `count` of a list of directories, each path once.
pub open spec fn normalized(watches: Seq<WatchView>, count: nat) -> Seq<WatchView>
    decreases count,
{
    if count == 0 {
        Seq::empty()
    } else {
        watch_added(normalized(watches, (count - 1) as nat), watches[count - 1])
    }
}

/// Keeps the directories of a list whose path is another one.
fn drop_path(watches: &mut Vec<WatchPath>, path: &MediaPath)
    ensures
        watches_of(final(watches)@) == watches_of(old(watches)@).filter(
            |other: WatchView| other.path != path@,
        ),
{
    let ghost all = watches_of(watches@);
    let ghost keep = |other: WatchView| other.path != path@;
    let ghost mut done: int = 0;
    let mut index: usize = 0;
    proof {
        reveal(Seq::filter);
        assert(all.take(0).filter(keep) + all.skip(0) =~= all);
    }
    while index < watches.len()
        invariant
            keep == |other: WatchView| other.path != path@,
            0 <= done <= all.len(),
            index == all.take(done).filter(keep).len(),
            watches_of(watches@) == all.take(done).filter(keep) + all.skip(done),
        decreases all.len() - done,
    {
        let ghost kept = all.take(done).filter(keep);
        let ghost before = watches_of(watches@);
        proof {
            assert(before.len() == watches@.len());
            assert(before[index as int] == all.skip(done)[0]);
            assert(all.take(done + 1).drop_last() =~= all.take(done));
            assert(all.take(done + 1).last() == all[done]);
            reveal(Seq::filter);
        }
        if watches[index].path.same(path) {
            watches.remove(index);
            assert(watches_of(watches@) =~= before.remove(index as int));
            assert(watches_of(watches@) =~= kept + all.skip(done + 1));
        } else {
            index += 1;
            assert(before =~= kept.push(all[done]) + all.skip(done + 1));
        }
        proof {
            done = done + 1;
        }
    }
    assert(watches_of(watches@).len() == watches@.len());
    assert(all.take(done) =~= all);
    assert(watches_of(watches@) =~= all.filter(keep));
}

/// Whether a list holds a watched directory.
fn has_watch(watches: &Vec<WatchPath>, watch: &WatchPath) -> (found: bool)
    ensures
        found == watches_of(watches@).contains(watch@),
{
    let mut index: usize = 0;
    while index < watches.len()
        invariant
            index <= watches@.len(),
            forall|i: int| 0 <= i < index ==> #[trigger] watches_of(watches@)[i] != watch@,
        decreases watches@.len() - index,
    {
        if watches[index].same(watch) {
            assert(watches_of(watches@)[index as int] == watch@);
            return true;
        }
        assert(watches_of(watches@)[index as int] != watch@);
        index += 1;
    }
    false
}

/// The directories of the first `count` files, without their subdirectories.
pub open spec fn parents_watched(files: Seq<PathNames>, count: nat) -> Seq<WatchView>
    decreases count,
{
    if count == 0 {
        Seq::empty()
    } else {
        let front = parents_watched(files, (count - 1) as nat);
        match parent_of(files[count - 1]) {
            Some(path) => front.push(WatchView { path, recursive: false }),
            None => front,
        }
    }
}

/// The directories of the media: the scanned one, with its subdirectories where they are
/// scanned too, or those of the selected files.
pub open spec fn media_watched(scope: ScopeView) -> Seq<WatchView> {
    match scope {
        ScopeView::Directory { root, recursive, .. } => seq![WatchView { path: root, recursive }],
        ScopeView::SelectedFiles { files, .. } => parents_watched(files, files.len()),
    }
}

/// The directories to watch: those of the media, and the one that the browser lists.
pub open spec fn session_watched(scope: ScopeView, browser: Option<PathNames>) -> Seq<WatchView> {
    match browser {
        Some(path) => media_watched(scope).push(WatchView { path, recursive: false }),
        None => media_watched(scope),
    }
}

/// The directories to watch while a session scans some files and its browser, where it
/// is shown, lists a directory.
pub fn watch_paths(scope: &MediaRefreshScope, browser: Option<&MediaPath>) -> (paths: Vec<
    WatchPath,
>)
    ensures
        watches_of(paths@) == session_watched(
            scope_of(*scope),
            match browser {
                Some(path) => Some(path@),
                None => None,
            },
        ),
{
    let mut paths: Vec<WatchPath> = Vec::new();
    match scope {
        MediaRefreshScope::Directory(options) => {
            paths.push(WatchPath::new(options.root.clone(), options.recursive));
            assert(watches_of(paths@) =~= media_watched(scope_of(*scope)));
        },
        MediaRefreshScope::SelectedFiles { files, .. } => {
            let ghost all = paths_of(files@);
            let mut index: usize = 0;
            assert(watches_of(paths@) =~= Seq::empty());
            while index < files.len()
                invariant
                    all == paths_of(files@),
                    index <= all.len(),
                    watches_of(paths@) == parents_watched(all, index as nat),
                decreases all.len() - index,
            {
                let ghost before = watches_of(paths@);
                if let Some(parent) = files[index].parent() {
                    let watch = WatchPath::new(parent, false);
                    paths.push(watch);
                    assert(watches_of(paths@) =~= before.push(watch@));
                }
                index += 1;
            }
        },
    }
    if let Some(path) = browser {
        let ghost before = watches_of(paths@);
        let watch = WatchPath::new(path.clone(), false);
        paths.push(watch);
        assert(watches_of(paths@) =~= before.push(watch@));
    }
    paths
}

/// The scanned directory is watched, with its subdirectories exactly where the scan is
/// recursive; and so are the directory that the browser lists, and the directory of every
/// selected file.
pub proof fn law_listed_directories_are_watched(
    scope: ScopeView,
    browser: Option<PathNames>,
    file: PathNames,
    parent: PathNames,
)
    ensures
        scope matches ScopeView::Directory { root, recursive, .. } ==> watched_somehow(
            session_watched(scope, browser),
            root,
        ) && (watched_deeply(session_watched(scope, browser), root) <==> recursive),
        browser matches Some(path) ==> watched_somehow(session_watched(scope, browser), path),
        scope matches ScopeView::SelectedFiles { files, .. } ==> files.contains(file) && parent_of(
            file,
        ) == Some(parent) ==> watched_somehow(session_watched(scope, browser), parent),
{
    let all = session_watched(scope, browser);
    let media = media_watched(scope);
    if let ScopeView::Directory { root, recursive, .. } = scope {
        assert(all[0] == (WatchView { path: root, recursive }));
    }
    if let Some(path) = browser {
        assert(all.last() == (WatchView { path, recursive: false }));
        assert(all[all.len() - 1].path == path);
    }
    if let ScopeView::SelectedFiles { files, .. } = scope {
        if files.contains(file) && parent_of(file) == Some(parent) {
            let at = files.index_of(file);
            lemma_parent_watched(files, files.len(), at);
            let i = choose|i: int|
                0 <= i < media.len() && (#[trigger] media[i]).path == parent;
            assert(all[i] == media[i]);
        }
    }
}

proof fn lemma_parent_watched(files: Seq<PathNames>, count: nat, at: int)
    requires
        0 <= at < count <= files.len(),
        parent_of(files[at]) is Some,
    ensures
        watched_somehow(parents_watched(files, count), parent_of(files[at]).unwrap()),
    decreases count,
{
    let all = parents_watched(files, count);
    let parent = parent_of(files[at]).unwrap();
    if at == count - 1 {
        assert(all[all.len() - 1].path == parent);
    } else {
        let front = parents_watched(files, (count - 1) as nat);
        lemma_parent_watched(files, (count - 1) as nat, at);
        let i = choose|i: int| 0 <= i < front.len() && (#[trigger] front[i]).path == parent;
        assert(all[i] == front[i]);
    }
}

/// The directories of a list, each path once; watched with its subdirectories
/// where it is so anywhere in the list.
pub fn normalized_paths(paths: &Vec<WatchPath>) -> (result: Vec<WatchPath>)
    ensures
        watches_of(result@) == normalized(watches_of(paths@), paths@.len()),
{
    let ghost all = watches_of(paths@);
    let mut result: Vec<WatchPath> = Vec::new();
    let mut index: usize = 0;
    assert(watches_of(result@) =~= Seq::empty());
    while index < paths.len()
        invariant
            all == watches_of(paths@),
            index <= all.len(),
            watches_of(result@) == normalized(all, index as nat),
        decreases all.len() - index,
    {
        let watch = &paths[index];
        assert(all[index as int] == watch@);
        let deep = WatchPath::new(watch.path.clone(), true);
        let recursive = watch.recursive || has_watch(&result, &deep);
        drop_path(&mut result, &watch.path);
        let ghost kept = watches_of(result@);
        let added = WatchPath::new(watch.path.clone(), recursive);
        result.push(added);
        assert(watches_of(result@) =~= kept.push(added@));
        index += 1;
    }
    result
}

/// A normalised list watches the paths of the list, each once, and with their
/// subdirectories exactly where some entry of the list asks for it.
pub proof fn law_normalized_paths(watches: Seq<WatchView>, count: nat)
    requires
        count <= watches.len(),
    ensures
        forall|i: int, j: int|
            0 <= i < j < normalized(watches, count).len() ==> (#[trigger] normalized(
                watches,
                count,
            )[i]).path != (#[trigger] normalized(watches, count)[j]).path,
        forall|path: PathNames| #[trigger]
            watched_deeply(normalized(watches, count), path) <==> watched_deeply(
                watches.take(count as int),
                path,
            ),
        forall|path: PathNames|
            (#[trigger] watched_somehow(normalized(watches, count), path)) <==> watched_somehow(
                watches.take(count as int),
                path,
            ),
    decreases count,
{
    let all = watches.take(count as int);
    if count == 0 {
        assert(all.len() == 0);
    } else {
        let front = normalized(watches, (count - 1) as nat);
        let earlier = watches.take(count - 1);
        let watch = watches[count - 1];
        law_normalized_paths(watches, (count - 1) as nat);
        let keep = |other: WatchView| other.path != watch.path;
        let kept = front.filter(keep);
        let next = normalized(watches, count);
        lemma_filter(front, keep);
        lemma_filter_keeps_order(front, keep);
        assert(all =~= earlier.push(watch));
        assert forall|i: int, j: int| 0 <= i < j < next.len() implies (#[trigger] next[i]).path
            != (#[trigger] next[j]).path by {
            if j == kept.len() {
                assert(kept.contains(kept[i]));
            }
        }
        assert forall|path: PathNames| #[trigger] watched_deeply(next, path) <==> watched_deeply(
            all,
            path,
        ) by {
            let deep = WatchView { path, recursive: true };
            lemma_push_contains(kept, next.last(), deep);
            lemma_push_contains(earlier, watch, deep);
            assert(next =~= kept.push(next.last()));
            assert(watched_deeply(front, path) <==> watched_deeply(earlier, path));
            assert(kept.contains(deep) <==> front.contains(deep) && keep(deep));
        }
        assert forall|path: PathNames| #[trigger] watched_somehow(next, path)
            <==> watched_somehow(all, path) by {
            assert(watched_somehow(front, path) <==> watched_somehow(earlier, path));
            assert forall|recursive: bool| #[trigger]
                next.contains(WatchView { path, recursive }) <==> next.last() == (WatchView {
                path,
                recursive,
            }) || kept.contains(WatchView { path, recursive }) by {
                lemma_push_contains(kept, next.last(), WatchView { path, recursive });
                assert(next =~= kept.push(next.last()));
            }
            assert forall|recursive: bool| #[trigger]
                all.contains(WatchView { path, recursive }) <==> watch == (WatchView {
                path,
                recursive,
            }) || earlier.contains(WatchView { path, recursive }) by {
                lemma_push_contains(earlier, watch, WatchView { path, recursive });
            }
            assert(kept.contains(WatchView { path, recursive: true }) <==> front.contains(
                WatchView { path, recursive: true },
            ) && path != watch.path);
            assert(kept.contains(WatchView { path, recursive: false }) <==> front.contains(
                WatchView { path, recursive: false },
            ) && path != watch.path);
            assert(next.contains(WatchView { path, recursive: true }) || next.contains(
                WatchView { path, recursive: false },
            ) <==> watched_somehow(next, path));
        }
    }
}

/// Whether a path is watched, with its subdirectories or without.
pub open spec fn watched_somehow(watches: Seq<WatchView>, path: PathNames) -> bool {
    watches.contains(WatchView { path, recursive: true }) || watches.contains(
        WatchView { path, recursive: false },
    )
}

proof fn lemma_push_contains<A>(items: Seq<A>, last: A, item: A)
    ensures
        items.push(last).contains(item) == (item == last || items.contains(item)),
{
    let all = items.push(last);
    if items.contains(item) {
        let i = items.index_of(item);
        assert(all[i] == item);
    }
    assert(all[items.len() as int] == last);
    if all.contains(item) {
        let i = all.index_of(item);
        if i < items.len() {
            assert(items[i] == item);
        }
    }
}

/// Filtering keeps paths that occur once in a list from occurring twice.
proof fn lemma_filter_keeps_order(items: Seq<WatchView>, keep: spec_fn(WatchView) -> bool)
    requires
        forall|i: int, j: int|
            0 <= i < j < items.len() ==> (#[trigger] items[i]).path != (#[trigger] items[j]).path,
    ensures
        forall|i: int, j: int|
            0 <= i < j < items.filter(keep).len() ==> (#[trigger] items.filter(keep)[i]).path != (
            #[trigger] items.filter(keep)[j]).path,
    decreases items.len(),
{
    reveal(Seq::filter);
    if items.len() > 0 {
        let front = items.drop_last();
        lemma_filter_keeps_order(front, keep);
        lemma_filter(front, keep);
        let kept = front.filter(keep);
        let all = items.filter(keep);
        assert forall|i: int, j: int| 0 <= i < j < all.len() implies (#[trigger] all[i]).path != (
        #[trigger] all[j]).path by {
            if j == kept.len() {
                assert(kept.contains(kept[i]));
                let at = front.index_of(kept[i]);
                assert(items[at].path != items[items.len() - 1].path);
            }
        }
    }
}

/// The directories of one list that another one lacks.
pub open spec fn watches_beside(watches: Seq<WatchView>, other: Seq<WatchView>) -> Seq<WatchView> {
    watches.filter(|watch: WatchView| !other.contains(watch))
}

/// The directories of one list that another one lacks.
pub fn watch_difference(watches: &Vec<WatchPath>, other: &Vec<WatchPath>) -> (result: Vec<
    WatchPath,
>)
    ensures
        watches_of(result@) == watches_beside(watches_of(watches@), watches_of(other@)),
{
    let ghost all = watches_of(watches@);
    let ghost keep = |watch: WatchView| !watches_of(other@).contains(watch);
    let mut result: Vec<WatchPath> = Vec::new();
    let mut index: usize = 0;
    proof {
        reveal(Seq::filter);
        assert(watches_of(result@) =~= all.take(0).filter(keep));
    }
    while index < watches.len()
        invariant
            all == watches_of(watches@),
            keep == |watch: WatchView| !watches_of(other@).contains(watch),
            index <= all.len(),
            watches_of(result@) == all.take(index as int).filter(keep),
        decreases all.len() - index,
    {
        let watch = &watches[index];
        let ghost before = watches_of(result@);
        proof {
            assert(all.take(index + 1).drop_last() =~= all.take(index as int));
            assert(all.take(index + 1).last() == watch@);
            reveal(Seq::filter);
        }
        if !has_watch(other, watch) {
            let copy = watch.clone();
            result.push(copy);
            assert(watches_of(result@) =~= before.push(copy@));
        }
        index += 1;
    }
    assert(all.take(index as int) =~= all);
    result
}

/// What the window is told.
#[derive(Debug, PartialEq, Eq)]
pub enum WatchMessage {
    Changed(Vec<MediaPath>),
    Rescan,
    Error(String),
}

impl Clone for WatchMessage {
    fn clone(&self) -> (copy: Self)
        ensures
            copy@ == self@,
    {
        match self {
            WatchMessage::Changed(paths) => WatchMessage::Changed(paths_copy(paths)),
            WatchMessage::Rescan => WatchMessage::Rescan,
            WatchMessage::Error(error) => WatchMessage::Error(error.as_str().to_owned()),
        }
    }
}

/// The contents of a [`WatchMessage`].
pub enum WatchMessageView {
    Changed(Seq<PathNames>),
    Rescan,
    Error(Seq<char>),
}

impl View for WatchMessage {
    type V = WatchMessageView;

    open spec fn view(&self) -> WatchMessageView {
        match self {
            WatchMessage::Changed(paths) => WatchMessageView::Changed(paths_of(paths@)),
            WatchMessage::Rescan => WatchMessageView::Rescan,
            WatchMessage::Error(error) => WatchMessageView::Error(error@),
        }
    }
}

/// The contents of a list of messages.
pub open spec fn messages_of(messages: Seq<WatchMessage>) -> Seq<WatchMessageView> {
    Seq::new(messages.len(), |i: int| messages[i]@)
}

/// When a changed file has been written.
#[derive(Debug, Clone, Copy, PartialEq, Eq, Structural)]
pub enum SettleRequirement {
    /// Its size and time stay the same.
    StableMetadata,
    /// Its writer has closed it.
    CloseWrite,
}

impl View for SettleRequirement {
    type V = SettleRequirement;

    open spec fn view(&self) -> SettleRequirement {
        *self
    }
}

/// What a notification means for its files.
#[derive(Debug, Clone, Copy, PartialEq, Eq, Structural)]
pub enum EventDisposition {
    Ignore,
    Dirty(SettleRequirement),
    Ready,
}

/// How a file is accessed.
#[derive(Debug, Clone, Copy, PartialEq, Eq, Structural)]
pub enum AccessMode {
    Any,
    Execute,
    Read,
    Write,
    Other,
}

#[derive(Debug, Clone, Copy, PartialEq, Eq, Structural)]
pub enum AccessKind {
    Any,
    Read,
    Open(AccessMode),
    Close(AccessMode),
    Other,
}

#[derive(Debug, Clone, Copy, PartialEq, Eq, Structural)]
pub enum CreateKind {
    Any,
    File,
    Folder,
    Other,
}

#[derive(Debug, Clone, Copy, PartialEq, Eq, Structural)]
pub enum ModifyKind {
    Any,
    Data,
    Metadata,
    Name,
    Other,
}

#[derive(Debug, Clone, Copy, PartialEq, Eq, Structural)]
pub enum RemoveKind {
    Any,
    File,
    Folder,
    Other,
}

/// What a notification is about.
#[derive(Debug, Clone, Copy, PartialEq, Eq, Structural)]
pub enum EventKind {
    Any,
    Access(AccessKind),
    Create(CreateKind),
    Modify(ModifyKind),
    Remove(RemoveKind),
    Other,
}

/// What a notification means for its files. A file that was closed by its writer,
/// removed or renamed is ready, and so is a new folder; other accesses mean
/// nothing; a file that is written is dirty until it is closed, where that is
/// reported; any other change makes it dirty until its size and time stay the
/// same.
pub open spec fn disposition(kind: EventKind, close_write_reliable: bool) -> EventDisposition {
    match kind {
        EventKind::Access(AccessKind::Close(AccessMode::Write)) => EventDisposition::Ready,
        EventKind::Access(_) => EventDisposition::Ignore,
        EventKind::Remove(_) => EventDisposition::Ready,
        EventKind::Modify(ModifyKind::Name) => EventDisposition::Ready,
        EventKind::Create(CreateKind::Folder) => EventDisposition::Ready,
        EventKind::Create(_) => EventDisposition::Dirty(writing(close_write_reliable)),
        EventKind::Modify(ModifyKind::Data) => EventDisposition::Dirty(
            writing(close_write_reliable),
        ),
        EventKind::Modify(_) => EventDisposition::Dirty(SettleRequirement::StableMetadata),
        EventKind::Any => EventDisposition::Dirty(SettleRequirement::StableMetadata),
        EventKind::Other => EventDisposition::Dirty(SettleRequirement::StableMetadata),
    }
}

/// When a file that is written has been written.
pub open spec fn writing(close_write_reliable: bool) -> SettleRequirement {
    if close_write_reliable {
        SettleRequirement::CloseWrite
    } else {
        SettleRequirement::StableMetadata
    }
}

pub fn event_disposition(kind: &EventKind, close_write_reliable: bool) -> (result:
    EventDisposition)
    ensures
        result == disposition(*kind, close_write_reliable),
{
    let written = if close_write_reliable {
        SettleRequirement::CloseWrite
    } else {
        SettleRequirement::StableMetadata
    };
    match kind {
        EventKind::Access(AccessKind::Close(AccessMode::Write)) => EventDisposition::Ready,
        EventKind::Access(_) => EventDisposition::Ignore,
        EventKind::Remove(_) => EventDisposition::Ready,
        EventKind::Modify(ModifyKind::Name) => EventDisposition::Ready,
        EventKind::Create(CreateKind::Folder) => EventDisposition::Ready,
        EventKind::Create(_) => EventDisposition::Dirty(written),
        EventKind::Modify(ModifyKind::Data) => EventDisposition::Dirty(written),
        EventKind::Modify(_) => EventDisposition::Dirty(SettleRequirement::StableMetadata),
        EventKind::Any => EventDisposition::Dirty(SettleRequirement::StableMetadata),
        EventKind::Other => EventDisposition::Dirty(SettleRequirement::StableMetadata),
    }
}

/// A notification of the file system.
#[derive(Debug)]
pub struct WatchEvent {
    pub kind: EventKind,
    pub paths: Vec<MediaPath>,
    /// Whether notifications were lost, so that all is to be scanned again.
    pub need_rescan: bool,
}

/// What the notifications since the last look said.
#[derive(Debug)]
pub struct RawMessages {
    pub dirty: KeyMap<MediaPath, SettleRequirement>,
    pub ready: KeySet<MediaPath>,
    pub force_rescan: bool,
    pub errors: Vec<String>,
}

/// The contents of [`RawMessages`].
pub struct RawView {
    pub dirty: Seq<(PathNames, SettleRequirement)>,
    pub ready: Seq<PathNames>,
    pub force_rescan: bool,
    pub errors: Seq<Seq<char>>,
}

impl View for RawMessages {
    type V = RawView;

    open spec fn view(&self) -> RawView {
        RawView {
            dirty: self.dirty@,
            ready: self.ready@,
            force_rescan: self.force_rescan,
            errors: texts_of(self.errors@),
        }
    }
}

impl RawView {
    /// The messages after a file was found dirty: waiting for its writer goes
    /// before waiting for its size and time.
    pub open spec fn dirtied(self, path: PathNames, requirement: SettleRequirement) -> RawView {
        let merged = match map_get(self.dirty, path) {
            Some(current) => if requirement == SettleRequirement::CloseWrite {
                requirement
            } else {
                current
            },
            None => requirement,
        };
        RawView {
            ready: set_without(self.ready, path),
            dirty: map_with(self.dirty, path, merged),
            ..self
        }
    }

    /// The messages after a file was found ready.
    pub open spec fn readied(self, path: PathNames) -> RawView {
        RawView {
            dirty: map_without(self.dirty, path),
            ready: set_with(self.ready, path),
            ..self
        }
    }

    /// The messages after the first `count` files of a notification.
    pub open spec fn after_paths(
        self,
        paths: Seq<PathNames>,
        meaning: EventDisposition,
        count: nat,
    ) -> RawView
        decreases count,
    {
        if count == 0 {
            self
        } else {
            let front = self.after_paths(paths, meaning, (count - 1) as nat);
            match meaning {
                EventDisposition::Ignore => front,
                EventDisposition::Dirty(requirement) => front.dirtied(
                    paths[count - 1],
                    requirement,
                ),
                EventDisposition::Ready => front.readied(paths[count - 1]),
            }
        }
    }

    /// The messages after a notification, or after an error.
    pub open spec fn after_result(
        self,
        result: Result<WatchEvent, String>,
        close_write_reliable: bool,
    ) -> RawView {
        match result {
            Ok(event) => if event.need_rescan {
                RawView { force_rescan: true, ..self }
            } else {
                self.after_paths(
                    paths_of(event.paths@),
                    disposition(event.kind, close_write_reliable),
                    event.paths@.len(),
                )
            },
            Err(error) => RawView { errors: self.errors.push(error@), ..self },
        }
    }
}

/// Whether a notification, or an error, is worth a look.
pub open spec fn noteworthy(result: Result<WatchEvent, String>, close_write_reliable: bool) -> bool {
    match result {
        Ok(event) => event.need_rescan || (disposition(event.kind, close_write_reliable)
            != EventDisposition::Ignore && event.paths@.len() > 0),
        Err(_) => true,
    }
}

impl RawMessages {
    /// No messages.
    pub fn new() -> (messages: RawMessages)
        ensures
            messages@ == (RawView {
                dirty: Seq::empty(),
                ready: Seq::empty(),
                force_rescan: false,
                errors: Seq::empty(),
            }),
    {
        let messages = RawMessages {
            dirty: KeyMap::new(),
            ready: KeySet::new(),
            force_rescan: false,
            errors: Vec::new(),
        };
        assert(messages@.errors =~= Seq::empty());
        messages
    }

    /// Notes that a file is dirty.
    fn note_dirty(&mut self, path: &MediaPath, requirement: SettleRequirement)
        ensures
            final(self)@ == old(self)@.dirtied(path@, requirement),
    {
        self.ready.remove(path);
        let merged = match self.dirty.get(path) {
            Some(current) => if requirement == SettleRequirement::CloseWrite {
                requirement
            } else {
                *current
            },
            None => requirement,
        };
        self.dirty.insert(path.clone(), merged);
    }

    /// Notes that a file is ready.
    fn note_ready(&mut self, path: &MediaPath)
        ensures
            final(self)@ == old(self)@.readied(path@),
    {
        self.dirty.remove(path);
        self.ready.insert(path.clone());
    }

    /// Notes a notification, or an error; reports whether it is worth a look.
    pub fn send_raw_result(
        &mut self,
        result: Result<WatchEvent, String>,
        close_write_reliable: bool,
    ) -> (changed: bool)
        ensures
            final(self)@ == old(self)@.after_result(result, close_write_reliable),
            changed == noteworthy(result, close_write_reliable),
    {
        let event = match result {
            Ok(event) => event,
            Err(error) => {
                self.errors.push(error);
                assert(texts_of(self.errors@) =~= texts_of(old(self).errors@).push(error@));
                return true;
            },
        };
        if event.need_rescan {
            self.force_rescan = true;
            return true;
        }
        let meaning = event_disposition(&event.kind, close_write_reliable);
        let ghost paths = paths_of(event.paths@);
        let ghost before = self@;
        let mut index: usize = 0;
        while index < event.paths.len()
            invariant
                paths == paths_of(event.paths@),
                index <= paths.len(),
                self@ == before.after_paths(paths, meaning, index as nat),
            decreases paths.len() - index,
        {
            assert(paths[index as int] == event.paths@[index as int]@);
            match meaning {
                EventDisposition::Ignore => {},
                EventDisposition::Dirty(requirement) => {
                    self.note_dirty(&event.paths[index], requirement);
                },
                EventDisposition::Ready => {
                    self.note_ready(&event.paths[index]);
                },
            }
            index += 1;
        }
        match meaning {
            EventDisposition::Ignore => false,
            _ => event.paths.len() > 0,
        }
    }
}

/// The size and time of a file; the time is in nanoseconds since the Unix epoch.
#[derive(Debug, Clone, Copy, PartialEq, Eq, Structural)]
pub struct FileStamp {
    pub len: u64,
    pub modified: Option<i128>,
}

/// A changed file that may still be written.
#[derive(Debug, Clone, Copy, PartialEq, Eq, Structural)]
pub struct SettlingPath {
    pub requirement: SettleRequirement,
    /// What was last seen of it.
    pub stamp: Option<FileStamp>,
}

impl View for SettlingPath {
    type V = SettlingPath;

    open spec fn view(&self) -> SettlingPath {
        *self
    }
}

/// The changed files that may still be written.
#[derive(Debug)]
pub struct Debouncer {
    pub settling: KeyMap<MediaPath, SettlingPath>,
}

/// The files that settle after the first `count` ready ones were taken out.
pub open spec fn without_ready(
    settling: Seq<(PathNames, SettlingPath)>,
    ready: Seq<PathNames>,
    count: nat,
) -> Seq<(PathNames, SettlingPath)>
    decreases count,
{
    if count == 0 {
        settling
    } else {
        map_without(without_ready(settling, ready, (count - 1) as nat), ready[count - 1])
    }
}

/// The files that settle after the first `count` dirty ones were put in, unless
/// they are ready.
pub open spec fn with_dirty(
    settling: Seq<(PathNames, SettlingPath)>,
    raw: RawView,
    count: nat,
) -> Seq<(PathNames, SettlingPath)>
    decreases count,
{
    if count == 0 {
        settling
    } else {
        let front = with_dirty(settling, raw, (count - 1) as nat);
        let (path, requirement) = raw.dirty[count - 1];
        if raw.ready.contains(path) {
            front
        } else {
            map_with(front, path, SettlingPath { requirement, stamp: None })
        }
    }
}

/// The files that settle after the notifications since the last look.
pub open spec fn absorbed(settling: Seq<(PathNames, SettlingPath)>, raw: RawView) -> Seq<
    (PathNames, SettlingPath),
> {
    with_dirty(without_ready(settling, raw.ready, raw.ready.len()), raw, raw.dirty.len())
}

/// Whether a file has settled, by what is seen of it now: it is gone, or the same
/// as before. A file that waits for its writer has not.
pub open spec fn settled(path: SettlingPath, seen: Option<FileStamp>) -> bool {
    path.requirement == SettleRequirement::StableMetadata && (seen is None || path.stamp == seen)
}

/// Those of the first `count` files that have not settled, with what was seen of
/// them.
pub open spec fn unsettled(
    settling: Seq<(PathNames, SettlingPath)>,
    seen: Seq<Option<FileStamp>>,
    count: nat,
) -> Seq<(PathNames, SettlingPath)>
    decreases count,
{
    if count == 0 {
        Seq::empty()
    } else {
        let front = unsettled(settling, seen, (count - 1) as nat);
        let (path, state) = settling[count - 1];
        if settled(state, seen[count - 1]) {
            front
        } else if state.requirement == SettleRequirement::CloseWrite {
            front.push((path, state))
        } else {
            front.push((path, SettlingPath { stamp: seen[count - 1], ..state }))
        }
    }
}

/// A set of files with those of the first `count` that have settled.
pub open spec fn ready_with(
    ready: Seq<PathNames>,
    settling: Seq<(PathNames, SettlingPath)>,
    seen: Seq<Option<FileStamp>>,
    count: nat,
) -> Seq<PathNames>
    decreases count,
{
    if count == 0 {
        ready
    } else {
        let front = ready_with(ready, settling, seen, (count - 1) as nat);
        let (path, state) = settling[count - 1];
        if settled(state, seen[count - 1]) {
            set_with(front, path)
        } else {
            front
        }
    }
}

impl Debouncer {
    pub fn new() -> (debouncer: Debouncer)
        ensures
            debouncer.settling@ == Seq::<(PathNames, SettlingPath)>::empty(),
    {
        Debouncer { settling: KeyMap::new() }
    }

    /// Whether no file settles, so that only a notification is worth waiting for.
    pub fn is_idle(&self) -> (idle: bool)
        ensures
            idle == (self.settling@.len() == 0),
    {
        self.settling.is_empty()
    }

    /// Takes the notifications since the last look.
    pub fn absorb(&mut self, raw: &RawMessages)
        ensures
            final(self).settling@ == absorbed(old(self).settling@, raw@),
    {
        let ghost before = self.settling@;
        let mut index: usize = 0;
        while index < raw.ready.keys.len()
            invariant
                index <= raw@.ready.len(),
                raw@.ready.len() == raw.ready.keys@.len(),
                self.settling@ == without_ready(before, raw@.ready, index as nat),
            decreases raw@.ready.len() - index,
        {
            assert(raw@.ready[index as int] == raw.ready.keys@[index as int]@);
            self.settling.remove(&raw.ready.keys[index]);
            index += 1;
        }
        let ghost middle = self.settling@;
        let mut at: usize = 0;
        while at < raw.dirty.pairs.len()
            invariant
                at <= raw@.dirty.len(),
                raw@.dirty.len() == raw.dirty.pairs@.len(),
                self.settling@ == with_dirty(middle, raw@, at as nat),
            decreases raw@.dirty.len() - at,
        {
            let pair = &raw.dirty.pairs[at];
            assert(raw@.dirty[at as int] == (pair.0@, pair.1));
            if !raw.ready.contains(&pair.0) {
                self.settling.insert(
                    pair.0.clone(),
                    SettlingPath { requirement: pair.1, stamp: None },
                );
            }
            at += 1;
        }
    }

    /// Takes what is seen now of each file that settles; puts those that have
    /// settled into a set of ready files.
    pub fn settle(&mut self, seen: &Vec<Option<FileStamp>>, ready: &mut KeySet<MediaPath>)
        requires
            seen@.len() == old(self).settling@.len(),
        ensures
            final(self).settling@ == unsettled(
                old(self).settling@,
                seen@,
                old(self).settling@.len(),
            ),
            final(ready)@ == ready_with(
                old(ready)@,
                old(self).settling@,
                seen@,
                old(self).settling@.len(),
            ),
    {
        let ghost all = self.settling@;
        let ghost before = ready@;
        let mut kept: Vec<(MediaPath, SettlingPath)> = Vec::new();
        let mut index: usize = 0;
        assert(crate::assoc::pairs_of(kept@) =~= Seq::empty());
        while index < self.settling.pairs.len()
            invariant
                all == self.settling@,
                all.len() == self.settling.pairs@.len(),
                seen@.len() == all.len(),
                index <= all.len(),
                crate::assoc::pairs_of(kept@) == unsettled(all, seen@, index as nat),
                ready@ == ready_with(before, all, seen@, index as nat),
            decreases all.len() - index,
        {
            let pair = &self.settling.pairs[index];
            assert(all[index as int] == (pair.0@, pair.1));
            let ghost earlier = crate::assoc::pairs_of(kept@);
            let state = pair.1;
            if state.requirement == SettleRequirement::CloseWrite {
                kept.push((pair.0.clone(), state));
                assert(crate::assoc::pairs_of(kept@) =~= earlier.push((pair.0@, state)));
            } else {
                match seen[index] {
                    None => {
                        ready.insert(pair.0.clone());
                    },
                    Some(stamp) => {
                        if same_stamp(state.stamp, stamp) {
                            ready.insert(pair.0.clone());
                        } else {
                            let waiting = SettlingPath {
                                requirement: state.requirement,
                                stamp: Some(stamp),
                            };
                            kept.push((pair.0.clone(), waiting));
                            assert(crate::assoc::pairs_of(kept@) =~= earlier.push(
                                (pair.0@, waiting),
                            ));
                        }
                    },
                }
            }
            index += 1;
        }
        self.settling = KeyMap { pairs: kept };
    }
}

/// Whether a file looks as it did before.
fn same_stamp(before: Option<FileStamp>, now: FileStamp) -> (same: bool)
    ensures
        same == (before == Some(now)),
{
    match before {
        Some(stamp) => stamp.len == now.len && match (stamp.modified, now.modified) {
            (Some(a), Some(b)) => a == b,
            (None, None) => true,
            _ => false,
        },
        None => false,
    }
}

/// What the window has not been told yet.
#[derive(Debug)]
pub struct PendingMessages {
    pub paths: KeySet<MediaPath>,
    pub force_rescan: bool,
    pub errors: Vec<String>,
}

/// The contents of [`PendingMessages`].
pub struct PendingView {
    pub paths: Seq<PathNames>,
    pub force_rescan: bool,
    pub errors: Seq<Seq<char>>,
}

impl View for PendingMessages {
    type V = PendingView;

    open spec fn view(&self) -> PendingView {
        PendingView {
            paths: self.paths@,
            force_rescan: self.force_rescan,
            errors: texts_of(self.errors@),
        }
    }
}

/// A set of paths with the first `count` of a list.
pub open spec fn paths_with(paths: Seq<PathNames>, more: Seq<PathNames>, count: nat) -> Seq<
    PathNames,
>
    decreases count,
{
    if count == 0 {
        paths
    } else {
        set_with(paths_with(paths, more, (count - 1) as nat), more[count - 1])
    }
}

impl PendingView {
    /// What the window has not been told, with more.
    pub open spec fn extended(
        self,
        ready: Seq<PathNames>,
        force_rescan: bool,
        errors: Seq<Seq<char>>,
    ) -> PendingView {
        PendingView {
            paths: paths_with(self.paths, ready, ready.len()),
            force_rescan: self.force_rescan || force_rescan,
            errors: self.errors + errors,
        }
    }

    /// Whether there is anything to tell.
    pub open spec fn something(self) -> bool {
        self.paths.len() > 0 || self.force_rescan || self.errors.len() > 0
    }

    /// What is told: the changed files together, that all is to be scanned again,
    /// and each error.
    pub open spec fn messages(self) -> Seq<WatchMessageView> {
        (if self.paths.len() > 0 {
            seq![WatchMessageView::Changed(self.paths)]
        } else {
            Seq::empty()
        }) + (if self.force_rescan {
            seq![WatchMessageView::Rescan]
        } else {
            Seq::empty()
        }) + Seq::new(self.errors.len(), |i: int| WatchMessageView::Error(self.errors[i]))
    }
}

impl PendingMessages {
    pub fn new() -> (pending: PendingMessages)
        ensures
            pending@ == (PendingView {
                paths: Seq::empty(),
                force_rescan: false,
                errors: Seq::empty(),
            }),
    {
        let pending = PendingMessages {
            paths: KeySet::new(),
            force_rescan: false,
            errors: Vec::new(),
        };
        assert(pending@.errors =~= Seq::empty());
        pending
    }

    /// Adds the files that are ready, and what else is to be told; reports whether
    /// there is anything to tell.
    pub fn extend(
        &mut self,
        ready: &KeySet<MediaPath>,
        force_rescan: bool,
        errors: &Vec<String>,
    ) -> (changed: bool)
        ensures
            final(self)@ == old(self)@.extended(ready@, force_rescan, texts_of(errors@)),
            changed == final(self)@.something(),
    {
        let ghost before = self@;
        let mut index: usize = 0;
        while index < ready.keys.len()
            invariant
                index <= ready@.len(),
                ready@.len() == ready.keys@.len(),
                self@.paths == paths_with(before.paths, ready@, index as nat),
                self.force_rescan == before.force_rescan,
                texts_of(self.errors@) == before.errors,
            decreases ready@.len() - index,
        {
            assert(ready@[index as int] == ready.keys@[index as int]@);
            self.paths.insert(ready.keys[index].clone());
            index += 1;
        }
        self.force_rescan = self.force_rescan || force_rescan;
        let mut more = texts_copy(errors);
        let ghost copied = texts_of(more@);
        self.errors.append(&mut more);
        assert(texts_of(self.errors@) =~= before.errors + copied);
        !self.paths.is_empty() || self.force_rescan || self.errors.len() > 0
    }

    /// Takes what the window has not been told yet.
    pub fn take_pending(&mut self) -> (messages: Vec<WatchMessage>)
        ensures
            messages_of(messages@) == old(self)@.messages(),
            final(self)@ == (PendingView {
                paths: Seq::empty(),
                force_rescan: false,
                errors: Seq::empty(),
            }),
    {
        let ghost before = self@;
        let mut messages: Vec<WatchMessage> = Vec::new();
        if !self.paths.is_empty() {
            let paths = crate::path::paths_copy(&self.paths.keys);
            assert(paths_of(paths@) =~= before.paths);
            messages.push(WatchMessage::Changed(paths));
        }
        if self.force_rescan {
            messages.push(WatchMessage::Rescan);
        }
        let ghost front = messages_of(messages@);
        let count: usize = self.errors.len();
        let mut index: usize = 0;
        while index < count
            invariant
                count == self.errors@.len(),
                before.errors == texts_of(self.errors@),
                index <= count,
                messages_of(messages@) == front + Seq::new(
                    index as nat,
                    |i: int| WatchMessageView::Error(before.errors[i]),
                ),
            decreases count - index,
        {
            let ghost earlier = messages_of(messages@);
            let message = WatchMessage::Error(self.errors[index].clone());
            messages.push(message);
            assert(messages_of(messages@) =~= earlier.push(message@));
            index += 1;
            assert(messages_of(messages@) =~= front + Seq::new(
                index as nat,
                |i: int| WatchMessageView::Error(before.errors[i]),
            ));
        }
        assert(messages_of(messages@) =~= before.messages());
        self.paths.clear();
        self.force_rescan = false;
        self.errors.clear();
        assert(self@.errors =~= Seq::empty());
        messages
    }
}

/// Whether a path is a directory or lies in it.
pub fn path_is_within(path: &MediaPath, root: &MediaPath) -> (within: bool)
    ensures
        within == path_within(path@, root@),
{
    path.starts_with(root)
}

/// A file that waits for its writer to close it is not reported, whatever is seen of
/// it; one that waits for its size and time is reported once it is gone or seen
/// unchanged.
pub proof fn law_writers_are_waited_for(path: SettlingPath, seen: Option<FileStamp>)
    ensures
        path.requirement == SettleRequirement::CloseWrite ==> !settled(path, seen),
        path.requirement == SettleRequirement::StableMetadata ==> (settled(path, seen)
            <==> seen is None || path.stamp == seen),
{
}

impl RawView {
    /// Whether no file is both dirty and ready.
    pub open spec fn sound(self) -> bool {
        forall|path: PathNames| #[trigger]
            self.ready.contains(path) ==> !crate::assoc::map_has(self.dirty, path)
    }
}

/// Notifications keep a file from being both dirty and ready: the last one counts.
pub proof fn law_last_notification_counts(
    raw: RawView,
    path: PathNames,
    requirement: SettleRequirement,
)
    requires
        raw.sound(),
    ensures
        raw.dirtied(path, requirement).sound(),
        raw.readied(path).sound(),
        !raw.dirtied(path, requirement).ready.contains(path),
        raw.readied(path).ready.contains(path),
        requirement == SettleRequirement::CloseWrite ==> map_get(
            raw.dirtied(path, requirement).dirty,
            path,
        ) == Some(SettleRequirement::CloseWrite),
{
    let dirtied = raw.dirtied(path, requirement);
    let readied = raw.readied(path);
    let merged = match map_get(raw.dirty, path) {
        Some(current) => if requirement == SettleRequirement::CloseWrite {
            requirement
        } else {
            current
        },
        None => requirement,
    };
    crate::assoc::law_map_lookup(raw.dirty, path, merged, path);
    crate::assoc::law_set_membership(raw.ready, path, path);
    assert forall|other: PathNames| #[trigger] dirtied.ready.contains(other) implies !
    crate::assoc::map_has(dirtied.dirty, other) by {
        crate::assoc::law_set_membership(raw.ready, path, other);
        crate::assoc::law_map_lookup(raw.dirty, path, merged, other);
        assert(raw.ready.contains(other));
        if crate::assoc::map_has(dirtied.dirty, other) {
            assert(map_get(dirtied.dirty, other) is Some);
        }
    }
    assert forall|other: PathNames| #[trigger] readied.ready.contains(other) implies !
    crate::assoc::map_has(readied.dirty, other) by {
        crate::assoc::law_set_membership(raw.ready, path, other);
        crate::assoc::law_map_removal(raw.dirty, path, other);
        if other != path {
            assert(raw.ready.contains(other));
        }
    }
}

/// A notification keeps every file from being both dirty and ready.
pub proof fn law_notifications_keep_messages_sound(
    raw: RawView,
    paths: Seq<PathNames>,
    meaning: EventDisposition,
    count: nat,
)
    requires
        raw.sound(),
        count <= paths.len(),
    ensures
        raw.after_paths(paths, meaning, count).sound(),
    decreases count,
{
    if count > 0 {
        law_notifications_keep_messages_sound(raw, paths, meaning, (count - 1) as nat);
        let front = raw.after_paths(paths, meaning, (count - 1) as nat);
        match meaning {
            EventDisposition::Ignore => {},
            EventDisposition::Dirty(requirement) => {
                law_last_notification_counts(front, paths[count - 1], requirement);
            },
            EventDisposition::Ready => {
                law_last_notification_counts(
                    front,
                    paths[count - 1],
                    SettleRequirement::CloseWrite,
                );
            },
        }
    }
}

/// A file that its writer closed, that was removed or renamed, and a new folder, are
/// reported at once; reading and opening mean nothing; a file that is made or written waits
/// for its writer where that is told, and else for its size and time to stay the same, as
/// it does after any other change.
pub proof fn law_notifications_mean(kind: EventKind, reliable: bool)
    ensures
        kind == EventKind::Access(AccessKind::Close(AccessMode::Write)) ==> disposition(
            kind,
            reliable,
        ) == EventDisposition::Ready,
        kind is Access && kind != EventKind::Access(AccessKind::Close(AccessMode::Write))
            ==> disposition(kind, reliable) == EventDisposition::Ignore,
        kind is Remove ==> disposition(kind, reliable) == EventDisposition::Ready,
        kind == EventKind::Modify(ModifyKind::Name) ==> disposition(kind, reliable)
            == EventDisposition::Ready,
        kind == EventKind::Create(CreateKind::Folder) ==> disposition(kind, reliable)
            == EventDisposition::Ready,
        reliable && (kind == EventKind::Modify(ModifyKind::Data) || (kind is Create && kind
            != EventKind::Create(CreateKind::Folder))) ==> disposition(kind, reliable)
            == EventDisposition::Dirty(SettleRequirement::CloseWrite),
        !reliable && (kind == EventKind::Modify(ModifyKind::Data) || (kind is Create && kind
            != EventKind::Create(CreateKind::Folder))) ==> disposition(kind, reliable)
            == EventDisposition::Dirty(SettleRequirement::StableMetadata),
        kind is Any || kind is Other || (kind is Modify && kind != EventKind::Modify(
            ModifyKind::Data,
        ) && kind != EventKind::Modify(ModifyKind::Name)) ==> disposition(kind, reliable)
            == EventDisposition::Dirty(SettleRequirement::StableMetadata),
{
}

/// A notification makes its files ready or dirty, or leaves them, as its kind means; no
/// other file is affected.
pub proof fn law_notifications_reach_their_files(
    raw: RawView,
    paths: Seq<PathNames>,
    meaning: EventDisposition,
    count: nat,
    path: PathNames,
)
    requires
        count <= paths.len(),
    ensures
        ({
            let after = raw.after_paths(paths, meaning, count);
            let named = exists|i: int| 0 <= i < count && #[trigger] paths[i] == path;
            &&& !named ==> after.ready.contains(path) == raw.ready.contains(path)
                && crate::assoc::map_has(after.dirty, path) == crate::assoc::map_has(
                raw.dirty,
                path,
            )
            &&& named && meaning == EventDisposition::Ready ==> after.ready.contains(path)
                && map_get(after.dirty, path) is None
            &&& named && meaning is Dirty ==> !after.ready.contains(path) && map_get(
                after.dirty,
                path,
            ) is Some
            &&& named && meaning == EventDisposition::Dirty(SettleRequirement::CloseWrite)
                ==> map_get(after.dirty, path) == Some(SettleRequirement::CloseWrite)
            &&& meaning == EventDisposition::Ignore ==> after == raw
            &&& after.force_rescan == raw.force_rescan && after.errors == raw.errors
        }),
    decreases count,
{
    if count > 0 {
        law_notifications_reach_their_files(raw, paths, meaning, (count - 1) as nat, path);
        let front = raw.after_paths(paths, meaning, (count - 1) as nat);
        let last = paths[count - 1];
        crate::assoc::law_set_membership(front.ready, last, path);
        crate::assoc::law_map_removal(front.dirty, last, path);
        match meaning {
            EventDisposition::Dirty(requirement) => {
                let merged = match map_get(front.dirty, last) {
                    Some(current) => if requirement == SettleRequirement::CloseWrite {
                        requirement
                    } else {
                        current
                    },
                    None => requirement,
                };
                crate::assoc::law_map_lookup(front.dirty, last, merged, path);
            },
            _ => {},
        }
        if exists|i: int| 0 <= i < count && #[trigger] paths[i] == path {
            let i = choose|i: int| 0 <= i < count && #[trigger] paths[i] == path;
            if i < count - 1 {
                assert(paths[i] == path);
            }
        }
        assert(paths[count - 1] == last);
    }
}

/// A look at the files that settle reports those that wait for no writer and are gone, or
/// have the size and time that they had at the last look; the others go on waiting, and
/// are compared with this look at the next one. Nothing else is reported.
pub proof fn law_a_look_reports_what_settled(
    ready: Seq<PathNames>,
    settling: Seq<(PathNames, SettlingPath)>,
    seen: Seq<Option<FileStamp>>,
    count: nat,
    i: int,
)
    requires
        count <= settling.len(),
        count <= seen.len(),
        0 <= i < count,
        forall|k: int|
            0 <= k < settling.len() && k != i ==> (#[trigger] settling[k]).0 != settling[i].0,
    ensures
        ({
            let path = settling[i].0;
            let waits = settling[i].1.requirement == SettleRequirement::CloseWrite;
            let done = !waits && (seen[i] is None || seen[i] == settling[i].1.stamp);
            let left = unsettled(settling, seen, count);
            &&& ready_with(ready, settling, seen, count).contains(path) <==> done
                || ready.contains(path)
            &&& !done ==> exists|k: int|
                {
                    &&& 0 <= k < left.len()
                    &&& (#[trigger] left[k]).0 == path
                    &&& left[k].1.requirement == settling[i].1.requirement
                    &&& !waits ==> left[k].1.stamp == seen[i]
                }
            &&& done ==> forall|k: int| 0 <= k < left.len() ==> (#[trigger] left[k]).0 != path
        }),
    decreases count,
{
    let path = settling[i].0;
    let last = (count - 1) as nat;
    let front = unsettled(settling, seen, last);
    let left = unsettled(settling, seen, count);
    let before = ready_with(ready, settling, seen, last);
    crate::assoc::law_set_membership(before, settling[count - 1].0, path);
    if i < count - 1 {
        law_a_look_reports_what_settled(ready, settling, seen, last, i);
        let waits = settling[i].1.requirement == SettleRequirement::CloseWrite;
        let done = !waits && (seen[i] is None || seen[i] == settling[i].1.stamp);
        if !done {
            let k = choose|k: int|
                {
                    &&& 0 <= k < front.len()
                    &&& (#[trigger] front[k]).0 == path
                    &&& front[k].1.requirement == settling[i].1.requirement
                    &&& !waits ==> front[k].1.stamp == seen[i]
                };
            assert(left[k] == front[k]);
        }
        assert(settling[count - 1].0 != path);
        assert forall|k: int| done && 0 <= k < left.len() implies (#[trigger] left[k]).0 != path by {
            if k < front.len() {
                assert(left[k] == front[k]);
            }
        }
    } else {
        lemma_others_settle(ready, settling, seen, last, path);
        if !settled(settling[i].1, seen[i]) {
            assert(left[front.len() as int].0 == path);
        }
    }
}

proof fn lemma_others_settle(
    ready: Seq<PathNames>,
    settling: Seq<(PathNames, SettlingPath)>,
    seen: Seq<Option<FileStamp>>,
    count: nat,
    path: PathNames,
)
    requires
        count <= settling.len(),
        forall|k: int| 0 <= k < count ==> (#[trigger] settling[k]).0 != path,
    ensures
        ready_with(ready, settling, seen, count).contains(path) == ready.contains(path),
        forall|k: int|
            0 <= k < unsettled(settling, seen, count).len() ==> (#[trigger] unsettled(
                settling,
                seen,
                count,
            )[k]).0 != path,
    decreases count,
{
    if count > 0 {
        lemma_others_settle(ready, settling, seen, (count - 1) as nat, path);
        let before = ready_with(ready, settling, seen, (count - 1) as nat);
        crate::assoc::law_set_membership(before, settling[count - 1].0, path);
        assert(settling[count - 1].0 != path);
        let front = unsettled(settling, seen, (count - 1) as nat);
        let left = unsettled(settling, seen, count);
        assert forall|k: int| 0 <= k < left.len() implies (#[trigger] left[k]).0 != path by {
            if k < front.len() {
                assert(left[k] == front[k]);
            }
        }
    }
}

} // verus!
