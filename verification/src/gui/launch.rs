//! What a session opens: a directory, a file in its directory, or a set of files.

use vstd::prelude::*;
use vstd::string::StringExecFns;

use crate::path::{parent_of, path_of, paths_copy, paths_of, MediaPath, PathNames};
use crate::queue::{all_inserted, inserted_into, PathSet};
use crate::refresh::MediaRefreshScope;
use crate::scanner::ScanOptions;
use crate::sorter::{sort_entries, sorted_entries};
use crate::state::{
    entries_of, entry_position, find_entry, lists_path, AppState, EntryView, MediaEntry,
    MediaMode, SortMode, StateView, ViewMode, ZoomMode,
};
use crate::text::{joined, str_of, texts_copy, texts_of};

use super::playback::{initial_view_mode, should_autoplay_initial_video};

verus! {

/// What a path names.
#[derive(Debug, Clone, Copy, PartialEq, Eq, Structural)]
pub enum PathKind {
    Directory,
    File,
    Other,
}

/// A path that was resolved.
#[derive(Debug)]
pub struct ResolvedPath {
    pub path: MediaPath,
    /// The path as messages show it.
    pub text: String,
    pub kind: PathKind,
}

/// What the file system says of a path that a session is to open.
#[derive(Debug)]
pub struct PathFact {
    /// The path as messages show it.
    pub text: String,
    /// Whether the path itself is a symbolic link.
    pub is_symlink: bool,
    /// The path without symbolic links, or why it could not be resolved.
    pub resolved: Result<ResolvedPath, String>,
}

/// The contents of a [`PathFact`].
pub struct FactView {
    pub text: Seq<char>,
    pub is_symlink: bool,
    pub resolved: Result<(PathNames, Seq<char>, PathKind), Seq<char>>,
}

impl View for PathFact {
    type V = FactView;

    open spec fn view(&self) -> FactView {
        FactView {
            text: self.text@,
            is_symlink: self.is_symlink,
            resolved: match self.resolved {
                Ok(resolved) => Ok((resolved.path@, resolved.text@, resolved.kind)),
                Err(error) => Err(error@),
            },
        }
    }
}

/// The contents of a list of facts.
pub open spec fn facts_of(facts: Seq<PathFact>) -> Seq<FactView> {
    Seq::new(facts.len(), |i: int| facts[i]@)
}

/// Why a session cannot be opened.
#[derive(Debug, PartialEq, Eq)]
pub enum LaunchError {
    /// The current directory cannot be read.
    NoCurrentDirectory,
    /// A path cannot be resolved: the path, and why.
    Unresolved(String, String),
    /// A file is given by a symbolic link.
    Symlink(String),
    /// A directory is given among several paths.
    DirectoryAmongFiles(String),
    /// One of several paths is no file.
    NotAFile(String),
    /// A path is neither a file nor a directory.
    NotFileOrDirectory(String),
    /// A file has no directory.
    NoParent,
    /// A file is no media, or not among the media asked for.
    Excluded(String),
}

/// The contents of a [`LaunchError`].
pub enum LaunchErrorView {
    NoCurrentDirectory,
    Unresolved(Seq<char>, Seq<char>),
    Symlink(Seq<char>),
    DirectoryAmongFiles(Seq<char>),
    NotAFile(Seq<char>),
    NotFileOrDirectory(Seq<char>),
    NoParent,
    Excluded(Seq<char>),
}

impl View for LaunchError {
    type V = LaunchErrorView;

    open spec fn view(&self) -> LaunchErrorView {
        match self {
            LaunchError::NoCurrentDirectory => LaunchErrorView::NoCurrentDirectory,
            LaunchError::Unresolved(path, error) => LaunchErrorView::Unresolved(path@, error@),
            LaunchError::Symlink(path) => LaunchErrorView::Symlink(path@),
            LaunchError::DirectoryAmongFiles(path) => LaunchErrorView::DirectoryAmongFiles(path@),
            LaunchError::NotAFile(path) => LaunchErrorView::NotAFile(path@),
            LaunchError::NotFileOrDirectory(path) => LaunchErrorView::NotFileOrDirectory(path@),
            LaunchError::NoParent => LaunchErrorView::NoParent,
            LaunchError::Excluded(path) => LaunchErrorView::Excluded(path@),
        }
    }
}

impl LaunchErrorView {
    /// The message of the error.
    pub open spec fn text(self) -> Seq<char> {
        match self {
            LaunchErrorView::NoCurrentDirectory => "failed to read current directory"@,
            LaunchErrorView::Unresolved(path, error) => "failed to resolve "@ + path + ": "@
                + error,
            LaunchErrorView::Symlink(path) => path + " is a symbolic link"@,
            LaunchErrorView::DirectoryAmongFiles(path) => path
                + " is a directory; multiple path launch accepts files only"@,
            LaunchErrorView::NotAFile(path) => path + " is not a file"@,
            LaunchErrorView::NotFileOrDirectory(path) => path + " is not a file or directory"@,
            LaunchErrorView::NoParent => "file has no parent directory"@,
            LaunchErrorView::Excluded(path) => path + " is not among the media to open"@,
        }
    }
}

impl LaunchError {
    /// The message of the error.
    pub fn message(&self) -> (text: String)
        ensures
            text@ == self@.text(),
    {
        match self {
            LaunchError::NoCurrentDirectory => "failed to read current directory".to_owned(),
            LaunchError::Unresolved(path, error) => {
                let mut text = joined("failed to resolve ", path.as_str());
                text.append(": ");
                text.append(error.as_str());
                text
            },
            LaunchError::Symlink(path) => joined(path.as_str(), " is a symbolic link"),
            LaunchError::DirectoryAmongFiles(path) => joined(
                path.as_str(),
                " is a directory; multiple path launch accepts files only",
            ),
            LaunchError::NotAFile(path) => joined(path.as_str(), " is not a file"),
            LaunchError::NotFileOrDirectory(path) => joined(
                path.as_str(),
                " is not a file or directory",
            ),
            LaunchError::NoParent => "file has no parent directory".to_owned(),
            LaunchError::Excluded(path) => joined(
                path.as_str(),
                " is not among the media to open",
            ),
        }
    }
}

/// What a session opens.
#[derive(Debug, PartialEq, Eq)]
pub enum LaunchTarget {
    Directory { directory: MediaPath, initial_file: Option<MediaPath> },
    SelectedFiles { directory: MediaPath, files: Vec<MediaPath> },
}

impl Clone for LaunchTarget {
    fn clone(&self) -> (copy: Self)
        ensures
            copy@ == self@,
    {
        match self {
            LaunchTarget::Directory { directory, initial_file } => LaunchTarget::Directory {
                directory: directory.clone(),
                initial_file: match initial_file {
                    Some(file) => Some(file.clone()),
                    None => None,
                },
            },
            LaunchTarget::SelectedFiles { directory, files } => LaunchTarget::SelectedFiles {
                directory: directory.clone(),
                files: paths_copy(files),
            },
        }
    }
}

/// The contents of a [`LaunchTarget`].
pub enum LaunchView {
    Directory { directory: PathNames, initial_file: Option<PathNames> },
    SelectedFiles { directory: PathNames, files: Seq<PathNames> },
}

impl View for LaunchTarget {
    type V = LaunchView;

    open spec fn view(&self) -> LaunchView {
        match self {
            LaunchTarget::Directory { directory, initial_file } => LaunchView::Directory {
                directory: directory@,
                initial_file: path_of(*initial_file),
            },
            LaunchTarget::SelectedFiles { directory, files } => LaunchView::SelectedFiles {
                directory: directory@,
                files: paths_of(files@),
            },
        }
    }
}

impl LaunchView {
    /// The directory of the session.
    pub open spec fn root(self) -> PathNames {
        match self {
            LaunchView::Directory { directory, .. } => directory,
            LaunchView::SelectedFiles { directory, .. } => directory,
        }
    }

    /// The file that the session starts on.
    pub open spec fn start(self) -> Option<PathNames> {
        match self {
            LaunchView::Directory { initial_file, .. } => initial_file,
            LaunchView::SelectedFiles { .. } => None,
        }
    }

    /// The path that a session without media names.
    pub open spec fn named(self) -> PathNames {
        match self {
            LaunchView::Directory { directory, initial_file } => match initial_file {
                Some(file) => file,
                None => directory,
            },
            LaunchView::SelectedFiles { directory, files } => if files.len() > 0 {
                files.first()
            } else {
                directory
            },
        }
    }

    /// The view of the session: a file that was asked for opens in the preview,
    /// all else in the grid.
    pub open spec fn view_mode(self) -> ViewMode {
        if self.start() is Some {
            ViewMode::Preview
        } else {
            ViewMode::Grid
        }
    }
}

impl LaunchTarget {
    /// The directory of the session.
    pub fn directory(&self) -> (directory: &MediaPath)
        ensures
            directory@ == self@.root(),
    {
        match self {
            LaunchTarget::Directory { directory, .. } => directory,
            LaunchTarget::SelectedFiles { directory, .. } => directory,
        }
    }

    /// The file that the session starts on.
    pub fn initial_file(&self) -> (file: Option<&MediaPath>)
        ensures
            match file {
                Some(file) => self@.start() == Some(file@),
                None => self@.start() is None,
            },
    {
        match self {
            LaunchTarget::Directory { initial_file, .. } => match initial_file {
                Some(file) => Some(file),
                None => None,
            },
            LaunchTarget::SelectedFiles { .. } => None,
        }
    }

    /// The path that a session without media names.
    pub fn empty_media_target(&self) -> (target: MediaPath)
        ensures
            target@ == self@.named(),
    {
        match self {
            LaunchTarget::Directory { directory, initial_file } => match initial_file {
                Some(file) => file.clone(),
                None => directory.clone(),
            },
            LaunchTarget::SelectedFiles { directory, files } => if files.len() > 0 {
                files[0].clone()
            } else {
                directory.clone()
            },
        }
    }
}

/// Why a path cannot be one of several files to open.
pub open spec fn file_error(fact: FactView) -> Option<LaunchErrorView> {
    if fact.is_symlink {
        Some(LaunchErrorView::Symlink(fact.text))
    } else {
        match fact.resolved {
            Err(error) => Some(LaunchErrorView::Unresolved(fact.text, error)),
            Ok((_, text, kind)) => match kind {
                PathKind::Directory => Some(LaunchErrorView::DirectoryAmongFiles(text)),
                PathKind::Other => Some(LaunchErrorView::NotAFile(text)),
                PathKind::File => None,
            },
        }
    }
}

/// The path that was resolved.
pub open spec fn resolved_path(fact: FactView) -> PathNames {
    match fact.resolved {
        Ok((path, _, _)) => path,
        Err(_) => Seq::empty(),
    }
}

/// The files among the first `count` paths, each once, in the order given; or why
/// the first of them that is no file cannot be opened.
pub open spec fn files_among(facts: Seq<FactView>, count: nat) -> Result<
    Seq<PathNames>,
    LaunchErrorView,
>
    decreases count,
{
    if count == 0 {
        Ok(Seq::empty())
    } else {
        match files_among(facts, (count - 1) as nat) {
            Err(error) => Err(error),
            Ok(front) => match file_error(facts[count - 1]) {
                Some(error) => Err(error),
                None => Ok(inserted_into(front, resolved_path(facts[count - 1]))),
            },
        }
    }
}

/// What a session with several paths opens.
pub open spec fn selected_launch(facts: Seq<FactView>) -> Result<LaunchView, LaunchErrorView> {
    match files_among(facts, facts.len()) {
        Err(error) => Err(error),
        Ok(files) => match parent_of(files.first()) {
            Some(directory) => Ok(LaunchView::SelectedFiles { directory, files }),
            None => Err(LaunchErrorView::NoParent),
        },
    }
}

/// What a session with one path opens: a directory, or a file in its directory.
pub open spec fn single_launch(fact: FactView) -> Result<LaunchView, LaunchErrorView> {
    match fact.resolved {
        Err(error) => Err(LaunchErrorView::Unresolved(fact.text, error)),
        Ok((path, text, kind)) => match kind {
            PathKind::Directory => Ok(
                LaunchView::Directory { directory: path, initial_file: None },
            ),
            PathKind::File => if fact.is_symlink {
                Err(LaunchErrorView::Symlink(fact.text))
            } else {
                match parent_of(path) {
                    Some(directory) => Ok(
                        LaunchView::Directory { directory, initial_file: Some(path) },
                    ),
                    None => Err(LaunchErrorView::NoParent),
                }
            },
            PathKind::Other => Err(LaunchErrorView::NotFileOrDirectory(text)),
        },
    }
}

/// What a session opens: several paths as a set of files; else one path, the
/// directory option, or the current directory.
pub open spec fn launch_of(
    paths: Seq<FactView>,
    directory: Option<FactView>,
    current: Option<FactView>,
) -> Result<LaunchView, LaunchErrorView> {
    if paths.len() > 1 {
        selected_launch(paths)
    } else if paths.len() == 1 {
        single_launch(paths[0])
    } else {
        match directory {
            Some(fact) => single_launch(fact),
            None => match current {
                Some(fact) => single_launch(fact),
                None => Err(LaunchErrorView::NoCurrentDirectory),
            },
        }
    }
}

/// The contents of the outcome of a launch.
pub open spec fn outcome_of(outcome: Result<LaunchTarget, LaunchError>) -> Result<
    LaunchView,
    LaunchErrorView,
> {
    match outcome {
        Ok(target) => Ok(target@),
        Err(error) => Err(error@),
    }
}

/// The contents of an optional fact.
pub open spec fn fact_of(fact: Option<&PathFact>) -> Option<FactView> {
    match fact {
        Some(fact) => Some(fact@),
        None => None,
    }
}

/// Checks that a path is one of several files to open, and returns it resolved.
fn check_file(fact: &PathFact) -> (file: Result<MediaPath, LaunchError>)
    ensures
        match file {
            Ok(path) => file_error(fact@) is None && path@ == resolved_path(fact@),
            Err(error) => file_error(fact@) == Some(error@),
        },
{
    if fact.is_symlink {
        return Err(LaunchError::Symlink(fact.text.clone()));
    }
    match &fact.resolved {
        Err(error) => Err(LaunchError::Unresolved(fact.text.clone(), error.clone())),
        Ok(resolved) => match resolved.kind {
            PathKind::Directory => Err(
                LaunchError::DirectoryAmongFiles(resolved.text.clone()),
            ),
            PathKind::Other => Err(LaunchError::NotAFile(resolved.text.clone())),
            PathKind::File => Ok(resolved.path.clone()),
        },
    }
}

proof fn lemma_files_fail(facts: Seq<FactView>, count: nat, total: nat)
    requires
        count <= total,
        files_among(facts, count) is Err,
    ensures
        files_among(facts, total) == files_among(facts, count),
    decreases total,
{
    if count < total {
        lemma_files_fail(facts, count, (total - 1) as nat);
    }
}

proof fn lemma_files_nonempty(facts: Seq<FactView>, count: nat)
    requires
        count > 0,
        files_among(facts, count) is Ok,
    ensures
        files_among(facts, count)->Ok_0.len() > 0,
    decreases count,
{
    if count > 1 {
        lemma_files_nonempty(facts, (count - 1) as nat);
    }
}

/// What a session with several paths opens.
fn resolve_selected_files(paths: &Vec<PathFact>) -> (outcome: Result<LaunchTarget, LaunchError>)
    requires
        paths@.len() > 0,
    ensures
        outcome_of(outcome) == selected_launch(facts_of(paths@)),
{
    let ghost facts = facts_of(paths@);
    let mut seen = PathSet::new();
    let mut index: usize = 0;
    while index < paths.len()
        invariant
            facts == facts_of(paths@),
            index <= facts.len(),
            files_among(facts, index as nat) == Ok::<Seq<PathNames>, LaunchErrorView>(seen@),
        decreases facts.len() - index,
    {
        assert(facts[index as int] == paths@[index as int]@);
        match check_file(&paths[index]) {
            Ok(path) => {
                seen.insert(&path);
            },
            Err(error) => {
                proof {
                    lemma_files_fail(facts, (index + 1) as nat, facts.len());
                }
                return Err(error);
            },
        }
        index += 1;
    }
    proof {
        lemma_files_nonempty(facts, facts.len());
    }
    let files = seen.to_paths();
    assert(files@[0]@ == seen@[0]);
    match files[0].parent() {
        Some(directory) => Ok(LaunchTarget::SelectedFiles { directory, files }),
        None => Err(LaunchError::NoParent),
    }
}

/// What a session with one path opens.
fn resolve_input(fact: &PathFact) -> (outcome: Result<LaunchTarget, LaunchError>)
    ensures
        outcome_of(outcome) == single_launch(fact@),
{
    match &fact.resolved {
        Err(error) => Err(LaunchError::Unresolved(fact.text.clone(), error.clone())),
        Ok(resolved) => match resolved.kind {
            PathKind::Directory => Ok(
                LaunchTarget::Directory { directory: resolved.path.clone(), initial_file: None },
            ),
            PathKind::File => {
                if fact.is_symlink {
                    return Err(LaunchError::Symlink(fact.text.clone()));
                }
                match resolved.path.parent() {
                    Some(directory) => Ok(
                        LaunchTarget::Directory {
                            directory,
                            initial_file: Some(resolved.path.clone()),
                        },
                    ),
                    None => Err(LaunchError::NoParent),
                }
            },
            PathKind::Other => Err(LaunchError::NotFileOrDirectory(resolved.text.clone())),
        },
    }
}

/// What a session opens, by what the file system says of its paths.
pub fn resolve_launch(
    paths: &Vec<PathFact>,
    directory: Option<&PathFact>,
    current: Option<&PathFact>,
) -> (outcome: Result<LaunchTarget, LaunchError>)
    ensures
        outcome_of(outcome) == launch_of(
            facts_of(paths@),
            fact_of(directory),
            fact_of(current),
        ),
{
    if paths.len() > 1 {
        return resolve_selected_files(paths);
    }
    if paths.len() == 1 {
        assert(facts_of(paths@)[0] == paths@[0]@);
        return resolve_input(&paths[0]);
    }
    match directory {
        Some(fact) => resolve_input(fact),
        None => match current {
            Some(fact) => resolve_input(fact),
            None => Err(LaunchError::NoCurrentDirectory),
        },
    }
}

/// The view that a session starts in.
pub fn initial_view_mode_for_launch(launch: &LaunchTarget) -> (mode: ViewMode)
    ensures
        mode == launch@.view_mode(),
{
    initial_view_mode(launch.initial_file())
}

/// The contents of the files that a scan looks at.
pub enum ScopeView {
    Directory { root: PathNames, recursive: bool, include_hidden: bool, extensions: Seq<Seq<char>> },
    SelectedFiles { files: Seq<PathNames>, extensions: Seq<Seq<char>> },
}

/// The contents of a scope.
pub open spec fn scope_of(scope: MediaRefreshScope) -> ScopeView {
    match scope {
        MediaRefreshScope::Directory(options) => ScopeView::Directory {
            root: options.root@,
            recursive: options.recursive,
            include_hidden: options.include_hidden,
            extensions: texts_of(options.extensions@),
        },
        MediaRefreshScope::SelectedFiles { files, extensions } => ScopeView::SelectedFiles {
            files: paths_of(files@),
            extensions: texts_of(extensions@),
        },
    }
}

/// The files that the first scan of a session looks at.
pub open spec fn launch_scope(
    launch: LaunchView,
    recursive: bool,
    include_hidden: bool,
    extensions: Seq<Seq<char>>,
) -> ScopeView {
    match launch {
        LaunchView::Directory { directory, .. } => ScopeView::Directory {
            root: directory,
            recursive,
            include_hidden,
            extensions,
        },
        LaunchView::SelectedFiles { files, .. } => ScopeView::SelectedFiles { files, extensions },
    }
}

/// The files that the first scan of a session looks at.
pub fn scan_launch_scope(
    launch: &LaunchTarget,
    recursive: bool,
    include_hidden: bool,
    extensions: &Vec<String>,
) -> (scope: MediaRefreshScope)
    ensures
        scope_of(scope) == launch_scope(
            launch@,
            recursive,
            include_hidden,
            texts_of(extensions@),
        ),
{
    match launch {
        LaunchTarget::Directory { directory, .. } => MediaRefreshScope::Directory(
            ScanOptions {
                root: directory.clone(),
                recursive,
                include_hidden,
                extensions: texts_copy(extensions),
            },
        ),
        LaunchTarget::SelectedFiles { files, .. } => MediaRefreshScope::SelectedFiles {
            files: paths_copy(files),
            extensions: texts_copy(extensions),
        },
    }
}

/// The files that a later scan of a session looks at: those selected explicitly
/// where there are such, else the directory.
pub open spec fn state_scope(state: StateView) -> ScopeView {
    match state.selected_files {
        Some(files) => ScopeView::SelectedFiles { files, extensions: state.extensions },
        None => ScopeView::Directory {
            root: state.directory,
            recursive: state.recursive,
            include_hidden: state.include_hidden,
            extensions: state.extensions,
        },
    }
}

/// The files that a later scan of a session looks at.
pub fn scan_state_scope(state: &AppState) -> (scope: MediaRefreshScope)
    ensures
        scope_of(scope) == state_scope(state@),
{
    match &state.selected_files {
        Some(files) => MediaRefreshScope::SelectedFiles {
            files: files.to_paths(),
            extensions: texts_copy(&state.extensions),
        },
        None => MediaRefreshScope::Directory(
            ScanOptions {
                root: state.directory.clone(),
                recursive: state.recursive,
                include_hidden: state.include_hidden,
                extensions: texts_copy(&state.extensions),
            },
        ),
    }
}

/// The options that a session starts with.
#[derive(Debug)]
pub struct SessionOptions {
    pub recursive: bool,
    pub include_hidden: bool,
    pub media_mode: MediaMode,
    pub extensions: Vec<String>,
    pub sort_mode: SortMode,
}

/// The state of a session that starts with a sorted list of entries: in the view
/// of the launch, on the file that was asked for.
pub open spec fn started(
    launch: LaunchView,
    options: SessionOptions,
    sorted: Seq<EntryView>,
) -> StateView {
    StateView {
        directory: launch.root(),
        selected_files: match launch {
            LaunchView::SelectedFiles { files, .. } => Some(all_inserted(Seq::empty(), files)),
            LaunchView::Directory { .. } => None,
        },
        recursive: options.recursive,
        include_hidden: options.include_hidden,
        media_mode: options.media_mode,
        extensions: texts_of(options.extensions@),
        entries: sorted,
        current_index: match launch.start() {
            Some(file) => match entry_position(sorted, file) {
                Some(index) => index as usize,
                None => 0,
            },
            None => 0,
        },
        mode: launch.view_mode(),
        sort_mode: options.sort_mode,
        zoom_mode: ZoomMode::Fit,
        delete_queue: Seq::empty(),
        show_info_overlay: false,
        show_help_overlay: false,
        fullscreen_ui: false,
        grid_page: 0,
        status_message: None,
        confirm_delete: false,
        thumbnail_generation: 0,
        last_grid_page_size: 1,
        last_preview_size: None,
        last_grid_cell_size: None,
        eager_preview_prefetch: None,
    }
}

/// Whether a file that was asked for is missing from the entries of the scan.
pub open spec fn start_missing(launch: LaunchView, entries: Seq<EntryView>) -> bool {
    match launch.start() {
        Some(file) => !lists_path(entries, file),
        None => false,
    }
}

/// The state that a session starts in, with the entries of its first scan; fails
/// where the file that was asked for, which reads `text`, is not among them.
/// Reports also whether that file is a video, to be played at once.
pub fn start_session(
    launch: &LaunchTarget,
    options: SessionOptions,
    entries: Vec<MediaEntry>,
    locale: Option<&str>,
    text: &str,
) -> (session: Result<(AppState, bool), LaunchError>)
    ensures
        match session {
            Ok((state, autoplay)) => {
                &&& !start_missing(launch@, entries_of(entries@))
                &&& exists|sorted: Seq<EntryView>| #[trigger]
                    sorted_entries(
                        entries_of(entries@),
                        sorted,
                        options.sort_mode,
                        str_of(locale),
                    ) && state@ == started(launch@, options, sorted)
                &&& autoplay == (launch@.start() is Some && state@.current_path()
                    == launch@.start() && state@.current_is_video())
            },
            Err(error) => start_missing(launch@, entries_of(entries@)) && error@
                == LaunchErrorView::Excluded(text@),
        },
{
    match launch.initial_file() {
        Some(file) => {
            if find_entry(&entries, file).is_none() {
                return Err(LaunchError::Excluded(text.to_owned()));
            }
        },
        None => {},
    }
    let ghost input = entries_of(entries@);
    let ghost given = options;
    let mut entries = entries;
    sort_entries(&mut entries, options.sort_mode, locale);
    let ghost sorted = entries_of(entries@);
    assert(sorted_entries(input, sorted, given.sort_mode, str_of(locale)));
    let index: usize = match launch.initial_file() {
        Some(file) => match find_entry(&entries, file) {
            Some(index) => index,
            None => 0,
        },
        None => 0,
    };
    let mut state = AppState::new(
        launch.directory().clone(),
        options.recursive,
        options.include_hidden,
        options.media_mode,
        options.extensions,
        options.sort_mode,
        entries,
    );
    match launch {
        LaunchTarget::SelectedFiles { files, .. } => {
            state.selected_files = Some(PathSet::from_paths(files));
        },
        LaunchTarget::Directory { .. } => {},
    }
    state.mode = initial_view_mode_for_launch(launch);
    state.current_index = index;
    assert(state@ == started(launch@, given, sorted));
    let autoplay = should_autoplay_initial_video(&state, launch.initial_file());
    Ok((state, autoplay))
}

/// Files that are opened together are opened once each, and each of them was given.
pub proof fn law_selected_files_are_distinct(facts: Seq<FactView>, count: nat)
    requires
        count <= facts.len(),
        files_among(facts, count) is Ok,
    ensures
        files_among(facts, count)->Ok_0.no_duplicates(),
        forall|path: PathNames| #[trigger]
            files_among(facts, count)->Ok_0.contains(path) <==> exists|i: int|
                0 <= i < count && resolved_path(#[trigger] facts[i]) == path,
        forall|i: int| 0 <= i < count ==> file_error(#[trigger] facts[i]) is None,
    decreases count,
{
    if count > 0 {
        law_selected_files_are_distinct(facts, (count - 1) as nat);
        let front = files_among(facts, (count - 1) as nat)->Ok_0;
        let all = files_among(facts, count)->Ok_0;
        let last = resolved_path(facts[count - 1]);
        assert forall|path: PathNames| #[trigger] all.contains(path) <==> exists|i: int|
            0 <= i < count && resolved_path(#[trigger] facts[i]) == path by {
            if all.contains(path) {
                let at = all.index_of(path);
                if at < front.len() {
                    assert(front[at] == path);
                    assert(front.contains(path));
                    let i = choose|i: int|
                        0 <= i < count - 1 && resolved_path(#[trigger] facts[i]) == path;
                    assert(resolved_path(facts[i]) == path);
                } else {
                    assert(resolved_path(facts[count - 1]) == path);
                }
            }
            if exists|i: int| 0 <= i < count && resolved_path(#[trigger] facts[i]) == path {
                let i = choose|i: int|
                    0 <= i < count && resolved_path(#[trigger] facts[i]) == path;
                if i < count - 1 {
                    assert(front.contains(path));
                    let at = front.index_of(path);
                    assert(all[at] == path);
                } else if front.contains(last) {
                } else {
                    assert(all[front.len() as int] == path);
                }
            }
        }
    }
}

/// A file given by a symbolic link is never opened.
pub proof fn law_file_links_are_rejected(fact: FactView)
    requires
        fact.is_symlink,
        fact.resolved matches Ok((_, _, kind)) && kind == PathKind::File,
    ensures
        single_launch(fact) is Err,
        file_error(fact) is Some,
{
}

/// Whether a path was resolved to a directory, or to a file that is no symbolic link.
pub open spec fn resolves_to(fact: FactView, path: PathNames, kind: PathKind) -> bool {
    fact.resolved matches Ok((resolved, _, found)) && resolved == path && found == kind
}

/// One directory opens as it is; one file opens its directory, on that file; a link to a
/// file, what is neither, and what cannot be resolved do not open.
pub proof fn law_one_path_opens(
    fact: FactView,
    directory: Option<FactView>,
    current: Option<FactView>,
    path: PathNames,
    parent: PathNames,
)
    ensures
        ({
            let outcome = launch_of(seq![fact], directory, current);
            &&& resolves_to(fact, path, PathKind::Directory) ==> outcome == Ok::<
                LaunchView,
                LaunchErrorView,
            >(LaunchView::Directory { directory: path, initial_file: None })
            &&& resolves_to(fact, path, PathKind::File) && !fact.is_symlink && path
                == parent.push(path.last()) && path.len() > 0 && path.last() != seq![47u8]
                ==> outcome == Ok::<LaunchView, LaunchErrorView>(
                LaunchView::Directory { directory: parent, initial_file: Some(path) },
            )
            &&& resolves_to(fact, path, PathKind::File) && fact.is_symlink ==> outcome == Err::<
                LaunchView,
                LaunchErrorView,
            >(LaunchErrorView::Symlink(fact.text))
            &&& resolves_to(fact, path, PathKind::Other) ==> outcome is Err
            &&& fact.resolved matches Err(error) ==> outcome == Err::<
                LaunchView,
                LaunchErrorView,
            >(LaunchErrorView::Unresolved(fact.text, error))
        }),
{
    if path.len() > 0 {
        assert(parent.push(path.last()).drop_last() =~= parent);
    }
}

/// Without paths the directory option opens, else the current directory.
pub proof fn law_no_path_opens_a_directory(
    directory: Option<FactView>,
    current: Option<FactView>,
    path: PathNames,
)
    ensures
        directory matches Some(fact) ==> (resolves_to(fact, path, PathKind::Directory)
            ==> launch_of(Seq::empty(), directory, current) == Ok::<LaunchView, LaunchErrorView>(
            LaunchView::Directory { directory: path, initial_file: None },
        )),
        directory is None ==> (current matches Some(fact) ==> (resolves_to(
            fact,
            path,
            PathKind::Directory,
        ) ==> launch_of(Seq::empty(), directory, current) == Ok::<LaunchView, LaunchErrorView>(
            LaunchView::Directory { directory: path, initial_file: None },
        ))),
        directory is None && current is None ==> launch_of(Seq::empty(), directory, current)
            == Err::<LaunchView, LaunchErrorView>(LaunchErrorView::NoCurrentDirectory),
{
}

/// Several paths open only where all of them are files and no links; then each file is
/// selected once, the first one given first, in the directory of the first.
pub proof fn law_several_paths_open_as_files(
    facts: Seq<FactView>,
    directory: Option<FactView>,
    current: Option<FactView>,
    i: int,
)
    requires
        facts.len() >= 2,
        0 <= i < facts.len(),
    ensures
        ({
            let outcome = launch_of(facts, directory, current);
            &&& outcome is Ok ==> !facts[i].is_symlink && (facts[i].resolved matches Ok(
                (path, _, kind),
            ) && kind == PathKind::File && (outcome->Ok_0 matches LaunchView::SelectedFiles {
                files,
                ..
            } && files.contains(path) && files.no_duplicates() && files.len() <= facts.len()))
            &&& outcome is Ok ==> (facts[0].resolved matches Ok((first, _, _)) && (
            outcome->Ok_0 matches LaunchView::SelectedFiles { directory, files } && files[0]
                == first && directory.push(first.last()) == first))
            &&& facts[i].is_symlink ==> outcome is Err
            &&& facts[i].resolved matches Ok((_, _, kind)) ==> (kind != PathKind::File
                ==> outcome is Err)
        }),
{
    let outcome = launch_of(facts, directory, current);
    if files_among(facts, facts.len()) is Ok {
        law_selected_files_are_distinct(facts, facts.len());
        lemma_first_file(facts, facts.len());
        assert(file_error(facts[i]) is None);
        assert(file_error(facts[0]) is None);
        let files = files_among(facts, facts.len())->Ok_0;
        assert(resolved_path(facts[i]) == resolved_path(facts[i]));
        assert(files.contains(resolved_path(facts[i])));
        let first = resolved_path(facts[0]);
        if outcome is Ok {
            assert(first.drop_last().push(first.last()) =~= first);
        }
    } else {
        assert(outcome is Err);
    }
}

proof fn lemma_first_file(facts: Seq<FactView>, count: nat)
    requires
        1 <= count <= facts.len(),
        files_among(facts, count) is Ok,
    ensures
        1 <= files_among(facts, count)->Ok_0.len() <= count,
        files_among(facts, count)->Ok_0[0] == resolved_path(facts[0]),
    decreases count,
{
    if count > 1 {
        lemma_first_file(facts, (count - 1) as nat);
    } else {
        assert(files_among(facts, 0) == Ok::<Seq<PathNames>, LaunchErrorView>(Seq::empty()));
    }
}

/// A session that was opened on a file starts with it selected in the preview, and any
/// other one in the grid on its first file; nothing is marked or asked, and the options
/// are those that were given.
pub proof fn law_sessions_start_where_asked(
    launch: LaunchView,
    options: SessionOptions,
    sorted: Seq<EntryView>,
)
    requires
        sorted.len() <= usize::MAX,
    ensures
        ({
            let state = started(launch, options, sorted);
            &&& state.entries == sorted
            &&& state.delete_queue.len() == 0 && !state.confirm_delete
            &&& state.recursive == options.recursive
            &&& state.include_hidden == options.include_hidden
            &&& state.sort_mode == options.sort_mode
            &&& state.media_mode == options.media_mode
            &&& state.zoom_mode == ZoomMode::Fit
            &&& state.extensions == texts_of(options.extensions@)
            &&& launch matches LaunchView::Directory { directory, initial_file } ==> {
                &&& state.directory == directory
                &&& state.selected_files is None
                &&& initial_file matches Some(file) ==> state.mode == ViewMode::Preview && (
                lists_path(sorted, file) ==> state.current_path() == Some(file))
                &&& initial_file is None ==> state.mode == ViewMode::Grid && state.current_index
                    == 0
            }
            &&& launch matches LaunchView::SelectedFiles { directory, files } ==> {
                &&& state.directory == directory
                &&& state.mode == ViewMode::Grid && state.current_index == 0
                &&& files.no_duplicates() ==> state.selected_files == Some(files)
            }
        }),
{
    match launch {
        LaunchView::Directory { initial_file, .. } => {
            if let Some(file) = initial_file {
                if lists_path(sorted, file) {
                    crate::state::lemma_position_exists(sorted, file);
                }
            }
        },
        LaunchView::SelectedFiles { files, .. } => {
            if files.no_duplicates() {
                lemma_inserted_once(files);
            }
        },
    }
}

proof fn lemma_inserted_once(files: Seq<PathNames>)
    requires
        files.no_duplicates(),
    ensures
        all_inserted(Seq::empty(), files) == files,
    decreases files.len(),
{
    if files.len() == 0 {
        assert(all_inserted(Seq::empty(), files) =~= files);
    } else {
        let front = files.drop_last();
        assert(front.no_duplicates());
        lemma_inserted_once(front);
        if front.contains(files.last()) {
            let k = front.index_of(files.last());
            assert(files[k] == files[files.len() - 1]);
        }
        assert(front.push(files.last()) =~= files);
    }
}

/// A scan of a session that opened a directory looks at that directory as far down, and at
/// hidden files as far, as the session does; later scans follow what was switched since.
/// One of explicitly selected files looks at those and no others.
pub proof fn law_scans_look_where_the_session_does(
    launch: LaunchView,
    options: SessionOptions,
    sorted: Seq<EntryView>,
    state: StateView,
)
    requires
        state.directory == started(launch, options, sorted).directory,
        state.selected_files == started(launch, options, sorted).selected_files,
    ensures
        launch matches LaunchView::Directory { directory, .. } ==> {
            &&& state_scope(state) matches ScopeView::Directory {
                root,
                recursive,
                include_hidden,
                extensions,
            } && root == directory && recursive == state.recursive && include_hidden
                == state.include_hidden && extensions == state.extensions
            &&& launch_scope(
                launch,
                state.recursive,
                state.include_hidden,
                state.extensions,
            ) == state_scope(state)
        },
        launch matches LaunchView::SelectedFiles { files: given, .. } ==> {
            &&& state_scope(state) matches ScopeView::SelectedFiles { files, extensions }
                && extensions == state.extensions && forall|file: PathNames| #[trigger]
                files.contains(file) <==> given.contains(file)
            &&& launch_scope(
                launch,
                state.recursive,
                state.include_hidden,
                state.extensions,
            ) matches ScopeView::SelectedFiles { files, extensions } && files == given
                && extensions == state.extensions
        },
{
    if let LaunchView::SelectedFiles { files, .. } = launch {
        assert forall|file: PathNames| #[trigger]
            all_inserted(Seq::empty(), files).contains(file) <==> files.contains(file) by {
            lemma_inserted_are_those(Seq::empty(), files, file);
        }
    }
}

proof fn lemma_inserted_are_those(
    paths: Seq<PathNames>,
    more: Seq<PathNames>,
    file: PathNames,
)
    ensures
        all_inserted(paths, more).contains(file) <==> paths.contains(file) || more.contains(file),
    decreases more.len(),
{
    if more.len() > 0 {
        let rest = more.drop_last();
        lemma_inserted_are_those(paths, rest, file);
        assert(more =~= rest.push(more.last()));
        if more.contains(file) {
            let i = more.index_of(file);
            if i < rest.len() {
                assert(rest[i] == file);
            }
        }
        if rest.contains(file) {
            assert(more[rest.index_of(file)] == file);
        }
        let front = all_inserted(paths, rest);
        let grown = front.push(more.last());
        if front.contains(file) {
            assert(grown[front.index_of(file)] == file);
        }
        if grown.contains(file) {
            let i = grown.index_of(file);
            if i < front.len() {
                assert(front[i] == file);
            }
        }
        assert(grown[front.len() as int] == more.last());
    }
}

} // verus!
