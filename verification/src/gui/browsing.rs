//! The file browser beside the preview or the grid: its keys, its listings, and what the
//! other pane shows of its selection.
//!
//! Directories are listed and scanned outside; what that gave is taken here.

use vstd::prelude::*;

use crate::assoc::{map_get, Key, KeyMap};
use crate::browser::{
    browser_first_at, browser_lists, browser_move_index, browser_position, browser_target, browser_target_for, listed_directory,
    listed_directory_for_target, listing_of, preferred_browser_index, preferred_index,
    BrowserEntry, BrowserEntryKind, BrowserEntryView, BrowserPaneFocus, BrowserState, BrowserView,
};
use crate::cli::CliView;
use crate::numbers::{clamped, most};
use crate::path::{parent_of, path_of, MediaPath, PathNames};
use crate::sorter::{
    name_sort_after, next_name_sort, next_time_sort, sorted_entries, time_sort_after,
};
use crate::state::{
    entries_of, entry_position, find_entry, AppState, EntryView, MediaEntry, SortMode, StateView,
    ViewMode,
};
use crate::text::text_of;

use super::launch::{LaunchTarget, LaunchView};
use super::window::{GuiApp, GuiView, Keys};

verus! {

/// The browser pane of a window.
#[derive(Debug)]
pub struct BrowserPane {
    /// The browser, where it is shown.
    pub browser: Option<BrowserState>,
    pub sort_mode: SortMode,
    /// The number of rows that are shown.
    pub rows: usize,
    /// Why the last listing or scan failed.
    pub error: Option<String>,
}

/// The contents of a [`BrowserPane`].
pub struct PaneView {
    pub browser: Option<BrowserView>,
    pub sort_mode: SortMode,
    pub rows: usize,
    pub error: Option<Seq<char>>,
}

/// The contents of an optional browser.
pub open spec fn browser_of(browser: Option<BrowserState>) -> Option<BrowserView> {
    match browser {
        Some(browser) => Some(browser@),
        None => None,
    }
}

impl View for BrowserPane {
    type V = PaneView;

    open spec fn view(&self) -> PaneView {
        PaneView {
            browser: browser_of(self.browser),
            sort_mode: self.sort_mode,
            rows: self.rows,
            error: text_of(self.error),
        }
    }
}

/// What keys ask of the browser.
#[derive(Debug, Clone, Copy, PartialEq, Eq, Structural)]
pub enum BrowserAction {
    /// Show or hide it.
    Toggle,
    /// Hand the keys to a pane.
    Focus(BrowserPaneFocus),
    /// Select the next entry.
    Down,
    /// Select the previous entry.
    Up,
    /// Move the selection half a page down.
    HalfPageDown,
    /// Move the selection half a page up.
    HalfPageUp,
    /// List the selected folder.
    Enter,
    /// List the folder that holds the listed one.
    Parent,
    /// List the selected folder, or hand the keys to the preview of a file.
    Open,
    /// Sort by time, newest or oldest first.
    TimeSort,
    /// Sort by name, ascending or descending.
    NameSort,
    /// List the directory again.
    Relist,
}

/// What is to be done outside after an action.
#[derive(Debug)]
pub enum BrowserEffect {
    /// List a directory, then hand the entries to [`BrowserPane::take_listing`].
    List { directory: MediaPath, preferred: Option<MediaPath> },
    /// Show what is selected, as [`pane_target`] says.
    Show,
}

/// The contents of a [`BrowserEffect`].
pub enum EffectView {
    List { directory: PathNames, preferred: Option<PathNames> },
    Show,
}

/// The contents of an optional effect.
pub open spec fn effect_of(effect: Option<BrowserEffect>) -> Option<EffectView> {
    match effect {
        Some(BrowserEffect::List { directory, preferred }) => Some(
            EffectView::List { directory: directory@, preferred: path_of(preferred) },
        ),
        Some(BrowserEffect::Show) => Some(EffectView::Show),
        None => None,
    }
}

/// What the keys that a focused browser takes ask for; with `ctrl`, only the steps of half
/// a page.
pub open spec fn focused_action(keys: Keys) -> Option<BrowserAction> {
    if keys.ctrl {
        if keys.d {
            Some(BrowserAction::HalfPageDown)
        } else if keys.u {
            Some(BrowserAction::HalfPageUp)
        } else {
            None
        }
    } else if keys.j || keys.down {
        Some(BrowserAction::Down)
    } else if keys.k || keys.up {
        Some(BrowserAction::Up)
    } else if keys.l || keys.right {
        Some(BrowserAction::Enter)
    } else if keys.h || keys.left {
        Some(BrowserAction::Parent)
    } else if keys.enter {
        Some(BrowserAction::Open)
    } else if keys.t {
        Some(BrowserAction::TimeSort)
    } else if keys.n {
        Some(BrowserAction::NameSort)
    } else if keys.period {
        Some(BrowserAction::Relist)
    } else {
        None
    }
}

/// What keys ask of the browser, which has the focus, has it not, or is not shown.
pub open spec fn action_for(keys: Keys, focus: Option<BrowserPaneFocus>) -> Option<BrowserAction> {
    if keys.e && !keys.ctrl {
        Some(BrowserAction::Toggle)
    } else {
        match focus {
            None => None,
            Some(focus) => if keys.ctrl && keys.h {
                Some(BrowserAction::Focus(BrowserPaneFocus::Browser))
            } else if keys.ctrl && keys.l {
                Some(BrowserAction::Focus(BrowserPaneFocus::Media))
            } else if focus == BrowserPaneFocus::Browser {
                focused_action(keys)
            } else if keys.period && !keys.ctrl {
                Some(BrowserAction::Relist)
            } else {
                None
            },
        }
    }
}

/// The keys that are left for the window: a focused browser takes those that move and
/// sort, and a shown one those that change the focus.
pub open spec fn keys_left(keys: Keys, focus: Option<BrowserPaneFocus>) -> Keys {
    match focus {
        None => keys,
        Some(BrowserPaneFocus::Media) => Keys {
            h: keys.h && !keys.ctrl,
            l: keys.l && !keys.ctrl,
            ..keys
        },
        Some(BrowserPaneFocus::Browser) => Keys {
            h: false,
            j: false,
            k: false,
            l: false,
            n: false,
            t: false,
            left: false,
            right: false,
            up: false,
            down: false,
            enter: false,
            d: keys.d && !keys.ctrl,
            u: keys.u && !keys.ctrl,
            ..keys
        },
    }
}

impl BrowserView {
    /// The browser after the selection moved by a number of entries.
    pub open spec fn moved(self, step: int) -> BrowserView {
        (BrowserView {
            selected_index: if self.entries.len() == 0 {
                0
            } else {
                clamped(self.selected_index + step, 0, self.entries.len() - 1) as usize
            },
            scroll_to_selection: true,
            ..self
        }).remembering()
    }

    /// What the selected entry is.
    pub open spec fn selected_kind(self) -> Option<BrowserEntryKind> {
        if self.selected_index < self.entries.len() {
            Some(self.entries[self.selected_index as int].kind)
        } else {
            None
        }
    }

    /// The browser whose directory was read again: the same path stays selected where it
    /// is still listed, else the same place.
    pub open spec fn relisted(self, entries: Seq<BrowserEntryView>) -> BrowserView {
        (BrowserView {
            entries,
            selected_index: preferred_index(
                entries,
                self.selected(),
                self.selected_index as int,
            ) as usize,
            ..self
        }).remembering()
    }

    /// Whether the selection is an entry, where there is one.
    pub open spec fn sound(self) -> bool {
        self.entries.len() <= usize::MAX && (self.entries.len() == 0 || self.selected_index
            < self.entries.len())
    }
}

/// The number of entries of half a page, at least one.
pub open spec fn half_rows(rows: usize) -> int {
    most((rows / 2) as int, 1)
}

/// The number of entries by which an action moves the selection.
pub open spec fn step_of(action: BrowserAction, rows: usize) -> Option<int> {
    match action {
        BrowserAction::Down => Some(1),
        BrowserAction::Up => Some(-1),
        BrowserAction::HalfPageDown => Some(half_rows(rows)),
        BrowserAction::HalfPageUp => Some(-half_rows(rows)),
        _ => None,
    }
}

impl PaneView {
    /// Which pane has the focus, where the browser is shown.
    pub open spec fn focus(self) -> Option<BrowserPaneFocus> {
        match self.browser {
            Some(browser) => Some(browser.focus),
            None => None,
        }
    }

    /// The pane that shows a browser.
    pub open spec fn with_browser(self, browser: Option<BrowserView>) -> PaneView {
        PaneView { browser, ..self }
    }

    /// The pane after an action. A directory that is to be listed is shown once it was.
    pub open spec fn after_action(self, action: BrowserAction) -> PaneView {
        match self.browser {
            None => self,
            Some(browser) => match step_of(action, self.rows) {
                Some(step) => self.with_browser(Some(browser.moved(step))),
                None => match action {
                    BrowserAction::Toggle => self.with_browser(None),
                    BrowserAction::Focus(focus) => self.with_browser(
                        Some(BrowserView { focus, ..browser }),
                    ),
                    BrowserAction::Open => if browser.selected_kind() matches Some(
                        BrowserEntryKind::Media(_),
                    ) {
                        self.with_browser(
                            Some(BrowserView { focus: BrowserPaneFocus::Media, ..browser }),
                        )
                    } else {
                        self
                    },
                    BrowserAction::TimeSort => PaneView {
                        sort_mode: time_sort_after(self.sort_mode),
                        ..self
                    },
                    BrowserAction::NameSort => PaneView {
                        sort_mode: name_sort_after(self.sort_mode),
                        ..self
                    },
                    _ => self,
                },
            },
        }
    }

    /// What is to be done outside after an action.
    pub open spec fn effect_of(self, action: BrowserAction, state: StateView) -> Option<
        EffectView,
    > {
        match self.browser {
            None => if action == BrowserAction::Toggle {
                Some(
                    EffectView::List {
                        directory: listed_directory(browser_target(state)),
                        preferred: Some(browser_target(state)),
                    },
                )
            } else {
                None
            },
            Some(browser) => match step_of(action, self.rows) {
                Some(step) => if browser.moved(step).selected_index != browser.selected_index {
                    Some(EffectView::Show)
                } else {
                    None
                },
                None => match action {
                    BrowserAction::Enter | BrowserAction::Open => if browser.selected_kind()
                        == Some(BrowserEntryKind::Directory) {
                        Some(
                            EffectView::List {
                                directory: browser.selected().unwrap(),
                                preferred: None,
                            },
                        )
                    } else {
                        None
                    },
                    BrowserAction::Parent => match parent_of(browser.listed_directory) {
                        Some(parent) => Some(
                            EffectView::List {
                                directory: parent,
                                preferred: Some(browser.listed_directory),
                            },
                        ),
                        None => None,
                    },
                    BrowserAction::TimeSort
                    | BrowserAction::NameSort
                    | BrowserAction::Relist => Some(
                        EffectView::List {
                            directory: browser.listed_directory,
                            preferred: browser.selected(),
                        },
                    ),
                    _ => None,
                },
            },
        }
    }

    /// The pane after a directory was listed: it keeps the focus and what was selected in
    /// other directories.
    pub open spec fn listing_taken(
        self,
        directory: PathNames,
        preferred: Option<PathNames>,
        entries: Seq<BrowserEntryView>,
    ) -> PaneView {
        let remembered = match self.browser {
            Some(browser) => browser.remembered_selection,
            None => Seq::empty(),
        };
        let focus = match self.browser {
            Some(browser) => browser.focus,
            None => BrowserPaneFocus::Browser,
        };
        PaneView {
            browser: Some(
                BrowserView {
                    focus,
                    ..BrowserView::opened(directory, entries, preferred, remembered)
                },
            ),
            error: None,
            ..self
        }
    }
}

/// What keys ask of the browser.
pub fn browser_action(keys: &Keys, focus: Option<BrowserPaneFocus>) -> (action: Option<
    BrowserAction,
>)
    ensures
        action == action_for(*keys, focus),
{
    if keys.e && !keys.ctrl {
        return Some(BrowserAction::Toggle);
    }
    match focus {
        None => None,
        Some(focus) => if keys.ctrl && keys.h {
            Some(BrowserAction::Focus(BrowserPaneFocus::Browser))
        } else if keys.ctrl && keys.l {
            Some(BrowserAction::Focus(BrowserPaneFocus::Media))
        } else if focus == BrowserPaneFocus::Browser {
            action_with_focus(keys)
        } else if keys.period && !keys.ctrl {
            Some(BrowserAction::Relist)
        } else {
            None
        },
    }
}

fn action_with_focus(keys: &Keys) -> (action: Option<BrowserAction>)
    ensures
        action == focused_action(*keys),
{
    if keys.ctrl {
        return if keys.d {
            Some(BrowserAction::HalfPageDown)
        } else if keys.u {
            Some(BrowserAction::HalfPageUp)
        } else {
            None
        };
    }
    if keys.j || keys.down {
        Some(BrowserAction::Down)
    } else if keys.k || keys.up {
        Some(BrowserAction::Up)
    } else if keys.l || keys.right {
        Some(BrowserAction::Enter)
    } else if keys.h || keys.left {
        Some(BrowserAction::Parent)
    } else if keys.enter {
        Some(BrowserAction::Open)
    } else if keys.t {
        Some(BrowserAction::TimeSort)
    } else if keys.n {
        Some(BrowserAction::NameSort)
    } else if keys.period {
        Some(BrowserAction::Relist)
    } else {
        None
    }
}

/// The keys that are left for the window.
pub fn keys_for_window(keys: &Keys, focus: Option<BrowserPaneFocus>) -> (left: Keys)
    ensures
        left == keys_left(*keys, focus),
{
    match focus {
        None => *keys,
        Some(BrowserPaneFocus::Media) => Keys {
            h: keys.h && !keys.ctrl,
            l: keys.l && !keys.ctrl,
            ..*keys
        },
        Some(BrowserPaneFocus::Browser) => Keys {
            h: false,
            j: false,
            k: false,
            l: false,
            n: false,
            t: false,
            left: false,
            right: false,
            up: false,
            down: false,
            enter: false,
            d: keys.d && !keys.ctrl,
            u: keys.u && !keys.ctrl,
            ..*keys
        },
    }
}

impl BrowserState {
    /// Moves the selection by a number of entries; reports whether another one is selected.
    pub fn move_selection(&mut self, step: isize) -> (moved: bool)
        ensures
            final(self)@ == old(self)@.moved(step as int),
            moved == (old(self)@.moved(step as int).selected_index != old(self)@.selected_index),
    {
        let previous: usize = self.selected_index;
        self.selected_index = browser_move_index(self.selected_index, step, self.entries.len());
        self.scroll_to_selection = true;
        self.remember_current_selection();
        self.selected_index != previous
    }

    /// What the selected entry is.
    pub fn kind_selected(&self) -> (kind: Option<BrowserEntryKind>)
        ensures
            kind == self@.selected_kind(),
    {
        if self.selected_index < self.entries.len() {
            Some(self.entries[self.selected_index].kind)
        } else {
            None
        }
    }

    /// Takes the listing of the directory that was read again.
    pub fn relist(&mut self, entries: Vec<BrowserEntry>)
        ensures
            final(self)@ == old(self)@.relisted(listing_of(entries@)),
    {
        let selected = self.selected_path();
        let wanted = match &selected {
            Some(path) => Some(path),
            None => None,
        };
        self.selected_index = preferred_browser_index(&entries, wanted, self.selected_index);
        self.entries = entries;
        self.remember_current_selection();
    }

    /// What is to be done outside to list a folder that keys ask for.
    fn listing_for(&self, action: BrowserAction) -> (effect: Option<BrowserEffect>)
        requires
            action == BrowserAction::Enter || action == BrowserAction::Open || action
                == BrowserAction::Parent || action == BrowserAction::TimeSort || action
                == BrowserAction::NameSort || action == BrowserAction::Relist,
        ensures
            forall|pane: PaneView, state: StateView|
                pane.browser == Some(self@) ==> effect_of(effect) == #[trigger] pane.effect_of(
                    action,
                    state,
                ),
    {
        match action {
            BrowserAction::Enter | BrowserAction::Open => match self.kind_selected() {
                Some(BrowserEntryKind::Directory) => match self.selected_path() {
                    Some(directory) => Some(BrowserEffect::List { directory, preferred: None }),
                    None => None,
                },
                _ => None,
            },
            BrowserAction::Parent => match self.listed_directory.parent() {
                Some(directory) => Some(
                    BrowserEffect::List {
                        directory,
                        preferred: Some(self.listed_directory.clone()),
                    },
                ),
                None => None,
            },
            _ => Some(
                BrowserEffect::List {
                    directory: self.listed_directory.clone(),
                    preferred: self.selected_path(),
                },
            ),
        }
    }
}

impl BrowserPane {
    /// The pane of a window that does not show the browser.
    pub fn new(sort_mode: SortMode) -> (pane: BrowserPane)
        ensures
            pane@ == (PaneView { browser: None, sort_mode, rows: 0, error: None }),
    {
        BrowserPane { browser: None, sort_mode, rows: 0, error: None }
    }

    /// Which pane has the focus, where the browser is shown.
    pub fn focus(&self) -> (focus: Option<BrowserPaneFocus>)
        ensures
            focus == self@.focus(),
    {
        match &self.browser {
            Some(browser) => Some(browser.focus),
            None => None,
        }
    }

    /// Handles the keys of a frame; returns those that are left for the window, and what
    /// is to be done outside. While a deletion is to be confirmed, the window has them all.
    pub fn handle_keys(&mut self, state: &AppState, keys: &Keys) -> (result: (
        Keys,
        Option<BrowserEffect>,
    ))
        ensures
            state@.confirm_delete ==> final(self)@ == old(self)@ && result.0 == *keys
                && result.1 is None,
            !state@.confirm_delete ==> {
                &&& result.0 == keys_left(*keys, old(self)@.focus())
                &&& match action_for(*keys, old(self)@.focus()) {
                    Some(action) => final(self)@ == old(self)@.after_action(action) && effect_of(
                        result.1,
                    ) == old(self)@.effect_of(action, state@),
                    None => final(self)@ == old(self)@ && result.1 is None,
                }
            },
    {
        if state.confirm_delete {
            return (*keys, None);
        }
        let focus = self.focus();
        let left = keys_for_window(keys, focus);
        let effect = match browser_action(keys, focus) {
            Some(action) => self.perform(action, state),
            None => None,
        };
        (left, effect)
    }

    /// Performs an action; returns what is to be done outside.
    pub fn perform(&mut self, action: BrowserAction, state: &AppState) -> (effect: Option<
        BrowserEffect,
    >)
        ensures
            final(self)@ == old(self)@.after_action(action),
            effect_of(effect) == old(self)@.effect_of(action, state@),
    {
        match &mut self.browser {
            None => {
                if action != BrowserAction::Toggle {
                    return None;
                }
                let target = browser_target_for(state);
                let directory = listed_directory_for_target(&target);
                Some(BrowserEffect::List { directory, preferred: Some(target) })
            },
            Some(browser) => {
                let half: isize = half_page_step(self.rows);
                let step: Option<isize> = match action {
                    BrowserAction::Down => Some(1),
                    BrowserAction::Up => Some(-1),
                    BrowserAction::HalfPageDown => Some(half),
                    BrowserAction::HalfPageUp => Some(-half),
                    _ => None,
                };
                if let Some(step) = step {
                    return if browser.move_selection(step) {
                        Some(BrowserEffect::Show)
                    } else {
                        None
                    };
                }
                match action {
                    BrowserAction::Toggle => {
                        self.browser = None;
                        None
                    },
                    BrowserAction::Focus(focus) => {
                        browser.focus = focus;
                        None
                    },
                    BrowserAction::Open => {
                        let effect = browser.listing_for(action);
                        if let Some(BrowserEntryKind::Media(_)) = browser.kind_selected() {
                            browser.focus = BrowserPaneFocus::Media;
                        }
                        effect
                    },
                    BrowserAction::TimeSort => {
                        self.sort_mode = next_time_sort(self.sort_mode);
                        browser.listing_for(action)
                    },
                    BrowserAction::NameSort => {
                        self.sort_mode = next_name_sort(self.sort_mode);
                        browser.listing_for(action)
                    },
                    _ => browser.listing_for(action),
                }
            },
        }
    }

    /// Takes the listing of a directory, or the reason why there is none; then the pane
    /// stays as it was and shows the reason.
    pub fn take_listing(
        &mut self,
        directory: MediaPath,
        preferred: Option<MediaPath>,
        result: Result<Vec<BrowserEntry>, String>,
    )
        ensures
            final(self)@ == match result {
                Ok(entries) => old(self)@.listing_taken(
                    directory@,
                    path_of(preferred),
                    listing_of(entries@),
                ),
                Err(error) => (PaneView { error: Some(error@), ..old(self)@ }),
            },
    {
        let entries = match result {
            Ok(entries) => entries,
            Err(error) => {
                self.error = Some(error);
                return ;
            },
        };
        let focus = self.focus();
        let mut previous: Option<BrowserState> = None;
        core::mem::swap(&mut self.browser, &mut previous);
        let remembered = match previous {
            Some(browser) => browser.remembered_selection,
            None => KeyMap::new(),
        };
        let mut browser = BrowserState::for_directory(directory, preferred, remembered, entries);
        if let Some(focus) = focus {
            browser.focus = focus;
        }
        self.browser = Some(browser);
        self.error = None;
    }

    /// Takes a refreshed listing, unless another directory is listed by now.
    pub fn take_refresh(&mut self, directory: &MediaPath, entries: Vec<BrowserEntry>)
        ensures
            final(self)@ == match old(self)@.browser {
                Some(browser) => if browser.listed_directory == directory@ {
                    PaneView {
                        browser: Some(browser.relisted(listing_of(entries@))),
                        error: None,
                        ..old(self)@
                    }
                } else {
                    old(self)@
                },
                None => old(self)@,
            },
    {
        if let Some(browser) = &mut self.browser {
            if browser.listed_directory.same(directory) {
                browser.relist(entries);
                self.error = None;
            }
        }
    }
}

fn half_page_step(rows: usize) -> (step: isize)
    ensures
        step == half_rows(rows),
        step >= 1,
{
    let half: usize = rows / 2;
    if half == 0 {
        1
    } else {
        half as isize
    }
}

/// What the other pane shows of the selection.
#[derive(Debug)]
pub enum PaneTarget {
    /// What it shows already.
    Nothing,
    /// A file of the list that it shows, which is not read again.
    File(MediaPath),
    /// A directory to scan, and the file in it that was selected.
    Scan { directory: MediaPath, file: Option<MediaPath> },
}

/// The contents of a [`PaneTarget`].
pub enum TargetView {
    Nothing,
    File(PathNames),
    Scan { directory: PathNames, file: Option<PathNames> },
}

impl View for PaneTarget {
    type V = TargetView;

    open spec fn view(&self) -> TargetView {
        match self {
            PaneTarget::Nothing => TargetView::Nothing,
            PaneTarget::File(path) => TargetView::File(path@),
            PaneTarget::Scan { directory, file } => TargetView::Scan {
                directory: directory@,
                file: path_of(*file),
            },
        }
    }
}

/// Whether a session lists a directory, and no explicitly selected files.
pub open spec fn lists_directory(state: StateView, directory: PathNames) -> bool {
    state.directory == directory && state.selected_files is None
}

/// What the other pane shows of the selection: a folder is scanned, and so is the
/// directory of a media file, unless the session lists it already.
pub open spec fn target_of(state: StateView, browser: BrowserView) -> TargetView {
    match (browser.selected_kind(), browser.selected()) {
        (Some(BrowserEntryKind::Directory), Some(directory)) => TargetView::Scan {
            directory,
            file: None,
        },
        (Some(BrowserEntryKind::Media(_)), Some(file)) => if lists_directory(
            state,
            browser.listed_directory,
        ) && entry_position(state.entries, file) is Some {
            TargetView::File(file)
        } else {
            TargetView::Scan { directory: browser.listed_directory, file: Some(file) }
        },
        _ => TargetView::Nothing,
    }
}

/// What the other pane shows of the selection.
pub fn pane_target(state: &AppState, browser: &BrowserState) -> (target: PaneTarget)
    ensures
        target@ == target_of(state@, browser@),
{
    match (browser.kind_selected(), browser.selected_path()) {
        (Some(BrowserEntryKind::Directory), Some(directory)) => PaneTarget::Scan {
            directory,
            file: None,
        },
        (Some(BrowserEntryKind::Media(_)), Some(file)) => {
            let listed = state.directory.same(&browser.listed_directory)
                && state.selected_files.is_none();
            if listed && find_entry(&state.entries, &file).is_some() {
                PaneTarget::File(file)
            } else {
                PaneTarget::Scan {
                    directory: browser.listed_directory.clone(),
                    file: Some(file),
                }
            }
        },
        _ => PaneTarget::Nothing,
    }
}

impl GuiView {
    /// The window whose session is about a directory.
    #[verifier::opaque]
    pub open spec fn placed_in(self, directory: PathNames, target: Seq<char>) -> GuiView {
        GuiView {
            state: StateView { directory, selected_files: None, ..self.state },
            empty_media_target: target,
            ..self
        }
    }

    /// The window that shows the grid.
    #[verifier::opaque]
    pub open spec fn gridded(self) -> GuiView {
        GuiView { state: StateView { mode: ViewMode::Grid, ..self.state }, ..self }
    }

    /// The window that shows a file of its list in the preview, else the grid.
    pub open spec fn file_shown(self, file: Option<PathNames>) -> GuiView {
        match file {
            Some(path) => match entry_position(self.state.entries, path) {
                Some(index) => self.selected(index).previewing(),
                None => self.gridded(),
            },
            None => self.gridded(),
        }
    }

    /// The window after another directory was scanned.
    pub open spec fn directory_shown(
        self,
        directory: PathNames,
        target: Seq<char>,
        file: Option<PathNames>,
        sorted: Seq<EntryView>,
    ) -> GuiView {
        self.placed_in(directory, target).rescanned(sorted).file_shown(file)
    }
}

impl GuiApp {
    /// Shows a file of the list in the preview, else the grid.
    pub fn show_file(&mut self, file: Option<&MediaPath>)
        ensures
            final(self)@ == old(self)@.file_shown(
                match file {
                    Some(path) => Some(path@),
                    None => None,
                },
            ),
    {
        let position: Option<usize> = match file {
            Some(path) => find_entry(&self.state.entries, path),
            None => None,
        };
        match position {
            Some(index) => {
                self.set_current_index(index);
                self.open_preview();
            },
            None => self.open_grid(),
        }
    }

    /// Shows the grid.
    #[verifier::rlimit(40)]
    fn open_grid(&mut self)
        ensures
            final(self)@ == old(self)@.gridded(),
    {
        proof {
            reveal(GuiView::gridded);
        }
        self.state.mode = ViewMode::Grid;
    }

    /// Makes the session one about a directory, which its messages call `target`.
    #[verifier::rlimit(40)]
    fn place_in(&mut self, directory: MediaPath, target: String)
        ensures
            final(self)@ == old(self)@.placed_in(directory@, target@),
    {
        proof {
            reveal(GuiView::placed_in);
        }
        self.state.directory = directory;
        self.state.selected_files = None;
        self.empty_media_target = target;
    }

    /// Takes the scan of another directory, which messages call `target`, and shows a file
    /// of it.
    pub fn show_directory(
        &mut self,
        directory: MediaPath,
        target: String,
        file: Option<&MediaPath>,
        entries: Vec<MediaEntry>,
    )
        ensures
            exists|sorted: Seq<EntryView>| #[trigger]
                sorted_entries(
                    entries_of(entries@),
                    sorted,
                    old(self)@.state.sort_mode,
                    old(self)@.locale,
                ) && final(self)@ == old(self)@.directory_shown(
                    directory@,
                    target@,
                    match file {
                        Some(path) => Some(path@),
                        None => None,
                    },
                    sorted,
                ),
    {
        proof {
            reveal(GuiView::placed_in);
        }
        let ghost found = entries_of(entries@);
        self.place_in(directory, target);
        let ghost placed = self@;
        self.rescan(Ok(entries));
        let ghost sorted = choose|sorted: Seq<EntryView>| #[trigger]
            sorted_entries(found, sorted, placed.state.sort_mode, placed.locale) && self@
                == placed.rescanned(sorted);
        self.show_file(file);
        assert(sorted_entries(found, sorted, old(self)@.state.sort_mode, old(self)@.locale));
    }
}

/// A shown browser that is toggled is gone, and one that was not shown is listed around
/// what the window looks at, with that selected.
pub proof fn law_toggling_opens_and_closes(
    pane: PaneView,
    state: StateView,
    entries: Seq<BrowserEntryView>,
)
    requires
        entries.len() <= usize::MAX,
    ensures
        pane.browser is Some ==> pane.after_action(BrowserAction::Toggle).browser is None
            && pane.effect_of(BrowserAction::Toggle, state) is None,
        pane.browser is None ==> pane.effect_of(BrowserAction::Toggle, state) == Some(
            EffectView::List {
                directory: listed_directory(browser_target(state)),
                preferred: Some(browser_target(state)),
            },
        ),
        browser_lists(entries, browser_target(state)) ==> pane.listing_taken(
            listed_directory(browser_target(state)),
            Some(browser_target(state)),
            entries,
        ).browser.unwrap().selected() == Some(browser_target(state)),
{
    if browser_lists(entries, browser_target(state)) {
        let index = browser_position(entries, browser_target(state));
        assert(browser_first_at(entries, browser_target(state), index));
    }
}

/// Every action and listing leaves a selection that is an entry, where there is one.
pub proof fn law_selection_stays_an_entry(
    pane: PaneView,
    action: BrowserAction,
    directory: PathNames,
    preferred: Option<PathNames>,
    entries: Seq<BrowserEntryView>,
)
    requires
        pane.browser matches Some(browser) ==> browser.sound(),
        entries.len() <= usize::MAX,
    ensures
        pane.after_action(action).browser matches Some(browser) ==> browser.sound(),
        pane.listing_taken(directory, preferred, entries).browser matches Some(browser)
            && browser.sound() && browser.listed_directory == directory && browser.entries
            == entries,
        pane.browser matches Some(browser) ==> browser.relisted(entries).sound(),
{
    lemma_preferred_is_listed(entries, preferred, 0);
    if let Some(browser) = pane.browser {
        lemma_preferred_is_listed(
            entries,
            map_get(browser.remembered_selection, directory),
            0,
        );
        lemma_preferred_is_listed(entries, browser.selected(), browser.selected_index as int);
    }
    lemma_preferred_is_listed(
        entries,
        map_get(Seq::<(PathNames, PathNames)>::empty(), directory),
        0,
    );
}

proof fn lemma_preferred_is_listed(
    entries: Seq<BrowserEntryView>,
    preferred: Option<PathNames>,
    fallback: int,
)
    requires
        fallback >= 0,
    ensures
        0 <= preferred_index(entries, preferred, fallback),
        entries.len() > 0 ==> preferred_index(entries, preferred, fallback) < entries.len(),
{
    if let Some(path) = preferred {
        if browser_lists(entries, path) {
            let index = browser_position(entries, path);
            assert(browser_first_at(entries, path, index));
        }
    }
}

/// A focused browser keeps the keys that move and sort from the window, and one without
/// the focus keeps only those that change it; without a browser the window has all keys.
pub proof fn law_keys_go_to_the_focused_pane(keys: Keys)
    ensures
        keys_left(keys, None) == keys,
        !keys.ctrl ==> keys_left(keys, Some(BrowserPaneFocus::Media)) == keys,
        !keys.ctrl && !keys.e && !keys.period ==> action_for(
            keys,
            Some(BrowserPaneFocus::Media),
        ) is None,
        ({
            let left = keys_left(keys, Some(BrowserPaneFocus::Browser));
            &&& !left.h && !left.j && !left.k && !left.l && !left.left && !left.right
            &&& !left.up && !left.down && !left.enter && !left.t && !left.n
            &&& left.ctrl == keys.ctrl && left.space == keys.space && left.q == keys.q
            &&& !keys.ctrl ==> left.d == keys.d && left.u == keys.u
        }),
{
}

/// Going up from a folder lists the folder that holds it with the one left selected, and
/// entering that one lists it again.
pub proof fn law_entering_undoes_going_up(
    pane: PaneView,
    state: StateView,
    browser: BrowserView,
    parent: PathNames,
    entries: Seq<BrowserEntryView>,
)
    requires
        pane.browser == Some(browser),
        parent_of(browser.listed_directory) == Some(parent),
        entries.len() <= usize::MAX,
        browser_lists(entries, browser.listed_directory),
        forall|i: int|
            0 <= i < entries.len() && (#[trigger] entries[i]).path == browser.listed_directory
                ==> entries[i].kind == BrowserEntryKind::Directory,
    ensures
        pane.effect_of(BrowserAction::Parent, state) == Some(
            EffectView::List { directory: parent, preferred: Some(browser.listed_directory) },
        ),
        pane.listing_taken(parent, Some(browser.listed_directory), entries).effect_of(
            BrowserAction::Enter,
            state,
        ) == Some(EffectView::List { directory: browser.listed_directory, preferred: None }),
{
    let index = browser_position(entries, browser.listed_directory);
    assert(browser_first_at(entries, browser.listed_directory, index));
}

/// A file of a directory that the session lists is shown without reading it again.
pub proof fn law_listed_files_are_not_read_again(state: StateView, browser: BrowserView)
    requires
        lists_directory(state, browser.listed_directory),
        browser.selected() matches Some(path) && entry_position(state.entries, path) is Some,
        browser.selected_kind() matches Some(BrowserEntryKind::Media(_)),
    ensures
        target_of(state, browser) == TargetView::File(browser.selected().unwrap()),
{
}

/// The path that the browser of a new session opens on: where it is asked for, the file or
/// the directory that the session opens; explicitly selected files open without it.
pub open spec fn launch_browser_target(launch: LaunchView, view: CliView) -> Option<PathNames> {
    match launch {
        LaunchView::Directory { directory, initial_file } => if view == CliView::Browser {
            Some(
                match initial_file {
                    Some(file) => file,
                    None => directory,
                },
            )
        } else {
            None
        },
        LaunchView::SelectedFiles { .. } => None,
    }
}

/// The path that the browser of a new session opens on.
pub fn browser_target_for_launch(launch: &LaunchTarget, view: CliView) -> (target: Option<
    MediaPath,
>)
    ensures
        path_of(target) == launch_browser_target(launch@, view),
{
    if view != CliView::Browser {
        return None;
    }
    match launch {
        LaunchTarget::Directory { directory, initial_file } => Some(
            match initial_file {
                Some(file) => file.clone(),
                None => directory.clone(),
            },
        ),
        LaunchTarget::SelectedFiles { .. } => None,
    }
}

/// In a focused browser `j` and the arrow down select the next entry, `k` and the arrow up
/// the previous one, and the first and the last entry stop them.
pub proof fn law_browser_steps(pane: PaneView, browser: BrowserView, keys: Keys, state: StateView)
    requires
        pane.browser == Some(browser),
        browser.focus == BrowserPaneFocus::Browser,
        browser.sound(),
        browser.entries.len() > 0,
        !keys.ctrl,
        !keys.e,
    ensures
        keys.j || keys.down ==> {
            &&& action_for(keys, pane.focus()) == Some(BrowserAction::Down)
            &&& stepped(pane, browser, BrowserAction::Down, state)
            &&& pane.after_action(BrowserAction::Down).browser.unwrap().selected_index
                == if browser.selected_index + 1 < browser.entries.len() {
                browser.selected_index + 1
            } else {
                browser.selected_index as int
            }
        },
        !keys.j && !keys.down && (keys.k || keys.up) ==> {
            &&& action_for(keys, pane.focus()) == Some(BrowserAction::Up)
            &&& stepped(pane, browser, BrowserAction::Up, state)
            &&& pane.after_action(BrowserAction::Up).browser.unwrap().selected_index
                == if browser.selected_index > 0 {
                browser.selected_index - 1
            } else {
                0
            }
        },
{
}

/// Whether an action only moved the selection, remembered it and had it shown, where it
/// is another one.
pub open spec fn stepped(
    pane: PaneView,
    browser: BrowserView,
    action: BrowserAction,
    state: StateView,
) -> bool {
    &&& pane.after_action(action).browser matches Some(after) && {
        &&& after.entries == browser.entries
        &&& after.listed_directory == browser.listed_directory
        &&& after.focus == browser.focus
        &&& after.scroll_to_selection
        &&& after.selected_index != browser.selected_index ==> pane.effect_of(action, state)
            == Some(EffectView::Show)
        &&& after.selected_index == browser.selected_index ==> pane.effect_of(
            action,
            state,
        ) is None
    }
    &&& pane.after_action(action).sort_mode == pane.sort_mode
    &&& pane.after_action(action).error == pane.error
}

/// With `ctrl`, `d` and `u` move the selection of a focused browser by half a page, as far
/// as there are entries; one undoes the other where neither end stopped it.
pub proof fn law_browser_half_pages(
    pane: PaneView,
    browser: BrowserView,
    keys: Keys,
    state: StateView,
)
    requires
        pane.browser == Some(browser),
        browser.focus == BrowserPaneFocus::Browser,
        browser.sound(),
        browser.entries.len() > 0,
        keys.ctrl,
        !keys.h,
        !keys.l,
        pane.rows >= 2,
    ensures
        ({
            let down = pane.after_action(BrowserAction::HalfPageDown).browser.unwrap();
            let up = pane.after_action(BrowserAction::HalfPageUp).browser.unwrap();
            let half = pane.rows as int / 2;
            &&& keys.d ==> action_for(keys, pane.focus()) == Some(BrowserAction::HalfPageDown)
            &&& keys.u && !keys.d ==> action_for(keys, pane.focus()) == Some(
                BrowserAction::HalfPageUp,
            )
            &&& !keys.u && !keys.d ==> action_for(keys, pane.focus()) is None
            &&& stepped(pane, browser, BrowserAction::HalfPageDown, state)
            &&& stepped(pane, browser, BrowserAction::HalfPageUp, state)
            &&& browser.selected_index + half < browser.entries.len() ==> down.selected_index
                == browser.selected_index + half
            &&& browser.selected_index + half >= browser.entries.len() ==> down.selected_index
                == browser.entries.len() - 1
            &&& browser.selected_index >= half ==> up.selected_index == browser.selected_index
                - half
            &&& browser.selected_index < half ==> up.selected_index == 0
        }),
{
}

/// The other keys of a focused browser: `l` and the arrow right list the selected folder,
/// `h` and the arrow left the one that holds the listed one, with the one left selected;
/// `enter` lists a folder, and hands the keys to the preview of a media file.
pub proof fn law_browser_opens_folders(
    pane: PaneView,
    browser: BrowserView,
    keys: Keys,
    state: StateView,
)
    requires
        pane.browser == Some(browser),
        browser.focus == BrowserPaneFocus::Browser,
        browser.selected_index < browser.entries.len(),
        !keys.ctrl,
        !keys.e,
        !keys.j && !keys.down && !keys.k && !keys.up,
    ensures
        ({
            let chosen = browser.entries[browser.selected_index as int];
            let action = action_for(keys, pane.focus());
            &&& keys.l || keys.right ==> {
                &&& action matches Some(action) && pane.after_action(action) == pane
                    && pane.effect_of(action, state) == if chosen.kind
                    == BrowserEntryKind::Directory {
                    Some(EffectView::List { directory: chosen.path, preferred: None })
                } else {
                    None
                }
            }
            &&& !keys.l && !keys.right && (keys.h || keys.left) ==> {
                &&& action matches Some(action) && pane.after_action(action) == pane
                    && pane.effect_of(action, state) == match parent_of(
                    browser.listed_directory,
                ) {
                    Some(parent) => Some(
                        EffectView::List {
                            directory: parent,
                            preferred: Some(browser.listed_directory),
                        },
                    ),
                    None => None,
                }
            }
            &&& !keys.l && !keys.right && !keys.h && !keys.left && keys.enter ==> {
                &&& action matches Some(action) && match chosen.kind {
                    BrowserEntryKind::Directory => pane.after_action(action) == pane
                        && pane.effect_of(action, state) == Some(
                        EffectView::List { directory: chosen.path, preferred: None },
                    ),
                    BrowserEntryKind::Media(_) => pane.after_action(action).browser == Some(
                        BrowserView { focus: BrowserPaneFocus::Media, ..browser },
                    ) && pane.effect_of(action, state) is None,
                    BrowserEntryKind::UnsupportedFile => pane.after_action(action) == pane
                        && pane.effect_of(action, state) is None,
                }
            }
        }),
{
}

/// In a focused browser `t` turns to the newest first, or from that to the oldest; `n` to
/// names that rise, or from that to names that fall. The directory is listed again, in
/// the new order, with the same path selected; `.` only lists it again.
pub proof fn law_browser_sorts(
    pane: PaneView,
    browser: BrowserView,
    keys: Keys,
    state: StateView,
)
    requires
        pane.browser == Some(browser),
        browser.focus == BrowserPaneFocus::Browser,
        browser.selected_index < browser.entries.len(),
        !keys.ctrl && !keys.e && !keys.enter,
        !keys.j && !keys.down && !keys.k && !keys.up,
        !keys.h && !keys.left && !keys.l && !keys.right,
        keys.t || keys.n || keys.period,
    ensures
        action_for(keys, pane.focus()) matches Some(action) && {
            &&& pane.effect_of(action, state) == Some(
                EffectView::List {
                    directory: browser.listed_directory,
                    preferred: Some(browser.entries[browser.selected_index as int].path),
                },
            )
            &&& pane.after_action(action).browser == pane.browser
            &&& keys.t ==> pane.after_action(action).sort_mode == if pane.sort_mode
                == SortMode::Newest {
                SortMode::Oldest
            } else {
                SortMode::Newest
            }
            &&& !keys.t && keys.n ==> pane.after_action(action).sort_mode == if pane.sort_mode
                == SortMode::NameAsc {
                SortMode::NameDesc
            } else {
                SortMode::NameAsc
            }
            &&& !keys.t && !keys.n ==> pane.after_action(action) == pane
        },
{
}

/// With `ctrl`, `h` hands the keys to the browser and `l` to the other pane; nothing else
/// changes. `e` shows the browser or hides it, whichever pane has the keys.
pub proof fn law_browser_focus_keys(
    pane: PaneView,
    browser: BrowserView,
    keys: Keys,
    state: StateView,
)
    requires
        pane.browser == Some(browser),
    ensures
        keys.ctrl && keys.h ==> {
            &&& action_for(keys, pane.focus()) matches Some(action) && pane.after_action(
                action,
            ).browser == Some(BrowserView { focus: BrowserPaneFocus::Browser, ..browser })
                && pane.effect_of(action, state) is None
        },
        keys.ctrl && keys.l && !keys.h ==> {
            &&& action_for(keys, pane.focus()) matches Some(action) && pane.after_action(
                action,
            ).browser == Some(BrowserView { focus: BrowserPaneFocus::Media, ..browser })
                && pane.effect_of(action, state) is None
        },
        keys.e && !keys.ctrl ==> {
            &&& action_for(keys, pane.focus()) matches Some(action) && pane.after_action(
                action,
            ).browser is None && pane.effect_of(action, state) is None
        },
        action_for(keys, None) is Some <==> keys.e && !keys.ctrl,
        browser.focus == BrowserPaneFocus::Media && keys.period && !keys.ctrl && !keys.e
            ==> action_for(keys, pane.focus()) == Some(BrowserAction::Relist),
{
}

/// A listing that is taken keeps the focus, and what was selected in other directories.
pub proof fn law_listing_keeps_what_was_selected_elsewhere(
    pane: PaneView,
    browser: BrowserView,
    directory: PathNames,
    preferred: Option<PathNames>,
    entries: Seq<BrowserEntryView>,
    other: PathNames,
)
    requires
        pane.browser == Some(browser),
        other != directory,
    ensures
        pane.listing_taken(directory, preferred, entries).browser matches Some(after)
            && after.focus == browser.focus && after.listed_directory == directory
            && after.entries == entries && map_get(after.remembered_selection, other) == map_get(
            browser.remembered_selection,
            other,
        ),
        pane.listing_taken(directory, preferred, entries).error is None,
        pane.listing_taken(directory, preferred, entries).sort_mode == pane.sort_mode,
{
    let opened = BrowserView::opened(
        directory,
        entries,
        preferred,
        browser.remembered_selection,
    );
    if let Some(path) = opened.selected() {
        crate::assoc::law_map_lookup(browser.remembered_selection, directory, path, other);
    }
}

/// A directory that is read again keeps the selected path selected where it is still
/// listed; where it is gone, the entry at its place is selected, or the last one.
pub proof fn law_relisting_keeps_the_selection(
    browser: BrowserView,
    entries: Seq<BrowserEntryView>,
)
    requires
        browser.sound(),
        browser.entries.len() > 0,
        0 < entries.len() <= usize::MAX,
    ensures
        ({
            let path = browser.entries[browser.selected_index as int].path;
            let after = browser.relisted(entries);
            &&& after.entries == entries
            &&& after.listed_directory == browser.listed_directory && after.focus
                == browser.focus
            &&& browser_lists(entries, path) ==> after.selected() == Some(path)
            &&& !browser_lists(entries, path) && browser.selected_index < entries.len()
                ==> after.selected_index == browser.selected_index
            &&& !browser_lists(entries, path) && browser.selected_index >= entries.len()
                ==> after.selected_index == entries.len() - 1
        }),
{
    let path = browser.entries[browser.selected_index as int].path;
    if browser_lists(entries, path) {
        assert(browser_first_at(entries, path, browser_position(entries, path)));
    }
}

/// The other pane scans a folder that is selected, and the directory of a media file that
/// its session does not list; for other files, and without a selection, it stays as it is.
pub proof fn law_selection_is_shown(state: StateView, browser: BrowserView)
    ensures
        browser.selected_index >= browser.entries.len() ==> target_of(state, browser)
            == TargetView::Nothing,
        browser.selected_index < browser.entries.len() ==> {
            let chosen = browser.entries[browser.selected_index as int];
            match chosen.kind {
                BrowserEntryKind::Directory => target_of(state, browser) == (TargetView::Scan {
                    directory: chosen.path,
                    file: None,
                }),
                BrowserEntryKind::UnsupportedFile => target_of(state, browser)
                    == TargetView::Nothing,
                BrowserEntryKind::Media(_) => (state.directory != browser.listed_directory
                    || state.selected_files is Some) ==> target_of(state, browser) == (
                TargetView::Scan { directory: browser.listed_directory, file: Some(chosen.path) }),
            }
        },
{
}

/// The browser opens with a session only where it was asked for, on the file or else on the
/// directory that the session opens.
pub proof fn law_browser_opens_with_the_session(launch: LaunchView, view: CliView)
    ensures
        view == CliView::Auto ==> launch_browser_target(launch, view) is None,
        launch is SelectedFiles ==> launch_browser_target(launch, view) is None,
        view == CliView::Browser ==> (launch matches LaunchView::Directory {
            directory,
            initial_file,
        } ==> (initial_file is Some ==> launch_browser_target(launch, view) == initial_file) && (
        initial_file is None ==> launch_browser_target(launch, view) == Some(directory))),
{
}

/// A directory that is shown is the one the session is about from then on; no file of it
/// asked for, or one that was not found, opens the grid, else its preview opens.
pub proof fn law_shown_directories_become_the_session(
    view: GuiView,
    directory: PathNames,
    target: Seq<char>,
    file: Option<PathNames>,
)
    ensures
        view.placed_in(directory, target).state.directory == directory,
        view.placed_in(directory, target).state.selected_files is None,
        view.placed_in(directory, target).empty_media_target == target,
        view.placed_in(directory, target).state.entries == view.state.entries,
        file is None ==> view.file_shown(file).state.mode == ViewMode::Grid,
        file is None ==> view.file_shown(file).state.entries == view.state.entries,
        file is None ==> view.file_shown(file).state.current_index == view.state.current_index,
{
    reveal(GuiView::placed_in);
    reveal(GuiView::gridded);
}

} // verus!
