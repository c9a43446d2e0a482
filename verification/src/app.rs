//! The terminal viewer: what its actions do.
//!
//! The terminal, the renderer and the file system are outside: what is to be done
//! there comes back as [`AppEffect`]s.

use vstd::prelude::*;
use vstd::string::StringExecFns;

use crate::delete::{
    after_deletion, deletion_report, outcomes_of, DeleteReport, FileOutcome, ReportView,
};
use crate::gui::launch::{started, LaunchView, SessionOptions};
use crate::input::Action;
use crate::numbers::most;
use crate::path::{MediaPath, PathNames};
use crate::sorter::{
    name_sort_after, next_name_sort, next_time_sort, sort_entries, sorted_entries,
    time_sort_after,
};
use crate::state::{
    entries_of, law_marks_keep_state_sound, law_moves_keep_state_sound,
    law_showing_queue_keeps_state_sound, AppState, EntryView, MediaEntry, SortMode, StateView,
    ViewMode, ZoomMode,
};
use crate::text::{decimal, encloses, joined, tells, text_of, to_decimal};

verus! {

/// What is to be done outside after an action.
#[derive(Debug, Clone, Copy, PartialEq, Eq, Structural)]
pub enum AppEffect {
    /// Leave the viewer.
    Quit,
    /// Delete the marked files, then report through [`App::finish_delete`].
    DeleteQueued,
    /// Scan again, then hand the entries to [`App::finish_rescan`].
    Rescan,
    /// Read the dates that the order needs, then sort by [`App::finish_sort`].
    Sort(SortMode),
    /// Read what the info pane shows of the current entry.
    EnrichCurrent,
    /// Forget what was rendered.
    ClearRenderer,
    /// Nothing.
    Nothing,
}

/// The terminal viewer.
pub struct App {
    pub state: AppState,
    pub locale: Option<String>,
    pub dry_run_delete: bool,
}

impl StateView {
    /// The state with a status.
    pub open spec fn saying(self, message: Seq<char>) -> StateView {
        StateView { status_message: Some(message), ..self }
    }

    /// The state that counts the marked files.
    pub open spec fn saying_queued(self) -> StateView {
        self.saying("queued: "@ + decimal(self.delete_queue.len()))
    }

    /// The state after an action.
    pub open spec fn acted(self, action: Action) -> StateView {
        match action {
            Action::Next => self.moved(1),
            Action::Previous => self.moved(-1),
            Action::First => self.at_first(),
            Action::Last => self.at_last(),
            Action::ToggleQueueCurrent => self.queue_toggled().saying_queued(),
            Action::UnqueueCurrent => self.unqueued().saying_queued(),
            Action::ShowDeleteQueueGrid => if self.delete_queue.len() == 0 {
                self.showing_queue().saying("delete queue is empty"@)
            } else {
                self.showing_queue()
            },
            Action::ToggleGrid => StateView {
                mode: if self.mode == ViewMode::Preview {
                    ViewMode::Grid
                } else {
                    ViewMode::Preview
                },
                ..self
            },
            Action::OpenHighlighted => StateView { mode: ViewMode::Preview, ..self },
            Action::PageDown => self.moved(most(self.last_grid_page_size as int, 1)),
            Action::PageUp => self.moved(-most(self.last_grid_page_size as int, 1)),
            Action::ConfirmDeleteQueued => if self.delete_queue.len() == 0 {
                self.saying("delete queue is empty"@)
            } else {
                StateView { confirm_delete: true, ..self }
            },
            Action::ConfirmNo => (StateView { confirm_delete: false, ..self }).saying(
                "delete cancelled"@,
            ),
            Action::ToggleFullscreenUi => StateView {
                fullscreen_ui: !self.fullscreen_ui,
                ..self
            },
            Action::ToggleRecursive => StateView { recursive: !self.recursive, ..self },
            Action::ToggleInfoOverlay => StateView {
                show_info_overlay: !self.show_info_overlay,
                ..self
            },
            Action::ToggleHelpOverlay => StateView {
                show_help_overlay: !self.show_help_overlay,
                ..self
            },
            Action::ToggleZoom => StateView {
                zoom_mode: if self.zoom_mode == ZoomMode::Fit {
                    ZoomMode::OriginalPixels
                } else {
                    ZoomMode::Fit
                },
                ..self
            },
            _ => self,
        }
    }

    /// What is to be done outside after an action.
    pub open spec fn effect_of(self, action: Action) -> AppEffect {
        match action {
            Action::Quit => AppEffect::Quit,
            Action::ConfirmYes => AppEffect::DeleteQueued,
            Action::ToggleFullscreenUi => AppEffect::ClearRenderer,
            Action::ToggleRecursive => AppEffect::Rescan,
            Action::Rescan => AppEffect::Rescan,
            Action::ToggleTimeSort => AppEffect::Sort(time_sort_after(self.sort_mode)),
            Action::ToggleNameSort => AppEffect::Sort(name_sort_after(self.sort_mode)),
            Action::ToggleInfoOverlay => if self.show_info_overlay {
                AppEffect::Nothing
            } else {
                AppEffect::EnrichCurrent
            },
            Action::ToggleZoom => AppEffect::ClearRenderer,
            _ => AppEffect::Nothing,
        }
    }
}

/// What is said of a deletion.
pub open spec fn deletion_status(report: ReportView) -> Seq<char> {
    if report.failed.len() == 0 {
        (if report.dry_run {
            "would delete "@
        } else {
            "deleted "@
        }) + decimal(report.deleted.len()) + " files"@
    } else {
        "deleted "@ + decimal(report.deleted.len()) + "; failed "@ + decimal(report.failed.len())
    }
}

/// What is said of a scan.
pub open spec fn scan_status(state: StateView) -> Seq<char> {
    "scanned "@ + decimal(state.entries.len()) + " images"@ + (if state.recursive {
        " recursively"@
    } else {
        ""@
    })
}

fn deletion_text(report: &DeleteReport) -> (text: String)
    ensures
        text@ == deletion_status(report@),
{
    let clean = report.failed.len() == 0;
    let mut text = if clean && report.dry_run {
        "would delete ".to_owned()
    } else {
        "deleted ".to_owned()
    };
    text.append(to_decimal(report.deleted.len() as u128).as_str());
    if clean {
        text.append(" files");
    } else {
        text.append("; failed ");
        text.append(to_decimal(report.failed.len() as u128).as_str());
    }
    text
}

impl AppState {
    /// Shows a status.
    fn say(&mut self, message: String)
        ensures
            final(self)@ == old(self)@.saying(message@),
    {
        self.status_message = Some(message);
    }

    /// Shows how many files are marked.
    fn say_queued(&mut self)
        ensures
            final(self)@ == old(self)@.saying_queued(),
    {
        let count = to_decimal(self.queue_count() as u128);
        self.say(joined("queued: ", count.as_str()));
    }

    /// Applies those actions that only change the view.
    fn apply_view_action(&mut self, action: Action)
        requires
            view_action(action),
        ensures
            final(self)@ == old(self)@.acted(action),
    {
        match action {
            Action::ToggleGrid => {
                let mode = match self.mode {
                    ViewMode::Preview => ViewMode::Grid,
                    ViewMode::Grid | ViewMode::DeleteQueueGrid => ViewMode::Preview,
                };
                self.mode = mode;
            },
            Action::OpenHighlighted => {
                self.mode = ViewMode::Preview;
            },
            Action::ToggleFullscreenUi => {
                self.fullscreen_ui = !self.fullscreen_ui;
            },
            Action::ToggleRecursive => {
                self.recursive = !self.recursive;
            },
            Action::ToggleInfoOverlay => {
                self.show_info_overlay = !self.show_info_overlay;
            },
            Action::ToggleHelpOverlay => {
                self.show_help_overlay = !self.show_help_overlay;
            },
            Action::ToggleZoom => {
                let zoom_mode = match self.zoom_mode {
                    ZoomMode::Fit => ZoomMode::OriginalPixels,
                    ZoomMode::OriginalPixels => ZoomMode::Fit,
                };
                self.zoom_mode = zoom_mode;
            },
            _ => {},
        }
    }

    /// Applies those actions that move the selection.
    fn apply_move_action(&mut self, action: Action)
        requires
            move_action(action),
        ensures
            final(self)@ == old(self)@.acted(action),
    {
        match action {
            Action::Next => self.next(),
            Action::Previous => self.previous(),
            Action::First => self.first(),
            Action::Last => self.last(),
            Action::PageDown => self.page_by(1),
            Action::PageUp => self.page_by(-1),
            _ => {},
        }
    }

    /// Applies those actions that concern the delete queue.
    fn apply_queue_action(&mut self, action: Action)
        requires
            queue_action(action),
        ensures
            final(self)@ == old(self)@.acted(action),
    {
        match action {
            Action::ToggleQueueCurrent => {
                self.toggle_queue_current();
                self.say_queued();
            },
            Action::UnqueueCurrent => {
                self.unqueue_current();
                self.say_queued();
            },
            Action::ShowDeleteQueueGrid => {
                self.enter_delete_queue_grid();
                if self.queue_count() == 0 {
                    self.say("delete queue is empty".to_owned());
                }
            },
            Action::ConfirmDeleteQueued => {
                if self.queue_count() == 0 {
                    self.say("delete queue is empty".to_owned());
                } else {
                    self.confirm_delete = true;
                }
            },
            Action::ConfirmNo => {
                self.confirm_delete = false;
                self.say("delete cancelled".to_owned());
            },
            _ => {},
        }
    }
}

/// Whether an action only changes the view.
pub open spec fn view_action(action: Action) -> bool {
    match action {
        Action::ToggleGrid => true,
        Action::OpenHighlighted => true,
        Action::ToggleFullscreenUi => true,
        Action::ToggleRecursive => true,
        Action::ToggleInfoOverlay => true,
        Action::ToggleHelpOverlay => true,
        Action::ToggleZoom => true,
        _ => false,
    }
}

/// Whether an action moves the selection.
pub open spec fn move_action(action: Action) -> bool {
    match action {
        Action::Next => true,
        Action::Previous => true,
        Action::First => true,
        Action::Last => true,
        Action::PageDown => true,
        Action::PageUp => true,
        _ => false,
    }
}

/// Whether an action concerns the delete queue.
pub open spec fn queue_action(action: Action) -> bool {
    match action {
        Action::ToggleQueueCurrent => true,
        Action::UnqueueCurrent => true,
        Action::ShowDeleteQueueGrid => true,
        Action::ConfirmDeleteQueued => true,
        Action::ConfirmNo => true,
        _ => false,
    }
}

impl App {
    /// The viewer at the start of a session on the entries of a directory.
    pub fn new(
        directory: MediaPath,
        options: SessionOptions,
        entries: Vec<MediaEntry>,
        locale: Option<String>,
        dry_run_delete: bool,
    ) -> (app: App)
        ensures
            exists|sorted: Seq<EntryView>| #[trigger]
                sorted_entries(
                    entries_of(entries@),
                    sorted,
                    options.sort_mode,
                    text_of(locale),
                ) && app.state@ == (StateView {
                    mode: ViewMode::Preview,
                    ..started(
                        LaunchView::Directory { directory: directory@, initial_file: None },
                        options,
                        sorted,
                    )
                }),
            app.locale == locale,
            app.dry_run_delete == dry_run_delete,
    {
        let ghost input = entries_of(entries@);
        let ghost given = options;
        let mut entries = entries;
        sort_entries(
            &mut entries,
            options.sort_mode,
            match &locale {
                Some(text) => Some(text.as_str()),
                None => None,
            },
        );
        let ghost sorted = entries_of(entries@);
        assert(sorted_entries(input, sorted, given.sort_mode, text_of(locale)));
        let state = AppState::new(
            directory,
            options.recursive,
            options.include_hidden,
            options.media_mode,
            options.extensions,
            options.sort_mode,
            entries,
        );
        App { state, locale, dry_run_delete }
    }

    /// Applies an action; returns what is to be done outside.
    pub fn handle_action(&mut self, action: Action) -> (effect: AppEffect)
        ensures
            final(self).state@ == old(self).state@.acted(action),
            final(self).locale == old(self).locale,
            final(self).dry_run_delete == old(self).dry_run_delete,
            effect == old(self).state@.effect_of(action),
    {
        match action {
            Action::Quit => AppEffect::Quit,
            Action::Next | Action::Previous | Action::First | Action::Last | Action::PageDown
            | Action::PageUp => {
                self.state.apply_move_action(action);
                AppEffect::Nothing
            },
            Action::ToggleQueueCurrent | Action::UnqueueCurrent | Action::ShowDeleteQueueGrid
            | Action::ConfirmDeleteQueued | Action::ConfirmNo => {
                self.state.apply_queue_action(action);
                AppEffect::Nothing
            },
            Action::ToggleGrid | Action::OpenHighlighted | Action::ToggleHelpOverlay => {
                self.state.apply_view_action(action);
                AppEffect::Nothing
            },
            Action::ConfirmYes => AppEffect::DeleteQueued,
            Action::ToggleFullscreenUi | Action::ToggleZoom => {
                self.state.apply_view_action(action);
                AppEffect::ClearRenderer
            },
            Action::ToggleRecursive => {
                self.state.apply_view_action(action);
                AppEffect::Rescan
            },
            Action::Rescan => AppEffect::Rescan,
            Action::ToggleTimeSort => AppEffect::Sort(next_time_sort(self.state.sort_mode)),
            Action::ToggleNameSort => AppEffect::Sort(next_name_sort(self.state.sort_mode)),
            Action::ToggleInfoOverlay => {
                self.state.apply_view_action(action);
                if self.state.show_info_overlay {
                    AppEffect::EnrichCurrent
                } else {
                    AppEffect::Nothing
                }
            },
            Action::Noop => AppEffect::Nothing,
        }
    }

    /// Takes what became of the marked files, one outcome for each. What was
    /// rendered is to be forgotten then.
    pub fn finish_delete(&mut self, outcomes: &Vec<FileOutcome>) -> (report: DeleteReport)
        requires
            outcomes@.len() == old(self).state@.delete_queue.len(),
        ensures
            report@ == deletion_report(
                old(self).state@,
                outcomes_of(outcomes@),
                old(self).dry_run_delete,
            ),
            final(self).state@ == after_deletion(old(self).state@.answered(), report@).saying(
                deletion_status(report@),
            ),
            final(self).locale == old(self).locale,
            final(self).dry_run_delete == old(self).dry_run_delete,
    {
        let report = self.state.finish_deletion(self.dry_run_delete, outcomes);
        self.state.say(deletion_text(&report));
        report
    }

    /// Takes the entries of a scan. What was rendered is to be forgotten then.
    pub fn finish_rescan(&mut self, entries: Vec<MediaEntry>)
        ensures
            exists|sorted: Seq<EntryView>| #[trigger]
                sorted_entries(
                    entries_of(entries@),
                    sorted,
                    old(self).state@.sort_mode,
                    text_of(old(self).locale),
                ) && final(self).state@ == old(self).state@.rescanned(sorted).saying(
                    scan_status(old(self).state@.rescanned(sorted)),
                ),
            final(self).locale == old(self).locale,
            final(self).dry_run_delete == old(self).dry_run_delete,
    {
        let locale = match &self.locale {
            Some(text) => Some(text.as_str()),
            None => None,
        };
        self.state.take_scan(entries, locale);
        let mut status = joined("scanned ", to_decimal(self.state.entries.len() as u128).as_str());
        status.append(" images");
        status.append(
            if self.state.recursive {
                " recursively"
            } else {
                ""
            },
        );
        self.state.say(status);
    }

    /// Sorts the entries. What was rendered is to be forgotten then.
    pub fn finish_sort(&mut self, mode: SortMode)
        ensures
            exists|sorted: Seq<EntryView>| #[trigger]
                sorted_entries(
                    old(self).state@.entries,
                    sorted,
                    mode,
                    text_of(old(self).locale),
                ) && final(self).state@ == old(self).state@.resorted(mode, sorted).saying(
                    "sort: "@ + mode.name(),
                ),
            final(self).locale == old(self).locale,
            final(self).dry_run_delete == old(self).dry_run_delete,
    {
        let locale = match &self.locale {
            Some(text) => Some(text.as_str()),
            None => None,
        };
        self.state.resort(mode, locale);
        self.state.say(joined("sort: ", mode.as_str()));
    }

    /// Notes that the terminal has another size. What was rendered is to be
    /// forgotten then.
    pub fn handle_resize(&mut self)
        ensures
            final(self).state@ == old(self).state@.saying("terminal resized"@),
            final(self).locale == old(self).locale,
            final(self).dry_run_delete == old(self).dry_run_delete,
    {
        self.state.say("terminal resized".to_owned());
    }
}

/// Files are deleted only by the answer to the question, and it is asked only while
/// files are marked.
pub proof fn law_only_the_answer_deletes(state: StateView, action: Action)
    ensures
        state.effect_of(action) == AppEffect::DeleteQueued <==> action == Action::ConfirmYes,
        !state.confirm_delete ==> (state.acted(action).confirm_delete <==> action
            == Action::ConfirmDeleteQueued && state.delete_queue.len() > 0),
{
}

/// Actions keep the selection within the list and the marks on listed files, and they
/// leave the list as it is.
#[verifier::rlimit(40)]
pub proof fn law_actions_keep_state_sound(state: StateView, action: Action)
    requires
        state.sound(),
    ensures
        state.acted(action).sound(),
        state.acted(action).entries == state.entries,
{
    let page = most(state.last_grid_page_size as int, 1);
    if action == Action::Next {
        law_moves_keep_state_sound(state, 1);
    } else if action == Action::Previous || action == Action::First || action == Action::Last {
        law_moves_keep_state_sound(state, -1);
    } else if action == Action::PageDown {
        law_moves_keep_state_sound(state, page);
    } else if action == Action::PageUp {
        law_moves_keep_state_sound(state, -page);
    } else if action == Action::ShowDeleteQueueGrid {
        law_showing_queue_keeps_state_sound(state);
    } else if action == Action::ToggleQueueCurrent || action == Action::UnqueueCurrent {
        law_marks_keep_state_sound(state);
    }
}

/// The actions that move select the next or the previous file, the first or the last, or
/// one a page away, and none behind the last or before the first; they change no mark.
pub proof fn law_moves_select(state: StateView)
    requires
        state.sound(),
        state.mode != ViewMode::DeleteQueueGrid,
        state.entries.len() > 0,
        state.last_grid_page_size >= 1,
    ensures
        ({
            let at = state.current_index as int;
            let last = state.entries.len() - 1;
            let page = state.last_grid_page_size as int;
            &&& state.acted(Action::Next).current_index == if at < last {
                at + 1
            } else {
                last
            }
            &&& state.acted(Action::Previous).current_index == if at > 0 {
                at - 1
            } else {
                0
            }
            &&& state.acted(Action::First).current_index == 0
            &&& state.acted(Action::Last).current_index == last
            &&& state.acted(Action::PageDown).current_index == if at + page <= last {
                at + page
            } else {
                last
            }
            &&& state.acted(Action::PageUp).current_index == if at >= page {
                at - page
            } else {
                0
            }
            &&& state.acted(Action::Next).delete_queue == state.delete_queue
            &&& state.acted(Action::Previous).delete_queue == state.delete_queue
            &&& state.acted(Action::Next).entries == state.entries
            &&& state.acted(Action::Next).grid_page == state.acted(Action::Next).current_index
                as int / page
        }),
{
}

/// The actions that mark: one marks the current file, behind those that are marked, or
/// takes its mark off; one takes it off. Both leave all other marks and the selection.
pub proof fn law_marks_are_switched(state: StateView, other: PathNames)
    requires
        state.sound(),
        state.entries.len() > 0,
    ensures
        ({
            let path = state.entries[state.current_index as int].path;
            let toggled = state.acted(Action::ToggleQueueCurrent);
            let unmarked = state.acted(Action::UnqueueCurrent);
            &&& toggled.delete_queue.contains(path) == !state.delete_queue.contains(path)
            &&& !unmarked.delete_queue.contains(path)
            &&& other != path ==> toggled.delete_queue.contains(other)
                == state.delete_queue.contains(other)
            &&& other != path ==> unmarked.delete_queue.contains(other)
                == state.delete_queue.contains(other)
            &&& toggled.current_index == state.current_index
            &&& unmarked.current_index == state.current_index
            &&& toggled.entries == state.entries && unmarked.entries == state.entries
        }),
{
    let path = state.entries[state.current_index as int].path;
    crate::queue::lemma_removed_distinct(state.delete_queue, path);
    let queue = state.delete_queue;
    assert(queue.push(path)[queue.len() as int] == path);
    if queue.contains(other) {
        let k = queue.index_of(other);
        assert(queue.push(path)[k] == other);
    }
    if queue.push(path).contains(other) && other != path {
        let k = queue.push(path).index_of(other);
        assert(queue[k] == other);
    }
}

/// The actions that switch the view, the size, subfolders and the overlays, and what they
/// have done outside.
pub proof fn law_switches_switch(state: StateView)
    ensures
        state.mode == ViewMode::Preview ==> state.acted(Action::ToggleGrid).mode
            == ViewMode::Grid,
        state.mode != ViewMode::Preview ==> state.acted(Action::ToggleGrid).mode
            == ViewMode::Preview,
        state.acted(Action::OpenHighlighted).mode == ViewMode::Preview,
        state.acted(Action::OpenHighlighted).current_index == state.current_index,
        state.acted(Action::ShowDeleteQueueGrid).mode == ViewMode::DeleteQueueGrid,
        state.acted(Action::ToggleFullscreenUi).fullscreen_ui == !state.fullscreen_ui,
        state.acted(Action::ToggleRecursive).recursive == !state.recursive,
        state.effect_of(Action::ToggleRecursive) == AppEffect::Rescan,
        state.effect_of(Action::Rescan) == AppEffect::Rescan,
        state.acted(Action::Rescan) == state,
        state.acted(Action::ToggleInfoOverlay).show_info_overlay == !state.show_info_overlay,
        !state.show_info_overlay ==> state.effect_of(Action::ToggleInfoOverlay)
            == AppEffect::EnrichCurrent,
        state.acted(Action::ToggleHelpOverlay).show_help_overlay == !state.show_help_overlay,
        state.acted(Action::ToggleZoom).zoom_mode != state.zoom_mode,
        state.effect_of(Action::Quit) == AppEffect::Quit,
        state.effect_of(Action::ConfirmYes) == AppEffect::DeleteQueued,
        state.acted(Action::ConfirmDeleteQueued).confirm_delete == (state.confirm_delete
            || state.delete_queue.len() > 0),
        !state.acted(Action::ConfirmNo).confirm_delete,
        state.acted(Action::ConfirmNo).delete_queue == state.delete_queue,
        state.acted(Action::Noop) == state,
        state.effect_of(Action::Noop) == AppEffect::Nothing,
        state.sort_mode != SortMode::Newest ==> state.effect_of(Action::ToggleTimeSort)
            == AppEffect::Sort(SortMode::Newest),
        state.sort_mode == SortMode::Newest ==> state.effect_of(Action::ToggleTimeSort)
            == AppEffect::Sort(SortMode::Oldest),
        state.sort_mode != SortMode::NameAsc ==> state.effect_of(Action::ToggleNameSort)
            == AppEffect::Sort(SortMode::NameAsc),
        state.sort_mode == SortMode::NameAsc ==> state.effect_of(Action::ToggleNameSort)
            == AppEffect::Sort(SortMode::NameDesc),
{
}

/// What is said of a deletion counts the files, and those that could not be deleted; that
/// of a dry run without failures says what would be. What is said of a scan counts
/// the entries, and tells a recursive one.
pub proof fn law_statuses_count(report: ReportView, state: StateView)
    ensures
        tells(deletion_status(report), decimal(report.deleted.len())),
        report.failed.len() > 0 ==> tells(
            deletion_status(report),
            "failed "@ + decimal(report.failed.len()),
        ),
        report.dry_run && report.failed.len() == 0 ==> tells(
            deletion_status(report),
            "would delete "@,
        ),
        !report.dry_run && report.failed.len() == 0 ==> deletion_status(report) == "deleted "@
            + decimal(report.deleted.len()) + " files"@,
        tells(scan_status(state), decimal(state.entries.len())),
        state.recursive ==> tells(scan_status(state), "recursively"@),
        !state.recursive ==> scan_status(state) == "scanned "@ + decimal(state.entries.len())
            + " images"@,
{
    let line = deletion_status(report);
    let deleted = decimal(report.deleted.len());
    let failed = decimal(report.failed.len());
    if report.failed.len() == 0 {
        let verb = if report.dry_run {
            "would delete "@
        } else {
            "deleted "@
        };
        assert(encloses(line, verb, deleted, " files"@));
        assert(line =~= Seq::<char>::empty() + verb + (deleted + " files"@));
        assert(encloses(line, Seq::empty(), verb, deleted + " files"@));
    } else {
        assert(line =~= "deleted "@ + deleted + ("; failed "@ + failed));
        assert(encloses(line, "deleted "@, deleted, "; failed "@ + failed));
        reveal_strlit("; failed ");
        reveal_strlit("failed ");
        reveal_strlit("; ");
        assert("; failed "@ =~= "; "@ + "failed "@);
        assert(line =~= ("deleted "@ + deleted + "; "@) + ("failed "@ + failed) + Seq::<
            char,
        >::empty());
        assert(encloses(
            line,
            "deleted "@ + deleted + "; "@,
            "failed "@ + failed,
            Seq::empty(),
        ));
    }
    let scan = scan_status(state);
    let count = decimal(state.entries.len());
    let start = "scanned "@ + count + " images"@;
    if state.recursive {
        reveal_strlit(" recursively");
        reveal_strlit("recursively");
        reveal_strlit(" ");
        assert(" recursively"@ =~= " "@ + "recursively"@);
        assert(scan =~= (start + " "@) + "recursively"@ + Seq::<char>::empty());
        assert(encloses(scan, start + " "@, "recursively"@, Seq::empty()));
        assert(scan =~= "scanned "@ + count + (" images"@ + " recursively"@));
        assert(encloses(scan, "scanned "@, count, " images"@ + " recursively"@));
    } else {
        reveal_strlit("");
        assert(start + ""@ =~= start);
        assert(encloses(scan, "scanned "@, count, " images"@));
    }
}

} // verus!
