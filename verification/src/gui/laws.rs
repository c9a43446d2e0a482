//! What holds of the window whatever keys are pressed.

use vstd::prelude::*;

use crate::delete::{after_deletion, law_deletion_keeps_state_sound, ReportView};
use crate::numbers::{clamped, least, most};
use crate::path::PathNames;
use crate::sorter::{
    law_scan_takes_marks_off, law_sorting_keeps_selection_and_marks, sorted_entries,
};
use crate::state::{
    entry_position, law_marks_keep_state_sound, law_queued_indices,
    law_showing_queue_keeps_state_sound, lemma_position_exists, lists_path, position_or_first, EntryView, SortMode, StateView, ViewMode, ZoomMode,
};
use crate::video::PlaybackEventView;

use super::playback::{next_video, next_video_at, seek_target, VideoSeekDirection};
use super::textures::{TexKeyView, Variant};
use super::window::{
    first_above, half_page, push_if, GuiEffect, GuiView, Keys,
};
use super::work::{around, entry_key, keys_ahead, DecodedView};

verus! {

impl GuiView {
    /// Whether the active video, if there is one, is the current entry.
    pub open spec fn on_current(self) -> bool {
        match self.active_video {
            Some(video) => self.state.current_path() == Some(video.handle.path),
            None => true,
        }
    }

    /// Whether the state is sound, and the active video is the current entry.
    pub open spec fn sound(self) -> bool {
        self.state.sound() && self.on_current()
    }

    /// Whether another window has the same entries and the same decoded files.
    pub open spec fn same_media(self, other: GuiView) -> bool {
        &&& other.state.entries == self.state.entries
        &&& other.state.directory == self.state.directory
        &&& other.state.selected_files == self.state.selected_files
        &&& other.previews == self.previews
        &&& other.thumbs == self.thumbs
        &&& other.inflight == self.inflight
        &&& other.failed == self.failed
        &&& other.arrived == self.arrived
        &&& other.scan_generation == self.scan_generation
    }

    /// Whether another window has the same marks as well, and asks the same.
    pub open spec fn same_marks(self, other: GuiView) -> bool {
        &&& self.same_media(other)
        &&& other.state.delete_queue == self.state.delete_queue
        &&& other.state.confirm_delete == self.state.confirm_delete
    }
}

proof fn lemma_started(
    view: GuiView,
    path: PathNames,
    start_at: u128,
    paused: bool,
    armed: bool,
)
    ensures
        view.same_marks(view.video_started(path, start_at, paused, armed)),
        view.video_started(path, start_at, paused, armed).state == view.state,
        view.state.current_path() == Some(path) ==> view.video_started(
            path,
            start_at,
            paused,
            armed,
        ).on_current(),
{
    reveal(GuiView::video_started);
    reveal(GuiView::video_stopped);
}

proof fn lemma_autoplayed(view: GuiView)
    requires
        view.on_current(),
    ensures
        view.same_marks(view.autoplayed()),
        view.autoplayed().state == view.state,
        view.autoplayed().on_current(),
{
    reveal(GuiView::autoplayed);
    if view.state.current_is_video() {
        lemma_started(view, view.state.current_path().unwrap(), 0, false, true);
    }
}

proof fn lemma_selection_changed(view: GuiView, previous: usize)
    requires
        view.state.current_index == previous ==> view.on_current(),
    ensures
        view.same_marks(view.selection_changed(previous)),
        view.selection_changed(previous).state == view.state,
        view.selection_changed(previous).on_current(),
{
    reveal(GuiView::selection_changed);
    reveal(GuiView::video_stopped);
    if view.state.current_index != previous {
        lemma_autoplayed(view.video_stopped());
    }
}

/// A window is sound like another one with the same list, marks, selection and video.
proof fn lemma_sound_like(view: GuiView, other: GuiView)
    requires
        view.sound(),
        other.state.entries == view.state.entries,
        other.state.delete_queue == view.state.delete_queue,
        other.state.current_index == view.state.current_index,
        other.active_video == view.active_video,
    ensures
        other.sound(),
{
    assert(other.state.current_path() == view.state.current_path());
}

/// A state is sound like another one with the same list and marks, where its
/// selection is in the list.
proof fn lemma_index_sound(state: StateView, other: StateView)
    requires
        state.sound(),
        other.entries == state.entries,
        other.delete_queue == state.delete_queue,
        other.entries.len() == 0 ==> other.current_index == 0,
        other.entries.len() > 0 ==> other.current_index < other.entries.len(),
    ensures
        other.sound(),
{
}

/// The window with the entry at an index chosen, and nothing else changed.
spec fn chosen(view: GuiView, at: usize) -> GuiView {
    GuiView { state: StateView { current_index: at, ..view.state }, ..view }
}

#[verifier::rlimit(40)]
proof fn lemma_chosen(view: GuiView, at: usize)
    requires
        view.sound(),
        view.state.entries.len() == 0 ==> at == 0,
        view.state.entries.len() > 0 ==> at < view.state.entries.len(),
    ensures
        view.same_marks(chosen(view, at)),
        chosen(view, at).state.sound(),
        chosen(view, at).state.mode == view.state.mode,
        chosen(view, at).state.current_index == at,
        at == view.state.current_index ==> chosen(view, at).on_current(),
{
    lemma_index_sound(view.state, chosen(view, at).state);
    if at == view.state.current_index {
        lemma_sound_like(view, chosen(view, at));
    }
}

proof fn lemma_selected_is(view: GuiView, index: int, at: usize)
    requires
        at == least(index, most(view.state.entries.len() - 1, 0)),
    ensures
        view.selected(index) == chosen(view, at).selection_changed(view.state.current_index),
{
    reveal(GuiView::selected);
}

proof fn lemma_selected(view: GuiView, index: int)
    requires
        view.sound(),
        0 <= index,
    ensures
        view.same_marks(view.selected(index)),
        view.selected(index).sound(),
        view.selected(index).state.mode == view.state.mode,
        index < view.state.entries.len() ==> view.selected(index).state.current_index == index,
{
    let at = least(index, most(view.state.entries.len() - 1, 0)) as usize;
    assert(view.state.entries.len() <= usize::MAX);
    lemma_selected_is(view, index, at);
    lemma_chosen(view, at);
    lemma_selection_changed(chosen(view, at), view.state.current_index);
}

proof fn lemma_queued_bounds(state: StateView, i: int)
    requires
        state.sound(),
        0 <= i < state.queued_indices().len(),
    ensures
        state.queued_indices()[i] < state.entries.len(),
        state.delete_queue.contains(state.entries[state.queued_indices()[i] as int].path),
{
    law_queued_indices(state.entries, state.delete_queue, state.entries.len());
    assert(state.queued_indices().contains(state.queued_indices()[i]));
}

proof fn lemma_moved_by(view: GuiView, step: int)
    requires
        view.sound(),
    ensures
        view.same_marks(view.moved_by(step)),
        view.moved_by(step).sound(),
        view.moved_by(step).state.mode == view.state.mode,
        view.state.mode == ViewMode::DeleteQueueGrid && view.state.queued_indices().len() > 0
            ==> view.moved_by(step).state.current_queued(),
{
    reveal(GuiView::moved_by);
    let indices = view.state.queued_indices();
    if view.state.entries.len() == 0 {
        law_queued_indices(view.state.entries, view.state.delete_queue, 0);
    } else if view.state.mode == ViewMode::DeleteQueueGrid {
        if indices.len() > 0 {
            let position = position_or_first(indices, view.state.current_index) + step;
            let at = clamped(position, 0, indices.len() - 1);
            lemma_queued_bounds(view.state, at);
            lemma_selected(view, indices[at] as int);
        }
    } else {
        lemma_selected(
            view,
            clamped(view.state.current_index + step, 0, view.state.entries.len() - 1),
        );
    }
}

proof fn lemma_moved_if(view: GuiView, pressed: bool, step: int)
    requires
        view.sound(),
    ensures
        view.same_marks(view.moved_if(pressed, step)),
        view.moved_if(pressed, step).sound(),
        view.moved_if(pressed, step).state.mode == view.state.mode,
{
    lemma_moved_by(view, step);
}

proof fn lemma_first_above(indices: Seq<usize>, bound: usize)
    ensures
        first_above(indices, bound) matches Some(found) ==> indices.contains(found) && found
            > bound,
    decreases indices.len(),
{
    if indices.len() > 0 {
        let front = indices.drop_last();
        lemma_first_above(front, bound);
        if first_above(front, bound) is Some {
            let found = first_above(front, bound).unwrap();
            let i = front.index_of(found);
            assert(indices[i] == found);
        } else {
            assert(indices[indices.len() - 1] == indices.last());
        }
    }
}

proof fn lemma_next_selected(view: GuiView)
    requires
        view.sound(),
    ensures
        view.same_marks(view.next_selected()),
        view.next_selected().sound(),
        view.next_selected().state.mode == view.state.mode,
        view.state.mode == ViewMode::DeleteQueueGrid && view.state.queued_indices().len() > 0
            ==> view.next_selected().state.current_queued(),
{
    reveal(GuiView::next_selected);
    let indices = view.state.queued_indices();
    lemma_first_above(indices, view.state.current_index);
    lemma_moved_by(view, 1);
    if view.state.mode == ViewMode::DeleteQueueGrid {
        match first_above(indices, view.state.current_index) {
            Some(index) => {
                lemma_queued_bounds(view.state, indices.index_of(index));
                lemma_selected(view, index as int);
            },
            None => {
                if indices.len() > 0 {
                    lemma_queued_bounds(view.state, indices.len() - 1);
                    lemma_selected(view, indices.last() as int);
                }
            },
        }
    }
}

proof fn lemma_ends_selected(view: GuiView)
    requires
        view.sound(),
    ensures
        view.same_marks(view.first_selected()),
        view.first_selected().sound(),
        view.first_selected().state.mode == view.state.mode,
        view.same_marks(view.last_selected()),
        view.last_selected().sound(),
        view.last_selected().state.mode == view.state.mode,
        view.state.mode == ViewMode::DeleteQueueGrid && view.state.queued_indices().len() > 0
            ==> view.first_selected().state.current_queued()
            && view.last_selected().state.current_queued(),
{
    reveal(GuiView::first_selected);
    reveal(GuiView::last_selected);
    let indices = view.state.queued_indices();
    lemma_selected(view, 0);
    lemma_selected(view, most(view.state.entries.len() - 1, 0));
    if indices.len() > 0 {
        lemma_queued_bounds(view.state, 0);
        lemma_queued_bounds(view.state, indices.len() - 1);
        lemma_selected(view, indices.first() as int);
        lemma_selected(view, indices.last() as int);
    }
}

/// In the view of the delete queue, every way to move the selection selects a marked
/// file, where there is one.
pub proof fn law_queue_view_selects_marked_files(view: GuiView, step: int)
    requires
        view.sound(),
        view.state.mode == ViewMode::DeleteQueueGrid,
        view.state.queued_indices().len() > 0,
    ensures
        view.moved_by(step).state.current_queued(),
        view.next_selected().state.current_queued(),
        view.first_selected().state.current_queued(),
        view.last_selected().state.current_queued(),
{
    lemma_moved_by(view, step);
    lemma_next_selected(view);
    lemma_ends_selected(view);
}

#[verifier::rlimit(40)]
proof fn lemma_previewing(view: GuiView)
    requires
        view.sound(),
    ensures
        view.same_marks(view.previewing()),
        view.previewing().sound(),
{
    reveal(GuiView::previewing);
    lemma_sound_like(view, view.previewing());
}

proof fn lemma_escape(view: GuiView, keys: Keys)
    requires
        view.sound(),
    ensures
        view.same_marks(view.after_escape(keys)),
        view.after_escape(keys).sound(),
{
    reveal(GuiView::after_escape);
    if keys.escape && (view.state.show_help_overlay || view.state.show_info_overlay) {
        let closed = StateView {
            show_help_overlay: false,
            show_info_overlay: false,
            ..view.state
        };
        let escaped = GuiView { state: closed, ..view };
        assert(view.after_escape(keys) == escaped);
        lemma_sound_like(view, escaped);
    } else if keys.escape && view.in_grid() {
        lemma_previewing(view);
        assert(view.after_escape(keys) == view.previewing());
    } else {
        assert(view.after_escape(keys) == view);
    }
}

proof fn lemma_grid_moves(view: GuiView, keys: Keys, cols: usize, rows: usize)
    requires
        view.sound(),
    ensures
        view.same_marks(view.after_grid_moves(keys, cols, rows)),
        view.after_grid_moves(keys, cols, rows).sound(),
{
    reveal(GuiView::after_grid_moves);
    let a = view.moved_if(keys.h || keys.left, -1);
    lemma_moved_if(view, keys.h || keys.left, -1);
    let b = a.moved_if(keys.l || keys.right, 1);
    lemma_moved_if(a, keys.l || keys.right, 1);
    let c = b.moved_if(keys.k || keys.up, -cols);
    lemma_moved_if(b, keys.k || keys.up, -cols);
    let d = c.moved_if(keys.j || keys.down, cols as int);
    lemma_moved_if(c, keys.j || keys.down, cols as int);
    let e = d.moved_if(keys.ctrl && keys.d, half_page(cols, rows));
    lemma_moved_if(d, keys.ctrl && keys.d, half_page(cols, rows));
    lemma_moved_if(e, keys.ctrl && keys.u, -half_page(cols, rows));
}

proof fn lemma_preview_moves(view: GuiView, keys: Keys)
    requires
        view.sound(),
    ensures
        view.same_marks(view.after_preview_moves(keys)),
        view.after_preview_moves(keys).sound(),
{
    reveal(GuiView::after_preview_moves);
    let forward = keys.l || keys.j || keys.right || keys.down;
    lemma_moved_if(view, forward, 1);
    lemma_moved_if(view.moved_if(forward, 1), keys.h || keys.k || keys.left || keys.up, -1);
}

proof fn lemma_jumps(view: GuiView, keys: Keys)
    requires
        view.sound(),
    ensures
        view.same_marks(view.after_jumps(keys)),
        view.after_jumps(keys).sound(),
{
    reveal(GuiView::after_jumps);
    lemma_ends_selected(view);
    if keys.home {
        lemma_ends_selected(view.first_selected());
    }
}

proof fn lemma_queue_shown(view: GuiView)
    requires
        view.sound(),
    ensures
        view.same_marks(view.queue_shown()),
        view.queue_shown().sound(),
{
    reveal(GuiView::queue_shown);
    law_showing_queue_keeps_state_sound(view.state);
    let shown = GuiView { state: view.state.showing_queue(), ..view };
    lemma_selection_changed(shown, view.state.current_index);
}

proof fn lemma_playback_toggled(view: GuiView)
    requires
        view.sound(),
    ensures
        view.same_marks(view.playback_toggled()),
        view.playback_toggled().sound(),
{
    reveal(GuiView::playback_toggled);
    if view.state.current_is_video() {
        lemma_started(view, view.state.current_path().unwrap(), 0, false, true);
    }
}

proof fn lemma_marks(view: GuiView, keys: Keys)
    requires
        view.sound(),
    ensures
        view.same_media(view.after_marks(keys)),
        view.after_marks(keys).sound(),
        view.after_marks(keys).state.confirm_delete == view.state.confirm_delete,
        !keys.d ==> view.same_marks(view.after_marks(keys)),
{
    reveal(GuiView::after_marks);
    reveal(GuiView::mark_toggled);
    lemma_queue_shown(view);
    lemma_playback_toggled(view);
    law_marks_keep_state_sound(view.state);
    lemma_next_selected(view.mark_toggled());
}

proof fn lemma_progress_shown(view: GuiView, now: u128)
    ensures
        view.same_marks(view.progress_shown(now)),
        view.progress_shown(now).state == view.state,
        view.on_current() ==> view.progress_shown(now).on_current(),
{
    reveal(GuiView::progress_shown);
}

proof fn lemma_sought(view: GuiView, direction: VideoSeekDirection, now: u128)
    requires
        view.sound(),
    ensures
        view.same_marks(view.sought(direction, now)),
        view.sought(direction, now).sound(),
{
    reveal(GuiView::sought);
    if view.can_seek() {
        let video = view.active_current().unwrap();
        let paused = video.handle.controls.paused;
        match seek_target(video.position as int, video.duration, direction) {
            None => {},
            Some(target) => {
                let started = view.video_started(
                    video.handle.path,
                    target as u128,
                    paused,
                    !paused,
                );
                lemma_started(view, video.handle.path, target as u128, paused, !paused);
                lemma_progress_shown(started.with_duration(video.duration), now);
            },
        }
    }
}

proof fn lemma_seeks(view: GuiView, keys: Keys, now: u128)
    requires
        view.sound(),
    ensures
        view.same_media(view.after_seeks(keys, now)),
        view.after_seeks(keys, now).sound(),
        view.after_seeks(keys, now).state.confirm_delete == view.state.confirm_delete,
        !keys.u ==> view.same_marks(view.after_seeks(keys, now)),
{
    reveal(GuiView::after_seeks);
    reveal(GuiView::unmarked);
    law_marks_keep_state_sound(view.state);
    lemma_sought(view, VideoSeekDirection::Backward, now);
    let rewound = if !keys.u || keys.ctrl {
        view
    } else if view.can_seek() {
        view.sought(VideoSeekDirection::Backward, now)
    } else {
        view.unmarked()
    };
    lemma_sought(rewound, VideoSeekDirection::Forward, now);
    let advanced = if keys.o && !keys.ctrl {
        rewound.sought(VideoSeekDirection::Forward, now)
    } else {
        rewound
    };
    lemma_progress_shown(advanced, now);
}

proof fn lemma_scan_key(view: GuiView, keys: Keys)
    requires
        view.sound(),
    ensures
        view.same_media(view.after_scan_key(keys)),
        view.after_scan_key(keys).sound(),
        view.after_scan_key(keys).state.delete_queue == view.state.delete_queue,
        view.after_scan_key(keys).state.confirm_delete == (view.state.confirm_delete || (keys.r
            && keys.ctrl && view.state.delete_queue.len() > 0)),
{
    reveal(GuiView::after_scan_key);
    reveal(GuiView::confirming);
    reveal(GuiView::recursion_switched);
}

proof fn lemma_hidden_key(view: GuiView, keys: Keys)
    requires
        view.sound(),
    ensures
        view.same_marks(view.after_hidden_key(keys)),
        view.after_hidden_key(keys).sound(),
{
    reveal(GuiView::hidden_switched);
    lemma_sound_like(view, view.after_hidden_key(keys));
}

proof fn lemma_view_keys(view: GuiView, keys: Keys, in_grid: bool)
    requires
        view.sound(),
    ensures
        view.same_marks(view.after_view_keys(keys, in_grid)),
        view.after_view_keys(keys, in_grid).sound(),
{
    reveal(GuiView::after_view_keys);
    reveal(GuiView::view_switched);
    reveal(GuiView::previewing);
}

proof fn lemma_size_keys(view: GuiView, keys: Keys)
    requires
        view.sound(),
    ensures
        view.same_marks(view.after_size_keys(keys)),
        view.after_size_keys(keys).sound(),
{
    reveal(GuiView::after_size_keys);
}

proof fn lemma_switches(view: GuiView, keys: Keys)
    requires
        view.sound(),
    ensures
        view.same_marks(view.after_switches(keys)),
        view.after_switches(keys).sound(),
{
    reveal(GuiView::after_switches);
    reveal(GuiView::mute_toggled);
    reveal(GuiView::auto_next_toggled);
    reveal(GuiView::repeat_toggled);
    reveal(GuiView::badges_toggled);
}

proof fn lemma_overlay_keys(view: GuiView, keys: Keys)
    requires
        view.sound(),
    ensures
        view.same_marks(view.after_overlay_keys(keys)),
        view.after_overlay_keys(keys).sound(),
{
    reveal(GuiView::after_overlay_keys);
}

proof fn lemma_after_keys(view: GuiView, keys: Keys, now: u128)
    requires
        view.sound(),
    ensures
        view.same_media(view.after_keys(keys, now)),
        view.after_keys(keys, now).sound(),
        !keys.d && !keys.u ==> view.after_keys(keys, now).state.delete_queue
            == view.state.delete_queue,
        view.after_keys(keys, now).state.confirm_delete == (view.state.confirm_delete || (keys.r
            && keys.ctrl && view.after_keys(keys, now).state.delete_queue.len() > 0)),
{
    reveal(GuiView::after_keys);
    let cols = most(view.grid_cols as int, 1) as usize;
    let rows = most(view.grid_rows as int, 1) as usize;
    let escaped = view.after_escape(keys);
    lemma_escape(view, keys);
    lemma_grid_moves(escaped, keys, cols, rows);
    lemma_preview_moves(escaped, keys);
    let moved = if view.in_grid() {
        escaped.after_grid_moves(keys, cols, rows)
    } else {
        escaped.after_preview_moves(keys)
    };
    let jumped = moved.after_jumps(keys);
    lemma_jumps(moved, keys);
    let marked = jumped.after_marks(keys);
    lemma_marks(jumped, keys);
    let sought = marked.after_seeks(keys, now);
    lemma_seeks(marked, keys, now);
    let scanned = sought.after_scan_key(keys);
    lemma_scan_key(sought, keys);
    let shown = scanned.after_hidden_key(keys);
    lemma_hidden_key(scanned, keys);
    let viewed = shown.after_view_keys(keys, view.in_grid());
    lemma_view_keys(shown, keys, view.in_grid());
    let sized = viewed.after_size_keys(keys);
    lemma_size_keys(viewed, keys);
    let switched = sized.after_switches(keys);
    lemma_switches(sized, keys);
    lemma_overlay_keys(switched, keys);
    reveal(GuiView::video_stopped);
}

/// Keys keep the selection within the list, the marks on listed files and the active
/// video on the current entry; and they change neither the list nor what is decoded.
pub proof fn law_keys_keep_window_sound(view: GuiView, keys: Keys, now: u128)
    requires
        view.sound(),
    ensures
        view.after_input(keys, now).sound(),
        view.same_media(view.after_input(keys, now)),
{
    reveal(GuiView::after_confirm_keys);
    lemma_after_keys(view, keys, now);
}

/// Only `d` and `u` change which files are marked.
pub proof fn law_only_mark_keys_mark(view: GuiView, keys: Keys, now: u128)
    requires
        view.sound(),
        !keys.d,
        !keys.u,
    ensures
        view.after_input(keys, now).state.delete_queue == view.state.delete_queue,
{
    reveal(GuiView::after_confirm_keys);
    lemma_after_keys(view, keys, now);
}

/// Files are deleted only where the question was asked and answered with `y`, and it
/// is asked only by `ctrl+R` while files are marked.
pub proof fn law_deletion_is_confirmed(view: GuiView, keys: Keys, now: u128)
    requires
        view.sound(),
    ensures
        view.input_effects(keys, now).contains(GuiEffect::DeleteQueued)
            <==> view.state.confirm_delete && keys.y,
        !view.state.confirm_delete ==> (view.after_input(keys, now).state.confirm_delete
            <==> keys.ctrl && keys.r && view.after_input(keys, now).state.delete_queue.len() > 0),
{
    lemma_after_keys(view, keys, now);
    reveal(push_if);
    let effects = view.input_effects(keys, now);
    if !view.state.confirm_delete {
        assert(!effects.contains(GuiEffect::DeleteQueued));
    } else if keys.y {
        assert(effects[0] == GuiEffect::DeleteQueued);
    } else {
        assert(effects.len() == 0);
    }
}

/// While the question is asked, keys other than its answers do nothing, and no answer
/// but `y` leads to anything outside.
pub proof fn law_question_captures_keys(view: GuiView, keys: Keys, now: u128)
    requires
        view.state.confirm_delete,
        !keys.y,
    ensures
        view.input_effects(keys, now).len() == 0,
        !keys.n && !keys.escape ==> view.after_input(keys, now) == view,
        keys.n || keys.escape ==> !view.after_input(keys, now).state.confirm_delete
            && view.after_input(keys, now).state.delete_queue == view.state.delete_queue,
{
    reveal(GuiView::after_confirm_keys);
}

/// Without the focus no video is left running; getting the focus neither resumes nor
/// starts one.
pub proof fn law_focus_pauses_and_never_resumes(view: GuiView)
    requires
        view.window_focused,
    ensures
        !view.focus_changed(false).active_playing(),
        view.focus_changed(false).focus_changed(true).active_video == view.focus_changed(
            false,
        ).active_video,
        view.active_playing() ==> !view.focus_changed(false).selection_autoplay_armed,
        view.focus_changed(false).same_marks(view),
{
    reveal(GuiView::focus_changed);
}

/// The arrival of the focus leaves the active video as it is.
pub proof fn law_focus_gain_keeps_video(view: GuiView)
    ensures
        view.focus_changed(true).active_video == view.active_video,
        view.focus_changed(true).selection_autoplay_armed == view.selection_autoplay_armed,
{
    reveal(GuiView::focus_changed);
}

/// Once a video is started anew, nothing that the playback before it reports has any
/// effect.
pub proof fn law_replaced_playback_is_silent(
    view: GuiView,
    path: PathNames,
    start_at: u128,
    paused: bool,
    armed: bool,
    event: PlaybackEventView,
)
    requires
        event.playback_id != view.next_playback_id,
    ensures
        view.video_started(path, start_at, paused, armed).after_event(event)
            == view.video_started(path, start_at, paused, armed),
{
    reveal(GuiView::video_started);
}

proof fn lemma_next_video(entries: Seq<EntryView>, current: int)
    ensures
        next_video(entries, current) matches Some(index) ==> current < index < entries.len(),
{
    if exists|found: int| next_video_at(entries, current, found) {
        let found = choose|found: int| next_video_at(entries, current, found);
        assert(next_video_at(entries, current, found));
    }
}

/// Events of playbacks keep the window sound, and change no mark.
pub proof fn law_events_keep_window_sound(view: GuiView, event: PlaybackEventView)
    requires
        view.sound(),
    ensures
        view.after_event(event).sound(),
        view.same_marks(view.after_event(event)),
{
    if view.concerned_by(event) {
        let noted = view.event_noted(event);
        lemma_started(noted, event.path, 0, false, true);
        reveal(GuiView::next_video_selected);
        lemma_next_video(noted.state.entries, noted.state.current_index as int);
        match next_video(noted.state.entries, noted.state.current_index as int) {
            Some(index) => {
                lemma_selected(noted, index);
            },
            None => {},
        }
    }
}

/// A scan takes every mark off and forgets what was decoded, and what a decoding
/// begun before it brings is refused.
pub proof fn law_scan_starts_afresh(
    view: GuiView,
    entries: Seq<EntryView>,
    decoded: DecodedView,
)
    requires
        decoded.generation == view.scan_generation,
    ensures
        view.rescanned(entries).state.delete_queue.len() == 0,
        view.rescanned(entries).previews.slots.len() == 0,
        view.rescanned(entries).thumbs.slots.len() == 0,
        view.rescanned(entries).inflight.len() == 0,
        view.rescanned(entries).failed.len() == 0,
        view.rescanned(entries).active_video is None,
        view.rescanned(entries).after_decode(decoded) == view.rescanned(entries),
{
    reveal(GuiView::video_stopped);
    reveal(GuiView::scan_taken);
    reveal(GuiView::decoded_forgotten);
    reveal(GuiView::with_state);
    reveal(StateView::rescanned);
}

/// Showing another directory beside the browser keeps the window sound, takes every mark
/// off, and selects the file that was asked for in the preview, where it is listed.
#[verifier::rlimit(40)]
pub proof fn law_showing_a_directory_keeps_window_sound(
    view: GuiView,
    directory: PathNames,
    target: Seq<char>,
    file: Option<PathNames>,
    found: Seq<EntryView>,
)
    requires
        view.sound(),
        found.len() <= usize::MAX,
    ensures
        ({
            let shown = view.directory_shown(directory, target, file, found);
            &&& shown.sound()
            &&& shown.state.delete_queue.len() == 0
            &&& file matches Some(path) ==> lists_path(found, path) ==> shown.state.current_path()
                == Some(path)
        }),
{
    let placed = view.placed_in(directory, target);
    assert(placed.sound()) by {
        reveal(GuiView::placed_in);
        lemma_sound_like(view, placed);
    }
    let listed = placed.rescanned(found);
    assert(listed.sound() && listed.state.entries == found && listed.state.delete_queue.len()
        == 0) by {
        reveal(GuiView::video_stopped);
        reveal(GuiView::scan_taken);
        reveal(GuiView::decoded_forgotten);
        reveal(GuiView::with_state);
        law_scan_takes_marks_off(placed.state, found);
    }
    assert(listed.gridded().sound() && listed.gridded().state.delete_queue
        == listed.state.delete_queue) by {
        reveal(GuiView::gridded);
        lemma_sound_like(listed, listed.gridded());
    }
    if let Some(path) = file {
        if lists_path(found, path) {
            lemma_position_exists(found, path);
            let index = entry_position(found, path).unwrap();
            lemma_selected(listed, index);
            lemma_previewing(listed.selected(index));
            assert(listed.selected(index).previewing().state.current_index == index) by {
                reveal(GuiView::previewing);
            }
            assert(found[index].path == path);
        }
    }
}

/// A sort, a scan and a deletion keep the window sound and stop the active video.
pub proof fn law_session_changes_keep_window_sound(
    view: GuiView,
    mode: SortMode,
    sorted: Seq<EntryView>,
    found: Seq<EntryView>,
    report: ReportView,
)
    requires
        view.sound(),
        sorted_entries(view.state.entries, sorted, mode, view.locale),
        found.len() <= usize::MAX,
    ensures
        view.resorted(mode, sorted).sound(),
        view.resorted(mode, sorted).active_video is None,
        view.rescanned(found).sound(),
        view.rescanned(found).active_video is None,
        view.deleted(report).sound(),
        view.deleted(report).active_video is None,
        !view.deleted(report).state.confirm_delete,
{
    reveal(GuiView::video_stopped);
    reveal(GuiView::scan_taken);
    reveal(GuiView::decoded_forgotten);
    reveal(GuiView::with_state);
    reveal(GuiView::previewing);
    law_sorting_keeps_selection_and_marks(view.state, mode, sorted, view.locale);
    law_scan_takes_marks_off(view.state, found);
    let answered = view.state.answered();
    assert(answered.sound());
    law_deletion_keeps_state_sound(answered, report);
    assert(!after_deletion(answered, report).confirm_delete) by {
        reveal(after_deletion);
    }
}

proof fn lemma_current_alone(view: GuiView)
    requires
        view.state.sound(),
        view.state.entries.len() > 0,
        view.state.mode == ViewMode::Preview,
        view.ahead_radius() == 0,
    ensures
        view.wanted_keys() == seq![
            entry_key(
                view.state.entries[view.state.current_index as int],
                view.preview_variant(),
            ),
        ],
{
    let current = view.state.current_index as int;
    let variant = view.preview_variant();
    let indices = around(current, 0, view.state.entries.len() as int);
    assert(indices =~= seq![current]);
    assert(indices.drop_last() =~= Seq::empty());
    assert(keys_ahead(
        view.state.entries,
        indices.drop_last(),
        variant,
        current,
        view.arrived,
    ) =~= Seq::empty());
    assert(view.wanted_keys() =~= seq![entry_key(view.state.entries[current], variant)]);
}

/// While a video is paused in the preview, nothing is decoded ahead.
pub proof fn law_paused_video_decodes_nothing_ahead(view: GuiView)
    requires
        view.state.sound(),
        view.refresh_waits(),
    ensures
        view.wanted_keys() == seq![
            entry_key(
                view.state.entries[view.state.current_index as int],
                view.preview_variant(),
            ),
        ],
{
    lemma_current_alone(view);
}

proof fn lemma_keys_ahead(
    entries: Seq<EntryView>,
    indices: Seq<int>,
    variant: Variant,
    current: int,
    arrived: Seq<PathNames>,
    key: TexKeyView,
)
    requires
        keys_ahead(entries, indices, variant, current, arrived).contains(key),
        arrived.contains(key.path),
    ensures
        0 <= current < entries.len(),
        key == entry_key(entries[current], variant),
    decreases indices.len(),
{
    let all = keys_ahead(entries, indices, variant, current, arrived);
    let front = keys_ahead(entries, indices.drop_last(), variant, current, arrived);
    let at = all.index_of(key);
    if indices.len() > 0 {
        if at < front.len() {
            assert(front[at] == key);
            assert(front.contains(key));
            lemma_keys_ahead(entries, indices.drop_last(), variant, current, arrived, key);
        }
    }
}

/// The preview decodes no file ahead that a refresh added, until it is selected.
pub proof fn law_new_files_are_not_decoded_ahead(view: GuiView, key: TexKeyView)
    requires
        view.state.mode == ViewMode::Preview,
        view.wanted_keys().contains(key),
        view.arrived.contains(key.path),
    ensures
        view.state.current_path() == Some(key.path),
{
    lemma_keys_ahead(
        view.state.entries,
        view.preview_indices(),
        view.preview_variant(),
        view.state.current_index as int,
        view.arrived,
        key,
    );
}

/// In its original size only the current entry is decoded.
pub proof fn law_original_size_decodes_one(view: GuiView)
    requires
        view.state.sound(),
        view.state.entries.len() > 0,
        view.state.mode == ViewMode::Preview,
        view.state.zoom_mode == ZoomMode::OriginalPixels,
    ensures
        view.wanted_keys() == seq![
            entry_key(view.state.entries[view.state.current_index as int], Variant::Original),
        ],
{
    lemma_current_alone(view);
}

/// Each texture that is asked for is decoded once: one that is there, being decoded or
/// failed is not, and afterwards all of them are.
pub proof fn law_each_texture_is_requested_once(view: GuiView, keys: Seq<TexKeyView>)
    ensures
        view.new_requests(keys).no_duplicates(),
        forall|key: TexKeyView| #[trigger]
            view.new_requests(keys).contains(key) ==> keys.contains(key) && !view.settled(key),
        forall|key: TexKeyView| #[trigger]
            keys.contains(key) ==> view.after_requests(keys).settled(key),
        view.after_requests(keys).inflight == view.inflight + view.new_requests(keys),
        view.after_requests(keys) == (GuiView {
            inflight: view.after_requests(keys).inflight,
            ..view
        }),
    decreases keys.len(),
{
    if keys.len() > 0 {
        let front = keys.drop_last();
        let last = keys.last();
        law_each_texture_is_requested_once(view, front);
        let before = view.after_requests(front);
        let all = view.new_requests(keys);
        let asked = view.new_requests(front);
        assert(all =~= if before.settled(last) {
            asked
        } else {
            asked.push(last)
        });
        if !before.settled(last) {
            assert(!before.inflight.contains(last));
            assert(!asked.contains(last)) by {
                if asked.contains(last) {
                    let i = asked.index_of(last);
                    assert(before.inflight[view.inflight.len() + i] == last);
                }
            }
            assert(!view.settled(last)) by {
                if view.inflight.contains(last) {
                    let i = view.inflight.index_of(last);
                    assert(before.inflight[i] == last);
                }
            }
            assert(view.after_requests(keys).inflight =~= view.inflight + all);
            assert(view.after_requests(keys).inflight[before.inflight.len() as int] == last);
        } else {
            assert(view.after_requests(keys).inflight =~= view.inflight + all);
        }
        assert forall|key: TexKeyView| #[trigger] all.contains(key) implies keys.contains(key)
            && !view.settled(key) by {
            let i = all.index_of(key);
            if i < asked.len() {
                assert(asked[i] == key);
                assert(asked.contains(key));
                let j = front.index_of(key);
                assert(keys[j] == key);
            } else {
                assert(keys[keys.len() - 1] == key);
            }
        }
        assert forall|key: TexKeyView| #[trigger] keys.contains(key) implies view.after_requests(
            keys,
        ).settled(key) by {
            let j = keys.index_of(key);
            if j < front.len() {
                assert(front[j] == key);
                assert(front.contains(key));
                assert(before.settled(key));
                if before.inflight.contains(key) {
                    let i = before.inflight.index_of(key);
                    assert(view.after_requests(keys).inflight[i] == key);
                }
            }
        }
    } else {
        assert(view.inflight + view.new_requests(keys) =~= view.inflight);
    }
}

} // verus!
