//! What each key of the window does.

use vstd::prelude::*;

use crate::numbers::{clamped, most};
use crate::path::PathNames;
use crate::state::{
    law_queued_indices, lemma_marks_rise, lists_path, SortMode, StateView, ViewMode,
};

use super::playback::{law_seek_moves_by_a_tenth, seek_target, VideoSeekDirection};
use super::window::{first_above, half_page, push_if, GuiEffect, GuiView, Keys, VideoView};

verus! {

/// Whether no key is pressed that moves the selection.
pub open spec fn moves_nothing(keys: Keys) -> bool {
    &&& !keys.h && !keys.j && !keys.k && !keys.l
    &&& !keys.left && !keys.right && !keys.up && !keys.down
    &&& !keys.home && !keys.end
    &&& !(keys.ctrl && keys.d) && !(keys.ctrl && keys.u)
}

/// Whether no key is pressed that marks, plays, seeks or shows the progress.
pub open spec fn marks_nothing(keys: Keys) -> bool {
    !keys.d && !keys.space && !keys.u && !keys.o && !keys.y
}

/// Whether no key is pressed that switches something, scans or closes.
pub open spec fn switches_nothing(keys: Keys) -> bool {
    &&& !keys.r && !keys.period && !keys.g && !keys.enter && !keys.z && !keys.f
    &&& !keys.m && !keys.a && !keys.p && !keys.b && !keys.i && !keys.question
    &&& !keys.q && !keys.escape
}

proof fn lemma_no_moves(view: GuiView, keys: Keys, cols: usize, rows: usize)
    requires
        moves_nothing(keys),
    ensures
        view.after_grid_moves(keys, cols, rows) == view,
        view.after_preview_moves(keys) == view,
        view.after_jumps(keys) == view,
{
    reveal(GuiView::after_grid_moves);
    reveal(GuiView::after_preview_moves);
    reveal(GuiView::after_jumps);
}

proof fn lemma_no_marks(view: GuiView, keys: Keys, now: u128)
    requires
        marks_nothing(keys),
    ensures
        view.after_marks(keys) == view,
        view.after_seeks(keys, now) == view,
{
    reveal(GuiView::after_marks);
    reveal(GuiView::after_seeks);
}

proof fn lemma_no_escape(view: GuiView, keys: Keys)
    requires
        !keys.escape,
    ensures
        view.after_escape(keys) == view,
{
    reveal(GuiView::after_escape);
}

proof fn lemma_no_scan(view: GuiView, keys: Keys, in_grid: bool)
    ensures
        !keys.r ==> view.after_scan_key(keys) == view,
        !keys.period ==> view.after_hidden_key(keys) == view,
        !keys.g && !keys.enter ==> view.after_view_keys(keys, in_grid) == view,
{
    reveal(GuiView::after_scan_key);
    reveal(GuiView::after_view_keys);
}

proof fn lemma_no_size(view: GuiView, keys: Keys)
    requires
        !keys.z,
        !keys.f,
    ensures
        view.after_size_keys(keys) == view,
{
    reveal(GuiView::after_size_keys);
}

proof fn lemma_no_switches(view: GuiView, keys: Keys)
    requires
        !keys.m,
        !keys.a,
        !keys.p,
        !keys.b,
    ensures
        view.after_switches(keys) == view,
{
    reveal(GuiView::after_switches);
}

proof fn lemma_no_overlays(view: GuiView, keys: Keys)
    requires
        !keys.i,
        !keys.question,
    ensures
        view.after_overlay_keys(keys) == view,
{
    reveal(GuiView::after_overlay_keys);
}

proof fn lemma_switches_nothing(view: GuiView, keys: Keys, in_grid: bool)
    requires
        switches_nothing(keys),
    ensures
        view.after_scan_key(keys).after_hidden_key(keys).after_view_keys(
            keys,
            in_grid,
        ).after_size_keys(keys).after_switches(keys).after_overlay_keys(keys) == view,
{
    lemma_no_scan(view, keys, in_grid);
    lemma_no_size(view, keys);
    lemma_no_switches(view, keys);
    lemma_no_overlays(view, keys);
}

/// Where only keys are pressed that move, they alone have an effect.
proof fn lemma_only_moves(view: GuiView, keys: Keys, now: u128)
    requires
        marks_nothing(keys) || (keys.ctrl && !keys.space && !keys.o && !keys.y && !keys.shift),
        switches_nothing(keys),
        !view.state.confirm_delete,
    ensures
        ({
            let cols = most(view.grid_cols as int, 1) as usize;
            let rows = most(view.grid_rows as int, 1) as usize;
            let moved = if view.in_grid() {
                view.after_grid_moves(keys, cols, rows)
            } else {
                view.after_preview_moves(keys)
            };
            view.after_input(keys, now) == moved.after_jumps(keys)
        }),
{
    let cols = most(view.grid_cols as int, 1) as usize;
    let rows = most(view.grid_rows as int, 1) as usize;
    let moved = if view.in_grid() {
        view.after_grid_moves(keys, cols, rows)
    } else {
        view.after_preview_moves(keys)
    };
    let jumped = moved.after_jumps(keys);
    assert(jumped.after_marks(keys) == jumped) by {
        reveal(GuiView::after_marks);
    }
    assert(jumped.after_seeks(keys, now) == jumped) by {
        reveal(GuiView::after_seeks);
    }
    lemma_no_escape(view, keys);
    lemma_switches_nothing(jumped, keys, view.in_grid());
    reveal(GuiView::after_keys);
}

/// Where only keys are pressed that mark, play or seek, they alone have an effect.
proof fn lemma_only_marks(view: GuiView, keys: Keys, now: u128)
    requires
        moves_nothing(keys),
        switches_nothing(keys),
        !view.state.confirm_delete,
    ensures
        view.after_input(keys, now) == view.after_marks(keys).after_seeks(keys, now),
{
    let cols = most(view.grid_cols as int, 1) as usize;
    let rows = most(view.grid_rows as int, 1) as usize;
    lemma_no_escape(view, keys);
    lemma_no_moves(view, keys, cols, rows);
    lemma_switches_nothing(
        view.after_marks(keys).after_seeks(keys, now),
        keys,
        view.in_grid(),
    );
    reveal(GuiView::after_keys);
}

/// Where no key is pressed that moves, marks, plays, seeks or closes, the others alone have
/// an effect.
proof fn lemma_only_switches(view: GuiView, keys: Keys, now: u128)
    requires
        moves_nothing(keys),
        marks_nothing(keys),
        !keys.escape,
        !keys.q,
        !view.state.confirm_delete,
    ensures
        view.after_input(keys, now) == view.after_scan_key(keys).after_hidden_key(
            keys,
        ).after_view_keys(keys, view.in_grid()).after_size_keys(keys).after_switches(
            keys,
        ).after_overlay_keys(keys),
{
    let cols = most(view.grid_cols as int, 1) as usize;
    let rows = most(view.grid_rows as int, 1) as usize;
    lemma_no_escape(view, keys);
    lemma_no_moves(view, keys, cols, rows);
    lemma_no_marks(view, keys, now);
    reveal(GuiView::after_keys);
}

/// Whether a video is active for the current entry, and has not ended.
pub open spec fn plays_current(view: GuiView, video: VideoView) -> bool {
    &&& view.active_video == Some(video)
    &&& view.state.current_index < view.state.entries.len()
    &&& view.state.entries[view.state.current_index as int].media_kind is Video
    &&& view.state.entries[view.state.current_index as int].path == video.handle.path
    &&& !video.ended
}

/// Whether only `u` is pressed, or only `o`.
pub open spec fn only_seeks(keys: Keys, back: bool) -> bool {
    &&& moves_nothing(keys) && switches_nothing(keys)
    &&& !keys.d && !keys.space && !keys.y && !keys.ctrl
    &&& keys.u == back && keys.o == !back
}

proof fn lemma_sought_is(
    view: GuiView,
    video: VideoView,
    duration: u128,
    direction: VideoSeekDirection,
    now: u128,
)
    requires
        plays_current(view, video),
        video.duration == Some(duration),
        duration > 0,
        video.position <= duration,
    ensures
        ({
            let after = view.sought(direction, now);
            let target = seek_target(video.position as int, Some(duration), direction);
            &&& target is Some
            &&& after.active_video matches Some(next) && {
                &&& next.handle.path == video.handle.path
                &&& next.start_at == target.unwrap()
                &&& next.position == next.start_at
                &&& next.duration == Some(duration)
                &&& next.handle.controls.paused == video.handle.controls.paused
                &&& !next.handle.controls.stop
                &&& !next.ended
            }
            &&& after.state == view.state
            &&& after.status == GuiView::seek_status(direction, video.handle.controls.paused)
        }),
{
    law_seek_moves_by_a_tenth(video.position, duration);
    reveal(GuiView::sought);
    reveal(GuiView::video_started);
    reveal(GuiView::video_stopped);
    reveal(GuiView::progress_shown);
}

/// `u` rewinds the active video of the current entry by a tenth, and `o` fast-forwards it
/// by a tenth, within its ends; it goes on playing or stays paused, and says so.
pub proof fn law_seek_keys_rewind_and_advance(
    view: GuiView,
    keys: Keys,
    now: u128,
    video: VideoView,
    duration: u128,
    back: bool,
)
    requires
        !view.state.confirm_delete,
        plays_current(view, video),
        video.duration == Some(duration),
        0 < duration,
        video.position <= duration,
        only_seeks(keys, back),
    ensures
        ({
            let after = view.after_input(keys, now);
            let paused = video.handle.controls.paused;
            &&& after.state == view.state
            &&& after.active_video matches Some(next) && {
                &&& next.handle.path == video.handle.path
                &&& next.position == next.start_at
                &&& next.duration == Some(duration)
                &&& next.handle.controls.paused == paused
                &&& back ==> {
                    &&& next.start_at <= video.position
                    &&& next.start_at > 0 ==> (duration - 10 * (video.position - next.start_at))
                        * 0x20_0000_0000_0000 <= 5 * duration + 5 * 0x20_0000_0000_0000
                    &&& (10 * (video.position - next.start_at) - duration)
                        * 0x20_0000_0000_0000 <= 5 * duration + 5 * 0x20_0000_0000_0000
                }
                &&& !back ==> {
                    &&& video.position <= next.start_at <= duration
                    &&& next.start_at < duration ==> (duration - 10 * (next.start_at
                        - video.position)) * 0x20_0000_0000_0000 <= 5 * duration + 5
                        * 0x20_0000_0000_0000
                    &&& (10 * (next.start_at - video.position) - duration)
                        * 0x20_0000_0000_0000 <= 5 * duration + 5 * 0x20_0000_0000_0000
                }
            }
            &&& back && paused ==> after.status == "video "@ + "rewound"@ + " 10% ("@ + "paused"@
                + ")"@
            &&& back && !paused ==> after.status == "video "@ + "rewound"@ + " 10% ("@
                + "playing"@ + ")"@
            &&& !back && paused ==> after.status == "video "@ + "fast-forwarded"@ + " 10% ("@
                + "paused"@ + ")"@
            &&& !back && !paused ==> after.status == "video "@ + "fast-forwarded"@ + " 10% ("@
                + "playing"@ + ")"@
        }),
{
    lemma_only_marks(view, keys, now);
    law_seek_moves_by_a_tenth(video.position, duration);
    let direction = if back {
        VideoSeekDirection::Backward
    } else {
        VideoSeekDirection::Forward
    };
    lemma_sought_is(view, video, duration, direction, now);
    assert(view.after_marks(keys) == view) by {
        reveal(GuiView::after_marks);
    }
    assert(view.after_seeks(keys, now) == view.sought(direction, now)) by {
        reveal(GuiView::after_seeks);
    }
}

/// A video whose duration is not known is not sought.
pub proof fn law_unknown_durations_are_not_sought(
    view: GuiView,
    keys: Keys,
    now: u128,
    video: VideoView,
    back: bool,
)
    requires
        !view.state.confirm_delete,
        plays_current(view, video),
        video.duration is None || video.duration == Some(0u128),
        only_seeks(keys, back),
    ensures
        view.after_input(keys, now).active_video == view.active_video,
        view.after_input(keys, now).state == view.state,
        view.after_input(keys, now).status == "video duration unavailable"@,
{
    lemma_only_marks(view, keys, now);
    assert(view.after_marks(keys) == view) by {
        reveal(GuiView::after_marks);
    }
    reveal(GuiView::after_seeks);
    reveal(GuiView::sought);
}

/// What a selection does: the index is selected, and nothing else of the session changes.
pub proof fn lemma_selected_state(view: GuiView, index: int)
    requires
        0 <= index < view.state.entries.len(),
        view.state.entries.len() <= usize::MAX,
    ensures
        view.selected(index).state == (StateView {
            current_index: index as usize,
            ..view.state
        }),
        view.selected(index).selection_autoplay_armed == view.selection_autoplay_armed,
        view.selected(index).auto_next == view.auto_next,
        view.selected(index).repeat == view.repeat,
        view.selected(index).video_muted == view.video_muted,
{
    reveal(GuiView::selected);
    reveal(GuiView::selection_changed);
    reveal(GuiView::autoplayed);
    reveal(GuiView::video_started);
    reveal(GuiView::video_stopped);
}

/// Selecting another entry stops the active video; a video that is selected plays from its
/// start where the session is armed to do so, and nothing plays otherwise. Selecting the
/// current entry again leaves the active video as it is.
pub proof fn law_selection_plays_armed_videos(view: GuiView, index: int)
    requires
        0 <= index < view.state.entries.len(),
        view.state.entries.len() <= usize::MAX,
    ensures
        view.selected(index).state.current_index == index,
        index == view.state.current_index ==> view.selected(index).active_video
            == view.active_video,
        index != view.state.current_index && (!view.selection_autoplay_armed || !(
        view.state.entries[index].media_kind is Video)) ==> view.selected(index).active_video
            is None,
        index != view.state.current_index && view.selection_autoplay_armed
            && view.state.entries[index].media_kind is Video ==> (view.selected(
            index,
        ).active_video matches Some(video) && {
            &&& video.handle.path == view.state.entries[index].path
            &&& video.start_at == 0 && video.position == 0
            &&& !video.handle.controls.paused && !video.ended
            &&& video.handle.controls.muted == view.video_muted
        }),
{
    lemma_selected_state(view, index);
    reveal(GuiView::selected);
    reveal(GuiView::selection_changed);
    reveal(GuiView::autoplayed);
    reveal(GuiView::video_started);
    reveal(GuiView::video_stopped);
}

proof fn lemma_moved_state(view: GuiView, step: int)
    requires
        view.state.entries.len() <= usize::MAX,
        view.state.mode != ViewMode::DeleteQueueGrid,
    ensures
        view.state.entries.len() > 0 ==> view.moved_by(step).state == (StateView {
            current_index: clamped(
                view.state.current_index + step,
                0,
                view.state.entries.len() - 1,
            ) as usize,
            ..view.state
        }),
        view.state.entries.len() == 0 ==> view.moved_by(step) == view,
{
    reveal(GuiView::moved_by);
    if view.state.entries.len() > 0 {
        lemma_selected_state(
            view,
            clamped(view.state.current_index + step, 0, view.state.entries.len() - 1),
        );
    }
}

/// Whether keys of one direction alone are pressed: on or back by one entry.
pub open spec fn only_steps(keys: Keys, on: bool) -> bool {
    &&& marks_nothing(keys) && switches_nothing(keys)
    &&& !keys.home && !keys.end && !keys.ctrl
    &&& (keys.l || keys.j || keys.right || keys.down) == on
    &&& (keys.h || keys.k || keys.left || keys.up) == !on
}

/// In the preview `l`, `j`, right and down select the next file, and `h`, `k`, left and up
/// the previous one; there is none behind the last one, nor before the first.
pub proof fn law_preview_keys_step(view: GuiView, keys: Keys, now: u128, on: bool)
    requires
        view.state.sound(),
        !view.state.confirm_delete,
        view.state.mode == ViewMode::Preview,
        view.state.entries.len() > 0,
        only_steps(keys, on),
    ensures
        ({
            let before = view.state.current_index;
            let after = view.after_input(keys, now).state.current_index;
            &&& on && before + 1 < view.state.entries.len() ==> after == before + 1
            &&& on && before + 1 == view.state.entries.len() ==> after == before
            &&& !on && before > 0 ==> after == before - 1
            &&& !on && before == 0 ==> after == 0
        }),
        view.after_input(keys, now).state.delete_queue == view.state.delete_queue,
        view.after_input(keys, now).state.mode == ViewMode::Preview,
{
    lemma_only_moves(view, keys, now);
    let step = if on {
        1int
    } else {
        -1int
    };
    lemma_moved_state(view, step);
    reveal(GuiView::after_preview_moves);
    let moved = view.after_preview_moves(keys);
    assert(moved == view.moved_by(step));
    assert(moved.after_jumps(keys) == moved) by {
        reveal(GuiView::after_jumps);
    }
}

/// Whether one of the directions of the grid alone is asked for: left, right, up, down, or
/// half a page down or up.
pub open spec fn only_grid_step(keys: Keys, direction: int) -> bool {
    &&& switches_nothing(keys) && !keys.space && !keys.o && !keys.y && !keys.shift
    &&& !keys.home && !keys.end
    &&& (keys.h || keys.left) == (direction == 0)
    &&& (keys.l || keys.right) == (direction == 1)
    &&& (keys.k || keys.up) == (direction == 2)
    &&& (keys.j || keys.down) == (direction == 3)
    &&& keys.d == (direction == 4)
    &&& keys.u == (direction == 5)
    &&& keys.ctrl == (direction == 4 || direction == 5)
}

/// In the grid `h` and `l` move by a cell, `k` and `j` by a row, and `ctrl+u` and `ctrl+d`
/// by half of the shown rows, at least by one; up and left towards the first file, and no
/// further than to the first or the last.
pub proof fn law_grid_keys_move(view: GuiView, keys: Keys, now: u128, direction: int)
    requires
        view.state.sound(),
        !view.state.confirm_delete,
        view.state.mode == ViewMode::Grid,
        view.state.entries.len() > 0,
        0 <= direction <= 5,
        only_grid_step(keys, direction),
        view.grid_cols >= 1,
        view.grid_rows >= 1,
    ensures
        ({
            let before = view.state.current_index as int;
            let after = view.after_input(keys, now).state.current_index as int;
            let last = view.state.entries.len() - 1;
            let cols = view.grid_cols as int;
            let half = if view.grid_rows <= 1 {
                cols
            } else {
                (view.grid_rows as int / 2) * cols
            };
            &&& direction == 0 ==> after == if before > 0 {
                before - 1
            } else {
                0
            }
            &&& direction == 1 ==> after == if before < last {
                before + 1
            } else {
                last
            }
            &&& direction == 2 ==> after == if before >= cols {
                before - cols
            } else {
                0
            }
            &&& direction == 3 ==> after == if before + cols <= last {
                before + cols
            } else {
                last
            }
            &&& direction == 4 ==> after == if before + half <= last {
                before + half
            } else {
                last
            }
            &&& direction == 5 ==> after == if before >= half {
                before - half
            } else {
                0
            }
        }),
        view.after_input(keys, now).state.delete_queue == view.state.delete_queue,
        view.after_input(keys, now).state.mode == ViewMode::Grid,
{
    let cols = most(view.grid_cols as int, 1) as usize;
    let rows = most(view.grid_rows as int, 1) as usize;
    lemma_only_moves(view, keys, now);
    let exact = most(rows as int / 2, 1) * cols;
    assert(exact >= cols) by (nonlinear_arith)
        requires
            exact == most(rows as int / 2, 1) * cols,
            most(rows as int / 2, 1) >= 1,
            cols >= 0,
    ;
    let half = half_page(cols, rows);
    let step = if direction == 0 {
        -1int
    } else if direction == 1 {
        1int
    } else if direction == 2 {
        -(cols as int)
    } else if direction == 3 {
        cols as int
    } else if direction == 4 {
        half
    } else {
        -half
    };
    lemma_moved_state(view, step);
    reveal(GuiView::after_grid_moves);
    let moved = view.after_grid_moves(keys, cols, rows);
    assert(moved == view.moved_by(step));
    assert(moved.after_jumps(keys) == moved) by {
        reveal(GuiView::after_jumps);
    }
    if rows > 1 {
        assert(most(rows as int / 2, 1) == rows as int / 2);
    } else {
        assert(most(rows as int / 2, 1) == 1);
        assert(1 * cols == cols);
    }
}

/// `home` selects the first file, and `end` the last one, outside of the view of the
/// delete queue.
pub proof fn law_home_and_end_jump(view: GuiView, keys: Keys, now: u128, home: bool)
    requires
        view.state.sound(),
        !view.state.confirm_delete,
        view.state.mode != ViewMode::DeleteQueueGrid,
        view.state.entries.len() > 0,
        marks_nothing(keys),
        switches_nothing(keys),
        !keys.h && !keys.j && !keys.k && !keys.l,
        !keys.left && !keys.right && !keys.up && !keys.down,
        keys.home == home,
        keys.end == !home,
    ensures
        home ==> view.after_input(keys, now).state.current_index == 0,
        !home ==> view.after_input(keys, now).state.current_index == view.state.entries.len() - 1,
        view.after_input(keys, now).state.mode == view.state.mode,
{
    let cols = most(view.grid_cols as int, 1) as usize;
    let rows = most(view.grid_rows as int, 1) as usize;
    lemma_only_moves(view, keys, now);
    assert(view.after_grid_moves(keys, cols, rows) == view) by {
        reveal(GuiView::after_grid_moves);
    }
    assert(view.after_preview_moves(keys) == view) by {
        reveal(GuiView::after_preview_moves);
    }
    reveal(GuiView::after_jumps);
    reveal(GuiView::first_selected);
    reveal(GuiView::last_selected);
    lemma_selected_state(view, 0);
    lemma_selected_state(view, view.state.entries.len() - 1);
}

/// `d` marks the current file behind those that are marked, or takes its mark off, leaves
/// all other marks, and selects the next file.
pub proof fn law_mark_key_marks_and_steps(view: GuiView, keys: Keys, now: u128)
    requires
        view.state.sound(),
        !view.state.confirm_delete,
        view.state.mode != ViewMode::DeleteQueueGrid,
        view.state.entries.len() > 0,
        moves_nothing(keys),
        switches_nothing(keys),
        keys.d && !keys.ctrl && !keys.shift,
        !keys.space && !keys.u && !keys.o && !keys.y,
    ensures
        ({
            let path = view.state.entries[view.state.current_index as int].path;
            let after = view.after_input(keys, now).state;
            &&& after.delete_queue.contains(path) == !view.state.delete_queue.contains(path)
            &&& forall|other: PathNames|
                other != path ==> (#[trigger] after.delete_queue.contains(other)
                    == view.state.delete_queue.contains(other))
            &&& !view.state.delete_queue.contains(path) ==> after.delete_queue
                == view.state.delete_queue.push(path)
            &&& view.state.current_index + 1 < view.state.entries.len() ==> after.current_index
                == view.state.current_index + 1
            &&& view.state.current_index + 1 == view.state.entries.len() ==> after.current_index
                == view.state.current_index
            &&& after.entries == view.state.entries
        }),
{
    lemma_only_marks(view, keys, now);
    let path = view.state.entries[view.state.current_index as int].path;
    let marked = view.mark_toggled();
    assert(marked.state == view.state.queue_toggled()) by {
        reveal(GuiView::mark_toggled);
    }
    assert(view.after_marks(keys) == marked.next_selected()) by {
        reveal(GuiView::after_marks);
    }
    let done = marked.next_selected();
    assert(done.after_seeks(keys, now) == done) by {
        reveal(GuiView::after_seeks);
    }
    assert(done == marked.moved_by(1)) by {
        reveal(GuiView::next_selected);
    }
    lemma_moved_state(marked, 1);
    crate::queue::lemma_removed_distinct(view.state.delete_queue, path);
    let queue = view.state.delete_queue;
    assert forall|other: PathNames| other != path implies (#[trigger] queue.push(path).contains(
        other,
    ) == queue.contains(other)) by {
        if queue.contains(other) {
            let k = queue.index_of(other);
            assert(queue.push(path)[k] == other);
        }
    }
    assert(queue.push(path)[queue.len() as int] == path);
}

/// `u` takes the mark of the current file off where no video of it can be sought, and
/// leaves all other marks and the selection.
pub proof fn law_unmark_key_unmarks(view: GuiView, keys: Keys, now: u128)
    requires
        view.state.sound(),
        !view.state.confirm_delete,
        view.state.entries.len() > 0,
        view.active_video is None,
        only_seeks(keys, true),
    ensures
        ({
            let path = view.state.entries[view.state.current_index as int].path;
            let after = view.after_input(keys, now).state;
            &&& !after.delete_queue.contains(path)
            &&& forall|other: PathNames|
                other != path ==> (#[trigger] after.delete_queue.contains(other)
                    == view.state.delete_queue.contains(other))
            &&& after.current_index == view.state.current_index
            &&& after.entries == view.state.entries
        }),
{
    lemma_only_marks(view, keys, now);
    let path = view.state.entries[view.state.current_index as int].path;
    assert(view.after_marks(keys) == view) by {
        reveal(GuiView::after_marks);
    }
    assert(view.after_seeks(keys, now) == view.unmarked()) by {
        reveal(GuiView::after_seeks);
    }
    assert(view.unmarked().state == view.state.unqueued()) by {
        reveal(GuiView::unmarked);
    }
    crate::queue::lemma_removed_distinct(view.state.delete_queue, path);
}

/// The space bar on a video pauses it while it plays, resumes it while it is paused, and
/// starts it from its beginning where it is not active or has ended.
pub proof fn law_space_plays_and_pauses(view: GuiView, keys: Keys, now: u128)
    requires
        !view.state.confirm_delete,
        moves_nothing(keys),
        switches_nothing(keys),
        keys.space && !keys.d && !keys.u && !keys.o && !keys.y,
        view.state.current_index < view.state.entries.len(),
        view.state.entries[view.state.current_index as int].media_kind is Video,
    ensures
        ({
            let path = view.state.entries[view.state.current_index as int].path;
            let after = view.after_input(keys, now);
            let mine = view.active_video matches Some(video) && video.handle.path == path
                && !video.ended;
            &&& after.state == view.state
            &&& mine ==> (after.active_video matches Some(next) && {
                let video = view.active_video.unwrap();
                &&& next.handle.controls.paused == !video.handle.controls.paused
                &&& next.handle.id == video.handle.id
                &&& next.handle.path == path
                &&& next.position == video.position
                &&& next.duration == video.duration
                &&& after.selection_autoplay_armed == video.handle.controls.paused
            })
            &&& !mine ==> (after.active_video matches Some(next) && {
                &&& next.handle.path == path
                &&& next.start_at == 0
                &&& !next.handle.controls.paused
                &&& next.handle.controls.muted == view.video_muted
                &&& after.selection_autoplay_armed
            })
        }),
{
    lemma_only_marks(view, keys, now);
    assert(view.after_marks(keys) == view.playback_toggled()) by {
        reveal(GuiView::after_marks);
    }
    let done = view.playback_toggled();
    assert(done.after_seeks(keys, now) == done) by {
        reveal(GuiView::after_seeks);
    }
    reveal(GuiView::playback_toggled);
    reveal(GuiView::video_started);
    reveal(GuiView::video_stopped);
}

/// The space bar on an image does nothing.
pub proof fn law_space_leaves_images(view: GuiView, keys: Keys, now: u128)
    requires
        !view.state.confirm_delete,
        moves_nothing(keys),
        switches_nothing(keys),
        keys.space && !keys.d && !keys.u && !keys.o && !keys.y,
        view.state.current_index < view.state.entries.len() ==> !(
        view.state.entries[view.state.current_index as int].media_kind is Video),
    ensures
        view.after_input(keys, now) == view,
{
    lemma_only_marks(view, keys, now);
    reveal(GuiView::after_marks);
    reveal(GuiView::after_seeks);
}

/// `y` shows the progress of the current video in the preview, for two seconds.
pub proof fn law_progress_is_shown_for_two_seconds(
    view: GuiView,
    keys: Keys,
    now: u128,
    video: VideoView,
)
    requires
        !view.state.confirm_delete,
        moves_nothing(keys),
        switches_nothing(keys),
        keys.y && !keys.d && !keys.u && !keys.o && !keys.space,
        view.state.mode == ViewMode::Preview,
        plays_current(view, video),
        video.duration matches Some(duration) && duration > 0,
        now <= u128::MAX - 2_000_000_000,
    ensures
        view.after_input(keys, now).video_progress_overlay_visible_until == now + 2_000_000_000,
        view.after_input(keys, now).active_video == view.active_video,
        view.after_input(keys, now).state == view.state,
{
    lemma_only_marks(view, keys, now);
    assert(view.after_marks(keys) == view) by {
        reveal(GuiView::after_marks);
    }
    reveal(GuiView::after_seeks);
    reveal(GuiView::progress_shown);
}

/// `shift+D` shows the delete queue; a marked file is selected then, where there is one,
/// and the marks stay.
pub proof fn law_queue_key_shows_the_queue(view: GuiView, keys: Keys, now: u128)
    requires
        view.state.sound(),
        !view.state.confirm_delete,
        moves_nothing(keys),
        switches_nothing(keys),
        keys.shift && keys.d && !keys.ctrl && !keys.space && !keys.u && !keys.o && !keys.y,
    ensures
        ({
            let after = view.after_input(keys, now).state;
            &&& after.mode == ViewMode::DeleteQueueGrid
            &&& after.delete_queue == view.state.delete_queue
            &&& after.entries == view.state.entries
            &&& view.state.delete_queue.len() > 0 ==> after.current_index < after.entries.len()
                && after.delete_queue.contains(after.entries[after.current_index as int].path)
        }),
{
    lemma_only_marks(view, keys, now);
    let shown = view.queue_shown();
    assert(view.after_marks(keys) == shown) by {
        reveal(GuiView::after_marks);
    }
    assert(shown.after_seeks(keys, now) == shown) by {
        reveal(GuiView::after_seeks);
    }
    let next = view.state.showing_queue();
    assert(shown.state == next) by {
        reveal(GuiView::queue_shown);
        reveal(GuiView::selection_changed);
        reveal(GuiView::autoplayed);
        reveal(GuiView::video_started);
        reveal(GuiView::video_stopped);
    }
    let queue = view.state.delete_queue;
    law_queued_indices(view.state.entries, queue, view.state.entries.len());
    let indices = view.state.queued_indices();
    if queue.len() > 0 {
        assert(queue.contains(queue[0]));
        assert(lists_path(view.state.entries, queue[0]));
        let k = choose|k: int|
            0 <= k < view.state.entries.len() && (#[trigger] view.state.entries[k]).path
                == queue[0];
        assert(indices.contains(k as usize));
        assert(indices.contains(indices.first()));
    }
}

/// `ctrl+R` asks whether to delete the marked files, where there are any, and deletes
/// nothing yet; `shift+R` scans again; `r` scans again with subfolders switched, unless
/// files were selected explicitly.
pub proof fn law_scan_keys(view: GuiView, keys: Keys, now: u128)
    requires
        !view.state.confirm_delete,
        moves_nothing(keys),
        marks_nothing(keys),
        keys.r,
        !keys.period && !keys.g && !keys.enter && !keys.z && !keys.f,
        !keys.m && !keys.a && !keys.p && !keys.b && !keys.i && !keys.question,
        !keys.q && !keys.escape && !keys.t && !keys.n,
    ensures
        ({
            let after = view.after_input(keys, now);
            let effects = view.input_effects(keys, now);
            &&& keys.ctrl ==> {
                &&& effects.len() == 0
                &&& after.state.confirm_delete == (view.state.delete_queue.len() > 0)
                &&& after.state.recursive == view.state.recursive
            }
            &&& !keys.ctrl ==> {
                &&& effects == seq![GuiEffect::Rescan]
                &&& !after.state.confirm_delete
                &&& after.state.recursive == if keys.shift || view.state.selected_files is Some {
                    view.state.recursive
                } else {
                    !view.state.recursive
                }
            }
            &&& after.state.delete_queue == view.state.delete_queue
            &&& after.state.entries == view.state.entries
        }),
{
    lemma_only_switches(view, keys, now);
    let scanned = view.after_scan_key(keys);
    lemma_no_scan(scanned, keys, view.in_grid());
    lemma_no_size(scanned, keys);
    lemma_no_switches(scanned, keys);
    lemma_no_overlays(scanned, keys);
    reveal(GuiView::after_scan_key);
    reveal(GuiView::confirming);
    reveal(GuiView::recursion_switched);
    reveal(push_if);
}

/// `.` shows or hides hidden files, and scans again.
pub proof fn law_hidden_key(view: GuiView, keys: Keys, now: u128)
    requires
        !view.state.confirm_delete,
        moves_nothing(keys),
        marks_nothing(keys),
        keys.period,
        !keys.r && !keys.g && !keys.enter && !keys.z && !keys.f,
        !keys.m && !keys.a && !keys.p && !keys.b && !keys.i && !keys.question,
        !keys.q && !keys.escape && !keys.t && !keys.n,
    ensures
        view.after_input(keys, now).state.include_hidden == !view.state.include_hidden,
        view.after_input(keys, now).state.recursive == view.state.recursive,
        view.input_effects(keys, now) == seq![GuiEffect::Rescan],
{
    lemma_only_switches(view, keys, now);
    lemma_no_scan(view, keys, view.in_grid());
    let shown = view.after_hidden_key(keys);
    lemma_no_scan(shown, keys, view.in_grid());
    lemma_no_size(shown, keys);
    lemma_no_switches(shown, keys);
    lemma_no_overlays(shown, keys);
    reveal(GuiView::hidden_switched);
    reveal(push_if);
}

/// `g` switches between the preview and the grid, and `enter` opens the highlighted file
/// of a grid in the preview; both leave the selection.
pub proof fn law_view_keys(view: GuiView, keys: Keys, now: u128)
    requires
        !view.state.confirm_delete,
        moves_nothing(keys),
        marks_nothing(keys),
        keys.g != keys.enter,
        !keys.r && !keys.period && !keys.z && !keys.f,
        !keys.m && !keys.a && !keys.p && !keys.b && !keys.i && !keys.question,
        !keys.q && !keys.escape && !keys.t && !keys.n,
    ensures
        keys.g && view.state.mode == ViewMode::Preview ==> view.after_input(keys, now).state.mode
            == ViewMode::Grid,
        keys.g && view.state.mode != ViewMode::Preview ==> view.after_input(keys, now).state.mode
            == ViewMode::Preview,
        keys.enter && (view.state.mode == ViewMode::Grid || view.state.mode
            == ViewMode::DeleteQueueGrid) ==> view.after_input(keys, now).state.mode
            == ViewMode::Preview,
        keys.enter && view.state.mode == ViewMode::Preview ==> view.after_input(keys, now)
            == view,
        view.after_input(keys, now).state.current_index == view.state.current_index,
        view.after_input(keys, now).state.delete_queue == view.state.delete_queue,
        view.input_effects(keys, now).len() == 0,
{
    lemma_only_switches(view, keys, now);
    lemma_no_scan(view, keys, view.in_grid());
    let shown = view.after_view_keys(keys, view.in_grid());
    lemma_no_size(shown, keys);
    lemma_no_switches(shown, keys);
    lemma_no_overlays(shown, keys);
    reveal(GuiView::after_view_keys);
    reveal(GuiView::view_switched);
    reveal(GuiView::previewing);
    reveal(push_if);
}

/// `z` switches between fit and actual size, and `f` switches full screen and has the
/// window do so.
pub proof fn law_size_keys(view: GuiView, keys: Keys, now: u128)
    requires
        !view.state.confirm_delete,
        moves_nothing(keys),
        marks_nothing(keys),
        !keys.r && !keys.period && !keys.g && !keys.enter,
        !keys.m && !keys.a && !keys.p && !keys.b && !keys.i && !keys.question,
        !keys.q && !keys.escape && !keys.t && !keys.n,
    ensures
        keys.z ==> view.after_input(keys, now).state.zoom_mode != view.state.zoom_mode,
        !keys.z ==> view.after_input(keys, now).state.zoom_mode == view.state.zoom_mode,
        view.after_input(keys, now).fullscreen == (view.fullscreen != keys.f),
        keys.f ==> view.input_effects(keys, now) == seq![GuiEffect::Fullscreen(!view.fullscreen)],
        !keys.f ==> view.input_effects(keys, now).len() == 0,
        view.after_input(keys, now).state.current_index == view.state.current_index,
{
    lemma_only_switches(view, keys, now);
    lemma_no_scan(view, keys, view.in_grid());
    let sized = view.after_size_keys(keys);
    lemma_no_switches(sized, keys);
    lemma_no_overlays(sized, keys);
    reveal(GuiView::after_size_keys);
    reveal(push_if);
}

/// `m` switches the sound, also of the active video, `a` advancing, `p` repeating, and `b`
/// the badges; each leaves the others.
#[verifier::rlimit(40)]
pub proof fn law_switch_keys(view: GuiView, keys: Keys, now: u128)
    requires
        !view.state.confirm_delete,
        moves_nothing(keys),
        marks_nothing(keys),
        !keys.r && !keys.period && !keys.g && !keys.enter && !keys.z && !keys.f,
        !keys.i && !keys.question,
        !keys.q && !keys.escape && !keys.t && !keys.n,
    ensures
        ({
            let after = view.after_input(keys, now);
            &&& after.video_muted == (view.video_muted != keys.m)
            &&& after.auto_next == (view.auto_next != keys.a)
            &&& after.repeat == (view.repeat != keys.p)
            &&& after.media_type_badges_visible == (view.media_type_badges_visible != keys.b)
            &&& after.state == view.state
            &&& !keys.m ==> after.active_video == view.active_video
            &&& keys.m ==> match view.active_video {
                Some(video) => after.active_video matches Some(next) && next.handle.controls.muted
                    == !view.video_muted && next.handle.controls.paused
                    == video.handle.controls.paused && next.handle.id == video.handle.id
                    && next.position == video.position,
                None => after.active_video is None,
            }
        }),
        view.input_effects(keys, now).len() == 0,
{
    lemma_only_switches(view, keys, now);
    lemma_no_scan(view, keys, view.in_grid());
    lemma_no_size(view, keys);
    let switched = view.after_switches(keys);
    lemma_no_overlays(switched, keys);
    reveal(GuiView::after_switches);
    reveal(GuiView::mute_toggled);
    reveal(GuiView::auto_next_toggled);
    reveal(GuiView::repeat_toggled);
    reveal(GuiView::badges_toggled);
    reveal(push_if);
}

/// `i` and `?` show or hide the info and the help; where the info comes up, what it shows
/// of the current file is read first.
pub proof fn law_overlay_keys(view: GuiView, keys: Keys, now: u128)
    requires
        !view.state.confirm_delete,
        moves_nothing(keys),
        marks_nothing(keys),
        !keys.r && !keys.period && !keys.g && !keys.enter && !keys.z && !keys.f,
        !keys.m && !keys.a && !keys.p && !keys.b,
        !keys.q && !keys.escape && !keys.t && !keys.n,
    ensures
        view.after_input(keys, now).state.show_info_overlay == (view.state.show_info_overlay
            != keys.i),
        view.after_input(keys, now).state.show_help_overlay == (view.state.show_help_overlay
            != keys.question),
        keys.i && !view.state.show_info_overlay ==> view.input_effects(keys, now)
            == seq![GuiEffect::EnrichCurrent],
        !(keys.i && !view.state.show_info_overlay) ==> view.input_effects(keys, now).len() == 0,
{
    lemma_only_switches(view, keys, now);
    lemma_no_scan(view, keys, view.in_grid());
    lemma_no_size(view, keys);
    lemma_no_switches(view, keys);
    reveal(GuiView::after_overlay_keys);
    reveal(push_if);
}

/// `t` asks for the newest first, and for the oldest first where the newest are; `n` asks
/// for the names from A to Z, and from Z to A where they are; neither changes the window
/// before that is done.
pub proof fn law_sort_keys(view: GuiView, keys: Keys, now: u128)
    requires
        !view.state.confirm_delete,
        moves_nothing(keys),
        marks_nothing(keys),
        switches_nothing(keys),
        keys.t != keys.n,
    ensures
        view.after_input(keys, now) == view,
        keys.t && view.state.sort_mode != SortMode::Newest ==> view.input_effects(keys, now)
            == seq![GuiEffect::Sort(SortMode::Newest)],
        keys.t && view.state.sort_mode == SortMode::Newest ==> view.input_effects(keys, now)
            == seq![GuiEffect::Sort(SortMode::Oldest)],
        keys.n && view.state.sort_mode != SortMode::NameAsc ==> view.input_effects(keys, now)
            == seq![GuiEffect::Sort(SortMode::NameAsc)],
        keys.n && view.state.sort_mode == SortMode::NameAsc ==> view.input_effects(keys, now)
            == seq![GuiEffect::Sort(SortMode::NameDesc)],
{
    lemma_only_switches(view, keys, now);
    lemma_switches_nothing(view, keys, view.in_grid());
    reveal(push_if);
}

/// `q` closes the window. `escape` closes the overlays where one is shown, else leaves the
/// grid for the preview, else closes the window.
#[verifier::rlimit(40)]
pub proof fn law_leaving_keys(view: GuiView, keys: Keys, now: u128)
    requires
        !view.state.confirm_delete,
        moves_nothing(keys),
        marks_nothing(keys),
        !keys.r && !keys.period && !keys.g && !keys.enter && !keys.z && !keys.f,
        !keys.m && !keys.a && !keys.p && !keys.b && !keys.i && !keys.question,
        !keys.t && !keys.n,
        keys.q != keys.escape,
    ensures
        ({
            let after = view.after_input(keys, now);
            let overlay = view.state.show_help_overlay || view.state.show_info_overlay;
            let closes = view.input_effects(keys, now) == seq![GuiEffect::Close];
            &&& keys.q ==> closes
            &&& keys.escape && overlay ==> {
                &&& !after.state.show_help_overlay && !after.state.show_info_overlay
                &&& after.state.mode == view.state.mode
                &&& view.input_effects(keys, now).len() == 0
            }
            &&& keys.escape && !overlay && view.state.mode != ViewMode::Preview ==> {
                &&& after.state.mode == ViewMode::Preview
                &&& view.input_effects(keys, now).len() == 0
            }
            &&& keys.escape && !overlay && view.state.mode == ViewMode::Preview ==> closes
            &&& after.state.delete_queue == view.state.delete_queue
        }),
{
    let cols = most(view.grid_cols as int, 1) as usize;
    let rows = most(view.grid_rows as int, 1) as usize;
    let escaped = view.after_escape(keys);
    assert(!view.in_grid() ==> view.state.mode == ViewMode::Preview);
    assert(escaped.state.delete_queue == view.state.delete_queue && (keys.escape && (
    view.state.show_help_overlay || view.state.show_info_overlay) ==> escaped.state
        == (StateView {
        show_help_overlay: false,
        show_info_overlay: false,
        ..view.state
    })) && (keys.escape && !view.state.show_help_overlay && !view.state.show_info_overlay
        && view.in_grid() ==> escaped.state.mode == ViewMode::Preview)) by {
        reveal(GuiView::after_escape);
        reveal(GuiView::previewing);
    }
    lemma_no_moves(escaped, keys, cols, rows);
    lemma_no_marks(escaped, keys, now);
    lemma_no_scan(escaped, keys, view.in_grid());
    lemma_no_size(escaped, keys);
    lemma_no_switches(escaped, keys);
    lemma_no_overlays(escaped, keys);
    assert(escaped.video_stopped().state == escaped.state) by {
        reveal(GuiView::video_stopped);
    }
    assert(view.after_input(keys, now).state == escaped.state) by {
        reveal(GuiView::after_keys);
    }
    reveal(push_if);
}

/// While the deletion is to be confirmed, `y` deletes and nothing else, `n` and `escape`
/// cancel; the marks stay until then.
pub proof fn law_confirmation_keys(view: GuiView, keys: Keys, now: u128)
    requires
        view.state.confirm_delete,
    ensures
        keys.y ==> view.input_effects(keys, now) == seq![GuiEffect::DeleteQueued]
            && view.after_input(keys, now) == view,
        !keys.y ==> view.input_effects(keys, now).len() == 0,
        !keys.y && (keys.n || keys.escape) ==> !view.after_input(keys, now).state.confirm_delete,
        !keys.y && !keys.n && !keys.escape ==> view.after_input(keys, now) == view,
        view.after_input(keys, now).state.delete_queue == view.state.delete_queue,
        view.after_input(keys, now).state.entries == view.state.entries,
{
    reveal(GuiView::after_confirm_keys);
}


/// In the view of the delete queue the selection moves from one marked file to the next or
/// the previous one, leaving out none, and stops at the first and the last.
pub proof fn law_queue_view_steps_to_the_next_mark(view: GuiView, j: int)
    requires
        view.state.sound(),
        view.state.mode == ViewMode::DeleteQueueGrid,
        view.state.current_queued(),
        0 <= j < view.state.entries.len(),
        view.state.delete_queue.contains(view.state.entries[j].path),
    ensures
        ({
            let at = view.state.current_index as int;
            let on = view.moved_by(1).state.current_index;
            let back = view.moved_by(-1).state.current_index;
            &&& on >= at && back <= at
            &&& j > at ==> at < on <= j
            &&& j < at ==> j <= back < at
            &&& view.first_selected().state.current_index <= j
                <= view.last_selected().state.current_index
            &&& j > at ==> view.next_selected().state.current_index == on
        }),
{
    let at = view.state.current_index as int;
    let indices = view.state.queued_indices();
    lemma_marks_rise(view.state, at, j);
    let p = indices.index_of(at as usize);
    reveal(GuiView::moved_by);
    reveal(GuiView::next_selected);
    reveal(GuiView::first_selected);
    reveal(GuiView::last_selected);
    lemma_selected_state(view, indices[clamped(p + 1, 0, indices.len() - 1)] as int);
    lemma_selected_state(view, indices[clamped(p - 1, 0, indices.len() - 1)] as int);
    lemma_selected_state(view, indices.first() as int);
    lemma_selected_state(view, indices.last() as int);
    if j > at {
        law_queued_indices(
            view.state.entries,
            view.state.delete_queue,
            view.state.entries.len(),
        );
        lemma_first_above_is_next(indices, p);
    }
}

/// In a rising list, the first number above one of them is the one behind it.
proof fn lemma_first_above_is_next(indices: Seq<usize>, p: int)
    requires
        0 <= p < indices.len() - 1,
        forall|i: int, k: int|
            0 <= i < k < indices.len() ==> #[trigger] indices[i] < #[trigger] indices[k],
    ensures
        first_above(indices, indices[p]) == Some(indices[p + 1]),
    decreases indices.len(),
{
    let front = indices.drop_last();
    assert forall|i: int, k: int| 0 <= i < k < front.len() implies #[trigger] front[i]
        < #[trigger] front[k] by {
        assert(indices[i] < indices[k]);
    }
    if p + 1 < front.len() {
        lemma_first_above_is_next(front, p);
    } else {
        lemma_none_above(front, indices[p]);
    }
}

proof fn lemma_none_above(indices: Seq<usize>, bound: usize)
    requires
        forall|i: int| 0 <= i < indices.len() ==> #[trigger] indices[i] <= bound,
    ensures
        first_above(indices, bound) is None,
    decreases indices.len(),
{
    if indices.len() > 0 {
        let front = indices.drop_last();
        assert forall|i: int| 0 <= i < front.len() implies #[trigger] front[i] <= bound by {
            assert(indices[i] <= bound);
        }
        lemma_none_above(front, bound);
        assert(indices[indices.len() - 1] <= bound);
    }
}

/// A video that is started plays from the position that was asked for, or waits there, with
/// the sound that the window has; it has a number of its own, and nothing is shown of it
/// yet. Nothing else of the session changes.
pub proof fn law_started_videos_are_new(
    view: GuiView,
    path: PathNames,
    start_at: u128,
    paused: bool,
    armed: bool,
)
    ensures
        ({
            let after = view.video_started(path, start_at, paused, armed);
            &&& after.active_video matches Some(video) && {
                &&& video.handle.path == path
                &&& video.handle.controls.paused == paused
                &&& video.handle.controls.muted == view.video_muted
                &&& !video.handle.controls.stop
                &&& video.handle.id == view.next_playback_id
                &&& video.start_at == start_at && video.position == start_at
                &&& !video.ended && !video.has_texture && video.duration is None
            }
            &&& after.selection_autoplay_armed == armed
            &&& after.next_playback_id != view.next_playback_id
            &&& after.state == view.state
            &&& after.video_muted == view.video_muted
        }),
{
    reveal(GuiView::video_started);
    reveal(GuiView::video_stopped);
}

} // verus!
