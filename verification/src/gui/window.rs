//! The state of the window, and what its keys do.

use vstd::prelude::*;
use vstd::string::StringExecFns;

use crate::assoc::{Key, KeyMap, KeySet};
use crate::numbers::{clamped, least, max_usize, min_usize, most, saturating_product};
use crate::path::{MediaPath, PathNames};
use crate::slots::{CacheView, SlotCache};
use crate::sorter::{name_sort_after, next_name_sort, next_time_sort, time_sort_after};
use crate::state::{position_or_first, AppState, SortMode, StateView, ViewMode, ZoomMode};
use crate::text::{decimal, joined, text_of, to_decimal};
use crate::video::{PlaybackControls, PlaybackHandle, PlaybackView};

use super::playback::{
    contextual_u_key_action, empty_media_status, empty_status, focus_effect,
    focus_playback_effect, next_video, next_video_index_after, overlay_deadline, progress_of,
    seek_target, selection_autoplay_after_pause_state, selection_autoplay_after_playback_start,
    selection_autoplay_after_seek, should_autoplay_selected_video, video_progress,
    video_progress_overlay_deadline_for_trigger, video_seek_target, y_key_action, UKeyAction,
    VideoProgress, VideoSeekDirection, YKeyAction,
};
use super::textures::{TexKey, TexKeyView};

verus! {

/// How many media files on each side of the current one to decode ahead in preview.
pub const PREFETCH_RADIUS: usize = 4;

/// Resident texture budgets (previews are large, thumbnails small).
pub const PREVIEW_CACHE: usize = 32;

pub const THUMB_CACHE: usize = 512;

/// The bytes of pixels that the kept previews may have together: more than those of the
/// current entry and the entries decoded ahead, in the size that fits a window.
pub const PREVIEW_BYTES: u128 = 0x4000_0000;

/// The bytes of pixels that the kept thumbnails may have together.
pub const THUMB_BYTES: u128 = 0x1000_0000;

/// Extra grid rows to decode above and below the viewport for smooth scrolling.
pub const GRID_PREFETCH_ROWS: usize = 3;

/// The keys pressed in a frame.
#[derive(Debug, Clone, Copy, PartialEq, Eq, Structural)]
pub struct Keys {
    pub ctrl: bool,
    pub shift: bool,
    pub a: bool,
    pub b: bool,
    pub d: bool,
    pub e: bool,
    pub f: bool,
    pub g: bool,
    pub h: bool,
    pub i: bool,
    pub j: bool,
    pub k: bool,
    pub l: bool,
    pub m: bool,
    pub n: bool,
    pub o: bool,
    pub p: bool,
    pub q: bool,
    pub r: bool,
    pub t: bool,
    pub u: bool,
    pub y: bool,
    pub z: bool,
    pub left: bool,
    pub right: bool,
    pub up: bool,
    pub down: bool,
    pub home: bool,
    pub end: bool,
    pub space: bool,
    pub enter: bool,
    pub escape: bool,
    pub period: bool,
    pub question: bool,
}

/// What is to be done outside after keys were handled, in this order.
#[derive(Debug, Clone, Copy, PartialEq, Eq, Structural)]
pub enum GuiEffect {
    /// Delete the marked files, then report through [`GuiApp::confirm_delete`].
    DeleteQueued,
    /// Read the dates that the order needs, then sort by [`GuiApp::resort`].
    Sort(SortMode),
    /// Read what the info overlay shows of the current entry.
    EnrichCurrent,
    /// Scan again, then hand the entries to [`GuiApp::rescan`].
    Rescan,
    /// Switch the window to or from full screen.
    Fullscreen(bool),
    /// Close the window.
    Close,
}

/// A file to decode.
#[derive(Debug)]
pub struct DecodeRequest {
    pub key: TexKey,
    /// The scan that the request belongs to.
    pub generation: u64,
}

/// A decoded file.
#[derive(Debug)]
pub struct DecodeResult {
    pub key: TexKey,
    pub generation: u64,
    /// The texture that was uploaded and its size in bytes, or why there is none.
    pub texture: Result<(u64, usize), String>,
}

/// The video that is playing or paused.
#[derive(Debug)]
pub struct ActiveVideo {
    pub handle: PlaybackHandle,
    /// Whether a frame has been shown.
    pub has_texture: bool,
    pub start_at: u128,
    pub position: u128,
    pub duration: Option<u128>,
    pub ended: bool,
}

/// The contents of an [`ActiveVideo`].
pub struct VideoView {
    pub handle: PlaybackView,
    pub has_texture: bool,
    pub start_at: u128,
    pub position: u128,
    pub duration: Option<u128>,
    pub ended: bool,
}

impl View for ActiveVideo {
    type V = VideoView;

    open spec fn view(&self) -> VideoView {
        VideoView {
            handle: self.handle@,
            has_texture: self.has_texture,
            start_at: self.start_at,
            position: self.position,
            duration: self.duration,
            ended: self.ended,
        }
    }
}

impl VideoView {
    /// Whether the video is running.
    pub open spec fn playing(self) -> bool {
        !self.handle.controls.paused && !self.ended
    }
}

/// The state of the window.
pub struct GuiApp {
    pub state: AppState,
    pub previews: SlotCache,
    pub thumbs: SlotCache,
    pub inflight: KeySet<TexKey>,
    pub failed: KeyMap<TexKey, String>,
    /// The files that a refresh added, until they are selected.
    pub arrived: KeySet<MediaPath>,
    /// Counts the scans; decoded files of earlier ones are refused.
    pub scan_generation: u64,
    pub locale: Option<String>,
    pub dry_run: bool,
    pub status: String,
    pub grid_cols: usize,
    pub grid_rows: usize,
    /// The first visible grid row, and the first one behind the visible ones.
    pub last_visible_rows: (usize, usize),
    pub scroll_to_current: bool,
    pub fullscreen: bool,
    pub window_focused: bool,
    pub active_video: Option<ActiveVideo>,
    pub next_playback_id: u64,
    pub video_muted: bool,
    pub selection_autoplay_armed: bool,
    pub auto_next: bool,
    /// Whether a video starts anew at its end.
    pub repeat: bool,
    pub media_type_badges_visible: bool,
    /// The time, in nanoseconds, until which the progress overlay is visible.
    pub video_progress_overlay_visible_until: u128,
    /// The path that was opened, as a session without media shows it.
    pub empty_media_target: String,
}

/// The contents of a [`GuiApp`].
pub struct GuiView {
    pub state: StateView,
    pub previews: CacheView,
    pub thumbs: CacheView,
    pub inflight: Seq<TexKeyView>,
    pub failed: Seq<(TexKeyView, Seq<char>)>,
    pub arrived: Seq<PathNames>,
    pub scan_generation: u64,
    pub locale: Option<Seq<char>>,
    pub dry_run: bool,
    pub status: Seq<char>,
    pub grid_cols: usize,
    pub grid_rows: usize,
    pub last_visible_rows: (usize, usize),
    pub scroll_to_current: bool,
    pub fullscreen: bool,
    pub window_focused: bool,
    pub active_video: Option<VideoView>,
    pub next_playback_id: u64,
    pub video_muted: bool,
    pub selection_autoplay_armed: bool,
    pub auto_next: bool,
    pub repeat: bool,
    pub media_type_badges_visible: bool,
    pub video_progress_overlay_visible_until: u128,
    pub empty_media_target: Seq<char>,
}

/// The contents of an optional video.
pub open spec fn video_of(video: Option<ActiveVideo>) -> Option<VideoView> {
    match video {
        Some(video) => Some(video@),
        None => None,
    }
}

impl View for GuiApp {
    type V = GuiView;

    open spec fn view(&self) -> GuiView {
        GuiView {
            state: self.state@,
            previews: self.previews@,
            thumbs: self.thumbs@,
            inflight: self.inflight@,
            failed: self.failed@,
            arrived: self.arrived@,
            scan_generation: self.scan_generation,
            locale: text_of(self.locale),
            dry_run: self.dry_run,
            status: self.status@,
            grid_cols: self.grid_cols,
            grid_rows: self.grid_rows,
            last_visible_rows: self.last_visible_rows,
            scroll_to_current: self.scroll_to_current,
            fullscreen: self.fullscreen,
            window_focused: self.window_focused,
            active_video: video_of(self.active_video),
            next_playback_id: self.next_playback_id,
            video_muted: self.video_muted,
            selection_autoplay_armed: self.selection_autoplay_armed,
            auto_next: self.auto_next,
            repeat: self.repeat,
            media_type_badges_visible: self.media_type_badges_visible,
            video_progress_overlay_visible_until: self.video_progress_overlay_visible_until,
            empty_media_target: self.empty_media_target@,
        }
    }
}

/// The number after another one; after the last comes the first.
pub open spec fn number_after(n: u64) -> u64 {
    if n == u64::MAX {
        0
    } else {
        (n + 1) as u64
    }
}

/// The first number of a list that is above a bound.
pub open spec fn first_above(indices: Seq<usize>, bound: usize) -> Option<usize>
    decreases indices.len(),
{
    if indices.len() == 0 {
        None
    } else {
        match first_above(indices.drop_last(), bound) {
            Some(found) => Some(found),
            None => if indices.last() > bound {
                Some(indices.last())
            } else {
                None
            },
        }
    }
}

impl GuiView {
    /// The window with another status.
    pub open spec fn with_status(self, status: Seq<char>) -> GuiView {
        GuiView { status, ..self }
    }

    /// The active video, where it plays a file.
    pub open spec fn active_for(self, path: PathNames) -> Option<VideoView> {
        match self.active_video {
            Some(video) => if video.handle.path == path {
                Some(video)
            } else {
                None
            },
            None => None,
        }
    }

    /// The active video, where it plays the current entry.
    pub open spec fn active_current(self) -> Option<VideoView> {
        match self.state.current_entry() {
            Some(entry) => if entry.media_kind is Video {
                self.active_for(entry.path)
            } else {
                None
            },
            None => None,
        }
    }

    /// Whether the active video is running.
    pub open spec fn active_playing(self) -> bool {
        match self.active_video {
            Some(video) => video.playing(),
            None => false,
        }
    }

    /// Whether the current entry is a video that can be sought.
    pub open spec fn can_seek(self) -> bool {
        match self.active_current() {
            Some(video) => !video.ended,
            None => false,
        }
    }

    /// The progress of the current entry's video.
    pub open spec fn current_progress(self) -> Option<VideoProgress> {
        match self.active_current() {
            Some(video) => progress_of(video.position, video.duration),
            None => None,
        }
    }

    /// The window with another active video.
    pub open spec fn with_video(self, video: VideoView) -> GuiView {
        GuiView { active_video: Some(video), ..self }
    }

    /// The window with its active video paused or resumed.
    pub open spec fn with_paused(self, paused: bool) -> GuiView {
        match self.active_video {
            Some(video) => self.with_video(
                VideoView { handle: video.handle.with_paused(paused), ..video },
            ),
            None => self,
        }
    }

    /// The window with the duration of its active video known.
    pub open spec fn with_duration(self, duration: Option<u128>) -> GuiView {
        match self.active_video {
            Some(video) => self.with_video(VideoView { duration, ..video }),
            None => self,
        }
    }

    /// The window after the progress overlay was asked for.
    #[verifier::opaque]
    pub open spec fn progress_shown(self, now: u128) -> GuiView {
        if self.state.mode == ViewMode::Preview && self.current_progress() is Some {
            GuiView { video_progress_overlay_visible_until: overlay_deadline(now), ..self }
        } else {
            self
        }
    }

    /// The window without an active video.
    #[verifier::opaque]
    pub open spec fn video_stopped(self) -> GuiView {
        GuiView { active_video: None, video_progress_overlay_visible_until: 0, ..self }
    }

    /// The status of a video that starts.
    pub open spec fn start_status(self, paused: bool) -> Seq<char> {
        if paused {
            "video paused"@
        } else if self.video_muted {
            "video playing muted"@
        } else {
            "video playing with audio"@
        }
    }

    /// The window after a video was started.
    #[verifier::opaque]
    pub open spec fn video_started(
        self,
        path: PathNames,
        start_at: u128,
        paused: bool,
        armed: bool,
    ) -> GuiView {
        GuiView {
            selection_autoplay_armed: armed,
            active_video: Some(
                VideoView {
                    handle: PlaybackView {
                        id: self.next_playback_id,
                        path,
                        controls: PlaybackControls {
                            stop: false,
                            paused,
                            muted: self.video_muted,
                        },
                    },
                    has_texture: false,
                    start_at,
                    position: start_at,
                    duration: None,
                    ended: false,
                },
            ),
            next_playback_id: number_after(self.next_playback_id),
            status: self.start_status(paused),
            ..self.video_stopped()
        }
    }

    /// The window after the space bar on the current video.
    #[verifier::opaque]
    pub open spec fn playback_toggled(self) -> GuiView {
        if !self.state.current_is_video() {
            self
        } else {
            match self.active_current() {
                Some(video) => if !video.ended {
                    let paused = !video.handle.controls.paused;
                    GuiView {
                        selection_autoplay_armed: !paused,
                        status: if paused {
                            "video paused"@
                        } else {
                            "video playing"@
                        },
                        ..self.with_paused(paused)
                    }
                } else {
                    self.video_started(self.state.current_path().unwrap(), 0, false, true)
                },
                None => self.video_started(self.state.current_path().unwrap(), 0, false, true),
            }
        }
    }

    /// The status after a seek.
    pub open spec fn seek_status(direction: VideoSeekDirection, paused: bool) -> Seq<char> {
        "video "@ + (match direction {
            VideoSeekDirection::Backward => "rewound"@,
            VideoSeekDirection::Forward => "fast-forwarded"@,
        }) + " 10% ("@ + (if paused {
            "paused"@
        } else {
            "playing"@
        }) + ")"@
    }

    /// The window after a seek in the current video: the video is started anew at
    /// the target, paused if it was paused.
    #[verifier::opaque]
    pub open spec fn sought(self, direction: VideoSeekDirection, now: u128) -> GuiView {
        if !self.can_seek() {
            self
        } else {
            let video = self.active_current().unwrap();
            match seek_target(video.position as int, video.duration, direction) {
                None => self.with_status("video duration unavailable"@),
                Some(target) => {
                    let paused = video.handle.controls.paused;
                    self.video_started(
                        video.handle.path,
                        target as u128,
                        paused,
                        !paused,
                    ).with_duration(video.duration).progress_shown(now).with_status(
                        GuiView::seek_status(direction, paused),
                    )
                },
            }
        }
    }

    /// The window after the current entry started playing, where it is a video,
    /// the session is armed, and it is not running already.
    #[verifier::opaque]
    pub open spec fn autoplayed(self) -> GuiView {
        if !self.selection_autoplay_armed || !self.state.current_is_video() {
            self
        } else {
            match self.active_current() {
                Some(video) => if video.playing() {
                    self
                } else {
                    self.video_started(self.state.current_path().unwrap(), 0, false, true)
                },
                None => self.video_started(self.state.current_path().unwrap(), 0, false, true),
            }
        }
    }

    /// The window after the selection changed from `previous`: another entry
    /// stops the video, and plays if it is one and the session is armed.
    #[verifier::opaque]
    pub open spec fn selection_changed(self, previous: usize) -> GuiView {
        let settled = if self.state.current_index != previous {
            self.video_stopped().autoplayed()
        } else {
            self
        };
        GuiView { scroll_to_current: true, ..settled }
    }

    /// The window with another entry selected.
    #[verifier::opaque]
    pub open spec fn selected(self, index: int) -> GuiView {
        let state = StateView {
            current_index: least(index, most(self.state.entries.len() - 1, 0)) as usize,
            ..self.state
        };
        (GuiView { state, ..self }).selection_changed(self.state.current_index)
    }

    /// The window after the selection moved by a number of entries; by queued
    /// entries in the view of the delete queue.
    #[verifier::opaque]
    pub open spec fn moved_by(self, step: int) -> GuiView {
        let current = self.state.current_index;
        let indices = self.state.queued_indices();
        if self.state.entries.len() == 0 {
            self
        } else if self.state.mode == ViewMode::DeleteQueueGrid {
            if indices.len() == 0 {
                self
            } else {
                let position = position_or_first(indices, current) + step;
                self.selected(indices[clamped(position, 0, indices.len() - 1)] as int)
            }
        } else {
            self.selected(clamped(current + step, 0, self.state.entries.len() - 1))
        }
    }

    /// The window with the entry after the current one selected; in the view of
    /// the delete queue the queued one after it, else the last queued one.
    #[verifier::opaque]
    pub open spec fn next_selected(self) -> GuiView {
        let current = self.state.current_index;
        let indices = self.state.queued_indices();
        if self.state.mode == ViewMode::DeleteQueueGrid {
            match first_above(indices, current) {
                Some(index) => self.selected(index as int),
                None => if indices.len() > 0 {
                    self.selected(indices.last() as int)
                } else {
                    self
                },
            }
        } else {
            self.moved_by(1)
        }
    }

    /// The window with the first entry selected.
    #[verifier::opaque]
    pub open spec fn first_selected(self) -> GuiView {
        let indices = self.state.queued_indices();
        if self.state.mode == ViewMode::DeleteQueueGrid && indices.len() > 0 {
            self.selected(indices.first() as int)
        } else {
            self.selected(0)
        }
    }

    /// The window with the last entry selected.
    #[verifier::opaque]
    pub open spec fn last_selected(self) -> GuiView {
        let indices = self.state.queued_indices();
        if self.state.mode == ViewMode::DeleteQueueGrid && indices.len() > 0 {
            self.selected(indices.last() as int)
        } else {
            self.selected(most(self.state.entries.len() - 1, 0))
        }
    }

    /// The window after the video after the current entry was selected.
    #[verifier::opaque]
    pub open spec fn next_video_selected(self) -> GuiView {
        match next_video(self.state.entries, self.state.current_index as int) {
            Some(index) => self.selected(index),
            None => self.with_status("video ended; no next video"@),
        }
    }

    /// The status that counts the marked files.
    pub open spec fn queue_status(self) -> GuiView {
        self.with_status("queued: "@ + decimal(self.state.delete_queue.len()))
    }

    /// The window after the focus changed.
    #[verifier::opaque]
    pub open spec fn focus_changed(self, focused: bool) -> GuiView {
        let effect = focus_effect(
            self.window_focused,
            focused,
            self.active_playing(),
            self.selection_autoplay_armed,
        );
        let paused = if effect.pause_video {
            self.with_paused(true).with_status("video paused: window lost focus"@)
        } else {
            self
        };
        GuiView {
            selection_autoplay_armed: effect.selection_autoplay_armed,
            window_focused: focused,
            ..paused
        }
    }

    /// The window after audio was switched on or off.
    #[verifier::opaque]
    pub open spec fn mute_toggled(self) -> GuiView {
        let muted = !self.video_muted;
        GuiView {
            video_muted: muted,
            active_video: match self.active_video {
                Some(video) => Some(
                    VideoView { handle: video.handle.with_muted(muted), ..video },
                ),
                None => None,
            },
            status: if muted {
                "video muted"@
            } else {
                "video unmuted"@
            },
            ..self
        }
    }

    /// The window after the badges were switched on or off.
    #[verifier::opaque]
    pub open spec fn badges_toggled(self) -> GuiView {
        let visible = !self.media_type_badges_visible;
        GuiView {
            media_type_badges_visible: visible,
            status: if visible {
                "media badges shown"@
            } else {
                "media badges hidden"@
            },
            ..self
        }
    }

    /// The window after advancing at the end of a video was switched on or off.
    #[verifier::opaque]
    pub open spec fn auto_next_toggled(self) -> GuiView {
        let enabled = !self.auto_next;
        GuiView {
            auto_next: enabled,
            status: if enabled {
                "auto-next enabled"@
            } else {
                "auto-next disabled"@
            },
            ..self
        }
    }
}

impl GuiView {
    /// The window after repeating videos was switched on or off.
    #[verifier::opaque]
    pub open spec fn repeat_toggled(self) -> GuiView {
        let enabled = !self.repeat;
        GuiView {
            repeat: enabled,
            status: if enabled {
                "repeat enabled"@
            } else {
                "repeat disabled"@
            },
            ..self
        }
    }

    /// The window with hidden files shown or hidden.
    #[verifier::opaque]
    pub open spec fn hidden_switched(self) -> GuiView {
        GuiView {
            state: StateView { include_hidden: !self.state.include_hidden, ..self.state },
            ..self
        }
    }

    /// `.` shows or hides hidden files.
    pub open spec fn after_hidden_key(self, keys: Keys) -> GuiView {
        if keys.period {
            self.hidden_switched()
        } else {
            self
        }
    }
}

/// A list of effects, with one more where it is needed.
#[verifier::opaque]
pub open spec fn push_if(
    effects: Seq<GuiEffect>,
    needed: bool,
    effect: GuiEffect,
) -> Seq<GuiEffect> {
    if needed {
        effects.push(effect)
    } else {
        effects
    }
}

/// Adds an effect to a list, where it is needed.
fn add_effect(effects: &mut Vec<GuiEffect>, needed: bool, effect: GuiEffect)
    ensures
        final(effects)@ == push_if(old(effects)@, needed, effect),
{
    proof {
        reveal(push_if);
    }
    if needed {
        effects.push(effect);
    }
}

/// How many entries half a page of the grid has.
pub open spec fn half_page(cols: usize, rows: usize) -> int {
    least(most(rows as int / 2, 1) * cols, usize::MAX as int)
}

impl GuiView {
    /// Whether a grid is shown.
    pub open spec fn in_grid(self) -> bool {
        self.state.mode == ViewMode::Grid || self.state.mode == ViewMode::DeleteQueueGrid
    }

    /// `escape` closes the overlays, else leaves the grid.
    #[verifier::opaque]
    pub open spec fn after_escape(self, keys: Keys) -> GuiView {
        if keys.escape && (self.state.show_help_overlay || self.state.show_info_overlay) {
            GuiView {
                state: StateView {
                    show_help_overlay: false,
                    show_info_overlay: false,
                    ..self.state
                },
                ..self
            }
        } else if keys.escape && self.in_grid() {
            self.previewing()
        } else {
            self
        }
    }

    /// Whether `q` or `escape` closes the window.
    pub open spec fn closes(self, keys: Keys) -> bool {
        keys.q || (keys.escape && !self.state.show_help_overlay && !self.state.show_info_overlay
            && !self.in_grid())
    }

    /// The window after a movement, where its key was pressed.
    pub open spec fn moved_if(self, pressed: bool, step: int) -> GuiView {
        if pressed {
            self.moved_by(step)
        } else {
            self
        }
    }

    /// The movement keys of the grid: within a row, between rows, and by half
    /// pages.
    #[verifier::opaque]
    pub open spec fn after_grid_moves(self, keys: Keys, cols: usize, rows: usize) -> GuiView {
        self.moved_if(keys.h || keys.left, -1).moved_if(keys.l || keys.right, 1).moved_if(
            keys.k || keys.up,
            -cols,
        ).moved_if(keys.j || keys.down, cols as int).moved_if(
            keys.ctrl && keys.d,
            half_page(cols, rows),
        ).moved_if(keys.ctrl && keys.u, -half_page(cols, rows))
    }

    /// The movement keys of the preview: next and previous.
    #[verifier::opaque]
    pub open spec fn after_preview_moves(self, keys: Keys) -> GuiView {
        self.moved_if(keys.l || keys.j || keys.right || keys.down, 1).moved_if(
            keys.h || keys.k || keys.left || keys.up,
            -1,
        )
    }

    /// `home` and `end`.
    #[verifier::opaque]
    pub open spec fn after_jumps(self, keys: Keys) -> GuiView {
        let first = if keys.home {
            self.first_selected()
        } else {
            self
        };
        if keys.end {
            first.last_selected()
        } else {
            first
        }
    }

    /// The window that shows the delete queue.
    #[verifier::opaque]
    pub open spec fn queue_shown(self) -> GuiView {
        (GuiView { state: self.state.showing_queue(), ..self }).selection_changed(
            self.state.current_index,
        )
    }

    /// The window with the mark of the current file switched.
    #[verifier::opaque]
    pub open spec fn mark_toggled(self) -> GuiView {
        (GuiView { state: self.state.queue_toggled(), ..self }).queue_status()
    }

    /// The window with the mark of the current file taken off.
    #[verifier::opaque]
    pub open spec fn unmarked(self) -> GuiView {
        (GuiView { state: self.state.unqueued(), ..self }).queue_status()
    }

    /// `shift+D` shows the delete queue, the space bar plays or pauses a video,
    /// `d` marks or unmarks the current file and selects the next one.
    #[verifier::opaque]
    pub open spec fn after_marks(self, keys: Keys) -> GuiView {
        if keys.shift && keys.d {
            self.queue_shown()
        } else if keys.space && self.state.current_is_video() {
            self.playback_toggled()
        } else if keys.d && !keys.ctrl {
            self.mark_toggled().next_selected()
        } else {
            self
        }
    }

    /// `u` rewinds the current video or unmarks the current file, `o` advances
    /// the current video, `y` shows its progress.
    #[verifier::opaque]
    pub open spec fn after_seeks(self, keys: Keys, now: u128) -> GuiView {
        let rewound = if !keys.u || keys.ctrl {
            self
        } else if self.can_seek() {
            self.sought(VideoSeekDirection::Backward, now)
        } else {
            self.unmarked()
        };
        let advanced = if keys.o && !keys.ctrl {
            rewound.sought(VideoSeekDirection::Forward, now)
        } else {
            rewound
        };
        if keys.y {
            advanced.progress_shown(now)
        } else {
            advanced
        }
    }

    /// The window that asks whether to delete the marked files.
    #[verifier::opaque]
    pub open spec fn confirming(self) -> GuiView {
        GuiView { state: StateView { confirm_delete: true, ..self.state }, ..self }
    }

    /// The window with scans of subfolders switched on or off.
    #[verifier::opaque]
    pub open spec fn recursion_switched(self) -> GuiView {
        GuiView { state: StateView { recursive: !self.state.recursive, ..self.state }, ..self }
    }

    /// The window switched between preview and grid.
    #[verifier::opaque]
    pub open spec fn view_switched(self) -> GuiView {
        GuiView {
            state: StateView {
                mode: if self.state.mode == ViewMode::Preview {
                    ViewMode::Grid
                } else {
                    ViewMode::Preview
                },
                ..self.state
            },
            scroll_to_current: true,
            ..self
        }
    }

    /// The window that shows the preview.
    #[verifier::opaque]
    pub open spec fn previewing(self) -> GuiView {
        GuiView { state: StateView { mode: ViewMode::Preview, ..self.state }, ..self }
    }

    /// `ctrl+R` asks whether to delete the marked files, `shift+R` scans again,
    /// and `r` does so with subfolders switched, unless files were selected
    /// explicitly.
    #[verifier::opaque]
    pub open spec fn after_scan_key(self, keys: Keys) -> GuiView {
        if !keys.r {
            self
        } else if keys.ctrl {
            if self.state.delete_queue.len() == 0 {
                self.with_status("delete queue is empty"@)
            } else {
                self.confirming()
            }
        } else if keys.shift || self.state.selected_files is Some {
            self
        } else {
            self.recursion_switched()
        }
    }

    /// `g` switches between preview and grid, and `enter` opens a grid cell.
    #[verifier::opaque]
    pub open spec fn after_view_keys(self, keys: Keys, in_grid: bool) -> GuiView {
        let switched = if keys.g {
            self.view_switched()
        } else {
            self
        };
        if in_grid && keys.enter {
            switched.previewing()
        } else {
            switched
        }
    }

    /// `z` switches between fit and actual size, `f` switches full screen.
    #[verifier::opaque]
    pub open spec fn after_size_keys(self, keys: Keys) -> GuiView {
        GuiView {
            state: StateView {
                zoom_mode: if !keys.z {
                    self.state.zoom_mode
                } else if self.state.zoom_mode == ZoomMode::Fit {
                    ZoomMode::OriginalPixels
                } else {
                    ZoomMode::Fit
                },
                ..self.state
            },
            fullscreen: self.fullscreen != keys.f,
            ..self
        }
    }

    /// `m` switches audio, `a` advancing, `p` repeating, and `b` the badges.
    #[verifier::opaque]
    pub open spec fn after_switches(self, keys: Keys) -> GuiView {
        let muted = if keys.m {
            self.mute_toggled()
        } else {
            self
        };
        let advancing = if keys.a {
            muted.auto_next_toggled()
        } else {
            muted
        };
        let repeating = if keys.p {
            advancing.repeat_toggled()
        } else {
            advancing
        };
        if keys.b {
            repeating.badges_toggled()
        } else {
            repeating
        }
    }

    /// `i` and `?` switch the overlays.
    #[verifier::opaque]
    pub open spec fn after_overlay_keys(self, keys: Keys) -> GuiView {
        GuiView {
            state: StateView {
                show_info_overlay: self.state.show_info_overlay != keys.i,
                show_help_overlay: self.state.show_help_overlay != keys.question,
                ..self.state
            },
            ..self
        }
    }

    /// The window after all keys of a frame, while no deletion is asked about.
    #[verifier::opaque]
    pub open spec fn after_keys(self, keys: Keys, now: u128) -> GuiView {
        let cols = most(self.grid_cols as int, 1) as usize;
        let rows = most(self.grid_rows as int, 1) as usize;
        let escaped = self.after_escape(keys);
        let moved = if self.in_grid() {
            escaped.after_grid_moves(keys, cols, rows)
        } else {
            escaped.after_preview_moves(keys)
        };
        let done = moved.after_jumps(keys).after_marks(keys).after_seeks(keys, now).after_scan_key(
            keys,
        ).after_hidden_key(keys).after_view_keys(keys, self.in_grid()).after_size_keys(keys).after_switches(
            keys,
        ).after_overlay_keys(keys);
        if self.closes(keys) {
            done.video_stopped()
        } else {
            done
        }
    }

    /// The order that `t` or `n` asks for; `n` goes last.
    pub open spec fn order_asked(self, keys: Keys) -> Option<SortMode> {
        if keys.n {
            Some(name_sort_after(self.state.sort_mode))
        } else if keys.t {
            Some(time_sort_after(self.state.sort_mode))
        } else {
            None
        }
    }

    /// What is to be done outside after all keys of a frame.
    pub open spec fn effects_of(self, keys: Keys, now: u128) -> Seq<GuiEffect> {
        let done = self.after_keys(keys, now);
        let sort = match self.order_asked(keys) {
            Some(mode) => seq![GuiEffect::Sort(mode)],
            None => Seq::empty(),
        };
        let enrich = push_if(
            sort,
            keys.i && done.state.show_info_overlay,
            GuiEffect::EnrichCurrent,
        );
        let rescan = push_if(
            enrich,
            (keys.r && !keys.ctrl) || keys.period,
            GuiEffect::Rescan,
        );
        let fullscreen = push_if(rescan, keys.f, GuiEffect::Fullscreen(done.fullscreen));
        push_if(fullscreen, self.closes(keys), GuiEffect::Close)
    }

    /// The window after the keys of a frame, while a deletion is asked about:
    /// `n` and `escape` cancel it, and other keys do nothing.
    #[verifier::opaque]
    pub open spec fn after_confirm_keys(self, keys: Keys) -> GuiView {
        if !keys.y && (keys.n || keys.escape) {
            GuiView {
                state: StateView { confirm_delete: false, ..self.state },
                status: "delete cancelled"@,
                ..self
            }
        } else {
            self
        }
    }

    /// The window after the keys of a frame.
    pub open spec fn after_input(self, keys: Keys, now: u128) -> GuiView {
        if self.state.confirm_delete {
            self.after_confirm_keys(keys)
        } else {
            self.after_keys(keys, now)
        }
    }

    /// What is to be done outside after the keys of a frame.
    pub open spec fn input_effects(self, keys: Keys, now: u128) -> Seq<GuiEffect> {
        if !self.state.confirm_delete {
            self.effects_of(keys, now)
        } else if keys.y {
            seq![GuiEffect::DeleteQueued]
        } else {
            Seq::empty()
        }
    }
}

/// The status after a seek.
fn seek_status(direction: VideoSeekDirection, paused: bool) -> (status: String)
    ensures
        status@ == GuiView::seek_status(direction, paused),
{
    let mut status = "video ".to_owned();
    status.append(
        match direction {
            VideoSeekDirection::Backward => "rewound",
            VideoSeekDirection::Forward => "fast-forwarded",
        },
    );
    status.append(" 10% (");
    status.append(
        if paused {
            "paused"
        } else {
            "playing"
        },
    );
    status.append(")");
    status
}

impl GuiApp {
    /// The window at the start of a session.
    pub fn new(
        state: AppState,
        locale: Option<String>,
        dry_run: bool,
        auto_next: bool,
        empty_media_target: String,
    ) -> (app: GuiApp)
        ensures
            app@ == (GuiView {
                state: state@,
                previews: CacheView { slots: Seq::empty(), capacity: PREVIEW_CACHE as nat },
                thumbs: CacheView { slots: Seq::empty(), capacity: THUMB_CACHE as nat },
                inflight: Seq::empty(),
                failed: Seq::empty(),
                arrived: Seq::empty(),
                scan_generation: 0,
                locale: text_of(locale),
                dry_run,
                status: if state@.entries.len() == 0 {
                    empty_status(empty_media_target@)
                } else {
                    Seq::empty()
                },
                grid_cols: 1,
                grid_rows: 1,
                last_visible_rows: (0, 0),
                scroll_to_current: false,
                fullscreen: false,
                window_focused: true,
                active_video: None,
                next_playback_id: 1,
                video_muted: true,
                selection_autoplay_armed: false,
                auto_next,
                repeat: false,
                media_type_badges_visible: true,
                video_progress_overlay_visible_until: 0,
                empty_media_target: empty_media_target@,
            }),
    {
        let status = if state.entries.len() == 0 {
            empty_media_status(empty_media_target.as_str())
        } else {
            String::new()
        };
        assert(state@.entries.len() > 0 ==> status@ =~= Seq::empty());
        GuiApp {
            state,
            previews: SlotCache::new(PREVIEW_CACHE),
            thumbs: SlotCache::new(THUMB_CACHE),
            inflight: KeySet::new(),
            failed: KeyMap::new(),
            arrived: KeySet::new(),
            scan_generation: 0,
            locale,
            dry_run,
            status,
            grid_cols: 1,
            grid_rows: 1,
            last_visible_rows: (0, 0),
            scroll_to_current: false,
            fullscreen: false,
            window_focused: true,
            active_video: None,
            next_playback_id: 1,
            video_muted: true,
            selection_autoplay_armed: false,
            auto_next,
            repeat: false,
            media_type_badges_visible: true,
            video_progress_overlay_visible_until: 0,
            empty_media_target,
        }
    }

    fn current_is_video(&self) -> (yes: bool)
        ensures
            yes == self@.state.current_is_video(),
    {
        match self.state.current_entry() {
            Some(entry) => entry.media_kind.is_video(),
            None => false,
        }
    }

    /// The active video, where it plays a file.
    pub fn active_video_for(&self, path: &MediaPath) -> (video: Option<&ActiveVideo>)
        ensures
            match video {
                Some(video) => self@.active_for(path@) == Some(video@),
                None => self@.active_for(path@) is None,
            },
    {
        match &self.active_video {
            Some(video) => if video.handle.path().same(path) {
                Some(video)
            } else {
                None
            },
            None => None,
        }
    }

    /// Whether a file is being played.
    pub fn active_video_is_playing_for(&self, path: &MediaPath) -> (playing: bool)
        ensures
            playing == match self@.active_for(path@) {
                Some(video) => video.playing(),
                None => false,
            },
    {
        match self.active_video_for(path) {
            Some(video) => !video.handle.is_paused() && !video.ended,
            None => false,
        }
    }

    /// Whether a video is running.
    pub fn active_video_is_playing(&self) -> (playing: bool)
        ensures
            playing == self@.active_playing(),
    {
        match &self.active_video {
            Some(video) => !video.handle.is_paused() && !video.ended,
            None => false,
        }
    }

    /// The progress of a file that is being played.
    pub fn active_video_progress_for(&self, path: &MediaPath) -> (progress: Option<VideoProgress>)
        ensures
            progress == match self@.active_for(path@) {
                Some(video) => progress_of(video.position, video.duration),
                None => None,
            },
    {
        match self.active_video_for(path) {
            Some(video) => video_progress(video.position, video.duration),
            None => None,
        }
    }

    /// The active video, where it plays the current entry.
    fn active_current_video(&self) -> (video: Option<&ActiveVideo>)
        ensures
            match video {
                Some(video) => self@.active_current() == Some(video@),
                None => self@.active_current() is None,
            },
    {
        match self.state.current_entry() {
            Some(entry) => if entry.media_kind.is_video() {
                self.active_video_for(&entry.path)
            } else {
                None
            },
            None => None,
        }
    }

    fn active_current_video_can_seek(&self) -> (can_seek: bool)
        ensures
            can_seek == self@.can_seek(),
    {
        match self.active_current_video() {
            Some(video) => !video.ended,
            None => false,
        }
    }

    /// The progress of the current entry's video.
    pub fn active_current_video_progress(&self) -> (progress: Option<VideoProgress>)
        ensures
            progress == self@.current_progress(),
    {
        match self.active_current_video() {
            Some(video) => video_progress(video.position, video.duration),
            None => None,
        }
    }

    /// Shows the progress of the current video for a while.
    fn show_video_progress_overlay(&mut self, now: u128)
        ensures
            final(self)@ == old(self)@.progress_shown(now),
    {
        proof {
            reveal(GuiView::progress_shown);
        }
        let can_show = self.state.mode == ViewMode::Preview
            && self.active_current_video_progress().is_some();
        match video_progress_overlay_deadline_for_trigger(now, can_show) {
            Some(deadline) => {
                self.video_progress_overlay_visible_until = deadline;
            },
            None => {},
        }
    }

    /// Reacts to the window getting or losing the focus.
    #[verifier::rlimit(40)]
    pub fn handle_focus_change(&mut self, focused: bool)
        ensures
            final(self)@ == old(self)@.focus_changed(focused),
    {
        proof {
            reveal(GuiView::focus_changed);
        }
        let effect = focus_playback_effect(
            self.window_focused,
            focused,
            self.active_video_is_playing(),
            self.selection_autoplay_armed,
        );
        if effect.pause_video {
            self.set_active_paused(true);
            self.status = "video paused: window lost focus".to_owned();
        }
        self.selection_autoplay_armed = effect.selection_autoplay_armed;
        self.window_focused = focused;
    }

    /// Stops the active video.
    pub fn stop_active_video(&mut self)
        ensures
            final(self)@ == old(self)@.video_stopped(),
    {
        proof {
            reveal(GuiView::video_stopped);
        }
        self.active_video = None;
        self.video_progress_overlay_visible_until = 0;
    }

    /// Starts a video at its beginning.
    pub fn start_video_playback(&mut self, path: MediaPath)
        ensures
            final(self)@ == old(self)@.video_started(path@, 0, false, true),
    {
        self.start_video_playback_from(path, 0, false, selection_autoplay_after_playback_start());
    }

    /// Starts a video at a position.
    fn start_video_playback_from(
        &mut self,
        path: MediaPath,
        start_at: u128,
        paused: bool,
        selection_autoplay_armed: bool,
    )
        ensures
            final(self)@ == old(self)@.video_started(
                path@,
                start_at,
                paused,
                selection_autoplay_armed,
            ),
    {
        proof {
            reveal(GuiView::video_started);
            reveal(GuiView::video_stopped);
        }
        self.stop_active_video();
        self.selection_autoplay_armed = selection_autoplay_armed;
        let handle = PlaybackHandle::new(self.next_playback_id, path, self.video_muted, paused);
        self.next_playback_id = self.next_playback_id.wrapping_add(1);
        self.active_video =
        Some(
            ActiveVideo {
                handle,
                has_texture: false,
                start_at,
                position: start_at,
                duration: None,
                ended: false,
            },
        );
        self.status =
        if paused {
            "video paused".to_owned()
        } else if self.video_muted {
            "video playing muted".to_owned()
        } else {
            "video playing with audio".to_owned()
        };
    }

    /// Pauses or resumes the active video.
    fn set_active_paused(&mut self, paused: bool)
        ensures
            final(self)@ == old(self)@.with_paused(paused),
    {
        match &mut self.active_video {
            Some(video) => {
                video.handle.set_paused(paused);
            },
            None => {},
        }
    }

    /// Notes the duration of the active video.
    fn set_active_duration(&mut self, duration: Option<u128>)
        ensures
            final(self)@ == old(self)@.with_duration(duration),
    {
        match &mut self.active_video {
            Some(video) => {
                video.duration = duration;
            },
            None => {},
        }
    }

    /// Shows a status.
    fn set_status(&mut self, status: &str)
        ensures
            final(self)@ == old(self)@.with_status(status@),
    {
        self.status = status.to_owned();
    }

    /// Plays or pauses the current entry, where it is a video.
    fn toggle_current_video_playback(&mut self)
        ensures
            final(self)@ == old(self)@.playback_toggled(),
    {
        proof {
            reveal(GuiView::playback_toggled);
        }
        if !self.current_is_video() {
            return;
        }
        let paused = match self.active_current_video() {
            Some(video) => if video.ended {
                None
            } else {
                Some(!video.handle.is_paused())
            },
            None => None,
        };
        match paused {
            Some(paused) => {
                self.set_active_paused(paused);
                self.selection_autoplay_armed = selection_autoplay_after_pause_state(paused);
                if paused {
                    self.set_status("video paused");
                } else {
                    self.set_status("video playing");
                }
            },
            None => match self.state.current_path() {
                Some(path) => {
                    self.start_video_playback(path);
                },
                None => {},
            },
        }
    }

    /// Seeks in the current entry's video; reports whether it can be sought.
    fn seek_current_video(&mut self, direction: VideoSeekDirection, now: u128) -> (handled: bool)
        ensures
            handled == old(self)@.can_seek(),
            final(self)@ == old(self)@.sought(direction, now),
    {
        proof {
            reveal(GuiView::sought);
        }
        let (path, position, duration, was_paused) = match self.active_current_video() {
            Some(video) => {
                if video.ended {
                    return false;
                }
                (
                    video.handle.path().clone(),
                    video.position,
                    video.duration,
                    video.handle.is_paused(),
                )
            },
            None => {
                return false;
            },
        };
        let target: u128 = match video_seek_target(position, duration, direction) {
            Some(target) => target,
            None => {
                self.set_status("video duration unavailable");
                return true;
            },
        };
        self.start_video_playback_from(
            path,
            target,
            was_paused,
            selection_autoplay_after_seek(was_paused),
        );
        self.set_active_duration(duration);
        self.show_video_progress_overlay(now);
        let status = seek_status(direction, was_paused);
        self.set_status(status.as_str());
        true
    }

    /// Plays the current entry, where it is a video and the session is armed.
    fn autoplay_current_video_if_armed(&mut self)
        ensures
            final(self)@ == old(self)@.autoplayed(),
    {
        proof {
            reveal(GuiView::autoplayed);
        }
        if !should_autoplay_selected_video(
            self.selection_autoplay_armed,
            self.state.current_entry(),
        ) {
            return;
        }
        match self.state.current_path() {
            Some(path) => {
                if self.active_video_is_playing_for(&path) {
                    return;
                }
                self.start_video_playback(path);
            },
            None => {},
        }
    }

    /// Selects the video after the current entry.
    pub fn play_next_video_after_current(&mut self)
        ensures
            final(self)@ == old(self)@.next_video_selected(),
    {
        proof {
            reveal(GuiView::next_video_selected);
        }
        match next_video_index_after(&self.state.entries, self.state.current_index) {
            Some(index) => {
                self.set_current_index(index);
            },
            None => {
                self.status = "video ended; no next video".to_owned();
            },
        }
    }

    /// Switches audio on or off.
    fn toggle_video_mute(&mut self)
        ensures
            final(self)@ == old(self)@.mute_toggled(),
    {
        proof {
            reveal(GuiView::mute_toggled);
        }
        self.video_muted = !self.video_muted;
        let muted = self.video_muted;
        match &mut self.active_video {
            Some(video) => {
                video.handle.set_muted(muted);
            },
            None => {},
        }
        self.status =
        if self.video_muted {
            "video muted".to_owned()
        } else {
            "video unmuted".to_owned()
        };
    }

    /// Shows or hides the badges.
    fn toggle_media_type_badges(&mut self)
        ensures
            final(self)@ == old(self)@.badges_toggled(),
    {
        proof {
            reveal(GuiView::badges_toggled);
        }
        self.media_type_badges_visible = !self.media_type_badges_visible;
        self.status =
        if self.media_type_badges_visible {
            "media badges shown".to_owned()
        } else {
            "media badges hidden".to_owned()
        };
    }

    /// Switches advancing at the end of a video on or off.
    fn toggle_auto_next(&mut self)
        ensures
            final(self)@ == old(self)@.auto_next_toggled(),
    {
        proof {
            reveal(GuiView::auto_next_toggled);
        }
        self.auto_next = !self.auto_next;
        self.status =
        if self.auto_next {
            "auto-next enabled".to_owned()
        } else {
            "auto-next disabled".to_owned()
        };
    }

    fn toggle_repeat(&mut self)
        ensures
            final(self)@ == old(self)@.repeat_toggled(),
    {
        proof {
            reveal(GuiView::repeat_toggled);
        }
        self.repeat = !self.repeat;
        self.status =
        if self.repeat {
            "repeat enabled".to_owned()
        } else {
            "repeat disabled".to_owned()
        };
    }

    /// Shows or hides hidden files.
    fn switch_hidden(&mut self)
        ensures
            final(self)@ == old(self)@.hidden_switched(),
    {
        proof {
            reveal(GuiView::hidden_switched);
        }
        self.state.include_hidden = !self.state.include_hidden;
    }

    /// Selects an entry, the last one where the index lies behind it.
    pub fn set_current_index(&mut self, index: usize)
        ensures
            final(self)@ == old(self)@.selected(index as int),
    {
        proof {
            reveal(GuiView::selected);
        }
        let previous: usize = self.state.current_index;
        self.state.current_index = min_usize(index, self.state.entries.len().saturating_sub(1));
        assert(self@.state == (StateView {
            current_index: least(
                index as int,
                most(old(self)@.state.entries.len() - 1, 0),
            ) as usize,
            ..old(self)@.state
        }));
        assert(self@ == (GuiView { state: self@.state, ..old(self)@ }));
        self.finish_selection_change(previous);
    }

    /// Settles playback and scrolling after the selection changed.
    fn finish_selection_change(&mut self, previous_index: usize)
        ensures
            final(self)@ == old(self)@.selection_changed(previous_index),
    {
        proof {
            reveal(GuiView::selection_changed);
        }
        if self.state.current_index != previous_index {
            self.stop_active_video();
            self.autoplay_current_video_if_armed();
        }
        self.scroll_to_current = true;
    }
}

/// The first number of a list that is above a bound.
fn find_above(indices: &Vec<usize>, bound: usize) -> (found: Option<usize>)
    ensures
        found == first_above(indices@, bound),
{
    let mut index: usize = 0;
    while index < indices.len()
        invariant
            index <= indices@.len(),
            first_above(indices@.take(index as int), bound) is None,
        decreases indices@.len() - index,
    {
        assert(indices@.take(index + 1).drop_last() =~= indices@.take(index as int));
        if indices[index] > bound {
            proof {
                lemma_above_stays(indices@, bound, index + 1);
            }
            return Some(indices[index]);
        }
        index += 1;
    }
    assert(indices@.take(index as int) =~= indices@);
    None
}

proof fn lemma_above_stays(indices: Seq<usize>, bound: usize, count: int)
    requires
        0 <= count <= indices.len(),
        first_above(indices.take(count), bound) is Some,
    ensures
        first_above(indices, bound) == first_above(indices.take(count), bound),
    decreases indices.len(),
{
    if count == indices.len() {
        assert(indices.take(count) =~= indices);
    } else {
        assert(indices.drop_last().take(count) =~= indices.take(count));
        lemma_above_stays(indices.drop_last(), bound, count);
    }
}

impl GuiApp {
    /// Moves the selection by a number of entries; among the queued entries in
    /// the view of the delete queue.
    fn move_by(&mut self, back: bool, distance: usize)
        ensures
            final(self)@ == old(self)@.moved_by(
                if back {
                    -distance
                } else {
                    distance as int
                },
            ),
    {
        proof {
            reveal(GuiView::moved_by);
        }
        let len = self.state.entries.len();
        if len == 0 {
            return;
        }
        if self.state.mode == ViewMode::DeleteQueueGrid {
            let indices = self.state.queued_indices();
            if indices.len() == 0 {
                return;
            }
            let position: usize = match self.state.queue_position() {
                Some(position) => position,
                None => 0,
            };
            let next: usize = if back {
                min_usize(position.saturating_sub(distance), indices.len() - 1)
            } else {
                min_usize(position.saturating_add(distance), indices.len() - 1)
            };
            self.set_current_index(indices[next]);
        } else {
            let next: usize = if back {
                min_usize(self.state.current_index.saturating_sub(distance), len - 1)
            } else {
                min_usize(self.state.current_index.saturating_add(distance), len - 1)
            };
            self.set_current_index(next);
        }
    }

    /// Moves the selection, where the key for it was pressed.
    fn move_if(&mut self, pressed: bool, back: bool, distance: usize)
        ensures
            final(self)@ == old(self)@.moved_if(
                pressed,
                if back {
                    -distance
                } else {
                    distance as int
                },
            ),
    {
        if pressed {
            self.move_by(back, distance);
        }
    }

    /// Selects the entry after the current one.
    fn select_next(&mut self)
        ensures
            final(self)@ == old(self)@.next_selected(),
    {
        proof {
            reveal(GuiView::next_selected);
        }
        if self.state.mode == ViewMode::DeleteQueueGrid {
            let indices = self.state.queued_indices();
            match find_above(&indices, self.state.current_index) {
                Some(index) => {
                    self.set_current_index(index);
                },
                None => {
                    if indices.len() > 0 {
                        self.set_current_index(indices[indices.len() - 1]);
                    }
                },
            }
        } else {
            self.move_by(false, 1);
        }
    }

    /// Selects the first entry.
    fn select_first(&mut self)
        ensures
            final(self)@ == old(self)@.first_selected(),
    {
        proof {
            reveal(GuiView::first_selected);
        }
        if self.state.mode == ViewMode::DeleteQueueGrid {
            let indices = self.state.queued_indices();
            if indices.len() > 0 {
                self.set_current_index(indices[0]);
                return;
            }
        }
        self.set_current_index(0);
    }

    /// Selects the last entry.
    fn select_last(&mut self)
        ensures
            final(self)@ == old(self)@.last_selected(),
    {
        proof {
            reveal(GuiView::last_selected);
        }
        if self.state.mode == ViewMode::DeleteQueueGrid {
            let indices = self.state.queued_indices();
            if indices.len() > 0 {
                self.set_current_index(indices[indices.len() - 1]);
                return;
            }
        }
        let last = self.state.entries.len().saturating_sub(1);
        self.set_current_index(last);
    }

    /// Shows how many files are marked.
    fn show_queue_count(&mut self)
        ensures
            final(self)@ == old(self)@.queue_status(),
    {
        let count = to_decimal(self.state.queue_count() as u128);
        let status = joined("queued: ", count.as_str());
        self.set_status(status.as_str());
    }

    /// Shows the delete queue.
    fn show_queue(&mut self)
        ensures
            final(self)@ == old(self)@.queue_shown(),
    {
        proof {
            reveal(GuiView::queue_shown);
        }
        let before: usize = self.state.current_index;
        self.state.enter_delete_queue_grid();
        assert(self@ == (GuiView { state: old(self)@.state.showing_queue(), ..old(self)@ }));
        self.finish_selection_change(before);
    }

    /// Marks or unmarks the current file.
    fn toggle_mark(&mut self)
        ensures
            final(self)@ == old(self)@.mark_toggled(),
    {
        proof {
            reveal(GuiView::mark_toggled);
        }
        self.state.toggle_queue_current();
        assert(self@ == (GuiView { state: old(self)@.state.queue_toggled(), ..old(self)@ }));
        self.show_queue_count();
    }

    /// Unmarks the current file.
    fn unmark(&mut self)
        ensures
            final(self)@ == old(self)@.unmarked(),
    {
        proof {
            reveal(GuiView::unmarked);
        }
        self.state.unqueue_current();
        assert(self@ == (GuiView { state: old(self)@.state.unqueued(), ..old(self)@ }));
        self.show_queue_count();
    }

    /// Asks whether to delete the marked files.
    fn ask_confirmation(&mut self)
        ensures
            final(self)@ == old(self)@.confirming(),
    {
        proof {
            reveal(GuiView::confirming);
        }
        self.state.confirm_delete = true;
    }

    /// Switches scans of subfolders on or off.
    fn switch_recursion(&mut self)
        ensures
            final(self)@ == old(self)@.recursion_switched(),
    {
        proof {
            reveal(GuiView::recursion_switched);
        }
        self.state.recursive = !self.state.recursive;
    }

    /// Switches between preview and grid.
    fn switch_view(&mut self)
        ensures
            final(self)@ == old(self)@.view_switched(),
    {
        proof {
            reveal(GuiView::view_switched);
        }
        let mode = match self.state.mode {
            ViewMode::Preview => ViewMode::Grid,
            ViewMode::Grid | ViewMode::DeleteQueueGrid => ViewMode::Preview,
        };
        self.state.mode = mode;
        self.scroll_to_current = true;
    }

    /// Shows the preview.
    #[verifier::rlimit(40)]
    pub fn open_preview(&mut self)
        ensures
            final(self)@ == old(self)@.previewing(),
    {
        proof {
            reveal(GuiView::previewing);
        }
        self.state.mode = ViewMode::Preview;
    }

    /// Handles `escape`; reports whether the window is to be closed.
    fn handle_escape(&mut self, keys: &Keys) -> (close: bool)
        ensures
            close == old(self)@.closes(*keys),
            final(self)@ == old(self)@.after_escape(*keys),
    {
        proof {
            reveal(GuiView::after_escape);
        }
        let in_grid = self.is_grid();
        if !keys.escape {
            return keys.q;
        }
        if self.state.show_help_overlay || self.state.show_info_overlay {
            self.state.show_help_overlay = false;
            self.state.show_info_overlay = false;
            keys.q
        } else if in_grid {
            self.open_preview();
            keys.q
        } else {
            true
        }
    }

    /// Whether a grid is shown.
    pub fn is_grid(&self) -> (yes: bool)
        ensures
            yes == self@.in_grid(),
    {
        self.state.mode == ViewMode::Grid || self.state.mode == ViewMode::DeleteQueueGrid
    }

    /// Handles the movement keys of the grid.
    fn handle_grid_moves(&mut self, keys: &Keys, cols: usize, rows: usize)
        ensures
            final(self)@ == old(self)@.after_grid_moves(*keys, cols, rows),
    {
        proof {
            reveal(GuiView::after_grid_moves);
        }
        let half: usize = saturating_product(max_usize(rows / 2, 1), cols);
        self.move_if(keys.h || keys.left, true, 1);
        self.move_if(keys.l || keys.right, false, 1);
        self.move_if(keys.k || keys.up, true, cols);
        self.move_if(keys.j || keys.down, false, cols);
        self.move_if(keys.ctrl && keys.d, false, half);
        self.move_if(keys.ctrl && keys.u, true, half);
    }

    /// Handles the movement keys of the preview.
    fn handle_preview_moves(&mut self, keys: &Keys)
        ensures
            final(self)@ == old(self)@.after_preview_moves(*keys),
    {
        proof {
            reveal(GuiView::after_preview_moves);
        }
        self.move_if(keys.l || keys.j || keys.right || keys.down, false, 1);
        self.move_if(keys.h || keys.k || keys.left || keys.up, true, 1);
    }

    /// Handles `home` and `end`.
    fn handle_jumps(&mut self, keys: &Keys)
        ensures
            final(self)@ == old(self)@.after_jumps(*keys),
    {
        proof {
            reveal(GuiView::after_jumps);
        }
        if keys.home {
            self.select_first();
        }
        if keys.end {
            self.select_last();
        }
    }

    /// Handles the keys of the delete queue and the space bar.
    fn handle_marks(&mut self, keys: &Keys)
        ensures
            final(self)@ == old(self)@.after_marks(*keys),
    {
        proof {
            reveal(GuiView::after_marks);
        }
        if keys.shift && keys.d {
            self.show_queue();
        } else if keys.space && self.current_is_video() {
            self.toggle_current_video_playback();
        } else if keys.d && !keys.ctrl {
            self.toggle_mark();
            self.select_next();
        }
    }

    /// Handles the keys that seek, unmark, and show progress.
    fn handle_seeks(&mut self, keys: &Keys, now: u128)
        ensures
            final(self)@ == old(self)@.after_seeks(*keys, now),
    {
        proof {
            reveal(GuiView::after_seeks);
        }
        if keys.u && !keys.ctrl {
            match contextual_u_key_action(self.active_current_video_can_seek()) {
                UKeyAction::SeekBackward => {
                    self.seek_current_video(VideoSeekDirection::Backward, now);
                },
                UKeyAction::Unqueue => {
                    self.unmark();
                },
            }
        }
        if keys.o && !keys.ctrl {
            self.seek_current_video(VideoSeekDirection::Forward, now);
        }
        if keys.y && y_key_action(false) == YKeyAction::ShowProgress {
            self.show_video_progress_overlay(now);
        }
    }

    /// Handles `r`.
    fn handle_scan_key(&mut self, keys: &Keys)
        ensures
            final(self)@ == old(self)@.after_scan_key(*keys),
    {
        proof {
            reveal(GuiView::after_scan_key);
        }
        if !keys.r {
            return;
        }
        if keys.ctrl {
            if self.state.queue_count() == 0 {
                self.set_status("delete queue is empty");
            } else {
                self.ask_confirmation();
            }
        } else if !keys.shift && !self.state.is_selected_file_scope() {
            self.switch_recursion();
        }
    }

    /// Handles the keys that switch between preview and grid.
    fn handle_view_keys(&mut self, keys: &Keys, in_grid: bool)
        ensures
            final(self)@ == old(self)@.after_view_keys(*keys, in_grid),
    {
        proof {
            reveal(GuiView::after_view_keys);
        }
        if keys.g {
            self.switch_view();
        }
        if in_grid && keys.enter {
            self.open_preview();
        }
    }

    /// Handles the keys of the zoom and of full screen.
    #[verifier::rlimit(40)]
    fn handle_size_keys(&mut self, keys: &Keys)
        ensures
            final(self)@ == old(self)@.after_size_keys(*keys),
    {
        proof {
            reveal(GuiView::after_size_keys);
        }
        let zoom_mode = match (keys.z, self.state.zoom_mode) {
            (false, zoom_mode) => zoom_mode,
            (true, ZoomMode::Fit) => ZoomMode::OriginalPixels,
            (true, ZoomMode::OriginalPixels) => ZoomMode::Fit,
        };
        self.state.zoom_mode = zoom_mode;
        self.fullscreen = self.fullscreen != keys.f;
    }

    /// Handles the keys of audio, advancing, and badges.
    fn handle_switches(&mut self, keys: &Keys)
        ensures
            final(self)@ == old(self)@.after_switches(*keys),
    {
        proof {
            reveal(GuiView::after_switches);
        }
        if keys.m {
            self.toggle_video_mute();
        }
        if keys.a {
            self.toggle_auto_next();
        }
        if keys.p {
            self.toggle_repeat();
        }
        if keys.b {
            self.toggle_media_type_badges();
        }
    }

    /// Handles the keys of the overlays.
    fn handle_overlay_keys(&mut self, keys: &Keys)
        ensures
            final(self)@ == old(self)@.after_overlay_keys(*keys),
    {
        proof {
            reveal(GuiView::after_overlay_keys);
        }
        self.state.show_info_overlay = self.state.show_info_overlay != keys.i;
        self.state.show_help_overlay = self.state.show_help_overlay != keys.question;
    }

    /// Handles the keys of a frame while a deletion is asked about: only `y`, `n`
    /// and `escape` do anything.
    fn handle_confirm_keys(&mut self, keys: &Keys) -> (confirmed: bool)
        ensures
            confirmed == keys.y,
            final(self)@ == old(self)@.after_confirm_keys(*keys),
    {
        proof {
            reveal(GuiView::after_confirm_keys);
        }
        if keys.y {
            y_key_action(true) == YKeyAction::ConfirmDelete
        } else {
            if keys.n || keys.escape {
                self.state.confirm_delete = false;
                self.set_status("delete cancelled");
            }
            false
        }
    }

    /// Handles the keys of a frame while no deletion is asked about; reports
    /// whether the window is to be closed.
    fn handle_keys(&mut self, keys: &Keys, now: u128) -> (close: bool)
        ensures
            close == old(self)@.closes(*keys),
            final(self)@ == old(self)@.after_keys(*keys, now),
    {
        proof {
            reveal(GuiView::after_keys);
        }
        let cols: usize = max_usize(self.grid_cols, 1);
        let rows: usize = max_usize(self.grid_rows, 1);
        let in_grid = self.is_grid();
        let close = self.handle_escape(keys);
        if in_grid {
            self.handle_grid_moves(keys, cols, rows);
        } else {
            self.handle_preview_moves(keys);
        }
        self.handle_jumps(keys);
        self.handle_marks(keys);
        self.handle_seeks(keys, now);
        self.handle_scan_key(keys);
        if keys.period {
            self.switch_hidden();
        }
        self.handle_view_keys(keys, in_grid);
        self.handle_size_keys(keys);
        self.handle_switches(keys);
        self.handle_overlay_keys(keys);
        if close {
            self.stop_active_video();
        }
        close
    }

    /// Handles the keys of a frame at a time, and returns what is to be done
    /// outside.
    pub fn handle_input(&mut self, keys: &Keys, now: u128) -> (effects: Vec<GuiEffect>)
        ensures
            final(self)@ == old(self)@.after_input(*keys, now),
            effects@ == old(self)@.input_effects(*keys, now),
    {
        if self.state.confirm_delete {
            let mut effects: Vec<GuiEffect> = Vec::new();
            if self.handle_confirm_keys(keys) {
                effects.push(GuiEffect::DeleteQueued);
            }
            return effects;
        }
        let mut effects = sort_effects(keys, self.state.sort_mode);
        let close = self.handle_keys(keys, now);
        let enrich = keys.i && self.state.show_info_overlay;
        add_effect(&mut effects, enrich, GuiEffect::EnrichCurrent);
        add_effect(&mut effects, (keys.r && !keys.ctrl) || keys.period, GuiEffect::Rescan);
        add_effect(&mut effects, keys.f, GuiEffect::Fullscreen(self.fullscreen));
        add_effect(&mut effects, close, GuiEffect::Close);
        effects
    }
}

/// The sort that the keys of a frame ask for.
fn sort_effects(keys: &Keys, sort_mode: SortMode) -> (effects: Vec<GuiEffect>)
    ensures
        effects@ == if keys.n {
            seq![GuiEffect::Sort(name_sort_after(sort_mode))]
        } else if keys.t {
            seq![GuiEffect::Sort(time_sort_after(sort_mode))]
        } else {
            Seq::empty()
        },
{
    let mut effects: Vec<GuiEffect> = Vec::new();
    if keys.n {
        effects.push(GuiEffect::Sort(next_name_sort(sort_mode)));
    } else if keys.t {
        effects.push(GuiEffect::Sort(next_time_sort(sort_mode)));
    }
    effects
}

} // verus!
