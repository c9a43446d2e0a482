//! What playback threads, scans, sorts and deletions do to the window.

use vstd::prelude::*;
use vstd::string::StringExecFns;

use crate::assoc::Key;
use crate::delete::{
    after_deletion, deletion_report, outcomes_of, DeleteReport, FileOutcome, ReportView,
};
use crate::sorter::sorted_entries;
use crate::state::{entries_of, EntryView, MediaEntry, SortMode, StateView, ViewMode};
use crate::text::{decimal, joined, to_decimal};
use crate::video::{PlaybackEvent, PlaybackEventView};

use super::keys::{law_selection_plays_armed_videos, lemma_selected_state};
use super::playback::{empty_media_status, empty_status, next_video_at};
use super::window::{number_after, ActiveVideo, GuiApp, GuiView, VideoView};

verus! {

/// A video after one of its events.
pub open spec fn video_after(video: VideoView, event: PlaybackEventView) -> VideoView {
    VideoView {
        handle: if event.ended {
            video.handle.with_paused(true)
        } else {
            video.handle
        },
        has_texture: video.has_texture || event.frame,
        start_at: video.start_at,
        position: match event.position {
            Some(position) => position,
            None => video.position,
        },
        duration: if event.duration is Some {
            event.duration
        } else {
            video.duration
        },
        ended: video.ended || event.ended || event.error is Some,
    }
}

/// Whether the frame of an event is shown: a paused video keeps the frame that it
/// shows.
pub open spec fn frame_shown(video: VideoView, event: PlaybackEventView) -> bool {
    event.frame && !(video.handle.controls.paused && video.has_texture)
}

/// What is said of a finished scan.
pub open spec fn scan_status(state: StateView, target: Seq<char>) -> Seq<char> {
    if state.entries.len() == 0 {
        empty_status(target)
    } else if state.selected_files is Some {
        "scanned "@ + decimal(state.entries.len()) + " selected files"@
    } else if state.recursive {
        "scanned "@ + decimal(state.entries.len()) + " media files"@ + " recursively"@
    } else {
        "scanned "@ + decimal(state.entries.len()) + " media files"@
    }
}

/// What is said of a finished deletion.
pub open spec fn delete_status(report: ReportView) -> Seq<char> {
    let verb = if report.dry_run {
        "would delete "@
    } else {
        "deleted "@
    };
    if report.failed.len() == 0 {
        verb + decimal(report.deleted.len()) + " files"@
    } else {
        verb + decimal(report.deleted.len()) + "; failed "@ + decimal(report.failed.len())
    }
}

impl GuiView {
    /// Whether an event belongs to the active video.
    pub open spec fn concerned_by(self, event: PlaybackEventView) -> bool {
        match self.active_video {
            Some(video) => video.handle.id == event.playback_id && video.handle.path
                == event.path,
            None => false,
        }
    }

    /// The window after an event of the active video was noted.
    pub open spec fn event_noted(self, event: PlaybackEventView) -> GuiView {
        GuiView {
            active_video: Some(video_after(self.active_video.unwrap(), event)),
            status: if event.ended {
                "video ended"@
            } else {
                match event.error {
                    Some(error) => "video failed: "@ + error,
                    None => self.status,
                }
            },
            ..self
        }
    }

    /// The window after an event of a playback thread; events of earlier
    /// playbacks do nothing. At the end of a video it starts anew, where that is
    /// switched on, else the next one is selected, where that is.
    pub open spec fn after_event(self, event: PlaybackEventView) -> GuiView {
        if !self.concerned_by(event) {
            self
        } else if event.ended && self.repeat && event.error is None {
            self.event_noted(event).video_started(event.path, 0, false, true)
        } else if event.ended && self.auto_next && event.error is None {
            self.event_noted(event).next_video_selected()
        } else {
            self.event_noted(event)
        }
    }

    /// The window after its entries were sorted into a list.
    pub open spec fn resorted(self, mode: SortMode, sorted: Seq<EntryView>) -> GuiView {
        GuiView {
            state: self.state.resorted(mode, sorted),
            status: "sort: "@ + mode.name(),
            scroll_to_current: true,
            ..self.video_stopped()
        }
    }

    /// The window that keeps nothing decoded before.
    #[verifier::opaque]
    pub open spec fn decoded_forgotten(self) -> GuiView {
        GuiView {
            previews: self.previews.emptied(),
            thumbs: self.thumbs.emptied(),
            inflight: Seq::empty(),
            failed: Seq::empty(),
            arrived: Seq::empty(),
            scan_generation: number_after(self.scan_generation),
            ..self
        }
    }

    /// The window that shows the entries of a scan and nothing decoded before.
    #[verifier::opaque]
    pub open spec fn scan_taken(self, sorted: Seq<EntryView>) -> GuiView {
        let state = self.state.rescanned(sorted);
        self.decoded_forgotten().with_state(state).with_status(
            scan_status(state, self.empty_media_target),
        )
    }

    /// The window after a scan that found a list of entries: nothing is marked,
    /// and nothing decoded before is kept.
    pub open spec fn rescanned(self, sorted: Seq<EntryView>) -> GuiView {
        self.video_stopped().scan_taken(sorted)
    }

    /// The window after a scan that failed.
    pub open spec fn rescan_failed(self, error: Seq<char>) -> GuiView {
        GuiView {
            failed: Seq::empty(),
            status: "rescan failed: "@ + error,
            ..self.video_stopped()
        }
    }

    /// The window after the marked files were deleted; without entries it shows
    /// the preview.
    pub open spec fn deleted(self, report: ReportView) -> GuiView {
        let state = after_deletion(self.state.answered(), report);
        let done = GuiView {
            state,
            status: delete_status(report),
            scroll_to_current: true,
            ..self.video_stopped()
        };
        if state.entries.len() == 0 {
            done.previewing()
        } else {
            done
        }
    }
}

/// What is said of a finished scan.
fn scan_text(count: usize, selected: bool, recursive: bool) -> (text: String)
    ensures
        text@ == if selected {
            "scanned "@ + decimal(count as nat) + " selected files"@
        } else if recursive {
            "scanned "@ + decimal(count as nat) + " media files"@ + " recursively"@
        } else {
            "scanned "@ + decimal(count as nat) + " media files"@
        },
{
    let mut text = joined("scanned ", to_decimal(count as u128).as_str());
    if selected {
        text.append(" selected files");
    } else {
        text.append(" media files");
        if recursive {
            text.append(" recursively");
        }
    }
    text
}

/// What is said of a finished deletion.
fn delete_text(report: &DeleteReport) -> (text: String)
    ensures
        text@ == delete_status(report@),
{
    let mut text = if report.dry_run {
        "would delete ".to_owned()
    } else {
        "deleted ".to_owned()
    };
    text.append(to_decimal(report.deleted.len() as u128).as_str());
    if report.failed.len() == 0 {
        text.append(" files");
    } else {
        text.append("; failed ");
        text.append(to_decimal(report.failed.len() as u128).as_str());
    }
    text
}

proof fn lemma_stopped_keeps(view: GuiView)
    ensures
        view.video_stopped().state == view.state,
        view.video_stopped().locale == view.locale,
        view.video_stopped().empty_media_target == view.empty_media_target,
{
    reveal(GuiView::video_stopped);
}

proof fn lemma_forgotten_keeps(view: GuiView)
    ensures
        view.decoded_forgotten().state == view.state,
        view.decoded_forgotten().locale == view.locale,
        view.decoded_forgotten().empty_media_target == view.empty_media_target,
{
    reveal(GuiView::decoded_forgotten);
}

proof fn lemma_state_set(view: GuiView, state: StateView)
    ensures
        view.with_state(state).state == state,
        view.with_state(state).empty_media_target == view.empty_media_target,
{
    reveal(GuiView::with_state);
}

impl ActiveVideo {
    /// Notes an event of the video.
    fn note(&mut self, event: &PlaybackEvent)
        ensures
            final(self)@ == video_after(old(self)@, event@),
    {
        match event.position {
            Some(position) => {
                self.position = position;
            },
            None => {},
        }
        if event.duration.is_some() {
            self.duration = event.duration;
        }
        if event.error.is_some() || event.ended {
            self.ended = true;
        }
        if event.frame {
            self.has_texture = true;
        }
        if event.ended {
            self.handle.set_paused(true);
        }
    }
}

impl GuiApp {
    /// Notes an event of the active video.
    #[verifier::rlimit(40)]
    fn note_video_event(&mut self, event: &PlaybackEvent)
        requires
            old(self)@.active_video is Some,
        ensures
            final(self)@ == old(self)@.event_noted(event@),
    {
        match &mut self.active_video {
            Some(active) => {
                active.note(event);
            },
            None => {},
        }
        if event.ended {
            self.status = "video ended".to_owned();
        } else {
            match &event.error {
                Some(error) => {
                    self.status = joined("video failed: ", error.as_str());
                },
                None => {},
            }
        }
    }

    /// Whether an event belongs to the active video.
    fn concerns_active(&self, event: &PlaybackEvent) -> (concerned: bool)
        ensures
            concerned == self@.concerned_by(event@),
    {
        match &self.active_video {
            Some(active) => active.handle.id() == event.playback_id && active.handle.path().same(
                &event.path,
            ),
            None => false,
        }
    }

    /// Whether the active video shows the frame of one of its events.
    fn shows_frame_of(&self, event: &PlaybackEvent) -> (shown: bool)
        ensures
            shown == match self@.active_video {
                Some(video) => frame_shown(video, event@),
                None => false,
            },
    {
        match &self.active_video {
            Some(active) => event.frame && !(active.handle.is_paused() && active.has_texture),
            None => false,
        }
    }

    /// Handles an event of a playback thread; reports whether its frame is to be
    /// shown.
    pub fn handle_video_event(&mut self, event: &PlaybackEvent) -> (shown: bool)
        ensures
            shown == (old(self)@.concerned_by(event@) && frame_shown(
                old(self)@.active_video.unwrap(),
                event@,
            )),
            final(self)@ == old(self)@.after_event(event@),
    {
        if !self.concerns_active(event) {
            return false;
        }
        let shown = self.shows_frame_of(event);
        let ended = event.ended && event.error.is_none();
        let advance = ended && self.auto_next;
        let again = ended && self.repeat;
        self.note_video_event(event);
        if again {
            self.start_video_playback(event.path.clone());
        } else if advance {
            self.play_next_video_after_current();
        }
        shown
    }

    /// Sorts the entries.
    pub fn resort(&mut self, new_mode: SortMode)
        ensures
            exists|sorted: Seq<EntryView>| #[trigger]
                sorted_entries(old(self)@.state.entries, sorted, new_mode, old(self)@.locale)
                    && final(self)@ == old(self)@.resorted(new_mode, sorted),
    {
        proof {
            reveal(GuiView::video_stopped);
        }
        self.stop_active_video();
        let locale = match &self.locale {
            Some(text) => Some(text.as_str()),
            None => None,
        };
        self.state.resort(new_mode, locale);
        self.status = joined("sort: ", new_mode.as_str());
        self.scroll_to_current = true;
    }

    /// Forgets everything decoded so far.
    fn forget_decoded(&mut self)
        ensures
            final(self)@ == old(self)@.decoded_forgotten(),
    {
        proof {
            reveal(GuiView::decoded_forgotten);
        }
        self.previews.clear();
        self.thumbs.clear();
        self.inflight.clear();
        self.failed.clear();
        self.arrived.clear();
        self.scan_generation = self.scan_generation.wrapping_add(1);
    }

    /// Takes the entries of a scan into the state.
    fn take_scanned(&mut self, entries: Vec<MediaEntry>)
        ensures
            exists|sorted: Seq<EntryView>| #[trigger]
                sorted_entries(
                    entries_of(entries@),
                    sorted,
                    old(self)@.state.sort_mode,
                    old(self)@.locale,
                ) && final(self)@ == old(self)@.with_state(old(self)@.state.rescanned(sorted)),
    {
        proof {
            reveal(GuiView::with_state);
        }
        let locale = match &self.locale {
            Some(text) => Some(text.as_str()),
            None => None,
        };
        self.state.take_scan(entries, locale);
        self.scroll_to_current = true;
    }

    /// What is said of a finished scan.
    fn scan_text(&self) -> (text: String)
        ensures
            text@ == scan_status(self@.state, self@.empty_media_target),
    {
        if self.state.entries.len() == 0 {
            empty_media_status(self.empty_media_target.as_str())
        } else {
            scan_text(
                self.state.entries.len(),
                self.state.is_selected_file_scope(),
                self.state.recursive,
            )
        }
    }

    /// Shows the entries of a scan and nothing decoded before.
    #[verifier::rlimit(40)]
    fn finish_scan(&mut self, entries: Vec<MediaEntry>)
        ensures
            exists|sorted: Seq<EntryView>| #[trigger]
                sorted_entries(
                    entries_of(entries@),
                    sorted,
                    old(self)@.state.sort_mode,
                    old(self)@.locale,
                ) && final(self)@ == old(self)@.scan_taken(sorted),
    {
        proof {
            reveal(GuiView::scan_taken);
            lemma_forgotten_keeps(self@);
        }
        self.forget_decoded();
        let ghost forgotten = self@;
        let ghost found = entries_of(entries@);
        self.take_scanned(entries);
        let ghost sorted = choose|sorted: Seq<EntryView>| #[trigger]
            sorted_entries(found, sorted, forgotten.state.sort_mode, forgotten.locale) && self@
                == forgotten.with_state(forgotten.state.rescanned(sorted));
        proof {
            lemma_state_set(forgotten, forgotten.state.rescanned(sorted));
        }
        self.status = self.scan_text();
        assert(self@ == old(self)@.scan_taken(sorted));
    }

    /// Takes the entries of a scan, or the reason why it failed.
    pub fn rescan(&mut self, result: Result<Vec<MediaEntry>, String>)
        ensures
            match result {
                Ok(entries) => exists|sorted: Seq<EntryView>| #[trigger]
                    sorted_entries(
                        entries_of(entries@),
                        sorted,
                        old(self)@.state.sort_mode,
                        old(self)@.locale,
                    ) && final(self)@ == old(self)@.rescanned(sorted),
                Err(error) => final(self)@ == old(self)@.rescan_failed(error@),
            },
    {
        proof {
            lemma_stopped_keeps(self@);
        }
        self.stop_active_video();
        match result {
            Ok(entries) => self.finish_scan(entries),
            Err(error) => {
                self.failed.clear();
                self.status = joined("rescan failed: ", error.as_str());
            },
        }
    }

    /// Takes what became of the marked files, one outcome for each.
    pub fn confirm_delete(&mut self, outcomes: &Vec<FileOutcome>) -> (report: DeleteReport)
        requires
            outcomes@.len() == old(self)@.state.delete_queue.len(),
        ensures
            report@ == deletion_report(
                old(self)@.state,
                outcomes_of(outcomes@),
                old(self)@.dry_run,
            ),
            final(self)@ == old(self)@.deleted(report@),
    {
        proof {
            reveal(GuiView::video_stopped);
        }
        self.stop_active_video();
        let report = self.state.finish_deletion(self.dry_run, outcomes);
        self.status = delete_text(&report);
        self.scroll_to_current = true;
        if self.state.entries.len() == 0 {
            self.open_preview();
        }
        report
    }
}

/// Whether an event is one of the active video.
pub open spec fn is_of(view: GuiView, event: PlaybackEventView, video: VideoView) -> bool {
    &&& view.active_video == Some(video)
    &&& video.handle.id == event.playback_id
    &&& video.handle.path == event.path
}

/// An event of another playback, or of another file, does nothing.
pub proof fn law_foreign_events_do_nothing(view: GuiView, event: PlaybackEventView)
    requires
        view.active_video matches Some(video) ==> video.handle.id != event.playback_id
            || video.handle.path != event.path,
    ensures
        view.after_event(event) == view,
{
}

/// An event that is not the end of the active video brings its position and duration, where
/// it says them, and leaves what it does not say; a failure ends the video, and is said.
pub proof fn law_events_bring_the_position(
    view: GuiView,
    event: PlaybackEventView,
    video: VideoView,
)
    requires
        is_of(view, event, video),
        !event.ended,
    ensures
        ({
            let after = view.after_event(event);
            &&& after.state == view.state
            &&& after.active_video matches Some(next) && {
                &&& next.handle == video.handle
                &&& next.start_at == video.start_at
                &&& event.position matches Some(position) ==> next.position == position
                &&& event.position is None ==> next.position == video.position
                &&& event.duration matches Some(duration) ==> next.duration == Some(duration)
                &&& event.duration is None ==> next.duration == video.duration
                &&& next.ended == (video.ended || event.error is Some)
                &&& next.has_texture == (video.has_texture || event.frame)
            }
            &&& event.error matches Some(error) ==> after.status == "video failed: "@ + error
            &&& event.error is None ==> after.status == view.status
        }),
{
}

/// At its end a video that is repeated starts anew from its beginning; else, where videos
/// advance, the next video of the list is selected, and plays where the session is armed;
/// where there is none, or videos do not advance, the video stays, ended and paused.
pub proof fn law_the_end_of_a_video(
    view: GuiView,
    event: PlaybackEventView,
    video: VideoView,
    next: int,
)
    requires
        is_of(view, event, video),
        event.ended,
        event.error is None,
        view.state.entries.len() <= usize::MAX,
    ensures
        view.repeat ==> {
            &&& view.after_event(event).state == view.state
            &&& view.after_event(event).active_video matches Some(again) && {
                &&& again.handle.path == video.handle.path
                &&& again.start_at == 0 && again.position == 0
                &&& !again.handle.controls.paused && !again.ended
            }
        },
        !view.repeat && view.auto_next && view.state.current_index < next
            < view.state.entries.len() && view.state.entries[next].media_kind is Video && (
        forall|k: int|
            view.state.current_index < k < next ==> !((#[trigger] view.state.entries[k]).media_kind
                is Video)) ==> {
            &&& view.after_event(event).state.current_index == next
            &&& view.selection_autoplay_armed ==> (view.after_event(event).active_video matches
                Some(other) && other.handle.path == view.state.entries[next].path
                && other.start_at == 0 && !other.handle.controls.paused)
        },
        !view.repeat && view.auto_next && (forall|k: int|
            view.state.current_index < k < view.state.entries.len() ==> !((
            #[trigger] view.state.entries[k]).media_kind is Video)) ==> {
            &&& view.after_event(event).state == view.state
            &&& view.after_event(event).status == "video ended; no next video"@
        },
        !view.repeat && !view.auto_next ==> {
            &&& view.after_event(event).state == view.state
            &&& view.after_event(event).status == "video ended"@
            &&& view.after_event(event).active_video matches Some(last) && last.ended
                && last.handle.controls.paused && last.handle.id == video.handle.id
        },
{
    let noted = view.event_noted(event);
    assert(noted.state == view.state);
    if view.repeat {
        reveal(GuiView::video_started);
        reveal(GuiView::video_stopped);
    } else if view.auto_next {
        reveal(GuiView::next_video_selected);
        let entries = view.state.entries;
        let current = view.state.current_index as int;
        if current < next < entries.len() && entries[next].media_kind is Video && (forall|k: int|
            current < k < next ==> !((#[trigger] entries[k]).media_kind is Video)) {
            assert(next_video_at(entries, current, next));
            let found = choose|found: int| next_video_at(entries, current, found);
            assert(next_video_at(entries, current, found));
            if found < next {
                assert(!(entries[found].media_kind is Video));
            }
            if next < found {
                assert(!(entries[next].media_kind is Video));
            }
            lemma_selected_state(noted, next);
            law_selection_plays_armed_videos(noted, next);
        }
        if forall|k: int|
            current < k < entries.len() ==> !((#[trigger] entries[k]).media_kind is Video) {
            if exists|found: int| next_video_at(entries, current, found) {
                let found = choose|found: int| next_video_at(entries, current, found);
                assert(next_video_at(entries, current, found));
                assert(!(entries[found].media_kind is Video));
            }
        }
    }
}

/// A frame is shown while its video plays; a paused video shows its first frame, and keeps
/// the one that it shows.
pub proof fn law_paused_videos_keep_their_frame(video: VideoView, event: PlaybackEventView)
    ensures
        !event.frame ==> !frame_shown(video, event),
        event.frame && !video.handle.controls.paused ==> frame_shown(video, event),
        event.frame && video.handle.controls.paused ==> frame_shown(video, event)
            == !video.has_texture,
{
}

/// Sorting lists the sorted entries in the order that was asked for, says so, and stops the
/// video.
pub proof fn law_sorting_shows_the_order(view: GuiView, mode: SortMode, sorted: Seq<EntryView>)
    ensures
        view.resorted(mode, sorted).state.entries == sorted,
        view.resorted(mode, sorted).state.sort_mode == mode,
        view.resorted(mode, sorted).status == "sort: "@ + mode.name(),
        view.resorted(mode, sorted).active_video is None,
{
    reveal(StateView::resorted);
    reveal(StateView::with_entries);
    reveal(GuiView::video_stopped);
}

/// A scan lists what it found, and a scan that failed leaves the list and the marks.
pub proof fn law_scans_show_what_was_found(
    view: GuiView,
    found: Seq<EntryView>,
    error: Seq<char>,
)
    ensures
        view.rescanned(found).state.entries == found,
        view.rescanned(found).state.directory == view.state.directory,
        view.rescanned(found).state.sort_mode == view.state.sort_mode,
        view.rescanned(found).scan_generation != view.scan_generation,
        view.rescan_failed(error).state == view.state,
        view.rescan_failed(error).status == "rescan failed: "@ + error,
        view.rescan_failed(error).previews == view.previews,
        view.rescan_failed(error).scan_generation == view.scan_generation,
{
    reveal(GuiView::video_stopped);
    reveal(GuiView::scan_taken);
    reveal(GuiView::decoded_forgotten);
    reveal(GuiView::with_state);
    reveal(StateView::rescanned);
    reveal(StateView::with_entries);
}

/// After a deletion the question is answered, the video is stopped, and what was deleted is
/// counted; without files left the preview is shown.
pub proof fn law_deletions_are_told(view: GuiView, report: ReportView)
    ensures
        !view.deleted(report).state.confirm_delete,
        view.deleted(report).active_video is None,
        !report.dry_run && report.failed.len() == 0 ==> view.deleted(report).status == "deleted "@
            + decimal(report.deleted.len()) + " files"@,
        report.dry_run && report.failed.len() == 0 ==> view.deleted(report).status
            == "would delete "@ + decimal(report.deleted.len()) + " files"@,
        !report.dry_run && report.failed.len() > 0 ==> view.deleted(report).status == "deleted "@
            + decimal(report.deleted.len()) + "; failed "@ + decimal(report.failed.len()),
        view.deleted(report).state.entries.len() == 0 ==> view.deleted(report).state.mode
            == ViewMode::Preview,
        view.deleted(report).state.entries.len() > 0 ==> view.deleted(report).state.mode
            == view.state.mode,
{
    let state = after_deletion(view.state.answered(), report);
    lemma_deletion_keeps_view(view.state.answered(), report);
    let stopped = view.video_stopped();
    assert(stopped.active_video is None) by {
        reveal(GuiView::video_stopped);
    }
    let done = GuiView {
        state,
        status: delete_status(report),
        scroll_to_current: true,
        ..stopped
    };
    assert(done.previewing().state.mode == ViewMode::Preview && done.previewing().state.entries
        == state.entries && done.previewing().state.confirm_delete == state.confirm_delete
        && done.previewing().status == done.status && done.previewing().active_video
        == done.active_video) by {
        reveal(GuiView::previewing);
    }
}

proof fn lemma_deletion_keeps_view(state: StateView, report: ReportView)
    ensures
        after_deletion(state, report).confirm_delete == state.confirm_delete,
        after_deletion(state, report).mode == state.mode,
{
    reveal(after_deletion);
}

} // verus!
