//! Decisions about playing videos and what the window shows of them.
//!
//! Durations, positions and times are in nanoseconds.

use vstd::prelude::*;
use vstd::string::StringExecFns;

use crate::assoc::Key;
use crate::binary::{
    lemma_nearest_is_not_negative, lemma_nearest_of_ratio, lemma_nearest_zero,
    lemma_seconds_error, lemma_times_are_not_negative, lemma_whole_is_exact,
    lemma_whole_is_ordinary, nanoseconds, product, quotient, seconds, seconds_of, unit, whole,
    Binary, NANOS,
};
use crate::numbers::least;
use crate::path::MediaPath;
use crate::state::{entries_of, AppState, EntryView, MediaEntry, MediaKind, MediaMode, ViewMode};
use crate::text::{decimal, joined, law_decimal_reads_back, read_decimal, to_decimal};

verus! {

/// How long the progress overlay stays visible: two seconds.
pub const VIDEO_PROGRESS_OVERLAY_NANOS: u128 = 2_000_000_000;

const NANOS_PER_SECOND: u128 = 1_000_000_000;

/// Whether a grid cell carries a badge that tells images and videos apart.
pub fn should_show_media_type_badge(
    badges_visible: bool,
    media_mode: MediaMode,
    media_kind: &MediaKind,
    active_video_playing: bool,
) -> (shown: bool)
    ensures
        shown == badge_shown(badges_visible, media_mode, *media_kind, active_video_playing),
{
    badges_visible && media_mode == MediaMode::Both && !(media_kind.is_video()
        && active_video_playing)
}

/// Badges are shown where both kinds of media are listed, except on a video that
/// is playing in its cell.
pub open spec fn badge_shown(
    badges_visible: bool,
    media_mode: MediaMode,
    media_kind: MediaKind,
    playing: bool,
) -> bool {
    badges_visible && media_mode == MediaMode::Both && !(media_kind is Video && playing)
}

/// The status of a session without media.
pub open spec fn empty_status(target: Seq<char>) -> Seq<char> {
    "No media found at "@ + target + "; press `r` for recursive search or `q` to quit"@
}

/// The status of a session without media in `target`.
pub fn empty_media_status(target: &str) -> (status: String)
    ensures
        status@ == empty_status(target@),
{
    let mut status = joined("No media found at ", target);
    status.append("; press `r` for recursive search or `q` to quit");
    status
}

/// The first view: a file that was asked for opens in the preview, a folder in
/// the grid.
pub fn initial_view_mode(initial_file: Option<&MediaPath>) -> (mode: ViewMode)
    ensures
        mode == if initial_file is Some {
            ViewMode::Preview
        } else {
            ViewMode::Grid
        },
{
    if initial_file.is_some() {
        ViewMode::Preview
    } else {
        ViewMode::Grid
    }
}

/// Whether the session starts with the video that was asked for.
pub fn should_autoplay_initial_video(
    state: &AppState,
    initial_file: Option<&MediaPath>,
) -> (autoplay: bool)
    ensures
        autoplay == match initial_file {
            Some(file) => state@.current_path() == Some(file@) && state@.current_is_video(),
            None => false,
        },
{
    let file = match initial_file {
        Some(file) => file,
        None => {
            return false;
        },
    };
    match state.current_entry() {
        Some(entry) => entry.path.same(file) && entry.media_kind.is_video(),
        None => false,
    }
}

/// Starting a video arms the playback of videos selected later.
pub fn selection_autoplay_after_playback_start() -> (armed: bool)
    ensures
        armed,
{
    true
}

/// Pausing disarms the playback of videos selected later, resuming arms it.
pub fn selection_autoplay_after_pause_state(paused: bool) -> (armed: bool)
    ensures
        armed == !paused,
{
    !paused
}

/// Whether a newly selected entry starts playing.
pub fn should_autoplay_selected_video(armed: bool, entry: Option<&MediaEntry>) -> (autoplay: bool)
    ensures
        autoplay == (armed && match entry {
            Some(entry) => entry@.media_kind is Video,
            None => false,
        }),
{
    armed && match entry {
        Some(entry) => entry.media_kind.is_video(),
        None => false,
    }
}

/// Seeking keeps the session armed unless the video was paused.
pub fn selection_autoplay_after_seek(was_paused: bool) -> (armed: bool)
    ensures
        armed == !was_paused,
{
    !was_paused
}

#[derive(Debug, Clone, Copy, PartialEq, Eq, Structural)]
pub enum VideoSeekDirection {
    Backward,
    Forward,
}

#[derive(Debug, Clone, Copy, PartialEq, Eq, Structural)]
pub enum UKeyAction {
    SeekBackward,
    Unqueue,
}

#[derive(Debug, Clone, Copy, PartialEq, Eq, Structural)]
pub enum YKeyAction {
    ConfirmDelete,
    ShowProgress,
}

/// How far a video has been played.
#[derive(Debug, Clone, Copy, PartialEq, Eq, Structural)]
pub struct VideoProgress {
    pub position: u128,
    pub duration: u128,
}

impl VideoProgress {
    /// The part of the video that has been played, from zero to one.
    pub open spec fn part(self) -> int {
        least(quotient(seconds(self.position as int), seconds(self.duration as int)), whole(1))
    }

    /// The part of the video that has been played.
    pub fn fraction(&self) -> (fraction: Binary)
        requires
            self.duration > 0,
        ensures
            fraction@ == self.part(),
            fraction@ <= unit(),
    {
        proof {
            lemma_whole_is_exact(1);
        }
        let played = seconds_of(self.position).quotient(seconds_of(self.duration));
        played.least(Binary::from_whole(1))
    }
}

/// `u` rewinds a video that can be sought, and unmarks the entry otherwise.
pub fn contextual_u_key_action(active_current_video_can_seek: bool) -> (action: UKeyAction)
    ensures
        action == if active_current_video_can_seek {
            UKeyAction::SeekBackward
        } else {
            UKeyAction::Unqueue
        },
{
    if active_current_video_can_seek {
        UKeyAction::SeekBackward
    } else {
        UKeyAction::Unqueue
    }
}

/// `y` confirms a deletion while one is asked about, and shows the progress of
/// the video otherwise.
pub fn y_key_action(confirm_delete: bool) -> (action: YKeyAction)
    ensures
        action == if confirm_delete {
            YKeyAction::ConfirmDelete
        } else {
            YKeyAction::ShowProgress
        },
{
    if confirm_delete {
        YKeyAction::ConfirmDelete
    } else {
        YKeyAction::ShowProgress
    }
}

/// A tenth of a duration, in seconds with 53 bits and then to the nearest nanosecond.
#[verifier::opaque]
pub open spec fn tenth(duration: int) -> int {
    least(
        nanoseconds(product(seconds(duration), quotient(whole(1), whole(10)))),
        u128::MAX as int,
    )
}

proof fn lemma_tenth(duration: int)
    requires
        0 <= duration,
    ensures
        0 <= tenth(duration),
{
    reveal(tenth);
    lemma_whole_is_exact(1);
    lemma_whole_is_exact(10);
    lemma_whole_is_ordinary(1);
    assert(10 * unit() > 0 && 1 * unit() >= 0);
    lemma_nearest_is_not_negative(whole(1), whole(10));
    lemma_times_are_not_negative(duration, quotient(whole(1), whole(10)));
}

/// How far one seek moves: a tenth of the video.
pub fn video_seek_step(duration: u128) -> (step: Option<u128>)
    ensures
        step == if duration == 0 {
            None
        } else {
            Some(tenth(duration as int) as u128)
        },
        0 <= tenth(duration as int) <= u128::MAX,
{
    proof {
        reveal(tenth);
        lemma_tenth(duration as int);
    }
    if duration == 0 {
        None
    } else {
        let part = Binary::from_whole(1).quotient(Binary::from_whole(10));
        Some(seconds_of(duration).product(part).to_nanoseconds())
    }
}

/// Where a seek leads to: a tenth of the video away, but inside of it.
pub open spec fn seek_target(
    position: int,
    duration: Option<u128>,
    direction: VideoSeekDirection,
) -> Option<int> {
    match duration {
        Some(duration) => if duration == 0 {
            None
        } else {
            let step = tenth(duration as int);
            let target = match direction {
                VideoSeekDirection::Backward => position - step,
                VideoSeekDirection::Forward => position + step,
            };
            Some(
                if target < 0 {
                    0
                } else if target > duration {
                    duration as int
                } else {
                    target
                },
            )
        },
        None => None,
    }
}

/// Where a seek leads to, where the duration of the video is known.
pub fn video_seek_target(
    position: u128,
    duration: Option<u128>,
    direction: VideoSeekDirection,
) -> (target: Option<u128>)
    ensures
        match target {
            Some(target) => seek_target(position as int, duration, direction) == Some(
                target as int,
            ),
            None => seek_target(position as int, duration, direction) is None,
        },
{
    let duration: u128 = match duration {
        Some(duration) => duration,
        None => {
            return None;
        },
    };
    let step: u128 = match video_seek_step(duration) {
        Some(step) => step,
        None => {
            return None;
        },
    };
    let target: u128 = match direction {
        VideoSeekDirection::Backward => position.saturating_sub(step),
        VideoSeekDirection::Forward => match position.checked_add(step) {
            Some(sum) => sum,
            None => duration,
        },
    };
    if target > duration {
        Some(duration)
    } else {
        Some(target)
    }
}

/// How far a video has been played, where its duration is known.
pub open spec fn progress_of(position: u128, duration: Option<u128>) -> Option<VideoProgress> {
    match duration {
        Some(duration) => if duration == 0 {
            None
        } else {
            Some(
                VideoProgress {
                    position: if position > duration {
                        duration
                    } else {
                        position
                    },
                    duration,
                },
            )
        },
        None => None,
    }
}

pub fn video_progress(position: u128, duration: Option<u128>) -> (progress: Option<VideoProgress>)
    ensures
        progress == progress_of(position, duration),
{
    match duration {
        Some(duration) => if duration == 0 {
            None
        } else {
            Some(
                VideoProgress {
                    position: if position > duration {
                        duration
                    } else {
                        position
                    },
                    duration,
                },
            )
        },
        None => None,
    }
}

/// The time until which the progress overlay is visible; the last representable
/// one where it would lie behind it.
pub open spec fn overlay_deadline(now: u128) -> u128 {
    if now + VIDEO_PROGRESS_OVERLAY_NANOS > u128::MAX {
        u128::MAX
    } else {
        (now + VIDEO_PROGRESS_OVERLAY_NANOS) as u128
    }
}

pub fn video_progress_overlay_deadline(now: u128) -> (deadline: u128)
    ensures
        deadline == overlay_deadline(now),
{
    now.saturating_add(VIDEO_PROGRESS_OVERLAY_NANOS)
}

/// The new deadline of the overlay, where there is progress to show.
pub fn video_progress_overlay_deadline_for_trigger(now: u128, can_show: bool) -> (deadline: Option<
    u128,
>)
    ensures
        deadline == if can_show {
            Some(overlay_deadline(now))
        } else {
            None
        },
{
    if can_show {
        Some(video_progress_overlay_deadline(now))
    } else {
        None
    }
}

/// Whether the overlay is to be visible.
pub fn video_progress_overlay_target_visible(now: u128, visible_until: u128) -> (visible: bool)
    ensures
        visible == (now < visible_until),
{
    now < visible_until
}

/// A number of minutes or seconds, in two digits.
pub open spec fn two_digits(n: nat) -> Seq<char> {
    if n < 10 {
        "0"@ + decimal(n)
    } else {
        decimal(n)
    }
}

/// A duration as hours, minutes and seconds.
pub open spec fn timestamp_text(duration: nat) -> Seq<char> {
    let seconds = duration / 1_000_000_000;
    let hours = seconds / 3600;
    let minutes = (seconds % 3600) / 60;
    if hours > 0 {
        decimal(hours) + ":"@ + two_digits(minutes) + ":"@ + two_digits(seconds % 60)
    } else {
        decimal(minutes) + ":"@ + two_digits(seconds % 60)
    }
}

fn padded(n: u128) -> (text: String)
    ensures
        text@ == two_digits(n as nat),
{
    if n < 10 {
        joined("0", to_decimal(n).as_str())
    } else {
        to_decimal(n)
    }
}

/// A duration as hours, minutes and seconds; without hours where there are none.
pub fn format_video_timestamp(duration: u128) -> (text: String)
    ensures
        text@ == timestamp_text(duration as nat),
{
    let seconds: u128 = duration / NANOS_PER_SECOND;
    let hours: u128 = seconds / 3600;
    let minutes: u128 = (seconds % 3600) / 60;
    let mut text = String::new();
    if hours > 0 {
        text.append(to_decimal(hours).as_str());
        text.append(":");
        text.append(padded(minutes).as_str());
    } else {
        text.append(to_decimal(minutes).as_str());
    }
    text.append(":");
    text.append(padded(seconds % 60).as_str());
    assert(text@ =~= timestamp_text(duration as nat));
    text
}

/// Whether the first video behind an index is at `found`.
pub open spec fn next_video_at(entries: Seq<EntryView>, current: int, found: int) -> bool {
    &&& current < found < entries.len()
    &&& entries[found].media_kind is Video
    &&& forall|i: int| current < i < found ==> !((#[trigger] entries[i]).media_kind is Video)
}

/// The index of the first video behind an index.
pub open spec fn next_video(entries: Seq<EntryView>, current: int) -> Option<int> {
    if exists|found: int| next_video_at(entries, current, found) {
        Some(choose|found: int| next_video_at(entries, current, found))
    } else {
        None
    }
}

/// The index of the first video behind `current_index`, without wrapping around.
pub fn next_video_index_after(entries: &Vec<MediaEntry>, current_index: usize) -> (next: Option<
    usize,
>)
    ensures
        match next {
            Some(index) => next_video(entries_of(entries@), current_index as int) == Some(
                index as int,
            ) && next_video_at(entries_of(entries@), current_index as int, index as int),
            None => next_video(entries_of(entries@), current_index as int) is None,
        },
{
    let ghost all = entries_of(entries@);
    if current_index == usize::MAX {
        assert(entries@.len() == entries.len());
        return None;
    }
    let mut index: usize = current_index + 1;
    while index < entries.len()
        invariant
            all == entries_of(entries@),
            current_index < index,
            forall|i: int|
                current_index < i < index && i < all.len() ==> !((
                #[trigger] all[i]).media_kind is Video),
        decreases entries@.len() - index,
    {
        assert(all[index as int] == entries@[index as int]@);
        if entries[index].media_kind.is_video() {
            proof {
                assert(next_video_at(all, current_index as int, index as int));
                let found = choose|found: int| next_video_at(all, current_index as int, found);
                if found < index {
                    assert(!(all[found].media_kind is Video));
                }
                if index < found {
                    assert(!(all[index as int].media_kind is Video));
                }
            }
            return Some(index);
        }
        index += 1;
    }
    None
}

/// What a change of the window's focus does to a playing video.
#[derive(Debug, Clone, Copy, PartialEq, Eq, Structural)]
pub struct FocusPlaybackEffect {
    pub pause_video: bool,
    pub selection_autoplay_armed: bool,
}

/// Losing the focus pauses a playing video and disarms the session; nothing else
/// does either.
pub open spec fn focus_effect(
    was_focused: bool,
    is_focused: bool,
    playing: bool,
    armed: bool,
) -> FocusPlaybackEffect {
    let pause_video = was_focused && !is_focused && playing;
    FocusPlaybackEffect { pause_video, selection_autoplay_armed: armed && !pause_video }
}

pub fn focus_playback_effect(
    was_focused: bool,
    is_focused: bool,
    active_video_playing: bool,
    selection_autoplay_armed: bool,
) -> (effect: FocusPlaybackEffect)
    ensures
        effect == focus_effect(
            was_focused,
            is_focused,
            active_video_playing,
            selection_autoplay_armed,
        ),
{
    let pause_video = was_focused && !is_focused && active_video_playing;
    FocusPlaybackEffect {
        pause_video,
        selection_autoplay_armed: if pause_video {
            false
        } else {
            selection_autoplay_armed
        },
    }
}

/// Seeking on and back again returns to a position from which a whole step fits
/// on either side.
pub proof fn law_seek_back_undoes_seek_on(position: u128, duration: u128)
    requires
        duration > 0,
        position + tenth(duration as int) <= duration,
    ensures
        seek_target(position as int, Some(duration), VideoSeekDirection::Forward) == Some(
            position + tenth(duration as int),
        ),
        seek_target(
            position + tenth(duration as int),
            Some(duration),
            VideoSeekDirection::Backward,
        ) == Some(position as int),
{
    lemma_tenth(duration as int);
}

/// A seek leads to a position inside of the video.
pub proof fn law_seek_stays_inside(
    position: u128,
    duration: u128,
    direction: VideoSeekDirection,
)
    requires
        duration > 0,
    ensures
        seek_target(position as int, Some(duration), direction) matches Some(target)
            && 0 <= target <= duration,
{
}

/// Seeking back leads no further than to the position before, and seeking on no less far,
/// unless to the end; and both lead a tenth of the video away, but for its ends: to five
/// parts in 2^53 and half a nanosecond.
pub proof fn law_seek_moves_by_a_tenth(position: u128, duration: u128)
    requires
        0 < duration,
        position <= duration,
    ensures
        seek_target(position as int, Some(duration), VideoSeekDirection::Backward) matches Some(
            back,
        ) && {
            &&& 0 <= back <= position
            &&& back > 0 ==> (duration - 10 * (position - back)) * 0x20_0000_0000_0000 <= 5
                * duration + 5 * 0x20_0000_0000_0000
            &&& (10 * (position - back) - duration) * 0x20_0000_0000_0000 <= 5 * duration + 5
                * 0x20_0000_0000_0000
        },
        seek_target(position as int, Some(duration), VideoSeekDirection::Forward) matches Some(
            on,
        ) && {
            &&& position <= on <= duration
            &&& on < duration ==> (duration - 10 * (on - position)) * 0x20_0000_0000_0000 <= 5
                * duration + 5 * 0x20_0000_0000_0000
            &&& (10 * (on - position) - duration) * 0x20_0000_0000_0000 <= 5 * duration + 5
                * 0x20_0000_0000_0000
        },
{
    reveal(tenth);
    lemma_tenth(duration as int);
    crate::binary::lemma_tenth_error(duration as int);
    let exact = nanoseconds(product(seconds(duration as int), quotient(whole(1), whole(10))));
    let step = tenth(duration as int);
    assert(exact <= duration);
    assert(step == exact);
}

/// Progress is shown of a video whose duration is known and not nothing; it never lies
/// behind the end.
pub proof fn law_progress_is_within_the_video(position: u128, duration: Option<u128>)
    ensures
        progress_of(position, duration) is Some <==> (duration matches Some(length) && length > 0),
        progress_of(position, duration) matches Some(progress) ==> {
            &&& Some(progress.duration) == duration
            &&& progress.position <= progress.duration
            &&& position <= progress.duration ==> progress.position == position
            &&& position > progress.duration ==> progress.position == progress.duration
        },
{
}

/// A video has been played in part only: nothing of it at its beginning, all of it at its
/// end, and never more.
pub proof fn law_played_part(duration: u128, position: u128)
    requires
        duration > 0,
    ensures
        (VideoProgress { position: 0, duration }).part() == 0,
        (VideoProgress { position: duration, duration }).part() == unit(),
        (VideoProgress { position, duration }).part() <= unit(),
{
    lemma_whole_is_exact(1);
    lemma_whole_is_ordinary(1);
    lemma_seconds_error(duration as int);
    let length = seconds(duration as int);
    assert(length > 0) by (nonlinear_arith)
        requires
            length * (4 * NANOS) >= unit(),
            unit() > 0,
    ;
    lemma_nearest_of_ratio(length, length, 1, 1);
    assert(seconds(0) == 0) by {
        lemma_whole_is_exact(NANOS as int);
        lemma_nearest_zero(1);
        assert(NANOS * unit() > 0) by (nonlinear_arith)
            requires
                unit() > 0,
        ;
        lemma_nearest_zero(NANOS * unit());
        lemma_nearest_zero(unit());
    }
    lemma_nearest_zero(length);
}

/// The overlay of the progress is shown for two seconds.
pub proof fn law_overlay_lasts_two_seconds(now: u128)
    ensures
        now + 2_000_000_000 <= u128::MAX ==> overlay_deadline(now) == now + 2_000_000_000,
        now + 2_000_000_000 > u128::MAX ==> overlay_deadline(now) == u128::MAX,
{
}

/// A position is written in hours, minutes and seconds, without the hours where there are
/// none; parts of a second are left out, and minutes after hours, and seconds, have two
/// digits.
pub proof fn law_positions_are_written(hours: nat, minutes: nat, seconds: nat, rest: nat)
    requires
        minutes < 60,
        seconds < 60,
        rest < 1_000_000_000,
    ensures
        ({
            let text = timestamp_text(
                (3600 * hours + 60 * minutes + seconds) * 1_000_000_000 + rest,
            );
            &&& hours > 0 ==> text == decimal(hours) + ":"@ + two_digits(minutes) + ":"@
                + two_digits(seconds)
            &&& hours == 0 ==> text == decimal(minutes) + ":"@ + two_digits(seconds)
        }),
        two_digits(seconds).len() == 2,
        two_digits(minutes).len() == 2,
        read_decimal(two_digits(seconds)) == seconds,
        read_decimal(two_digits(minutes)) == minutes,
{
    let total = 3600 * hours + 60 * minutes + seconds;
    let all = total * 1_000_000_000 + rest;
    assert(all / 1_000_000_000 == total);
    assert(total / 3600 == hours && total % 3600 == 60 * minutes + seconds);
    assert((60 * minutes + seconds) / 60 == minutes && total % 60 == seconds);
    lemma_two_digits(seconds);
    lemma_two_digits(minutes);
}

proof fn lemma_two_digits(n: nat)
    requires
        n < 100,
    ensures
        two_digits(n).len() == 2,
        read_decimal(two_digits(n)) == n,
{
    reveal_strlit("0");
    reveal_with_fuel(decimal, 3);
    law_decimal_reads_back(n);
    if n < 10 {
        let text = "0"@ + decimal(n);
        assert(text.drop_last() =~= "0"@);
        reveal_with_fuel(read_decimal, 3);
        assert("0"@.drop_last() =~= Seq::empty());
        assert(decimal(n).drop_last() =~= Seq::empty());
    }
}

/// After a video comes the next one of the list, whatever stands between them; none comes
/// where none follows, and the list does not start again.
pub proof fn law_the_next_video_follows(entries: Seq<EntryView>, current: int, later: int)
    requires
        0 <= current < later < entries.len(),
    ensures
        entries[later].media_kind is Video ==> (next_video(entries, current) matches Some(next)
            && current < next <= later && entries[next].media_kind is Video),
        next_video(entries, current) matches Some(next) ==> current < next < entries.len()
            && entries[next].media_kind is Video && (later < next ==> !(
        entries[later].media_kind is Video)),
    decreases later,
{
    if entries[later].media_kind is Video {
        if next_video_at(entries, current, later) {
        } else {
            let earlier = choose|i: int|
                current < i < later && (#[trigger] entries[i]).media_kind is Video;
            law_the_next_video_follows(entries, current, earlier);
        }
    }
    if let Some(next) = next_video(entries, current) {
        assert(next_video_at(entries, current, next));
        if entries[later].media_kind is Video && later < next {
            assert(false);
        }
    }
}

/// A window that loses the focus pauses a playing video, and videos selected afterwards do
/// not start by themselves; gaining the focus, or losing it while nothing plays, changes
/// nothing.
pub proof fn law_losing_the_focus_pauses(was: bool, is: bool, playing: bool, armed: bool)
    ensures
        focus_effect(true, false, true, armed).pause_video,
        !focus_effect(true, false, true, armed).selection_autoplay_armed,
        !was || is || !playing ==> !focus_effect(was, is, playing, armed).pause_video,
        !was || is || !playing ==> focus_effect(was, is, playing, armed).selection_autoplay_armed
            == armed,
{
}

/// Badges tell images and videos apart where both are listed, and are hidden on request and
/// on a video that plays in its cell.
pub proof fn law_badges_tell_media_apart(kind: MediaKind, playing: bool)
    ensures
        !badge_shown(false, MediaMode::Both, kind, playing),
        !badge_shown(true, MediaMode::Image, kind, playing),
        !badge_shown(true, MediaMode::Video, kind, playing),
        kind is Image ==> badge_shown(true, MediaMode::Both, kind, playing),
        kind is Video ==> badge_shown(true, MediaMode::Both, kind, playing) == !playing,
{
}

} // verus!
