//! Video playback: handles, seeking, the frame timeline and frame pixels.
//!
//! Durations and positions are in nanoseconds.

use vstd::prelude::*;

use crate::binary::{
    lemma_nearest_of_ratio, lemma_product_error, lemma_quotient_error, lemma_scaled_by_one,
    lemma_scaled_fits, lemma_whole_is_exact, lemma_whole_is_ordinary, nanoseconds, ordinary, product, quotient, scaled, seconds,
    seconds_of, unit, whole, Binary, HIGH, VAST,
};
use crate::decode::checked_rgba_len;
use crate::numbers::{least, most};
use crate::path::{MediaPath, PathNames};
use crate::picture::{placed, rotate180, rotate270, rotate90, Picture, Placement};
use crate::text::text_of;

verus! {

/// What a playback thread reports.
#[derive(Debug)]
pub struct PlaybackEvent {
    pub playback_id: u64,
    pub path: MediaPath,
    /// Whether the event brings a frame.
    pub frame: bool,
    pub position: Option<u128>,
    pub duration: Option<u128>,
    pub ended: bool,
    pub error: Option<String>,
}

/// The contents of a [`PlaybackEvent`].
pub struct PlaybackEventView {
    pub playback_id: u64,
    pub path: PathNames,
    pub frame: bool,
    pub position: Option<u128>,
    pub duration: Option<u128>,
    pub ended: bool,
    pub error: Option<Seq<char>>,
}

impl View for PlaybackEvent {
    type V = PlaybackEventView;

    open spec fn view(&self) -> PlaybackEventView {
        PlaybackEventView {
            playback_id: self.playback_id,
            path: self.path@,
            frame: self.frame,
            position: self.position,
            duration: self.duration,
            ended: self.ended,
            error: text_of(self.error),
        }
    }
}

/// What a playback thread is told to do.
#[derive(Debug, Clone, Copy, PartialEq, Eq, Structural)]
pub struct PlaybackControls {
    pub stop: bool,
    pub paused: bool,
    pub muted: bool,
}

/// A video that is being played.
#[derive(Debug)]
pub struct PlaybackHandle {
    id: u64,
    path: MediaPath,
    controls: PlaybackControls,
}

/// The contents of a [`PlaybackHandle`].
pub struct PlaybackView {
    pub id: u64,
    pub path: PathNames,
    pub controls: PlaybackControls,
}

impl View for PlaybackHandle {
    type V = PlaybackView;

    closed spec fn view(&self) -> PlaybackView {
        PlaybackView { id: self.id, path: self.path@, controls: self.controls }
    }
}

impl PlaybackView {
    /// The playback with its pause control set.
    pub open spec fn with_paused(self, paused: bool) -> PlaybackView {
        PlaybackView { controls: PlaybackControls { paused, ..self.controls }, ..self }
    }

    /// The playback with its mute control set.
    pub open spec fn with_muted(self, muted: bool) -> PlaybackView {
        PlaybackView { controls: PlaybackControls { muted, ..self.controls }, ..self }
    }

    /// The playback after it was told to stop.
    pub open spec fn stopped(self) -> PlaybackView {
        PlaybackView { controls: PlaybackControls { stop: true, ..self.controls }, ..self }
    }
}

impl PlaybackHandle {
    /// A playback that starts now.
    pub fn new(id: u64, path: MediaPath, muted: bool, paused: bool) -> (handle: PlaybackHandle)
        ensures
            handle@ == (PlaybackView {
                id,
                path: path@,
                controls: PlaybackControls { stop: false, paused, muted },
            }),
    {
        PlaybackHandle { id, path, controls: PlaybackControls { stop: false, paused, muted } }
    }

    /// The number that tells this playback apart from earlier ones.
    pub fn id(&self) -> (id: u64)
        ensures
            id == self@.id,
    {
        self.id
    }

    /// The file that is played.
    pub fn path(&self) -> (path: &MediaPath)
        ensures
            path@ == self@.path,
    {
        &self.path
    }

    /// What the playback thread is told to do.
    pub fn controls(&self) -> (controls: PlaybackControls)
        ensures
            controls == self@.controls,
    {
        self.controls
    }

    pub fn set_paused(&mut self, paused: bool)
        ensures
            final(self)@ == old(self)@.with_paused(paused),
    {
        self.controls.paused = paused;
    }

    pub fn is_paused(&self) -> (paused: bool)
        ensures
            paused == self@.controls.paused,
    {
        self.controls.paused
    }

    pub fn set_muted(&mut self, muted: bool)
        ensures
            final(self)@ == old(self)@.with_muted(muted),
    {
        self.controls.muted = muted;
    }

    pub fn stop(&mut self)
        ensures
            final(self)@ == old(self)@.stopped(),
    {
        self.controls.stop = true;
    }
}

impl PlaybackEventView {
    /// The report that a playback starts.
    pub open spec fn starting(
        id: u64,
        path: PathNames,
        start_at: u128,
        duration: Option<u128>,
    ) -> PlaybackEventView {
        PlaybackEventView {
            playback_id: id,
            path,
            frame: false,
            position: Some(start_at),
            duration,
            ended: false,
            error: None,
        }
    }

    /// The report of a frame.
    pub open spec fn showing(
        id: u64,
        path: PathNames,
        position: u128,
        duration: Option<u128>,
    ) -> PlaybackEventView {
        PlaybackEventView {
            playback_id: id,
            path,
            frame: true,
            position: Some(position),
            duration,
            ended: false,
            error: None,
        }
    }

    /// The report that a playback reached the end.
    pub open spec fn finishing(
        id: u64,
        path: PathNames,
        duration: Option<u128>,
    ) -> PlaybackEventView {
        PlaybackEventView {
            playback_id: id,
            path,
            frame: false,
            position: duration,
            duration,
            ended: true,
            error: None,
        }
    }

    /// The report that a playback failed.
    pub open spec fn failing(id: u64, path: PathNames, error: Seq<char>) -> PlaybackEventView {
        PlaybackEventView {
            playback_id: id,
            path,
            frame: false,
            position: None,
            duration: None,
            ended: true,
            error: Some(error),
        }
    }
}

impl PlaybackEvent {
    /// The report that a playback starts.
    pub fn started(id: u64, path: MediaPath, start_at: u128, duration: Option<u128>) -> (event:
        PlaybackEvent)
        ensures
            event@ == PlaybackEventView::starting(id, path@, start_at, duration),
    {
        PlaybackEvent {
            playback_id: id,
            path,
            frame: false,
            position: Some(start_at),
            duration,
            ended: false,
            error: None,
        }
    }

    /// The report of a frame.
    pub fn shown(id: u64, path: MediaPath, position: u128, duration: Option<u128>) -> (event:
        PlaybackEvent)
        ensures
            event@ == PlaybackEventView::showing(id, path@, position, duration),
    {
        PlaybackEvent {
            playback_id: id,
            path,
            frame: true,
            position: Some(position),
            duration,
            ended: false,
            error: None,
        }
    }

    /// The report that a playback reached the end.
    pub fn finished(id: u64, path: MediaPath, duration: Option<u128>) -> (event: PlaybackEvent)
        ensures
            event@ == PlaybackEventView::finishing(id, path@, duration),
    {
        PlaybackEvent {
            playback_id: id,
            path,
            frame: false,
            position: duration,
            duration,
            ended: true,
            error: None,
        }
    }

    /// The report that a playback failed.
    pub fn failed(id: u64, path: MediaPath, error: String) -> (event: PlaybackEvent)
        ensures
            event@ == PlaybackEventView::failing(id, path@, error@),
    {
        PlaybackEvent {
            playback_id: id,
            path,
            frame: false,
            position: None,
            duration: None,
            ended: true,
            error: Some(error),
        }
    }
}

/// Whether a frame or a piece of sound comes before the position that was sought,
/// so that it is not to be shown or heard.
pub open spec fn preroll(timestamp: Option<u128>, start_at: u128) -> bool {
    start_at > 0 && match timestamp {
        Some(timestamp) => timestamp < start_at,
        None => false,
    }
}

pub fn should_discard_seek_preroll(timestamp: Option<u128>, start_at: u128) -> (discard: bool)
    ensures
        discard == preroll(timestamp, start_at),
{
    start_at > 0 && match timestamp {
        Some(timestamp) => timestamp < start_at,
        None => false,
    }
}

/// A position as a timestamp of the container: whole microseconds, as far as they
/// fit.
pub open spec fn container_time(duration: u128) -> i64 {
    least(duration as int / 1000, i64::MAX as int) as i64
}

/// A position as a timestamp of the container.
pub fn duration_to_format_timestamp(duration: u128) -> (timestamp: i64)
    ensures
        timestamp == container_time(duration),
{
    let micros: u128 = duration / 1000;
    if micros > i64::MAX as u128 {
        i64::MAX
    } else {
        micros as i64
    }
}

/// The timestamp to seek to before a playback; none at the beginning.
pub open spec fn sought_time(start_at: u128) -> Option<i64> {
    if start_at == 0 {
        None
    } else {
        Some(container_time(start_at))
    }
}

/// The timestamp to seek to before a playback.
pub fn seek_timestamp(start_at: u128) -> (timestamp: Option<i64>)
    ensures
        timestamp == sought_time(start_at),
{
    if start_at == 0 {
        None
    } else {
        Some(duration_to_format_timestamp(start_at))
    }
}

/// A positive fraction as a number.
pub open spec fn ratio_of(value: (i32, i32)) -> Option<int> {
    if value.0 > 0 && value.1 > 0 {
        Some(quotient(whole(value.0 as int), whole(value.1 as int)))
    } else {
        None
    }
}

/// A positive fraction as a number.
fn rational_number(value: (i32, i32)) -> (number: Option<Binary>)
    ensures
        match number {
            Some(number) => ratio_of(value) == Some(number@) && number.within(158)
                && number.mantissa > 0,
            None => ratio_of(value) is None,
        },
{
    if value.0 > 0 && value.1 > 0 {
        Some(Binary::from_whole(value.0 as u128).quotient(Binary::from_whole(value.1 as u128)))
    } else {
        None
    }
}

/// As many nanoseconds as can be held.
pub open spec fn held(nanos: int) -> u128 {
    least(nanos, u128::MAX as int) as u128
}

/// The time of a timestamp that counts some part of a second; none before the beginning,
/// nor where the part is unknown.
pub open spec fn timestamp_time(value: i64, time_base: (i32, i32)) -> Option<u128> {
    match ratio_of(time_base) {
        Some(part) => if value >= 0 {
            Some(held(nanoseconds(product(whole(value as int), part))))
        } else {
            None
        },
        None => None,
    }
}

/// The time of a timestamp that counts some part of a second.
pub fn timestamp_to_duration(value: i64, time_base: (i32, i32)) -> (time: Option<u128>)
    ensures
        time == timestamp_time(value, time_base),
{
    match rational_number(time_base) {
        Some(part) => if value >= 0 {
            Some(Binary::from_whole(value as u128).product(part).to_nanoseconds())
        } else {
            None
        },
        None => None,
    }
}

/// The duration that a container gives in microseconds; none where it gives no time.
pub open spec fn container_duration(value: i64) -> Option<u128> {
    match timestamp_time(value, (1, 1_000_000)) {
        Some(time) => if time > 0 {
            Some(time)
        } else {
            None
        },
        None => None,
    }
}

/// The duration that a container gives in microseconds.
pub fn format_duration(value: i64) -> (duration: Option<u128>)
    ensures
        duration == container_duration(value),
{
    match timestamp_to_duration(value, (1, 1_000_000)) {
        Some(time) => if time > 0 {
            Some(time)
        } else {
            None
        },
        None => None,
    }
}

/// The time between two frames at a rate; a thirtieth of a second where it is unknown.
pub open spec fn frame_time(rate: (i32, i32)) -> u128 {
    match ratio_of(rate) {
        Some(rate) => held(nanoseconds(quotient(whole(1), rate))),
        None => held(nanoseconds(quotient(whole(1), whole(30)))),
    }
}

/// The time between two frames at a rate.
pub fn frame_duration(rate: (i32, i32)) -> (duration: u128)
    ensures
        duration == frame_time(rate),
{
    let one = Binary::from_whole(1);
    match rational_number(rate) {
        Some(rate) => one.quotient(rate).to_nanoseconds(),
        None => one.quotient(Binary::from_whole(30)).to_nanoseconds(),
    }
}

/// A number of times a duration.
pub open spec fn times(duration: u128, count: u64) -> u128 {
    held(nanoseconds(product(seconds(duration as int), whole(count as int))))
}

/// A number of times a duration.
pub fn mul_duration(duration: u128, count: u64) -> (result: u128)
    ensures
        result == times(duration, count),
{
    seconds_of(duration).product(Binary::from_whole(count as u128)).to_nanoseconds()
}

/// Where a playback stands among the frames of its video.
#[derive(Debug, Clone, Copy, PartialEq, Eq, Structural)]
pub struct PlaybackTimeline {
    pub start_at: u128,
    pub first_pts: Option<u128>,
    pub fallback_index: u64,
    pub sent_frames: u64,
    pub frame_duration: u128,
    pub duration: Option<u128>,
}

/// A frame that is due.
#[derive(Debug, Clone, Copy, PartialEq, Eq, Structural)]
pub struct DueFrame {
    /// The position of the frame in the video.
    pub pts: u128,
    /// How long after the first frame it is due.
    pub relative: u128,
    /// Whether it is shown at once: the first frame of a paused video.
    pub at_once: bool,
}

impl PlaybackTimeline {
    /// The timeline at the start of a playback.
    pub fn new(start_at: u128, frame_duration: u128, duration: Option<u128>) -> (timeline:
        PlaybackTimeline)
        ensures
            timeline == (PlaybackTimeline {
                start_at,
                first_pts: None,
                fallback_index: 0,
                sent_frames: 0,
                frame_duration,
                duration,
            }),
    {
        PlaybackTimeline {
            start_at,
            first_pts: None,
            fallback_index: 0,
            sent_frames: 0,
            frame_duration,
            duration,
        }
    }

    /// The position of the next frame, where it does not carry one: that of the
    /// frames before it at an even rate.
    pub open spec fn fallback_time(self) -> int {
        least(
            self.start_at + times(self.frame_duration, self.fallback_index),
            u128::MAX as int,
        )
    }

    /// The position of the next frame.
    pub open spec fn position(self, timestamp: Option<u128>) -> u128 {
        match timestamp {
            Some(timestamp) => timestamp,
            None => self.fallback_time() as u128,
        }
    }

    /// The position that frames are timed from.
    pub open spec fn base(self, timestamp: Option<u128>) -> u128 {
        match self.first_pts {
            Some(base) => base,
            None => self.position(timestamp),
        }
    }

    /// The next frame that is due; none where it comes before the position that
    /// was sought.
    pub open spec fn due(self, timestamp: Option<u128>, paused: bool) -> Option<DueFrame> {
        if preroll(timestamp, self.start_at) {
            None
        } else {
            Some(
                DueFrame {
                    pts: self.position(timestamp),
                    relative: most(
                        self.position(timestamp) - self.base(timestamp),
                        0,
                    ) as u128,
                    at_once: self.sent_frames == 0 && paused,
                },
            )
        }
    }

    /// The timeline after the next frame.
    pub open spec fn advanced(self, timestamp: Option<u128>) -> PlaybackTimeline {
        PlaybackTimeline {
            fallback_index: least(self.fallback_index + 1, u64::MAX as int) as u64,
            first_pts: if preroll(timestamp, self.start_at) {
                self.first_pts
            } else {
                Some(self.base(timestamp))
            },
            ..self
        }
    }

    /// Takes the next frame, which may carry its position.
    pub fn next_frame(&mut self, timestamp: Option<u128>, paused: bool) -> (due: Option<DueFrame>)
        ensures
            due == old(self).due(timestamp, paused),
            *final(self) == old(self).advanced(timestamp),
    {
        let elapsed: u128 = mul_duration(self.frame_duration, self.fallback_index);
        let fallback_time: u128 = self.start_at.saturating_add(elapsed);
        self.fallback_index = self.fallback_index.saturating_add(1);
        let pts: u128 = match timestamp {
            Some(timestamp) => timestamp,
            None => fallback_time,
        };
        if should_discard_seek_preroll(timestamp, self.start_at) {
            return None;
        }
        let base: u128 = match self.first_pts {
            Some(base) => base,
            None => pts,
        };
        self.first_pts = Some(base);
        Some(
            DueFrame {
                pts,
                relative: pts.saturating_sub(base),
                at_once: self.sent_frames == 0 && paused,
            },
        )
    }

    /// Whether a frame that is due is shown: not while the video is paused, unless
    /// it is the first.
    pub open spec fn shown_while(self, paused: bool) -> bool {
        self.sent_frames == 0 || !paused
    }

    /// Whether a frame that is due is shown.
    pub fn shows(&self, paused: bool) -> (shown: bool)
        ensures
            shown == self.shown_while(paused),
    {
        self.sent_frames == 0 || !paused
    }

    /// The timeline after a frame was handed over.
    pub open spec fn sent(self) -> PlaybackTimeline {
        PlaybackTimeline {
            sent_frames: least(self.sent_frames + 1, u64::MAX as int) as u64,
            ..self
        }
    }

    /// Notes that a frame was handed over.
    pub fn note_sent(&mut self)
        ensures
            *final(self) == old(self).sent(),
    {
        self.sent_frames = self.sent_frames.saturating_add(1);
    }
}

/// What a playback thread does while a frame is not due yet.
#[derive(Debug, Clone, Copy, PartialEq, Eq, Structural)]
pub enum WaitStep {
    Stop,
    Show,
    /// Sleep for some nanoseconds, then look again.
    Sleep(u128),
}

/// The longest sleep of a playback thread: 8 milliseconds.
pub const LONGEST_SLEEP: u128 = 8_000_000;

/// When a frame is due after the playback started: pauses push it back.
pub open spec fn due_at(paused_total: u128, relative: u128) -> int {
    least(paused_total + relative, u128::MAX as int)
}

/// What a playback thread does, some time after the playback started and with some
/// of it paused.
pub open spec fn waiting(
    stop: bool,
    elapsed: u128,
    paused_total: u128,
    relative: u128,
) -> WaitStep {
    if stop {
        WaitStep::Stop
    } else if elapsed >= due_at(paused_total, relative) {
        WaitStep::Show
    } else {
        WaitStep::Sleep(
            least(due_at(paused_total, relative) - elapsed, LONGEST_SLEEP as int) as u128,
        )
    }
}

/// What a playback thread does, some time after the playback started and with some
/// of it paused.
pub fn wait_step(stop: bool, elapsed: u128, paused_total: u128, relative: u128) -> (step: WaitStep)
    ensures
        step == waiting(stop, elapsed, paused_total, relative),
{
    if stop {
        return WaitStep::Stop;
    }
    let due: u128 = paused_total.saturating_add(relative);
    if elapsed >= due {
        WaitStep::Show
    } else if due - elapsed > LONGEST_SLEEP {
        WaitStep::Sleep(LONGEST_SLEEP)
    } else {
        WaitStep::Sleep(due - elapsed)
    }
}

/// How far the frames of a video are turned.
#[derive(Debug, Clone, Copy, PartialEq, Eq, Structural)]
pub enum VideoRotation {
    Upright,
    Clockwise90,
    HalfTurn,
    CounterClockwise90,
}

/// The quarter turn that is nearest to an angle.
pub open spec fn nearest_turn(degrees: int) -> VideoRotation {
    let angle = degrees % 360;
    if 45 <= angle <= 134 {
        VideoRotation::CounterClockwise90
    } else if 135 <= angle <= 224 {
        VideoRotation::HalfTurn
    } else if 225 <= angle <= 314 {
        VideoRotation::Clockwise90
    } else {
        VideoRotation::Upright
    }
}

/// The turn for an angle in whole degrees, counter-clockwise.
pub fn video_rotation_from_counter_clockwise_degrees(degrees: i32) -> (rotation: VideoRotation)
    ensures
        rotation == nearest_turn(degrees as int),
{
    let angle: i32 = if degrees >= 0 {
        degrees % 360
    } else {
        let rest: i32 = (-(degrees + 1)) % 360;
        359 - rest
    };
    proof {
        if degrees < 0 {
            let rest = (-(degrees + 1)) as int % 360;
            let whole = (-(degrees + 1)) as int / 360;
            vstd::arithmetic::div_mod::lemma_fundamental_div_mod(-(degrees + 1), 360);
            vstd::arithmetic::div_mod::lemma_fundamental_div_mod_converse(
                degrees as int,
                360,
                -whole - 1,
                359 - rest,
            );
        }
        assert(angle == degrees as int % 360);
    }
    if 45 <= angle && angle <= 134 {
        VideoRotation::CounterClockwise90
    } else if 135 <= angle && angle <= 224 {
        VideoRotation::HalfTurn
    } else if 225 <= angle && angle <= 314 {
        VideoRotation::Clockwise90
    } else {
        VideoRotation::Upright
    }
}

/// Where a turn puts a pixel of a frame with a width and a height.
pub open spec fn turned(rotation: VideoRotation, width: int, height: int) -> Placement {
    |x: int, y: int|
        match rotation {
            VideoRotation::Upright => (x, y),
            VideoRotation::Clockwise90 => (height - 1 - y, x),
            VideoRotation::HalfTurn => (width - 1 - x, height - 1 - y),
            VideoRotation::CounterClockwise90 => (y, width - 1 - x),
        }
}

/// Whether a turn exchanges width and height.
pub open spec fn turns_axes(rotation: VideoRotation) -> bool {
    rotation == VideoRotation::Clockwise90 || rotation == VideoRotation::CounterClockwise90
}

/// Turns a frame.
pub fn apply_video_rotation(image: Picture, rotation: VideoRotation) -> (result: Picture)
    requires
        image.sound(),
    ensures
        result.sound(),
        result.width == if turns_axes(rotation) {
            image.height
        } else {
            image.width
        },
        result.height == if turns_axes(rotation) {
            image.width
        } else {
            image.height
        },
        placed(image, result, turned(rotation, image.width as int, image.height as int)),
{
    match rotation {
        VideoRotation::Upright => image,
        VideoRotation::Clockwise90 => rotate90(image),
        VideoRotation::HalfTurn => rotate180(image),
        VideoRotation::CounterClockwise90 => rotate270(image),
    }
}

/// The size of a frame with pixels of some proportion, scaled so that no side is
/// longer than a cap; in whole pixels, at least one, and no more than can be
/// counted.
pub open spec fn capped(width: int, height: int, cap: u32, aspect: int) -> (int, int) {
    let shown_width = product(whole(most(width, 1)), aspect);
    let shown_height = whole(most(height, 1));
    let scale = capping_scale(cap, most(shown_width, shown_height));
    (
        most(least(scaled(shown_width, scale), u32::MAX as int), 1),
        most(least(scaled(shown_height, scale), u32::MAX as int), 1),
    )
}

/// What scales a frame down so that its longest side is no longer than a cap;
/// `u32::MAX` stands for no cap.
pub open spec fn capping_scale(cap: u32, longest: int) -> int {
    if cap == u32::MAX {
        whole(1)
    } else {
        least(quotient(whole(cap as int), longest), whole(1))
    }
}

/// The width of a pixel whose height is one; that of a square one where it is not known.
pub open spec fn pixel_aspect(ratio: (i32, i32)) -> int {
    match ratio_of(ratio) {
        Some(aspect) => aspect,
        None => whole(1),
    }
}

/// The size of a frame whose pixels have a proportion, scaled so that no side is
/// longer than a cap.
pub fn capped_dimensions_with_aspect(
    width: u32,
    height: u32,
    cap: u32,
    sample_aspect_ratio: (i32, i32),
) -> (size: (u32, u32))
    ensures
        (size.0 as int, size.1 as int) == capped(
            width as int,
            height as int,
            cap,
            pixel_aspect(sample_aspect_ratio),
        ),
{
    let aspect = aspect_of(sample_aspect_ratio);
    let shown_width = Binary::from_whole(max_u32(width, 1) as u128).product(aspect);
    let shown_height = Binary::from_whole(max_u32(height, 1) as u128);
    let scale = cap_scale(cap, shown_width.most(shown_height));
    (
        max_u32(shown_width.product(scale).to_u32(), 1),
        max_u32(shown_height.product(scale).to_u32(), 1),
    )
}

/// The width of a pixel whose height is one.
fn aspect_of(ratio: (i32, i32)) -> (aspect: Binary)
    ensures
        aspect@ == pixel_aspect(ratio),
        aspect.within(158),
        aspect.mantissa > 0,
{
    match rational_number(ratio) {
        Some(aspect) => aspect,
        None => Binary::from_whole(1),
    }
}

/// What scales a frame down so that its longest side is no longer than a cap.
fn cap_scale(cap: u32, longest: Binary) -> (scale: Binary)
    requires
        longest.within(264),
        longest.mantissa > 0,
    ensures
        scale@ == capping_scale(cap, longest@),
        scale.within(370),
{
    let one = Binary::from_whole(1);
    if cap == u32::MAX {
        one
    } else {
        Binary::from_whole(cap as u128).quotient(longest).least(one)
    }
}

fn max_u32(a: u32, b: u32) -> (larger: u32)
    ensures
        larger == most(a as int, b as int),
{
    if a < b {
        b
    } else {
        a
    }
}

/// The size of a frame with square pixels, scaled so that no side is longer than a
/// cap.
pub fn capped_dimensions(width: u32, height: u32, cap: u32) -> (size: (u32, u32))
    ensures
        (size.0 as int, size.1 as int) == capped(
            width as int,
            height as int,
            cap,
            pixel_aspect((1, 1)),
        ),
{
    capped_dimensions_with_aspect(width, height, cap, (1, 1))
}

/// The width of a pixel is neither vast nor next to nothing.
proof fn lemma_pixel_aspect(ratio: (i32, i32))
    ensures
        pixel_aspect(ratio) * 0x1_0000_0000 >= unit(),
        0 <= pixel_aspect(ratio) <= 0x8000_0000 * unit(),
        unit() > 0,
{
    let u = unit();
    let h = HIGH as int;
    lemma_whole_is_ordinary(1);
    lemma_whole_is_exact(1);
    let a = pixel_aspect(ratio);
    if ratio.0 > 0 && ratio.1 > 0 {
        let (n, d) = (ratio.0 as int, ratio.1 as int);
        lemma_whole_is_exact(n);
        lemma_whole_is_exact(d);
        lemma_whole_is_ordinary(d);
        lemma_quotient_error(n, d * u);
        assert(a * d * h <= n * u * (h + 1)) by (nonlinear_arith)
            requires
                a * (d * u) * h <= n * u * u * (h + 1),
                u > 0,
        ;
        assert(a * d * h >= n * u * (h - 1)) by (nonlinear_arith)
            requires
                a * (d * u) * h >= n * u * u * (h - 1),
                u > 0,
        ;
        assert(a >= 0) by (nonlinear_arith)
            requires
                a * d * h >= n * u * (h - 1),
                n >= 1,
                d >= 1,
                h == 0x20_0000_0000_0000,
                u > 0,
        ;
        assert(a <= 0x8000_0000 * u) by (nonlinear_arith)
            requires
                a * d * h <= n * u * (h + 1),
                a >= 0,
                1 <= n <= 0x7fff_ffff,
                d >= 1,
                h == 0x20_0000_0000_0000,
                u > 0,
        ;
        assert(a * 0x1_0000_0000 >= u) by (nonlinear_arith)
            requires
                a * d * h >= n * u * (h - 1),
                a >= 0,
                n >= 1,
                1 <= d <= 0x7fff_ffff,
                h == 0x20_0000_0000_0000,
                u > 0,
        ;
    }
}

/// The width of a frame is an ordinary number, whatever its pixels.
proof fn lemma_shown_width(width: int, ratio: (i32, i32))
    requires
        1 <= width <= u32::MAX,
    ensures
        ordinary(product(whole(width), pixel_aspect(ratio))),
{
    let u = unit();
    let h = HIGH as int;
    let a = pixel_aspect(ratio);
    lemma_pixel_aspect(ratio);
    lemma_whole_is_exact(width);
    lemma_whole_is_ordinary(width);
    let p = product(width * u, a);
    assert(a * (16 * VAST) >= u) by (nonlinear_arith)
        requires
            a * 0x1_0000_0000 >= u,
            a >= 0,
    ;
    lemma_product_error(width * u, a);
    assert(p * h <= width * a * (h + 1)) by (nonlinear_arith)
        requires
            p * u * h <= (width * u) * a * (h + 1),
            u > 0,
    ;
    assert(p * h >= width * a * (h - 1)) by (nonlinear_arith)
        requires
            p * u * h >= (width * u) * a * (h - 1),
            u > 0,
    ;
    let t = width * a;
    assert(t >= a && t <= 0xffff_ffff * (0x8000_0000 * u)) by (nonlinear_arith)
        requires
            t == width * a,
            1 <= width <= 0xffff_ffff,
            0 <= a <= 0x8000_0000 * u,
    ;
    assert(2 * p >= a) by (nonlinear_arith)
        requires
            p * h >= t * (h - 1),
            t >= a,
            a >= 0,
            h == 0x20_0000_0000_0000,
    ;
    assert(p <= 2 * t) by (nonlinear_arith)
        requires
            p * h <= t * (h + 1),
            t >= 0,
            h == 0x20_0000_0000_0000,
    ;
    assert(p * VAST >= u) by (nonlinear_arith)
        requires
            2 * p >= a,
            a * 0x1_0000_0000 >= u,
            u > 0,
    ;
    assert(p <= u * (8 * VAST)) by (nonlinear_arith)
        requires
            p <= 2 * t,
            t <= 0xffff_ffff * (0x8000_0000 * u),
            u > 0,
    ;
}

/// Why a frame cannot be taken.
#[derive(Debug, Clone, Copy, PartialEq, Eq, Structural)]
pub enum FrameError {
    /// A row does not fit into memory.
    RowTooWide,
    /// The frame is above the limit.
    TooLarge,
}

impl FrameError {
    /// The message of the error.
    pub fn message(&self) -> (text: &'static str)
        ensures
            text@ == match self {
                FrameError::RowTooWide => "video frame row is too wide"@,
                FrameError::TooLarge => "decoded video frame exceeds the 512 MiB safety limit"@,
            },
    {
        match self {
            FrameError::RowTooWide => "video frame row is too wide",
            FrameError::TooLarge => "decoded video frame exceeds the 512 MiB safety limit",
        }
    }
}

/// The most bytes that a frame may have: 512 MiB.
pub const MAX_RGBA_FRAME_BYTES: usize = 536_870_912;

/// Four bytes for each pixel, where that is within the limit.
pub fn checked_rgba_buffer_len(width: usize, height: usize) -> (len: Result<usize, FrameError>)
    ensures
        match len {
            Ok(len) => len == 4 * width * height && len <= MAX_RGBA_FRAME_BYTES,
            Err(error) => 4 * width * height > MAX_RGBA_FRAME_BYTES && error
                == FrameError::TooLarge,
        },
{
    match checked_rgba_len(width, height) {
        Ok(len) => Ok(len),
        Err(_) => Err(FrameError::TooLarge),
    }
}

/// Whether a picture has the pixels of a frame whose rows are some bytes apart.
pub open spec fn copied(picture: Picture, stride: int, data: Seq<u8>) -> bool {
    forall|x: int, y: int, channel: int|
        0 <= x < picture.width && 0 <= y < picture.height && 0 <= channel < 4
            ==> #[trigger] picture.byte(x, y, channel) == data[y * stride + 4 * x + channel]
}

/// Copies the rows of a frame, which are some bytes apart, into a picture.
pub fn rgba_image_from_frame(width: u32, height: u32, stride: usize, data: &Vec<u8>) -> (picture:
    Result<Picture, FrameError>)
    requires
        forall|y: int|
            0 <= y < height ==> #[trigger] (y * stride) + 4 * width <= data@.len(),
    ensures
        match picture {
            Ok(picture) => picture.width == width && picture.height == height
                && picture.sound() && copied(picture, stride as int, data@),
            Err(error) => if 4 * width > usize::MAX {
                error == FrameError::RowTooWide
            } else {
                error == FrameError::TooLarge && 4 * width * height > MAX_RGBA_FRAME_BYTES
            },
        },
{
    let row_len: usize = match (width as usize).checked_mul(4) {
        Some(len) => len,
        None => {
            return Err(FrameError::RowTooWide);
        },
    };
    let buffer_len: usize = match checked_rgba_buffer_len(width as usize, height as usize) {
        Ok(len) => len,
        Err(error) => {
            return Err(error);
        },
    };
    let total: usize = data.len();
    let mut pixels: Vec<u8> = Vec::new();
    let mut row: u32 = 0;
    proof {
        assert(4 * width * height == height * (4 * width)) by (nonlinear_arith);
    }
    while row < height
        invariant
            row <= height,
            total == data@.len(),
            row_len == 4 * width,
            buffer_len == height * row_len,
            pixels@.len() == row * row_len,
            forall|y: int|
                0 <= y < height ==> #[trigger] (y * stride) + 4 * width <= data@.len(),
            forall|y: int, k: int|
                0 <= y < row && 0 <= k < row_len ==> #[trigger] pixels@[y * row_len + k]
                    == data@[y * stride + k],
        decreases height - row,
    {
        let ghost before = pixels@;
        proof {
            assert((row * stride) + 4 * width <= data@.len());
            assert(0 <= row * stride) by (nonlinear_arith);
            assert(row * row_len + row_len <= buffer_len) by (nonlinear_arith)
                requires
                    row < height,
                    buffer_len == height * row_len,
            ;
        }
        let start: usize = row as usize * stride;
        let mut column: usize = 0;
        while column < row_len
            invariant
                row < height,
                column <= row_len,
                total == data@.len(),
                start == row * stride,
                start + row_len <= data@.len(),
                before.len() == row * row_len,
                pixels@.len() == before.len() + column,
                forall|i: int| 0 <= i < before.len() ==> pixels@[i] == before[i],
                forall|k: int|
                    0 <= k < column ==> #[trigger] pixels@[row * row_len + k] == data@[start + k],
            decreases row_len - column,
        {
            pixels.push(data[start + column]);
            column += 1;
        }
        proof {
            assert forall|y: int, k: int|
                0 <= y < row + 1 && 0 <= k < row_len implies #[trigger] pixels@[y * row_len + k]
                == data@[y * stride + k] by {
                if y < row {
                    assert(y * row_len + k < row * row_len) by (nonlinear_arith)
                        requires
                            0 <= y < row,
                            0 <= k < row_len,
                    ;
                    assert(0 <= y * row_len) by (nonlinear_arith)
                        requires
                            0 <= y,
                            0 <= row_len,
                    ;
                    assert(before[y * row_len + k] == data@[y * stride + k]);
                }
            }
            assert((row + 1) * row_len == row * row_len + row_len) by (nonlinear_arith);
        }
        row += 1;
    }
    let picture = Picture { width, height, pixels };
    proof {
        assert forall|x: int, y: int, channel: int|
            0 <= x < width && 0 <= y < height && 0 <= channel < 4 implies #[trigger] picture.byte(
            x,
            y,
            channel,
        ) == data@[y * stride + 4 * x + channel] by {
            let k = 4 * x + channel;
            assert(4 * (y * width + x) + channel == y * (4 * width) + k) by (nonlinear_arith)
                requires
                    k == 4 * x + channel,
            ;
            assert(pixels@[y * row_len + k] == data@[y * stride + k]);
        }
    }
    Ok(picture)
}

/// Why a piece of sound cannot be played.
#[derive(Debug, Clone, Copy, PartialEq, Eq, Structural)]
pub enum AudioError {
    TooLarge,
    NoChannels,
    NoRate,
}

impl AudioError {
    /// The message of the error.
    pub fn message(&self) -> (text: &'static str)
        ensures
            text@ == match self {
                AudioError::TooLarge => "audio frame is too large"@,
                AudioError::NoChannels => "audio has no channels"@,
                AudioError::NoRate => "audio has no sample rate"@,
            },
    {
        match self {
            AudioError::TooLarge => "audio frame is too large",
            AudioError::NoChannels => "audio has no channels",
            AudioError::NoRate => "audio has no sample rate",
        }
    }
}

/// How many samples of a piece of sound are played: all, where there are any and
/// their bytes are there; a sample has four bytes.
pub open spec fn audio_samples(samples: usize, channels: u16, rate: u32, data_len: usize) -> Result<
    Option<int>,
    AudioError,
> {
    if samples == 0 {
        Ok(None)
    } else if 4 * (samples * channels) > usize::MAX {
        Err(AudioError::TooLarge)
    } else if data_len < 4 * (samples * channels) {
        Ok(None)
    } else if channels == 0 {
        Err(AudioError::NoChannels)
    } else if rate == 0 {
        Err(AudioError::NoRate)
    } else {
        Ok(Some(samples * channels))
    }
}

/// How many samples of a piece of sound are played.
pub fn plan_audio_frame(samples: usize, channels: u16, rate: u32, data_len: usize) -> (plan:
    Result<Option<usize>, AudioError>)
    ensures
        match plan {
            Ok(Some(count)) => audio_samples(samples, channels, rate, data_len) == Ok::<
                Option<int>,
                AudioError,
            >(Some(count as int)),
            Ok(None) => audio_samples(samples, channels, rate, data_len) == Ok::<
                Option<int>,
                AudioError,
            >(None),
            Err(error) => audio_samples(samples, channels, rate, data_len) == Err::<
                Option<int>,
                AudioError,
            >(error),
        },
{
    if samples == 0 {
        return Ok(None);
    }
    let count: usize = match samples.checked_mul(channels as usize) {
        Some(count) => count,
        None => {
            return Err(AudioError::TooLarge);
        },
    };
    let bytes: usize = match count.checked_mul(4) {
        Some(bytes) => bytes,
        None => {
            return Err(AudioError::TooLarge);
        },
    };
    if data_len < bytes {
        return Ok(None);
    }
    if channels == 0 {
        return Err(AudioError::NoChannels);
    }
    if rate == 0 {
        return Err(AudioError::NoRate);
    }
    Ok(Some(count))
}

/// Which layout of channels the sound of a video has.
#[derive(Debug, Clone, Copy, PartialEq, Eq, Structural)]
pub enum LayoutChoice {
    /// The one that the video names.
    Named,
    /// The usual one for a number of channels.
    Usual(u16),
    Stereo,
}

/// Which layout of channels is used: the one that the video names, else the usual
/// one for its channels, else stereo.
pub open spec fn layout_for(named: bool, channels: u16) -> LayoutChoice {
    if named {
        LayoutChoice::Named
    } else if channels > 0 {
        LayoutChoice::Usual(channels)
    } else {
        LayoutChoice::Stereo
    }
}

/// Which layout of channels is used.
pub fn usable_channel_layout(named: bool, channels: u16) -> (choice: LayoutChoice)
    ensures
        choice == layout_for(named, channels),
{
    if named {
        LayoutChoice::Named
    } else if channels > 0 {
        LayoutChoice::Usual(channels)
    } else {
        LayoutChoice::Stereo
    }
}

/// The number of channels that are played: one or two, as there are, and two of
/// more.
pub open spec fn channels_played(channels: i32) -> u16 {
    if channels > 2 {
        2
    } else {
        most(channels as int, 1) as u16
    }
}

/// The number of channels that are played.
pub fn output_channels(channels: i32) -> (count: u16)
    ensures
        count == channels_played(channels),
{
    if channels > 2 {
        2
    } else if channels < 1 {
        1
    } else {
        channels as u16
    }
}

/// A frame that comes before the position that was sought is never due, and every
/// other frame is.
pub proof fn law_preroll_is_never_shown(
    timeline: PlaybackTimeline,
    timestamp: Option<u128>,
    paused: bool,
)
    ensures
        timeline.due(timestamp, paused) is None <==> preroll(timestamp, timeline.start_at),
        timeline.due(timestamp, paused) matches Some(frame) ==> (timestamp is Some
            ==> frame.pts >= timeline.start_at || timeline.start_at == 0),
{
}

/// The first frame that is due after a seek is due at once, and the later ones are
/// due as long after it as their positions lie behind its own.
pub proof fn law_frames_are_timed_from_the_first(
    timeline: PlaybackTimeline,
    first: u128,
    later: u128,
    paused: bool,
)
    requires
        timeline.first_pts is None,
        !preroll(Some(first), timeline.start_at),
        first <= later,
    ensures
        timeline.due(Some(first), paused) matches Some(frame) && frame.relative == 0,
        timeline.advanced(Some(first)).due(Some(later), paused) matches Some(frame)
            && frame.relative == later - first,
{
}

/// Why a decoder gave no frame.
#[derive(Debug, Clone, Copy, PartialEq, Eq, Structural)]
pub enum DecoderError {
    /// It wants more packets first.
    Retry,
    /// The stream is at its end.
    EndOfStream,
    /// It failed.
    Failure,
}

/// Whether a decoder that gave no frame only wants more packets, or is done.
pub fn decoder_needs_more_input(error: DecoderError) -> (needs: bool)
    ensures
        needs == (error != DecoderError::Failure),
{
    error == DecoderError::Retry || error == DecoderError::EndOfStream
}

/// A capped frame is no longer than the cap on either side, and not empty.
pub proof fn law_capped_frame_fits(width: u32, height: u32, cap: u32, ratio: (i32, i32))
    requires
        cap >= 1,
    ensures
        1 <= capped(width as int, height as int, cap, pixel_aspect(ratio)).0 <= cap,
        1 <= capped(width as int, height as int, cap, pixel_aspect(ratio)).1 <= cap,
{
    let one = unit();
    let shown_width = product(whole(most(width as int, 1)), pixel_aspect(ratio));
    let shown_height = whole(most(height as int, 1));
    let longest = most(shown_width, shown_height);
    lemma_shown_width(most(width as int, 1), ratio);
    lemma_whole_is_ordinary(most(height as int, 1));
    lemma_whole_is_exact(1);
    if cap != u32::MAX {
        lemma_whole_is_exact(cap as int);
        lemma_quotient_error(cap as int, longest);
        let scale = least(quotient(cap * one, longest), one);
        lemma_scaled_fits(cap as int, longest, shown_width, scale);
        lemma_scaled_fits(cap as int, longest, shown_height, scale);
    }
}

/// The reports of a playback: the start tells where it starts, a frame where it stands, the
/// end that it ended at the end of the video, and a failure why it ended; no other report
/// ends the playback or brings a frame.
pub proof fn law_reports_say_what_happened(
    id: u64,
    path: PathNames,
    position: u128,
    duration: Option<u128>,
    error: Seq<char>,
)
    ensures
        ({
            let start = PlaybackEventView::starting(id, path, position, duration);
            let frame = PlaybackEventView::showing(id, path, position, duration);
            let end = PlaybackEventView::finishing(id, path, duration);
            let failure = PlaybackEventView::failing(id, path, error);
            &&& start.playback_id == id && frame.playback_id == id && end.playback_id == id
                && failure.playback_id == id
            &&& start.path == path && frame.path == path && end.path == path && failure.path
                == path
            &&& frame.frame && !start.frame && !end.frame && !failure.frame
            &&& end.ended && failure.ended && !start.ended && !frame.ended
            &&& start.position == Some(position) && frame.position == Some(position)
            &&& end.position == duration && failure.position is None
            &&& start.duration == duration && frame.duration == duration && end.duration
                == duration
            &&& failure.error == Some(error)
            &&& start.error is None && frame.error is None && end.error is None
        }),
{
}

/// A playback that is paused, muted or stopped stays the playback that it was; nothing
/// starts a stopped one again.
pub proof fn law_controls_change_one_thing(playback: PlaybackView, yes: bool)
    ensures
        playback.with_paused(yes).controls.paused == yes,
        playback.with_paused(yes).controls.muted == playback.controls.muted,
        playback.with_paused(yes).controls.stop == playback.controls.stop,
        playback.with_muted(yes).controls.muted == yes,
        playback.with_muted(yes).controls.paused == playback.controls.paused,
        playback.with_muted(yes).controls.stop == playback.controls.stop,
        playback.stopped().controls.stop,
        playback.stopped().controls.paused == playback.controls.paused,
        playback.stopped().controls.muted == playback.controls.muted,
        playback.with_paused(yes).id == playback.id && playback.with_paused(yes).path
            == playback.path,
        playback.with_muted(yes).id == playback.id && playback.with_muted(yes).path
            == playback.path,
        playback.stopped().id == playback.id && playback.stopped().path == playback.path,
{
}

/// A playback that starts later seeks to the microsecond that it starts in, and one from
/// the beginning does not seek; what comes before the start is passed over.
pub proof fn law_seeking_goes_to_the_microsecond(start_at: u128, timestamp: u128)
    requires
        start_at / 1000 <= i64::MAX,
    ensures
        sought_time(start_at) is None <==> start_at == 0,
        sought_time(start_at) matches Some(micros) ==> micros * 1000 <= start_at < (micros + 1)
            * 1000,
        preroll(Some(timestamp), start_at) <==> timestamp < start_at,
        !preroll(None, start_at),
{
}

/// A container that gives no positive duration gives none.
pub proof fn law_durations_are_positive(value: i64)
    ensures
        value < 0 ==> container_duration(value) is None,
        container_duration(value) matches Some(duration) ==> duration > 0,
        container_duration(value) is Some ==> container_duration(value) == timestamp_time(
            value,
            (1, 1_000_000),
        ),
{
}

/// A playback thread that is told to stop stops. Otherwise it shows a frame once the time
/// that it is due after the first, and the time spent in pauses, have passed; until then it
/// sleeps, never longer than that, nor than 8 milliseconds.
pub proof fn law_frames_wait_until_they_are_due(
    stop: bool,
    elapsed: u128,
    paused_total: u128,
    relative: u128,
)
    requires
        paused_total + relative <= u128::MAX,
    ensures
        waiting(stop, elapsed, paused_total, relative) == WaitStep::Stop <==> stop,
        waiting(stop, elapsed, paused_total, relative) == WaitStep::Show <==> !stop && elapsed
            >= paused_total + relative,
        waiting(stop, elapsed, paused_total, relative) matches WaitStep::Sleep(nanos) ==> {
            &&& 0 < nanos <= 8_000_000
            &&& elapsed + nanos <= paused_total + relative
            &&& nanos < 8_000_000 ==> elapsed + nanos == paused_total + relative
        },
{
}

/// The first frame of a playback is shown even where it is paused, at once; the others are
/// not, and wait.
pub proof fn law_paused_playbacks_show_one_frame(
    timeline: PlaybackTimeline,
    timestamp: u128,
    paused: bool,
)
    requires
        timeline.start_at <= timestamp,
        timeline.sent_frames == 0,
    ensures
        timeline.shown_while(paused),
        timeline.due(Some(timestamp), paused) matches Some(frame) && frame.pts == timestamp
            && frame.at_once == paused,
        timeline.sent().shown_while(paused) == !paused,
        timeline.sent().due(Some(timestamp), paused) matches Some(frame) && !frame.at_once,
        timeline.sent().start_at == timeline.start_at,
        timeline.sent().first_pts == timeline.first_pts,
{
}

/// A frame without a position stands as many frame times after the start as there were
/// frames before it, those that were passed over included.
pub proof fn law_unstamped_frames_follow_evenly(
    timeline: PlaybackTimeline,
    earlier: Option<u128>,
    paused: bool,
)
    requires
        timeline.start_at + times(timeline.frame_duration, timeline.fallback_index) <= u128::MAX,
    ensures
        timeline.due(None, paused) matches Some(frame) && frame.pts == timeline.start_at + times(
            timeline.frame_duration,
            timeline.fallback_index,
        ),
        timeline.fallback_index < u64::MAX ==> timeline.advanced(earlier).fallback_index
            == timeline.fallback_index + 1,
        timeline.advanced(earlier).start_at == timeline.start_at,
        timeline.advanced(earlier).frame_duration == timeline.frame_duration,
        timeline.advanced(earlier).sent_frames == timeline.sent_frames,
        preroll(earlier, timeline.start_at) ==> timeline.advanced(earlier).first_pts
            == timeline.first_pts,
        timeline.first_pts is Some ==> timeline.advanced(earlier).first_pts
            == timeline.first_pts,
{
}

/// A frame is turned by the quarter turns that an angle is nearest to; angles count
/// counter-clockwise, and a full circle changes nothing.
pub proof fn law_turns_are_the_nearest(quarters: int, off: int)
    requires
        -45 <= off < 45,
    ensures
        quarters % 4 == 0 ==> nearest_turn(90 * quarters + off) == VideoRotation::Upright,
        quarters % 4 == 1 ==> nearest_turn(90 * quarters + off)
            == VideoRotation::CounterClockwise90,
        quarters % 4 == 2 ==> nearest_turn(90 * quarters + off) == VideoRotation::HalfTurn,
        quarters % 4 == 3 ==> nearest_turn(90 * quarters + off) == VideoRotation::Clockwise90,
{
}

/// Turned clockwise, the left column of a frame, from the bottom, is its top row; turned
/// the other way, its top row, from the right, is the left column; turned by half, every
/// pixel goes to the opposite place.
pub proof fn law_turns_place_pixels(
    from: Picture,
    to: Picture,
    rotation: VideoRotation,
    x: int,
    y: int,
    channel: int,
)
    requires
        from.sound(),
        to.sound(),
        placed(from, to, turned(rotation, from.width as int, from.height as int)),
        0 <= x < from.width,
        0 <= y < from.height,
        0 <= channel < 4,
    ensures
        rotation == VideoRotation::Upright ==> to.byte(x, y, channel) == from.byte(x, y, channel),
        rotation == VideoRotation::Clockwise90 ==> to.byte(from.height - 1 - y, x, channel)
            == from.byte(x, y, channel),
        rotation == VideoRotation::HalfTurn ==> to.byte(
            from.width - 1 - x,
            from.height - 1 - y,
            channel,
        ) == from.byte(x, y, channel),
        rotation == VideoRotation::CounterClockwise90 ==> to.byte(y, from.width - 1 - x, channel)
            == from.byte(x, y, channel),
        turns_axes(rotation) <==> rotation == VideoRotation::Clockwise90 || rotation
            == VideoRotation::CounterClockwise90,
{
    assert(from.byte(x, y, channel) == from.byte(x, y, channel));
}

/// Sound is played where it has samples, channels and a rate, and its bytes, four for each
/// sample of a channel, are there; then all samples are.
pub proof fn law_sound_is_played_whole(samples: usize, channels: u16, rate: u32, data_len: usize)
    requires
        4 * (samples * channels) <= usize::MAX,
    ensures
        (audio_samples(samples, channels, rate, data_len) matches Ok(Some(_))) <==> samples > 0
            && channels > 0 && rate > 0 && data_len >= 4 * (samples * channels),
        audio_samples(samples, channels, rate, data_len) matches Ok(Some(count)) ==> count
            == samples * channels,
        audio_samples(samples, channels, rate, data_len) matches Err(error) ==> samples > 0 && (
        error == AudioError::NoChannels <==> channels == 0) && (error == AudioError::NoRate
            <==> channels > 0 && rate == 0),
{
}

/// Sound has the layout that its video names, else the usual one for its channels, and is
/// played on one channel or on two.
pub proof fn law_channels_are_kept(named: bool, channels: u16, count: i32)
    ensures
        layout_for(named, channels) == LayoutChoice::Named <==> named,
        layout_for(named, channels) == LayoutChoice::Stereo <==> !named && channels == 0,
        !named && channels > 0 ==> layout_for(named, channels) == LayoutChoice::Usual(channels),
        count >= 2 <==> channels_played(count) == 2,
        count < 2 <==> channels_played(count) == 1,
{
}

/// A frame of square pixels that fits under the cap keeps its size.
pub proof fn law_small_frames_keep_their_size(
    width: u32,
    height: u32,
    cap: u32,
    ratio: (i32, i32),
)
    requires
        1 <= width <= cap,
        1 <= height <= cap,
        ratio.0 == ratio.1 || ratio.0 <= 0 || ratio.1 <= 0,
    ensures
        capped(width as int, height as int, cap, pixel_aspect(ratio)) == (
            width as int,
            height as int,
        ),
{
    let one = unit();
    let w = width as int;
    let h = height as int;
    lemma_whole_is_exact(1);
    lemma_whole_is_exact(w);
    lemma_whole_is_exact(h);
    lemma_whole_is_ordinary(1);
    if ratio.0 > 0 && ratio.1 > 0 {
        let side = ratio.0 as int;
        lemma_whole_is_exact(side);
        assert(side * one > 0) by (nonlinear_arith)
            requires
                side > 0,
                one > 0,
        ;
        assert((side * one) * 1 == 1 * (side * one));
        lemma_nearest_of_ratio(side * one, side * one, 1, 1);
    }
    assert(pixel_aspect(ratio) == one);
    assert((w * one) * one >= 0 && one * one > 0 && (w * one) * one * 1 == w * (one * one))
        by (nonlinear_arith)
        requires
            w >= 1,
            one > 0,
    ;
    lemma_nearest_of_ratio((w * one) * one, one * one, w, 1);
    let shown_width = product(whole(w), one);
    assert(shown_width == w * one);
    let side = most(w, h);
    let longest = most(shown_width, h * one);
    assert(longest == side * one) by (nonlinear_arith)
        requires
            shown_width == w * one,
            longest == most(shown_width, h * one),
            side == most(w, h),
            one > 0,
    ;
    let scale = capping_scale(cap, longest);
    if cap != u32::MAX {
        let c = cap as int;
        lemma_whole_is_exact(c);
        lemma_whole_is_ordinary(side);
        lemma_whole_is_exact(side);
        lemma_quotient_error(c, longest);
        let q = quotient(c * one, longest);
        assert(q * HIGH >= one * (HIGH - 1)) by (nonlinear_arith)
            requires
                q * (side * one) * HIGH >= c * one * one * (HIGH - 1),
                1 <= side <= c,
                one > 0,
        ;
    }
    assert(one * HIGH >= one * (HIGH - 1)) by (nonlinear_arith)
        requires
            one > 0,
    ;
    lemma_scaled_by_one(w, scale);
    lemma_scaled_by_one(h, scale);
}

} // verus!
