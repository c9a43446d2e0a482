//! When the listed media are refreshed: changes are gathered, one request covers all
//! of them, and none is made while refreshes wait.

use vstd::prelude::*;

use super::window::number_after;

verus! {

/// What is known of the refreshes of a session.
#[derive(Debug, Clone, Copy, PartialEq, Eq, Structural)]
pub struct RefreshSchedule {
    /// Whether files changed since the last request.
    pub needed: bool,
    /// The number of the last request.
    pub generation: u64,
    /// Whether refreshes waited in the last frame.
    pub waiting: bool,
}

/// What a frame does about refreshes.
#[derive(Debug)]
pub struct RefreshPlan {
    /// Which of the results that arrived are taken.
    pub accepted: Vec<bool>,
    /// The number of the request to make, where one is to be made.
    pub request: Option<u64>,
    /// Whether refreshes wait from this frame on, so that the previews that are
    /// being decoded are cancelled.
    pub waits_now: bool,
}

/// The events of a frame: whether files changed, and the numbers of the requests whose
/// results arrived.
pub struct FrameView {
    pub changed: bool,
    pub results: Seq<u64>,
}

impl RefreshSchedule {
    /// Whether a refresh is needed after the events of a frame: files changed, or a
    /// result arrived while refreshes wait, which is dropped.
    pub open spec fn needed_after(self, frame: FrameView, waits: bool) -> bool {
        self.needed || frame.changed || (waits && frame.results.len() > 0)
    }

    /// The number of the request that a frame makes.
    pub open spec fn request_in(self, frame: FrameView, waits: bool) -> Option<u64> {
        if self.needed_after(frame, waits) && !waits {
            Some(number_after(self.generation))
        } else {
            None
        }
    }

    /// The schedule after a frame.
    pub open spec fn after_frame(self, frame: FrameView, waits: bool) -> RefreshSchedule {
        RefreshSchedule {
            needed: self.needed_after(frame, waits) && waits,
            generation: match self.request_in(frame, waits) {
                Some(number) => number,
                None => self.generation,
            },
            waiting: waits,
        }
    }

    /// Whether a frame takes a result: refreshes do not wait, and it is the result of
    /// the last request.
    pub open spec fn takes(self, generation: u64, waits: bool) -> bool {
        !waits && generation == self.generation
    }

    /// The schedule after frames in which refreshes wait.
    pub open spec fn after_waiting(self, frames: Seq<FrameView>) -> RefreshSchedule
        decreases frames.len(),
    {
        if frames.len() == 0 {
            self
        } else {
            self.after_waiting(frames.drop_last()).after_frame(frames.last(), true)
        }
    }

    /// The schedule after the list was read anew; what changed is forgotten where
    /// that succeeded.
    pub open spec fn after_rescan(self, listed: bool) -> RefreshSchedule {
        RefreshSchedule {
            needed: self.needed && !listed,
            generation: number_after(self.generation),
            waiting: self.waiting,
        }
    }

    /// The schedule of a session that was just opened.
    pub fn new() -> (schedule: RefreshSchedule)
        ensures
            schedule == (RefreshSchedule { needed: false, generation: 0, waiting: false }),
    {
        RefreshSchedule { needed: false, generation: 0, waiting: false }
    }

    /// Decides what a frame does about the changes and results that arrived.
    pub fn frame(&mut self, changed: bool, results: &Vec<u64>, waits: bool) -> (plan: RefreshPlan)
        ensures
            plan.accepted@.len() == results@.len(),
            forall|i: int|
                0 <= i < results@.len() ==> #[trigger] plan.accepted@[i] == old(self).takes(
                    results@[i],
                    waits,
                ),
            plan.request == old(self).request_in(FrameView { changed, results: results@ }, waits),
            plan.waits_now == (waits && !old(self).waiting),
            *final(self) == old(self).after_frame(FrameView { changed, results: results@ }, waits),
    {
        let ghost before = *self;
        let generation: u64 = self.generation;
        let mut accepted: Vec<bool> = Vec::new();
        let mut index: usize = 0;
        while index < results.len()
            invariant
                index <= results@.len(),
                generation == before.generation,
                accepted@.len() == index,
                forall|i: int|
                    0 <= i < index ==> #[trigger] accepted@[i] == before.takes(results@[i], waits),
            decreases results@.len() - index,
        {
            accepted.push(!waits && results[index] == generation);
            index += 1;
        }
        let needed = self.needed || changed || (waits && results.len() > 0);
        let request: Option<u64> = if needed && !waits {
            Some(generation.wrapping_add(1))
        } else {
            None
        };
        let waits_now = waits && !self.waiting;
        if let Some(number) = request {
            self.generation = number;
        }
        self.needed = needed && waits;
        self.waiting = waits;
        RefreshPlan { accepted, request, waits_now }
    }

    /// Refuses the results of earlier requests, once the list was read anew.
    pub fn rescan(&mut self, listed: bool)
        ensures
            *final(self) == old(self).after_rescan(listed),
    {
        self.needed = self.needed && !listed;
        self.generation = self.generation.wrapping_add(1);
    }
}

/// While refreshes wait no request is made and no result taken, and what arrives is
/// remembered, however many frames they wait.
pub proof fn law_waiting_makes_no_request(
    schedule: RefreshSchedule,
    frames: Seq<FrameView>,
    frame: FrameView,
)
    ensures
        schedule.after_waiting(frames).request_in(frame, true) is None,
        forall|generation: u64| !#[trigger] schedule.after_waiting(frames).takes(generation, true),
        schedule.after_waiting(frames).generation == schedule.generation,
        schedule.after_waiting(frames).needed <==> schedule.needed || exists|i: int|
            0 <= i < frames.len() && ((#[trigger] frames[i]).changed || frames[i].results.len()
                > 0),
    decreases frames.len(),
{
    if frames.len() > 0 {
        let front = frames.drop_last();
        law_waiting_makes_no_request(schedule, front, frame);
        if exists|i: int|
            0 <= i < front.len() && ((#[trigger] front[i]).changed || front[i].results.len() > 0) {
            let i = choose|i: int|
                0 <= i < front.len() && ((#[trigger] front[i]).changed || front[i].results.len()
                    > 0);
            assert(frames[i] == front[i]);
        }
        if exists|i: int|
            0 <= i < frames.len() && ((#[trigger] frames[i]).changed || frames[i].results.len()
                > 0) {
            let i = choose|i: int|
                0 <= i < frames.len() && ((#[trigger] frames[i]).changed || frames[i].results.len()
                    > 0);
            if i < front.len() {
                assert(front[i] == frames[i]);
            }
        }
    }
}

/// Once refreshes go on, one request covers all changes that came while they waited,
/// however many; and no other follows until something changes again.
pub proof fn law_one_request_covers_all_changes(
    schedule: RefreshSchedule,
    frames: Seq<FrameView>,
    i: int,
    results: Seq<u64>,
)
    requires
        0 <= i < frames.len(),
        frames[i].changed,
    ensures
        ({
            let waited = schedule.after_waiting(frames);
            let quiet = FrameView { changed: false, results };
            let resumed = waited.after_frame(quiet, false);
            &&& waited.request_in(quiet, false) == Some(number_after(schedule.generation))
            &&& number_after(schedule.generation) != schedule.generation
            &&& resumed.request_in(quiet, false) is None
            &&& resumed.after_frame(quiet, false) == resumed
        }),
{
    law_waiting_makes_no_request(
        schedule,
        frames,
        FrameView { changed: false, results: Seq::empty() },
    );
    assert(frames[i].changed);
}

/// A change is never lost: it makes a request in its frame, or a refresh stays needed.
pub proof fn law_a_change_is_not_lost(schedule: RefreshSchedule, results: Seq<u64>, waits: bool)
    ensures
        ({
            let frame = FrameView { changed: true, results };
            schedule.request_in(frame, waits) is Some || schedule.after_frame(frame, waits).needed
        }),
        schedule.needed ==> ({
            let frame = FrameView { changed: false, results };
            schedule.request_in(frame, waits) is Some || schedule.after_frame(frame, waits).needed
        }),
{
}

/// While refreshes go on, the result of the last request is taken and no other; a request
/// that is made has a number of its own, and a list that was read anew refuses the results
/// that were asked for before.
pub proof fn law_the_last_result_is_taken(
    schedule: RefreshSchedule,
    results: Seq<u64>,
    number: u64,
    listed: bool,
)
    ensures
        schedule.takes(number, false) <==> number == schedule.generation,
        ({
            let frame = FrameView { changed: true, results };
            let after = schedule.after_frame(frame, false);
            &&& schedule.request_in(frame, false) == Some(after.generation)
            &&& after.takes(after.generation, false)
            &&& !after.takes(schedule.generation, false)
            &&& !after.needed
        }),
        !schedule.after_rescan(listed).takes(schedule.generation, false),
        schedule.after_rescan(true).needed == false,
        schedule.after_rescan(false).needed == schedule.needed,
{
}

} // verus!
