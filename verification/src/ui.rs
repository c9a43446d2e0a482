//! The screen of a terminal viewer.

use vstd::prelude::*;
use vstd::string::StringExecFns;

use crate::numbers::{least, most};
use crate::state::{AppState, StateView, ViewMode};
use crate::text::{decimal, encloses, tells, to_decimal};

pub mod confirm;
pub mod grid;
pub mod overlays;
pub mod preview;

verus! {

/// An area of the screen, in cells.
#[derive(Debug, Clone, Copy, PartialEq, Eq, Structural)]
pub struct Rect {
    pub x: u16,
    pub y: u16,
    pub width: u16,
    pub height: u16,
}

impl Rect {
    /// Whether the far edges are on the screen.
    pub open spec fn valid(self) -> bool {
        self.x + self.width <= u16::MAX && self.y + self.height <= u16::MAX
    }

    pub fn new(x: u16, y: u16, width: u16, height: u16) -> (rect: Rect)
        ensures
            rect == (Rect { x, y, width, height }),
    {
        Rect { x, y, width, height }
    }
}

/// A number of columns and rows.
#[derive(Debug, Clone, Copy, PartialEq, Eq, Structural)]
pub struct Size {
    pub width: u16,
    pub height: u16,
}

/// The area of a size in the middle of another area.
pub open spec fn centered(area: Rect, width: int, height: int) -> Rect {
    Rect {
        x: (area.x + most(area.width - width, 0) / 2) as u16,
        y: (area.y + most(area.height - height, 0) / 2) as u16,
        width: width as u16,
        height: height as u16,
    }
}

/// The area of a size in the middle of another area.
pub fn center(area: Rect, width: u16, height: u16) -> (rect: Rect)
    requires
        area.valid(),
    ensures
        rect == centered(area, width as int, height as int),
{
    Rect {
        x: area.x + area.width.saturating_sub(width) / 2,
        y: area.y + area.height.saturating_sub(height) / 2,
        width,
        height,
    }
}

impl StateView {
    /// The name of the view.
    pub open spec fn mode_name(self) -> Seq<char> {
        match self.mode {
            ViewMode::Preview => "preview"@,
            ViewMode::Grid => "grid"@,
            ViewMode::DeleteQueueGrid => "delete-queue"@,
        }
    }

    /// The number of the current entry, and how many there are.
    pub open spec fn position_text(self) -> Seq<char> {
        if self.entries.len() == 0 {
            "0 / 0"@
        } else {
            decimal((self.current_index + 1) as nat) + " / "@ + decimal(self.entries.len())
        }
    }

    /// The line at the bottom of the screen.
    pub open spec fn status_line(self, backend_id: Seq<char>) -> Seq<char> {
        " "@ + self.mode_name() + " | "@ + self.position_text() + " | queued: "@ + decimal(
            self.delete_queue.len(),
        ) + " | sort: "@ + self.sort_mode.name() + " | "@ + backend_id + " | "@ + (
        match self.status_message {
            Some(message) => message,
            None => ""@,
        })
    }
}

impl AppState {
    /// The number of the current entry, and how many there are.
    pub fn position_label(&self) -> (text: String)
        ensures
            text@ == self@.position_text(),
    {
        if self.entries.len() == 0 {
            return "0 / 0".to_owned();
        }
        let mut text = to_decimal(self.current_index as u128 + 1);
        text.append(" / ");
        text.append(to_decimal(self.entries.len() as u128).as_str());
        text
    }
}

/// The line at the bottom of the screen.
pub fn status_line(state: &AppState, backend_id: &str) -> (line: String)
    ensures
        line@ == state@.status_line(backend_id@),
{
    let mut line = " ".to_owned();
    line.append(
        match state.mode {
            ViewMode::Preview => "preview",
            ViewMode::Grid => "grid",
            ViewMode::DeleteQueueGrid => "delete-queue",
        },
    );
    line.append(" | ");
    line.append(state.position_label().as_str());
    line.append(" | queued: ");
    line.append(to_decimal(state.queue_count() as u128).as_str());
    line.append(" | sort: ");
    line.append(state.sort_mode.as_str());
    line.append(" | ");
    line.append(backend_id);
    line.append(" | ");
    match &state.status_message {
        Some(message) => {
            line.append(message.as_str());
        },
        None => {
            line.append("");
        },
    }
    line
}

/// The area for pictures, and the one line below it for the status, where there is
/// one.
pub fn split_screen(area: Rect, fullscreen: bool) -> (areas: (Rect, Option<Rect>))
    requires
        area.valid(),
    ensures
        areas == if fullscreen {
            (area, None)
        } else {
            let lines = least(area.height as int, 1);
            (
                Rect { height: (area.height - lines) as u16, ..area },
                Some(
                    Rect {
                        y: (area.y + area.height - lines) as u16,
                        height: lines as u16,
                        ..area
                    },
                ),
            )
        },
{
    if fullscreen {
        return (area, None);
    }
    let lines: u16 = if area.height < 1 {
        0
    } else {
        1
    };
    let main = Rect { x: area.x, y: area.y, width: area.width, height: area.height - lines };
    let status = Rect {
        x: area.x,
        y: area.y + (area.height - lines),
        width: area.width,
        height: lines,
    };
    (main, Some(status))
}

/// What is centred has the same space on both sides, but for an odd cell, which is to the
/// right or below; what is larger than the area starts where the area does.
pub proof fn law_centred_areas_have_even_margins(area: Rect, width: int, height: int)
    requires
        area.valid(),
        0 <= width <= u16::MAX,
        0 <= height <= u16::MAX,
    ensures
        ({
            let rect = centered(area, width, height);
            let left = rect.x - area.x;
            let top = rect.y - area.y;
            &&& rect.width == width && rect.height == height
            &&& width <= area.width ==> 0 <= (area.width - width - left) - left <= 1
            &&& height <= area.height ==> 0 <= (area.height - height - top) - top <= 1
            &&& width > area.width ==> left == 0
            &&& height > area.height ==> top == 0
        }),
{
}

/// The line at the bottom of the screen tells the number of the current entry, from one, how
/// many entries there are, how many are marked, and in what order they are.
pub proof fn law_the_bottom_line_tells(state: StateView, backend_id: Seq<char>)
    requires
        state.current_index < state.entries.len(),
    ensures
        tells(
            state.status_line(backend_id),
            decimal((state.current_index + 1) as nat) + " / "@ + decimal(state.entries.len()),
        ),
        tells(state.status_line(backend_id), decimal(state.delete_queue.len())),
        tells(state.status_line(backend_id), state.sort_mode.name()),
        tells(state.status_line(backend_id), backend_id),
        state.status_message matches Some(message) ==> tells(
            state.status_line(backend_id),
            message,
        ),
{
    let line = state.status_line(backend_id);
    let (place, queued) = (state.position_text(), decimal(state.delete_queue.len()));
    let order = state.sort_mode.name();
    let message = match state.status_message {
        Some(message) => message,
        None => ""@,
    };
    let a = " "@ + state.mode_name() + " | "@;
    let b = a + place + " | queued: "@;
    let c = b + queued + " | sort: "@;
    let d = c + order + " | "@;
    let e = d + backend_id + " | "@;
    assert(line =~= e + message);
    assert(line =~= a + place + line.skip((a + place).len() as int));
    assert(encloses(line, a, place, line.skip((a + place).len() as int)));
    assert(line =~= b + queued + line.skip((b + queued).len() as int));
    assert(encloses(line, b, queued, line.skip((b + queued).len() as int)));
    assert(line =~= c + order + line.skip((c + order).len() as int));
    assert(encloses(line, c, order, line.skip((c + order).len() as int)));
    assert(line =~= d + backend_id + line.skip((d + backend_id).len() as int));
    assert(encloses(line, d, backend_id, line.skip((d + backend_id).len() as int)));
    assert(line =~= e + message + Seq::<char>::empty());
    assert(encloses(line, e, message, Seq::empty()));
}

} // verus!
