//! The question whether to delete the marked files.

use vstd::prelude::*;
use vstd::string::StringExecFns;

use super::{center, centered, Rect};
use crate::numbers::{least, min_u16};
use crate::text::{decimal, to_decimal};

verus! {

/// The area of the question.
pub fn confirm_rect(area: Rect) -> (rect: Rect)
    requires
        area.valid(),
    ensures
        rect == centered(area, least(area.width as int, 54), least(area.height as int, 7)),
{
    center(area, min_u16(area.width, 54), min_u16(area.height, 7))
}

/// The question.
pub open spec fn question(queued: nat) -> Seq<char> {
    "Permanently delete "@ + decimal(queued) + " files?"@
}

/// The question.
pub fn confirm_question(queued: usize) -> (text: String)
    ensures
        text@ == question(queued as nat),
{
    let mut text = "Permanently delete ".to_owned();
    text.append(to_decimal(queued as u128).as_str());
    text.append(" files?");
    text
}

} // verus!
