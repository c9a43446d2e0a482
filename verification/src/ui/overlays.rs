//! The floating panes of the screen.

use time::format_description::well_known::Rfc3339;
use time::OffsetDateTime;
use vstd::prelude::*;
use vstd::string::StringExecFns;

use super::{center, centered, Rect};
use crate::metadata::{effective_date, entry_date};
use crate::numbers::{least, max_u16, min_u16, most};
use crate::state::{AppState, EntryView, MediaEntry, StateView};
use crate::text::{decimal, encloses, joined, tells, text_of, texts_of, to_decimal};

verus! {

/// A length that is a share of another one: at least one cell and some minimum, as
/// far as there is room.
pub open spec fn share(length: int, percent: int, minimum: int) -> int {
    let target = least(length * percent, u16::MAX as int) / 100;
    most(least(most(target, 1), most(length, 1)), least(length, minimum))
}

fn share_of(length: u16, percent: u16, minimum: u16) -> (result: u16)
    ensures
        result == share(length as int, percent as int, minimum as int),
{
    proof {
        assert(0 <= length * percent <= 65535 * 65535) by (nonlinear_arith)
            requires
                0 <= length <= 65535,
                0 <= percent <= 65535,
        ;
    }
    let product: u32 = length as u32 * percent as u32;
    let capped: u16 = if product > u16::MAX as u32 {
        u16::MAX
    } else {
        product as u16
    };
    let target: u16 = capped / 100;
    max_u16(min_u16(max_u16(target, 1), max_u16(length, 1)), min_u16(length, minimum))
}

/// The area of a floating pane in the middle of another area.
pub fn floating_rect(area: Rect, width_percent: u16, height_percent: u16) -> (rect: Rect)
    requires
        area.valid(),
    ensures
        rect == centered(
            area,
            share(area.width as int, width_percent as int, 24),
            share(area.height as int, height_percent as int, 8),
        ),
{
    center(
        area,
        share_of(area.width, width_percent, 24),
        share_of(area.height, height_percent, 8),
    )
}

/// A time as text in the form of RFC 3339; nothing where it is out of range.
pub uninterp spec fn rfc3339_text(nanos: i128) -> Option<Seq<char>>;

/// `OffsetDateTime::from_unix_timestamp_nanos` and `OffsetDateTime::format` with
/// `Rfc3339`: the result depends on the time alone.
#[verifier::external_body]
fn format_system_time(nanos: i128) -> (text: Option<String>)
    ensures
        text_of(text) == rfc3339_text(nanos),
{
    OffsetDateTime::from_unix_timestamp_nanos(nanos).ok()?.format(&Rfc3339).ok()
}

/// The text of a time, or that it is not known.
pub open spec fn date_label(date: Option<Seq<char>>) -> Seq<char> {
    match date {
        Some(text) => text,
        None => "unknown"@,
    }
}

/// The date of an entry as text.
pub open spec fn date_text(entry: EntryView) -> Option<Seq<char>> {
    match entry_date(entry) {
        Some(nanos) => rfc3339_text(nanos),
        None => None,
    }
}

/// The date of an entry as text.
pub fn entry_date_text(entry: &MediaEntry) -> (text: Option<String>)
    ensures
        text_of(text) == date_text(entry@),
{
    match effective_date(entry) {
        Some(nanos) => format_system_time(nanos),
        None => None,
    }
}

/// The width and height of an entry, with the number of its pixels as text.
pub open spec fn dimensions_line(dimensions: Option<(u32, u32)>, megapixels: Seq<char>) -> Seq<
    char,
> {
    match dimensions {
        Some((width, height)) => "dimensions: "@ + (decimal(width as nat) + " x "@ + decimal(
            height as nat,
        ) + " ("@ + megapixels + " MP)"@),
        None => "dimensions: "@ + "unknown"@,
    }
}

/// The lines of the info pane.
pub open spec fn info_texts(
    entry: EntryView,
    state: StateView,
    megapixels: Seq<char>,
    date: Option<Seq<char>>,
    path: Seq<char>,
) -> Seq<Seq<char>> {
    seq![
        "filename: "@ + entry.display_name,
        dimensions_line(entry.dimensions, megapixels),
        "type: "@ + entry.media_kind.name(),
        "file size: "@ + decimal(entry.file_len as nat) + " bytes"@,
        "date: "@ + date_label(date),
        "path: "@ + path,
        "delete queued: "@ + (if state.delete_queue.contains(entry.path) {
            "yes"@
        } else {
            "no"@
        }),
        "index: "@ + state.position_text(),
    ]
}

fn dimensions_text(dimensions: Option<(u32, u32)>, megapixels: &str) -> (text: String)
    ensures
        text@ == dimensions_line(dimensions, megapixels@),
{
    match dimensions {
        Some((width, height)) => {
            let mut size = to_decimal(width as u128);
            size.append(" x ");
            size.append(to_decimal(height as u128).as_str());
            size.append(" (");
            size.append(megapixels);
            size.append(" MP)");
            joined("dimensions: ", size.as_str())
        },
        None => joined("dimensions: ", "unknown"),
    }
}

/// The lines of the info pane of an entry, whose pixels in millions, date and path
/// read so.
pub fn info_lines(
    entry: &MediaEntry,
    state: &AppState,
    megapixels: &str,
    date: Option<String>,
    path: &str,
) -> (lines: Vec<String>)
    ensures
        texts_of(lines@) == info_texts(entry@, state@, megapixels@, text_of(date), path@),
{
    let mut size = joined("file size: ", to_decimal(entry.file_len as u128).as_str());
    size.append(" bytes");
    let date_line = match &date {
        Some(text) => joined("date: ", text.as_str()),
        None => joined("date: ", "unknown"),
    };
    let queued = if state.is_queued(&entry.path) {
        "yes"
    } else {
        "no"
    };
    let lines: Vec<String> = vec![
        joined("filename: ", entry.display_name.as_str()),
        dimensions_text(entry.dimensions, megapixels),
        joined("type: ", entry.media_kind.as_str()),
        size,
        date_line,
        joined("path: ", path),
        joined("delete queued: ", queued),
        joined("index: ", state.position_label().as_str()),
    ];
    assert(texts_of(lines@) =~= info_texts(entry@, state@, megapixels@, text_of(date), path@));
    lines
}

/// A floating pane has its share of a length, no less than a least size where the length
/// has that, and never more than the length.
pub proof fn law_panes_take_their_share(length: int, percent: int, minimum: int)
    requires
        1 <= length <= u16::MAX,
        0 <= percent <= 100,
        length * percent <= u16::MAX,
        minimum >= 0,
    ensures
        1 <= share(length, percent, minimum) <= length,
        length >= minimum ==> share(length, percent, minimum) >= minimum,
        length < minimum ==> share(length, percent, minimum) == length,
        length * percent >= 100 * minimum && length * percent >= 100 ==> share(
            length,
            percent,
            minimum,
        ) == length * percent / 100,
{
    assert(0 <= length * percent <= 100 * length) by (nonlinear_arith)
        requires
            1 <= length,
            0 <= percent <= 100,
    ;
}

/// The date of a file that has none, or one that cannot be written, is unknown.
pub proof fn law_unknown_dates_are_told(entry: EntryView)
    ensures
        entry_date(entry) is None ==> date_label(date_text(entry)) == "unknown"@,
        entry_date(entry) matches Some(nanos) ==> (rfc3339_text(nanos) matches Some(text)
            ==> date_label(date_text(entry)) == text),
{
}

/// The info pane tells the name, the size, the date and the path of an entry, whether it is
/// marked, and its width and height where they are known.
pub proof fn law_the_info_pane_tells(
    entry: EntryView,
    state: StateView,
    megapixels: Seq<char>,
    date: Seq<char>,
    path: Seq<char>,
)
    ensures
        ({
            let lines = info_texts(entry, state, megapixels, Some(date), path);
            &&& lines.len() == 8
            &&& lines[0] == "filename: "@ + entry.display_name
            &&& entry.dimensions matches Some((width, height)) ==> tells(
                lines[1],
                decimal(width as nat) + " x "@ + decimal(height as nat),
            )
            &&& entry.dimensions is None ==> lines[1] == "dimensions: "@ + "unknown"@
            &&& lines[2] == "type: "@ + entry.media_kind.name()
            &&& tells(lines[3], decimal(entry.file_len as nat))
            &&& lines[4] == "date: "@ + date
            &&& lines[5] == "path: "@ + path
            &&& state.delete_queue.contains(entry.path) ==> lines[6] == "delete queued: "@
                + "yes"@
            &&& !state.delete_queue.contains(entry.path) ==> lines[6] == "delete queued: "@
                + "no"@
        }),
        info_texts(entry, state, megapixels, None, path)[4] == "date: "@ + "unknown"@,
{
    let lines = info_texts(entry, state, megapixels, Some(date), path);
    if let Some((width, height)) = entry.dimensions {
        let size = decimal(width as nat) + " x "@ + decimal(height as nat);
        let rest = " ("@ + megapixels + " MP)"@;
        assert(lines[1] =~= "dimensions: "@ + size + rest);
        assert(encloses(lines[1], "dimensions: "@, size, rest));
    }
    assert(encloses(lines[3], "file size: "@, decimal(entry.file_len as nat), " bytes"@));
}

} // verus!
