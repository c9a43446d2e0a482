//! What is read from a media file beside its pixels.

use std::io::Cursor;

use exif::{In, Tag, Value};
use time::PrimitiveDateTime;
use vstd::prelude::*;

use crate::codec::{content_dimensions, dimensions_in};
use crate::picture::{
    flip_horizontal, flip_vertical, lemma_placed_twice, placed, rotate180, rotate270, rotate90,
    Picture, Placement,
};
use crate::state::{entries_of, EntryView, MediaEntry};
use crate::text::{text_of, trim, trim_nul, trimmed, utf8_of, utf8_text, without_nul};

verus! {

/// The time that an entry is sorted by: when it was taken, else when the file
/// was made, else when it was last written.
pub open spec fn entry_date(entry: EntryView) -> Option<i128> {
    if entry.exif_date is Some {
        entry.exif_date
    } else if entry.created is Some {
        entry.created
    } else {
        entry.modified
    }
}

/// The time that an entry is sorted by.
pub fn effective_date(entry: &MediaEntry) -> (date: Option<i128>)
    ensures
        date == entry_date(entry@),
{
    if entry.exif_date.is_some() {
        entry.exif_date
    } else if entry.created.is_some() {
        entry.created
    } else {
        entry.modified
    }
}

/// The seconds since the Unix epoch of a date and time in UTC that a text gives in
/// a format; nothing where the text is not in the format, or the format is none.
pub uninterp spec fn datetime_seconds(format: Seq<char>, text: Seq<char>) -> Option<i64>;

/// `time::format_description::parse_borrowed`, `PrimitiveDateTime::parse`,
/// `assume_utc` and `unix_timestamp`: the result depends on the two texts alone.
#[verifier::external_body]
fn parse_datetime(format: &str, text: &str) -> (seconds: Option<i64>)
    ensures
        seconds == datetime_seconds(format@, text@),
{
    let description = time::format_description::parse_borrowed::<1>(format).ok()?;
    let parsed = PrimitiveDateTime::parse(text, &description).ok()?;
    Some(parsed.assume_utc().unix_timestamp())
}

/// The format of dates in EXIF metadata.
pub open spec fn exif_format() -> Seq<char> {
    "[year]:[month]:[day] [hour]:[minute]:[second]"@
}

/// The time that an EXIF date stands for, in nanoseconds since the Unix epoch.
pub open spec fn exif_time(seconds: Option<i64>) -> Option<i128> {
    match seconds {
        Some(seconds) => Some((seconds * 1_000_000_000) as i128),
        None => None,
    }
}

/// The time that a number of seconds since the Unix epoch stands for.
pub fn time_of_seconds(seconds: Option<i64>) -> (time: Option<i128>)
    ensures
        time == exif_time(seconds),
{
    match seconds {
        Some(seconds) => Some(seconds as i128 * 1_000_000_000),
        None => None,
    }
}

/// The time that an EXIF date stands for.
pub fn parse_exif_datetime(value: String) -> (time: Option<i128>)
    ensures
        time == exif_time(datetime_seconds(exif_format(), value@)),
{
    time_of_seconds(
        parse_datetime("[year]:[month]:[day] [hour]:[minute]:[second]", value.as_str()),
    )
}

/// The text of an EXIF field, without the NUL characters and the white space
/// around it.
pub open spec fn field_text(bytes: Seq<u8>) -> Option<Seq<char>> {
    match utf8_of(bytes) {
        Some(text) => Some(trimmed(without_nul(text))),
        None => None,
    }
}

/// The text of an EXIF field.
pub fn ascii_value(bytes: &Vec<u8>) -> (text: Option<String>)
    ensures
        text_of(text) == field_text(bytes@),
{
    match utf8_text(bytes) {
        Some(text) => Some(trim(trim_nul(text.as_str()).as_str())),
        None => None,
    }
}

/// What EXIF metadata say of an image. The date is in nanoseconds since the Unix
/// epoch.
#[derive(Debug, Clone, Copy, PartialEq, Eq, Structural)]
pub struct ExifMetadata {
    pub date: Option<i128>,
    pub orientation: Option<u16>,
}

/// What EXIF metadata say, by the values of their orientation and date fields.
pub open spec fn exif_of(orientation: Option<u32>, date: Option<Seq<u8>>) -> ExifMetadata {
    ExifMetadata {
        date: match date {
            Some(bytes) => match field_text(bytes) {
                Some(text) => exif_time(datetime_seconds(exif_format(), text)),
                None => None,
            },
            None => None,
        },
        orientation: match orientation {
            Some(value) => if 1 <= value <= 8 {
                Some(value as u16)
            } else {
                None
            },
            None => None,
        },
    }
}

/// What EXIF metadata say, by the values of their orientation and date fields.
pub fn exif_from_fields(orientation: Option<u32>, date: Option<&Vec<u8>>) -> (exif: ExifMetadata)
    ensures
        exif == exif_of(
            orientation,
            match date {
                Some(bytes) => Some(bytes@),
                None => None,
            },
        ),
{
    let orientation = match orientation {
        Some(value) => if 1 <= value && value <= 8 {
            Some(value as u16)
        } else {
            None
        },
        None => None,
    };
    let date = match date {
        Some(bytes) => match ascii_value(bytes) {
            Some(text) => parse_exif_datetime(text),
            None => None,
        },
        None => None,
    };
    ExifMetadata { date, orientation }
}

/// The first number of the orientation field and the first text of the field with the
/// date of the recording, in the EXIF metadata in the content of a file; nothing where
/// there are no such metadata.
pub uninterp spec fn exif_fields(content: Seq<u8>) -> Option<(Option<u32>, Option<Seq<u8>>)>;

/// The contents of optional bytes.
pub open spec fn bytes_of(bytes: Option<Vec<u8>>) -> Option<Seq<u8>> {
    match bytes {
        Some(bytes) => Some(bytes@),
        None => None,
    }
}

/// `exif::Reader::read_from_container` and `Exif::get_field`, of two fields: the result
/// depends on the content alone.
#[verifier::external_body]
fn read_exif_fields(content: &Vec<u8>) -> (fields: Option<(Option<u32>, Option<Vec<u8>>)>)
    ensures
        match fields {
            Some((orientation, date)) => exif_fields(content@) == Some(
                (orientation, bytes_of(date)),
            ),
            None => exif_fields(content@) is None,
        },
{
    let mut reader = Cursor::new(content.as_slice());
    let exif = exif::Reader::new().read_from_container(&mut reader).ok()?;
    let orientation = match exif.get_field(Tag::Orientation, In::PRIMARY) {
        Some(field) => field.value.get_uint(0),
        None => None,
    };
    let date = match exif.get_field(Tag::DateTimeOriginal, In::PRIMARY) {
        Some(exif::Field { value: Value::Ascii(texts), .. }) => texts.first().cloned(),
        _ => None,
    };
    Some((orientation, date))
}

/// What the EXIF metadata in the content of a file say.
pub open spec fn content_exif(content: Seq<u8>) -> Option<ExifMetadata> {
    match exif_fields(content) {
        Some((orientation, date)) => Some(exif_of(orientation, date)),
        None => None,
    }
}

/// What the EXIF metadata in the content of a file say; nothing where there are none.
pub fn read_exif_metadata(content: &Vec<u8>) -> (exif: Option<ExifMetadata>)
    ensures
        exif == content_exif(content@),
{
    match read_exif_fields(content) {
        Some((orientation, date)) => Some(
            exif_from_fields(
                orientation,
                match &date {
                    Some(bytes) => Some(bytes),
                    None => None,
                },
            ),
        ),
        None => None,
    }
}

/// The width and height of the image in the content of a file.
pub fn read_image_dimensions(content: &Vec<u8>, extension: &str) -> (dimensions: Option<
    (u32, u32),
>)
    ensures
        dimensions == content_dimensions(content@, extension@),
{
    dimensions_in(content, extension)
}

/// The orientation that is known of an image, else that in the content of its file.
pub open spec fn orientation_of(known: Option<u16>, exif: Option<ExifMetadata>) -> Option<u16> {
    if known is Some {
        known
    } else {
        match exif {
            Some(exif) => exif.orientation,
            None => None,
        }
    }
}

/// The orientation that is known of an image, else that in the content of its file.
pub fn orientation_for(known: Option<u16>, content: &Vec<u8>) -> (orientation: Option<u16>)
    ensures
        orientation == orientation_of(known, content_exif(content@)),
{
    if known.is_some() {
        return known;
    }
    match read_exif_metadata(content) {
        Some(exif) => exif.orientation,
        None => None,
    }
}

/// Files above this size are sorted by the times of the file system alone.
pub const TIME_SORT_EXIF_LIMIT: u64 = 67_108_864;

/// Whether the dimensions of an entry are still to be read.
pub open spec fn needs_dimensions(entry: EntryView) -> bool {
    entry.media_kind is Image && entry.dimensions is None && !entry.dimensions_attempted
}

/// Whether the EXIF metadata of an entry are still to be read.
pub open spec fn needs_exif(entry: EntryView) -> bool {
    entry.media_kind is Image && (entry.exif_date is None || entry.exif_orientation is None)
        && !entry.exif_attempted
}

/// Whether sorting by time reads the EXIF metadata of an entry.
pub open spec fn needs_exif_date(entry: EntryView) -> bool {
    entry.media_kind is Image && entry.exif_date is None && !entry.exif_attempted
        && entry.file_len <= TIME_SORT_EXIF_LIMIT
}

/// Whether the dimensions of an entry are still to be read.
pub fn dimensions_needed(entry: &MediaEntry) -> (needed: bool)
    ensures
        needed == needs_dimensions(entry@),
{
    entry.media_kind.is_image() && entry.dimensions.is_none() && !entry.dimensions_attempted
}

/// Whether the EXIF metadata of an entry are still to be read.
pub fn exif_needed(entry: &MediaEntry) -> (needed: bool)
    ensures
        needed == needs_exif(entry@),
{
    entry.media_kind.is_image() && (entry.exif_date.is_none() || entry.exif_orientation.is_none())
        && !entry.exif_attempted
}

/// Whether sorting by time reads the EXIF metadata of an entry.
pub fn exif_date_needed(entry: &MediaEntry) -> (needed: bool)
    ensures
        needed == needs_exif_date(entry@),
{
    entry.media_kind.is_image() && entry.exif_date.is_none() && !entry.exif_attempted
        && entry.file_len <= TIME_SORT_EXIF_LIMIT
}

/// What is known of an entry after what it needed was read; nothing was read
/// where reading failed. Nothing is tried twice, and what is known stays.
pub open spec fn enriched(
    entry: EntryView,
    dimensions: Option<(u32, u32)>,
    exif: Option<ExifMetadata>,
) -> EntryView {
    let sized = EntryView {
        dimensions: if needs_dimensions(entry) {
            dimensions
        } else {
            entry.dimensions
        },
        dimensions_attempted: entry.dimensions_attempted || needs_dimensions(entry)
            || !(entry.media_kind is Image),
        exif_attempted: entry.exif_attempted || needs_exif(entry) || !(entry.media_kind is Image),
        ..entry
    };
    match exif {
        Some(exif) => if needs_exif(entry) {
            EntryView {
                exif_date: if entry.exif_date is Some {
                    entry.exif_date
                } else {
                    exif.date
                },
                exif_orientation: if entry.exif_orientation is Some {
                    entry.exif_orientation
                } else {
                    exif.orientation
                },
                ..sized
            }
        } else {
            sized
        },
        None => sized,
    }
}

/// Notes what was read of an entry.
pub fn enrich_with(
    entry: &mut MediaEntry,
    dimensions: Option<(u32, u32)>,
    exif: Option<ExifMetadata>,
)
    ensures
        final(entry)@ == enriched(old(entry)@, dimensions, exif),
{
    if !entry.media_kind.is_image() {
        entry.dimensions_attempted = true;
        entry.exif_attempted = true;
        return;
    }
    if entry.dimensions.is_none() && !entry.dimensions_attempted {
        entry.dimensions_attempted = true;
        entry.dimensions = dimensions;
    }
    if (entry.exif_date.is_none() || entry.exif_orientation.is_none()) && !entry.exif_attempted {
        entry.exif_attempted = true;
        match exif {
            Some(exif) => {
                if entry.exif_date.is_none() {
                    entry.exif_date = exif.date;
                }
                if entry.exif_orientation.is_none() {
                    entry.exif_orientation = exif.orientation;
                }
            },
            None => {},
        }
    }
}

/// An extension; the empty text where there is none.
pub open spec fn extension_or_none(extension: Option<Seq<char>>) -> Seq<char> {
    match extension {
        Some(extension) => extension,
        None => ""@,
    }
}

/// Reads what an entry needs out of the content of its file; nothing is learned where
/// that could not be read.
pub fn enrich_entry(entry: &mut MediaEntry, content: Option<&Vec<u8>>)
    ensures
        final(entry)@ == match content {
            Some(content) => enriched(
                old(entry)@,
                content_dimensions(content@, extension_or_none(old(entry)@.extension)),
                content_exif(content@),
            ),
            None => enriched(old(entry)@, None, None),
        },
{
    match content {
        Some(content) => {
            let dimensions = if dimensions_needed(entry) {
                match &entry.extension {
                    Some(extension) => read_image_dimensions(content, extension.as_str()),
                    None => read_image_dimensions(content, ""),
                }
            } else {
                None
            };
            let exif = if exif_needed(entry) {
                read_exif_metadata(content)
            } else {
                None
            };
            enrich_with(entry, dimensions, exif)
        },
        None => enrich_with(entry, None, None),
    }
}

/// What is known of an entry after its EXIF metadata were read for sorting by
/// time.
pub open spec fn dated(entry: EntryView, exif: Option<ExifMetadata>) -> EntryView {
    if !(entry.media_kind is Image) {
        EntryView { exif_attempted: true, ..entry }
    } else if needs_exif_date(entry) {
        match exif {
            Some(exif) => EntryView {
                exif_attempted: true,
                exif_date: exif.date,
                exif_orientation: if entry.exif_orientation is Some {
                    entry.exif_orientation
                } else {
                    exif.orientation
                },
                ..entry
            },
            None => EntryView { exif_attempted: true, ..entry },
        }
    } else {
        entry
    }
}

/// Notes what was read of an entry for sorting by time.
fn date_entry(entry: &mut MediaEntry, exif: Option<ExifMetadata>)
    ensures
        final(entry)@ == dated(old(entry)@, exif),
{
    if !entry.media_kind.is_image() {
        entry.exif_attempted = true;
        return;
    }
    if exif_date_needed(entry) {
        entry.exif_attempted = true;
        match exif {
            Some(exif) => {
                entry.exif_date = exif.date;
                if entry.exif_orientation.is_none() {
                    entry.exif_orientation = exif.orientation;
                }
            },
            None => {},
        }
    }
}

/// Notes what was read of each entry for sorting by time.
pub fn enrich_entries_for_time_sort(
    entries: &mut Vec<MediaEntry>,
    reads: &Vec<Option<ExifMetadata>>,
)
    requires
        reads@.len() == old(entries)@.len(),
    ensures
        final(entries)@.len() == old(entries)@.len(),
        forall|i: int|
            0 <= i < old(entries)@.len() ==> #[trigger] entries_of(final(entries)@)[i] == dated(
                entries_of(old(entries)@)[i],
                reads@[i],
            ),
{
    let ghost all = entries@;
    let mut index: usize = 0;
    while index < entries.len()
        invariant
            index <= entries@.len(),
            entries@.len() == all.len(),
            reads@.len() == all.len(),
            forall|i: int|
                0 <= i < index ==> (#[trigger] entries@[i])@ == dated(all[i]@, reads@[i]),
            forall|i: int| index <= i < all.len() ==> #[trigger] entries@[i] == all[i],
        decreases entries@.len() - index,
    {
        date_entry(&mut entries[index], reads[index]);
        index += 1;
    }
}

/// Where an EXIF orientation puts a pixel of a picture with a width and a height.
pub open spec fn oriented(orientation: u16, width: int, height: int) -> Placement {
    |x: int, y: int|
        match orientation {
            2 => (width - 1 - x, y),
            3 => (width - 1 - x, height - 1 - y),
            4 => (x, height - 1 - y),
            5 => (y, x),
            6 => (height - 1 - y, x),
            7 => (height - 1 - y, width - 1 - x),
            8 => (y, width - 1 - x),
            _ => (x, y),
        }
}

/// Whether an EXIF orientation exchanges width and height.
pub open spec fn swaps_axes(orientation: u16) -> bool {
    5 <= orientation <= 8
}

/// The orientation that is meant: the normal one where there is none.
pub open spec fn known_orientation(orientation: Option<u16>) -> u16 {
    match orientation {
        Some(value) => value,
        None => 1,
    }
}

/// Whether a picture is another one turned and mirrored as an EXIF orientation says.
pub open spec fn orients(from: Picture, to: Picture, orientation: Option<u16>) -> bool {
    let known = known_orientation(orientation);
    &&& to.width == if swaps_axes(known) {
        from.height
    } else {
        from.width
    }
    &&& to.height == if swaps_axes(known) {
        from.width
    } else {
        from.height
    }
    &&& placed(from, to, oriented(known, from.width as int, from.height as int))
}

/// Turns and mirrors a picture as its EXIF orientation says.
pub fn apply_orientation(picture: Picture, orientation: Option<u16>) -> (result: Picture)
    requires
        picture.sound(),
    ensures
        result.sound(),
        orients(picture, result, orientation),
{
    let orientation: u16 = match orientation {
        Some(value) => value,
        None => 1,
    };
    let ghost width = picture.width;
    let ghost height = picture.height;
    let ghost place = oriented(orientation, width as int, height as int);
    let ghost source = picture;
    match orientation {
        2 => flip_horizontal(picture),
        3 => rotate180(picture),
        4 => flip_vertical(picture),
        5 => {
            let turned = rotate90(picture);
            let ghost middle = turned;
            let result = flip_horizontal(turned);
            proof {
                lemma_placed_twice(
                    source,
                    middle,
                    result,
                    |x: int, y: int| (height - 1 - y, x),
                    |x: int, y: int| (middle.width - 1 - x, y),
                    place,
                );
            }
            result
        },
        6 => rotate90(picture),
        7 => {
            let turned = rotate270(picture);
            let ghost middle = turned;
            let result = flip_horizontal(turned);
            proof {
                lemma_placed_twice(
                    source,
                    middle,
                    result,
                    |x: int, y: int| (y, width - 1 - x),
                    |x: int, y: int| (middle.width - 1 - x, y),
                    place,
                );
            }
            result
        },
        8 => rotate270(picture),
        _ => picture,
    }
}

/// Every EXIF orientation puts the pixels of a picture at different places inside
/// of the result, so none is lost.
pub proof fn law_orientation_loses_no_pixel(
    orientation: u16,
    width: int,
    height: int,
    x: int,
    y: int,
    other_x: int,
    other_y: int,
)
    requires
        0 <= x < width,
        0 <= y < height,
        0 <= other_x < width,
        0 <= other_y < height,
    ensures
        0 <= oriented(orientation, width, height)(x, y).0 < if swaps_axes(orientation) {
            height
        } else {
            width
        },
        0 <= oriented(orientation, width, height)(x, y).1 < if swaps_axes(orientation) {
            width
        } else {
            height
        },
        oriented(orientation, width, height)(x, y) == oriented(orientation, width, height)(
            other_x,
            other_y,
        ) ==> x == other_x && y == other_y,
{
}

/// The date that an entry is sorted by is its EXIF date, else the time of its creation,
/// else that of its last modification.
pub proof fn law_exif_date_goes_before_file_times(entry: EntryView)
    ensures
        entry.exif_date matches Some(date) ==> entry_date(entry) == Some(date),
        entry.exif_date is None ==> (entry.created matches Some(date) ==> entry_date(entry)
            == Some(date)),
        entry.exif_date is None && entry.created is None ==> entry_date(entry) == entry.modified,
{
}

/// For an order by time the EXIF metadata are read of every image of at most 64 MiB whose
/// EXIF date is not known and was not tried, whatever the file system says of its times;
/// the date that they give is then the one that the image is sorted by. Nothing else
/// changes but the orientation, where it was not known.
pub proof fn law_time_sort_takes_exif_dates(entry: EntryView, exif: Option<ExifMetadata>)
    requires
        entry.media_kind is Image,
        entry.exif_date is None,
        !entry.exif_attempted,
        entry.file_len <= 67_108_864,
    ensures
        needs_exif_date(entry),
        exif matches Some(exif) ==> (exif.date matches Some(date) ==> dated(
            entry,
            Some(exif),
        ).exif_date == Some(date) && entry_date(dated(entry, Some(exif))) == Some(date)),
        exif matches Some(exif) ==> (exif.date is None ==> entry_date(dated(entry, Some(exif)))
            == entry_date(entry)),
        exif is None ==> entry_date(dated(entry, exif)) == entry_date(entry),
        exif matches Some(exif) ==> (entry.exif_orientation is None ==> dated(
            entry,
            Some(exif),
        ).exif_orientation == exif.orientation),
        entry.exif_orientation is Some || exif is None ==> dated(entry, exif).exif_orientation
            == entry.exif_orientation,
        dated(entry, exif).exif_attempted,
        dated(entry, exif) == (EntryView {
            exif_date: dated(entry, exif).exif_date,
            exif_orientation: dated(entry, exif).exif_orientation,
            exif_attempted: true,
            ..entry
        }),
{
}

/// For an order by time nothing is read of videos, of images above 64 MiB, nor of those
/// whose EXIF metadata are known or were tried; their dates stay as they are.
pub proof fn law_time_sort_leaves_the_rest(entry: EntryView, exif: Option<ExifMetadata>)
    requires
        !(entry.media_kind is Image) || entry.exif_date is Some || entry.exif_attempted
            || entry.file_len > 67_108_864,
    ensures
        !needs_exif_date(entry),
        dated(entry, exif) == (EntryView {
            exif_attempted: dated(entry, exif).exif_attempted,
            ..entry
        }),
        entry_date(dated(entry, exif)) == entry_date(entry),
        entry.media_kind is Image ==> dated(entry, exif) == entry,
{
}

/// What is read of an image for its info is noted where it was not known and not tried,
/// and what is known stays; nothing is read of videos, and nothing is tried twice.
pub proof fn law_info_fills_what_is_unknown(
    entry: EntryView,
    dimensions: Option<(u32, u32)>,
    exif: Option<ExifMetadata>,
)
    ensures
        ({
            let after = enriched(entry, dimensions, exif);
            &&& after == (EntryView {
                dimensions: after.dimensions,
                dimensions_attempted: true,
                exif_date: after.exif_date,
                exif_orientation: after.exif_orientation,
                exif_attempted: true,
                ..entry
            }) || (entry.media_kind is Image && (entry.dimensions is Some || (
            entry.exif_date is Some && entry.exif_orientation is Some)))
            &&& after.path == entry.path && after.file_len == entry.file_len && after.created
                == entry.created && after.modified == entry.modified && after.media_kind
                == entry.media_kind
            &&& entry.dimensions is Some || entry.dimensions_attempted || !(
            entry.media_kind is Image) ==> after.dimensions == entry.dimensions
            &&& entry.media_kind is Image && entry.dimensions is None
                && !entry.dimensions_attempted ==> after.dimensions == dimensions
            &&& entry.exif_date is Some || entry.exif_attempted || !(entry.media_kind is Image)
                ==> after.exif_date == entry.exif_date
            &&& entry.media_kind is Image && entry.exif_date is None && !entry.exif_attempted ==> (
            exif matches Some(exif) ==> after.exif_date == exif.date)
            &&& entry.exif_orientation is Some || entry.exif_attempted || !(
            entry.media_kind is Image) ==> after.exif_orientation == entry.exif_orientation
            &&& entry.media_kind is Image && entry.exif_orientation is None
                && !entry.exif_attempted ==> (exif matches Some(exif) ==> after.exif_orientation
                == exif.orientation)
        }),
{
}

/// An orientation counts from 1 to 8, and other numbers are none; a date is read as year,
/// month and day between colons, and hour, minute and second, in whole seconds.
pub proof fn law_exif_fields_are_read(orientation: Option<u32>, date: Option<Seq<u8>>)
    ensures
        orientation matches Some(value) ==> (1 <= value <= 8 ==> exif_of(
            orientation,
            date,
        ).orientation == Some(value as u16)),
        orientation matches Some(value) ==> (value == 0 || value > 8 ==> exif_of(
            orientation,
            date,
        ).orientation is None),
        orientation is None ==> exif_of(orientation, date).orientation is None,
        date is None ==> exif_of(orientation, date).date is None,
        date matches Some(bytes) ==> (utf8_of(bytes) matches Some(text) ==> match datetime_seconds(
            "[year]:[month]:[day] [hour]:[minute]:[second]"@,
            trimmed(without_nul(text)),
        ) {
            Some(seconds) => exif_of(orientation, date).date == Some(
                (seconds * 1_000_000_000) as i128,
            ),
            None => exif_of(orientation, date).date is None,
        }),
{
}

/// Where each pixel of a picture is after it was turned and mirrored, for each of the
/// EXIF orientations: mirrored left to right, turned by half, mirrored top to bottom,
/// exchanged along a diagonal, turned clockwise, exchanged along the other diagonal, and
/// turned counter-clockwise. Any other number leaves the picture as it is.
pub proof fn law_orientations_place_pixels(
    from: Picture,
    to: Picture,
    orientation: u16,
    x: int,
    y: int,
    channel: int,
)
    requires
        from.sound(),
        to.sound(),
        orients(from, to, Some(orientation)),
        0 <= x < from.width,
        0 <= y < from.height,
        0 <= channel < 4,
    ensures
        orientation <= 4 || orientation > 8 ==> to.width == from.width && to.height
            == from.height,
        5 <= orientation <= 8 ==> to.width == from.height && to.height == from.width,
        orientation <= 1 || orientation > 8 ==> to.byte(x, y, channel) == from.byte(x, y, channel),
        orientation == 2 ==> to.byte(from.width - 1 - x, y, channel) == from.byte(x, y, channel),
        orientation == 3 ==> to.byte(from.width - 1 - x, from.height - 1 - y, channel) == from.byte(x, y, channel),
        orientation == 4 ==> to.byte(x, from.height - 1 - y, channel) == from.byte(x, y, channel),
        orientation == 5 ==> to.byte(y, x, channel) == from.byte(x, y, channel),
        orientation == 6 ==> to.byte(from.height - 1 - y, x, channel) == from.byte(x, y, channel),
        orientation == 7 ==> to.byte(from.height - 1 - y, from.width - 1 - x, channel) == from.byte(x, y, channel),
        orientation == 8 ==> to.byte(y, from.width - 1 - x, channel) == from.byte(x, y, channel),
{
    assert(from.byte(x, y, channel) == from.byte(x, y, channel));
}

/// An orientation that is known is kept; else the file tells it, and where it does not
/// there is none.
pub proof fn law_known_orientations_are_kept(known: u16, exif: ExifMetadata)
    ensures
        orientation_of(Some(known), Some(exif)) == Some(known),
        orientation_of(Some(known), None) == Some(known),
        orientation_of(None, Some(exif)) == exif.orientation,
        orientation_of(None, None) is None,
{
}

} // verus!
